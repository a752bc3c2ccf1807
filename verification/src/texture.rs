//! A two-dimensional RGB image with bilinear lookup.

use vstd::prelude::*;
use crate::vector::{Vec2, Vec3};
use crate::fixed::{ONE, trunc_div, saturate, div_toward_zero, saturate_i32, lemma_mul_bounded};

verus! {

/// An image of 8-bit RGB texels, row by row.
#[derive(Debug)]
pub struct Texture {
    width: u32,
    height: u32,
    data: Vec<u8>,
}

/// The colour shown for a texel that lies outside the image.
pub open spec fn sentinel() -> Vec3 {
    Vec3 { x: 65536, y: 0, z: 0 }
}

/// An 8-bit channel on the scale 0 to 1.
pub open spec fn channel(byte: int) -> int {
    trunc_div(byte * 65536, 255)
}

/// The texel column (or row) at or before a coordinate, within `u32`.
pub open spec fn texel_floor(x: int) -> int {
    if x <= 0 {
        0
    } else if x / 65536 > u32::MAX {
        u32::MAX as int
    } else {
        x / 65536
    }
}

/// The texel column (or row) at or after a coordinate, within `u32`.
pub open spec fn texel_ceil(x: int) -> int {
    if x <= 0 {
        0
    } else if (x + 65535) / 65536 > u32::MAX {
        u32::MAX as int
    } else {
        (x + 65535) / 65536
    }
}

/// One channel of the colour that lies at `x` on the line through `y0` at
/// texel `x0` and `y1` at texel `x1`.
pub open spec fn lerp_channel(x0: int, x1: int, x: int, y0: int, y1: int) -> int {
    if x0 == x1 {
        y0
    } else {
        saturate(y0 + trunc_div((y1 - y0) * (x - 65536 * x0), 65536 * (x1 - x0)))
    }
}

/// The colour that lies at `x` on the line through `y0` at `x0` and `y1` at `x1`.
pub open spec fn lerp(x0: int, x1: int, x: int, y0: Vec3, y1: Vec3) -> Vec3 {
    Vec3 {
        x: lerp_channel(x0, x1, x, y0.x as int, y1.x as int) as i32,
        y: lerp_channel(x0, x1, x, y0.y as int, y1.y as int) as i32,
        z: lerp_channel(x0, x1, x, y0.z as int, y1.z as int) as i32,
    }
}

fn interpolate_channel(x0: u32, x1: u32, x: i64, y0: i32, y1: i32) -> (r: i32)
    ensures
        r == lerp_channel(x0 as int, x1 as int, x as int, y0 as int, y1 as int),
{
    if x0 == x1 {
        return y0;
    }
    let dy: i128 = (y1 as i128) - (y0 as i128);
    let dx: i128 = (x as i128) - 65536 * (x0 as i128);
    proof {
        lemma_mul_bounded(dy as int, dx as int, 0x1_0000_0000, 0x1_0000_0000_0000_0000);
    }
    let step: i128 = div_toward_zero(dy * dx, 65536 * ((x1 as i128) - (x0 as i128)));
    proof {
        crate::fixed::lemma_trunc_div_bounded(
            dy * dx,
            65536 * (x1 - x0),
            0x1_0000_0000_0000_0000_0000_0000,
        );
    }
    saturate_i32((y0 as i128) + step)
}

/// Linear interpolation between the colours `y0` at texel `x0` and `y1` at
/// texel `x1`, at the coordinate `x`; `y0` where the two texels coincide.
pub fn interpolate(x0: u32, x1: u32, x: i64, y0: Vec3, y1: Vec3) -> (r: Vec3)
    ensures
        r == lerp(x0 as int, x1 as int, x as int, y0, y1),
{
    Vec3 {
        x: interpolate_channel(x0, x1, x, y0.x, y1.x),
        y: interpolate_channel(x0, x1, x, y0.y, y1.y),
        z: interpolate_channel(x0, x1, x, y0.z, y1.z),
    }
}

fn floor_texel(x: i64) -> (r: u32)
    ensures
        r == texel_floor(x as int),
{
    if x <= 0 {
        0
    } else {
        let q: i64 = x / 65536;
        if q > 4294967295 {
            u32::MAX
        } else {
            q as u32
        }
    }
}

fn ceil_texel(x: i64) -> (r: u32)
    ensures
        r == texel_ceil(x as int),
{
    if x <= 0 {
        0
    } else {
        let q: i128 = ((x as i128) + 65535) / 65536;
        if q > 4294967295 {
            u32::MAX
        } else {
            q as u32
        }
    }
}

fn channel_of(byte: u8) -> (r: i32)
    ensures
        r == channel(byte as int),
        0 <= r <= 65536,
{
    ((byte as i32) * 65536) / 255
}

impl Texture {
    /// The number of texel columns.
    pub closed spec fn spec_width(&self) -> int {
        self.width as int
    }

    /// The number of texel rows.
    pub closed spec fn spec_height(&self) -> int {
        self.height as int
    }

    /// The bytes of the image: three per texel, row by row.
    pub closed spec fn bytes(&self) -> Seq<u8> {
        self.data@
    }

    /// The image holds exactly its width times height texels.
    pub closed spec fn wf(&self) -> bool {
        self.data@.len() == 3 * (self.width * self.height)
    }

    /// The colour stored at column `x` and row `y`; the sentinel outside the image.
    pub open spec fn texel(&self, x: int, y: int) -> Vec3 {
        if 0 <= x < self.spec_width() && 0 <= y < self.spec_height() {
            let i = 3 * (y * self.spec_width() + x);
            Vec3 {
                x: channel(self.bytes()[i] as int) as i32,
                y: channel(self.bytes()[i + 1] as int) as i32,
                z: channel(self.bytes()[i + 2] as int) as i32,
            }
        } else {
            sentinel()
        }
    }

    /// The bilinearly filtered colour at the texel-space coordinate (`x`, `y`).
    pub open spec fn bilinear(&self, x: int, y: int) -> Vec3 {
        let x1 = texel_floor(x);
        let x2 = texel_ceil(x);
        let y1 = texel_floor(y);
        let y2 = texel_ceil(y);
        let c0 = lerp(x1, x2, x, self.texel(x1, y1), self.texel(x2, y1));
        let c1 = lerp(x1, x2, x, self.texel(x1, y2), self.texel(x2, y2));
        lerp(y1, y2, y, c0, c1)
    }

    /// An image of `width` × `height` texels over `data`, which holds three
    /// bytes per texel; none where `data` has another length.
    pub fn new(width: u32, height: u32, data: Vec<u8>) -> (r: Option<Texture>)
        ensures
            r.is_some() == (data@.len() == 3 * (width * height)),
            r.is_some() ==> r.unwrap().wf() && r.unwrap().spec_width() == width
                && r.unwrap().spec_height() == height && r.unwrap().bytes() == data@,
    {
        proof {
            lemma_mul_bounded(width as int, height as int, 0x1_0000_0000, 0x1_0000_0000);
        }
        let n: u128 = 3 * ((width as u128) * (height as u128));
        if (data.len() as u128) == n {
            Some(Texture { width, height, data })
        } else {
            None
        }
    }

    /// The number of texel columns.
    pub fn width(&self) -> (r: u32)
        ensures
            r == self.spec_width(),
    {
        self.width
    }

    /// The number of texel rows.
    pub fn height(&self) -> (r: u32)
        ensures
            r == self.spec_height(),
    {
        self.height
    }

    /// The colour stored at column `x` and row `y`, or the sentinel.
    pub fn get_pixel(&self, x: u32, y: u32) -> (r: Vec3)
        requires
            self.wf(),
        ensures
            r == self.texel(x as int, y as int),
    {
        if x < self.width && y < self.height {
            let n: usize = self.data.len();
            proof {
                let w = self.width as int;
                let h = self.height as int;
                let (xi, yi) = (x as int, y as int);
                assert(yi * w + xi < w * h) by (nonlinear_arith)
                    requires
                        0 <= xi < w,
                        0 <= yi < h,
                ;
                assert(0 <= yi * w) by (nonlinear_arith)
                    requires
                        0 <= yi,
                        0 <= w,
                ;
                assert(self.data@.len() == 3 * (w * h));
                assert((y as usize) as int * (self.width as usize) as int == yi * w);
            }
            let i: usize = 3 * ((y as usize) * (self.width as usize) + (x as usize));
            Vec3 {
                x: channel_of(self.data[i]),
                y: channel_of(self.data[i + 1]),
                z: channel_of(self.data[i + 2]),
            }
        } else {
            Vec3 { x: ONE, y: 0, z: 0 }
        }
    }

    /// The bilinearly filtered colour at the texel-space coordinate (`x`, `y`):
    /// the four texels around it, interpolated along x and then along y.
    pub fn get_color(&self, x: i64, y: i64) -> (r: Vec3)
        requires
            self.wf(),
        ensures
            r == self.bilinear(x as int, y as int),
    {
        let x1: u32 = floor_texel(x);
        let x2: u32 = ceil_texel(x);
        let y1: u32 = floor_texel(y);
        let y2: u32 = ceil_texel(y);
        let c0 = interpolate(x1, x2, x, self.get_pixel(x1, y1), self.get_pixel(x2, y1));
        let c1 = interpolate(x1, x2, x, self.get_pixel(x1, y2), self.get_pixel(x2, y2));
        interpolate(y1, y2, y, c0, c1)
    }

    /// The texel-space coordinate of a normalized one along an axis of `n` texels.
    pub open spec fn texel_coord(t: int, n: int) -> int {
        if n > 0 {
            t * (n - 1)
        } else {
            0
        }
    }

    /// The bilinearly filtered colour at a normalized coordinate: 0 is the
    /// first texel of an axis and 1 the last.
    pub fn get_color_by_tex_coord(&self, tex_coord: Vec2) -> (r: Vec3)
        requires
            self.wf(),
        ensures
            r == self.bilinear(
                Self::texel_coord(tex_coord.x as int, self.spec_width()),
                Self::texel_coord(tex_coord.y as int, self.spec_height()),
            ),
    {
        let wm: i64 = if self.width > 0 {
            (self.width - 1) as i64
        } else {
            0
        };
        let hm: i64 = if self.height > 0 {
            (self.height - 1) as i64
        } else {
            0
        };
        proof {
            lemma_mul_bounded(tex_coord.x as int, wm as int, 0x8000_0000, 0xffff_ffff);
            lemma_mul_bounded(tex_coord.y as int, hm as int, 0x8000_0000, 0xffff_ffff);
            assert(tex_coord.x * 0 == 0 && tex_coord.y * 0 == 0);
        }
        let x: i64 = (tex_coord.x as i64) * wm;
        let y: i64 = (tex_coord.y as i64) * hm;
        self.get_color(x, y)
    }
}

/// Filtering at the exact place of a texel returns that texel's colour.
pub proof fn lemma_bilinear_at_texel(t: Texture, x: int, y: int)
    requires
        0 <= x <= u32::MAX,
        0 <= y <= u32::MAX,
    ensures
        t.bilinear(65536 * x, 65536 * y) == t.texel(x, y),
{
    assert(texel_floor(65536 * x) == x);
    assert(texel_ceil(65536 * x) == x);
    assert(texel_floor(65536 * y) == y);
    assert(texel_ceil(65536 * y) == y);
}

} // verus!
