//! Triangles in flight between assembly and rasterization, and their extent.

use vstd::prelude::*;
use std::ops::Range;
use crate::vector::{Vec2, Vec3, Vec4};
use crate::fixed::{ONE, trunc_div};

verus! {

/// One triangle: per vertex a position, a colour, a texture coordinate, a
/// normal and a view-space position. The position is in object space until a
/// draw call has projected it; the same call fills in the view-space position.
#[derive(Clone, Copy, Debug)]
pub struct Triangle {
    pub v: [Vec4; 3],
    pub color: [Vec4; 3],
    pub tex_coords: [Vec2; 3],
    pub normal: [Vec3; 3],
    pub view_pos: [Vec3; 3],
}

/// An axis-aligned extent in screen space, in fixed-point pixels.
#[derive(Clone, Copy, Debug, PartialEq, Eq, Structural)]
pub struct Rect {
    pub x0: i32,
    pub y0: i32,
    pub x1: i32,
    pub y1: i32,
}

/// Whether a fixed-point value lies between zero and one.
pub open spec fn is_unit(c: int) -> bool {
    0 <= c <= 65536
}

/// Whether all four channels of a colour lie between zero and one.
pub open spec fn is_color(c: Vec4) -> bool {
    is_unit(c.x as int) && is_unit(c.y as int) && is_unit(c.z as int) && is_unit(c.w as int)
}

/// The largest raw value of a channel given on the scale 0 to 255.
pub const BYTE_SCALE_MAX: i32 = 16711680;

/// Whether a fixed-point value lies between 0 and 255.
pub open spec fn is_byte_scaled(c: int) -> bool {
    0 <= c <= 16711680
}

/// A channel on the scale 0 to 255 brought to the scale 0 to 1.
pub open spec fn from_byte_scale(c: int) -> int {
    trunc_div(c, 255)
}

/// The least of three integers.
pub open spec fn min3(a: int, b: int, c: int) -> int {
    if a <= b && a <= c {
        a
    } else if b <= c {
        b
    } else {
        c
    }
}

/// The greatest of three integers.
pub open spec fn max3(a: int, b: int, c: int) -> int {
    if a >= b && a >= c {
        a
    } else if b >= c {
        b
    } else {
        c
    }
}

/// The pixel that holds a coordinate; coordinates left of zero count as pixel zero.
pub open spec fn pixel_floor(x: int) -> int {
    if x <= 0 {
        0
    } else {
        x / 65536
    }
}

/// The first pixel boundary at or after a coordinate, and zero left of zero.
pub open spec fn pixel_ceil(x: int) -> int {
    if x <= 0 {
        0
    } else {
        (x + 65535) / 65536
    }
}

fn scale_from_byte(c: i32) -> (r: i32)
    requires
        is_byte_scaled(c as int),
    ensures
        r == from_byte_scale(c as int),
        is_unit(r as int),
{
    c / 255
}

impl Triangle {
    /// A triangle with every attribute zero.
    pub fn zeros() -> (t: Triangle)
        ensures
            forall|i: int| 0 <= i < 3 ==> t.v[i] == (Vec4 { x: 0, y: 0, z: 0, w: 0 }),
            forall|i: int| 0 <= i < 3 ==> t.color[i] == (Vec4 { x: 0, y: 0, z: 0, w: 0 }),
            forall|i: int| 0 <= i < 3 ==> t.tex_coords[i] == (Vec2 { x: 0, y: 0 }),
            forall|i: int| 0 <= i < 3 ==> t.normal[i] == (Vec3 { x: 0, y: 0, z: 0 }),
            forall|i: int| 0 <= i < 3 ==> t.view_pos[i] == (Vec3 { x: 0, y: 0, z: 0 }),
    {
        let z4 = Vec4 { x: 0, y: 0, z: 0, w: 0 };
        let z3 = Vec3 { x: 0, y: 0, z: 0 };
        let z2 = Vec2 { x: 0, y: 0 };
        Triangle {
            v: [z4, z4, z4],
            color: [z4, z4, z4],
            tex_coords: [z2, z2, z2],
            normal: [z3, z3, z3],
            view_pos: [z3, z3, z3],
        }
    }

    /// A triangle with every attribute zero.
    pub fn new() -> (t: Triangle)
        ensures
            forall|i: int| 0 <= i < 3 ==> t.v[i] == (Vec4 { x: 0, y: 0, z: 0, w: 0 }),
            forall|i: int| 0 <= i < 3 ==> t.color[i] == (Vec4 { x: 0, y: 0, z: 0, w: 0 }),
            forall|i: int| 0 <= i < 3 ==> t.tex_coords[i] == (Vec2 { x: 0, y: 0 }),
            forall|i: int| 0 <= i < 3 ==> t.normal[i] == (Vec3 { x: 0, y: 0, z: 0 }),
            forall|i: int| 0 <= i < 3 ==> t.view_pos[i] == (Vec3 { x: 0, y: 0, z: 0 }),
    {
        Triangle::zeros()
    }

    /// The first vertex.
    pub fn a(&self) -> (r: Vec4)
        ensures
            r == self.v[0],
    {
        self.v[0]
    }

    /// The second vertex.
    pub fn b(&self) -> (r: Vec4)
        ensures
            r == self.v[1],
    {
        self.v[1]
    }

    /// The third vertex.
    pub fn c(&self) -> (r: Vec4)
        ensures
            r == self.v[2],
    {
        self.v[2]
    }

    /// Replaces the position of vertex `index`.
    pub fn set_vertex(&mut self, index: usize, v: Vec4)
        requires
            index < 3,
        ensures
            final(self).view_pos == old(self).view_pos,
            final(self).v@ == old(self).v@.update(index as int, v),
            final(self).color == old(self).color,
            final(self).tex_coords == old(self).tex_coords,
            final(self).normal == old(self).normal,
    {
        self.v[index] = v;
    }

    /// Replaces the colour of vertex `index` by one whose channels lie in 0 to 1.
    pub fn set_color(&mut self, index: usize, color: Vec4)
        requires
            index < 3,
            is_color(color),
        ensures
            final(self).view_pos == old(self).view_pos,
            final(self).color@ == old(self).color@.update(index as int, color),
            final(self).v == old(self).v,
            final(self).tex_coords == old(self).tex_coords,
            final(self).normal == old(self).normal,
    {
        self.color[index] = color;
    }

    /// Replaces the colour of vertex `index` by one whose channels lie in 0 to 1.
    pub fn set_color_vec(&mut self, index: usize, color: Vec4)
        requires
            index < 3,
            is_color(color),
        ensures
            final(self).view_pos == old(self).view_pos,
            final(self).color@ == old(self).color@.update(index as int, color),
            final(self).v == old(self).v,
            final(self).tex_coords == old(self).tex_coords,
            final(self).normal == old(self).normal,
    {
        self.color[index] = color;
    }

    /// Replaces the colour of vertex `index` by one given on the scale 0 to 255.
    pub fn set_color_rgba(&mut self, index: usize, r: i32, g: i32, b: i32, a: i32)
        requires
            index < 3,
            is_byte_scaled(r as int),
            is_byte_scaled(g as int),
            is_byte_scaled(b as int),
            is_byte_scaled(a as int),
        ensures
            final(self).view_pos == old(self).view_pos,
            final(self).color@ == old(self).color@.update(index as int,
                    Vec4 {
                        x: from_byte_scale(r as int) as i32,
                        y: from_byte_scale(g as int) as i32,
                        z: from_byte_scale(b as int) as i32,
                        w: from_byte_scale(a as int) as i32,
                    }),
            final(self).v == old(self).v,
            final(self).tex_coords == old(self).tex_coords,
            final(self).normal == old(self).normal,
            is_color(final(self).color[index as int]),
    {
        let color = Vec4 {
            x: scale_from_byte(r),
            y: scale_from_byte(g),
            z: scale_from_byte(b),
            w: scale_from_byte(a),
        };
        self.color[index] = color;
    }

    /// Replaces the colour of vertex `index` by an opaque one given on the scale
    /// 0 to 255.
    pub fn set_color_rgb(&mut self, index: usize, r: i32, g: i32, b: i32)
        requires
            index < 3,
            is_byte_scaled(r as int),
            is_byte_scaled(g as int),
            is_byte_scaled(b as int),
        ensures
            final(self).view_pos == old(self).view_pos,
            final(self).color@ == old(self).color@.update(index as int,
                    Vec4 {
                        x: from_byte_scale(r as int) as i32,
                        y: from_byte_scale(g as int) as i32,
                        z: from_byte_scale(b as int) as i32,
                        w: 65536,
                    }),
            final(self).v == old(self).v,
            final(self).tex_coords == old(self).tex_coords,
            final(self).normal == old(self).normal,
            is_color(final(self).color[index as int]),
    {
        let color = Vec4 {
            x: scale_from_byte(r),
            y: scale_from_byte(g),
            z: scale_from_byte(b),
            w: ONE,
        };
        self.color[index] = color;
    }

    /// Replaces the texture coordinate of vertex `index`.
    pub fn set_tex_coords(&mut self, index: usize, s: i32, t: i32)
        requires
            index < 3,
        ensures
            final(self).view_pos == old(self).view_pos,
            final(self).tex_coords@ == old(self).tex_coords@.update(index as int, Vec2 { x: s, y: t }),
            final(self).v == old(self).v,
            final(self).color == old(self).color,
            final(self).normal == old(self).normal,
    {
        self.tex_coords[index] = Vec2 { x: s, y: t };
    }

    /// Replaces the normal of vertex `index`.
    pub fn set_normal(&mut self, index: usize, normal: Vec3)
        requires
            index < 3,
        ensures
            final(self).view_pos == old(self).view_pos,
            final(self).normal@ == old(self).normal@.update(index as int, normal),
            final(self).v == old(self).v,
            final(self).color == old(self).color,
            final(self).tex_coords == old(self).tex_coords,
    {
        self.normal[index] = normal;
    }

    /// The three positions as points: each with its `w` set to one.
    pub fn to_vec4(&self) -> (r: [Vec4; 3])
        ensures
            forall|i: int| 0 <= i < 3 ==> r[i] == (Vec4 { w: 65536, ..self.v[i] }),
    {
        let a = self.v[0];
        let b = self.v[1];
        let c = self.v[2];
        [
            Vec4 { x: a.x, y: a.y, z: a.z, w: ONE },
            Vec4 { x: b.x, y: b.y, z: b.z, w: ONE },
            Vec4 { x: c.x, y: c.y, z: c.z, w: ONE },
        ]
    }

    /// The extent of the three positions in the xy-plane.
    pub open spec fn extent(&self) -> Rect {
        Rect {
            x0: min3(self.v[0].x as int, self.v[1].x as int, self.v[2].x as int) as i32,
            y0: min3(self.v[0].y as int, self.v[1].y as int, self.v[2].y as int) as i32,
            x1: max3(self.v[0].x as int, self.v[1].x as int, self.v[2].x as int) as i32,
            y1: max3(self.v[0].y as int, self.v[1].y as int, self.v[2].y as int) as i32,
        }
    }

    /// The smallest axis-aligned rectangle that holds the three positions.
    pub fn bounding_box(&self) -> (r: Rect)
        ensures
            r == self.extent(),
    {
        let mut x_min: i32 = i32::MAX;
        let mut y_min: i32 = i32::MAX;
        let mut x_max: i32 = i32::MIN;
        let mut y_max: i32 = i32::MIN;
        let mut i: usize = 0;
        while i < 3
            invariant
                i <= 3,
                i == 0 ==> x_min == i32::MAX && y_min == i32::MAX && x_max == i32::MIN && y_max
                    == i32::MIN,
                i == 1 ==> x_min == self.v[0].x && y_min == self.v[0].y && x_max == self.v[0].x
                    && y_max == self.v[0].y,
                i == 2 ==> x_min == min3(self.v[0].x as int, self.v[1].x as int, i32::MAX as int)
                    && y_min == min3(self.v[0].y as int, self.v[1].y as int, i32::MAX as int)
                    && x_max == max3(self.v[0].x as int, self.v[1].x as int, i32::MIN as int)
                    && y_max == max3(self.v[0].y as int, self.v[1].y as int, i32::MIN as int),
                i == 3 ==> x_min == self.extent().x0 && y_min == self.extent().y0 && x_max
                    == self.extent().x1 && y_max == self.extent().y1,
            decreases 3 - i,
        {
            let v = self.v[i];
            if v.x < x_min {
                x_min = v.x;
            }
            if v.y < y_min {
                y_min = v.y;
            }
            if v.x > x_max {
                x_max = v.x;
            }
            if v.y > y_max {
                y_max = v.y;
            }
            i = i + 1;
        }
        Rect { x0: x_min, y0: y_min, x1: x_max, y1: y_max }
    }
}

impl Rect {
    /// The first pixel column of the extent.
    pub fn x_start(&self) -> (r: usize)
        ensures
            r == pixel_floor(self.x0 as int),
    {
        if self.x0 <= 0 {
            0
        } else {
            (self.x0 / ONE) as usize
        }
    }

    /// The first pixel row of the extent.
    pub fn y_start(&self) -> (r: usize)
        ensures
            r == pixel_floor(self.y0 as int),
    {
        if self.y0 <= 0 {
            0
        } else {
            (self.y0 / ONE) as usize
        }
    }

    /// The last pixel column of the extent.
    pub fn x_end(&self) -> (r: usize)
        ensures
            r == pixel_floor(self.x1 as int),
    {
        if self.x1 <= 0 {
            0
        } else {
            (self.x1 / ONE) as usize
        }
    }

    /// The pixel row at which the extent ends, rounded up.
    pub fn y_end(&self) -> (r: usize)
        ensures
            r == pixel_ceil(self.y1 as int),
    {
        if self.y1 <= 0 {
            0
        } else {
            ((self.y1 as i64 + 65535) / 65536) as usize
        }
    }

    /// The pixel columns that the extent touches.
    pub fn x_range(&self) -> (r: Range<usize>)
        ensures
            r.start == pixel_floor(self.x0 as int),
            r.end == pixel_floor(self.x1 as int) + 1,
    {
        self.x_start()..(self.x_end() + 1)
    }

    /// The pixel rows that the extent touches.
    pub fn y_range(&self) -> (r: Range<usize>)
        ensures
            r.start == pixel_floor(self.y0 as int),
            r.end == pixel_ceil(self.y1 as int) + 1,
    {
        self.y_start()..(self.y_end() + 1)
    }
}

} // verus!
