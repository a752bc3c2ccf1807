//! Model, view and projection matrices, and the way from object space to the
//! screen.

use vstd::prelude::*;
use crate::vector::{Vec3, Vec4};
use crate::fixed::{
    ONE, trunc_div, saturate, fx_mul, fx_div, div_toward_zero, saturate_i32, mul_fixed, div_fixed,
    lemma_mul_bounded,
};

verus! {

/// A 4×4 matrix of fixed-point entries, row by row: the entry in row `r` and
/// column `c` is `m[4 r + c]`.
#[derive(Clone, Copy, Debug)]
pub struct Mat4 {
    pub m: [i32; 16],
}

/// The entries of the identity matrix.
pub open spec fn identity_entry(j: int) -> int {
    if j % 5 == 0 {
        65536
    } else {
        0
    }
}

/// The identity matrix.
pub open spec fn unit() -> Mat4 {
    Mat4 {
        m: [
            65536i32,
            0,
            0,
            0,
            0,
            65536,
            0,
            0,
            0,
            0,
            65536,
            0,
            0,
            0,
            0,
            65536,
        ],
    }
}

/// Row `r` of `a` times column `c` of `b`, exactly (in 1/65536² units).
pub open spec fn row_dot_col(a: Mat4, b: Mat4, r: int, c: int) -> int {
    a.m[4 * r] * b.m[c] + a.m[4 * r + 1] * b.m[4 + c] + a.m[4 * r + 2] * b.m[8 + c] + a.m[4 * r
        + 3] * b.m[12 + c]
}

/// Entry `j` of the matrix product `a · b`, rounded toward zero and saturated.
pub open spec fn product_entry(a: Mat4, b: Mat4, j: int) -> int {
    saturate(trunc_div(row_dot_col(a, b, j / 4, j % 4), 65536))
}

/// The matrix product `a · b`.
pub open spec fn product(a: Mat4, b: Mat4) -> Mat4 {
    Mat4 {
        m: [
            product_entry(a, b, 0) as i32,
            product_entry(a, b, 1) as i32,
            product_entry(a, b, 2) as i32,
            product_entry(a, b, 3) as i32,
            product_entry(a, b, 4) as i32,
            product_entry(a, b, 5) as i32,
            product_entry(a, b, 6) as i32,
            product_entry(a, b, 7) as i32,
            product_entry(a, b, 8) as i32,
            product_entry(a, b, 9) as i32,
            product_entry(a, b, 10) as i32,
            product_entry(a, b, 11) as i32,
            product_entry(a, b, 12) as i32,
            product_entry(a, b, 13) as i32,
            product_entry(a, b, 14) as i32,
            product_entry(a, b, 15) as i32,
        ],
    }
}

/// Row `r` of `m` times the vector `p`, exactly (in 1/65536² units).
pub open spec fn row_dot_vec(m: Mat4, r: int, p: Vec4) -> int {
    m.m[4 * r] * p.x + m.m[4 * r + 1] * p.y + m.m[4 * r + 2] * p.z + m.m[4 * r + 3] * p.w
}

/// Where the point `p` lands on a `width` × `height` screen under the combined
/// transform `mvp`: clip coordinates divided by `w`, x and y mapped from
/// [-1, 1] to pixels, z mapped to the depth range by `z · 49.95 + 50.05`.
/// A point whose clip `w` is zero lands nowhere.
pub open spec fn screen_point(mvp: Mat4, p: Vec4, width: int, height: int) -> Option<Vec4> {
    let x = row_dot_vec(mvp, 0, p);
    let y = row_dot_vec(mvp, 1, p);
    let z = row_dot_vec(mvp, 2, p);
    let w = row_dot_vec(mvp, 3, p);
    if w == 0 {
        None
    } else {
        Some(
            Vec4 {
                x: saturate(trunc_div(65536 * width * (x + w), 2 * w)) as i32,
                y: saturate(trunc_div(65536 * height * (y + w), 2 * w)) as i32,
                z: saturate(trunc_div(65536 * (z * 4995 + w * 5005), 100 * w)) as i32,
                w: 65536,
            },
        )
    }
}

/// The point `p` moved by the transform `m`, without the perspective divide:
/// the first three coordinates of `m · p`, rounded toward zero and saturated.
pub open spec fn moved_point(m: Mat4, p: Vec4) -> Vec3 {
    Vec3 {
        x: saturate(trunc_div(row_dot_vec(m, 0, p), 65536)) as i32,
        y: saturate(trunc_div(row_dot_vec(m, 1, p), 65536)) as i32,
        z: saturate(trunc_div(row_dot_vec(m, 2, p), 65536)) as i32,
    }
}

/// The entries of the cross-product matrix of `a`: the matrix that takes `v` to
/// `a × v`.
pub open spec fn cross_entry(a: Vec3, r: int, c: int) -> int {
    if r == 0 && c == 1 {
        -(a.z as int)
    } else if r == 0 && c == 2 {
        a.y as int
    } else if r == 1 && c == 0 {
        a.z as int
    } else if r == 1 && c == 2 {
        -(a.x as int)
    } else if r == 2 && c == 0 {
        -(a.y as int)
    } else if r == 2 && c == 1 {
        a.x as int
    } else {
        0
    }
}

/// The entries of a rotation about the axis `a` with the given cosine and sine
/// (Rodrigues' formula: `cos · I + (1 - cos) · a aᵀ + sin · [a]×`).
pub open spec fn rotation_entry(a: Vec3, cos: int, sin: int, j: int) -> int {
    let r = j / 4;
    let c = j % 4;
    if r == 3 || c == 3 {
        identity_entry(j)
    } else {
        let ar = if r == 0 { a.x } else if r == 1 { a.y } else { a.z };
        let ac = if c == 0 { a.x } else if c == 1 { a.y } else { a.z };
        let diag = if r == c { cos } else { 0 };
        let outer = trunc_div((65536 - cos) * (ar * ac), 4294967296);
        let cross = cross_entry(a, r, c);
        saturate(diag + outer + trunc_div(sin * cross, 65536))
    }
}

fn row_times_vec(m: &Mat4, r: usize, p: &Vec4) -> (d: i128)
    requires
        r < 4,
    ensures
        d == row_dot_vec(*m, r as int, *p),
        -0x1_0000_0000_0000_0000 <= d <= 0x1_0000_0000_0000_0000,
{
    proof {
        lemma_mul_bounded(m.m[4 * r as int] as int, p.x as int, 0x8000_0000, 0x8000_0000);
        lemma_mul_bounded(m.m[4 * r + 1] as int, p.y as int, 0x8000_0000, 0x8000_0000);
        lemma_mul_bounded(m.m[4 * r + 2] as int, p.z as int, 0x8000_0000, 0x8000_0000);
        lemma_mul_bounded(m.m[4 * r + 3] as int, p.w as int, 0x8000_0000, 0x8000_0000);
    }
    (m.m[4 * r] as i128) * (p.x as i128) + (m.m[4 * r + 1] as i128) * (p.y as i128) + (m.m[4 * r
        + 2] as i128) * (p.z as i128) + (m.m[4 * r + 3] as i128) * (p.w as i128)
}

impl Mat4 {
    /// The identity matrix.
    pub fn identity() -> (r: Mat4)
        ensures
            r == unit(),
    {
        let r = Mat4 { m: [ONE, 0, 0, 0, 0, ONE, 0, 0, 0, 0, ONE, 0, 0, 0, 0, ONE] };
        assert(r.m =~= unit().m);
        r
    }

    /// The matrix product `self · other`: the transform that applies `other` first.
    pub fn compose(&self, other: &Mat4) -> (r: Mat4)
        ensures
            r == product(*self, *other),
    {
        let mut out: [i32; 16] = [0, 0, 0, 0, 0, 0, 0, 0, 0, 0, 0, 0, 0, 0, 0, 0];
        let mut j: usize = 0;
        while j < 16
            invariant
                j <= 16,
                forall|i: int| 0 <= i < j ==> out[i] == product_entry(*self, *other, i),
            decreases 16 - j,
        {
            let r: usize = j / 4;
            let c: usize = j % 4;
            let col = Vec4 { x: other.m[c], y: other.m[4 + c], z: other.m[8 + c], w: other.m[12 + c] };
            let d: i128 = row_times_vec(self, r, &col);
            out[j] = saturate_i32(div_toward_zero(d, 65536));
            j = j + 1;
        }
        let r = Mat4 { m: out };
        assert(r.m =~= product(*self, *other).m);
        r
    }

    /// Moves the point `p` by the transform, without the perspective divide.
    pub fn transform_point(&self, p: Vec4) -> (r: Vec3)
        ensures
            r == moved_point(*self, p),
    {
        Vec3 {
            x: saturate_i32(div_toward_zero(row_times_vec(self, 0, &p), 65536)),
            y: saturate_i32(div_toward_zero(row_times_vec(self, 1, &p), 65536)),
            z: saturate_i32(div_toward_zero(row_times_vec(self, 2, &p), 65536)),
        }
    }

    /// Projects the point `p` onto a `width` × `height` screen.
    pub fn to_screen(&self, p: Vec4, width: u16, height: u16) -> (r: Option<Vec4>)
        ensures
            r == screen_point(*self, p, width as int, height as int),
    {
        let x: i128 = row_times_vec(self, 0, &p);
        let y: i128 = row_times_vec(self, 1, &p);
        let z: i128 = row_times_vec(self, 2, &p);
        let w: i128 = row_times_vec(self, 3, &p);
        if w == 0 {
            return None;
        }
        let sw: i128 = 65536 * (width as i128);
        let sh: i128 = 65536 * (height as i128);
        proof {
            lemma_mul_bounded(sw as int, x + w, 0x1_0000_0000, 0x2_0000_0000_0000_0000);
            lemma_mul_bounded(sh as int, y + w, 0x1_0000_0000, 0x2_0000_0000_0000_0000);
        }
        let sx: i32 = saturate_i32(div_toward_zero(sw * (x + w), 2 * w));
        let sy: i32 = saturate_i32(div_toward_zero(sh * (y + w), 2 * w));
        let sz: i32 = saturate_i32(div_toward_zero(65536 * (z * 4995 + w * 5005), 100 * w));
        Some(Vec4 { x: sx, y: sy, z: sz, w: ONE })
    }
}

fn negate_fixed(a: i32) -> (r: i32)
    ensures
        r == saturate(-(a as int)),
{
    saturate_i32(-(a as i128))
}

/// The view matrix of a camera at `eye_pos`: the translation by its negation.
pub fn get_view_matrix(eye_pos: Vec3) -> (r: Mat4)
    ensures
        r == view_matrix(eye_pos),
{
    let tx: i32 = negate_fixed(eye_pos.x);
    let ty: i32 = negate_fixed(eye_pos.y);
    let tz: i32 = negate_fixed(eye_pos.z);
    let r = Mat4 { m: [ONE, 0, 0, tx, 0, ONE, 0, ty, 0, 0, ONE, tz, 0, 0, 0, ONE] };
    assert(r.m =~= view_matrix(eye_pos).m);
    r
}

fn rotation_cell(ar: i32, ac: i32, diag: i32, cos: i32, sin: i32, cross: i64) -> (r: i32)
    requires
        -0x8000_0000 <= cross <= 0x8000_0000,
    ensures
        r == saturate(
            diag + trunc_div((65536 - cos) * (ar * ac), 4294967296) + trunc_div(
                sin * cross,
                65536,
            ),
        ),
{
    proof {
        lemma_mul_bounded(ar as int, ac as int, 0x8000_0000, 0x8000_0000);
        lemma_mul_bounded(
            65536 - cos,
            ar * ac,
            0x1_0000_0000,
            0x4000_0000_0000_0000,
        );
        lemma_mul_bounded(sin as int, cross as int, 0x8000_0000, 0x8000_0000);
        crate::fixed::lemma_trunc_div_bounded(
            (65536 - cos) * (ar * ac),
            4294967296,
            0x4000_0000_0000_0000_0000_0000,
        );
        crate::fixed::lemma_trunc_div_bounded(sin * cross, 65536, 0x4000_0000_0000_0000);
    }
    let outer: i128 = div_toward_zero(
        (65536 - (cos as i128)) * ((ar as i128) * (ac as i128)),
        4294967296,
    );
    let turn: i128 = div_toward_zero((sin as i128) * (cross as i128), 65536);
    saturate_i32((diag as i128) + outer + turn)
}

/// The rotation about the axis `axis` (of length one) by the angle whose cosine
/// and sine are `cos` and `sin`.
pub fn get_rotation(axis: Vec3, cos: i32, sin: i32) -> (r: Mat4)
    ensures
        r == rotation(axis, cos as int, sin as int),
{
    let (x, y, z) = (axis.x, axis.y, axis.z);
    let m00: i32 = rotation_cell(x, x, cos, cos, sin, 0);
    let m01: i32 = rotation_cell(x, y, 0, cos, sin, -(z as i64));
    let m02: i32 = rotation_cell(x, z, 0, cos, sin, y as i64);
    let m10: i32 = rotation_cell(y, x, 0, cos, sin, z as i64);
    let m11: i32 = rotation_cell(y, y, cos, cos, sin, 0);
    let m12: i32 = rotation_cell(y, z, 0, cos, sin, -(x as i64));
    let m20: i32 = rotation_cell(z, x, 0, cos, sin, -(y as i64));
    let m21: i32 = rotation_cell(z, y, 0, cos, sin, x as i64);
    let m22: i32 = rotation_cell(z, z, cos, cos, sin, 0);
    let r = Mat4 { m: [m00, m01, m02, 0, m10, m11, m12, 0, m20, m21, m22, 0, 0, 0, 0, ONE] };
    assert(r.m =~= rotation(axis, cos as int, sin as int).m);
    r
}

/// The model matrix: the rotation about the z axis by the angle whose cosine
/// and sine are `cos` and `sin`.
pub fn get_model_matrix(cos: i32, sin: i32) -> (r: Mat4)
    ensures
        r == rotation(Vec3 { x: 0, y: 0, z: 65536 }, cos as int, sin as int),
{
    get_rotation(Vec3 { x: 0, y: 0, z: ONE }, cos, sin)
}

/// The rotation about the axis `a` with the given cosine and sine.
pub open spec fn rotation(a: Vec3, cos: int, sin: int) -> Mat4 {
    Mat4 {
        m: [
            rotation_entry(a, cos, sin, 0) as i32,
            rotation_entry(a, cos, sin, 1) as i32,
            rotation_entry(a, cos, sin, 2) as i32,
            rotation_entry(a, cos, sin, 3) as i32,
            rotation_entry(a, cos, sin, 4) as i32,
            rotation_entry(a, cos, sin, 5) as i32,
            rotation_entry(a, cos, sin, 6) as i32,
            rotation_entry(a, cos, sin, 7) as i32,
            rotation_entry(a, cos, sin, 8) as i32,
            rotation_entry(a, cos, sin, 9) as i32,
            rotation_entry(a, cos, sin, 10) as i32,
            rotation_entry(a, cos, sin, 11) as i32,
            rotation_entry(a, cos, sin, 12) as i32,
            rotation_entry(a, cos, sin, 13) as i32,
            rotation_entry(a, cos, sin, 14) as i32,
            rotation_entry(a, cos, sin, 15) as i32,
        ],
    }
}

/// The view matrix of a camera at `eye`: the translation by its negation.
pub open spec fn view_matrix(eye: Vec3) -> Mat4 {
    Mat4 {
        m: [
            65536i32,
            0,
            0,
            saturate(-(eye.x as int)) as i32,
            0,
            65536,
            0,
            saturate(-(eye.y as int)) as i32,
            0,
            0,
            65536,
            saturate(-(eye.z as int)) as i32,
            0,
            0,
            0,
            65536,
        ],
    }
}

/// The magnitude of a fixed-point number, saturated.
pub open spec fn fx_abs(a: int) -> int {
    saturate(if a >= 0 { a } else { -a })
}

/// The top of the near plane: `-tan(fov / 2) · |near|`.
pub open spec fn frustum_top(tan_half_fov: int, z_near: int) -> int {
    saturate(-fx_mul(tan_half_fov, fx_abs(z_near)))
}

/// The right of the near plane: `top · aspect`.
pub open spec fn frustum_right(tan_half_fov: int, aspect_ratio: int, z_near: int) -> int {
    fx_mul(frustum_top(tan_half_fov, z_near), aspect_ratio)
}

/// Whether a perspective matrix exists for these parameters: the near plane
/// has an extent and differs from the far plane.
pub open spec fn frustum_ok(tan_half_fov: int, aspect_ratio: int, z_near: int, z_far: int) -> bool {
    &&& frustum_top(tan_half_fov, z_near) != 0
    &&& frustum_right(tan_half_fov, aspect_ratio, z_near) != 0
    &&& z_near != z_far
}

/// The entries of the perspective matrix.
pub open spec fn projection_entry(
    tan_half_fov: int,
    aspect_ratio: int,
    z_near: int,
    z_far: int,
    j: int,
) -> int {
    if j == 0 {
        fx_div(z_near, frustum_right(tan_half_fov, aspect_ratio, z_near))
    } else if j == 5 {
        fx_div(z_near, frustum_top(tan_half_fov, z_near))
    } else if j == 10 {
        fx_div(saturate(z_near + z_far), saturate(z_near - z_far))
    } else if j == 11 {
        fx_div(saturate(2 * fx_mul(z_near, z_far)), saturate(z_far - z_near))
    } else if j == 14 {
        65536
    } else {
        0
    }
}

/// The perspective matrix of a frustum.
pub open spec fn projection(tan_half_fov: int, aspect_ratio: int, z_near: int, z_far: int) -> Mat4 {
    Mat4 {
        m: [
            projection_entry(tan_half_fov, aspect_ratio, z_near, z_far, 0) as i32,
            projection_entry(tan_half_fov, aspect_ratio, z_near, z_far, 1) as i32,
            projection_entry(tan_half_fov, aspect_ratio, z_near, z_far, 2) as i32,
            projection_entry(tan_half_fov, aspect_ratio, z_near, z_far, 3) as i32,
            projection_entry(tan_half_fov, aspect_ratio, z_near, z_far, 4) as i32,
            projection_entry(tan_half_fov, aspect_ratio, z_near, z_far, 5) as i32,
            projection_entry(tan_half_fov, aspect_ratio, z_near, z_far, 6) as i32,
            projection_entry(tan_half_fov, aspect_ratio, z_near, z_far, 7) as i32,
            projection_entry(tan_half_fov, aspect_ratio, z_near, z_far, 8) as i32,
            projection_entry(tan_half_fov, aspect_ratio, z_near, z_far, 9) as i32,
            projection_entry(tan_half_fov, aspect_ratio, z_near, z_far, 10) as i32,
            projection_entry(tan_half_fov, aspect_ratio, z_near, z_far, 11) as i32,
            projection_entry(tan_half_fov, aspect_ratio, z_near, z_far, 12) as i32,
            projection_entry(tan_half_fov, aspect_ratio, z_near, z_far, 13) as i32,
            projection_entry(tan_half_fov, aspect_ratio, z_near, z_far, 14) as i32,
            projection_entry(tan_half_fov, aspect_ratio, z_near, z_far, 15) as i32,
        ],
    }
}

/// The perspective matrix of a frustum, given the tangent of half the vertical
/// field of view, the aspect ratio and the two plane distances; none where
/// the frustum is degenerate.
pub fn get_projection_matrix(tan_half_fov: i32, aspect_ratio: i32, z_near: i32, z_far: i32) -> (r:
    Option<Mat4>)
    ensures
        r.is_some() == frustum_ok(
            tan_half_fov as int,
            aspect_ratio as int,
            z_near as int,
            z_far as int,
        ),
        r.is_some() ==> r.unwrap() == projection(
            tan_half_fov as int,
            aspect_ratio as int,
            z_near as int,
            z_far as int,
        ),
{
    let near_abs: i32 = if z_near >= 0 {
        z_near
    } else {
        negate_fixed(z_near)
    };
    let top: i32 = negate_fixed(mul_fixed(tan_half_fov, near_abs));
    let right: i32 = mul_fixed(top, aspect_ratio);
    if top == 0 || right == 0 || z_near == z_far {
        return None;
    }
    let sum: i32 = saturate_i32((z_near as i128) + (z_far as i128));
    let diff: i32 = saturate_i32((z_near as i128) - (z_far as i128));
    let back: i32 = saturate_i32((z_far as i128) - (z_near as i128));
    let twice: i32 = saturate_i32(2 * (mul_fixed(z_near, z_far) as i128));
    let m00: i32 = div_fixed(z_near, right);
    let m11: i32 = div_fixed(z_near, top);
    let m22: i32 = div_fixed(sum, diff);
    let m23: i32 = div_fixed(twice, back);
    let r = Mat4 { m: [m00, 0, 0, 0, 0, m11, 0, 0, 0, 0, m22, m23, 0, 0, ONE, 0] };
    assert(r.m =~= projection(
        tan_half_fov as int,
        aspect_ratio as int,
        z_near as int,
        z_far as int,
    ).m);
    Some(r)
}

} // verus!
