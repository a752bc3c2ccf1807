//! The shading stage: the vertex hook and the built-in fragment shaders.
//!
//! The fragment shaders light a surface point by the Phong model: an ambient
//! term, and for each point light a diffuse and a specular term that fall off
//! with the square of the distance to the light.

use vstd::prelude::*;
use crate::vector::{Vec2, Vec3, Vec4};
use crate::fixed::{
    ONE, trunc_div, saturate, fx_mul, fx_div, div_toward_zero, saturate_i32, mul_fixed, div_fixed,
    lemma_mul_bounded,
};
use crate::texture::Texture;

verus! {

/// What the fragment stage is given for one sample.
pub struct FragmentShaderPayload<'a> {
    pub view_pos: Vec3,
    pub color: Vec3,
    pub normal: Vec3,
    pub tex_coords: Vec2,
    pub texture: &'a Texture,
}

/// What the vertex stage is given for one vertex.
pub struct VertexShaderPayload {
    pub position: Vec3,
}

/// The built-in fragment shaders that a rasterizer can be set to.
#[derive(Clone, Copy, Debug, PartialEq, Eq, Structural)]
pub enum FragmentShader {
    /// The colour of the texture at the texture coordinate, unlit.
    Unlit,
    /// Phong lighting of the interpolated vertex colour.
    Phong,
    /// Phong lighting of the colour of the texture.
    TexturedPhong,
}

/// A point light.
#[derive(Clone, Copy, Debug, PartialEq, Eq, Structural)]
pub struct Light {
    pub position: Vec3,
    pub intensity: Vec3,
}

/// The ambient reflectance, 0.005.
pub const KA: i32 = 328;

/// The specular reflectance, 0.7937.
pub const KS: i32 = 52016;

/// The specular exponent.
pub const SHININESS: u32 = 150;

/// The intensity of the ambient light, 10.
pub const AMBIENT: i32 = 655360;

/// The first of the two lights of the scene: at (20, 20, 20), of intensity 500.
pub open spec fn light_one() -> Light {
    Light {
        position: Vec3 { x: 1310720, y: 1310720, z: 1310720 },
        intensity: Vec3 { x: 32768000, y: 32768000, z: 32768000 },
    }
}

/// The second light: at (-20, 20, 0), of intensity 500.
pub open spec fn light_two() -> Light {
    Light {
        position: Vec3 { x: (-1310720i32), y: 1310720, z: 0 },
        intensity: Vec3 { x: 32768000, y: 32768000, z: 32768000 },
    }
}

/// The place of the eye: (0, 0, 10).
pub open spec fn eye() -> Vec3 {
    Vec3 { x: 0, y: 0, z: 655360 }
}

/// The greatest integer whose square does not exceed `n`.
pub open spec fn is_sqrt(n: int, r: int) -> bool {
    0 <= r && r * r <= n < (r + 1) * (r + 1)
}

/// The integer square root of `n`.
pub open spec fn sqrt_floor(n: int) -> int {
    choose|r: int| is_sqrt(n, r)
}

/// Only one integer is the integer square root of `n`.
pub proof fn lemma_sqrt_unique(n: int, r: int, q: int)
    requires
        is_sqrt(n, r),
        is_sqrt(n, q),
    ensures
        r == q,
{
    if r < q {
        assert((r + 1) * (r + 1) <= q * q) by (nonlinear_arith)
            requires
                0 <= r,
                r + 1 <= q,
        ;
    } else if q < r {
        assert((q + 1) * (q + 1) <= r * r) by (nonlinear_arith)
            requires
                0 <= q,
                q + 1 <= r,
        ;
    }
}

/// The integer square root.
pub fn isqrt(n: u64) -> (r: u64)
    ensures
        r == sqrt_floor(n as int),
        is_sqrt(n as int, r as int),
        r <= 0xffff_ffff,
{
    let mut lo: u64 = 0;
    let mut hi: u64 = 4294967296;
    assert(4294967296u64 * 4294967296u64 > n) by (nonlinear_arith)
        requires
            n <= 0xffff_ffff_ffff_ffff,
    ;
    while hi - lo > 1
        invariant
            lo < hi <= 4294967296,
            lo * lo <= n < hi * hi,
        decreases hi - lo,
    {
        let mid: u64 = lo + (hi - lo) / 2;
        proof {
            lemma_mul_bounded(mid as int, mid as int, 4294967296, 4294967296);
        }
        let sq: u128 = (mid as u128) * (mid as u128);
        if sq <= n as u128 {
            lo = mid;
        } else {
            hi = mid;
        }
    }
    proof {
        assert(is_sqrt(n as int, lo as int));
        let w = sqrt_floor(n as int);
        lemma_sqrt_unique(n as int, lo as int, w);
    }
    lo
}

/// The difference of two fixed-point vectors, saturating.
pub open spec fn minus(a: Vec3, b: Vec3) -> Vec3 {
    Vec3 {
        x: saturate(a.x - b.x) as i32,
        y: saturate(a.y - b.y) as i32,
        z: saturate(a.z - b.z) as i32,
    }
}

/// The sum of two fixed-point vectors, saturating.
pub open spec fn plus(a: Vec3, b: Vec3) -> Vec3 {
    Vec3 {
        x: saturate(a.x + b.x) as i32,
        y: saturate(a.y + b.y) as i32,
        z: saturate(a.z + b.z) as i32,
    }
}

/// The sum of the squares of the components, exactly (in 1/65536² units).
pub open spec fn norm_sq(a: Vec3) -> int {
    a.x * a.x + a.y * a.y + a.z * a.z
}

/// The length of a fixed-point vector, rounded down.
pub open spec fn length(a: Vec3) -> int {
    sqrt_floor(norm_sq(a))
}

/// The vector scaled to length one; a vector without length stays as it is.
pub open spec fn normalized(a: Vec3) -> Vec3 {
    let len = length(a);
    if len == 0 {
        a
    } else {
        Vec3 {
            x: saturate(trunc_div(a.x * 65536, len)) as i32,
            y: saturate(trunc_div(a.y * 65536, len)) as i32,
            z: saturate(trunc_div(a.z * 65536, len)) as i32,
        }
    }
}

/// The dot product of two fixed-point vectors, saturating.
pub open spec fn dot(a: Vec3, b: Vec3) -> int {
    saturate(trunc_div(a.x * b.x + a.y * b.y + a.z * b.z, 65536))
}

/// The fixed-point power `b`ⁿ: `n` factors `b`, each product rounded.
pub open spec fn fx_pow(b: int, n: nat) -> int
    decreases n,
{
    if n == 0 {
        65536
    } else {
        fx_mul(fx_pow(b, (n - 1) as nat), b)
    }
}

/// Zero where `a` is negative, `a` otherwise.
pub open spec fn positive_part(a: int) -> int {
    if a < 0 {
        0
    } else {
        a
    }
}

/// One channel of what one light adds: `kd · max(0, N·L) · I / r²` and
/// `ks · max(0, N·H)^p · I / r²`, where `r2` is the squared distance to the
/// light. A light at the very point adds nothing.
pub open spec fn light_channel(kd: int, n_dot_l: int, n_dot_h: int, intensity: int, r2: int) -> int {
    if r2 == 0 {
        0
    } else {
        let fall = fx_div(intensity, r2);
        let diffuse = fx_mul(fx_mul(kd, positive_part(n_dot_l)), fall);
        let specular = fx_mul(
            fx_mul(KS as int, fx_pow(positive_part(n_dot_h), SHININESS as nat)),
            fall,
        );
        saturate(diffuse + specular)
    }
}

/// What one light adds to the colour of the point `point` with normal
/// `normal` and diffuse reflectance `kd`.
pub open spec fn light_term(light: Light, kd: Vec3, point: Vec3, normal: Vec3) -> Vec3 {
    let to_light = minus(light.position, point);
    let l = normalized(to_light);
    let v = normalized(minus(eye(), point));
    let h = normalized(plus(v, l));
    let n = normalized(normal);
    let r2 = saturate(trunc_div(norm_sq(to_light), 65536));
    let nl = dot(n, l);
    let nh = dot(n, h);
    Vec3 {
        x: light_channel(kd.x as int, nl, nh, light.intensity.x as int, r2) as i32,
        y: light_channel(kd.y as int, nl, nh, light.intensity.y as int, r2) as i32,
        z: light_channel(kd.z as int, nl, nh, light.intensity.z as int, r2) as i32,
    }
}

/// The ambient term: `ka` times the ambient intensity, on every channel.
pub open spec fn ambient_term() -> Vec3 {
    Vec3 {
        x: fx_mul(KA as int, AMBIENT as int) as i32,
        y: fx_mul(KA as int, AMBIENT as int) as i32,
        z: fx_mul(KA as int, AMBIENT as int) as i32,
    }
}

/// The Phong colour of a surface point: the ambient term and the terms of the
/// two lights, summed; opaque.
pub open spec fn phong(kd: Vec3, point: Vec3, normal: Vec3) -> Vec4 {
    let c = plus(
        plus(ambient_term(), light_term(light_one(), kd, point, normal)),
        light_term(light_two(), kd, point, normal),
    );
    Vec4 { x: c.x, y: c.y, z: c.z, w: 65536 }
}

fn sub_vec(a: Vec3, b: Vec3) -> (r: Vec3)
    ensures
        r == minus(a, b),
{
    Vec3 {
        x: saturate_i32((a.x as i128) - (b.x as i128)),
        y: saturate_i32((a.y as i128) - (b.y as i128)),
        z: saturate_i32((a.z as i128) - (b.z as i128)),
    }
}

fn add_vec(a: Vec3, b: Vec3) -> (r: Vec3)
    ensures
        r == plus(a, b),
{
    Vec3 {
        x: saturate_i32((a.x as i128) + (b.x as i128)),
        y: saturate_i32((a.y as i128) + (b.y as i128)),
        z: saturate_i32((a.z as i128) + (b.z as i128)),
    }
}

fn squares(a: Vec3) -> (r: u64)
    ensures
        r == norm_sq(a),
{
    proof {
        lemma_mul_bounded(a.x as int, a.x as int, 0x8000_0000, 0x8000_0000);
        lemma_mul_bounded(a.y as int, a.y as int, 0x8000_0000, 0x8000_0000);
        lemma_mul_bounded(a.z as int, a.z as int, 0x8000_0000, 0x8000_0000);
        assert(a.x * a.x >= 0 && a.y * a.y >= 0 && a.z * a.z >= 0) by (nonlinear_arith);
    }
    let x: i128 = (a.x as i128) * (a.x as i128);
    let y: i128 = (a.y as i128) * (a.y as i128);
    let z: i128 = (a.z as i128) * (a.z as i128);
    (x + y + z) as u64
}

/// Scales a vector to length one.
pub fn normalize(a: Vec3) -> (r: Vec3)
    ensures
        r == normalized(a),
{
    let len: u64 = isqrt(squares(a));
    if len == 0 {
        a
    } else {
        Vec3 {
            x: saturate_i32(div_toward_zero((a.x as i128) * 65536, len as i128)),
            y: saturate_i32(div_toward_zero((a.y as i128) * 65536, len as i128)),
            z: saturate_i32(div_toward_zero((a.z as i128) * 65536, len as i128)),
        }
    }
}

/// The dot product of two vectors.
pub fn dot_product(a: Vec3, b: Vec3) -> (r: i32)
    ensures
        r == dot(a, b),
{
    proof {
        lemma_mul_bounded(a.x as int, b.x as int, 0x8000_0000, 0x8000_0000);
        lemma_mul_bounded(a.y as int, b.y as int, 0x8000_0000, 0x8000_0000);
        lemma_mul_bounded(a.z as int, b.z as int, 0x8000_0000, 0x8000_0000);
    }
    let s: i128 = (a.x as i128) * (b.x as i128) + (a.y as i128) * (b.y as i128) + (a.z as i128) * (
    b.z as i128);
    saturate_i32(div_toward_zero(s, 65536))
}

/// The fixed-point power `b`ⁿ.
pub fn power(b: i32, n: u32) -> (r: i32)
    ensures
        r == fx_pow(b as int, n as nat),
{
    let mut r: i32 = ONE;
    let mut k: u32 = 0;
    while k < n
        invariant
            k <= n,
            r == fx_pow(b as int, k as nat),
        decreases n - k,
    {
        r = mul_fixed(r, b);
        k = k + 1;
    }
    r
}

fn light_value(kd: i32, n_dot_l: i32, n_dot_h: i32, intensity: i32, r2: i32) -> (r: i32)
    ensures
        r == light_channel(
            kd as int,
            n_dot_l as int,
            n_dot_h as int,
            intensity as int,
            r2 as int,
        ),
{
    if r2 == 0 {
        return 0;
    }
    let fall: i32 = div_fixed(intensity, r2);
    let nl: i32 = if n_dot_l < 0 { 0 } else { n_dot_l };
    let nh: i32 = if n_dot_h < 0 { 0 } else { n_dot_h };
    let diffuse: i32 = mul_fixed(mul_fixed(kd, nl), fall);
    let specular: i32 = mul_fixed(mul_fixed(KS, power(nh, SHININESS)), fall);
    saturate_i32((diffuse as i128) + (specular as i128))
}

fn light_contribution(light: &Light, kd: Vec3, point: Vec3, normal: Vec3) -> (r: Vec3)
    ensures
        r == light_term(*light, kd, point, normal),
{
    let to_light = sub_vec(light.position, point);
    let l = normalize(to_light);
    let v = normalize(sub_vec(Vec3 { x: 0, y: 0, z: 655360 }, point));
    let h = normalize(add_vec(v, l));
    let n = normalize(normal);
    let r2: i32 = saturate_i32(div_toward_zero(squares(to_light) as i128, 65536));
    let nl: i32 = dot_product(n, l);
    let nh: i32 = dot_product(n, h);
    Vec3 {
        x: light_value(kd.x, nl, nh, light.intensity.x, r2),
        y: light_value(kd.y, nl, nh, light.intensity.y, r2),
        z: light_value(kd.z, nl, nh, light.intensity.z, r2),
    }
}

/// Computes the Phong colour of a surface point.
pub fn shade_phong(kd: Vec3, point: Vec3, normal: Vec3) -> (r: Vec4)
    ensures
        r == phong(kd, point, normal),
{
    let l1 = Light {
        position: Vec3 { x: 1310720, y: 1310720, z: 1310720 },
        intensity: Vec3 { x: 32768000, y: 32768000, z: 32768000 },
    };
    let l2 = Light {
        position: Vec3 { x: -1310720, y: 1310720, z: 0 },
        intensity: Vec3 { x: 32768000, y: 32768000, z: 32768000 },
    };
    let a: i32 = mul_fixed(KA, AMBIENT);
    let ambient = Vec3 { x: a, y: a, z: a };
    let c = add_vec(
        add_vec(ambient, light_contribution(&l1, kd, point, normal)),
        light_contribution(&l2, kd, point, normal),
    );
    Vec4 { x: c.x, y: c.y, z: c.z, w: ONE }
}

/// The vertex stage: it leaves the position where it is.
pub fn vertex_shader(payload: VertexShaderPayload) -> (r: Vec3)
    ensures
        r == payload.position,
{
    payload.position
}

/// Phong lighting with the interpolated vertex colour as diffuse reflectance.
pub fn phong_fragment_shader(payload: FragmentShaderPayload) -> (r: Vec4)
    ensures
        r == phong(payload.color, payload.view_pos, payload.normal),
{
    shade_phong(payload.color, payload.view_pos, payload.normal)
}

/// Phong lighting with the texture, filtered at the texture coordinate, as
/// diffuse reflectance.
pub fn texture_fragment_shader(payload: FragmentShaderPayload) -> (r: Vec4)
    requires
        payload.texture.wf(),
    ensures
        r == phong(
            payload.texture.bilinear(
                Texture::texel_coord(payload.tex_coords.x as int, payload.texture.spec_width()),
                Texture::texel_coord(payload.tex_coords.y as int, payload.texture.spec_height()),
            ),
            payload.view_pos,
            payload.normal,
        ),
{
    let kd = payload.texture.get_color_by_tex_coord(payload.tex_coords);
    shade_phong(kd, payload.view_pos, payload.normal)
}

} // verus!
