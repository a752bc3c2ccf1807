//! What a triangle contributes to one sample, and how a sample takes it.

use vstd::prelude::*;
use crate::vector::{Vec2, Vec3, Vec4};
use crate::fixed::ONE;
use crate::coverage::{
    Barycentric, area2, sample_coord, mix, lemma_inside_within_extent, lemma_mix_equal,
};
use crate::texture::Texture;
use crate::shader::{FragmentShader, phong, shade_phong};
use crate::triangle::{Triangle, pixel_floor, pixel_ceil};

verus! {

/// What one sample holds.
#[derive(Clone, Copy, Debug, PartialEq, Eq, Structural)]
pub struct Sample {
    pub color: Vec4,
    pub depth: i64,
}

/// The weights of the centre of sample (`i`, `j`) against `t`, at `s` samples
/// per pixel and axis.
pub open spec fn weights(t: Triangle, s: int, i: int, j: int) -> (int, int, int, int) {
    Barycentric::at(sample_coord(i), sample_coord(j), 2 * s, t.v[0], t.v[1], t.v[2])
}

/// Whether `t` covers the centre of sample (`i`, `j`): it has an area and none
/// of the three weights is negative.
pub open spec fn covers(t: Triangle, s: int, i: int, j: int) -> bool {
    &&& s > 0
    &&& area2(t.v[0], t.v[1], t.v[2]) != 0
    &&& weights(t, s, i, j).0 >= 0
    &&& weights(t, s, i, j).1 >= 0
    &&& weights(t, s, i, j).2 >= 0
}

/// The colour that the vertex colours give under the weights `w`; opaque.
pub open spec fn flat_color(t: Triangle, w: (int, int, int, int)) -> Vec4 {
    Vec4 {
        x: mix(w, t.color[0].x as int, t.color[1].x as int, t.color[2].x as int) as i32,
        y: mix(w, t.color[0].y as int, t.color[1].y as int, t.color[2].y as int) as i32,
        z: mix(w, t.color[0].z as int, t.color[1].z as int, t.color[2].z as int) as i32,
        w: 65536,
    }
}

/// The colour that the texture gives at the texture coordinate under the
/// weights `w`; opaque.
pub open spec fn textured_color(t: Triangle, tex: Texture, w: (int, int, int, int)) -> Vec4 {
    let u = mix(
        w,
        t.tex_coords[0].x as int,
        t.tex_coords[1].x as int,
        t.tex_coords[2].x as int,
    );
    let v = mix(
        w,
        t.tex_coords[0].y as int,
        t.tex_coords[1].y as int,
        t.tex_coords[2].y as int,
    );
    let c = tex.bilinear(
        Texture::texel_coord(u, tex.spec_width()),
        Texture::texel_coord(v, tex.spec_height()),
    );
    Vec4 { x: c.x, y: c.y, z: c.z, w: 65536 }
}

/// The texture coordinate under the weights `w`.
pub open spec fn tex_coord_at(t: Triangle, w: (int, int, int, int)) -> Vec2 {
    Vec2 {
        x: mix(w, t.tex_coords[0].x as int, t.tex_coords[1].x as int, t.tex_coords[2].x as int) as i32,
        y: mix(w, t.tex_coords[0].y as int, t.tex_coords[1].y as int, t.tex_coords[2].y as int) as i32,
    }
}

/// The view-space position under the weights `w`.
pub open spec fn view_pos_at(t: Triangle, w: (int, int, int, int)) -> Vec3 {
    Vec3 {
        x: mix(w, t.view_pos[0].x as int, t.view_pos[1].x as int, t.view_pos[2].x as int) as i32,
        y: mix(w, t.view_pos[0].y as int, t.view_pos[1].y as int, t.view_pos[2].y as int) as i32,
        z: mix(w, t.view_pos[0].z as int, t.view_pos[1].z as int, t.view_pos[2].z as int) as i32,
    }
}

/// The normal under the weights `w`.
pub open spec fn normal_at(t: Triangle, w: (int, int, int, int)) -> Vec3 {
    Vec3 {
        x: mix(w, t.normal[0].x as int, t.normal[1].x as int, t.normal[2].x as int) as i32,
        y: mix(w, t.normal[0].y as int, t.normal[1].y as int, t.normal[2].y as int) as i32,
        z: mix(w, t.normal[0].z as int, t.normal[1].z as int, t.normal[2].z as int) as i32,
    }
}

/// The colour that the fragment shader `shader` gives under the weights `w`,
/// from the interpolated view-space position, colour, normal and texture
/// coordinate and the texture `tex`.
pub open spec fn lit_color(
    t: Triangle,
    tex: Texture,
    shader: FragmentShader,
    w: (int, int, int, int),
) -> Vec4 {
    let flat = flat_color(t, w);
    let sampled = textured_color(t, tex, w);
    match shader {
        FragmentShader::Unlit => sampled,
        FragmentShader::Phong => phong(
            Vec3 { x: flat.x, y: flat.y, z: flat.z },
            view_pos_at(t, w),
            normal_at(t, w),
        ),
        FragmentShader::TexturedPhong => phong(
            Vec3 { x: sampled.x, y: sampled.y, z: sampled.z },
            view_pos_at(t, w),
            normal_at(t, w),
        ),
    }
}

/// The sample that `t` offers under the weights `w`: its depth interpolated,
/// its colour given by the fragment shader where there is a texture and
/// interpolated from the vertex colours where there is none.
pub open spec fn shaded(
    t: Triangle,
    tex: Option<Texture>,
    shader: FragmentShader,
    w: (int, int, int, int),
) -> Sample {
    Sample {
        color: match tex {
            Some(x) => lit_color(t, x, shader, w),
            None => flat_color(t, w),
        },
        depth: mix(w, t.v[0].z as int, t.v[1].z as int, t.v[2].z as int) as i64,
    }
}

/// What `t` offers to sample (`i`, `j`): nothing where it does not cover it.
pub open spec fn fragment(
    t: Triangle,
    tex: Option<Texture>,
    shader: FragmentShader,
    s: int,
    i: int,
    j: int,
) -> Option<Sample> {
    if covers(t, s, i, j) {
        Some(shaded(t, tex, shader, weights(t, s, i, j)))
    } else {
        None
    }
}

/// The depth test: a sample takes an offer only if it is strictly nearer
/// than what the sample holds.
pub open spec fn resolve(held: Sample, offer: Option<Sample>) -> Sample {
    match offer {
        Some(f) => if f.depth < held.depth {
            f
        } else {
            held
        },
        None => held,
    }
}

/// What a sample holds after the triangles `ts` were offered to it in order.
pub open spec fn resolve_all(
    held: Sample,
    ts: Seq<Option<Triangle>>,
    tex: Option<Texture>,
    shader: FragmentShader,
    s: int,
    i: int,
    j: int,
) -> Sample
    decreases ts.len(),
{
    if ts.len() == 0 {
        held
    } else {
        let before = resolve_all(held, ts.drop_last(), tex, shader, s, i, j);
        match ts.last() {
            Some(t) => resolve(before, fragment(t, tex, shader, s, i, j)),
            None => before,
        }
    }
}

/// Computes the sample that `t` offers at a covered point.
pub fn shade(b: &Barycentric, t: &Triangle, texture: &Option<Texture>, shader: FragmentShader) -> (r:
    Sample)
    requires
        b.wf(),
        b.inside(),
        texture.is_some() ==> texture.unwrap().wf(),
    ensures
        r == shaded(*t, *texture, shader, b@),
{
    let depth: i32 = b.interpolate(t.v[0].z, t.v[1].z, t.v[2].z);
    let flat = Vec4 {
        x: b.interpolate(t.color[0].x, t.color[1].x, t.color[2].x),
        y: b.interpolate(t.color[0].y, t.color[1].y, t.color[2].y),
        z: b.interpolate(t.color[0].z, t.color[1].z, t.color[2].z),
        w: ONE,
    };
    let color = match texture {
        Some(tex) => {
            let u: i32 = b.interpolate(t.tex_coords[0].x, t.tex_coords[1].x, t.tex_coords[2].x);
            let v: i32 = b.interpolate(t.tex_coords[0].y, t.tex_coords[1].y, t.tex_coords[2].y);
            let c = tex.get_color_by_tex_coord(Vec2 { x: u, y: v });
            let point = Vec3 {
                x: b.interpolate(t.view_pos[0].x, t.view_pos[1].x, t.view_pos[2].x),
                y: b.interpolate(t.view_pos[0].y, t.view_pos[1].y, t.view_pos[2].y),
                z: b.interpolate(t.view_pos[0].z, t.view_pos[1].z, t.view_pos[2].z),
            };
            let normal = Vec3 {
                x: b.interpolate(t.normal[0].x, t.normal[1].x, t.normal[2].x),
                y: b.interpolate(t.normal[0].y, t.normal[1].y, t.normal[2].y),
                z: b.interpolate(t.normal[0].z, t.normal[1].z, t.normal[2].z),
            };
            match shader {
                FragmentShader::Unlit => Vec4 { x: c.x, y: c.y, z: c.z, w: ONE },
                FragmentShader::Phong => shade_phong(
                    Vec3 { x: flat.x, y: flat.y, z: flat.z },
                    point,
                    normal,
                ),
                FragmentShader::TexturedPhong => shade_phong(c, point, normal),
            }
        },
        None => flat,
    };
    Sample { color, depth: depth as i64 }
}

/// Redrawing a triangle changes nothing: a sample that has been offered a
/// triangle holds, after the same triangle is offered again at the same
/// depth, what it held after the first offer.
pub proof fn lemma_redraw_is_idle(
    held: Sample,
    t: Triangle,
    tex: Option<Texture>,
    shader: FragmentShader,
    s: int,
    i: int,
    j: int,
)
    ensures
        resolve(
            resolve(held, fragment(t, tex, shader, s, i, j)),
            fragment(t, tex, shader, s, i, j),
        ) == resolve(held, fragment(t, tex, shader, s, i, j)),
{
}

/// An offer at the depth that a sample holds is refused: of two surfaces at
/// one depth the one drawn first stays.
pub proof fn lemma_tie_keeps_first(held: Sample, offer: Sample)
    requires
        offer.depth == held.depth,
    ensures
        resolve(held, Some(offer)) == held,
{
}

/// Of two offers the nearer one stays, in whichever order they come.
pub proof fn lemma_nearer_wins(held: Sample, near: Sample, far: Sample)
    requires
        near.depth < far.depth,
        near.depth < held.depth,
    ensures
        resolve(resolve(held, Some(near)), Some(far)) == near,
        resolve(resolve(held, Some(far)), Some(near)) == near,
{
}

/// Where two triangles cover one sample at different depths, and the nearer
/// is nearer than what the sample holds, the sample ends with the nearer
/// one's offer in whichever order the two are drawn.
pub proof fn lemma_draw_order_is_immaterial(
    held: Sample,
    a: Triangle,
    b: Triangle,
    tex: Option<Texture>,
    shader: FragmentShader,
    s: int,
    i: int,
    j: int,
)
    requires
        covers(a, s, i, j),
        covers(b, s, i, j),
        fragment(a, tex, shader, s, i, j).unwrap().depth < fragment(
            b,
            tex,
            shader,
            s,
            i,
            j,
        ).unwrap().depth,
        fragment(a, tex, shader, s, i, j).unwrap().depth < held.depth,
    ensures
        resolve_all(held, seq![Some(a), Some(b)], tex, shader, s, i, j) == fragment(
            a,
            tex,
            shader,
            s,
            i,
            j,
        ).unwrap(),
        resolve_all(held, seq![Some(b), Some(a)], tex, shader, s, i, j) == fragment(
            a,
            tex,
            shader,
            s,
            i,
            j,
        ).unwrap(),
{
    let fa = fragment(a, tex, shader, s, i, j);
    let fb = fragment(b, tex, shader, s, i, j);
    let ab = seq![Some(a), Some(b)];
    let ba = seq![Some(b), Some(a)];
    let none = Seq::<Option<Triangle>>::empty();
    assert(ab.drop_last() =~= seq![Some(a)]);
    assert(ba.drop_last() =~= seq![Some(b)]);
    assert(seq![Some(a)].drop_last() =~= none);
    assert(seq![Some(b)].drop_last() =~= none);
    assert(resolve_all(held, none, tex, shader, s, i, j) == held);
    assert(resolve_all(held, seq![Some(a)], tex, shader, s, i, j) == resolve(held, fa));
    assert(resolve_all(held, seq![Some(b)], tex, shader, s, i, j) == resolve(held, fb));
    assert(resolve_all(held, ab, tex, shader, s, i, j) == resolve(resolve(held, fa), fb));
    assert(resolve_all(held, ba, tex, shader, s, i, j) == resolve(resolve(held, fb), fa));
}

/// A triangle whose three vertices carry one colour offers that colour at
/// every sample it covers.
pub proof fn lemma_constant_color(
    t: Triangle,
    shader: FragmentShader,
    s: int,
    i: int,
    j: int,
    c: Vec4,
)
    requires
        covers(t, s, i, j),
        t.color[0] == c,
        t.color[1] == c,
        t.color[2] == c,
    ensures
        fragment(t, None, shader, s, i, j).unwrap().color == (Vec4 { w: 65536, ..c }),
{
    let w = weights(t, s, i, j);
    crate::coverage::lemma_weights_sum(
        sample_coord(i),
        sample_coord(j),
        2 * s,
        t.v[0],
        t.v[1],
        t.v[2],
    );
    lemma_mix_equal(w, c.x as int);
    lemma_mix_equal(w, c.y as int);
    lemma_mix_equal(w, c.z as int);
}

/// A covered sample lies in the window of samples that the pixels of the
/// triangle's extent hold.
pub proof fn lemma_covered_in_window(t: Triangle, s: int, i: int, j: int)
    requires
        covers(t, s, i, j),
        0 <= i,
        0 <= j,
    ensures
        s * pixel_floor(t.extent().x0 as int) <= i < s * (pixel_floor(t.extent().x1 as int) + 1),
        s * pixel_floor(t.extent().y0 as int) <= j < s * (pixel_ceil(t.extent().y1 as int) + 1),
{
    let e = t.extent();
    lemma_inside_within_extent(
        sample_coord(i),
        sample_coord(j),
        2 * s,
        t.v[0],
        t.v[1],
        t.v[2],
        e.x0 as int,
        e.x1 as int,
        e.y0 as int,
        e.y1 as int,
    );
    lemma_window_axis(s, i, e.x0 as int, e.x1 as int);
    lemma_window_axis(s, j, e.y0 as int, e.y1 as int);
    let f = pixel_floor(e.y1 as int);
    let c = pixel_ceil(e.y1 as int);
    assert(f <= c);
    assert(s * (f + 1) <= s * (c + 1)) by (nonlinear_arith)
        requires
            s > 0,
            f <= c,
    ;
}

/// One axis of `lemma_covered_in_window`.
proof fn lemma_window_axis(s: int, i: int, lo: int, hi: int)
    requires
        s > 0,
        0 <= i,
        (2 * s) * lo <= sample_coord(i) <= (2 * s) * hi,
    ensures
        s * pixel_floor(lo) <= i < s * (pixel_floor(hi) + 1),
{
    let p = sample_coord(i);
    if lo <= 0 {
        assert(s * 0 == 0);
    } else {
        let f = lo / 65536;
        let sf = s * f;
        assert((2 * s) * (65536 * f) <= (2 * s) * lo) by (nonlinear_arith)
            requires
                s > 0,
                65536 * f <= lo,
        ;
        assert((2 * s) * (65536 * f) == 131072 * sf) by (nonlinear_arith)
            requires
                sf == s * f,
        ;
    }
    if hi <= 0 {
        assert((2 * s) * hi <= 0) by (nonlinear_arith)
            requires
                s > 0,
                hi <= 0,
        ;
    } else {
        let g = hi / 65536;
        let sg = s * (g + 1);
        assert((2 * s) * hi < (2 * s) * (65536 * (g + 1))) by (nonlinear_arith)
            requires
                s > 0,
                hi < 65536 * (g + 1),
        ;
        assert((2 * s) * (65536 * (g + 1)) == 131072 * sg) by (nonlinear_arith)
            requires
                sg == s * (g + 1),
        ;
    }
}

} // verus!
