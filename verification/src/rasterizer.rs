//! The rasterizer: vertex buffers, a supersampled colour and depth buffer, and
//! the draw calls that fill them.

use vstd::prelude::*;
use std::collections::HashMap;
use crate::vector::{Vec2, Vec3, Vec4, UVec3};
use crate::fixed::{
    ONE, trunc_div, div_toward_zero, lemma_mul_bounded, lemma_trunc_div_between,
};
use crate::downsample::{Sum4, run_sum, run_base, block_sum, average, color_at};
use crate::coverage::compute_barycentric_2d;
use crate::triangle::{pixel_floor, pixel_ceil, is_byte_scaled, from_byte_scale};
use crate::transform::{Mat4, product, screen_point, moved_point};
use crate::shader::FragmentShader;
use crate::texture::Texture;
use crate::line::{line_length, line_point, line_pixels, line_pixel};
use crate::triangle::Triangle;
use crate::fragment::{
    Sample, fragment, resolve, resolve_all, shade, covers, lemma_covered_in_window,
};

verus! {

/// Which of the two sample buffers a clear resets.
#[derive(Clone, Copy, Debug, PartialEq, Eq, Structural)]
pub enum BufferKind {
    Color,
    Depth,
    All,
}

/// What a draw call makes of its index triples.
#[derive(Clone, Copy, Debug, PartialEq, Eq, Structural)]
pub enum PrimitiveKind {
    Line,
    Triangle,
}

/// The handle of a loaded position or texture-coordinate buffer.
#[derive(Clone, Copy, Debug, PartialEq, Eq, Hash)]
pub struct PosBufId(usize);

/// The handle of a loaded index buffer.
#[derive(Clone, Copy, Debug, PartialEq, Eq, Hash)]
pub struct IndBufId(usize);

/// The handle of a loaded colour or normal buffer.
#[derive(Clone, Copy, Debug, PartialEq, Eq, Hash)]
pub struct ColBufId(usize);

impl PosBufId {
    /// The number that the handle was minted with.
    pub closed spec fn view(&self) -> usize {
        self.0
    }
}

impl IndBufId {
    /// The number that the handle was minted with.
    pub closed spec fn view(&self) -> usize {
        self.0
    }
}

impl ColBufId {
    /// The number that the handle was minted with.
    pub closed spec fn view(&self) -> usize {
        self.0
    }
}

/// The most samples that a framebuffer may hold along one axis.
pub const MAX_EXTENT: usize = 32768;

/// The depth that a cleared sample holds: farther than any surface.
pub const FAR: i64 = 9223372036854775807;

/// The colour that a cleared sample holds: opaque black.
pub open spec fn clear_color() -> Vec4 {
    Vec4 { x: 0, y: 0, z: 0, w: 65536 }
}

/// Whether a framebuffer of `w` × `h` pixels with `s` × `s` samples each can be held.
pub open spec fn dimensions_ok(w: int, h: int, s: int) -> bool {
    &&& 0 <= w
    &&& 0 <= h
    &&& 1 <= s <= MAX_EXTENT
    &&& w * s <= MAX_EXTENT
    &&& h * s <= MAX_EXTENT
}

/// The place of the sample in column `i` (from the left) and row `j` (from the
/// bottom) in a buffer of `ws` × `hs` samples whose first row is the top one.
pub open spec fn slot(ws: int, hs: int, i: int, j: int) -> int {
    (hs - 1 - j) * ws + i
}

/// Every slot of a buffer lies within it.
pub proof fn lemma_slot_in_range(ws: int, hs: int, i: int, j: int)
    requires
        0 <= i < ws,
        0 <= j < hs,
    ensures
        0 <= slot(ws, hs, i, j) < ws * hs,
{
    let r = hs - 1 - j;
    assert(0 <= r * ws && r * ws + ws <= hs * ws) by (nonlinear_arith)
        requires
            0 <= r < hs,
            0 < ws,
    ;
    assert(hs * ws == ws * hs) by (nonlinear_arith);
}

/// Two places in a row-by-row buffer coincide only if row and column do.
pub proof fn lemma_row_major_injective(w: int, x: int, y: int, x2: int, y2: int)
    requires
        0 <= x < w,
        0 <= x2 < w,
        y * w + x == y2 * w + x2,
    ensures
        x == x2,
        y == y2,
{
    assert(y == y2) by (nonlinear_arith)
        requires
            y * w + x == y2 * w + x2,
            0 <= x < w,
            0 <= x2 < w,
    ;
}

/// Two samples share a slot only if they are the same sample.
pub proof fn lemma_slot_injective(ws: int, hs: int, i: int, j: int, i2: int, j2: int)
    requires
        0 <= i < ws,
        0 <= i2 < ws,
        slot(ws, hs, i, j) == slot(ws, hs, i2, j2),
    ensures
        i == i2,
        j == j2,
{
    let r = hs - 1 - j;
    let r2 = hs - 1 - j2;
    assert(r == r2) by (nonlinear_arith)
        requires
            r * ws + i == r2 * ws + i2,
            0 <= i < ws,
            0 <= i2 < ws,
    ;
}

/// An object-space position as a point: with `w` equal to one.
pub open spec fn point(p: Vec3) -> Vec4 {
    Vec4 { x: p.x, y: p.y, z: p.z, w: 65536 }
}

/// A buffer colour, given on the scale 0 to 255, as an opaque vertex colour.
pub open spec fn vertex_color(c: Vec4) -> Vec4 {
    Vec4 {
        x: from_byte_scale(c.x as int) as i32,
        y: from_byte_scale(c.y as int) as i32,
        z: from_byte_scale(c.z as int) as i32,
        w: 65536,
    }
}

/// Where three points land on the screen; nowhere if one of them does not.
pub open spec fn project3(mvp: Mat4, a: Vec4, b: Vec4, c: Vec4, w: int, h: int) -> Option<
    [Vec4; 3],
> {
    match (screen_point(mvp, a, w, h), screen_point(mvp, b, w, h), screen_point(mvp, c, w, h)) {
        (Some(p), Some(q), Some(r)) => Some([p, q, r]),
        _ => None,
    }
}

/// Whether an index triple can be assembled from the two buffers: each index
/// lies in both, and the colour it picks lies on the scale 0 to 255.
pub open spec fn vertex_ok(positions: Seq<Vec3>, colors: Seq<Vec4>, i: u32) -> bool {
    &&& i < positions.len()
    &&& i < colors.len()
    &&& is_byte_scaled(colors[i as int].x as int)
    &&& is_byte_scaled(colors[i as int].y as int)
    &&& is_byte_scaled(colors[i as int].z as int)
}

/// Whether all three indices of a triple can be assembled.
pub open spec fn triple_ok(positions: Seq<Vec3>, colors: Seq<Vec4>, tri: UVec3) -> bool {
    vertex_ok(positions, colors, tri.x) && vertex_ok(positions, colors, tri.y) && vertex_ok(
        positions,
        colors,
        tri.z,
    )
}

/// The triangle that an index triple picks from the two buffers, positioned
/// on a `w` × `h` screen; none where a vertex lands nowhere.
pub open spec fn assemble(
    positions: Seq<Vec3>,
    colors: Seq<Vec4>,
    tri: UVec3,
    mvp: Mat4,
    w: int,
    h: int,
) -> Option<Triangle> {
    match project3(
        mvp,
        point(positions[tri.x as int]),
        point(positions[tri.y as int]),
        point(positions[tri.z as int]),
        w,
        h,
    ) {
        Some(v) => Some(
            Triangle {
                v,
                color: [
                    vertex_color(colors[tri.x as int]),
                    vertex_color(colors[tri.y as int]),
                    vertex_color(colors[tri.z as int]),
                ],
                tex_coords: [Vec2 { x: 0, y: 0 }, Vec2 { x: 0, y: 0 }, Vec2 { x: 0, y: 0 }],
                normal: [
                    Vec3 { x: 0, y: 0, z: 0 },
                    Vec3 { x: 0, y: 0, z: 0 },
                    Vec3 { x: 0, y: 0, z: 0 },
                ],
                view_pos: [
                    Vec3 { x: 0, y: 0, z: 0 },
                    Vec3 { x: 0, y: 0, z: 0 },
                    Vec3 { x: 0, y: 0, z: 0 },
                ],
            },
        ),
        None => None,
    }
}

/// The triangles that the index triples pick, in order.
pub open spec fn assemble_all(
    positions: Seq<Vec3>,
    colors: Seq<Vec4>,
    indices: Seq<UVec3>,
    mvp: Mat4,
    w: int,
    h: int,
) -> Seq<Option<Triangle>> {
    Seq::new(indices.len(), |k: int| assemble(positions, colors, indices[k], mvp, w, h))
}

/// A triangle with its three positions moved to the screen by `mvp`, and its
/// view-space positions set to the positions moved by `vm`; none where a
/// vertex lands nowhere.
pub open spec fn reposition(t: Triangle, mvp: Mat4, vm: Mat4, w: int, h: int) -> Option<Triangle> {
    match project3(mvp, t.v[0], t.v[1], t.v[2], w, h) {
        Some(v) => Some(
            Triangle {
                v,
                view_pos: [
                    moved_point(vm, t.v[0]),
                    moved_point(vm, t.v[1]),
                    moved_point(vm, t.v[2]),
                ],
                ..t
            },
        ),
        None => None,
    }
}

/// The triangles of a list, each moved to the screen.
pub open spec fn reposition_all(ts: Seq<Triangle>, mvp: Mat4, vm: Mat4, w: int, h: int) -> Seq<
    Option<Triangle>,
> {
    Seq::new(ts.len(), |k: int| reposition(ts[k], mvp, vm, w, h))
}

/// The colour that lines are drawn with: opaque white.
pub open spec fn line_color() -> Vec4 {
    Vec4 { x: 65536, y: 65536, z: 65536, w: 65536 }
}

/// A frame of `w` × `h` pixels with the pixel `p` (column, and row from the
/// bottom) set to `color`; the frame itself where `p` lies outside it.
pub open spec fn plot(frame: Seq<Vec4>, w: int, h: int, p: (int, int), color: Vec4) -> Seq<Vec4> {
    if p.0 < w && p.1 < h {
        frame.update(slot(w, h, p.0, p.1), color)
    } else {
        frame
    }
}

/// A frame with the first `n` pixels of the segment from `begin` to `end` set.
pub open spec fn plot_line(frame: Seq<Vec4>, w: int, h: int, begin: Vec3, end: Vec3, n: int) -> Seq<
    Vec4,
>
    decreases n,
{
    if n <= 0 {
        frame
    } else {
        plot(
            plot_line(frame, w, h, begin, end, n - 1),
            w,
            h,
            line_point(begin, end, n - 1),
            line_color(),
        )
    }
}

/// A frame with the whole segment from `begin` to `end` set.
pub open spec fn with_line(frame: Seq<Vec4>, w: int, h: int, begin: Vec3, end: Vec3) -> Seq<Vec4> {
    plot_line(frame, w, h, begin, end, line_length(begin, end))
}

/// A frame with the three edges of the triangle `v` drawn: from the first
/// vertex to the second, on to the third, and back.
pub open spec fn with_outline(frame: Seq<Vec4>, w: int, h: int, v: [Vec4; 3]) -> Seq<Vec4> {
    let a = Vec3 { x: v[0].x, y: v[0].y, z: v[0].z };
    let b = Vec3 { x: v[1].x, y: v[1].y, z: v[1].z };
    let c = Vec3 { x: v[2].x, y: v[2].y, z: v[2].z };
    with_line(with_line(with_line(frame, w, h, a, b), w, h, b, c), w, h, c, a)
}

/// A frame with the outlines of the triangles `vs` drawn in order.
pub open spec fn with_outlines(frame: Seq<Vec4>, w: int, h: int, vs: Seq<Option<[Vec4; 3]>>) -> Seq<
    Vec4,
>
    decreases vs.len(),
{
    if vs.len() == 0 {
        frame
    } else {
        let before = with_outlines(frame, w, h, vs.drop_last());
        match vs.last() {
            Some(v) => with_outline(before, w, h, v),
            None => before,
        }
    }
}

/// Whether all three indices of a triple lie below `n`.
pub open spec fn triple_in(n: nat, tri: UVec3) -> bool {
    tri.x < n && tri.y < n && tri.z < n
}

/// The triangles that the index triples pick from the positions, each
/// positioned on a `w` × `h` screen; none where a vertex lands nowhere.
pub open spec fn outlines(positions: Seq<Vec3>, indices: Seq<UVec3>, mvp: Mat4, w: int, h: int) -> Seq<
    Option<[Vec4; 3]>,
> {
    Seq::new(
        indices.len(),
        |k: int|
            project3(
                mvp,
                point(positions[indices[k].x as int]),
                point(positions[indices[k].y as int]),
                point(positions[indices[k].z as int]),
                w,
                h,
            ),
    )
}

/// A channel as a byte: 255 times its value, rounded toward zero and kept
/// within 0 to 255.
pub open spec fn to_byte(c: int) -> int {
    let v = trunc_div(c * 255, 65536);
    if v < 0 {
        0
    } else if v > 255 {
        255
    } else {
        v
    }
}

/// The bytes of a frame: for each colour its four channels as bytes.
pub open spec fn frame_bytes(frame: Seq<Vec4>) -> Seq<u8>
    decreases frame.len(),
{
    if frame.len() == 0 {
        Seq::empty()
    } else {
        let c = frame.last();
        frame_bytes(frame.drop_last()) + seq![
            to_byte(c.x as int) as u8,
            to_byte(c.y as int) as u8,
            to_byte(c.z as int) as u8,
            to_byte(c.w as int) as u8,
        ]
    }
}

/// The bytes of a frame with every pixel opaque: for each colour its red,
/// green and blue as bytes, and 255.
pub open spec fn opaque_bytes(frame: Seq<Vec4>) -> Seq<u8>
    decreases frame.len(),
{
    if frame.len() == 0 {
        Seq::empty()
    } else {
        let c = frame.last();
        opaque_bytes(frame.drop_last()) + seq![
            to_byte(c.x as int) as u8,
            to_byte(c.y as int) as u8,
            to_byte(c.z as int) as u8,
            255u8,
        ]
    }
}

fn byte_of(c: i32) -> (r: u8)
    ensures
        r == to_byte(c as int),
{
    let v: i128 = div_toward_zero((c as i128) * 255, 65536);
    if v < 0 {
        0
    } else if v > 255 {
        255
    } else {
        v as u8
    }
}

fn project_three(mvp: &Mat4, a: Vec4, b: Vec4, c: Vec4, w: u16, h: u16) -> (r: Option<[Vec4; 3]>)
    ensures
        r == project3(*mvp, a, b, c, w as int, h as int),
{
    match mvp.to_screen(a, w, h) {
        Some(p) => match mvp.to_screen(b, w, h) {
            Some(q) => match mvp.to_screen(c, w, h) {
                Some(r) => {
                    let v = [p, q, r];
                    assert(v@ =~= project3(*mvp, a, b, c, w as int, h as int).unwrap()@);
                    Some(v)
                },
                None => None,
            },
            None => None,
        },
        None => None,
    }
}

fn byte_scaled(c: i32) -> (r: bool)
    ensures
        r == is_byte_scaled(c as int),
{
    0 <= c && c <= 16711680
}

fn check_vertex(positions: &Vec<Vec3>, colors: &Vec<Vec4>, i: u32) -> (r: bool)
    ensures
        r == vertex_ok(positions@, colors@, i),
{
    let k: usize = i as usize;
    if k < positions.len() && k < colors.len() {
        let c = colors[k];
        byte_scaled(c.x) && byte_scaled(c.y) && byte_scaled(c.z)
    } else {
        false
    }
}

fn color_of(c: Vec4) -> (r: Vec4)
    requires
        is_byte_scaled(c.x as int),
        is_byte_scaled(c.y as int),
        is_byte_scaled(c.z as int),
    ensures
        r == vertex_color(c),
{
    Vec4 { x: c.x / 255, y: c.y / 255, z: c.z / 255, w: ONE }
}

/// A rasterizer: the loaded vertex buffers, the three matrices, the texture
/// and fragment shader, the samples (colour and depth) and the visible frame.
pub struct Rasterizer {
    w: usize,
    h: usize,
    next_id: usize,
    pos_buf: HashMap<usize, Vec<Vec3>>,
    ind_buf: HashMap<usize, Vec<UVec3>>,
    col_buf: HashMap<usize, Vec<Vec4>>,
    nor_buf: HashMap<usize, Vec<Vec4>>,
    tex_coord: HashMap<usize, Vec<Vec2>>,
    frame_buf: Vec<Vec4>,
    frame_buf_supersampled: Vec<Vec4>,
    depth_buf_supersampled: Vec<i64>,
    model: Mat4,
    view: Mat4,
    projection: Mat4,
    antialiasing: usize,
    texture: Option<Texture>,
    fragment_shader: FragmentShader,
}

impl Rasterizer {
    /// The width of the visible frame in pixels.
    pub closed spec fn spec_width(&self) -> int {
        self.w as int
    }

    /// The height of the visible frame in pixels.
    pub closed spec fn spec_height(&self) -> int {
        self.h as int
    }

    /// The number of samples per pixel along each axis.
    pub closed spec fn spec_antialiasing(&self) -> int {
        self.antialiasing as int
    }

    /// The number of sample columns.
    pub open spec fn sample_columns(&self) -> int {
        self.spec_width() * self.spec_antialiasing()
    }

    /// The number of sample rows.
    pub open spec fn sample_rows(&self) -> int {
        self.spec_height() * self.spec_antialiasing()
    }

    /// The visible frame, row by row from the top.
    pub closed spec fn frame(&self) -> Seq<Vec4> {
        self.frame_buf@
    }

    /// The colours of the samples, row by row from the top.
    pub closed spec fn sample_colors(&self) -> Seq<Vec4> {
        self.frame_buf_supersampled@
    }

    /// The depths of the samples, row by row from the top.
    pub closed spec fn sample_depths(&self) -> Seq<i64> {
        self.depth_buf_supersampled@
    }

    /// What the sample in column `i` from the left and row `j` from the bottom holds.
    pub open spec fn sample(&self, i: int, j: int) -> Sample {
        let k = slot(self.sample_columns(), self.sample_rows(), i, j);
        Sample { color: self.sample_colors()[k], depth: self.sample_depths()[k] }
    }

    /// The visible pixel in column `x` from the left and row `y` from the top.
    pub open spec fn pixel(&self, x: int, y: int) -> Vec4 {
        color_at(self.frame(), y * self.spec_width(), x)
    }

    /// The number of handles minted so far.
    pub closed spec fn minted(&self) -> int {
        self.next_id as int
    }

    /// The loaded position buffers by handle number.
    pub closed spec fn position_buffers(&self) -> Map<usize, Vec<Vec3>> {
        self.pos_buf@
    }

    /// The loaded index buffers by handle number.
    pub closed spec fn index_buffers(&self) -> Map<usize, Vec<UVec3>> {
        self.ind_buf@
    }

    /// The loaded colour buffers by handle number.
    pub closed spec fn color_buffers(&self) -> Map<usize, Vec<Vec4>> {
        self.col_buf@
    }

    /// The loaded normal buffers by handle number.
    pub closed spec fn normal_buffers(&self) -> Map<usize, Vec<Vec4>> {
        self.nor_buf@
    }

    /// The loaded texture-coordinate buffers by handle number.
    pub closed spec fn tex_coord_buffers(&self) -> Map<usize, Vec<Vec2>> {
        self.tex_coord@
    }

    /// The model matrix.
    pub closed spec fn spec_model(&self) -> Mat4 {
        self.model
    }

    /// The view matrix.
    pub closed spec fn spec_view(&self) -> Mat4 {
        self.view
    }

    /// The projection matrix.
    pub closed spec fn spec_projection(&self) -> Mat4 {
        self.projection
    }

    /// The texture that textured draws sample.
    pub closed spec fn spec_texture(&self) -> Option<Texture> {
        self.texture
    }

    /// The fragment shader that textured draws colour their samples with.
    pub closed spec fn spec_fragment_shader(&self) -> FragmentShader {
        self.fragment_shader
    }

    /// No loaded buffer carries a number that is still to be minted.
    pub closed spec fn handles_minted(&self) -> bool {
        &&& forall|k: usize| self.pos_buf@.contains_key(k) ==> k < self.next_id
        &&& forall|k: usize| self.ind_buf@.contains_key(k) ==> k < self.next_id
        &&& forall|k: usize| self.col_buf@.contains_key(k) ==> k < self.next_id
        &&& forall|k: usize| self.nor_buf@.contains_key(k) ==> k < self.next_id
        &&& forall|k: usize| self.tex_coord@.contains_key(k) ==> k < self.next_id
    }

    /// The buffers have the sizes that the dimensions call for.
    pub open spec fn wf(&self) -> bool {
        &&& dimensions_ok(self.spec_width(), self.spec_height(), self.spec_antialiasing())
        &&& self.frame().len() == self.spec_width() * self.spec_height()
        &&& self.sample_colors().len() == self.sample_columns() * self.sample_rows()
        &&& self.sample_depths().len() == self.sample_columns() * self.sample_rows()
        &&& self.handles_minted()
        &&& self.spec_texture().is_some() ==> self.spec_texture().unwrap().wf()
    }

    /// Everything but the sample buffers and the visible frame is as in `other`.
    pub open spec fn same_scene(&self, other: &Rasterizer) -> bool {
        &&& self.spec_width() == other.spec_width()
        &&& self.spec_height() == other.spec_height()
        &&& self.spec_antialiasing() == other.spec_antialiasing()
        &&& self.minted() == other.minted()
        &&& self.position_buffers() == other.position_buffers()
        &&& self.index_buffers() == other.index_buffers()
        &&& self.color_buffers() == other.color_buffers()
        &&& self.normal_buffers() == other.normal_buffers()
        &&& self.tex_coord_buffers() == other.tex_coord_buffers()
        &&& self.spec_model() == other.spec_model()
        &&& self.spec_view() == other.spec_view()
        &&& self.spec_projection() == other.spec_projection()
        &&& self.spec_texture() == other.spec_texture()
        &&& self.spec_fragment_shader() == other.spec_fragment_shader()
    }

    /// The loaded buffers and the handle count are as in `other`.
    pub open spec fn same_buffers(&self, other: &Rasterizer) -> bool {
        &&& self.minted() == other.minted()
        &&& self.position_buffers() == other.position_buffers()
        &&& self.index_buffers() == other.index_buffers()
        &&& self.color_buffers() == other.color_buffers()
        &&& self.normal_buffers() == other.normal_buffers()
        &&& self.tex_coord_buffers() == other.tex_coord_buffers()
    }

    /// The dimensions, the visible frame and the samples are as in `other`.
    pub open spec fn same_targets(&self, other: &Rasterizer) -> bool {
        &&& self.spec_width() == other.spec_width()
        &&& self.spec_height() == other.spec_height()
        &&& self.spec_antialiasing() == other.spec_antialiasing()
        &&& self.frame() == other.frame()
        &&& self.sample_colors() == other.sample_colors()
        &&& self.sample_depths() == other.sample_depths()
    }

    /// Everything but the loaded buffers and the handle count is as in `other`.
    pub open spec fn same_picture(&self, other: &Rasterizer) -> bool {
        &&& self.spec_width() == other.spec_width()
        &&& self.spec_height() == other.spec_height()
        &&& self.spec_antialiasing() == other.spec_antialiasing()
        &&& self.frame() == other.frame()
        &&& self.sample_colors() == other.sample_colors()
        &&& self.sample_depths() == other.sample_depths()
        &&& self.spec_model() == other.spec_model()
        &&& self.spec_view() == other.spec_view()
        &&& self.spec_projection() == other.spec_projection()
        &&& self.spec_texture() == other.spec_texture()
        &&& self.spec_fragment_shader() == other.spec_fragment_shader()
    }

    fn get_next_id(&mut self) -> (id: usize)
        requires
            old(self).next_id < usize::MAX,
        ensures
            id == old(self).next_id,
            *final(self) == (Rasterizer { next_id: (id + 1) as usize, ..*old(self) }),
    {
        let id: usize = self.next_id;
        self.next_id = self.next_id + 1;
        id
    }

    /// A rasterizer for a frame of `w` × `h` pixels with `antialiasing` ×
    /// `antialiasing` samples per pixel: no buffers loaded, identity matrices,
    /// every pixel and sample cleared.
    pub fn new(w: usize, h: usize, antialiasing: usize) -> (r: Rasterizer)
        requires
            dimensions_ok(w as int, h as int, antialiasing as int),
        ensures
            r.wf(),
            r.spec_width() == w,
            r.spec_height() == h,
            r.spec_antialiasing() == antialiasing,
            r.minted() == 0,
            r.position_buffers() == Map::<usize, Vec<Vec3>>::empty(),
            r.index_buffers() == Map::<usize, Vec<UVec3>>::empty(),
            r.color_buffers() == Map::<usize, Vec<Vec4>>::empty(),
            r.normal_buffers() == Map::<usize, Vec<Vec4>>::empty(),
            r.tex_coord_buffers() == Map::<usize, Vec<Vec2>>::empty(),
            r.spec_texture().is_none(),
            r.spec_fragment_shader() == FragmentShader::Unlit,
            r.spec_model() == crate::transform::unit(),
            r.spec_view() == crate::transform::unit(),
            r.spec_projection() == crate::transform::unit(),
            forall|k: int| 0 <= k < r.frame().len() ==> r.frame()[k] == clear_color(),
            forall|k: int| 0 <= k < r.sample_colors().len() ==> r.sample_colors()[k] == clear_color(),
            forall|k: int| 0 <= k < r.sample_depths().len() ==> r.sample_depths()[k] == FAR,
    {
        proof {
            lemma_products_fit(w as int, h as int, antialiasing as int);
        }
        let ws: usize = w * antialiasing;
        let hs: usize = h * antialiasing;
        let black = Vec4 { x: 0, y: 0, z: 0, w: ONE };
        Rasterizer {
            w,
            h,
            next_id: 0,
            pos_buf: HashMap::new(),
            ind_buf: HashMap::new(),
            col_buf: HashMap::new(),
            nor_buf: HashMap::new(),
            tex_coord: HashMap::new(),
            frame_buf: filled(black, w * h),
            frame_buf_supersampled: filled(black, ws * hs),
            depth_buf_supersampled: filled(FAR, ws * hs),
            model: Mat4::identity(),
            view: Mat4::identity(),
            projection: Mat4::identity(),
            antialiasing,
            texture: None,
            fragment_shader: FragmentShader::Unlit,
        }
    }

    /// Replaces the model matrix.
    pub fn set_model(&mut self, model: Mat4)
        ensures
            final(self).spec_model() == model,
            final(self).spec_view() == old(self).spec_view(),
            final(self).spec_projection() == old(self).spec_projection(),
            final(self).spec_texture() == old(self).spec_texture(),
            final(self).spec_fragment_shader() == old(self).spec_fragment_shader(),
            final(self).same_buffers(old(self)),
            final(self).same_targets(old(self)),
            old(self).wf() ==> final(self).wf(),
    {
        self.model = model;
    }

    /// Replaces the view matrix.
    pub fn set_view(&mut self, view: Mat4)
        ensures
            final(self).spec_view() == view,
            final(self).spec_model() == old(self).spec_model(),
            final(self).spec_projection() == old(self).spec_projection(),
            final(self).spec_texture() == old(self).spec_texture(),
            final(self).spec_fragment_shader() == old(self).spec_fragment_shader(),
            final(self).same_buffers(old(self)),
            final(self).same_targets(old(self)),
            old(self).wf() ==> final(self).wf(),
    {
        self.view = view;
    }

    /// Replaces the projection matrix.
    pub fn set_projection(&mut self, projection: Mat4)
        ensures
            final(self).spec_projection() == projection,
            final(self).spec_model() == old(self).spec_model(),
            final(self).spec_view() == old(self).spec_view(),
            final(self).spec_texture() == old(self).spec_texture(),
            final(self).spec_fragment_shader() == old(self).spec_fragment_shader(),
            final(self).same_buffers(old(self)),
            final(self).same_targets(old(self)),
            old(self).wf() ==> final(self).wf(),
    {
        self.projection = projection;
    }

    /// Sets the texture that textured draws sample.
    pub fn set_texture(&mut self, texture: Texture)
        requires
            old(self).wf(),
            texture.wf(),
        ensures
            final(self).spec_texture() == Some(texture),
            final(self).spec_fragment_shader() == old(self).spec_fragment_shader(),
            final(self).spec_model() == old(self).spec_model(),
            final(self).spec_view() == old(self).spec_view(),
            final(self).spec_projection() == old(self).spec_projection(),
            final(self).same_buffers(old(self)),
            final(self).same_targets(old(self)),
            final(self).wf(),
    {
        self.texture = Some(texture);
    }

    /// Sets the fragment shader that textured draws colour their samples with.
    pub fn set_fragment_shader(&mut self, fragment_shader: FragmentShader)
        ensures
            final(self).spec_fragment_shader() == fragment_shader,
            final(self).spec_texture() == old(self).spec_texture(),
            final(self).spec_model() == old(self).spec_model(),
            final(self).spec_view() == old(self).spec_view(),
            final(self).spec_projection() == old(self).spec_projection(),
            final(self).same_buffers(old(self)),
            final(self).same_targets(old(self)),
            old(self).wf() ==> final(self).wf(),
    {
        self.fragment_shader = fragment_shader;
    }

    /// Stores a buffer of object-space positions under a fresh handle.
    pub fn load_positions(&mut self, pos_buf: Vec<Vec3>) -> (id: PosBufId)
        requires
            old(self).wf(),
            old(self).minted() < usize::MAX,
        ensures
            final(self).wf(),
            id@ == old(self).minted(),
            final(self).minted() == old(self).minted() + 1,
            !old(self).position_buffers().contains_key(id@),
            final(self).position_buffers() == old(self).position_buffers().insert(id@, pos_buf),
            final(self).index_buffers() == old(self).index_buffers(),
            final(self).color_buffers() == old(self).color_buffers(),
            final(self).normal_buffers() == old(self).normal_buffers(),
            final(self).tex_coord_buffers() == old(self).tex_coord_buffers(),
            final(self).same_picture(old(self)),
    {
        let id: usize = self.get_next_id();
        self.pos_buf.insert(id, pos_buf);
        PosBufId(id)
    }

    /// Stores a buffer of index triples under a fresh handle.
    pub fn load_indices(&mut self, ind_buf: Vec<UVec3>) -> (id: IndBufId)
        requires
            old(self).wf(),
            old(self).minted() < usize::MAX,
        ensures
            final(self).wf(),
            id@ == old(self).minted(),
            final(self).minted() == old(self).minted() + 1,
            !old(self).index_buffers().contains_key(id@),
            final(self).index_buffers() == old(self).index_buffers().insert(id@, ind_buf),
            final(self).position_buffers() == old(self).position_buffers(),
            final(self).color_buffers() == old(self).color_buffers(),
            final(self).normal_buffers() == old(self).normal_buffers(),
            final(self).tex_coord_buffers() == old(self).tex_coord_buffers(),
            final(self).same_picture(old(self)),
    {
        let id: usize = self.get_next_id();
        self.ind_buf.insert(id, ind_buf);
        IndBufId(id)
    }

    /// Stores a buffer of per-vertex colours under a fresh handle.
    pub fn load_colors(&mut self, col_buf: Vec<Vec4>) -> (id: ColBufId)
        requires
            old(self).wf(),
            old(self).minted() < usize::MAX,
        ensures
            final(self).wf(),
            id@ == old(self).minted(),
            final(self).minted() == old(self).minted() + 1,
            !old(self).color_buffers().contains_key(id@),
            final(self).color_buffers() == old(self).color_buffers().insert(id@, col_buf),
            final(self).position_buffers() == old(self).position_buffers(),
            final(self).index_buffers() == old(self).index_buffers(),
            final(self).normal_buffers() == old(self).normal_buffers(),
            final(self).tex_coord_buffers() == old(self).tex_coord_buffers(),
            final(self).same_picture(old(self)),
    {
        let id: usize = self.get_next_id();
        self.col_buf.insert(id, col_buf);
        ColBufId(id)
    }

    /// Stores a buffer of per-vertex normals under a fresh handle.
    pub fn load_normals(&mut self, normals: Vec<Vec4>) -> (id: ColBufId)
        requires
            old(self).wf(),
            old(self).minted() < usize::MAX,
        ensures
            final(self).wf(),
            id@ == old(self).minted(),
            final(self).minted() == old(self).minted() + 1,
            !old(self).normal_buffers().contains_key(id@),
            final(self).normal_buffers() == old(self).normal_buffers().insert(id@, normals),
            final(self).position_buffers() == old(self).position_buffers(),
            final(self).index_buffers() == old(self).index_buffers(),
            final(self).color_buffers() == old(self).color_buffers(),
            final(self).tex_coord_buffers() == old(self).tex_coord_buffers(),
            final(self).same_picture(old(self)),
    {
        let id: usize = self.get_next_id();
        self.nor_buf.insert(id, normals);
        ColBufId(id)
    }

    /// Stores a buffer of per-vertex texture coordinates under a fresh handle.
    pub fn load_tex_coords(&mut self, tex_coords: Vec<Vec2>) -> (id: PosBufId)
        requires
            old(self).wf(),
            old(self).minted() < usize::MAX,
        ensures
            final(self).wf(),
            id@ == old(self).minted(),
            final(self).minted() == old(self).minted() + 1,
            !old(self).tex_coord_buffers().contains_key(id@),
            final(self).tex_coord_buffers() == old(self).tex_coord_buffers().insert(
                id@,
                tex_coords,
            ),
            final(self).position_buffers() == old(self).position_buffers(),
            final(self).index_buffers() == old(self).index_buffers(),
            final(self).color_buffers() == old(self).color_buffers(),
            final(self).normal_buffers() == old(self).normal_buffers(),
            final(self).same_picture(old(self)),
    {
        let id: usize = self.get_next_id();
        self.tex_coord.insert(id, tex_coords);
        PosBufId(id)
    }

    /// The position buffer loaded under `id`, if there is one.
    pub fn positions(&self, id: &PosBufId) -> (r: Option<&Vec<Vec3>>)
        ensures
            r.is_some() == self.position_buffers().contains_key(id@),
            r.is_some() ==> *r.unwrap() == self.position_buffers()[id@],
    {
        self.pos_buf.get(&id.0)
    }

    /// The index buffer loaded under `id`, if there is one.
    pub fn indices(&self, id: &IndBufId) -> (r: Option<&Vec<UVec3>>)
        ensures
            r.is_some() == self.index_buffers().contains_key(id@),
            r.is_some() ==> *r.unwrap() == self.index_buffers()[id@],
    {
        self.ind_buf.get(&id.0)
    }

    /// The colour buffer loaded under `id`, if there is one.
    pub fn colors(&self, id: &ColBufId) -> (r: Option<&Vec<Vec4>>)
        ensures
            r.is_some() == self.color_buffers().contains_key(id@),
            r.is_some() ==> *r.unwrap() == self.color_buffers()[id@],
    {
        self.col_buf.get(&id.0)
    }

    /// The normal buffer loaded under `id`, if there is one.
    pub fn normals(&self, id: &ColBufId) -> (r: Option<&Vec<Vec4>>)
        ensures
            r.is_some() == self.normal_buffers().contains_key(id@),
            r.is_some() ==> *r.unwrap() == self.normal_buffers()[id@],
    {
        self.nor_buf.get(&id.0)
    }

    /// The texture-coordinate buffer loaded under `id`, if there is one.
    pub fn tex_coords(&self, id: &PosBufId) -> (r: Option<&Vec<Vec2>>)
        ensures
            r.is_some() == self.tex_coord_buffers().contains_key(id@),
            r.is_some() ==> *r.unwrap() == self.tex_coord_buffers()[id@],
    {
        self.tex_coord.get(&id.0)
    }

    /// The width of the visible frame in pixels.
    pub fn width(&self) -> (r: usize)
        ensures
            r == self.spec_width(),
    {
        self.w
    }

    /// The height of the visible frame in pixels.
    pub fn height(&self) -> (r: usize)
        ensures
            r == self.spec_height(),
    {
        self.h
    }

    /// The number of samples per pixel along each axis.
    pub fn antialiasing(&self) -> (r: usize)
        ensures
            r == self.spec_antialiasing(),
    {
        self.antialiasing
    }

    /// The number of handles minted so far.
    pub fn minted_handles(&self) -> (r: usize)
        ensures
            r == self.minted(),
    {
        self.next_id
    }

    /// Whether a texture has been set.
    pub fn has_texture(&self) -> (r: bool)
        ensures
            r == self.spec_texture().is_some(),
    {
        self.texture.is_some()
    }

    /// The number of bytes that `dump_u8norm` writes per pixel.
    pub fn bytes_per_pixel(&self) -> (r: usize)
        ensures
            r == 4,
    {
        4
    }

    /// The visible frame, row by row from the top.
    pub fn frame_buffer(&self) -> (r: &Vec<Vec4>)
        ensures
            r@ == self.frame(),
    {
        &self.frame_buf
    }

    /// The place in the visible frame of the pixel in column `x` from the left
    /// and row `y` from the bottom.
    pub fn get_index(&self, x: usize, y: usize) -> (r: usize)
        requires
            self.wf(),
            x < self.spec_width(),
            y < self.spec_height(),
        ensures
            r == slot(self.spec_width(), self.spec_height(), x as int, y as int),
            r < self.frame().len(),
    {
        proof {
            lemma_products_fit(self.w as int, self.h as int, self.antialiasing as int);
            lemma_slot_in_range(self.w as int, self.h as int, x as int, y as int);
            let r = self.h - 1 - y;
            assert(0 <= r * self.w <= self.h * self.w) by (nonlinear_arith)
                requires
                    0 <= r < self.h,
                    0 <= self.w,
            ;
            assert(self.h * self.w == self.w * self.h) by (nonlinear_arith);
        }
        (self.h - 1 - y) * self.w + x
    }

    /// The place in the sample buffers of the sample in column `x` from the
    /// left and row `y` from the bottom.
    pub fn get_index_for_antialiased(&self, x: usize, y: usize) -> (r: usize)
        requires
            self.wf(),
            x < self.sample_columns(),
            y < self.sample_rows(),
        ensures
            r == slot(self.sample_columns(), self.sample_rows(), x as int, y as int),
            r < self.sample_colors().len(),
    {
        proof {
            lemma_products_fit(self.w as int, self.h as int, self.antialiasing as int);
            let ws = self.w * self.antialiasing;
            let hs = self.h * self.antialiasing;
            lemma_slot_in_range(ws, hs, x as int, y as int);
            let r = hs - 1 - y;
            assert(0 <= r * ws <= hs * ws) by (nonlinear_arith)
                requires
                    0 <= r < hs,
                    0 <= ws,
            ;
            assert(hs * ws == ws * hs) by (nonlinear_arith);
        }
        (self.h * self.antialiasing - 1 - y) * (self.w * self.antialiasing) + x
    }

    /// Writes a colour into the visible frame; a point outside it is ignored.
    pub fn set_pixel(&mut self, point: (usize, usize), color: Vec4)
        requires
            old(self).wf(),
        ensures
            final(self).wf(),
            final(self).same_scene(old(self)),
            final(self).sample_colors() == old(self).sample_colors(),
            final(self).sample_depths() == old(self).sample_depths(),
            final(self).frame() == if point.0 < old(self).spec_width() && point.1 < old(
                self,
            ).spec_height() {
                old(self).frame().update(
                    slot(
                        old(self).spec_width(),
                        old(self).spec_height(),
                        point.0 as int,
                        point.1 as int,
                    ),
                    color,
                )
            } else {
                old(self).frame()
            },
    {
        if point.0 >= self.w || point.1 >= self.h {
            return;
        }
        let i: usize = self.get_index(point.0, point.1);
        self.frame_buf[i] = color;
    }

    /// Writes a depth into the sample buffer; a point outside it is ignored.
    pub fn set_depth(&mut self, point: (usize, usize), depth: i64)
        requires
            old(self).wf(),
        ensures
            final(self).wf(),
            final(self).same_scene(old(self)),
            final(self).sample_colors() == old(self).sample_colors(),
            final(self).frame() == old(self).frame(),
            final(self).sample_depths() == if point.0 < old(self).sample_columns() && point.1
                < old(self).sample_rows() {
                old(self).sample_depths().update(
                    slot(
                        old(self).sample_columns(),
                        old(self).sample_rows(),
                        point.0 as int,
                        point.1 as int,
                    ),
                    depth,
                )
            } else {
                old(self).sample_depths()
            },
    {
        proof {
            lemma_products_fit(self.w as int, self.h as int, self.antialiasing as int);
        }
        if point.0 >= self.w * self.antialiasing || point.1 >= self.h * self.antialiasing {
            return;
        }
        let i: usize = self.get_index_for_antialiased(point.0, point.1);
        self.depth_buf_supersampled[i] = depth;
    }

    /// Resets the sample colours to opaque black, the sample depths to `FAR`, or
    /// both, as `kind` says.
    pub fn clear(&mut self, kind: BufferKind)
        requires
            old(self).wf(),
        ensures
            final(self).wf(),
            final(self).same_scene(old(self)),
            final(self).frame() == old(self).frame(),
            final(self).sample_colors().len() == old(self).sample_colors().len(),
            final(self).sample_depths().len() == old(self).sample_depths().len(),
            kind == BufferKind::Depth ==> final(self).sample_colors() == old(self).sample_colors(),
            kind == BufferKind::Color ==> final(self).sample_depths() == old(self).sample_depths(),
            kind != BufferKind::Depth ==> forall|k: int|
                0 <= k < final(self).sample_colors().len() ==> final(self).sample_colors()[k]
                    == clear_color(),
            kind != BufferKind::Color ==> forall|k: int|
                0 <= k < final(self).sample_depths().len() ==> final(self).sample_depths()[k]
                    == FAR,
    {
        let n: usize = self.frame_buf_supersampled.len();
        let color: bool = match kind {
            BufferKind::Depth => false,
            _ => true,
        };
        let depth: bool = match kind {
            BufferKind::Color => false,
            _ => true,
        };
        if color {
            self.frame_buf_supersampled = filled(Vec4 { x: 0, y: 0, z: 0, w: ONE }, n);
        }
        if depth {
            self.depth_buf_supersampled = filled(FAR, n);
        }
    }

    /// Offers `t` to every sample: each sample that `t` covers and where `t` is
    /// strictly nearer than what the sample holds takes the colour and depth of
    /// `t` there. The colour comes from the texture if `textured`, and from the
    /// vertex colours if not.
    fn rasterize(&mut self, t: &Triangle, textured: bool)
        requires
            old(self).wf(),
            textured ==> old(self).spec_texture().is_some(),
        ensures
            final(self).wf(),
            final(self).same_scene(old(self)),
            final(self).frame() == old(self).frame(),
            forall|i: int, j: int|
                0 <= i < old(self).sample_columns() && 0 <= j < old(self).sample_rows()
                    ==> #[trigger] final(self).sample(i, j) == resolve(
                    old(self).sample(i, j),
                    fragment(
                        *t,
                        if textured {
                            old(self).spec_texture()
                        } else {
                            None
                        },
                        old(self).spec_fragment_shader(),
                        old(self).spec_antialiasing(),
                        i,
                        j,
                    ),
                ),
    {
        let ghost pre = *self;
        let ghost tex: Option<Texture> = if textured {
            pre.spec_texture()
        } else {
            None
        };
        proof {
            lemma_products_fit(self.w as int, self.h as int, self.antialiasing as int);
        }
        let shader: FragmentShader = self.fragment_shader;
        let s: usize = self.antialiasing;
        let ws: usize = self.w * s;
        let hs: usize = self.h * s;
        let bbox = t.bounding_box();
        let xs: usize = bbox.x_start();
        let xe: usize = bbox.x_end() + 1;
        let ys: usize = bbox.y_start();
        let ye: usize = bbox.y_end() + 1;
        proof {
            lemma_mul_bounded(xs as int, s as int, 0x8000, 0x8000);
            lemma_mul_bounded(xe as int, s as int, 0x8001, 0x8000);
            lemma_mul_bounded(ys as int, s as int, 0x8000, 0x8000);
            lemma_mul_bounded(ye as int, s as int, 0x8001, 0x8000);
        }
        let c_lo: usize = if xs * s < ws { xs * s } else { ws };
        let c_hi: usize = if xe * s < ws { xe * s } else { ws };
        let r_lo: usize = if ys * s < hs { ys * s } else { hs };
        let r_hi: usize = if ye * s < hs { ye * s } else { hs };
        let none: Option<Texture> = None;
        let mut j: usize = r_lo;
        while j < r_hi
            invariant
                r_lo <= j,
                r_hi <= hs,
                c_hi <= ws,
                ws == self.w * s,
                hs == self.h * s,
                s == self.antialiasing,
                ws <= MAX_EXTENT,
                hs <= MAX_EXTENT,
                pre.wf(),
                self.wf(),
                self.same_scene(&pre),
                self.frame() == pre.frame(),
                tex == if textured { pre.spec_texture() } else { None },
                shader == pre.spec_fragment_shader(),
                textured ==> self.texture.is_some(),
                none.is_none(),
                forall|i2: int, j2: int|
                    0 <= i2 < ws && 0 <= j2 < hs ==> #[trigger] self.sample(i2, j2) == (if c_lo <= i2 < c_hi && r_lo <= j2 < j {
                        resolve(pre.sample(i2, j2), fragment(*t, tex, shader, s as int, i2, j2))
                    } else {
                        pre.sample(i2, j2)
                    }),
            decreases r_hi - j,
        {
            let mut i: usize = c_lo;
            while i < c_hi
                invariant
                    c_lo <= i,
                    r_lo <= j < r_hi,
                    r_hi <= hs,
                    c_hi <= ws,
                    ws == self.w * s,
                    hs == self.h * s,
                    s == self.antialiasing,
                    ws <= MAX_EXTENT,
                    hs <= MAX_EXTENT,
                    pre.wf(),
                    self.wf(),
                    self.same_scene(&pre),
                    self.frame() == pre.frame(),
                    tex == if textured { pre.spec_texture() } else { None },
                    shader == pre.spec_fragment_shader(),
                    textured ==> self.texture.is_some(),
                    none.is_none(),
                    forall|i2: int, j2: int|
                        0 <= i2 < ws && 0 <= j2 < hs ==> #[trigger] self.sample(i2, j2)
                            == (if c_lo <= i2 < c_hi && (r_lo <= j2 < j || (j2 == j && i2 < i)) {
                                resolve(pre.sample(i2, j2), fragment(*t, tex, shader, s as int, i2, j2))
                            } else {
                                pre.sample(i2, j2)
                            }),
                decreases c_hi - i,
            {
                let ghost before = *self;
                let k: usize = self.get_index_for_antialiased(i, j);
                assert(before.sample(i as int, j as int) == pre.sample(i as int, j as int));
                match compute_barycentric_2d(i as u32, j as u32, s as u16, &t.v) {
                    Some(b) => {
                        if b.is_inside() {
                            let f = if textured {
                                shade(&b, t, &self.texture, shader)
                            } else {
                                shade(&b, t, &none, shader)
                            };
                            if f.depth < self.depth_buf_supersampled[k] {
                                self.frame_buf_supersampled[k] = f.color;
                                self.depth_buf_supersampled[k] = f.depth;
                            }
                        }
                    },
                    None => {},
                }
                proof {
                    assert(self.sample(i as int, j as int) == resolve(
                        pre.sample(i as int, j as int),
                        fragment(*t, tex, shader, s as int, i as int, j as int),
                    ));
                    assert forall|i2: int, j2: int| 0 <= i2 < ws && 0 <= j2 < hs implies #[trigger] self.sample(
                        i2,
                        j2,
                    ) == (if c_lo <= i2 < c_hi && (r_lo <= j2 < j || (j2 == j && i2 < i + 1)) {
                        resolve(pre.sample(i2, j2), fragment(*t, tex, shader, s as int, i2, j2))
                    } else {
                        pre.sample(i2, j2)
                    }) by {
                        lemma_slot_in_range(ws as int, hs as int, i2, j2);
                        if i2 != i || j2 != j {
                            if slot(ws as int, hs as int, i2, j2) == k {
                                lemma_slot_injective(
                                    ws as int,
                                    hs as int,
                                    i2,
                                    j2,
                                    i as int,
                                    j as int,
                                );
                            }
                            assert(self.sample(i2, j2) == before.sample(i2, j2));
                            assert(before.sample(i2, j2) == (if c_lo <= i2 < c_hi && (r_lo <= j2 < j || (j2 == j && i2 < i)) {
                                resolve(pre.sample(i2, j2), fragment(*t, tex, shader, s as int, i2, j2))
                            } else {
                                pre.sample(i2, j2)
                            }));
                        } else {
                            assert(self.sample(i2, j2) == resolve(
                                pre.sample(i2, j2),
                                fragment(*t, tex, shader, s as int, i2, j2),
                            ));
                        }
                    }
                }
                i = i + 1;
            }
            j = j + 1;
        }
        proof {
            assert forall|i2: int, j2: int| 0 <= i2 < ws && 0 <= j2 < hs implies #[trigger] self.sample(
                i2,
                j2,
            ) == resolve(pre.sample(i2, j2), fragment(*t, tex, shader, s as int, i2, j2)) by {
                if covers(*t, s as int, i2, j2) {
                    lemma_covered_in_window(*t, s as int, i2, j2);
                    let f0 = pixel_floor(t.extent().x0 as int);
                    let f1 = pixel_floor(t.extent().x1 as int) + 1;
                    let g0 = pixel_floor(t.extent().y0 as int);
                    let g1 = pixel_ceil(t.extent().y1 as int) + 1;
                    assert(xs * s == s * f0 && xe * s == s * f1 && ys * s == s * g0 && ye * s == s
                        * g1) by (nonlinear_arith)
                        requires
                            xs == f0,
                            xe == f1,
                            ys == g0,
                            ye == g1,
                    ;
                }
            }
        }
    }

    /// Offers `t`, positioned on the screen, to every sample, with the colour
    /// interpolated from the vertex colours: a sample that `t` covers takes the
    /// colour and depth of `t` there if that depth is strictly less than the
    /// depth it holds.
    pub fn rasterize_triangle_antialiased(&mut self, t: &Triangle)
        requires
            old(self).wf(),
        ensures
            final(self).wf(),
            final(self).same_scene(old(self)),
            final(self).frame() == old(self).frame(),
            forall|i: int, j: int|
                0 <= i < old(self).sample_columns() && 0 <= j < old(self).sample_rows()
                    ==> #[trigger] final(self).sample(i, j) == resolve(
                    old(self).sample(i, j),
                    fragment(
                        *t,
                        None,
                        old(self).spec_fragment_shader(),
                        old(self).spec_antialiasing(),
                        i,
                        j,
                    ),
                ),
    {
        self.rasterize(t, false);
    }

    /// As `rasterize_triangle_antialiased`, with the colour given by the
    /// fragment shader from the texture and the interpolated attributes.
    pub fn rasterize_triangle_antialiased_with_shader(&mut self, t: &Triangle)
        requires
            old(self).wf(),
            old(self).spec_texture().is_some(),
        ensures
            final(self).wf(),
            final(self).same_scene(old(self)),
            final(self).frame() == old(self).frame(),
            forall|i: int, j: int|
                0 <= i < old(self).sample_columns() && 0 <= j < old(self).sample_rows()
                    ==> #[trigger] final(self).sample(i, j) == resolve(
                    old(self).sample(i, j),
                    fragment(
                        *t,
                        old(self).spec_texture(),
                        old(self).spec_fragment_shader(),
                        old(self).spec_antialiasing(),
                        i,
                        j,
                    ),
                ),
    {
        self.rasterize(t, true);
    }

    /// The average of the samples of the pixel in column `x` and row `y` from
    /// the top.
    fn average_block(&self, x: usize, y: usize) -> (r: Vec4)
        requires
            self.wf(),
            x < self.spec_width(),
            y < self.spec_height(),
        ensures
            r == average(
                self.sample_colors(),
                self.sample_columns(),
                self.spec_antialiasing(),
                x as int,
                y as int,
            ),
    {
        proof {
            lemma_products_fit(self.w as int, self.h as int, self.antialiasing as int);
        }
        let s: usize = self.antialiasing;
        let ws: usize = self.w * s;
        let hs: usize = self.h * s;
        let ghost buf = self.frame_buf_supersampled@;
        proof {
            assert(y * s + s <= hs && 0 <= y * s) by (nonlinear_arith)
                requires
                    0 <= y < self.h,
                    hs == self.h * s,
                    s >= 1,
            ;
            assert(x * s + s <= ws && 0 <= x * s) by (nonlinear_arith)
                requires
                    0 <= x < self.w,
                    ws == self.w * s,
                    s >= 1,
            ;
        }
        let mut ax: i64 = 0;
        let mut ay: i64 = 0;
        let mut az: i64 = 0;
        let mut aw: i64 = 0;
        let ghost mut cnt: int = 0;
        let mut l: usize = 0;
        while l < s
            invariant
                l <= s,
                self.wf(),
                s == self.antialiasing,
                ws == self.w * s,
                hs == self.h * s,
                1 <= s <= MAX_EXTENT,
                ws <= MAX_EXTENT,
                hs <= MAX_EXTENT,
                y * s + s <= hs,
                x * s + s <= ws,
                0 <= y * s,
                0 <= x * s,
                buf == self.frame_buf_supersampled@,
                buf.len() == ws * hs,
                cnt == l * s,
                0 <= cnt <= MAX_EXTENT * MAX_EXTENT,
                (Sum4 { x: ax as int, y: ay as int, z: az as int, w: aw as int }) == block_sum(
                    buf,
                    ws as int,
                    s as int,
                    x as int,
                    y as int,
                    l as int,
                ),
                -0x8000_0000 * cnt <= ax <= 0x7fff_ffff * cnt,
                -0x8000_0000 * cnt <= ay <= 0x7fff_ffff * cnt,
                -0x8000_0000 * cnt <= az <= 0x7fff_ffff * cnt,
                -0x8000_0000 * cnt <= aw <= 0x7fff_ffff * cnt,
            decreases s - l,
        {
            let row: usize = y * s + l;
            proof {
                lemma_slot_in_range(ws as int, hs as int, x * s, hs - 1 - row);
                assert(0 <= row * ws && row * ws + ws <= hs * ws) by (nonlinear_arith)
                    requires
                        0 <= row < hs,
                        0 <= ws,
                ;
                assert(hs * ws == ws * hs) by (nonlinear_arith);
                lemma_mul_bounded(ws as int, hs as int, MAX_EXTENT as int, MAX_EXTENT as int);
            }
            let base: usize = row * ws + x * s;
            let mut bx: i64 = 0;
            let mut by: i64 = 0;
            let mut bz: i64 = 0;
            let mut bw: i64 = 0;
            let mut k: usize = 0;
            while k < s
                invariant
                    k <= s,
                    1 <= s <= MAX_EXTENT,
                    buf == self.frame_buf_supersampled@,
                    base + s <= buf.len(),
                    base + s <= MAX_EXTENT * MAX_EXTENT,
                    (Sum4 { x: bx as int, y: by as int, z: bz as int, w: bw as int }) == run_sum(
                        buf,
                        base as int,
                        k as int,
                    ),
                    -0x8000_0000 * k <= bx <= 0x7fff_ffff * k,
                    -0x8000_0000 * k <= by <= 0x7fff_ffff * k,
                    -0x8000_0000 * k <= bz <= 0x7fff_ffff * k,
                    -0x8000_0000 * k <= bw <= 0x7fff_ffff * k,
                decreases s - k,
            {
                let c: Vec4 = self.frame_buf_supersampled[base + k];
                bx = bx + (c.x as i64);
                by = by + (c.y as i64);
                bz = bz + (c.z as i64);
                bw = bw + (c.w as i64);
                k = k + 1;
            }
            proof {
                assert((l + 1) * s == cnt + s) by (nonlinear_arith)
                    requires
                        cnt == l * s,
                ;
                assert((l + 1) * s <= s * s) by (nonlinear_arith)
                    requires
                        l + 1 <= s,
                        s >= 1,
                ;
                lemma_mul_bounded(s as int, s as int, MAX_EXTENT as int, MAX_EXTENT as int);
                cnt = cnt + s;
                assert(base == run_base(ws as int, s as int, x as int, y as int, l as int));
            }
            ax = ax + bx;
            ay = ay + by;
            az = az + bz;
            aw = aw + bw;
            l = l + 1;
        }
        let d: usize = s * s;
        proof {
            assert(d >= 1) by (nonlinear_arith)
                requires
                    d == s * s,
                    s >= 1,
            ;
            assert(cnt == d);
            lemma_trunc_div_between(ax as int, d as int, -0x8000_0000, 0x7fff_ffff);
            lemma_trunc_div_between(ay as int, d as int, -0x8000_0000, 0x7fff_ffff);
            lemma_trunc_div_between(az as int, d as int, -0x8000_0000, 0x7fff_ffff);
            lemma_trunc_div_between(aw as int, d as int, -0x8000_0000, 0x7fff_ffff);
        }
        Vec4 {
            x: div_toward_zero(ax as i128, d as i128) as i32,
            y: div_toward_zero(ay as i128, d as i128) as i32,
            z: div_toward_zero(az as i128, d as i128) as i32,
            w: div_toward_zero(aw as i128, d as i128) as i32,
        }
    }

    /// Resolves the visible frame: every pixel becomes the average of all of
    /// its samples, whether or not a triangle has reached them.
    pub fn downsample(&mut self)
        requires
            old(self).wf(),
        ensures
            final(self).wf(),
            final(self).same_scene(old(self)),
            final(self).sample_colors() == old(self).sample_colors(),
            final(self).sample_depths() == old(self).sample_depths(),
            forall|x: int, y: int|
                0 <= x < old(self).spec_width() && 0 <= y < old(self).spec_height()
                    ==> #[trigger] final(self).pixel(x, y) == average(
                    old(self).sample_colors(),
                    old(self).sample_columns(),
                    old(self).spec_antialiasing(),
                    x,
                    y,
                ),
    {
        let ghost pre = *self;
        proof {
            lemma_products_fit(self.w as int, self.h as int, self.antialiasing as int);
        }
        let w: usize = self.w;
        let h: usize = self.h;
        let mut y: usize = 0;
        while y < h
            invariant
                y <= h,
                w == self.w,
                h == self.h,
                w <= MAX_EXTENT,
                h <= MAX_EXTENT,
                self.wf(),
                self.same_scene(&pre),
                self.sample_colors() == pre.sample_colors(),
                self.sample_depths() == pre.sample_depths(),
                forall|x2: int, y2: int|
                    0 <= x2 < w && 0 <= y2 < y ==> #[trigger] self.pixel(x2, y2) == average(
                        pre.sample_colors(),
                        pre.sample_columns(),
                        pre.spec_antialiasing(),
                        x2,
                        y2,
                    ),
            decreases h - y,
        {
            let mut x: usize = 0;
            while x < w
                invariant
                    x <= w,
                    y < h,
                    w == self.w,
                    h == self.h,
                    w <= MAX_EXTENT,
                    h <= MAX_EXTENT,
                    self.wf(),
                    self.same_scene(&pre),
                    self.sample_colors() == pre.sample_colors(),
                    self.sample_depths() == pre.sample_depths(),
                    forall|x2: int, y2: int|
                        0 <= x2 < w && (0 <= y2 < y || (y2 == y && x2 < x)) ==> #[trigger] self.pixel(
                            x2,
                            y2,
                        ) == average(
                            pre.sample_colors(),
                            pre.sample_columns(),
                            pre.spec_antialiasing(),
                            x2,
                            y2,
                        ),
                decreases w - x,
            {
                let ghost before = *self;
                let c: Vec4 = self.average_block(x, y);
                proof {
                    lemma_slot_in_range(w as int, h as int, x as int, h - 1 - y);
                    assert(0 <= y * w && y * w + w <= h * w) by (nonlinear_arith)
                        requires
                            0 <= y < h,
                            0 <= w,
                    ;
                    assert(h * w == w * h) by (nonlinear_arith);
                    lemma_mul_bounded(w as int, h as int, MAX_EXTENT as int, MAX_EXTENT as int);
                }
                let p: usize = y * w + x;
                self.frame_buf[p] = c;
                proof {
                    assert forall|x2: int, y2: int|
                        0 <= x2 < w && (0 <= y2 < y || (y2 == y && x2 < x + 1)) implies #[trigger] self.pixel(
                        x2,
                        y2,
                    ) == average(
                        pre.sample_colors(),
                        pre.sample_columns(),
                        pre.spec_antialiasing(),
                        x2,
                        y2,
                    ) by {
                        if x2 != x || y2 != y {
                            if y2 * w + x2 == p {
                                lemma_row_major_injective(w as int, x2, y2, x as int, y as int);
                            }
                            assert(0 <= y2 * w + x2 < w * h) by (nonlinear_arith)
                                requires
                                    0 <= x2 < w,
                                    0 <= y2 < h,
                            ;
                            assert(self.pixel(x2, y2) == before.pixel(x2, y2));
                        }
                    }
                }
                x = x + 1;
            }
            y = y + 1;
        }
    }

    /// The combined transform of a draw call: projection · view · model.
    pub open spec fn spec_mvp(&self) -> Mat4 {
        product(product(self.spec_projection(), self.spec_view()), self.spec_model())
    }

    /// The transform from object space to view space: view · model.
    pub open spec fn spec_vm(&self) -> Mat4 {
        product(self.spec_view(), self.spec_model())
    }

    /// Whether a draw call can assemble its triangles: the three handles name
    /// loaded buffers and every index triple picks vertices that both the
    /// position and the colour buffer hold, with colours on the scale 0 to 255.
    pub open spec fn drawable(&self, pos_buf: PosBufId, ind_buf: IndBufId, col_buf: ColBufId) -> bool {
        &&& self.position_buffers().contains_key(pos_buf@)
        &&& self.index_buffers().contains_key(ind_buf@)
        &&& self.color_buffers().contains_key(col_buf@)
        &&& forall|k: int|
            0 <= k < self.index_buffers()[ind_buf@]@.len() ==> triple_ok(
                self.position_buffers()[pos_buf@]@,
                self.color_buffers()[col_buf@]@,
                #[trigger] self.index_buffers()[ind_buf@]@[k],
            )
    }

    /// The triangles that a draw call of the three buffers assembles.
    pub open spec fn assembled(&self, pos_buf: PosBufId, ind_buf: IndBufId, col_buf: ColBufId) -> Seq<
        Option<Triangle>,
    > {
        assemble_all(
            self.position_buffers()[pos_buf@]@,
            self.color_buffers()[col_buf@]@,
            self.index_buffers()[ind_buf@]@,
            self.spec_mvp(),
            self.spec_width(),
            self.spec_height(),
        )
    }

    /// Tells whether `draw` can be called with these three handles.
    pub fn can_draw(&self, pos_buf: &PosBufId, ind_buf: &IndBufId, col_buf: &ColBufId) -> (r: bool)
        ensures
            r == self.drawable(*pos_buf, *ind_buf, *col_buf),
    {
        let positions = match self.pos_buf.get(&pos_buf.0) {
            Some(b) => b,
            None => {
                return false;
            },
        };
        let indices = match self.ind_buf.get(&ind_buf.0) {
            Some(b) => b,
            None => {
                return false;
            },
        };
        let colors = match self.col_buf.get(&col_buf.0) {
            Some(b) => b,
            None => {
                return false;
            },
        };
        let n: usize = indices.len();
        let mut k: usize = 0;
        while k < n
            invariant
                k <= n,
                n == indices@.len(),
                self.position_buffers().contains_key(pos_buf@),
                self.index_buffers().contains_key(ind_buf@),
                self.color_buffers().contains_key(col_buf@),
                *positions == self.position_buffers()[pos_buf@],
                *indices == self.index_buffers()[ind_buf@],
                *colors == self.color_buffers()[col_buf@],
                forall|k2: int|
                    0 <= k2 < k ==> triple_ok(positions@, colors@, #[trigger] indices@[k2]),
            decreases n - k,
        {
            let tri: UVec3 = indices[k];
            if !(check_vertex(positions, colors, tri.x) && check_vertex(positions, colors, tri.y)
                && check_vertex(positions, colors, tri.z)) {
                assert(!triple_ok(
                    self.position_buffers()[pos_buf@]@,
                    self.color_buffers()[col_buf@]@,
                    self.index_buffers()[ind_buf@]@[k as int],
                ));
                return false;
            }
            k = k + 1;
        }
        true
    }

    /// Computes projection · view · model.
    fn mvp(&self) -> (r: Mat4)
        ensures
            r == self.spec_mvp(),
    {
        self.projection.compose(&self.view).compose(&self.model)
    }

    /// Assembles the triangles of a draw call.
    fn assemble_triangles(&self, pos_buf: &PosBufId, ind_buf: &IndBufId, col_buf: &ColBufId) -> (r:
        Vec<Option<Triangle>>)
        requires
            self.wf(),
            self.drawable(*pos_buf, *ind_buf, *col_buf),
        ensures
            r@ == self.assembled(*pos_buf, *ind_buf, *col_buf),
    {
        proof {
            lemma_products_fit(self.w as int, self.h as int, self.antialiasing as int);
        }
        let mvp: Mat4 = self.mvp();
        let w: u16 = self.w as u16;
        let h: u16 = self.h as u16;
        let positions = self.pos_buf.get(&pos_buf.0).unwrap();
        let indices = self.ind_buf.get(&ind_buf.0).unwrap();
        let colors = self.col_buf.get(&col_buf.0).unwrap();
        let ghost want = self.assembled(*pos_buf, *ind_buf, *col_buf);
        let n: usize = indices.len();
        let mut out: Vec<Option<Triangle>> = Vec::new();
        let mut k: usize = 0;
        while k < n
            invariant
                k <= n,
                n == indices@.len(),
                out@.len() == k,
                want == assemble_all(positions@, colors@, indices@, mvp, w as int, h as int),
                forall|k2: int|
                    0 <= k2 < n ==> triple_ok(positions@, colors@, #[trigger] indices@[k2]),
                forall|k2: int| 0 <= k2 < k ==> out@[k2] == want[k2],
            decreases n - k,
        {
            let tri: UVec3 = indices[k];
            assert(triple_ok(positions@, colors@, indices@[k as int]));
            let a = positions[tri.x as usize];
            let b = positions[tri.y as usize];
            let c = positions[tri.z as usize];
            let t = match project_three(
                &mvp,
                Vec4 { x: a.x, y: a.y, z: a.z, w: ONE },
                Vec4 { x: b.x, y: b.y, z: b.z, w: ONE },
                Vec4 { x: c.x, y: c.y, z: c.z, w: ONE },
                w,
                h,
            ) {
                Some(v) => {
                    let color = [
                        color_of(colors[tri.x as usize]),
                        color_of(colors[tri.y as usize]),
                        color_of(colors[tri.z as usize]),
                    ];
                    let z2 = Vec2 { x: 0, y: 0 };
                    let z3 = Vec3 { x: 0, y: 0, z: 0 };
                    let t = Triangle {
                        v,
                        color,
                        tex_coords: [z2, z2, z2],
                        normal: [z3, z3, z3],
                        view_pos: [z3, z3, z3],
                    };
                    proof {
                        let g = want[k as int].unwrap();
                        assert(t.v == g.v);
                        assert(t.color =~= g.color);
                        assert(t.tex_coords =~= g.tex_coords);
                        assert(t.normal =~= g.normal);
                        assert(t.view_pos =~= g.view_pos);
                    }
                    Some(t)
                },
                None => None,
            };
            out.push(t);
            k = k + 1;
        }
        assert(out@ =~= want);
        out
    }

    /// Moves the triangles of a list to the screen.
    fn reposition_triangles(&self, triangles: &Vec<Triangle>) -> (r: Vec<Option<Triangle>>)
        requires
            self.wf(),
        ensures
            r@ == reposition_all(
                triangles@,
                self.spec_mvp(),
                self.spec_vm(),
                self.spec_width(),
                self.spec_height(),
            ),
    {
        proof {
            lemma_products_fit(self.w as int, self.h as int, self.antialiasing as int);
        }
        let mvp: Mat4 = self.mvp();
        let vm: Mat4 = self.view.compose(&self.model);
        let w: u16 = self.w as u16;
        let h: u16 = self.h as u16;
        let ghost want = reposition_all(triangles@, mvp, vm, w as int, h as int);
        let n: usize = triangles.len();
        let mut out: Vec<Option<Triangle>> = Vec::new();
        let mut k: usize = 0;
        while k < n
            invariant
                k <= n,
                n == triangles@.len(),
                out@.len() == k,
                want == reposition_all(triangles@, mvp, vm, w as int, h as int),
                forall|k2: int| 0 <= k2 < k ==> out@[k2] == want[k2],
            decreases n - k,
        {
            let src: Triangle = triangles[k];
            let t = match project_three(&mvp, src.v[0], src.v[1], src.v[2], w, h) {
                Some(v) => {
                    let view_pos = [
                        vm.transform_point(src.v[0]),
                        vm.transform_point(src.v[1]),
                        vm.transform_point(src.v[2]),
                    ];
                    let t = Triangle {
                        v,
                        color: src.color,
                        tex_coords: src.tex_coords,
                        normal: src.normal,
                        view_pos,
                    };
                    proof {
                        let g = want[k as int].unwrap();
                        assert(t.view_pos =~= g.view_pos);
                    }
                    Some(t)
                },
                None => None,
            };
            out.push(t);
            k = k + 1;
        }
        assert(out@ =~= want);
        out
    }

    /// Offers each triangle of `ts` in order to every sample.
    fn rasterize_all(&mut self, ts: &Vec<Option<Triangle>>, textured: bool)
        requires
            old(self).wf(),
            textured ==> old(self).spec_texture().is_some(),
        ensures
            final(self).wf(),
            final(self).same_scene(old(self)),
            final(self).frame() == old(self).frame(),
            forall|i: int, j: int|
                0 <= i < old(self).sample_columns() && 0 <= j < old(self).sample_rows()
                    ==> #[trigger] final(self).sample(i, j) == resolve_all(
                    old(self).sample(i, j),
                    ts@,
                    if textured {
                        old(self).spec_texture()
                    } else {
                        None
                    },
                    old(self).spec_fragment_shader(),
                    old(self).spec_antialiasing(),
                    i,
                    j,
                ),
    {
        let ghost pre = *self;
        let ghost tex: Option<Texture> = if textured {
            pre.spec_texture()
        } else {
            None
        };
        let ghost s = pre.spec_antialiasing();
        let ghost shader = pre.spec_fragment_shader();
        let n: usize = ts.len();
        let mut k: usize = 0;
        while k < n
            invariant
                k <= n,
                n == ts@.len(),
                self.wf(),
                self.same_scene(&pre),
                self.frame() == pre.frame(),
                s == pre.spec_antialiasing(),
                shader == pre.spec_fragment_shader(),
                tex == if textured { pre.spec_texture() } else { None },
                textured ==> self.spec_texture().is_some(),
                forall|i: int, j: int|
                    0 <= i < pre.sample_columns() && 0 <= j < pre.sample_rows()
                        ==> #[trigger] self.sample(i, j) == resolve_all(
                        pre.sample(i, j),
                        ts@.take(k as int),
                        tex,
                        shader,
                        s,
                        i,
                        j,
                    ),
            decreases n - k,
        {
            let ghost before = *self;
            match &ts[k] {
                Some(t) => {
                    self.rasterize(t, textured);
                },
                None => {},
            }
            proof {
                assert(ts@.take(k + 1).drop_last() =~= ts@.take(k as int));
                assert(ts@.take(k + 1).last() == ts@[k as int]);
                assert forall|i: int, j: int|
                    0 <= i < pre.sample_columns() && 0 <= j < pre.sample_rows() implies #[trigger] self.sample(
                    i,
                    j,
                ) == resolve_all(pre.sample(i, j), ts@.take(k + 1), tex, shader, s, i, j) by {
                    assert(before.sample(i, j) == resolve_all(
                        pre.sample(i, j),
                        ts@.take(k as int),
                        tex,
                        shader,
                        s,
                        i,
                        j,
                    ));
                }
            }
            k = k + 1;
        }
        assert(ts@.take(n as int) =~= ts@);
    }

    /// Draws the triangles that the index triples of `ind_buf` pick from
    /// `pos_buf` and `col_buf`: positions them with projection · view · model,
    /// offers each in order to every sample, and resolves the visible frame.
    /// A draw of lines changes nothing.
    pub fn draw(
        &mut self,
        pos_buf: &PosBufId,
        ind_buf: &IndBufId,
        col_buf: &ColBufId,
        primitive_kind: PrimitiveKind,
    )
        requires
            old(self).wf(),
            old(self).drawable(*pos_buf, *ind_buf, *col_buf),
        ensures
            final(self).wf(),
            final(self).same_scene(old(self)),
            primitive_kind == PrimitiveKind::Line ==> final(self).same_targets(old(self)),
            primitive_kind == PrimitiveKind::Triangle ==> forall|i: int, j: int|
                0 <= i < old(self).sample_columns() && 0 <= j < old(self).sample_rows()
                    ==> #[trigger] final(self).sample(i, j) == resolve_all(
                    old(self).sample(i, j),
                    old(self).assembled(*pos_buf, *ind_buf, *col_buf),
                    None,
                    old(self).spec_fragment_shader(),
                    old(self).spec_antialiasing(),
                    i,
                    j,
                ),
            primitive_kind == PrimitiveKind::Triangle ==> forall|x: int, y: int|
                0 <= x < old(self).spec_width() && 0 <= y < old(self).spec_height()
                    ==> #[trigger] final(self).pixel(x, y) == average(
                    final(self).sample_colors(),
                    old(self).sample_columns(),
                    old(self).spec_antialiasing(),
                    x,
                    y,
                ),
    {
        match primitive_kind {
            PrimitiveKind::Triangle => {
                let triangles = self.assemble_triangles(pos_buf, ind_buf, col_buf);
                self.rasterize_all(&triangles, false);
                let ghost mid = *self;
                self.downsample();
                assert forall|i: int, j: int|
                    0 <= i < old(self).sample_columns() && 0 <= j < old(
                        self,
                    ).sample_rows() implies #[trigger] self.sample(i, j) == mid.sample(i, j) by {}
            },
            PrimitiveKind::Line => {},
        }
    }

    /// Draws a list of triangles with the colour of each sample taken from the
    /// texture: positions them with projection · view · model, offers each in
    /// order to every sample, and resolves the visible frame.
    pub fn draw_triangle_list(&mut self, triangles: &Vec<Triangle>)
        requires
            old(self).wf(),
            old(self).spec_texture().is_some(),
        ensures
            final(self).wf(),
            final(self).same_scene(old(self)),
            forall|i: int, j: int|
                0 <= i < old(self).sample_columns() && 0 <= j < old(self).sample_rows()
                    ==> #[trigger] final(self).sample(i, j) == resolve_all(
                    old(self).sample(i, j),
                    reposition_all(
                        triangles@,
                        old(self).spec_mvp(),
                        old(self).spec_vm(),
                        old(self).spec_width(),
                        old(self).spec_height(),
                    ),
                    old(self).spec_texture(),
                    old(self).spec_fragment_shader(),
                    old(self).spec_antialiasing(),
                    i,
                    j,
                ),
            forall|x: int, y: int|
                0 <= x < old(self).spec_width() && 0 <= y < old(self).spec_height()
                    ==> #[trigger] final(self).pixel(x, y) == average(
                    final(self).sample_colors(),
                    old(self).sample_columns(),
                    old(self).spec_antialiasing(),
                    x,
                    y,
                ),
    {
        let moved = self.reposition_triangles(triangles);
        self.rasterize_all(&moved, true);
        let ghost mid = *self;
        self.downsample();
        assert forall|i: int, j: int|
            0 <= i < old(self).sample_columns() && 0 <= j < old(
                self,
            ).sample_rows() implies #[trigger] self.sample(i, j) == mid.sample(i, j) by {}
    }

    /// The visible frame as bytes: four per pixel, row by row from the top.
    pub fn dump_u8norm(&self) -> (r: Vec<u8>)
        ensures
            r@ == frame_bytes(self.frame()),
    {
        let n: usize = self.frame_buf.len();
        let mut out: Vec<u8> = Vec::new();
        let mut p: usize = 0;
        while p < n
            invariant
                p <= n,
                n == self.frame_buf@.len(),
                out@ == frame_bytes(self.frame_buf@.take(p as int)),
            decreases n - p,
        {
            let c: Vec4 = self.frame_buf[p];
            proof {
                let next = self.frame_buf@.take(p + 1);
                assert(next.drop_last() =~= self.frame_buf@.take(p as int));
                assert(next.last() == c);
            }
            out.push(byte_of(c.x));
            out.push(byte_of(c.y));
            out.push(byte_of(c.z));
            out.push(byte_of(c.w));
            assert(out@ =~= frame_bytes(self.frame_buf@.take(p + 1)));
            p = p + 1;
        }
        assert(self.frame_buf@.take(n as int) =~= self.frame_buf@);
        out
    }

    /// Draws the segment from `begin` to `end` into the visible frame in white,
    /// one pixel per row if it is steep and one per column if not; pixels
    /// outside the frame are left out.
    pub fn draw_line(&mut self, begin: Vec3, end: Vec3)
        requires
            old(self).wf(),
        ensures
            final(self).wf(),
            final(self).same_scene(old(self)),
            final(self).sample_colors() == old(self).sample_colors(),
            final(self).sample_depths() == old(self).sample_depths(),
            final(self).frame() == with_line(
                old(self).frame(),
                old(self).spec_width(),
                old(self).spec_height(),
                begin,
                end,
            ),
    {
        let ghost pre = *self;
        let len: usize = line_pixels(begin, end);
        let mut n: usize = 0;
        while n < len
            invariant
                n <= len,
                len == line_length(begin, end),
                self.wf(),
                self.same_scene(&pre),
                self.sample_colors() == pre.sample_colors(),
                self.sample_depths() == pre.sample_depths(),
                self.frame() == plot_line(
                    pre.frame(),
                    pre.spec_width(),
                    pre.spec_height(),
                    begin,
                    end,
                    n as int,
                ),
            decreases len - n,
        {
            let p = line_pixel(begin, end, n);
            self.set_pixel(p, Vec4 { x: ONE, y: ONE, z: ONE, w: ONE });
            assert((p.0 as int, p.1 as int) == line_point(begin, end, n as int));
            n = n + 1;
        }
    }

    /// Draws the three edges of `t`, positioned on the screen, as lines.
    pub fn rasterize_wireframe(&mut self, t: &Triangle)
        requires
            old(self).wf(),
        ensures
            final(self).wf(),
            final(self).same_scene(old(self)),
            final(self).sample_colors() == old(self).sample_colors(),
            final(self).sample_depths() == old(self).sample_depths(),
            final(self).frame() == with_outline(
                old(self).frame(),
                old(self).spec_width(),
                old(self).spec_height(),
                t.v,
            ),
    {
        let a = Vec3 { x: t.v[0].x, y: t.v[0].y, z: t.v[0].z };
        let b = Vec3 { x: t.v[1].x, y: t.v[1].y, z: t.v[1].z };
        let c = Vec3 { x: t.v[2].x, y: t.v[2].y, z: t.v[2].z };
        self.draw_line(a, b);
        self.draw_line(b, c);
        self.draw_line(c, a);
    }

    /// Whether a wireframe draw can assemble its triangles: the two handles
    /// name loaded buffers and every index lies in the position buffer.
    pub open spec fn outlinable(&self, pos_buf: PosBufId, ind_buf: IndBufId) -> bool {
        &&& self.position_buffers().contains_key(pos_buf@)
        &&& self.index_buffers().contains_key(ind_buf@)
        &&& forall|k: int|
            0 <= k < self.index_buffers()[ind_buf@]@.len() ==> triple_in(
                self.position_buffers()[pos_buf@]@.len(),
                #[trigger] self.index_buffers()[ind_buf@]@[k],
            )
    }

    /// Tells whether `draw_wireframe` can be called with these two handles.
    pub fn can_draw_wireframe(&self, pos_buf: &PosBufId, ind_buf: &IndBufId) -> (r: bool)
        ensures
            r == self.outlinable(*pos_buf, *ind_buf),
    {
        let positions = match self.pos_buf.get(&pos_buf.0) {
            Some(b) => b,
            None => {
                return false;
            },
        };
        let indices = match self.ind_buf.get(&ind_buf.0) {
            Some(b) => b,
            None => {
                return false;
            },
        };
        let np: usize = positions.len();
        let n: usize = indices.len();
        let mut k: usize = 0;
        while k < n
            invariant
                k <= n,
                n == indices@.len(),
                np == positions@.len(),
                self.position_buffers().contains_key(pos_buf@),
                self.index_buffers().contains_key(ind_buf@),
                *positions == self.position_buffers()[pos_buf@],
                *indices == self.index_buffers()[ind_buf@],
                forall|k2: int| 0 <= k2 < k ==> triple_in(positions@.len(), #[trigger] indices@[k2]),
            decreases n - k,
        {
            let tri: UVec3 = indices[k];
            if !((tri.x as usize) < np && (tri.y as usize) < np && (tri.z as usize) < np) {
                assert(!triple_in(
                    self.position_buffers()[pos_buf@]@.len(),
                    self.index_buffers()[ind_buf@]@[k as int],
                ));
                return false;
            }
            k = k + 1;
        }
        true
    }

    /// Draws the outlines of the triangles that the index triples of `ind_buf`
    /// pick from `pos_buf`: positions them with projection · view · model and
    /// draws the edges of each, in order, into the visible frame.
    pub fn draw_wireframe(&mut self, pos_buf: &PosBufId, ind_buf: &IndBufId)
        requires
            old(self).wf(),
            old(self).outlinable(*pos_buf, *ind_buf),
        ensures
            final(self).wf(),
            final(self).same_scene(old(self)),
            final(self).sample_colors() == old(self).sample_colors(),
            final(self).sample_depths() == old(self).sample_depths(),
            final(self).frame() == with_outlines(
                old(self).frame(),
                old(self).spec_width(),
                old(self).spec_height(),
                outlines(
                    old(self).position_buffers()[pos_buf@]@,
                    old(self).index_buffers()[ind_buf@]@,
                    old(self).spec_mvp(),
                    old(self).spec_width(),
                    old(self).spec_height(),
                ),
            ),
    {
        let ghost pre = *self;
        let shapes = self.assemble_outlines(pos_buf, ind_buf);
        let n: usize = shapes.len();
        let mut k: usize = 0;
        while k < n
            invariant
                k <= n,
                n == shapes@.len(),
                self.wf(),
                self.same_scene(&pre),
                self.sample_colors() == pre.sample_colors(),
                self.sample_depths() == pre.sample_depths(),
                self.frame() == with_outlines(
                    pre.frame(),
                    pre.spec_width(),
                    pre.spec_height(),
                    shapes@.take(k as int),
                ),
            decreases n - k,
        {
            proof {
                assert(shapes@.take(k + 1).drop_last() =~= shapes@.take(k as int));
                assert(shapes@.take(k + 1).last() == shapes@[k as int]);
            }
            match &shapes[k] {
                Some(v) => {
                    let z2 = Vec2 { x: 0, y: 0 };
                    let z3 = Vec3 { x: 0, y: 0, z: 0 };
                    let z4 = Vec4 { x: 0, y: 0, z: 0, w: 0 };
                    let t = Triangle {
                        v: *v,
                        color: [z4, z4, z4],
                        tex_coords: [z2, z2, z2],
                        normal: [z3, z3, z3],
                        view_pos: [z3, z3, z3],
                    };
                    self.rasterize_wireframe(&t);
                },
                None => {},
            }
            k = k + 1;
        }
        assert(shapes@.take(n as int) =~= shapes@);
    }

    /// Positions the triangles of a wireframe draw.
    fn assemble_outlines(&self, pos_buf: &PosBufId, ind_buf: &IndBufId) -> (r: Vec<
        Option<[Vec4; 3]>,
    >)
        requires
            self.wf(),
            self.outlinable(*pos_buf, *ind_buf),
        ensures
            r@ == outlines(
                self.position_buffers()[pos_buf@]@,
                self.index_buffers()[ind_buf@]@,
                self.spec_mvp(),
                self.spec_width(),
                self.spec_height(),
            ),
    {
        proof {
            lemma_products_fit(self.w as int, self.h as int, self.antialiasing as int);
        }
        let mvp: Mat4 = self.mvp();
        let w: u16 = self.w as u16;
        let h: u16 = self.h as u16;
        let positions = self.pos_buf.get(&pos_buf.0).unwrap();
        let indices = self.ind_buf.get(&ind_buf.0).unwrap();
        let ghost want = outlines(positions@, indices@, mvp, w as int, h as int);
        let n: usize = indices.len();
        let mut out: Vec<Option<[Vec4; 3]>> = Vec::new();
        let mut k: usize = 0;
        while k < n
            invariant
                k <= n,
                n == indices@.len(),
                out@.len() == k,
                want == outlines(positions@, indices@, mvp, w as int, h as int),
                forall|k2: int| 0 <= k2 < n ==> triple_in(positions@.len(), #[trigger] indices@[k2]),
                forall|k2: int| 0 <= k2 < k ==> out@[k2] == want[k2],
            decreases n - k,
        {
            let tri: UVec3 = indices[k];
            assert(triple_in(positions@.len(), indices@[k as int]));
            let a = positions[tri.x as usize];
            let b = positions[tri.y as usize];
            let c = positions[tri.z as usize];
            let v = project_three(
                &mvp,
                Vec4 { x: a.x, y: a.y, z: a.z, w: ONE },
                Vec4 { x: b.x, y: b.y, z: b.z, w: ONE },
                Vec4 { x: c.x, y: c.y, z: c.z, w: ONE },
                w,
                h,
            );
            out.push(v);
            k = k + 1;
        }
        assert(out@ =~= want);
        out
    }

    /// Offers `t` to every sample as `rasterize_triangle_antialiased` does, and
    /// resolves the visible frame.
    pub fn rasterize_triangle(&mut self, t: &Triangle)
        requires
            old(self).wf(),
        ensures
            final(self).wf(),
            final(self).same_scene(old(self)),
            forall|i: int, j: int|
                0 <= i < old(self).sample_columns() && 0 <= j < old(self).sample_rows()
                    ==> #[trigger] final(self).sample(i, j) == resolve(
                    old(self).sample(i, j),
                    fragment(
                        *t,
                        None,
                        old(self).spec_fragment_shader(),
                        old(self).spec_antialiasing(),
                        i,
                        j,
                    ),
                ),
            forall|x: int, y: int|
                0 <= x < old(self).spec_width() && 0 <= y < old(self).spec_height()
                    ==> #[trigger] final(self).pixel(x, y) == average(
                    final(self).sample_colors(),
                    old(self).sample_columns(),
                    old(self).spec_antialiasing(),
                    x,
                    y,
                ),
    {
        self.rasterize(t, false);
        let ghost mid = *self;
        self.downsample();
        assert forall|i: int, j: int|
            0 <= i < old(self).sample_columns() && 0 <= j < old(
                self,
            ).sample_rows() implies #[trigger] self.sample(i, j) == mid.sample(i, j) by {}
    }

    /// Writes a colour into the visible frame at the place `i`.
    pub fn set_pixel_nocheck(&mut self, i: usize, color: Vec4)
        requires
            old(self).wf(),
            i < old(self).frame().len(),
        ensures
            final(self).wf(),
            final(self).same_scene(old(self)),
            final(self).sample_colors() == old(self).sample_colors(),
            final(self).sample_depths() == old(self).sample_depths(),
            final(self).frame() == old(self).frame().update(i as int, color),
    {
        self.frame_buf[i] = color;
    }

    /// Writes a depth into the sample buffer at the place `i`.
    pub fn set_depth_nocheck(&mut self, i: usize, depth: i64)
        requires
            old(self).wf(),
            i < old(self).sample_depths().len(),
        ensures
            final(self).wf(),
            final(self).same_scene(old(self)),
            final(self).sample_colors() == old(self).sample_colors(),
            final(self).frame() == old(self).frame(),
            final(self).sample_depths() == old(self).sample_depths().update(i as int, depth),
    {
        self.depth_buf_supersampled[i] = depth;
    }

    /// The visible frame as bytes with every pixel opaque: four per pixel, row
    /// by row from the top.
    pub fn dump_pixels(&self) -> (r: Vec<u8>)
        ensures
            r@ == opaque_bytes(self.frame()),
    {
        let n: usize = self.frame_buf.len();
        let mut out: Vec<u8> = Vec::new();
        let mut p: usize = 0;
        while p < n
            invariant
                p <= n,
                n == self.frame_buf@.len(),
                out@ == opaque_bytes(self.frame_buf@.take(p as int)),
            decreases n - p,
        {
            let c: Vec4 = self.frame_buf[p];
            proof {
                let next = self.frame_buf@.take(p + 1);
                assert(next.drop_last() =~= self.frame_buf@.take(p as int));
                assert(next.last() == c);
            }
            out.push(byte_of(c.x));
            out.push(byte_of(c.y));
            out.push(byte_of(c.z));
            out.push(255);
            assert(out@ =~= opaque_bytes(self.frame_buf@.take(p + 1)));
            p = p + 1;
        }
        assert(self.frame_buf@.take(n as int) =~= self.frame_buf@);
        out
    }
}

/// The buffer sizes of an acceptable framebuffer fit a machine word.
pub proof fn lemma_products_fit(w: int, h: int, s: int)
    requires
        dimensions_ok(w, h, s),
    ensures
        0 <= w <= MAX_EXTENT,
        0 <= h <= MAX_EXTENT,
        0 <= w * s <= MAX_EXTENT,
        0 <= h * s <= MAX_EXTENT,
        0 <= w * h <= MAX_EXTENT * MAX_EXTENT,
        0 <= (w * s) * (h * s) <= MAX_EXTENT * MAX_EXTENT,
        0 <= s * s <= MAX_EXTENT * MAX_EXTENT,
        1 <= s <= MAX_EXTENT,
{
    assert(w <= w * s && 0 <= w * s) by (nonlinear_arith)
        requires
            0 <= w,
            1 <= s,
    ;
    assert(h <= h * s && 0 <= h * s) by (nonlinear_arith)
        requires
            0 <= h,
            1 <= s,
    ;
    lemma_mul_bounded(w, h, MAX_EXTENT as int, MAX_EXTENT as int);
    lemma_mul_bounded(w * s, h * s, MAX_EXTENT as int, MAX_EXTENT as int);
    assert(0 <= w * h) by (nonlinear_arith)
        requires
            0 <= w,
            0 <= h,
    ;
    let (a, b) = (w * s, h * s);
    assert(0 <= a * b) by (nonlinear_arith)
        requires
            0 <= a,
            0 <= b,
    ;
    lemma_mul_bounded(s, s, MAX_EXTENT as int, MAX_EXTENT as int);
    assert(0 <= s * s) by (nonlinear_arith);
}

/// A vector of `n` copies of `value`.
fn filled<T: Copy>(value: T, n: usize) -> (v: Vec<T>)
    ensures
        v@.len() == n,
        forall|k: int| 0 <= k < n ==> v@[k] == value,
{
    let mut v: Vec<T> = Vec::new();
    let mut i: usize = 0;
    while i < n
        invariant
            i <= n,
            v@.len() == i,
            forall|k: int| 0 <= k < i ==> v@[k] == value,
        decreases n - i,
    {
        v.push(value);
        i = i + 1;
    }
    v
}

/// A pixel all of whose samples hold one colour resolves to exactly that
/// colour. The pixel is the one in column `x` from the left and row `y` from
/// the bottom; the visible frame holds it in row `height - 1 - y`.
pub proof fn lemma_uniform_pixel_resolves(r: Rasterizer, x: int, y: int, c: Vec4)
    requires
        r.wf(),
        0 <= x < r.spec_width(),
        0 <= y < r.spec_height(),
        forall|i: int, j: int|
            x * r.spec_antialiasing() <= i < x * r.spec_antialiasing() + r.spec_antialiasing()
                && y * r.spec_antialiasing() <= j < y * r.spec_antialiasing()
                + r.spec_antialiasing() ==> (#[trigger] r.sample(i, j)).color == c,
    ensures
        average(
            r.sample_colors(),
            r.sample_columns(),
            r.spec_antialiasing(),
            x,
            r.spec_height() - 1 - y,
        ) == c,
{
    let s = r.spec_antialiasing();
    let h = r.spec_height();
    let ws = r.sample_columns();
    let hs = r.sample_rows();
    let yt = h - 1 - y;
    let buf = r.sample_colors();
    assert(yt * s == hs - s - y * s) by (nonlinear_arith)
        requires
            yt == h - 1 - y,
            hs == h * s,
    ;
    assert forall|l: int, k: int| 0 <= l < s && 0 <= k < s implies #[trigger] color_at(
        buf,
        run_base(ws, s, x, yt, l),
        k,
    ) == c by {
        let i = x * s + k;
        let j = y * s + s - 1 - l;
        assert(r.sample(i, j).color == c);
        assert(hs - 1 - j == yt * s + l);
    }
    crate::downsample::lemma_average_of_one_color(buf, ws, s, x, yt, c);
}

/// A buffer that was loaded is found under its handle, with the very items it
/// was loaded with, in their order.
pub proof fn lemma_loaded_buffer_is_kept(before: Rasterizer, after: Rasterizer, id: PosBufId, data: Vec<Vec3>)
    requires
        after.position_buffers() == before.position_buffers().insert(id@, data),
    ensures
        after.position_buffers().contains_key(id@),
        after.position_buffers()[id@]@ == data@,
{
}

/// A later load leaves every buffer that was loaded before as it was.
pub proof fn lemma_later_load_keeps_earlier(
    before: Rasterizer,
    after: Rasterizer,
    earlier: PosBufId,
    id: PosBufId,
    data: Vec<Vec3>,
)
    requires
        before.wf(),
        before.position_buffers().contains_key(earlier@),
        id@ == before.minted(),
        after.position_buffers() == before.position_buffers().insert(id@, data),
    ensures
        earlier@ != id@,
        after.position_buffers().contains_key(earlier@),
        after.position_buffers()[earlier@] == before.position_buffers()[earlier@],
{
}

} // verus!
