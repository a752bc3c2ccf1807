//! From the flat arrays of a mesh to triangles and vertex buffers.

use vstd::prelude::*;
use crate::vector::{Vec2, Vec3, Vec4, UVec3};
use crate::fixed::ONE;
use crate::triangle::Triangle;
use crate::rasterizer::{Rasterizer, PosBufId, IndBufId, ColBufId};

verus! {

/// Whether vertex `i` has a position, a texture coordinate and a normal in
/// flat arrays of the lengths `np`, `nt` and `nn`.
pub open spec fn vertex_in_mesh(np: int, nt: int, nn: int, i: u32) -> bool {
    3 * i + 2 < np && 2 * i + 1 < nt && 3 * i + 2 < nn
}

/// Whether the flat arrays describe a mesh of triangles: the indices come in
/// threes, and each names a vertex that all three attribute arrays hold.
pub open spec fn mesh_ok(
    positions: Seq<i32>,
    texcoords: Seq<i32>,
    normals: Seq<i32>,
    indices: Seq<u32>,
) -> bool {
    &&& indices.len() % 3 == 0
    &&& forall|k: int|
        0 <= k < indices.len() ==> vertex_in_mesh(
            positions.len() as int,
            texcoords.len() as int,
            normals.len() as int,
            #[trigger] indices[k],
        )
}

/// The position of vertex `i`, as a point.
pub open spec fn mesh_position(positions: Seq<i32>, i: int) -> Vec4 {
    Vec4 { x: positions[3 * i], y: positions[3 * i + 1], z: positions[3 * i + 2], w: 65536 }
}

/// The texture coordinate of vertex `i`.
pub open spec fn mesh_tex_coord(texcoords: Seq<i32>, i: int) -> Vec2 {
    Vec2 { x: texcoords[2 * i], y: texcoords[2 * i + 1] }
}

/// The normal of vertex `i`.
pub open spec fn mesh_normal(normals: Seq<i32>, i: int) -> Vec3 {
    Vec3 { x: normals[3 * i], y: normals[3 * i + 1], z: normals[3 * i + 2] }
}

/// Triangle `k` of the mesh: the attributes of the vertices that the indices
/// `3 k`, `3 k + 1` and `3 k + 2` name, with an opaque black colour.
pub open spec fn mesh_triangle(
    positions: Seq<i32>,
    texcoords: Seq<i32>,
    normals: Seq<i32>,
    indices: Seq<u32>,
    k: int,
) -> Triangle {
    let a = indices[3 * k] as int;
    let b = indices[3 * k + 1] as int;
    let c = indices[3 * k + 2] as int;
    let black = Vec4 { x: 0, y: 0, z: 0, w: 65536 };
    let origin = Vec3 { x: 0, y: 0, z: 0 };
    Triangle {
        v: [mesh_position(positions, a), mesh_position(positions, b), mesh_position(positions, c)],
        color: [black, black, black],
        tex_coords: [
            mesh_tex_coord(texcoords, a),
            mesh_tex_coord(texcoords, b),
            mesh_tex_coord(texcoords, c),
        ],
        normal: [mesh_normal(normals, a), mesh_normal(normals, b), mesh_normal(normals, c)],
        view_pos: [origin, origin, origin],
    }
}

fn check_index(np: usize, nt: usize, nn: usize, i: u32) -> (r: bool)
    ensures
        r == vertex_in_mesh(np as int, nt as int, nn as int, i),
{
    let j: u64 = i as u64;
    3 * j + 2 < np as u64 && 2 * j + 1 < nt as u64 && 3 * j + 2 < nn as u64
}

fn check_mesh(positions: &Vec<i32>, texcoords: &Vec<i32>, normals: &Vec<i32>, indices: &Vec<u32>) -> (r:
    bool)
    ensures
        r == mesh_ok(positions@, texcoords@, normals@, indices@),
{
    let n: usize = indices.len();
    if n % 3 != 0 {
        return false;
    }
    let mut k: usize = 0;
    while k < n
        invariant
            k <= n,
            n == indices@.len(),
            forall|k2: int|
                0 <= k2 < k ==> vertex_in_mesh(
                    positions@.len() as int,
                    texcoords@.len() as int,
                    normals@.len() as int,
                    #[trigger] indices@[k2],
                ),
        decreases n - k,
    {
        if !check_index(positions.len(), texcoords.len(), normals.len(), indices[k]) {
            return false;
        }
        k = k + 1;
    }
    true
}

fn vertex_of(positions: &Vec<i32>, texcoords: &Vec<i32>, normals: &Vec<i32>, i: u32) -> (r: (
    Vec4,
    Vec2,
    Vec3,
))
    requires
        vertex_in_mesh(positions@.len() as int, texcoords@.len() as int, normals@.len() as int, i),
    ensures
        r.0 == mesh_position(positions@, i as int),
        r.1 == mesh_tex_coord(texcoords@, i as int),
        r.2 == mesh_normal(normals@, i as int),
{
    let np: usize = positions.len();
    let nt: usize = texcoords.len();
    let nn: usize = normals.len();
    let j: usize = i as usize;
    (
        Vec4 { x: positions[3 * j], y: positions[3 * j + 1], z: positions[3 * j + 2], w: ONE },
        Vec2 { x: texcoords[2 * j], y: texcoords[2 * j + 1] },
        Vec3 { x: normals[3 * j], y: normals[3 * j + 1], z: normals[3 * j + 2] },
    )
}

/// The triangles of a mesh given by its flat arrays: three positions, two
/// texture coordinates and three normal components per vertex, and three
/// vertex indices per triangle. None where the arrays describe no mesh.
pub fn load_obj(
    positions: &Vec<i32>,
    texcoords: &Vec<i32>,
    normals: &Vec<i32>,
    indices: &Vec<u32>,
) -> (r: Option<Vec<Triangle>>)
    ensures
        r.is_some() == mesh_ok(positions@, texcoords@, normals@, indices@),
        r.is_some() ==> r.unwrap()@.len() * 3 == indices@.len(),
        r.is_some() ==> forall|k: int|
            0 <= k < r.unwrap()@.len() ==> #[trigger] r.unwrap()@[k] == mesh_triangle(
                positions@,
                texcoords@,
                normals@,
                indices@,
                k,
            ),
{
    if !check_mesh(positions, texcoords, normals, indices) {
        return None;
    }
    let n: usize = indices.len() / 3;
    let mut out: Vec<Triangle> = Vec::new();
    let mut k: usize = 0;
    while k < n
        invariant
            k <= n,
            n * 3 == indices@.len(),
            indices@.len() <= usize::MAX,
            mesh_ok(positions@, texcoords@, normals@, indices@),
            out@.len() == k,
            forall|k2: int|
                0 <= k2 < k ==> #[trigger] out@[k2] == mesh_triangle(
                    positions@,
                    texcoords@,
                    normals@,
                    indices@,
                    k2,
                ),
        decreases n - k,
    {
        let ia: u32 = indices[3 * k];
        let ib: u32 = indices[3 * k + 1];
        let ic: u32 = indices[3 * k + 2];
        let a = vertex_of(positions, texcoords, normals, ia);
        let b = vertex_of(positions, texcoords, normals, ib);
        let c = vertex_of(positions, texcoords, normals, ic);
        let black = Vec4 { x: 0, y: 0, z: 0, w: ONE };
        let origin = Vec3 { x: 0, y: 0, z: 0 };
        let t = Triangle {
            v: [a.0, b.0, c.0],
            color: [black, black, black],
            tex_coords: [a.1, b.1, c.1],
            normal: [a.2, b.2, c.2],
            view_pos: [origin, origin, origin],
        };
        proof {
            let g = mesh_triangle(positions@, texcoords@, normals@, indices@, k as int);
            assert(t.v =~= g.v);
            assert(t.color =~= g.color);
            assert(t.tex_coords =~= g.tex_coords);
            assert(t.normal =~= g.normal);
            assert(t.view_pos =~= g.view_pos);
        }
        out.push(t);
        k = k + 1;
    }
    Some(out)
}

/// The flat array cut into threes.
pub open spec fn in_threes(flat: Seq<i32>) -> Seq<Vec3> {
    Seq::new(
        (flat.len() / 3) as nat,
        |k: int| Vec3 { x: flat[3 * k], y: flat[3 * k + 1], z: flat[3 * k + 2] },
    )
}

/// The flat array cut into threes, each made a point.
pub open spec fn in_points(flat: Seq<i32>) -> Seq<Vec4> {
    Seq::new(
        (flat.len() / 3) as nat,
        |k: int| Vec4 { x: flat[3 * k], y: flat[3 * k + 1], z: flat[3 * k + 2], w: 65536 },
    )
}

/// The flat array cut into twos.
pub open spec fn in_twos(flat: Seq<i32>) -> Seq<Vec2> {
    Seq::new((flat.len() / 2) as nat, |k: int| Vec2 { x: flat[2 * k], y: flat[2 * k + 1] })
}

/// The flat index array cut into triples.
pub open spec fn in_triples(flat: Seq<u32>) -> Seq<UVec3> {
    Seq::new(
        (flat.len() / 3) as nat,
        |k: int| UVec3 { x: flat[3 * k], y: flat[3 * k + 1], z: flat[3 * k + 2] },
    )
}

fn cut_threes(flat: &Vec<i32>) -> (r: Vec<Vec3>)
    requires
        flat@.len() % 3 == 0,
    ensures
        r@ == in_threes(flat@),
{
    let n: usize = flat.len() / 3;
    let mut out: Vec<Vec3> = Vec::new();
    let mut k: usize = 0;
    while k < n
        invariant
            k <= n,
            n * 3 == flat@.len(),
            flat@.len() <= usize::MAX,
            out@.len() == k,
            forall|k2: int| 0 <= k2 < k ==> out@[k2] == in_threes(flat@)[k2],
        decreases n - k,
    {
        out.push(Vec3 { x: flat[3 * k], y: flat[3 * k + 1], z: flat[3 * k + 2] });
        k = k + 1;
    }
    assert(out@ =~= in_threes(flat@));
    out
}

fn cut_points(flat: &Vec<i32>) -> (r: Vec<Vec4>)
    requires
        flat@.len() % 3 == 0,
    ensures
        r@ == in_points(flat@),
{
    let n: usize = flat.len() / 3;
    let mut out: Vec<Vec4> = Vec::new();
    let mut k: usize = 0;
    while k < n
        invariant
            k <= n,
            n * 3 == flat@.len(),
            flat@.len() <= usize::MAX,
            out@.len() == k,
            forall|k2: int| 0 <= k2 < k ==> out@[k2] == in_points(flat@)[k2],
        decreases n - k,
    {
        out.push(Vec4 { x: flat[3 * k], y: flat[3 * k + 1], z: flat[3 * k + 2], w: ONE });
        k = k + 1;
    }
    assert(out@ =~= in_points(flat@));
    out
}

fn cut_twos(flat: &Vec<i32>) -> (r: Vec<Vec2>)
    requires
        flat@.len() % 2 == 0,
    ensures
        r@ == in_twos(flat@),
{
    let n: usize = flat.len() / 2;
    let mut out: Vec<Vec2> = Vec::new();
    let mut k: usize = 0;
    while k < n
        invariant
            k <= n,
            n * 2 == flat@.len(),
            flat@.len() <= usize::MAX,
            out@.len() == k,
            forall|k2: int| 0 <= k2 < k ==> out@[k2] == in_twos(flat@)[k2],
        decreases n - k,
    {
        out.push(Vec2 { x: flat[2 * k], y: flat[2 * k + 1] });
        k = k + 1;
    }
    assert(out@ =~= in_twos(flat@));
    out
}

fn cut_triples(flat: &Vec<u32>) -> (r: Vec<UVec3>)
    requires
        flat@.len() % 3 == 0,
    ensures
        r@ == in_triples(flat@),
{
    let n: usize = flat.len() / 3;
    let mut out: Vec<UVec3> = Vec::new();
    let mut k: usize = 0;
    while k < n
        invariant
            k <= n,
            n * 3 == flat@.len(),
            flat@.len() <= usize::MAX,
            out@.len() == k,
            forall|k2: int| 0 <= k2 < k ==> out@[k2] == in_triples(flat@)[k2],
        decreases n - k,
    {
        out.push(UVec3 { x: flat[3 * k], y: flat[3 * k + 1], z: flat[3 * k + 2] });
        k = k + 1;
    }
    assert(out@ =~= in_triples(flat@));
    out
}

/// The handles under which the buffers of one mesh were loaded.
#[derive(Clone, Copy, Debug)]
pub struct MeshHandles {
    pub indices: IndBufId,
    pub positions: PosBufId,
    pub normals: ColBufId,
    pub tex_coords: PosBufId,
}

/// Whether each flat array can be cut into whole vertices or triples.
pub open spec fn arrays_whole(
    positions: Seq<i32>,
    texcoords: Seq<i32>,
    normals: Seq<i32>,
    indices: Seq<u32>,
) -> bool {
    positions.len() % 3 == 0 && texcoords.len() % 2 == 0 && normals.len() % 3 == 0 && indices.len()
        % 3 == 0
}

impl Rasterizer {
    /// Loads the four buffers of a mesh given by its flat arrays: the index
    /// triples, the positions, the normals (as points) and the texture
    /// coordinates, in this order. Where an array cannot be cut into whole
    /// items, nothing is loaded.
    pub fn load_obj(
        &mut self,
        positions: &Vec<i32>,
        texcoords: &Vec<i32>,
        normals: &Vec<i32>,
        indices: &Vec<u32>,
    ) -> (r: Option<MeshHandles>)
        requires
            old(self).wf(),
            old(self).minted() + 4 <= usize::MAX,
        ensures
            final(self).wf(),
            final(self).same_picture(old(self)),
            final(self).color_buffers() == old(self).color_buffers(),
            r.is_some() == arrays_whole(positions@, texcoords@, normals@, indices@),
            r.is_none() ==> final(self).same_buffers(old(self)),
            r.is_some() ==> {
                let h = r.unwrap();
                &&& final(self).minted() == old(self).minted() + 4
                &&& h.indices@ == old(self).minted()
                &&& h.positions@ == old(self).minted() + 1
                &&& h.normals@ == old(self).minted() + 2
                &&& h.tex_coords@ == old(self).minted() + 3
                &&& final(self).index_buffers().dom() == old(self).index_buffers().dom().insert(
                    h.indices@,
                )
                &&& final(self).index_buffers()[h.indices@]@ == in_triples(indices@)
                &&& final(self).position_buffers().dom() == old(
                    self,
                ).position_buffers().dom().insert(h.positions@)
                &&& final(self).position_buffers()[h.positions@]@ == in_threes(positions@)
                &&& final(self).normal_buffers().dom() == old(self).normal_buffers().dom().insert(
                    h.normals@,
                )
                &&& final(self).normal_buffers()[h.normals@]@ == in_points(normals@)
                &&& final(self).tex_coord_buffers().dom() == old(
                    self,
                ).tex_coord_buffers().dom().insert(h.tex_coords@)
                &&& final(self).tex_coord_buffers()[h.tex_coords@]@ == in_twos(texcoords@)
                &&& forall|k: usize|
                    old(self).index_buffers().contains_key(k) ==> #[trigger] final(self).index_buffers()[k] == old(self).index_buffers()[k]
                &&& forall|k: usize|
                    old(self).position_buffers().contains_key(k) ==> #[trigger] final(self).position_buffers()[k] == old(self).position_buffers()[k]
                &&& forall|k: usize|
                    old(self).normal_buffers().contains_key(k) ==> #[trigger] final(self).normal_buffers()[k] == old(self).normal_buffers()[k]
                &&& forall|k: usize|
                    old(self).tex_coord_buffers().contains_key(k) ==> #[trigger] final(self).tex_coord_buffers()[k] == old(self).tex_coord_buffers()[k]
            },
    {
        if positions.len() % 3 != 0 || texcoords.len() % 2 != 0 || normals.len() % 3 != 0
            || indices.len() % 3 != 0 {
            return None;
        }
        let ind = self.load_indices(cut_triples(indices));
        let pos = self.load_positions(cut_threes(positions));
        let nor = self.load_normals(cut_points(normals));
        let tex = self.load_tex_coords(cut_twos(texcoords));
        Some(MeshHandles { indices: ind, positions: pos, normals: nor, tex_coords: tex })
    }
}

} // verus!
