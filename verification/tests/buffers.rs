use softraster::fixed::ONE;
use softraster::loader::load_obj;
use softraster::rasterizer::Rasterizer;
use softraster::vector::{uvec3, vec2, vec3, vec4, Vec2, Vec3, Vec4};

#[test]
fn loaded_positions_come_back_in_order() {
    let mut r = Rasterizer::new(4, 4, 1);
    let data = vec![vec3(1, 2, 3), vec3(-4, 5, -6), vec3(7, 8, 9), vec3(1, 2, 3)];
    let id = r.load_positions(data.clone());
    assert_eq!(r.positions(&id), Some(&data));
}

#[test]
fn each_load_mints_a_fresh_handle() {
    let mut r = Rasterizer::new(4, 4, 1);
    let first = r.load_positions(vec![vec3(1, 1, 1)]);
    let second = r.load_positions(vec![vec3(2, 2, 2)]);
    let index = r.load_indices(vec![uvec3(0, 0, 0)]);
    let color = r.load_colors(vec![vec4(1, 2, 3, 4)]);
    let normal = r.load_normals(vec![vec4(5, 6, 7, ONE)]);
    let coords = r.load_tex_coords(vec![vec2(8, 9)]);
    assert_ne!(first, second);
    assert_eq!(r.positions(&first), Some(&vec![vec3(1, 1, 1)]));
    assert_eq!(r.positions(&second), Some(&vec![vec3(2, 2, 2)]));
    assert_eq!(r.indices(&index), Some(&vec![uvec3(0, 0, 0)]));
    assert_eq!(r.colors(&color), Some(&vec![vec4(1, 2, 3, 4)]));
    assert_eq!(r.normals(&normal), Some(&vec![vec4(5, 6, 7, ONE)]));
    assert_eq!(r.tex_coords(&coords), Some(&vec![vec2(8, 9)]));
    // a handle of one kind finds nothing among the buffers of another
    assert!(r.tex_coords(&first).is_none());
    assert!(r.positions(&coords).is_none());
    assert!(r.normals(&color).is_none());
    assert!(r.colors(&normal).is_none());
}

#[test]
fn mesh_arrays_become_triangles() {
    let positions = vec![0, 1, 2, 10, 11, 12, 20, 21, 22, 30, 31, 32];
    let texcoords = vec![100, 101, 110, 111, 120, 121, 130, 131];
    let normals = vec![5, 6, 7, 15, 16, 17, 25, 26, 27, 35, 36, 37];
    let indices = vec![0, 1, 2, 3, 2, 1];
    let ts = load_obj(&positions, &texcoords, &normals, &indices).unwrap();
    assert_eq!(ts.len(), 2);
    assert_eq!(ts[0].v, [vec4(0, 1, 2, ONE), vec4(10, 11, 12, ONE), vec4(20, 21, 22, ONE)]);
    assert_eq!(ts[1].v, [vec4(30, 31, 32, ONE), vec4(20, 21, 22, ONE), vec4(10, 11, 12, ONE)]);
    assert_eq!(ts[1].tex_coords, [vec2(130, 131), vec2(120, 121), vec2(110, 111)]);
    assert_eq!(ts[1].normal, [vec3(35, 36, 37), vec3(25, 26, 27), vec3(15, 16, 17)]);
    assert_eq!(ts[0].color, [vec4(0, 0, 0, ONE); 3]);
}

#[test]
fn malformed_mesh_arrays_are_refused() {
    let positions = vec![0, 1, 2, 10, 11, 12, 20, 21, 22];
    let texcoords = vec![0, 0, 0, 0, 0, 0];
    let normals = vec![0, 0, 0, 0, 0, 0, 0, 0, 0];
    assert!(load_obj(&positions, &texcoords, &normals, &vec![0, 1, 2]).is_some());
    assert!(load_obj(&positions, &texcoords, &normals, &vec![]).is_some());
    // indices not in threes
    assert!(load_obj(&positions, &texcoords, &normals, &vec![0, 1]).is_none());
    // an index beyond the vertices
    assert!(load_obj(&positions, &texcoords, &normals, &vec![0, 1, 3]).is_none());
    // a vertex without texture coordinate
    assert!(load_obj(&positions, &vec![0, 0, 0, 0], &normals, &vec![0, 1, 2]).is_none());
    // a vertex without normal
    assert!(load_obj(&positions, &texcoords, &vec![0, 0, 0], &vec![0, 1, 2]).is_none());
}

#[test]
fn mesh_buffers_are_loaded_under_four_handles() {
    let mut r = Rasterizer::new(4, 4, 1);
    let positions = vec![0, 1, 2, 10, 11, 12];
    let texcoords = vec![100, 101, 110, 111];
    let normals = vec![5, 6, 7, 15, 16, 17];
    let indices = vec![0, 1, 1];
    let h = r.load_obj(&positions, &texcoords, &normals, &indices).unwrap();
    assert_eq!(r.indices(&h.indices), Some(&vec![uvec3(0, 1, 1)]));
    let want_pos: Vec<Vec3> = vec![vec3(0, 1, 2), vec3(10, 11, 12)];
    assert_eq!(r.positions(&h.positions), Some(&want_pos));
    let want_nor: Vec<Vec4> = vec![vec4(5, 6, 7, ONE), vec4(15, 16, 17, ONE)];
    assert_eq!(r.normals(&h.normals), Some(&want_nor));
    let want_tex: Vec<Vec2> = vec![vec2(100, 101), vec2(110, 111)];
    assert_eq!(r.tex_coords(&h.tex_coords), Some(&want_tex));
    assert!(r.load_obj(&vec![1, 2], &texcoords, &normals, &indices).is_none());
    assert!(r.load_obj(&positions, &vec![1], &normals, &indices).is_none());
    assert!(r.load_obj(&positions, &texcoords, &vec![1], &indices).is_none());
    assert!(r.load_obj(&positions, &texcoords, &normals, &vec![1]).is_none());
}
