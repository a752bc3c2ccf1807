use softraster::coverage::compute_barycentric_2d;
use softraster::fixed::{div_fixed, div_toward_zero, mul_fixed, saturate_i32, ONE};
use softraster::line::{line_pixel, line_pixels};
use softraster::rasterizer::Rasterizer;
use softraster::transform::{
    get_model_matrix, get_projection_matrix, get_rotation, get_view_matrix, Mat4,
};
use softraster::triangle::{Rect, Triangle};
use softraster::vector::{uvec3, vec3, vec4, Vec3, Vec4};

fn px(v: i32) -> i32 {
    v * ONE
}

#[test]
fn fixed_point_arithmetic_rounds_toward_zero_and_saturates() {
    assert_eq!(div_toward_zero(7, 2), 3);
    assert_eq!(div_toward_zero(-7, 2), -3);
    assert_eq!(div_toward_zero(7, -2), -3);
    assert_eq!(div_toward_zero(-7, -2), 3);
    assert_eq!(saturate_i32(1 << 40), i32::MAX);
    assert_eq!(saturate_i32(-(1 << 40)), i32::MIN);
    assert_eq!(saturate_i32(-5), -5);
    assert_eq!(mul_fixed(3 * ONE, ONE / 2), 3 * ONE / 2);
    assert_eq!(mul_fixed(-3, ONE / 2), -1);
    assert_eq!(mul_fixed(i32::MAX, i32::MAX), i32::MAX);
    assert_eq!(mul_fixed(i32::MIN, i32::MAX), i32::MIN);
    assert_eq!(div_fixed(ONE, 4 * ONE), ONE / 4);
    assert_eq!(div_fixed(-ONE, 3 * ONE), -21845);
    assert_eq!(div_fixed(i32::MAX, 1), i32::MAX);
}

#[test]
fn interior_point_has_positive_weights_that_sum_to_one() {
    let v = [
        vec4(px(1), px(1), 0, ONE),
        vec4(px(9), px(2), 0, ONE),
        vec4(px(4), px(8), 0, ONE),
    ];
    let b = compute_barycentric_2d(9, 7, 2, &v).unwrap();
    assert!(b.w0 > 0 && b.w1 > 0 && b.w2 > 0);
    assert_eq!(b.w0 + b.w1 + b.w2, b.den);
    assert!(b.is_inside());
    // the same triangle wound the other way
    let w = [v[0], v[2], v[1]];
    let c = compute_barycentric_2d(9, 7, 2, &w).unwrap();
    assert!(c.w0 > 0 && c.w1 > 0 && c.w2 > 0);
    assert_eq!(c.w0 + c.w1 + c.w2, c.den);
    assert_eq!((c.w0, c.w1, c.w2), (b.w0, b.w2, b.w1));
    // a point outside
    let out = compute_barycentric_2d(0, 30, 2, &v).unwrap();
    assert!(!out.is_inside());
    assert_eq!(out.w0 + out.w1 + out.w2, out.den);
}

#[test]
fn weights_at_a_sample_centre_are_exact() {
    // right triangle (0,0), (4,0), (0,4); the sample centre (1.5, 1.5)
    let v = [vec4(0, 0, 0, ONE), vec4(px(4), 0, 0, ONE), vec4(0, px(4), 0, ONE)];
    let b = compute_barycentric_2d(1, 1, 1, &v).unwrap();
    // weights 1/4, 3/8, 3/8
    assert_eq!(b.w0 * 4, b.den);
    assert_eq!(b.w1 * 8, b.den * 3);
    assert_eq!(b.w2 * 8, b.den * 3);
    assert_eq!(b.interpolate(8 * ONE, 0, 0), 2 * ONE);
    assert_eq!(b.interpolate(0, 8 * ONE, 16 * ONE), 9 * ONE);
    assert_eq!(b.interpolate(-77, -77, -77), -77);
    // on an edge: inside
    let e = compute_barycentric_2d(1, 1, 1, &[v[0], vec4(px(3), 0, 0, ONE), vec4(0, px(3), 0, ONE)])
        .unwrap();
    assert_eq!(e.w0, 0);
    assert!(e.is_inside());
}

#[test]
fn no_weights_without_area_or_samples() {
    let line = [vec4(0, 0, 0, ONE), vec4(px(2), px(2), 0, ONE), vec4(px(5), px(5), 0, ONE)];
    assert!(compute_barycentric_2d(1, 1, 1, &line).is_none());
    let v = [vec4(0, 0, 0, ONE), vec4(px(4), 0, 0, ONE), vec4(0, px(4), 0, ONE)];
    assert!(compute_barycentric_2d(1, 1, 0, &v).is_none());
    assert!(compute_barycentric_2d(u32::MAX, u32::MAX, u16::MAX, &[
        vec4(i32::MIN, i32::MIN, 0, ONE),
        vec4(i32::MAX, i32::MIN, 0, ONE),
        vec4(i32::MIN, i32::MAX, 0, ONE),
    ])
    .is_some());
}

#[test]
fn bounding_box_rounds_outward() {
    let mut t = Triangle::new();
    t.set_vertex(0, vec4(px(3) + 100, px(7) + 1, 0, ONE));
    t.set_vertex(1, vec4(px(1) + 9, px(2) + 65535, 0, ONE));
    t.set_vertex(2, vec4(px(5), px(4), 0, ONE));
    let b = t.bounding_box();
    assert_eq!(b, Rect { x0: px(1) + 9, y0: px(2) + 65535, x1: px(5), y1: px(7) + 1 });
    assert_eq!(b.x_range(), 1..6);
    assert_eq!(b.y_range(), 2..9);
    assert_eq!((b.x_start(), b.x_end(), b.y_start(), b.y_end()), (1, 5, 2, 8));
    let left = Rect { x0: -px(3), y0: -1, x1: -px(1), y1: 0 };
    assert_eq!(left.x_range(), 0..1);
    assert_eq!(left.y_range(), 0..1);
    assert_eq!((t.a(), t.b(), t.c()), (t.v[0], t.v[1], t.v[2]));
    assert_eq!(t.to_vec4(), t.v);
}

#[test]
fn colours_on_the_byte_scale_are_brought_to_unit_scale() {
    let mut t = Triangle::zeros();
    t.set_color_rgb(0, 255 * ONE, 0, 51 * ONE);
    assert_eq!(t.color[0], vec4(ONE, 0, 13107, ONE));
    t.set_color_rgba(1, 255 * ONE, 255, 128 * ONE, 0);
    assert_eq!(t.color[1], vec4(ONE, 1, 32896, 0));
    t.set_color_vec(2, vec4(1, 2, 3, 4));
    assert_eq!(t.color[2], vec4(1, 2, 3, 4));
    t.set_tex_coords(2, 5, 6);
    t.set_normal(1, vec3(7, 8, 9));
    assert_eq!(t.tex_coords[2].x, 5);
    assert_eq!(t.normal[1], vec3(7, 8, 9));
    assert_eq!(t.normal[0], vec3(0, 0, 0));
}

fn identity_entries() -> [i32; 16] {
    [ONE, 0, 0, 0, 0, ONE, 0, 0, 0, 0, ONE, 0, 0, 0, 0, ONE]
}

#[test]
fn view_matrix_translates_by_the_negated_eye() {
    let m = get_view_matrix(vec3(px(1), -px(2), px(5)));
    let mut want = identity_entries();
    want[3] = -px(1);
    want[7] = px(2);
    want[11] = -px(5);
    assert_eq!(m.m, want);
    assert_eq!(get_view_matrix(vec3(i32::MIN, 0, 0)).m[3], i32::MAX);
    assert_eq!(m.transform_point(vec4(px(1), px(1), px(1), ONE)), vec3(0, px(3), -px(4)));
}

#[test]
fn rotation_follows_rodrigues() {
    // a quarter turn about z
    let m = get_model_matrix(0, ONE);
    assert_eq!(m.m, [0, -ONE, 0, 0, ONE, 0, 0, 0, 0, 0, ONE, 0, 0, 0, 0, ONE]);
    // no turn at all
    assert_eq!(get_rotation(vec3(ONE, 0, 0), ONE, 0).m, identity_entries());
    // a half turn about x
    let h = get_rotation(vec3(ONE, 0, 0), -ONE, 0);
    assert_eq!(h.m, [ONE, 0, 0, 0, 0, -ONE, 0, 0, 0, 0, -ONE, 0, 0, 0, 0, ONE]);
    // a quarter turn about y takes z to x
    let q = get_rotation(vec3(0, ONE, 0), 0, ONE);
    assert_eq!(q.transform_point(vec4(0, 0, ONE, ONE)), vec3(ONE, 0, 0));
}

#[test]
fn projection_matrix_of_a_frustum() {
    let m = get_projection_matrix(ONE, ONE, ONE, 50 * ONE).unwrap();
    assert_eq!(
        m.m,
        [-ONE, 0, 0, 0, 0, -ONE, 0, 0, 0, 0, -68210, 133746, 0, 0, ONE, 0]
    );
    let wide = get_projection_matrix(ONE / 2, 2 * ONE, -2 * ONE, 10 * ONE).unwrap();
    // top = -1, right = -2
    assert_eq!(wide.m[0], ONE);
    assert_eq!(wide.m[5], 2 * ONE);
    assert!(get_projection_matrix(0, ONE, ONE, 50 * ONE).is_none());
    assert!(get_projection_matrix(ONE, 0, ONE, 50 * ONE).is_none());
    assert!(get_projection_matrix(ONE, ONE, 0, 50 * ONE).is_none());
    assert!(get_projection_matrix(ONE, ONE, ONE, ONE).is_none());
}

#[test]
fn matrices_compose_and_project() {
    let id = Mat4::identity();
    assert_eq!(id.m, identity_entries());
    let t = get_view_matrix(vec3(-px(1), 0, 0));
    let r = get_model_matrix(0, ONE);
    assert_eq!(id.compose(&t).m, t.m);
    assert_eq!(t.compose(&id).m, t.m);
    // rotate first, then translate
    let tr = t.compose(&r);
    assert_eq!(tr.transform_point(vec4(ONE, 0, 0, ONE)), vec3(ONE, ONE, 0));
    // translate first, then rotate
    let rt = r.compose(&t);
    assert_eq!(rt.transform_point(vec4(ONE, 0, 0, ONE)), vec3(0, 2 * ONE, 0));

    // the centre of the view lands in the middle of the screen, at depth 50.05
    assert_eq!(id.to_screen(vec4(0, 0, 0, ONE), 700, 500), Some(vec4(px(350), px(250), 3280076, ONE)));
    // the corners of the view
    assert_eq!(
        id.to_screen(vec4(-ONE, ONE, ONE, ONE), 700, 500),
        Some(vec4(0, px(500), 100 * ONE, ONE))
    );
    assert_eq!(
        id.to_screen(vec4(ONE, -ONE, -ONE, ONE), 700, 500),
        Some(vec4(px(700), 0, 6553, ONE))
    );
    // the perspective divide
    assert_eq!(
        id.to_screen(vec4(ONE, ONE, 0, 2 * ONE), 100, 100),
        Some(vec4(px(75), px(75), 3280076, ONE))
    );
    assert_eq!(id.to_screen(vec4(ONE, ONE, ONE, 0), 100, 100), None);
    // far off the screen: saturated
    assert_eq!(id.to_screen(vec4(i32::MAX, 0, 0, 1), 100, 100).unwrap().x, i32::MAX);
}

fn lit(r: &Rasterizer) -> Vec<(usize, usize)> {
    let mut out = vec![];
    for y in 0..r.height() {
        for x in 0..r.width() {
            let c = r.frame_buffer()[(r.height() - 1 - y) * r.width() + x];
            if c == (Vec4 { x: ONE, y: ONE, z: ONE, w: ONE }) {
                out.push((x, y));
            }
        }
    }
    out
}

fn at(x: i32, y: i32) -> Vec3 {
    vec3(px(x), px(y), 0)
}

#[test]
fn lines_are_walked_along_their_longer_axis() {
    let mut r = Rasterizer::new(8, 8, 1);
    r.draw_line(at(1, 1), at(5, 1));
    assert_eq!(lit(&r), vec![(1, 1), (2, 1), (3, 1), (4, 1), (5, 1)]);

    let mut r = Rasterizer::new(8, 8, 1);
    r.draw_line(at(2, 4), at(2, 1));
    assert_eq!(lit(&r), vec![(2, 1), (2, 2), (2, 3), (2, 4)]);

    let mut r = Rasterizer::new(8, 8, 1);
    r.draw_line(at(0, 0), at(6, 3));
    assert_eq!(lit(&r), vec![(0, 0), (1, 0), (2, 1), (3, 1), (4, 2), (5, 2), (6, 3)]);

    let mut r = Rasterizer::new(8, 8, 1);
    r.draw_line(at(3, 6), at(1, 0));
    assert_eq!(lit(&r), vec![(1, 0), (1, 1), (1, 2), (2, 3), (2, 4), (2, 5), (3, 6)]);

    // a segment without length is one pixel
    let mut r = Rasterizer::new(8, 8, 1);
    r.draw_line(at(3, 3), at(3, 3));
    assert_eq!(lit(&r), vec![(3, 3)]);

    // what leaves the frame is left out
    let mut r = Rasterizer::new(4, 4, 1);
    r.draw_line(at(2, 2), at(9, 2));
    assert_eq!(lit(&r), vec![(2, 2), (3, 2)]);
    assert_eq!(line_pixels(at(2, 2), at(9, 2)), 8);
    assert_eq!(line_pixel(at(2, 2), at(9, 2), 7), (9, 2));
}

#[test]
fn wireframe_draws_the_three_edges() {
    let mut r = Rasterizer::new(8, 8, 1);
    let mut t = Triangle::zeros();
    t.set_vertex(0, vec4(px(1), px(1), 0, ONE));
    t.set_vertex(1, vec4(px(5), px(1), 0, ONE));
    t.set_vertex(2, vec4(px(1), px(5), 0, ONE));
    r.rasterize_wireframe(&t);
    let on = lit(&r);
    for p in [(1, 1), (3, 1), (5, 1), (1, 3), (1, 5), (3, 3), (4, 2), (2, 4)] {
        assert!(on.contains(&p), "{:?}", p);
    }
    assert!(!on.contains(&(2, 2)));
    assert_eq!(on.len(), 12);
}

#[test]
fn wireframe_draw_outlines_the_picked_triangles() {
    let mut r = Rasterizer::new(8, 8, 1);
    // in normalized device coordinates; lands on (2, 2), (6, 2), (2, 6)
    let half = ONE / 2;
    let pos = r.load_positions(vec![vec3(-half, -half, 0), vec3(half, -half, 0), vec3(-half, half, 0)]);
    let ind = r.load_indices(vec![uvec3(0, 1, 2)]);
    let beyond = r.load_indices(vec![uvec3(0, 1, 3)]);
    assert!(r.can_draw_wireframe(&pos, &ind));
    assert!(!r.can_draw_wireframe(&pos, &beyond));
    r.draw_wireframe(&pos, &ind);
    let on = lit(&r);
    for p in [(2, 2), (4, 2), (6, 2), (2, 4), (2, 6), (4, 4), (5, 3), (3, 5)] {
        assert!(on.contains(&p), "{:?}", p);
    }
    assert!(!on.contains(&(3, 3)));
    assert_eq!(on.len(), 12);
}
