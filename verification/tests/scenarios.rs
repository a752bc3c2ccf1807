use softraster::fixed::ONE;
use softraster::rasterizer::{BufferKind, PrimitiveKind, Rasterizer, FAR};
use softraster::coverage::compute_barycentric_2d;
use softraster::shader::{shade_phong, FragmentShader};
use softraster::texture::Texture;
use softraster::transform::{get_model_matrix, get_view_matrix, Mat4};
use softraster::triangle::Triangle;
use softraster::vector::{uvec3, vec3, vec4, Vec3, Vec4};

fn px(v: i32) -> i32 {
    v * ONE
}

fn flat_triangle(a: (i32, i32), b: (i32, i32), c: (i32, i32), depth: i32, color: Vec4) -> Triangle {
    let mut t = Triangle::zeros();
    t.set_vertex(0, vec4(a.0, a.1, depth, ONE));
    t.set_vertex(1, vec4(b.0, b.1, depth, ONE));
    t.set_vertex(2, vec4(c.0, c.1, depth, ONE));
    for i in 0..3 {
        t.set_color(i, color);
    }
    t
}

fn red_triangle(depth: i32) -> Triangle {
    flat_triangle(
        (px(350), px(100)),
        (px(450), px(600)),
        (px(250), px(600)),
        depth,
        vec4(ONE, 0, 0, ONE),
    )
}

fn pixel(r: &Rasterizer, x: usize, y_up: usize) -> Vec4 {
    let row = r.height() - 1 - y_up;
    r.frame_buffer()[row * r.width() + x]
}

const RED: Vec4 = Vec4 { x: ONE, y: 0, z: 0, w: ONE };
const GREEN: Vec4 = Vec4 { x: 0, y: ONE, z: 0, w: ONE };
const BLACK: Vec4 = Vec4 { x: 0, y: 0, z: 0, w: ONE };

#[test]
fn solid_red_triangle_on_black_canvas() {
    let mut r = Rasterizer::new(700, 700, 2);
    r.clear(BufferKind::All);
    r.rasterize_triangle_antialiased(&red_triangle(10 * ONE));
    r.downsample();
    assert_eq!(pixel(&r, 350, 350), RED);
    assert_eq!(pixel(&r, 10, 10), BLACK);
}

#[test]
fn nearer_triangle_wins_in_either_order() {
    let near = flat_triangle((px(2), px(2)), (px(30), px(2)), (px(2), px(30)), 5 * ONE, RED);
    let far = flat_triangle((px(0), px(0)), (px(40), px(0)), (px(0), px(40)), 9 * ONE, GREEN);

    let mut first = Rasterizer::new(40, 40, 2);
    first.rasterize_triangle_antialiased(&near);
    first.rasterize_triangle_antialiased(&far);
    first.downsample();

    let mut second = Rasterizer::new(40, 40, 2);
    second.rasterize_triangle_antialiased(&far);
    second.rasterize_triangle_antialiased(&near);
    second.downsample();

    assert_eq!(pixel(&first, 8, 8), RED);
    assert_eq!(pixel(&second, 8, 8), RED);
    // outside the near triangle, inside the far one
    assert_eq!(pixel(&first, 1, 35), GREEN);
    assert_eq!(pixel(&second, 1, 35), GREEN);
    assert_eq!(first.frame_buffer(), second.frame_buffer());
}

#[test]
fn equal_depth_keeps_the_first_drawn() {
    let mut r = Rasterizer::new(40, 40, 2);
    let first = flat_triangle((px(0), px(0)), (px(40), px(0)), (px(0), px(40)), 7 * ONE, RED);
    let again = flat_triangle((px(0), px(0)), (px(40), px(0)), (px(0), px(40)), 7 * ONE, GREEN);
    r.rasterize_triangle_antialiased(&first);
    r.downsample();
    let before: Vec<Vec4> = r.frame_buffer().clone();
    r.rasterize_triangle_antialiased(&again);
    r.rasterize_triangle_antialiased(&first);
    r.downsample();
    assert_eq!(r.frame_buffer(), &before);
    assert_eq!(pixel(&r, 5, 5), RED);
}

#[test]
fn fully_covered_pixel_resolves_to_the_colour() {
    let color = vec4(12345, 54321, 777, ONE);
    let mut r = Rasterizer::new(8, 8, 3);
    let t = flat_triangle((px(-20), px(-20)), (px(60), px(-20)), (px(-20), px(60)), ONE, color);
    r.rasterize_triangle(&t);
    assert_eq!(pixel(&r, 3, 3), color);
    assert_eq!(pixel(&r, 0, 0), color);
}

#[test]
fn half_covered_pixel_resolves_to_the_mean() {
    // the edge x = 1.5 cuts the pixel in column 1: of its 2 x 2 samples the two
    // at x = 1.25 are covered, the two at x = 1.75 are not
    let half = ONE / 2;
    let mut r = Rasterizer::new(4, 4, 2);
    let t = flat_triangle(
        (px(-10), px(-10)),
        (px(1) + half, px(-10)),
        (px(1) + half, px(20)),
        ONE,
        RED,
    );
    r.rasterize_triangle(&t);
    assert_eq!(pixel(&r, 1, 1), vec4(ONE / 2, 0, 0, ONE));
    assert_eq!(pixel(&r, 0, 1), RED);
    assert_eq!(pixel(&r, 2, 1), BLACK);
}

#[test]
fn degenerate_triangle_covers_nothing() {
    let mut r = Rasterizer::new(8, 8, 2);
    let t = flat_triangle((px(1), px(1)), (px(4), px(4)), (px(6), px(6)), ONE, RED);
    r.rasterize_triangle(&t);
    for p in r.frame_buffer() {
        assert_eq!(*p, BLACK);
    }
}

#[test]
fn triangle_outside_the_frame_is_clamped() {
    let mut r = Rasterizer::new(8, 8, 2);
    let t = flat_triangle((px(100), px(100)), (px(200), px(100)), (px(100), px(200)), ONE, RED);
    r.rasterize_triangle(&t);
    for p in r.frame_buffer() {
        assert_eq!(*p, BLACK);
    }
    // the half plane below the diagonal y = x, as far as coordinates reach
    let huge = flat_triangle(
        (i32::MIN, i32::MIN),
        (i32::MAX, i32::MIN),
        (i32::MAX, i32::MAX),
        ONE,
        GREEN,
    );
    r.rasterize_triangle(&huge);
    assert_eq!(pixel(&r, 7, 0), GREEN);
    assert_eq!(pixel(&r, 4, 3), GREEN);
    assert_eq!(pixel(&r, 0, 7), BLACK);
    // on the diagonal: three of the four samples lie on or below it
    assert_eq!(pixel(&r, 2, 2), vec4(0, 3 * ONE / 4, 0, ONE));
}

#[test]
fn clear_resets_what_it_names() {
    let mut r = Rasterizer::new(4, 4, 1);
    let t = flat_triangle((px(-9), px(-9)), (px(30), px(-9)), (px(-9), px(30)), 3 * ONE, RED);
    r.rasterize_triangle(&t);
    assert_eq!(pixel(&r, 1, 1), RED);
    // colour cleared, depth kept: the same triangle is no longer nearer
    r.clear(BufferKind::Color);
    r.rasterize_triangle(&t);
    assert_eq!(pixel(&r, 1, 1), BLACK);
    // depth cleared too: it is drawn again
    r.clear(BufferKind::Depth);
    r.rasterize_triangle(&t);
    assert_eq!(pixel(&r, 1, 1), RED);
    r.clear(BufferKind::All);
    r.downsample();
    assert_eq!(pixel(&r, 1, 1), BLACK);
    assert_eq!(FAR, i64::MAX);
}

#[test]
fn draw_positions_the_triangle_with_the_matrices() {
    let mut r = Rasterizer::new(100, 100, 2);
    let half = ONE / 2;
    let pos = r.load_positions(vec![vec3(-half, -half, 0), vec3(half, -half, 0), vec3(0, half, 0)]);
    let ind = r.load_indices(vec![uvec3(0, 1, 2)]);
    let col = r.load_colors(vec![
        vec4(255 * ONE, 0, 0, 0),
        vec4(255 * ONE, 0, 0, 0),
        vec4(255 * ONE, 0, 0, 0),
    ]);
    assert!(r.can_draw(&pos, &ind, &col));
    r.draw(&pos, &ind, &col, PrimitiveKind::Triangle);
    // the triangle lands on (25, 25), (75, 25), (50, 75)
    assert_eq!(pixel(&r, 50, 40), RED);
    assert_eq!(pixel(&r, 50, 30), RED);
    assert_eq!(pixel(&r, 10, 10), BLACK);
    assert_eq!(pixel(&r, 30, 70), BLACK);
    assert_eq!(pixel(&r, 50, 80), BLACK);
}

#[test]
fn draw_of_lines_changes_nothing() {
    let mut r = Rasterizer::new(10, 10, 1);
    let pos = r.load_positions(vec![vec3(-ONE, -ONE, 0), vec3(ONE, -ONE, 0), vec3(0, ONE, 0)]);
    let ind = r.load_indices(vec![uvec3(0, 1, 2)]);
    let col = r.load_colors(vec![vec4(0, 255 * ONE, 0, 0); 3]);
    r.draw(&pos, &ind, &col, PrimitiveKind::Line);
    for p in r.frame_buffer() {
        assert_eq!(*p, BLACK);
    }
}

#[test]
fn can_draw_rejects_what_draw_cannot_assemble() {
    let mut r = Rasterizer::new(10, 10, 1);
    let pos = r.load_positions(vec![vec3(0, 0, 0), vec3(ONE, 0, 0), vec3(0, ONE, 0)]);
    let good = r.load_indices(vec![uvec3(0, 1, 2)]);
    let beyond = r.load_indices(vec![uvec3(0, 1, 3)]);
    let col = r.load_colors(vec![vec4(0, 0, 0, 0); 3]);
    let short = r.load_colors(vec![vec4(0, 0, 0, 0); 2]);
    let bright = r.load_colors(vec![vec4(256 * ONE, 0, 0, 0); 3]);
    let dark = r.load_colors(vec![vec4(0, -1, 0, 0); 3]);
    assert!(r.can_draw(&pos, &good, &col));
    assert!(!r.can_draw(&pos, &beyond, &col));
    assert!(!r.can_draw(&pos, &good, &short));
    assert!(!r.can_draw(&pos, &good, &bright));
    assert!(!r.can_draw(&pos, &good, &dark));

    let mut other = Rasterizer::new(10, 10, 1);
    let foreign = other.load_normals(vec![]);
    assert!(other.positions(&pos).is_none());
    assert!(!other.can_draw(&pos, &good, &foreign));
}

#[test]
fn vertex_at_the_eye_plane_drops_its_triangle() {
    let mut r = Rasterizer::new(10, 10, 1);
    // a projection whose last row is zero gives every vertex w = 0
    let mut m = Mat4::identity();
    m.m[15] = 0;
    r.set_projection(m);
    let pos = r.load_positions(vec![vec3(-ONE, -ONE, 0), vec3(ONE, -ONE, 0), vec3(0, ONE, 0)]);
    let ind = r.load_indices(vec![uvec3(0, 1, 2)]);
    let col = r.load_colors(vec![vec4(255 * ONE, 0, 0, 0); 3]);
    r.draw(&pos, &ind, &col, PrimitiveKind::Triangle);
    for p in r.frame_buffer() {
        assert_eq!(*p, BLACK);
    }
}

fn two_by_two() -> Texture {
    // 2 x 2: red, green / blue, white
    let data = vec![255, 0, 0, 0, 255, 0, 0, 0, 255, 255, 255, 255];
    Texture::new(2, 2, data).unwrap()
}

fn textured_triangle() -> Triangle {
    let mut t = Triangle::zeros();
    // in normalized device coordinates; covers the whole screen
    t.set_vertex(0, vec4(-3 * ONE, -ONE, 0, ONE));
    t.set_vertex(1, vec4(3 * ONE, -ONE, 0, ONE));
    t.set_vertex(2, vec4(0, 5 * ONE, 0, ONE));
    for i in 0..3 {
        t.set_tex_coords(i, ONE, ONE);
        t.set_normal(i, Vec3 { x: 0, y: 0, z: ONE });
        t.set_color(i, vec4(ONE, ONE, ONE, ONE));
    }
    t
}

#[test]
fn textured_draw_takes_the_colour_of_the_texture() {
    let mut r = Rasterizer::new(8, 8, 2);
    r.set_texture(two_by_two());
    r.draw_triangle_list(&vec![textured_triangle()]);
    // texture coordinate (1, 1) is the white texel
    assert_eq!(pixel(&r, 4, 4), vec4(ONE, ONE, ONE, ONE));
}

#[test]
fn phong_shader_lights_the_surface() {
    let mut lit = Rasterizer::new(8, 8, 1);
    lit.set_texture(two_by_two());
    lit.set_fragment_shader(FragmentShader::Phong);
    lit.draw_triangle_list(&vec![textured_triangle()]);
    let c = pixel(&lit, 4, 4);
    let expected = shade_phong(
        Vec3 { x: ONE, y: ONE, z: ONE },
        lit_view_pos(),
        Vec3 { x: 0, y: 0, z: ONE },
    );
    assert_eq!(c, expected);
    assert!(c.x > 3280);
    assert_eq!(c.w, ONE);

    let mut textured = Rasterizer::new(8, 8, 1);
    textured.set_texture(two_by_two());
    textured.set_fragment_shader(FragmentShader::TexturedPhong);
    textured.draw_triangle_list(&vec![textured_triangle()]);
    assert_eq!(pixel(&textured, 4, 4), expected);
}

fn lit_view_pos() -> Vec3 {
    // pixel (4, 4) of an 8 x 8 frame with one sample: the sample centre is
    // (4.5, 4.5), which is (0.125, 0.125) in normalized device coordinates
    let t = textured_triangle();
    let b = compute_barycentric_2d(4, 4, 1, &screen(&t)).unwrap();
    Vec3 {
        x: b.interpolate(t.v[0].x, t.v[1].x, t.v[2].x),
        y: b.interpolate(t.v[0].y, t.v[1].y, t.v[2].y),
        z: b.interpolate(t.v[0].z, t.v[1].z, t.v[2].z),
    }
}

fn screen(t: &Triangle) -> [Vec4; 3] {
    let m = Mat4::identity();
    [
        m.to_screen(t.v[0], 8, 8).unwrap(),
        m.to_screen(t.v[1], 8, 8).unwrap(),
        m.to_screen(t.v[2], 8, 8).unwrap(),
    ]
}

#[test]
fn dump_gives_four_bytes_per_pixel_from_the_top() {
    let mut r = Rasterizer::new(2, 2, 1);
    r.set_pixel((0, 1), vec4(ONE, ONE / 2, 0, ONE));
    r.set_pixel((1, 0), vec4(2 * ONE, -5, ONE / 4, 0));
    r.set_pixel((2, 0), RED);
    r.set_pixel((0, 2), RED);
    let bytes = r.dump_u8norm();
    assert_eq!(
        bytes,
        vec![255, 127, 0, 255, 0, 0, 0, 255, 0, 0, 0, 255, 255, 0, 63, 0]
    );
    let opaque = r.dump_pixels();
    assert_eq!(
        opaque,
        vec![255, 127, 0, 255, 0, 0, 0, 255, 0, 0, 0, 255, 255, 0, 63, 255]
    );
    assert_eq!(r.bytes_per_pixel(), 4);
    assert_eq!(r.get_index(0, 1), 0);
    assert_eq!(r.get_index(1, 0), 3);
}

#[test]
fn sample_index_counts_rows_from_the_top() {
    let mut r = Rasterizer::new(2, 3, 2);
    assert_eq!(r.get_index_for_antialiased(0, 5), 0);
    assert_eq!(r.get_index_for_antialiased(3, 5), 3);
    assert_eq!(r.get_index_for_antialiased(0, 0), 20);
    assert_eq!(r.get_index_for_antialiased(3, 0), 23);
    r.set_depth((1, 1), 5);
    r.set_depth((4, 0), 5);
    r.set_depth_nocheck(0, 6);
    r.set_pixel_nocheck(0, RED);
    assert_eq!(pixel(&r, 0, 2), RED);
}

#[test]
fn shader_path_offers_one_triangle_at_a_time() {
    let mut r = Rasterizer::new(8, 8, 2);
    r.set_texture(two_by_two());
    let mut t = Triangle::zeros();
    t.set_vertex(0, vec4(px(-9), px(-9), 5 * ONE, ONE));
    t.set_vertex(1, vec4(px(30), px(-9), 5 * ONE, ONE));
    t.set_vertex(2, vec4(px(-9), px(30), 5 * ONE, ONE));
    // every vertex at the first texel of the second row: blue
    for i in 0..3 {
        t.set_tex_coords(i, 0, ONE);
    }
    r.rasterize_triangle_antialiased_with_shader(&t);
    // nothing is resolved until the samples are averaged
    assert_eq!(pixel(&r, 3, 3), BLACK);
    r.downsample();
    assert_eq!(pixel(&r, 3, 3), vec4(0, 0, ONE, ONE));
    assert!(r.has_texture());
    assert_eq!(r.antialiasing(), 2);
    assert_eq!(r.minted_handles(), 0);
}

#[test]
fn model_and_view_move_the_triangle() {
    let half = ONE / 2;
    let quarter = ONE / 4;
    let mut r = Rasterizer::new(100, 100, 1);
    // a small triangle around the origin, moved right by half the view and
    // turned a quarter turn about the view axis before that
    r.set_model(get_model_matrix(0, ONE));
    r.set_view(get_view_matrix(vec3(-half, 0, 0)));
    let pos = r.load_positions(vec![
        vec3(0, -quarter, 0),
        vec3(quarter, 0, 0),
        vec3(0, quarter, 0),
    ]);
    let ind = r.load_indices(vec![uvec3(0, 1, 2)]);
    let col = r.load_colors(vec![vec4(0, 255 * ONE, 0, 0); 3]);
    assert!(r.can_draw(&pos, &ind, &col));
    r.draw(&pos, &ind, &col, PrimitiveKind::Triangle);
    // turned: (0.25, 0), (0, 0.25), (-0.25, 0); moved: x + 0.5;
    // on the screen: (87.5, 50), (75, 62.5), (62.5, 50)
    assert_eq!(pixel(&r, 75, 55), GREEN);
    assert_eq!(pixel(&r, 75, 45), BLACK);
    assert_eq!(pixel(&r, 50, 55), BLACK);
    assert_eq!(pixel(&r, 25, 55), BLACK);
}
