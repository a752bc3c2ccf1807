use softraster::controls::{handle_keyboard_input, Key, Turn, DELTA_ANGLE};
use softraster::fixed::ONE;
use softraster::image::{save_image, save_image_from_u8array};
use softraster::rasterizer::Rasterizer;
use softraster::render::get_metal_lib;
use softraster::shader::{
    dot_product, isqrt, normalize, phong_fragment_shader, power, shade_phong,
    texture_fragment_shader, vertex_shader, FragmentShaderPayload, VertexShaderPayload,
};
use softraster::shader_types::{TextureIndex, TexturedVertex, VertexInput};
use softraster::texture::{interpolate, Texture};
use softraster::vector::{vec2, vec3, vec4, Vec3};

fn two_by_two() -> Texture {
    // 2 x 2: red, green / blue, grey
    let data = vec![255, 0, 0, 0, 255, 0, 0, 0, 255, 128, 128, 128];
    Texture::new(2, 2, data).unwrap()
}

#[test]
fn sampling_at_a_texel_returns_its_colour() {
    let t = two_by_two();
    assert_eq!((t.width(), t.height()), (2, 2));
    assert_eq!(t.get_color(0, 0), vec3(ONE, 0, 0));
    assert_eq!(t.get_color(ONE as i64, 0), vec3(0, ONE, 0));
    assert_eq!(t.get_color(0, ONE as i64), vec3(0, 0, ONE));
    assert_eq!(t.get_color(ONE as i64, ONE as i64), vec3(32896, 32896, 32896));
    assert_eq!(t.get_pixel(1, 1), vec3(32896, 32896, 32896));
    assert_eq!(t.get_color_by_tex_coord(vec2(0, 0)), vec3(ONE, 0, 0));
    assert_eq!(t.get_color_by_tex_coord(vec2(ONE, 0)), vec3(0, ONE, 0));
    assert_eq!(t.get_color_by_tex_coord(vec2(ONE, ONE)), vec3(32896, 32896, 32896));
}

#[test]
fn sampling_between_texels_interpolates() {
    let t = two_by_two();
    let half = (ONE / 2) as i64;
    assert_eq!(t.get_color(half, 0), vec3(ONE / 2, ONE / 2, 0));
    assert_eq!(t.get_color(0, half), vec3(ONE / 2, 0, ONE / 2));
    assert_eq!(t.get_color((ONE / 4) as i64, 0), vec3(3 * ONE / 4, ONE / 4, 0));
    // along x first, then along y
    assert_eq!(t.get_color(half, half), vec3(24608, 24608, 24608));
    assert_eq!(t.get_color_by_tex_coord(vec2(ONE / 2, 0)), vec3(ONE / 2, ONE / 2, 0));
    assert_eq!(
        interpolate(2, 3, (2 * ONE + ONE / 4) as i64, vec3(0, 100, -100), vec3(ONE, 200, 100)),
        vec3(ONE / 4, 125, -50)
    );
    assert_eq!(interpolate(2, 2, 0, vec3(1, 2, 3), vec3(9, 9, 9)), vec3(1, 2, 3));
}

#[test]
fn texels_outside_the_image_are_the_sentinel() {
    let t = two_by_two();
    let red = vec3(ONE, 0, 0);
    assert_eq!(t.get_pixel(2, 0), red);
    assert_eq!(t.get_pixel(0, 2), red);
    assert_eq!(t.get_color(5 * ONE as i64, 5 * ONE as i64), red);
    // between the last column and the sentinel beyond it
    assert_eq!(t.get_color((ONE + ONE / 2) as i64, 0), vec3(ONE / 2, ONE / 2, 0));
    // left of the image counts as its first column
    assert_eq!(t.get_color(-5 * ONE as i64, 0), vec3(ONE, 0, 0));
    assert_eq!(t.get_color(i64::MAX, i64::MIN), red);
    let empty = Texture::new(0, 0, vec![]).unwrap();
    assert_eq!(empty.get_color_by_tex_coord(vec2(ONE / 2, ONE / 2)), red);
}

#[test]
fn texture_needs_three_bytes_per_texel() {
    assert!(Texture::new(2, 2, vec![0; 12]).is_some());
    assert!(Texture::new(2, 2, vec![0; 11]).is_none());
    assert!(Texture::new(2, 2, vec![0; 13]).is_none());
    assert!(Texture::new(u32::MAX, u32::MAX, vec![0; 3]).is_none());
    assert!(Texture::new(0, 7, vec![]).is_some());
}

#[test]
fn integer_square_root() {
    assert_eq!(isqrt(0), 0);
    assert_eq!(isqrt(1), 1);
    assert_eq!(isqrt(15), 3);
    assert_eq!(isqrt(16), 4);
    assert_eq!(isqrt(17), 4);
    assert_eq!(isqrt(u64::MAX), 4294967295);
    assert_eq!(isqrt(4294967295 * 4294967295), 4294967295);
    assert_eq!(isqrt(4294967295 * 4294967295 - 1), 4294967294);
}

#[test]
fn vectors_normalize_and_multiply() {
    assert_eq!(normalize(vec3(3 * ONE, 4 * ONE, 0)), vec3(39321, 52428, 0));
    assert_eq!(normalize(vec3(0, 0, -7 * ONE)), vec3(0, 0, -ONE));
    assert_eq!(normalize(vec3(0, 0, 0)), vec3(0, 0, 0));
    assert_eq!(dot_product(vec3(ONE, 0, 0), vec3(ONE / 2, ONE, ONE)), ONE / 2);
    assert_eq!(dot_product(vec3(ONE, 2 * ONE, -ONE), vec3(ONE, ONE, ONE)), 2 * ONE);
    assert_eq!(power(ONE / 2, 0), ONE);
    assert_eq!(power(ONE / 2, 3), ONE / 8);
    assert_eq!(power(ONE, 150), ONE);
    assert_eq!(power(ONE / 2, 150), 0);
}

#[test]
fn phong_is_ambient_plus_the_lights() {
    // without a normal no light reaches the surface: the ambient term is left,
    // 0.005 * 10 = 0.05
    let dark = shade_phong(vec3(ONE, ONE, ONE), vec3(0, 0, 0), vec3(0, 0, 0));
    assert_eq!(dark, vec4(3280, 3280, 3280, ONE));
    // a surface that faces away from both lights
    let away = shade_phong(vec3(ONE, ONE, ONE), vec3(0, 0, 0), vec3(0, -ONE, 0));
    assert_eq!(away, vec4(3280, 3280, 3280, ONE));
    // a light at the very point adds nothing
    let at_light = shade_phong(vec3(ONE, ONE, ONE), vec3(20 * ONE, 20 * ONE, 20 * ONE), vec3(0, -ONE, 0));
    assert_eq!(at_light.w, ONE);
    // a lit surface: each light adds kd * (N.L) * 500 / r^2 to the diffuse
    // term; the first is at distance^2 1200 with N.L = 1/sqrt(3), the second
    // at 800 with N.L = 1/sqrt(2); no highlight reaches the eye
    let up = shade_phong(vec3(ONE, 0, ONE / 2), vec3(0, 0, 0), vec3(0, ONE, 0));
    assert_eq!(up.y, 3280);
    assert_eq!(up.w, ONE);
    let diffuse = up.x - 3280;
    // 0.5774 * 0.41667 + 0.7071 * 0.625 = 0.6825, within rounding
    assert!((diffuse - 44729).abs() < 40, "{}", diffuse);
    let half = up.z - 3280;
    assert!((2 * half - diffuse).abs() <= 4);
}

#[test]
fn fragment_shaders_take_their_reflectance_from_colour_or_texture() {
    let t = two_by_two();
    let payload = FragmentShaderPayload {
        view_pos: vec3(0, 0, 0),
        color: vec3(ONE, 0, ONE / 2),
        normal: vec3(0, ONE, 0),
        tex_coords: vec2(ONE, 0),
        texture: &t,
    };
    assert_eq!(
        phong_fragment_shader(payload),
        shade_phong(vec3(ONE, 0, ONE / 2), vec3(0, 0, 0), vec3(0, ONE, 0))
    );
    let payload = FragmentShaderPayload {
        view_pos: vec3(0, 0, 0),
        color: vec3(ONE, 0, ONE / 2),
        normal: vec3(0, ONE, 0),
        tex_coords: vec2(ONE, 0),
        texture: &t,
    };
    // the texel at (1, 0) is green
    assert_eq!(
        texture_fragment_shader(payload),
        shade_phong(vec3(0, ONE, 0), vec3(0, 0, 0), vec3(0, ONE, 0))
    );
    let p: Vec3 = vertex_shader(VertexShaderPayload { position: vec3(1, 2, 3) });
    assert_eq!(p, vec3(1, 2, 3));
}

#[test]
fn image_needs_four_bytes_per_pixel() {
    let data = [1u8, 2, 3, 4, 5, 6, 7, 8];
    let img = save_image_from_u8array(&data, 2, 1).unwrap();
    assert_eq!((img.width, img.height), (2, 1));
    assert_eq!(img.data, data.to_vec());
    assert!(save_image_from_u8array(&data, 1, 1).is_none());
    assert!(save_image_from_u8array(&data, 3, 1).is_none());
    assert!(save_image_from_u8array(&[], 0, 5).is_some());
    assert!(save_image_from_u8array(&data, u32::MAX, u32::MAX).is_none());
}

#[test]
fn frame_is_saved_as_it_is_dumped() {
    let mut r = Rasterizer::new(3, 2, 2);
    r.set_pixel((1, 1), vec4(ONE, 0, ONE, ONE));
    let img = save_image(&r);
    assert_eq!((img.width, img.height), (3, 2));
    assert_eq!(img.data, r.dump_u8norm());
    assert_eq!(img.data.len(), 24);
    assert_eq!(&img.data[4..8], &[255, 0, 255, 255]);
}

#[test]
fn library_path_is_joined_to_the_directory() {
    assert_eq!(get_metal_lib("/work/crate", "shaders.metallib"), "/work/crate/shaders.metallib");
    assert_eq!(get_metal_lib("/work/crate/", "shaders.metallib"), "/work/crate/shaders.metallib");
    assert_eq!(get_metal_lib("/work/crate", "/opt/shaders.metallib"), "/opt/shaders.metallib");
    assert_eq!(get_metal_lib("", "shaders.metallib"), "shaders.metallib");
    assert_eq!(get_metal_lib("dir", ""), "dir/");
    assert_eq!(get_metal_lib("répertoire", "café"), "répertoire/café");
}

#[test]
fn vertices_pack_two_words_each() {
    let v = TexturedVertex::new(1, 2, 0x3f80_0000, 0xbf80_0000);
    assert_eq!(v.position, 0x0000_0002_0000_0001);
    assert_eq!(v.texture_coord, 0xbf80_0000_3f80_0000);
    let f = TexturedVertex::new(1.5f32.to_bits(), (-2.0f32).to_bits(), 0, u32::MAX);
    assert_eq!(f.position.to_le_bytes()[0..4], 1.5f32.to_le_bytes());
    assert_eq!(f.position.to_le_bytes()[4..8], (-2.0f32).to_le_bytes());
    assert_eq!(f.texture_coord, 0xffff_ffff_0000_0000);
    assert_eq!(VertexInput::Vertices.index(), 0);
    assert_eq!(VertexInput::ViewportSize.index(), 1);
    assert_eq!(TextureIndex::BaseColor.index(), 0);
}

#[test]
fn keys_turn_the_model_when_released() {
    assert_eq!(DELTA_ANGLE, ONE);
    assert_eq!(handle_keyboard_input(5 * ONE, Key::A, false), Turn { angle: 6 * ONE, redraw: true });
    assert_eq!(handle_keyboard_input(5 * ONE, Key::D, false), Turn { angle: 4 * ONE, redraw: true });
    assert_eq!(handle_keyboard_input(5 * ONE, Key::Other, false), Turn { angle: 5 * ONE, redraw: false });
    assert_eq!(handle_keyboard_input(5 * ONE, Key::A, true), Turn { angle: 5 * ONE, redraw: false });
    assert_eq!(handle_keyboard_input(i32::MAX - 3, Key::A, false), Turn { angle: i32::MAX, redraw: true });
    assert_eq!(handle_keyboard_input(i32::MIN + 3, Key::D, false), Turn { angle: i32::MIN, redraw: true });
}
