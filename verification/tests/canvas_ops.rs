use graphics_lib::canvas::Canvas;
use graphics_lib::types::ARGBColour;
use graphics_lib::types::UVVertex;
use graphics_lib::types::UVWrapMode;
use graphics_lib::types::UV_ONE;

fn packed(a: u8, r: u8, g: u8, b: u8) -> u32 {
    ARGBColour::new(a, r, g, b).packed()
}

#[test]
fn argb_pack_values() {
    assert_eq!(packed(0, 0, 0, 0), 0);
    assert_eq!(packed(255, 255, 255, 255), 0xFFFF_FFFF);
    assert_eq!(packed(1, 2, 3, 4), 0x0102_0304);
    assert_eq!(u32::from(&ARGBColour::new(0, 0, 0, 0)), 0);
    assert_eq!(u32::from(&ARGBColour::new(255, 255, 255, 255)), 0xFFFF_FFFF);
    assert_eq!(u32::from(&ARGBColour::new(1, 2, 3, 4)), 0x0102_0304);
}

#[test]
fn argb_round_trip() {
    assert_eq!(ARGBColour::from_packed(0xDEAD_BEEF).packed(), 0xDEAD_BEEF);
    assert_eq!(ARGBColour::from_packed(0).packed(), 0);
    assert_eq!(ARGBColour::from_packed(0xFFFF_FFFF).packed(), 0xFFFF_FFFF);
    let c = ARGBColour::new(12, 34, 56, 78);
    let back = ARGBColour::from_packed(c.packed());
    assert_eq!(back.a, 12);
    assert_eq!(back.r, 34);
    assert_eq!(back.g, 56);
    assert_eq!(back.b, 78);
}

#[test]
fn uv_vertex_new_holds_fields() {
    let v = UVVertex::new(3, -4, UV_ONE / 2, UV_ONE);
    assert_eq!(v.x, 3);
    assert_eq!(v.y, -4);
    assert_eq!(v.u, UV_ONE / 2);
    assert_eq!(v.v, UV_ONE);
}

#[test]
fn canvas_new_dimensions_and_zero() {
    let c = Canvas::new(10, 20);
    assert_eq!(c.width(), 10);
    assert_eq!(c.height(), 20);
    assert_eq!(c.buffer().len(), 200);
    assert!(c.buffer().iter().all(|&px| px == 0));
}

#[test]
fn canvas_new_degenerate() {
    let c = Canvas::new(0, 7);
    assert_eq!(c.buffer().len(), 0);
    let c2 = Canvas::new(5, 0);
    assert_eq!(c2.buffer().len(), 0);
}

#[test]
fn buffer_index_formula() {
    let c = Canvas::new(10, 20);
    assert_eq!(c.buffer_index(3, 2), 2 * 10 + 3);
    assert_eq!(c.buffer_index(0, 0), 0);
    assert_eq!(c.buffer_index(9, 19), 199);
}

#[test]
fn clear_sets_every_pixel_and_is_idempotent() {
    let mut c = Canvas::new(16, 16);
    let col = ARGBColour::new(255, 255, 0, 0);
    c.clear(&col);
    let expected = col.packed();
    assert!(c.buffer().iter().all(|&px| px == expected));
    let first = c.buffer().clone();
    c.clear(&col);
    assert_eq!(*c.buffer(), first);
}

#[test]
fn load_pixels_right_length() {
    let mut c = Canvas::new(2, 2);
    assert!(c.load_pixels(vec![1, 2, 3, 4]));
    assert_eq!(*c.buffer(), vec![1, 2, 3, 4]);
}

#[test]
fn load_pixels_wrong_length_unchanged() {
    let mut c = Canvas::new(2, 2);
    assert!(c.load_pixels(vec![9, 9, 9, 9]));
    assert!(!c.load_pixels(vec![1, 2, 3]));
    assert_eq!(*c.buffer(), vec![9, 9, 9, 9]);
    assert!(!c.load_pixels(vec![1, 2, 3, 4, 5]));
    assert_eq!(*c.buffer(), vec![9, 9, 9, 9]);
}

#[test]
fn set_pixel_and_read_back() {
    let mut c = Canvas::new(4, 4);
    c.set_pixel(2, 1, 0xABCD_EF01);
    assert_eq!(c.pixel(2, 1), 0xABCD_EF01);
    assert_eq!(c.buffer()[1 * 4 + 2], 0xABCD_EF01);
    assert_eq!(c.pixel(1, 2), 0);
}

#[test]
fn draw_canvas_respects_alpha() {
    let mut dst = Canvas::new(4, 4);
    let mut src = Canvas::new(2, 2);
    // one opaque pixel, three fully transparent ones
    src.load_pixels(vec![0xFF00_0001, 0x00FF_FFFF, 0, 0]);
    dst.load_pixels(vec![7; 16]);
    dst.draw_canvas(&src, 1, 1);
    // only the opaque source pixel lands
    assert_eq!(dst.pixel(1, 1), 0xFF00_0001);
    assert_eq!(dst.pixel(2, 1), 7);
    assert_eq!(dst.pixel(1, 2), 7);
    assert_eq!(dst.pixel(2, 2), 7);
    assert_eq!(dst.pixel(0, 0), 7);
}

#[test]
fn draw_canvas_clips_and_skips_offscreen() {
    let mut dst = Canvas::new(3, 3);
    let mut src = Canvas::new(2, 2);
    src.load_pixels(vec![0xFF00_0001; 4]);
    dst.draw_canvas(&src, 2, 2);
    assert_eq!(dst.pixel(2, 2), 0xFF00_0001);
    assert_eq!(dst.pixel(1, 1), 0);
    let before = dst.buffer().clone();
    dst.draw_canvas(&src, 3, 0);
    assert_eq!(*dst.buffer(), before);
}

#[test]
fn sample_at_origin_returns_first_pixel() {
    let mut c = Canvas::new(2, 2);
    c.load_pixels(vec![11, 22, 33, 44]);
    assert_eq!(c.sample(0, 0, UVWrapMode::Clamp), 11);
    assert_eq!(c.sample(0, 0, UVWrapMode::Wrap), 11);
}

#[test]
fn sample_wrap_is_periodic() {
    let mut c = Canvas::new(8, 8);
    let pixels: Vec<u32> = (0..64).collect();
    c.load_pixels(pixels);
    // 1.75 wraps to 0.75
    let u_175 = UV_ONE + (3 * UV_ONE) / 4;
    let u_075 = (3 * UV_ONE) / 4;
    assert_eq!(
        c.sample(u_175, 0, UVWrapMode::Wrap),
        c.sample(u_075, 0, UVWrapMode::Wrap)
    );
    assert_eq!(
        c.sample(0, u_175, UVWrapMode::Wrap),
        c.sample(0, u_075, UVWrapMode::Wrap)
    );
}

#[test]
fn sample_clamp_saturates() {
    let mut c = Canvas::new(8, 8);
    let pixels: Vec<u32> = (0..64).collect();
    c.load_pixels(pixels);
    assert_eq!(
        c.sample(3 * UV_ONE, 0, UVWrapMode::Clamp),
        c.sample(UV_ONE, 0, UVWrapMode::Clamp)
    );
    assert_eq!(
        c.sample(UV_ONE + 1, 0, UVWrapMode::Clamp),
        c.sample(UV_ONE, 0, UVWrapMode::Clamp)
    );
    assert_eq!(
        c.sample(-5 * UV_ONE, 0, UVWrapMode::Clamp),
        c.sample(0, 0, UVWrapMode::Clamp)
    );
}

#[test]
fn sample_rounds_to_nearest_pixel() {
    let mut c = Canvas::new(8, 16);
    c.set_pixel(4, 4, 0xFFAA_BBCC);
    // u = 0.5 over 8 columns lands on column round(0.5 * 7) = 4;
    // v = 0.25 over 16 rows lands on row round(0.25 * 15) = 4
    assert_eq!(c.sample(UV_ONE / 2, UV_ONE / 4, UVWrapMode::Clamp), 0xFFAA_BBCC);
}
