use graphics_lib::canvas::Canvas;
use graphics_lib::drawing::lines::h_line;
use graphics_lib::drawing::lines::line_bresenham;
use graphics_lib::drawing::lines::v_line;
use graphics_lib::drawing::rect::fill_rect;
use graphics_lib::drawing::rect::rect;
use graphics_lib::drawing::shape::fill_polygon;
use graphics_lib::drawing::shape::fill_triangle;
use graphics_lib::drawing::shape::polygon;
use graphics_lib::drawing::shape::textured_triangle;
use graphics_lib::types::ARGBColour;
use graphics_lib::types::UVVertex;
use graphics_lib::types::UVWrapMode;
use graphics_lib::types::UV_ONE;

fn red() -> ARGBColour {
    ARGBColour::new(255, 255, 0, 0)
}

fn set_pixels(c: &Canvas, col: &ARGBColour) -> Vec<(usize, usize)> {
    let v = col.packed();
    let mut out = Vec::new();
    for y in 0..c.height() {
        for x in 0..c.width() {
            if c.buffer()[c.buffer_index(x, y)] == v {
                out.push((x, y));
            }
        }
    }
    out
}

#[test]
fn h_line_draws_span() {
    let mut c = Canvas::new(8, 8);
    h_line(&mut c, &red(), 2, 3, 5);
    assert_eq!(set_pixels(&c, &red()), vec![(2, 3), (3, 3), (4, 3), (5, 3)]);
}

#[test]
fn h_line_endpoints_swap() {
    let mut a = Canvas::new(8, 8);
    let mut b = Canvas::new(8, 8);
    h_line(&mut a, &red(), 5, 3, 2);
    h_line(&mut b, &red(), 2, 3, 5);
    assert_eq!(a.buffer(), b.buffer());
}

#[test]
fn h_line_clips_to_canvas() {
    let mut c = Canvas::new(8, 8);
    h_line(&mut c, &red(), -5, 0, 100);
    let expect: Vec<(usize, usize)> = (0..8).map(|x| (x, 0)).collect();
    assert_eq!(set_pixels(&c, &red()), expect);
}

#[test]
fn h_line_off_canvas_is_noop() {
    let mut c = Canvas::new(8, 8);
    h_line(&mut c, &red(), 0, 8, 7);
    assert!(c.buffer().iter().all(|&px| px == 0));
    h_line(&mut c, &red(), 0, -1, 7);
    assert!(c.buffer().iter().all(|&px| px == 0));
}

#[test]
fn v_line_draws_span_and_clips() {
    let mut c = Canvas::new(8, 8);
    v_line(&mut c, &red(), 2, -3, 1);
    assert_eq!(set_pixels(&c, &red()), vec![(2, 0), (2, 1)]);
}

#[test]
fn v_line_off_canvas_is_noop() {
    let mut c = Canvas::new(8, 8);
    v_line(&mut c, &red(), 8, 0, 7);
    assert!(c.buffer().iter().all(|&px| px == 0));
}

#[test]
fn line_diagonal() {
    let mut c = Canvas::new(4, 4);
    graphics_lib::drawing::lines::line(&mut c, &red(), 0, 0, 3, 3);
    assert_eq!(set_pixels(&c, &red()), vec![(0, 0), (1, 1), (2, 2), (3, 3)]);
}

#[test]
fn line_dispatches_to_spans() {
    let mut a = Canvas::new(8, 8);
    let mut b = Canvas::new(8, 8);
    graphics_lib::drawing::lines::line(&mut a, &red(), 3, 1, 3, 6);
    v_line(&mut b, &red(), 3, 1, 6);
    assert_eq!(a.buffer(), b.buffer());
    let mut d = Canvas::new(8, 8);
    let mut e = Canvas::new(8, 8);
    graphics_lib::drawing::lines::line(&mut d, &red(), 1, 3, 6, 3);
    h_line(&mut e, &red(), 1, 3, 6);
    assert_eq!(d.buffer(), e.buffer());
}

#[test]
fn line_bresenham_steep() {
    let mut c = Canvas::new(4, 4);
    line_bresenham(&mut c, &red(), 0, 0, 1, 3);
    assert_eq!(set_pixels(&c, &red()), vec![(0, 0), (0, 1), (1, 2), (1, 3)]);
}

#[test]
fn line_bresenham_skips_receding_line() {
    let mut c = Canvas::new(4, 4);
    line_bresenham(&mut c, &red(), 2, 2, -3, -3);
    assert!(c.buffer().iter().all(|&px| px == 0));
}

#[test]
fn fill_rect_clipped_corners() {
    // a 4x6 canvas with corners (2,4)-(5,7) fills exactly four pixels
    let mut c = Canvas::new(4, 6);
    fill_rect(&mut c, &red(), 2, 4, 5, 7);
    assert_eq!(set_pixels(&c, &red()), vec![(2, 4), (3, 4), (2, 5), (3, 5)]);
}

#[test]
fn fill_rect_corners_any_order() {
    let mut a = Canvas::new(8, 8);
    let mut b = Canvas::new(8, 8);
    fill_rect(&mut a, &red(), 3, 3, 1, 1);
    fill_rect(&mut b, &red(), 1, 1, 3, 3);
    assert_eq!(a.buffer(), b.buffer());
    assert_eq!(set_pixels(&a, &red()).len(), 9);
}

#[test]
fn rect_outline_only() {
    let mut c = Canvas::new(5, 5);
    rect(&mut c, &red(), 1, 1, 3, 3);
    let painted = set_pixels(&c, &red());
    assert_eq!(painted.len(), 8);
    assert!(!painted.contains(&(2, 2)));
    assert!(painted.contains(&(1, 1)));
    assert!(painted.contains(&(3, 3)));
    assert!(painted.contains(&(2, 1)));
    assert!(painted.contains(&(1, 2)));
}

#[test]
fn polygon_open_does_not_close() {
    let mut c = Canvas::new(8, 8);
    polygon(&mut c, &red(), false, vec![1, 1, 5, 1, 1, 5]);
    // (1,3) lies only on the closing edge from (1,5) back to (1,1)
    assert_ne!(c.buffer()[c.buffer_index(1, 1)], 0);
    assert_eq!(c.buffer()[c.buffer_index(1, 3)], 0);
}

#[test]
fn polygon_closed_draws_closing_edge() {
    let mut c = Canvas::new(8, 8);
    polygon(&mut c, &red(), true, vec![1, 1, 5, 1, 1, 5]);
    assert_ne!(c.buffer()[c.buffer_index(1, 3)], 0);
}

#[test]
fn fill_polygon_square() {
    let mut c = Canvas::new(6, 6);
    fill_polygon(&mut c, &red(), vec![1, 1, 4, 1, 4, 4, 1, 4, 1, 1]);
    let painted = set_pixels(&c, &red());
    for y in 1..=4usize {
        for x in 1..=4usize {
            assert!(painted.contains(&(x, y)));
        }
    }
    assert_eq!(painted.len(), 16);
}

#[test]
fn fill_polygon_even_odd_bowtie() {
    // self-intersecting quad: even-odd filling leaves a hole between the
    // two lobes on the rows where four crossings alternate
    let mut c = Canvas::new(6, 6);
    fill_polygon(&mut c, &red(), vec![0, 0, 4, 4, 4, 0, 0, 4, 0, 0]);
    let painted = set_pixels(&c, &red());
    assert_eq!(
        painted,
        vec![
            (0, 0),
            (4, 0),
            (0, 1),
            (1, 1),
            (3, 1),
            (4, 1),
            (0, 2),
            (1, 2),
            (2, 2),
            (3, 2),
            (4, 2),
            (0, 3),
            (1, 3),
            (3, 3),
            (4, 3),
        ]
    );
}

#[test]
fn fill_triangle_right_triangle() {
    let mut c = Canvas::new(6, 6);
    fill_triangle(&mut c, &red(), 0, 0, 4, 4, 0, 4);
    let painted = set_pixels(&c, &red());
    // each row y in 0..=4 spans columns 0..=y
    for y in 0..=4usize {
        for x in 0..=y {
            assert!(painted.contains(&(x, y)));
        }
    }
    assert!(!painted.contains(&(3, 2)));
    assert_eq!(painted.len(), 15);
}

#[test]
fn fill_triangle_matches_fill_polygon() {
    let mut a = Canvas::new(6, 6);
    let mut b = Canvas::new(6, 6);
    fill_triangle(&mut a, &red(), 0, 0, 4, 4, 0, 4);
    fill_polygon(&mut b, &red(), vec![0, 0, 4, 4, 0, 4, 0, 0]);
    assert_eq!(a.buffer(), b.buffer());
}

#[test]
fn fill_triangle_degenerate_row() {
    let mut c = Canvas::new(8, 8);
    fill_triangle(&mut c, &red(), 1, 2, 5, 2, 3, 2);
    let expect: Vec<(usize, usize)> = (1..=5).map(|x| (x, 2)).collect();
    assert_eq!(set_pixels(&c, &red()), expect);
}

#[test]
fn fill_triangle_degenerate_column() {
    let mut c = Canvas::new(8, 8);
    fill_triangle(&mut c, &red(), 3, 1, 3, 5, 3, 2);
    let expect: Vec<(usize, usize)> = (1..=5).map(|y| (3, y)).collect();
    assert_eq!(set_pixels(&c, &red()), expect);
}

#[test]
fn textured_triangle_samples_opaque_source() {
    let mut dst = Canvas::new(8, 8);
    let mut src = Canvas::new(4, 4);
    src.clear(&ARGBColour::new(255, 255, 0, 0));
    textured_triangle(
        &mut dst,
        &src,
        &UVVertex::new(0, 0, 0, 0),
        &UVVertex::new(7, 0, UV_ONE, 0),
        &UVVertex::new(0, 7, 0, UV_ONE),
        UVWrapMode::Wrap,
    );
    assert_eq!(dst.pixel(1, 1), red().packed());
    assert_eq!(dst.pixel(0, 0), red().packed());
    assert_eq!(dst.pixel(7, 7), 0);
}

#[test]
fn textured_triangle_transparent_source_is_noop() {
    let mut dst = Canvas::new(8, 8);
    dst.load_pixels((0..64).collect());
    let before = dst.buffer().clone();
    let src = Canvas::new(4, 4);
    textured_triangle(
        &mut dst,
        &src,
        &UVVertex::new(0, 0, 0, 0),
        &UVVertex::new(7, 0, UV_ONE, 0),
        &UVVertex::new(0, 7, 0, UV_ONE),
        UVWrapMode::Clamp,
    );
    assert_eq!(*dst.buffer(), before);
}

#[test]
fn textured_triangle_degenerate_is_noop() {
    let mut dst = Canvas::new(8, 8);
    let mut src = Canvas::new(4, 4);
    src.clear(&red());
    textured_triangle(
        &mut dst,
        &src,
        &UVVertex::new(0, 3, 0, 0),
        &UVVertex::new(4, 3, UV_ONE, 0),
        &UVVertex::new(7, 3, 0, UV_ONE),
        UVWrapMode::Wrap,
    );
    assert!(dst.buffer().iter().all(|&px| px == 0));
}
