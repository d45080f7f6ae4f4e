//! The two Bresenham walk variants: one driven by x for shallow slopes, one
//! driven by y for steep slopes.  Each walks the major axis one pixel at a
//! time, accumulating a signed error term that decides when the minor axis
//! steps, and stops early if the minor co-ordinate leaves the canvas.

use crate::canvas::Canvas;
use crate::canvas::CanvasView;
use crate::raster_math::lemma_row_major_in_range;
use vstd::prelude::*;

verus! {

/// The buffer after the x-driven Bresenham walk from column `x` to column
/// `x2` at row `y` with error term `d`: each column's pixel is painted, the
/// row steps by `yi` whenever the error term is positive, and the walk stops
/// if the row leaves the canvas.
pub open spec fn bres_low_seq(
    s: Seq<u32>,
    w: int,
    h: int,
    col: u32,
    x: int,
    x2: int,
    y: int,
    d: int,
    dx: int,
    dy: int,
    yi: int,
) -> Seq<u32>
    decreases x2 + 1 - x,
{
    if x > x2 || y < 0 || y >= h {
        s
    } else {
        let s1 = s.update(y * w + x, col);
        if d > 0 {
            bres_low_seq(s1, w, h, col, x + 1, x2, y + yi, d + 2 * dy - 2 * dx, dx, dy, yi)
        } else {
            bres_low_seq(s1, w, h, col, x + 1, x2, y, d + 2 * dy, dx, dy, yi)
        }
    }
}

/// The x-driven Bresenham walk from `(x1, y1)` to `(x2, y2)`, starting with
/// the classic error term `2*|dy| - dx`.
pub open spec fn bres_low_from(
    v: CanvasView,
    col: u32,
    x1: int,
    y1: int,
    x2: int,
    y2: int,
) -> Seq<u32> {
    let dx = x2 - x1;
    let dy = if y2 >= y1 {
        y2 - y1
    } else {
        y1 - y2
    };
    let yi: int = if y2 >= y1 {
        1
    } else {
        -1
    };
    bres_low_seq(v.pixels, v.width, v.height, col, x1, x2, y1, 2 * dy - dx, dx, dy, yi)
}

/// The buffer after the y-driven Bresenham walk from row `y` to row `y2` at
/// column `x` with error term `d`.
pub open spec fn bres_high_seq(
    s: Seq<u32>,
    w: int,
    h: int,
    col: u32,
    y: int,
    y2: int,
    x: int,
    d: int,
    dy: int,
    dx: int,
    xi: int,
) -> Seq<u32>
    decreases y2 + 1 - y,
{
    if y > y2 || x < 0 || x >= w {
        s
    } else {
        let s1 = s.update(y * w + x, col);
        if d > 0 {
            bres_high_seq(s1, w, h, col, y + 1, y2, x + xi, d + 2 * dx - 2 * dy, dy, dx, xi)
        } else {
            bres_high_seq(s1, w, h, col, y + 1, y2, x, d + 2 * dx, dy, dx, xi)
        }
    }
}

/// The y-driven Bresenham walk from `(x1, y1)` to `(x2, y2)`, starting with
/// the classic error term `2*|dx| - dy`.
pub open spec fn bres_high_from(
    v: CanvasView,
    col: u32,
    x1: int,
    y1: int,
    x2: int,
    y2: int,
) -> Seq<u32> {
    let dy = y2 - y1;
    let dx = if x2 >= x1 {
        x2 - x1
    } else {
        x1 - x2
    };
    let xi: int = if x2 >= x1 {
        1
    } else {
        -1
    };
    bres_high_seq(v.pixels, v.width, v.height, col, y1, y2, x1, 2 * dx - dy, dy, dx, xi)
}

/// Rasterizes a shallow line (`|dy| < dx`) from `(x1, y1)` to `(x2, y2`)
/// with the x-driven Bresenham walk.
///
/// The caller hands the endpoints sorted by x with the columns on the
/// canvas; rows may lie anywhere, since the walk stops as soon as its row
/// leaves the canvas.
pub fn plot_line_low(c: &mut Canvas, col: u32, x1: usize, y1: usize, x2: usize, y2: usize)
    requires
        old(c).wf(),
        x1 <= x2,
        (x2 as int) < old(c)@.width,
        y1 <= 0x7fff_ffff_ffff_ffff,
        y2 <= 0x7fff_ffff_ffff_ffff,
    ensures
        final(c).wf(),
        final(c)@.width == old(c)@.width,
        final(c)@.height == old(c)@.height,
        final(c)@.pixels == bres_low_from(
            old(c)@,
            col,
            x1 as int,
            y1 as int,
            x2 as int,
            y2 as int,
        ),
{
    let ghost v0 = c@;
    let h = c.height();
    let dx: i64 = (x2 - x1) as i64;
    let dy0: i64 = y2 as i64 - y1 as i64;
    let (yi, dy): (i64, i64) = if dy0 < 0 {
        (-1i64, -dy0)
    } else {
        (1i64, dy0)
    };
    let mut d: i128 = 2 * (dy as i128) - (dx as i128);
    let ghost gd0 = d as int;
    let ghost gm = dx as int + dy as int;
    let mut y: i64 = y1 as i64;
    let mut x: usize = x1;
    proof {
        assert((2 * (x1 as int - x1 as int) + 2) * gm == 2 * gm) by (nonlinear_arith);
    }
    while x <= x2
        invariant_except_break
            c.wf(),
            v0.wf(),
            c@.width == v0.width,
            c@.height == v0.height,
            h as int == v0.height,
            x1 <= x,
            x as int <= x2 as int + 1,
            (x2 as int) < v0.width,
            dx as int == x2 as int - x1 as int,
            dy as int == (if y2 as int >= y1 as int {
                y2 as int - y1 as int
            } else {
                y1 as int - y2 as int
            }),
            (y2 as int >= y1 as int ==> yi == 1) && ((y2 as int) < y1 as int ==> yi == -1),
            gm == dx as int + dy as int,
            gd0 == 2 * (dy as int) - dx as int,
            -((2 * (x as int - x1 as int) + 2) * gm) <= d as int <= (2 * (x as int - x1 as int)
                + 2) * gm,
            (x == x1 && y as int == y1 as int) || (-1 <= y as int && y as int <= v0.height),
            bres_low_seq(
                c@.pixels,
                v0.width,
                v0.height,
                col,
                x as int,
                x2 as int,
                y as int,
                d as int,
                dx as int,
                dy as int,
                yi as int,
            ) == bres_low_seq(
                v0.pixels,
                v0.width,
                v0.height,
                col,
                x1 as int,
                x2 as int,
                y1 as int,
                gd0,
                dx as int,
                dy as int,
                yi as int,
            ),
        ensures
            c.wf(),
            c@.width == v0.width,
            c@.height == v0.height,
            c@.pixels == bres_low_seq(
                v0.pixels,
                v0.width,
                v0.height,
                col,
                x1 as int,
                x2 as int,
                y1 as int,
                gd0,
                dx as int,
                dy as int,
                yi as int,
            ),
        decreases x2 + 1 - x,
    {
        if y < 0 || y >= h as i64 {
            break ;
        }
        proof {
            lemma_row_major_in_range(v0.width, v0.height, x as int, y as int);
            assert((2 * ((x as int + 1) - x1 as int) + 2) * gm == (2 * (x as int - x1 as int) + 2)
                * gm + 2 * gm) by (nonlinear_arith);
            assert((2 * (x as int - x1 as int) + 2) * gm <= 0x2_0000_0000_0000_0000_0000_0000)
                by (nonlinear_arith)
                requires
                    0 <= x as int - x1 as int <= 0x8000_0000,
                    0 <= gm <= 0x1_0000_0000_0000_0000,
                    x1 <= x,
            ;
        }
        let ghost pre = c@.pixels;
        c.set_pixel(x, y as usize, col);
        assert(bres_low_seq(
            pre,
            v0.width,
            v0.height,
            col,
            x as int,
            x2 as int,
            y as int,
            d as int,
            dx as int,
            dy as int,
            yi as int,
        ) == (if d as int > 0 {
            bres_low_seq(
                c@.pixels,
                v0.width,
                v0.height,
                col,
                x as int + 1,
                x2 as int,
                y as int + yi as int,
                d as int + 2 * (dy as int) - 2 * (dx as int),
                dx as int,
                dy as int,
                yi as int,
            )
        } else {
            bres_low_seq(
                c@.pixels,
                v0.width,
                v0.height,
                col,
                x as int + 1,
                x2 as int,
                y as int,
                d as int + 2 * (dy as int),
                dx as int,
                dy as int,
                yi as int,
            )
        }));
        if d > 0 {
            y = y + yi;
            d = d - 2 * (dx as i128);
        }
        d = d + 2 * (dy as i128);
        x += 1;
    }
}

/// Rasterizes a steep line (`|dy| >= dx`) from `(x1, y1)` to `(x2, y2)` with
/// the y-driven Bresenham walk.
///
/// The caller hands the endpoints sorted by y with the rows on the canvas;
/// columns may lie anywhere, since the walk stops as soon as its column
/// leaves the canvas.
pub fn plot_line_high(c: &mut Canvas, col: u32, x1: usize, y1: usize, x2: usize, y2: usize)
    requires
        old(c).wf(),
        y1 <= y2,
        (y2 as int) < old(c)@.height,
        x1 <= 0x7fff_ffff_ffff_ffff,
        x2 <= 0x7fff_ffff_ffff_ffff,
    ensures
        final(c).wf(),
        final(c)@.width == old(c)@.width,
        final(c)@.height == old(c)@.height,
        final(c)@.pixels == bres_high_from(
            old(c)@,
            col,
            x1 as int,
            y1 as int,
            x2 as int,
            y2 as int,
        ),
{
    let ghost v0 = c@;
    let w = c.width();
    let dy: i64 = (y2 - y1) as i64;
    let dx0: i64 = x2 as i64 - x1 as i64;
    let (xi, dx): (i64, i64) = if dx0 < 0 {
        (-1i64, -dx0)
    } else {
        (1i64, dx0)
    };
    let mut d: i128 = 2 * (dx as i128) - (dy as i128);
    let ghost gd0 = d as int;
    let ghost gm = dx as int + dy as int;
    let mut x: i64 = x1 as i64;
    let mut y: usize = y1;
    proof {
        assert((2 * (y1 as int - y1 as int) + 2) * gm == 2 * gm) by (nonlinear_arith);
    }
    while y <= y2
        invariant_except_break
            c.wf(),
            v0.wf(),
            c@.width == v0.width,
            c@.height == v0.height,
            w as int == v0.width,
            y1 <= y,
            y as int <= y2 as int + 1,
            (y2 as int) < v0.height,
            dy as int == y2 as int - y1 as int,
            dx as int == (if x2 as int >= x1 as int {
                x2 as int - x1 as int
            } else {
                x1 as int - x2 as int
            }),
            (x2 as int >= x1 as int ==> xi == 1) && ((x2 as int) < x1 as int ==> xi == -1),
            gm == dx as int + dy as int,
            gd0 == 2 * (dx as int) - dy as int,
            -((2 * (y as int - y1 as int) + 2) * gm) <= d as int <= (2 * (y as int - y1 as int)
                + 2) * gm,
            (y == y1 && x as int == x1 as int) || (-1 <= x as int && x as int <= v0.width),
            bres_high_seq(
                c@.pixels,
                v0.width,
                v0.height,
                col,
                y as int,
                y2 as int,
                x as int,
                d as int,
                dy as int,
                dx as int,
                xi as int,
            ) == bres_high_seq(
                v0.pixels,
                v0.width,
                v0.height,
                col,
                y1 as int,
                y2 as int,
                x1 as int,
                gd0,
                dy as int,
                dx as int,
                xi as int,
            ),
        ensures
            c.wf(),
            c@.width == v0.width,
            c@.height == v0.height,
            c@.pixels == bres_high_seq(
                v0.pixels,
                v0.width,
                v0.height,
                col,
                y1 as int,
                y2 as int,
                x1 as int,
                gd0,
                dy as int,
                dx as int,
                xi as int,
            ),
        decreases y2 + 1 - y,
    {
        if x < 0 || x >= w as i64 {
            break ;
        }
        proof {
            lemma_row_major_in_range(v0.width, v0.height, x as int, y as int);
            assert((2 * ((y as int + 1) - y1 as int) + 2) * gm == (2 * (y as int - y1 as int) + 2)
                * gm + 2 * gm) by (nonlinear_arith);
            assert((2 * (y as int - y1 as int) + 2) * gm <= 0x2_0000_0000_0000_0000_0000_0000)
                by (nonlinear_arith)
                requires
                    0 <= y as int - y1 as int <= 0x8000_0000,
                    0 <= gm <= 0x1_0000_0000_0000_0000,
                    y1 <= y,
            ;
        }
        let ghost pre = c@.pixels;
        c.set_pixel(x as usize, y, col);
        assert(bres_high_seq(
            pre,
            v0.width,
            v0.height,
            col,
            y as int,
            y2 as int,
            x as int,
            d as int,
            dy as int,
            dx as int,
            xi as int,
        ) == (if d as int > 0 {
            bres_high_seq(
                c@.pixels,
                v0.width,
                v0.height,
                col,
                y as int + 1,
                y2 as int,
                x as int + xi as int,
                d as int + 2 * (dx as int) - 2 * (dy as int),
                dy as int,
                dx as int,
                xi as int,
            )
        } else {
            bres_high_seq(
                c@.pixels,
                v0.width,
                v0.height,
                col,
                y as int + 1,
                y2 as int,
                x as int,
                d as int + 2 * (dx as int),
                dy as int,
                dx as int,
                xi as int,
            )
        }));
        if d > 0 {
            x = x + xi;
            d = d - 2 * (dy as i128);
        }
        d = d + 2 * (dx as i128);
        y += 1;
    }
}

} // verus!
