//! Horizontal and vertical span drawing, and general line drawing via
//! Bresenham's algorithm.
//!
//! Spans are clipped to the canvas: endpoints may be given in either order
//! and may lie off the canvas, in which case the drawn interval is the
//! intersection of the requested interval with the canvas.  A span whose row
//! or column lies entirely off the canvas is a no-op.

use crate::canvas::Canvas;
use crate::canvas::CanvasView;
use crate::raster_math::imax;
use crate::raster_math::imin;
use crate::raster_math::lemma_flat_range_row;
use crate::raster_math::lemma_row_major_in_range;
use crate::raster_math::lemma_row_major_injective;
use crate::raster_math::lemma_row_major_unflatten;
use crate::types::ARGBColour;
use vstd::arithmetic::div_mod::lemma_fundamental_div_mod;
use vstd::prelude::*;

verus! {

/// The left end of the horizontal span `[x1, x2]` after clipping to a canvas.
pub open spec fn hspan_lo(x1: int, x2: int) -> int {
    imax(imin(x1, x2), 0)
}

/// The right end of the horizontal span `[x1, x2]` after clipping to a canvas
/// of width `w`.
pub open spec fn hspan_hi(x1: int, x2: int, w: int) -> int {
    imin(imax(x1, x2), w - 1)
}

/// Whether `h_line(x1, y, x2)` paints the pixel `(px, py)`.
pub open spec fn hline_covers(v: CanvasView, x1: int, y: int, x2: int, px: int, py: int) -> bool {
    &&& 0 <= y < v.height
    &&& py == y
    &&& hspan_lo(x1, x2) <= px <= hspan_hi(x1, x2, v.width)
}

/// The pixel buffer after drawing the horizontal span `[x1, x2]` at row `y`,
/// clipped to the canvas.
pub open spec fn hline_seq(v: CanvasView, col: u32, x1: int, y: int, x2: int) -> Seq<u32> {
    let lo = hspan_lo(x1, x2);
    let hi = hspan_hi(x1, x2, v.width);
    if 0 <= y < v.height && lo <= hi {
        Seq::new(
            v.pixels.len(),
            |i: int|
                if y * v.width + lo <= i <= y * v.width + hi {
                    col
                } else {
                    v.pixels[i]
                },
        )
    } else {
        v.pixels
    }
}

/// The top end of the vertical span `[y1, y2]` after clipping to a canvas.
pub open spec fn vspan_lo(y1: int, y2: int) -> int {
    imax(imin(y1, y2), 0)
}

/// The bottom end of the vertical span `[y1, y2]` after clipping to a canvas
/// of height `h`.
pub open spec fn vspan_hi(y1: int, y2: int, h: int) -> int {
    imin(imax(y1, y2), h - 1)
}

/// Whether `v_line(x, y1, y2)` paints the pixel `(px, py)`.
pub open spec fn vline_covers(v: CanvasView, x: int, y1: int, y2: int, px: int, py: int) -> bool {
    &&& 0 <= x < v.width
    &&& px == x
    &&& vspan_lo(y1, y2) <= py <= vspan_hi(y1, y2, v.height)
}

/// The pixel buffer after drawing the vertical span `[y1, y2]` at column `x`,
/// clipped to the canvas.
pub open spec fn vline_seq(v: CanvasView, col: u32, x: int, y1: int, y2: int) -> Seq<u32> {
    let lo = vspan_lo(y1, y2);
    let hi = vspan_hi(y1, y2, v.height);
    if 0 <= x < v.width && lo <= hi {
        Seq::new(
            v.pixels.len(),
            |i: int|
                if i % v.width == x && lo <= i / v.width <= hi {
                    col
                } else {
                    v.pixels[i]
                },
        )
    } else {
        v.pixels
    }
}

/// Draws a horizontal line of a given colour to a [`Canvas`].
///
/// The endpoints may be given in either order.  The drawn interval is
/// `[min(x1,x2), max(x1,x2)]` intersected with the canvas; if that
/// intersection is empty, or the row `y` is off the canvas, nothing is drawn.
pub fn h_line(c: &mut Canvas, col: &ARGBColour, x1: isize, y: isize, x2: isize)
    requires
        old(c).wf(),
    ensures
        final(c).wf(),
        final(c)@.width == old(c)@.width,
        final(c)@.height == old(c)@.height,
        final(c)@.pixels == hline_seq(old(c)@, col.spec_packed(), x1 as int, y as int, x2 as int),
        forall|px: int, py: int|
            old(c)@.in_bounds(px, py) ==> final(c)@.pixel(px, py) == (if hline_covers(
                old(c)@,
                x1 as int,
                y as int,
                x2 as int,
                px,
                py,
            ) {
                col.spec_packed()
            } else {
                old(c)@.pixel(px, py)
            }),
{
    let w = c.width();
    let h = c.height();
    let ghost v0 = c@;
    let (a, b) = if x1 <= x2 {
        (x1, x2)
    } else {
        (x2, x1)
    };
    if y < 0 || y >= h as isize || b < 0 || a >= w as isize || w == 0 {
        return ;
    }
    let lo: usize = if a < 0 {
        0
    } else {
        a as usize
    };
    let hi: usize = if b >= w as isize {
        w - 1
    } else {
        b as usize
    };
    let px_col = col.packed();
    let yy = y as usize;
    let ghost base = y as int * v0.width;
    let mut i: usize = lo;
    while i <= hi
        invariant
            c.wf(),
            v0.wf(),
            c@.width == v0.width,
            c@.height == v0.height,
            c@.pixels.len() == v0.pixels.len(),
            lo as int == hspan_lo(x1 as int, x2 as int),
            hi as int == hspan_hi(x1 as int, x2 as int, v0.width),
            lo <= i,
            i as int <= hi as int + 1,
            hi < v0.width,
            yy == y as int,
            0 <= (y as int) < v0.height,
            base == y as int * v0.width,
            px_col == col.spec_packed(),
            forall|j: int|
                0 <= j < v0.pixels.len() ==> c@.pixels[j] == (if base + lo <= j < base + i {
                    px_col
                } else {
                    v0.pixels[j]
                }),
        decreases hi + 1 - i,
    {
        proof {
            lemma_row_major_in_range(v0.width, v0.height, i as int, y as int);
        }
        c.set_pixel(i, yy, px_col);
        i += 1;
    }
    proof {
        assert(c@.pixels =~= hline_seq(v0, px_col, x1 as int, y as int, x2 as int));
        assert forall|px: int, py: int| v0.in_bounds(px, py) implies c@.pixel(px, py) == (
        if hline_covers(v0, x1 as int, y as int, x2 as int, px, py) {
            col.spec_packed()
        } else {
            v0.pixel(px, py)
        }) by {
            lemma_row_major_in_range(v0.width, v0.height, px, py);
            lemma_row_major_unflatten(v0.width, px, py);
            lemma_flat_range_row(v0.width, y as int, lo as int, hi as int, py * v0.width + px);
        }
    }
}

/// Draws a vertical line of a given colour to a [`Canvas`].
///
/// The endpoints may be given in either order.  The drawn interval is
/// `[min(y1,y2), max(y1,y2)]` intersected with the canvas; if that
/// intersection is empty, or the column `x` is off the canvas, nothing is
/// drawn.
pub fn v_line(c: &mut Canvas, col: &ARGBColour, x: isize, y1: isize, y2: isize)
    requires
        old(c).wf(),
    ensures
        final(c).wf(),
        final(c)@.width == old(c)@.width,
        final(c)@.height == old(c)@.height,
        final(c)@.pixels == vline_seq(old(c)@, col.spec_packed(), x as int, y1 as int, y2 as int),
        forall|px: int, py: int|
            old(c)@.in_bounds(px, py) ==> final(c)@.pixel(px, py) == (if vline_covers(
                old(c)@,
                x as int,
                y1 as int,
                y2 as int,
                px,
                py,
            ) {
                col.spec_packed()
            } else {
                old(c)@.pixel(px, py)
            }),
{
    let w = c.width();
    let h = c.height();
    let ghost v0 = c@;
    let (a, b) = if y1 <= y2 {
        (y1, y2)
    } else {
        (y2, y1)
    };
    if x < 0 || x >= w as isize || b < 0 || a >= h as isize || h == 0 {
        return ;
    }
    let lo: usize = if a < 0 {
        0
    } else {
        a as usize
    };
    let hi: usize = if b >= h as isize {
        h - 1
    } else {
        b as usize
    };
    let px_col = col.packed();
    let xx = x as usize;
    let mut i: usize = lo;
    while i <= hi
        invariant
            c.wf(),
            v0.wf(),
            c@.width == v0.width,
            c@.height == v0.height,
            c@.pixels.len() == v0.pixels.len(),
            lo as int == vspan_lo(y1 as int, y2 as int),
            hi as int == vspan_hi(y1 as int, y2 as int, v0.height),
            lo <= i,
            i as int <= hi as int + 1,
            hi < v0.height,
            xx == x as int,
            0 <= (x as int) < v0.width,
            px_col == col.spec_packed(),
            forall|j: int|
                0 <= j < v0.pixels.len() ==> c@.pixels[j] == (if j % v0.width == x as int && lo
                    <= j / v0.width < i as int {
                    px_col
                } else {
                    v0.pixels[j]
                }),
        decreases hi + 1 - i,
    {
        let ghost before = c@;
        proof {
            lemma_row_major_in_range(v0.width, v0.height, x as int, i as int);
        }
        c.set_pixel(xx, i, px_col);
        proof {
            lemma_row_major_unflatten(v0.width, x as int, i as int);
            assert forall|j: int| 0 <= j < v0.pixels.len() implies c@.pixels[j] == (if j % v0.width
                == x as int && lo <= j / v0.width < i as int + 1 {
                px_col
            } else {
                v0.pixels[j]
            }) by {
                lemma_fundamental_div_mod(j, v0.width);
                vstd::arithmetic::div_mod::lemma_div_pos_is_pos(j, v0.width);
                vstd::arithmetic::mul::lemma_mul_is_commutative(v0.width, j / v0.width);
                lemma_row_major_injective(v0.width, x as int, j / v0.width, x as int, i as int);
            }
        }
        i += 1;
    }
    proof {
        assert(c@.pixels =~= vline_seq(v0, px_col, x as int, y1 as int, y2 as int));
        assert forall|px: int, py: int| v0.in_bounds(px, py) implies c@.pixel(px, py) == (
        if vline_covers(v0, x as int, y1 as int, y2 as int, px, py) {
            col.spec_packed()
        } else {
            v0.pixel(px, py)
        }) by {
            lemma_row_major_in_range(v0.width, v0.height, px, py);
            lemma_row_major_unflatten(v0.width, px, py);
        }
    }
}


/// The clipping and dispatch of [`line_bresenham`]: negative start
/// co-ordinates are clamped to the near edge, a line whose end lies off the
/// near edge or whose start lies off the far edge in its direction of travel
/// is skipped entirely, endpoints beyond the far edge are clamped onto it
/// when the travel is toward the canvas, and the walk variant is chosen by
/// the dominant axis.
pub open spec fn line_bres_from(
    v: CanvasView,
    col: u32,
    x1: int,
    y1: int,
    x2: int,
    y2: int,
) -> Seq<u32> {
    let x1c = if x1 < 0 {
        0
    } else {
        x1
    };
    let y1c = if y1 < 0 {
        0
    } else {
        y1
    };
    if x2 < 0 || y2 < 0 {
        v.pixels
    } else if (x2 > x1c && x1c >= v.width) || (y2 > y1c && y1c >= v.height) || (x1c > x2 && x2
        >= v.width) || (y1c > y2 && y2 >= v.height) {
        v.pixels
    } else {
        let a1 = if x1c > x2 && x1c >= v.width {
            v.width - 1
        } else {
            x1c
        };
        let b1 = if y1c > y2 && y1c >= v.height {
            v.height - 1
        } else {
            y1c
        };
        let a2 = if x2 > a1 && x2 >= v.width {
            v.width - 1
        } else {
            x2
        };
        let b2 = if y2 > b1 && y2 >= v.height {
            v.height - 1
        } else {
            y2
        };
        if a1 >= v.width || a2 >= v.width || b1 >= v.height || b2 >= v.height {
            v.pixels
        } else {
            let dxabs = if a2 >= a1 {
                a2 - a1
            } else {
                a1 - a2
            };
            let dyabs = if b2 >= b1 {
                b2 - b1
            } else {
                b1 - b2
            };
            if dyabs < dxabs {
                if a1 > a2 {
                    crate::drawing::line_utils::bres_low_from(v, col, a2, b2, a1, b1)
                } else {
                    crate::drawing::line_utils::bres_low_from(v, col, a1, b1, a2, b2)
                }
            } else if b1 > b2 {
                crate::drawing::line_utils::bres_high_from(v, col, a2, b2, a1, b1)
            } else {
                crate::drawing::line_utils::bres_high_from(v, col, a1, b1, a2, b2)
            }
        }
    }
}

/// Draws a line of a given colour to a [`Canvas`] using Bresenham's line
/// drawing algorithm.
///
/// Endpoints may lie off the canvas: they are pre-clamped onto the canvas
/// edge when the clamped end lies along the direction of travel toward that
/// edge, and a line that starts off-canvas and trends further off-canvas is
/// skipped entirely.  The walk also halts early if its minor co-ordinate
/// leaves the canvas: that is a clipping policy, not an error.
#[verifier::rlimit(60)]
pub fn line_bresenham(c: &mut Canvas, col: &ARGBColour, x1: isize, y1: isize, x2: isize, y2: isize)
    requires
        old(c).wf(),
    ensures
        final(c).wf(),
        final(c)@.width == old(c)@.width,
        final(c)@.height == old(c)@.height,
        final(c)@.pixels == line_bres_from(
            old(c)@,
            col.spec_packed(),
            x1 as int,
            y1 as int,
            x2 as int,
            y2 as int,
        ),
{
    let w = c.width();
    let h = c.height();
    let x1c: isize = if x1 < 0 {
        0
    } else {
        x1
    };
    let y1c: isize = if y1 < 0 {
        0
    } else {
        y1
    };
    if x2 < 0 || y2 < 0 {
        return ;
    }
    let mut a1: usize = x1c as usize;
    let mut b1: usize = y1c as usize;
    let a2o: usize = x2 as usize;
    let b2o: usize = y2 as usize;
    if (a2o > a1 && a1 >= w) || (b2o > b1 && b1 >= h) || (a1 > a2o && a2o >= w) || (b1 > b2o
        && b2o >= h) {
        return ;
    }
    if a1 > a2o && a1 >= w {
        a1 = w - 1;
    }
    if b1 > b2o && b1 >= h {
        b1 = h - 1;
    }
    let a2: usize = if a2o > a1 && a2o >= w {
        w - 1
    } else {
        a2o
    };
    let b2: usize = if b2o > b1 && b2o >= h {
        h - 1
    } else {
        b2o
    };
    if a1 >= w || a2 >= w || b1 >= h || b2 >= h {
        return ;
    }
    let colp = col.packed();
    let dxabs: usize = if a2 >= a1 {
        a2 - a1
    } else {
        a1 - a2
    };
    let dyabs: usize = if b2 >= b1 {
        b2 - b1
    } else {
        b1 - b2
    };
    if dyabs < dxabs {
        if a1 > a2 {
            crate::drawing::line_utils::plot_line_low(c, colp, a2, b2, a1, b1);
        } else {
            crate::drawing::line_utils::plot_line_low(c, colp, a1, b1, a2, b2);
        }
    } else if b1 > b2 {
        crate::drawing::line_utils::plot_line_high(c, colp, a2, b2, a1, b1);
    } else {
        crate::drawing::line_utils::plot_line_high(c, colp, a1, b1, a2, b2);
    }
}

/// The effect of the general [`line`] entry point: a vertical span when the
/// x co-ordinates agree, a horizontal span when the y co-ordinates agree,
/// and a Bresenham walk otherwise.
pub open spec fn line_seq(v: CanvasView, col: u32, x1: int, y1: int, x2: int, y2: int) -> Seq<
    u32,
> {
    if x1 == x2 {
        vline_seq(v, col, x1, y1, y2)
    } else if y1 == y2 {
        hline_seq(v, col, x1, y1, x2)
    } else {
        line_bres_from(v, col, x1, y1, x2, y2)
    }
}

/// General-purpose line drawing function.  Draws a line of a given colour
/// between `(x1, y1)` and `(x2, y2)`, deferring to [`v_line`], [`h_line`] or
/// [`line_bresenham`] as appropriate.
pub fn line(c: &mut Canvas, col: &ARGBColour, x1: isize, y1: isize, x2: isize, y2: isize)
    requires
        old(c).wf(),
    ensures
        final(c).wf(),
        final(c)@.width == old(c)@.width,
        final(c)@.height == old(c)@.height,
        final(c)@.pixels == line_seq(
            old(c)@,
            col.spec_packed(),
            x1 as int,
            y1 as int,
            x2 as int,
            y2 as int,
        ),
{
    if x1 == x2 {
        v_line(c, col, x1, y1, y2);
    } else if y1 == y2 {
        h_line(c, col, x1, y1, x2);
    } else {
        line_bresenham(c, col, x1, y1, x2, y2);
    }
}


/// A horizontal span whose row lies off the canvas draws nothing, and an
/// empty clipped interval draws nothing.
pub proof fn lemma_hline_off_canvas_noop(v: CanvasView, col: u32, x1: int, y: int, x2: int)
    requires
        y < 0 || y >= v.height || imax(x1, x2) < 0 || imin(x1, x2) >= v.width,
    ensures
        hline_seq(v, col, x1, y, x2) == v.pixels,
{
}

/// Horizontal span endpoints outside the canvas clip to the last valid
/// index: one beyond the right edge clips to the last column, one left of 0
/// clips to column 0.
pub proof fn lemma_hline_clips_to_canvas(v: CanvasView, x1: int, x2: int)
    ensures
        imax(x1, x2) >= v.width ==> hspan_hi(x1, x2, v.width) == v.width - 1,
        imin(x1, x2) < 0 ==> hspan_lo(x1, x2) == 0,
{
}

/// A vertical span whose column lies off the canvas draws nothing, and an
/// empty clipped interval draws nothing.
pub proof fn lemma_vline_off_canvas_noop(v: CanvasView, col: u32, x: int, y1: int, y2: int)
    requires
        x < 0 || x >= v.width || imax(y1, y2) < 0 || imin(y1, y2) >= v.height,
    ensures
        vline_seq(v, col, x, y1, y2) == v.pixels,
{
}

/// Vertical span endpoints outside the canvas clip to the last valid index:
/// one beyond the bottom edge clips to the last row, one above 0 clips to
/// row 0.
pub proof fn lemma_vline_clips_to_canvas(v: CanvasView, y1: int, y2: int)
    ensures
        imax(y1, y2) >= v.height ==> vspan_hi(y1, y2, v.height) == v.height - 1,
        imin(y1, y2) < 0 ==> vspan_lo(y1, y2) == 0,
{
}

} // verus!


