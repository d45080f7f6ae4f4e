//! Filled and outlined rectangles.

use crate::canvas::Canvas;
use crate::canvas::CanvasView;
use crate::drawing::lines::h_line;
use crate::drawing::lines::hline_seq;
use crate::drawing::lines::hspan_hi;
use crate::drawing::lines::hspan_lo;
use crate::drawing::lines::v_line;
use crate::drawing::lines::vline_seq;
use crate::drawing::lines::vspan_hi;
use crate::drawing::lines::vspan_lo;
use crate::raster_math::lemma_flat_range_row;
use crate::raster_math::lemma_row_major_in_range;
use crate::raster_math::lemma_row_major_unflatten;
use crate::types::ARGBColour;
use vstd::prelude::*;

verus! {

/// Whether `fill_rect(x1, y1, x2, y2)` paints the pixel `(px, py)`: the pixel
/// lies in the requested rectangle intersected with the canvas.
pub open spec fn fill_rect_covers(
    v: CanvasView,
    x1: int,
    y1: int,
    x2: int,
    y2: int,
    px: int,
    py: int,
) -> bool {
    &&& hspan_lo(x1, x2) <= px <= hspan_hi(x1, x2, v.width)
    &&& vspan_lo(y1, y2) <= py <= vspan_hi(y1, y2, v.height)
}

/// The pixel buffer after filling the rectangle with corners `(x1, y1)` and
/// `(x2, y2)`, clipped to the canvas.  A rectangle lying entirely off the
/// canvas leaves the buffer unchanged.
pub open spec fn fill_rect_seq(
    v: CanvasView,
    col: u32,
    x1: int,
    y1: int,
    x2: int,
    y2: int,
) -> Seq<u32> {
    let xlo = hspan_lo(x1, x2);
    let xhi = hspan_hi(x1, x2, v.width);
    let ylo = vspan_lo(y1, y2);
    let yhi = vspan_hi(y1, y2, v.height);
    if xlo <= xhi && ylo <= yhi {
        Seq::new(
            v.pixels.len(),
            |i: int|
                if xlo <= i % v.width <= xhi && ylo <= i / v.width <= yhi {
                    col
                } else {
                    v.pixels[i]
                },
        )
    } else {
        v.pixels
    }
}

/// Draws a filled rectangle of a given colour to a [`Canvas`].
///
/// The corners may be given in either order.  The filled region is the
/// requested rectangle intersected with the canvas; a rectangle entirely off
/// the canvas draws nothing.
pub fn fill_rect(c: &mut Canvas, col: &ARGBColour, x1: isize, y1: isize, x2: isize, y2: isize)
    requires
        old(c).wf(),
    ensures
        final(c).wf(),
        final(c)@.width == old(c)@.width,
        final(c)@.height == old(c)@.height,
        final(c)@.pixels == fill_rect_seq(
            old(c)@,
            col.spec_packed(),
            x1 as int,
            y1 as int,
            x2 as int,
            y2 as int,
        ),
        forall|px: int, py: int|
            old(c)@.in_bounds(px, py) ==> final(c)@.pixel(px, py) == (if fill_rect_covers(
                old(c)@,
                x1 as int,
                y1 as int,
                x2 as int,
                y2 as int,
                px,
                py,
            ) {
                col.spec_packed()
            } else {
                old(c)@.pixel(px, py)
            }),
{
    let w = c.width();
    let h = c.height();
    let ghost v0 = c@;
    let (xa, xb) = if x1 <= x2 {
        (x1, x2)
    } else {
        (x2, x1)
    };
    let (ya, yb) = if y1 <= y2 {
        (y1, y2)
    } else {
        (y2, y1)
    };
    if xb < 0 || xa >= w as isize || w == 0 || yb < 0 || ya >= h as isize || h == 0 {
        return ;
    }
    let xlo: usize = if xa < 0 {
        0
    } else {
        xa as usize
    };
    let xhi: usize = if xb >= w as isize {
        w - 1
    } else {
        xb as usize
    };
    let ylo: usize = if ya < 0 {
        0
    } else {
        ya as usize
    };
    let yhi: usize = if yb >= h as isize {
        h - 1
    } else {
        yb as usize
    };
    let ghost colv = col.spec_packed();
    let mut yy: usize = ylo;
    while yy <= yhi
        invariant
            c.wf(),
            v0.wf(),
            c@.width == v0.width,
            c@.height == v0.height,
            c@.pixels.len() == v0.pixels.len(),
            xlo as int == hspan_lo(x1 as int, x2 as int),
            xhi as int == hspan_hi(x1 as int, x2 as int, v0.width),
            ylo as int == vspan_lo(y1 as int, y2 as int),
            yhi as int == vspan_hi(y1 as int, y2 as int, v0.height),
            xlo <= xhi,
            xhi < v0.width,
            yhi < v0.height,
            ylo <= yy,
            yy as int <= yhi as int + 1,
            colv == col.spec_packed(),
            forall|j: int|
                0 <= j < v0.pixels.len() ==> c@.pixels[j] == (if xlo as int <= j % v0.width
                    <= xhi as int && ylo as int <= j / v0.width < yy as int {
                    colv
                } else {
                    v0.pixels[j]
                }),
        decreases yhi + 1 - yy,
    {
        h_line(c, col, xlo as isize, yy as isize, xhi as isize);
        proof {
            assert forall|j: int| 0 <= j < v0.pixels.len() implies c@.pixels[j] == (if xlo as int
                <= j % v0.width <= xhi as int && ylo as int <= j / v0.width < yy as int + 1 {
                colv
            } else {
                v0.pixels[j]
            }) by {
                lemma_flat_range_row(v0.width, yy as int, xlo as int, xhi as int, j);
            }
        }
        yy += 1;
    }
    proof {
        assert(c@.pixels =~= fill_rect_seq(
            v0,
            colv,
            x1 as int,
            y1 as int,
            x2 as int,
            y2 as int,
        ));
        assert forall|px: int, py: int| v0.in_bounds(px, py) implies c@.pixel(px, py) == (
        if fill_rect_covers(v0, x1 as int, y1 as int, x2 as int, y2 as int, px, py) {
            colv
        } else {
            v0.pixel(px, py)
        }) by {
            lemma_row_major_in_range(v0.width, v0.height, px, py);
            lemma_row_major_unflatten(v0.width, px, py);
        }
    }
}

/// The pixel buffer after drawing a rectangle outline: its two horizontal
/// edges followed by its two vertical edges, each clipped to the canvas.
pub open spec fn rect_seq(v: CanvasView, col: u32, x1: int, y1: int, x2: int, y2: int) -> Seq<
    u32,
> {
    let s1 = hline_seq(v, col, x1, y1, x2);
    let s2 = hline_seq(v.with_pixels(s1), col, x1, y2, x2);
    let s3 = vline_seq(v.with_pixels(s2), col, x1, y1, y2);
    vline_seq(v.with_pixels(s3), col, x2, y1, y2)
}

/// Draws an un-filled rectangle with a given stroke colour to a [`Canvas`]:
/// the two horizontal and the two vertical edges of the rectangle with
/// corners `(x1, y1)` and `(x2, y2)`, each edge clipped to the canvas.
pub fn rect(c: &mut Canvas, col: &ARGBColour, x1: isize, y1: isize, x2: isize, y2: isize)
    requires
        old(c).wf(),
    ensures
        final(c).wf(),
        final(c)@.width == old(c)@.width,
        final(c)@.height == old(c)@.height,
        final(c)@.pixels == rect_seq(
            old(c)@,
            col.spec_packed(),
            x1 as int,
            y1 as int,
            x2 as int,
            y2 as int,
        ),
{
    h_line(c, col, x1, y1, x2);
    h_line(c, col, x1, y2, x2);
    v_line(c, col, x1, y1, y2);
    v_line(c, col, x2, y1, y2);
}

} // verus!
