//! Polygon outlines, scanline polygon fill and the fast triangle fill.

use crate::canvas::Canvas;
use crate::canvas::CanvasView;
use crate::drawing::lines::h_line;
use crate::drawing::lines::hline_seq;
use crate::drawing::lines::line;
use crate::drawing::lines::line_seq;
use crate::drawing::lines::v_line;
use crate::drawing::lines::vline_seq;
use crate::drawing::shape_utils::downward_tri_seq;
use crate::drawing::shape_utils::downward_triangle;
use crate::drawing::shape_utils::upward_tri_seq;
use crate::drawing::shape_utils::upward_triangle;
use crate::drawing::shape_utils::downward_triangle_textured;
use crate::drawing::shape_utils::lemma_tex_down_rows_opaque_only;
use crate::drawing::shape_utils::lemma_tex_down_rows_transparent;
use crate::drawing::shape_utils::lemma_tex_up_rows_opaque_only;
use crate::drawing::shape_utils::lemma_tex_up_rows_transparent;
use crate::drawing::shape_utils::tex_down_seq;
use crate::drawing::shape_utils::tex_up_seq;
use crate::drawing::shape_utils::upward_triangle_textured;
use crate::drawing::shape_utils::COORD_LIMIT;
use crate::drawing::shape_utils::UV_LIMIT;
use crate::raster_math::imax;
use crate::raster_math::imin;
use crate::raster_math::interp;
use crate::raster_math::interp_spec;
use crate::types::alpha_of;
use crate::types::ARGBColour;
use crate::types::UVVertex;
use crate::types::UVWrapMode;
use vstd::prelude::*;

verus! {

/// The buffer after drawing the first `i` polygon edges: straight lines
/// between consecutive vertices of the flat coordinate list
/// `[x0, y0, x1, y1, ...]`.
pub open spec fn polygon_prefix(v: CanvasView, col: u32, pts: Seq<i32>, i: int) -> Seq<u32>
    decreases i,
{
    if i <= 0 {
        v.pixels
    } else {
        let prev = polygon_prefix(v, col, pts, i - 1);
        line_seq(
            v.with_pixels(prev),
            col,
            pts[2 * (i - 1)] as int,
            pts[2 * (i - 1) + 1] as int,
            pts[2 * i] as int,
            pts[2 * i + 1] as int,
        )
    }
}

/// The full effect of [`polygon`]: every edge between consecutive vertices,
/// and, when `close` is set and the list holds at least two vertices, one
/// closing edge from the last vertex back to the first.
pub open spec fn polygon_seq(v: CanvasView, col: u32, close: bool, pts: Seq<i32>) -> Seq<u32> {
    let n = pts.len() as int / 2;
    let base = polygon_prefix(v, col, pts, n - 1);
    if close && pts.len() >= 4 {
        line_seq(
            v.with_pixels(base),
            col,
            pts[pts.len() - 2] as int,
            pts[pts.len() - 1] as int,
            pts[0] as int,
            pts[1] as int,
        )
    } else {
        base
    }
}

/// Draws an un-filled polygon given a list of vertices with a given stroke
/// colour.
///
/// Vertices are listed as a flat array of x,y co-ordinates, so the length of
/// `points` must be even.  A line is drawn between each pair of consecutive
/// vertices; when `close` is set and there are at least two vertices, a line
/// is also drawn from the last vertex back to the first — and only then.
pub fn polygon(c: &mut Canvas, col: &ARGBColour, close: bool, points: Vec<i32>)
    requires
        old(c).wf(),
        points@.len() % 2 == 0,
    ensures
        final(c).wf(),
        final(c)@.width == old(c)@.width,
        final(c)@.height == old(c)@.height,
        final(c)@.pixels == polygon_seq(old(c)@, col.spec_packed(), close, points@),
{
    let ghost v0 = c@;
    let ghost colp = col.spec_packed();
    let n = points.len() / 2;
    proof {
        vstd::arithmetic::div_mod::lemma_fundamental_div_mod(points@.len() as int, 2);
        assert(points@.len() == 2 * (n as int));
    }
    let mut i: usize = 0;
    while i + 1 < n
        invariant
            c.wf(),
            v0.wf(),
            c@.width == v0.width,
            c@.height == v0.height,
            n == points@.len() / 2,
            points@.len() % 2 == 0,
            points@.len() == 2 * (n as int),
            points@.len() <= usize::MAX,
            i as int <= (if n == 0 {
                0
            } else {
                n - 1
            }),
            colp == col.spec_packed(),
            c@.pixels == polygon_prefix(v0, colp, points@, i as int),
        decreases n - i,
    {
        let sx = points[2 * i];
        let sy = points[2 * i + 1];
        let ex = points[2 * i + 2];
        let ey = points[2 * i + 3];
        let ghost pre = c@;
        line(c, col, sx as isize, sy as isize, ex as isize, ey as isize);
        proof {
            assert(polygon_prefix(v0, colp, points@, i as int + 1) == line_seq(
                v0.with_pixels(polygon_prefix(v0, colp, points@, i as int)),
                colp,
                points@[2 * (i as int)] as int,
                points@[2 * (i as int) + 1] as int,
                points@[2 * (i as int) + 2] as int,
                points@[2 * (i as int) + 3] as int,
            ));
            assert(v0.with_pixels(polygon_prefix(v0, colp, points@, i as int)) == pre);
        }
        i += 1;
    }
    if close && points.len() >= 4 {
        let fx = points[0];
        let fy = points[1];
        let lx = points[points.len() - 2];
        let ly = points[points.len() - 1];
        let ghost pre = c@;
        line(c, col, lx as isize, ly as isize, fx as isize, fy as isize);
        proof {
            assert(v0.with_pixels(polygon_prefix(v0, colp, points@, n as int - 1)) == pre);
        }
    }
}

/// The full effect of [`fill_triangle`]: the vertices are sorted b_y
/// ascending y; a triangle degenerate in y or in x collapses to a single
/// span; a flat-topped or flat-bottomed triangle is filled directly; any
/// other triangle is split at the middle vertex's scanline into one
/// flat-bottomed and one flat-topped half, filled in turn.
pub open spec fn fill_triangle_seq(
    v: CanvasView,
    col: u32,
    x1: int,
    y1: int,
    x2: int,
    y2: int,
    x3: int,
    y3: int,
) -> Seq<u32> {
    let ax1 = if y1 > y2 {
        x2
    } else {
        x1
    };
    let ay1 = if y1 > y2 {
        y2
    } else {
        y1
    };
    let bx1 = if y1 > y2 {
        x1
    } else {
        x2
    };
    let b_y1 = if y1 > y2 {
        y1
    } else {
        y2
    };
    let ax = if ay1 > y3 {
        x3
    } else {
        ax1
    };
    let ay = if ay1 > y3 {
        y3
    } else {
        ay1
    };
    let cx1 = if ay1 > y3 {
        ax1
    } else {
        x3
    };
    let cy1 = if ay1 > y3 {
        ay1
    } else {
        y3
    };
    let bx = if b_y1 > cy1 {
        cx1
    } else {
        bx1
    };
    let b_y = if b_y1 > cy1 {
        cy1
    } else {
        b_y1
    };
    let cx = if b_y1 > cy1 {
        bx1
    } else {
        cx1
    };
    let cy = if b_y1 > cy1 {
        b_y1
    } else {
        cy1
    };
    if ay == b_y && b_y == cy {
        hline_seq(v, col, imin(imin(ax, bx), cx), ay, imax(imax(ax, bx), cx))
    } else if ax == bx && bx == cx {
        vline_seq(v, col, ax, imin(imin(ay, b_y), cy), imax(imax(ay, b_y), cy))
    } else if ay == b_y {
        downward_tri_seq(v, col, imin(ax, bx), ay, imax(ax, bx), b_y, cx, cy)
    } else if b_y == cy {
        upward_tri_seq(v, col, ax, ay, imin(bx, cx), b_y, imax(bx, cx), cy)
    } else {
        let nx = interp_spec(ay, ax, cy, cx, b_y);
        let mx = imin(bx, nx);
        let nx2 = imax(bx, nx);
        let s1 = upward_tri_seq(v, col, ax, ay, mx, b_y, nx2, b_y);
        downward_tri_seq(v.with_pixels(s1), col, mx, b_y, nx2, b_y, cx, cy)
    }
}

/// Draws a filled triangle with a given fill colour given three vertices.
///
/// Degenerate triangles (all vertices on one row or one column) collapse to
/// a single horizontal or vertical span across their extent.  Every drawn
/// span is clipped to the canvas.
#[verifier::rlimit(100)]
pub fn fill_triangle(
    c: &mut Canvas,
    col: &ARGBColour,
    x1: isize,
    y1: isize,
    x2: isize,
    y2: isize,
    x3: isize,
    y3: isize,
)
    requires
        old(c).wf(),
        -COORD_LIMIT <= x1 <= COORD_LIMIT,
        -COORD_LIMIT <= y1 <= COORD_LIMIT,
        -COORD_LIMIT <= x2 <= COORD_LIMIT,
        -COORD_LIMIT <= y2 <= COORD_LIMIT,
        -COORD_LIMIT <= x3 <= COORD_LIMIT,
        -COORD_LIMIT <= y3 <= COORD_LIMIT,
    ensures
        final(c).wf(),
        final(c)@.width == old(c)@.width,
        final(c)@.height == old(c)@.height,
        final(c)@.pixels == fill_triangle_seq(
            old(c)@,
            col.spec_packed(),
            x1 as int,
            y1 as int,
            x2 as int,
            y2 as int,
            x3 as int,
            y3 as int,
        ),
{
    let mut ax: isize = x1;
    let mut ay: isize = y1;
    let mut bx: isize = x2;
    let mut b_y: isize = y2;
    let mut cx: isize = x3;
    let mut cy: isize = y3;
    if ay > b_y {
        let t: isize = ax;
        ax = bx;
        bx = t;
        let u: isize = ay;
        ay = b_y;
        b_y = u;
    }
    if ay > cy {
        let t: isize = ax;
        ax = cx;
        cx = t;
        let u: isize = ay;
        ay = cy;
        cy = u;
    }
    if b_y > cy {
        let t: isize = bx;
        bx = cx;
        cx = t;
        let u: isize = b_y;
        b_y = cy;
        cy = u;
    }
    if ay == b_y && b_y == cy {
        let lx: isize = if ax < bx {
            if ax < cx {
                ax
            } else {
                cx
            }
        } else {
            if bx < cx {
                bx
            } else {
                cx
            }
        };
        let rx: isize = if ax > bx {
            if ax > cx {
                ax
            } else {
                cx
            }
        } else {
            if bx > cx {
                bx
            } else {
                cx
            }
        };
        h_line(c, col, lx, ay, rx);
    } else if ax == bx && bx == cx {
        let ly: isize = if ay < b_y {
            if ay < cy {
                ay
            } else {
                cy
            }
        } else {
            if b_y < cy {
                b_y
            } else {
                cy
            }
        };
        let ry: isize = if ay > b_y {
            if ay > cy {
                ay
            } else {
                cy
            }
        } else {
            if b_y > cy {
                b_y
            } else {
                cy
            }
        };
        v_line(c, col, ax, ly, ry);
    } else if ay == b_y {
        let lx: isize = if ax < bx {
            ax
        } else {
            bx
        };
        let rx: isize = if ax < bx {
            bx
        } else {
            ax
        };
        downward_triangle(c, col, lx, ay, rx, b_y, cx, cy);
    } else if b_y == cy {
        let lx: isize = if bx < cx {
            bx
        } else {
            cx
        };
        let rx: isize = if bx < cx {
            cx
        } else {
            bx
        };
        upward_triangle(c, col, ax, ay, lx, b_y, rx, cy);
    } else {
        let nx64 = interp(ay as i64, ax as i64, cy as i64, cx as i64, b_y as i64);
        let nx: isize = nx64 as isize;
        let mx: isize = if bx < nx {
            bx
        } else {
            nx
        };
        let rx: isize = if bx < nx {
            nx
        } else {
            bx
        };
        upward_triangle(c, col, ax, ay, mx, b_y, rx, b_y);
        downward_triangle(c, col, mx, b_y, rx, b_y, cx, cy);
    }
}


/// A sequence of i32 values as mathematical integers.
pub open spec fn seq_i32_to_int(s: Seq<i32>) -> Seq<int> {
    s.map_values(|v: i32| v as int)
}

/// The x co-ordinate of vertex `j` in a flat coordinate list.
pub open spec fn vert_x(pts: Seq<i32>, j: int) -> int {
    pts[2 * j] as int
}

/// The y co-ordinate of vertex `j` in a flat coordinate list.
pub open spec fn vert_y(pts: Seq<i32>, j: int) -> int {
    pts[2 * j + 1] as int
}

/// The number of vertices in a flat coordinate list.
pub open spec fn nverts(pts: Seq<i32>) -> int {
    pts.len() as int / 2
}

/// The smallest y among the first `j` vertices, or 0 when there are none.
pub open spec fn poly_min_y(pts: Seq<i32>, j: int) -> int
    decreases j,
{
    if j <= 0 {
        0
    } else if j == 1 {
        vert_y(pts, 0)
    } else {
        imin(poly_min_y(pts, j - 1), vert_y(pts, j - 1))
    }
}

/// The largest y among the first `j` vertices, or 0 when there are none.
pub open spec fn poly_max_y(pts: Seq<i32>, j: int) -> int
    decreases j,
{
    if j <= 0 {
        0
    } else if j == 1 {
        vert_y(pts, 0)
    } else {
        imax(poly_max_y(pts, j - 1), vert_y(pts, j - 1))
    }
}

/// The x at which polygon edge `e` crosses scanline `y`, if it does.  An
/// edge contributes a crossing exactly for `min_y <= y < max_y` — the
/// half-open convention that keeps a vertex shared by two edges from being
/// counted twice — with the x computed by linear interpolation along the
/// edge.  A horizontal edge contributes no crossing.
pub open spec fn edge_crossing(pts: Seq<i32>, e: int, y: int) -> Option<int> {
    let sx = vert_x(pts, e);
    let sy = vert_y(pts, e);
    let ex = vert_x(pts, e + 1);
    let ey = vert_y(pts, e + 1);
    if imin(sy, ey) == imax(sy, ey) || y < imin(sy, ey) || y >= imax(sy, ey) {
        Option::None
    } else {
        Option::Some(interp_spec(sy, sx, ey, ex, y))
    }
}

/// The crossings of the first `e` polygon edges at scanline `y`, in edge
/// order.
pub open spec fn crossings(pts: Seq<i32>, y: int, e: int) -> Seq<int>
    decreases e,
{
    if e <= 0 {
        Seq::empty()
    } else {
        let rest = crossings(pts, y, e - 1);
        match edge_crossing(pts, e - 1, y) {
            Option::Some(x) => rest.push(x),
            Option::None => rest,
        }
    }
}

/// Inserting one element into a sequence, before the first element that is
/// strictly larger.
pub open spec fn insert_sorted(s: Seq<int>, x: int) -> Seq<int>
    decreases s.len(),
{
    if s.len() == 0 {
        seq![x]
    } else if x < s[0] {
        seq![x] + s
    } else {
        seq![s[0]] + insert_sorted(s.subrange(1, s.len() as int), x)
    }
}

/// Insertion sort, ascending.
pub open spec fn sort_ints(s: Seq<int>) -> Seq<int>
    decreases s.len(),
{
    if s.len() == 0 {
        s
    } else {
        insert_sorted(sort_ints(s.drop_last()), s.last())
    }
}

/// Inserting before the first strictly larger element is insertion at that
/// element's position.
pub proof fn lemma_insert_sorted_at(s: Seq<int>, x: int, k: int)
    requires
        0 <= k <= s.len(),
        forall|p: int| 0 <= p < k ==> s[p] <= x,
        k < s.len() ==> x < s[k],
    ensures
        insert_sorted(s, x) == s.insert(k, x),
    decreases s.len(),
{
    if s.len() == 0 {
        assert(insert_sorted(s, x) =~= s.insert(0, x));
    } else if k == 0 {
        assert(insert_sorted(s, x) == seq![x] + s);
        assert(seq![x] + s =~= s.insert(0, x));
    } else {
        let tail = s.subrange(1, s.len() as int);
        assert(forall|p: int| 0 <= p < k - 1 ==> tail[p] == s[p + 1]);
        lemma_insert_sorted_at(tail, x, k - 1);
        assert(seq![s[0]] + tail.insert(k - 1, x) =~= s.insert(k, x));
    }
}

/// Mapping to mathematical integers commutes with push.
pub proof fn lemma_map_i32_push(s: Seq<i32>, a: i32)
    ensures
        seq_i32_to_int(s.push(a)) == seq_i32_to_int(s).push(a as int),
{
    assert(seq_i32_to_int(s.push(a)) =~= seq_i32_to_int(s).push(a as int));
}

/// Mapping to mathematical integers commutes with insertion.
pub proof fn lemma_map_i32_insert(s: Seq<i32>, k: int, a: i32)
    requires
        0 <= k <= s.len(),
    ensures
        seq_i32_to_int(s.insert(k, a)) == seq_i32_to_int(s).insert(k, a as int),
{
    s.insert_ensures(k, a);
    seq_i32_to_int(s).insert_ensures(k, a as int);
    assert(seq_i32_to_int(s.insert(k, a)) =~= seq_i32_to_int(s).insert(k, a as int));
}

/// The buffer after filling the spans between consecutive pairs of sorted
/// crossing x co-ordinates on scanline `y`, starting at pair `k`.  A
/// leftover unpaired crossing draws nothing.
pub open spec fn spans_apply(v: CanvasView, col: u32, y: int, xs: Seq<int>, k: int) -> Seq<u32>
    decreases xs.len() - 2 * k,
{
    if 2 * k + 1 >= xs.len() || k < 0 {
        v.pixels
    } else {
        spans_apply(v.with_pixels(hline_seq(v, col, xs[2 * k], y, xs[2 * k + 1])), col, y, xs, k + 1)
    }
}

/// The buffer after drawing every polygon edge that lies horizontally on
/// scanline `y` as its own span, starting from edge `e`.
pub open spec fn horiz_apply(v: CanvasView, col: u32, pts: Seq<i32>, y: int, e: int) -> Seq<u32>
    decreases nverts(pts) - 1 - e,
{
    if e >= nverts(pts) - 1 || e < 0 {
        v.pixels
    } else {
        let s1 = if vert_y(pts, e) == y && vert_y(pts, e + 1) == y {
            hline_seq(v, col, vert_x(pts, e), y, vert_x(pts, e + 1))
        } else {
            v.pixels
        };
        horiz_apply(v.with_pixels(s1), col, pts, y, e + 1)
    }
}

/// The effect of one scanline of the polygon fill: the even-odd spans
/// between the sorted edge crossings, then every horizontal edge lying on
/// the scanline as its own span.
pub open spec fn poly_row(v: CanvasView, col: u32, pts: Seq<i32>, y: int) -> Seq<u32> {
    let xs = sort_ints(crossings(pts, y, nverts(pts) - 1));
    horiz_apply(v.with_pixels(spans_apply(v, col, y, xs, 0)), col, pts, y, 0)
}

/// The full effect of [`fill_polygon`]: one scanline at a time from the
/// polygon's smallest vertex y to its largest.
pub open spec fn poly_rows(v: CanvasView, col: u32, pts: Seq<i32>, y: int, ymax: int) -> Seq<u32>
    decreases ymax + 1 - y,
{
    if y > ymax {
        v.pixels
    } else {
        poly_rows(v.with_pixels(poly_row(v, col, pts, y)), col, pts, y + 1, ymax)
    }
}


/// Draws a filled polygon given a list of vertices with a given fill colour,
/// by even-odd scanline filling.
///
/// The vertex list is flat, `[x0, y0, x1, y1, ...]`, so its length must be
/// even.  The polygon should be closed — the last vertex equal to the first
/// — for correct results; that is a caller contract, not enforced.  For each
/// scanline between the smallest and largest vertex y, the crossings of all
/// edges are collected (half-open in y, so shared vertices are not counted
/// twice), sorted, and filled as alternating spans; horizontal edges lying
/// exactly on the scanline are filled directly as their own span.
pub fn fill_polygon(c: &mut Canvas, col: &ARGBColour, points: Vec<i32>)
    requires
        old(c).wf(),
        points@.len() % 2 == 0,
    ensures
        final(c).wf(),
        final(c)@.width == old(c)@.width,
        final(c)@.height == old(c)@.height,
        final(c)@.pixels == poly_rows(
            old(c)@,
            col.spec_packed(),
            points@,
            poly_min_y(points@, nverts(points@)),
            poly_max_y(points@, nverts(points@)),
        ),
{
    let ghost v0 = c@;
    let ghost colp = col.spec_packed();
    let ghost pts = points@;
    let n = points.len() / 2;
    proof {
        vstd::arithmetic::div_mod::lemma_fundamental_div_mod(points@.len() as int, 2);
        assert(points@.len() == 2 * (n as int));
    }
    let mut ymin: i32 = 0;
    let mut ymax: i32 = 0;
    if n > 0 {
        ymin = points[1];
        ymax = points[1];
        let mut j: usize = 1;
        while j < n
            invariant
                1 <= j <= n,
                pts == points@,
                pts.len() == 2 * (n as int),
                pts.len() <= usize::MAX,
                ymin as int == poly_min_y(pts, j as int),
                ymax as int == poly_max_y(pts, j as int),
            decreases n - j,
        {
            let vy = points[2 * j + 1];
            if vy < ymin {
                ymin = vy;
            }
            if vy > ymax {
                ymax = vy;
            }
            j += 1;
        }
    }
    assert(ymin as int == poly_min_y(pts, n as int));
    assert(ymax as int == poly_max_y(pts, n as int));
    let mut y: i64 = ymin as i64;
    while y <= ymax as i64
        invariant
            c.wf(),
            v0.wf(),
            c@.width == v0.width,
            c@.height == v0.height,
            pts == points@,
            pts.len() == 2 * (n as int),
            pts.len() <= usize::MAX,
            pts.len() % 2 == 0,
            colp == col.spec_packed(),
            ymin as int <= y as int,
            y as int <= ymax as int + 1,
            poly_rows(c@, colp, pts, y as int, ymax as int) == poly_rows(
                v0,
                colp,
                pts,
                ymin as int,
                ymax as int,
            ),
        decreases ymax as int + 1 - y,
    {
        let ghost vrow = c@;
        let mut xs: Vec<i32> = Vec::new();
        let mut e: usize = 0;
        while e + 1 < n
            invariant
                pts == points@,
                pts.len() == 2 * (n as int),
                pts.len() <= usize::MAX,
                e as int <= (if n == 0 {
                    0
                } else {
                    n - 1
                }),
                seq_i32_to_int(xs@) == crossings(pts, y as int, e as int),
                xs@.len() <= e as int,
            decreases n - e,
        {
            let sx = points[2 * e];
            let sy = points[2 * e + 1];
            let ex = points[2 * e + 2];
            let ey = points[2 * e + 3];
            let ghost pre_xs = xs@;
            if sy != ey {
                let miny: i32 = if sy < ey {
                    sy
                } else {
                    ey
                };
                let maxy: i32 = if sy < ey {
                    ey
                } else {
                    sy
                };
                if y >= miny as i64 && y < maxy as i64 {
                    let cx64 = interp(sy as i64, sx as i64, ey as i64, ex as i64, y);
                    xs.push(cx64 as i32);
                    proof {
                        lemma_map_i32_push(pre_xs, cx64 as i32);
                    }
                }
            }
            proof {
                assert(crossings(pts, y as int, e as int + 1) == (match edge_crossing(
                    pts,
                    e as int,
                    y as int,
                ) {
                    Option::Some(x) => crossings(pts, y as int, e as int).push(x),
                    Option::None => crossings(pts, y as int, e as int),
                }));
            }
            e += 1;
        }
        proof {
            assert(seq_i32_to_int(xs@) == crossings(pts, y as int, nverts(pts) - 1));
        }
        let mut sxs: Vec<i32> = Vec::new();
        let mut j2: usize = 0;
        while j2 < xs.len()
            invariant
                j2 <= xs@.len(),
                xs@.len() <= n as int,
                2 * (n as int) <= usize::MAX,
                seq_i32_to_int(sxs@) == sort_ints(seq_i32_to_int(xs@).take(j2 as int)),
                sxs@.len() == j2,
            decreases xs@.len() - j2,
        {
            let x = xs[j2];
            let mut k: usize = 0;
            while k < sxs.len() && sxs[k] <= x
                invariant
                    k <= sxs@.len(),
                    forall|p: int| 0 <= p < k as int ==> sxs@[p] <= x,
                decreases sxs@.len() - k,
            {
                k += 1;
            }
            let ghost pre_s = sxs@;
            sxs.insert(k, x);
            proof {
                lemma_insert_sorted_at(seq_i32_to_int(pre_s), x as int, k as int);
                lemma_map_i32_insert(pre_s, k as int, x);
                let gxs = seq_i32_to_int(xs@);
                assert(gxs.take(j2 as int + 1).drop_last() =~= gxs.take(j2 as int));
                assert(gxs.take(j2 as int + 1).last() == x as int);
                assert(sort_ints(gxs.take(j2 as int + 1)) == insert_sorted(
                    sort_ints(gxs.take(j2 as int)),
                    x as int,
                ));
            }
            j2 += 1;
        }
        proof {
            assert(seq_i32_to_int(xs@).take(xs@.len() as int) =~= seq_i32_to_int(xs@));
        }
        let ghost gsorted = seq_i32_to_int(sxs@);
        let mut k2: usize = 0;
        while 2 * k2 + 1 < sxs.len()
            invariant
                c.wf(),
                vrow.wf(),
                c@.width == vrow.width,
                c@.height == vrow.height,
                colp == col.spec_packed(),
                2 * k2 as int <= sxs@.len() + 1,
                sxs@.len() <= n as int,
                2 * (n as int) <= usize::MAX,
                ymin as int <= y as int <= ymax as int,
                gsorted == seq_i32_to_int(sxs@),
                spans_apply(c@, colp, y as int, gsorted, k2 as int) == spans_apply(
                    vrow,
                    colp,
                    y as int,
                    gsorted,
                    0,
                ),
            decreases sxs@.len() - 2 * k2,
        {
            let xa = sxs[2 * k2];
            let xb = sxs[2 * k2 + 1];
            let ghost pre = c@;
            h_line(c, col, xa as isize, y as isize, xb as isize);
            proof {
                assert(spans_apply(pre, colp, y as int, gsorted, k2 as int) == spans_apply(
                    pre.with_pixels(
                        hline_seq(pre, colp, gsorted[2 * k2 as int], y as int, gsorted[2 * k2 as int
                            + 1]),
                    ),
                    colp,
                    y as int,
                    gsorted,
                    k2 as int + 1,
                ));
                assert(c@ == pre.with_pixels(
                    hline_seq(pre, colp, xa as int, y as int, xb as int),
                ));
            }
            k2 += 1;
        }
        let ghost vh0 = c@;
        proof {
            assert(vh0.pixels == spans_apply(vrow, colp, y as int, gsorted, 0));
        }
        let mut e2: usize = 0;
        while e2 + 1 < n
            invariant
                c.wf(),
                vh0.wf(),
                c@.width == vh0.width,
                c@.height == vh0.height,
                pts == points@,
                pts.len() == 2 * (n as int),
                pts.len() <= usize::MAX,
                colp == col.spec_packed(),
                ymin as int <= y as int <= ymax as int,
                e2 as int <= (if n == 0 {
                    0
                } else {
                    n - 1
                }),
                horiz_apply(c@, colp, pts, y as int, e2 as int) == horiz_apply(
                    vh0,
                    colp,
                    pts,
                    y as int,
                    0,
                ),
            decreases n - e2,
        {
            let sy = points[2 * e2 + 1];
            let ey = points[2 * e2 + 3];
            let ghost pre = c@;
            if sy as i64 == y && ey as i64 == y {
                let sx = points[2 * e2];
                let ex = points[2 * e2 + 2];
                h_line(c, col, sx as isize, y as isize, ex as isize);
                proof {
                    assert(c@ == pre.with_pixels(
                        hline_seq(pre, colp, sx as int, y as int, ex as int),
                    ));
                }
            }
            proof {
                assert(horiz_apply(pre, colp, pts, y as int, e2 as int) == horiz_apply(
                    c@,
                    colp,
                    pts,
                    y as int,
                    e2 as int + 1,
                ));
            }
            e2 += 1;
        }
        proof {
            assert(c@.pixels == horiz_apply(vh0, colp, pts, y as int, 0));
            assert(gsorted == sort_ints(crossings(pts, y as int, nverts(pts) - 1)));
            assert(c@.pixels == poly_row(vrow, colp, pts, y as int));
            assert(poly_rows(vrow, colp, pts, y as int, ymax as int) == poly_rows(
                vrow.with_pixels(poly_row(vrow, colp, pts, y as int)),
                colp,
                pts,
                y as int + 1,
                ymax as int,
            ));
            assert(c@ == vrow.with_pixels(poly_row(vrow, colp, pts, y as int)));
        }
        y += 1;
    }
}


/// The full effect of [`textured_triangle`]: the vertices are sorted by
/// ascending y; a triangle degenerate in y or in x draws nothing; a
/// flat-topped or flat-bottomed triangle is textured directly; any other
/// triangle is split at the middle vertex's scanline — position and texture
/// co-ordinates of the split vertex interpolated along the long edge — into
/// one flat-bottomed and one flat-topped half, textured in turn.
pub open spec fn textured_tri_seq(
    dst: CanvasView,
    src: CanvasView,
    mode: UVWrapMode,
    a: UVVertex,
    b: UVVertex,
    c: UVVertex,
) -> Seq<u32> {
    let a1 = if a.y > b.y {
        b
    } else {
        a
    };
    let b1 = if a.y > b.y {
        a
    } else {
        b
    };
    let a2 = if a1.y > c.y {
        c
    } else {
        a1
    };
    let c2 = if a1.y > c.y {
        a1
    } else {
        c
    };
    let b2 = if b1.y > c2.y {
        c2
    } else {
        b1
    };
    let c3 = if b1.y > c2.y {
        b1
    } else {
        c2
    };
    if a2.y == b2.y && b2.y == c3.y {
        dst.pixels
    } else if a2.x == b2.x && b2.x == c3.x {
        dst.pixels
    } else if a2.y == b2.y {
        let l = if a2.x > b2.x {
            b2
        } else {
            a2
        };
        let r = if a2.x > b2.x {
            a2
        } else {
            b2
        };
        tex_down_seq(dst, src, mode, l, r, c3)
    } else if b2.y == c3.y {
        let l = if b2.x > c3.x {
            c3
        } else {
            b2
        };
        let r = if b2.x > c3.x {
            b2
        } else {
            c3
        };
        tex_up_seq(dst, src, mode, a2, l, r)
    } else {
        let sv = (UVVertex {
            x: interp_spec(a2.y as int, a2.x as int, c3.y as int, c3.x as int, b2.y as int) as isize,
            y: b2.y,
            u: interp_spec(a2.y as int, a2.u as int, c3.y as int, c3.u as int, b2.y as int) as i64,
            v: interp_spec(a2.y as int, a2.v as int, c3.y as int, c3.v as int, b2.y as int) as i64,
        });
        let l = if b2.x > sv.x {
            sv
        } else {
            b2
        };
        let r = if b2.x > sv.x {
            b2
        } else {
            sv
        };
        let s1 = tex_up_seq(dst, src, mode, a2, l, r);
        tex_down_seq(dst.with_pixels(s1), src, mode, l, r, c3)
    }
}

/// Draws a filled triangle given three [`UVVertex`] vertices, sampling each
/// drawn pixel from `canv_src` at the vertex-interpolated `(u, v)` texture
/// co-ordinate under the given wrapping mode.
///
/// A destination pixel is overwritten only when the sampled source pixel's
/// alpha channel is nonzero, so fully transparent source regions leave the
/// destination unchanged.  Triangles degenerate in y or in x draw nothing.
/// The destination and source are distinct canvases by construction of the
/// call: the destination is borrowed exclusively, the source shared.
#[verifier::rlimit(100)]
pub fn textured_triangle(
    canv_dst: &mut Canvas,
    canv_src: &Canvas,
    a: &UVVertex,
    b: &UVVertex,
    c: &UVVertex,
    uv_mode: UVWrapMode,
)
    requires
        old(canv_dst).wf(),
        canv_src.wf(),
        canv_src@.width > 0,
        canv_src@.height > 0,
        -COORD_LIMIT <= a.x <= COORD_LIMIT,
        -COORD_LIMIT <= a.y <= COORD_LIMIT,
        -COORD_LIMIT <= b.x <= COORD_LIMIT,
        -COORD_LIMIT <= b.y <= COORD_LIMIT,
        -COORD_LIMIT <= c.x <= COORD_LIMIT,
        -COORD_LIMIT <= c.y <= COORD_LIMIT,
        -UV_LIMIT <= a.u <= UV_LIMIT,
        -UV_LIMIT <= a.v <= UV_LIMIT,
        -UV_LIMIT <= b.u <= UV_LIMIT,
        -UV_LIMIT <= b.v <= UV_LIMIT,
        -UV_LIMIT <= c.u <= UV_LIMIT,
        -UV_LIMIT <= c.v <= UV_LIMIT,
    ensures
        final(canv_dst).wf(),
        final(canv_dst)@.width == old(canv_dst)@.width,
        final(canv_dst)@.height == old(canv_dst)@.height,
        final(canv_dst)@.pixels == textured_tri_seq(
            old(canv_dst)@,
            canv_src@,
            uv_mode,
            *a,
            *b,
            *c,
        ),
{
    let mut av: UVVertex = *a;
    let mut bv: UVVertex = *b;
    let mut cv: UVVertex = *c;
    if av.y > bv.y {
        let t: UVVertex = av;
        av = bv;
        bv = t;
    }
    if av.y > cv.y {
        let t: UVVertex = av;
        av = cv;
        cv = t;
    }
    if bv.y > cv.y {
        let t: UVVertex = bv;
        bv = cv;
        cv = t;
    }
    if av.y == bv.y && bv.y == cv.y {
        return ;
    }
    if av.x == bv.x && bv.x == cv.x {
        return ;
    }
    if av.y == bv.y {
        if av.x > bv.x {
            let t: UVVertex = av;
            av = bv;
            bv = t;
        }
        downward_triangle_textured(canv_dst, canv_src, av, bv, cv, uv_mode);
    } else if bv.y == cv.y {
        if bv.x > cv.x {
            let t: UVVertex = bv;
            bv = cv;
            cv = t;
        }
        upward_triangle_textured(canv_dst, canv_src, av, bv, cv, uv_mode);
    } else {
        let nx = interp(av.y as i64, av.x as i64, cv.y as i64, cv.x as i64, bv.y as i64);
        let nu = interp(av.y as i64, av.u, cv.y as i64, cv.u, bv.y as i64);
        let nvv = interp(av.y as i64, av.v, cv.y as i64, cv.v, bv.y as i64);
        let mut sv = UVVertex { x: nx as isize, y: bv.y, u: nu, v: nvv };
        if bv.x > sv.x {
            let t: UVVertex = bv;
            bv = sv;
            sv = t;
        }
        upward_triangle_textured(canv_dst, canv_src, av, bv, sv, uv_mode);
        downward_triangle_textured(canv_dst, canv_src, bv, sv, cv, uv_mode);
    }
}


/// A destination pixel is written by the textured triangle fill only when
/// the sampled source pixel's alpha channel is nonzero: every pixel of the
/// result either keeps its old value or holds a value with nonzero alpha.
pub proof fn lemma_textured_triangle_writes_only_opaque(
    dst: CanvasView,
    src: CanvasView,
    mode: UVWrapMode,
    a: UVVertex,
    b: UVVertex,
    c: UVVertex,
)
    requires
        dst.wf(),
    ensures
        textured_tri_seq(dst, src, mode, a, b, c).len() == dst.pixels.len(),
        forall|i: int|
            0 <= i < dst.pixels.len() ==> textured_tri_seq(dst, src, mode, a, b, c)[i]
                == dst.pixels[i] || alpha_of(textured_tri_seq(dst, src, mode, a, b, c)[i]) > 0,
{
    let a1 = if a.y > b.y {
        b
    } else {
        a
    };
    let b1 = if a.y > b.y {
        a
    } else {
        b
    };
    let a2 = if a1.y > c.y {
        c
    } else {
        a1
    };
    let c2 = if a1.y > c.y {
        a1
    } else {
        c
    };
    let b2 = if b1.y > c2.y {
        c2
    } else {
        b1
    };
    let c3 = if b1.y > c2.y {
        b1
    } else {
        c2
    };
    if a2.y == b2.y && b2.y == c3.y {
    } else if a2.x == b2.x && b2.x == c3.x {
    } else if a2.y == b2.y {
        let l = if a2.x > b2.x {
            b2
        } else {
            a2
        };
        let r = if a2.x > b2.x {
            a2
        } else {
            b2
        };
        lemma_tex_down_rows_opaque_only(
            dst,
            src,
            mode,
            l.x as int,
            l.y as int,
            l.u as int,
            l.v as int,
            r.x as int,
            r.y as int,
            r.u as int,
            r.v as int,
            c3.x as int,
            c3.y as int,
            c3.u as int,
            c3.v as int,
            imax(l.y as int, 0),
            imin(c3.y as int, dst.height - 1),
        );
    } else if b2.y == c3.y {
        let l = if b2.x > c3.x {
            c3
        } else {
            b2
        };
        let r = if b2.x > c3.x {
            b2
        } else {
            c3
        };
        lemma_tex_up_rows_opaque_only(
            dst,
            src,
            mode,
            a2.x as int,
            a2.y as int,
            a2.u as int,
            a2.v as int,
            l.x as int,
            l.y as int,
            l.u as int,
            l.v as int,
            r.x as int,
            r.y as int,
            r.u as int,
            r.v as int,
            imax(a2.y as int, 0),
            imin(l.y as int, dst.height - 1),
        );
    } else {
        let sv = (UVVertex {
            x: interp_spec(a2.y as int, a2.x as int, c3.y as int, c3.x as int, b2.y as int) as isize,
            y: b2.y,
            u: interp_spec(a2.y as int, a2.u as int, c3.y as int, c3.u as int, b2.y as int) as i64,
            v: interp_spec(a2.y as int, a2.v as int, c3.y as int, c3.v as int, b2.y as int) as i64,
        });
        let l = if b2.x > sv.x {
            sv
        } else {
            b2
        };
        let r = if b2.x > sv.x {
            b2
        } else {
            sv
        };
        let s1 = tex_up_seq(dst, src, mode, a2, l, r);
        lemma_tex_up_rows_opaque_only(
            dst,
            src,
            mode,
            a2.x as int,
            a2.y as int,
            a2.u as int,
            a2.v as int,
            l.x as int,
            l.y as int,
            l.u as int,
            l.v as int,
            r.x as int,
            r.y as int,
            r.u as int,
            r.v as int,
            imax(a2.y as int, 0),
            imin(l.y as int, dst.height - 1),
        );
        let dst1 = dst.with_pixels(s1);
        lemma_tex_down_rows_opaque_only(
            dst1,
            src,
            mode,
            l.x as int,
            l.y as int,
            l.u as int,
            l.v as int,
            r.x as int,
            r.y as int,
            r.u as int,
            r.v as int,
            c3.x as int,
            c3.y as int,
            c3.u as int,
            c3.v as int,
            imax(l.y as int, 0),
            imin(c3.y as int, dst1.height - 1),
        );
        let res = textured_tri_seq(dst, src, mode, a, b, c);
        assert(res == tex_down_seq(dst1, src, mode, l, r, c3));
        assert forall|i: int| 0 <= i < dst.pixels.len() implies res[i] == dst.pixels[i]
            || alpha_of(res[i]) > 0 by {
            assert(res[i] == dst1.pixels[i] || alpha_of(res[i]) > 0);
        }
    }
}

/// Fully transparent source regions leave destination pixels unchanged:
/// when every pixel of the source canvas has a zero alpha channel, the
/// textured triangle fill is a no-op.
pub proof fn lemma_textured_triangle_transparent_noop(
    dst: CanvasView,
    src: CanvasView,
    mode: UVWrapMode,
    a: UVVertex,
    b: UVVertex,
    c: UVVertex,
)
    requires
        src.wf(),
        src.width > 0,
        src.height > 0,
        forall|j: int| 0 <= j < src.pixels.len() ==> alpha_of(src.pixels[j]) == 0,
    ensures
        textured_tri_seq(dst, src, mode, a, b, c) == dst.pixels,
{
    let a1 = if a.y > b.y {
        b
    } else {
        a
    };
    let b1 = if a.y > b.y {
        a
    } else {
        b
    };
    let a2 = if a1.y > c.y {
        c
    } else {
        a1
    };
    let c2 = if a1.y > c.y {
        a1
    } else {
        c
    };
    let b2 = if b1.y > c2.y {
        c2
    } else {
        b1
    };
    let c3 = if b1.y > c2.y {
        b1
    } else {
        c2
    };
    if a2.y == b2.y && b2.y == c3.y {
    } else if a2.x == b2.x && b2.x == c3.x {
    } else if a2.y == b2.y {
        let l = if a2.x > b2.x {
            b2
        } else {
            a2
        };
        let r = if a2.x > b2.x {
            a2
        } else {
            b2
        };
        lemma_tex_down_rows_transparent(
            dst,
            src,
            mode,
            l.x as int,
            l.y as int,
            l.u as int,
            l.v as int,
            r.x as int,
            r.y as int,
            r.u as int,
            r.v as int,
            c3.x as int,
            c3.y as int,
            c3.u as int,
            c3.v as int,
            imax(l.y as int, 0),
            imin(c3.y as int, dst.height - 1),
        );
    } else if b2.y == c3.y {
        let l = if b2.x > c3.x {
            c3
        } else {
            b2
        };
        let r = if b2.x > c3.x {
            b2
        } else {
            c3
        };
        lemma_tex_up_rows_transparent(
            dst,
            src,
            mode,
            a2.x as int,
            a2.y as int,
            a2.u as int,
            a2.v as int,
            l.x as int,
            l.y as int,
            l.u as int,
            l.v as int,
            r.x as int,
            r.y as int,
            r.u as int,
            r.v as int,
            imax(a2.y as int, 0),
            imin(l.y as int, dst.height - 1),
        );
    } else {
        let sv = (UVVertex {
            x: interp_spec(a2.y as int, a2.x as int, c3.y as int, c3.x as int, b2.y as int) as isize,
            y: b2.y,
            u: interp_spec(a2.y as int, a2.u as int, c3.y as int, c3.u as int, b2.y as int) as i64,
            v: interp_spec(a2.y as int, a2.v as int, c3.y as int, c3.v as int, b2.y as int) as i64,
        });
        let l = if b2.x > sv.x {
            sv
        } else {
            b2
        };
        let r = if b2.x > sv.x {
            b2
        } else {
            sv
        };
        let s1 = tex_up_seq(dst, src, mode, a2, l, r);
        lemma_tex_up_rows_transparent(
            dst,
            src,
            mode,
            a2.x as int,
            a2.y as int,
            a2.u as int,
            a2.v as int,
            l.x as int,
            l.y as int,
            l.u as int,
            l.v as int,
            r.x as int,
            r.y as int,
            r.u as int,
            r.v as int,
            imax(a2.y as int, 0),
            imin(l.y as int, dst.height - 1),
        );
        assert(dst.with_pixels(s1) == dst);
        lemma_tex_down_rows_transparent(
            dst,
            src,
            mode,
            l.x as int,
            l.y as int,
            l.u as int,
            l.v as int,
            r.x as int,
            r.y as int,
            r.u as int,
            r.v as int,
            c3.x as int,
            c3.y as int,
            c3.u as int,
            c3.v as int,
            imax(l.y as int, 0),
            imin(c3.y as int, dst.height - 1),
        );
    }
}

} // verus!




