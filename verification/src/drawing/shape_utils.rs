//! Scanline fills for flat-topped and flat-bottomed triangles: for each
//! scanline between the flat edge and the apex, the left and right x bounds
//! are linearly interpolated along the two non-flat edges and the span
//! between them is drawn.

use crate::canvas::Canvas;
use crate::canvas::CanvasView;
use crate::drawing::lines::h_line;
use crate::drawing::lines::hline_seq;
use crate::raster_math::interp;
use crate::raster_math::interp_spec;
use crate::canvas::lemma_uv_coord_in_range;
use crate::canvas::spec_sample;
use crate::raster_math::imax;
use crate::raster_math::imin;
use crate::raster_math::lemma_row_major_in_range;
use crate::types::alpha_nonzero;
use crate::types::alpha_of;
use crate::types::ARGBColour;
use crate::types::UVVertex;
use crate::types::UVWrapMode;
use vstd::prelude::*;

verus! {

/// The bound on triangle vertex co-ordinates: comfortably beyond any canvas
/// dimension, it keeps the scanline interpolation arithmetic representable.
pub const COORD_LIMIT: isize = 0x7fff_fffe;

/// The buffer after filling the scanlines `y ..= bot_y` of a flat-topped
/// triangle with top edge `(tl_x, tl_y)-(tr_x, tr_y)` and bottom apex
/// `(bot_x, bot_y)`: each scanline's bounds are interpolated from the two
/// side edges and drawn as a clipped horizontal span.
pub open spec fn downward_rows(
    v: CanvasView,
    col: u32,
    tl_x: int,
    tl_y: int,
    tr_x: int,
    tr_y: int,
    bot_x: int,
    bot_y: int,
    y: int,
) -> Seq<u32>
    decreases bot_y + 1 - y,
{
    if y > bot_y {
        v.pixels
    } else {
        let xl = interp_spec(tl_y, tl_x, bot_y, bot_x, y);
        let xr = interp_spec(tr_y, tr_x, bot_y, bot_x, y);
        downward_rows(
            v.with_pixels(hline_seq(v, col, xl, y, xr)),
            col,
            tl_x,
            tl_y,
            tr_x,
            tr_y,
            bot_x,
            bot_y,
            y + 1,
        )
    }
}

/// The full effect of [`downward_triangle`]: the rows from the flat top edge
/// down to the bottom apex.
pub open spec fn downward_tri_seq(
    v: CanvasView,
    col: u32,
    tl_x: int,
    tl_y: int,
    tr_x: int,
    tr_y: int,
    bot_x: int,
    bot_y: int,
) -> Seq<u32> {
    downward_rows(v, col, tl_x, tl_y, tr_x, tr_y, bot_x, bot_y, tl_y)
}

/// The buffer after filling the scanlines `y ..= bl_y` of a flat-bottomed
/// triangle with top apex `(top_x, top_y)` and bottom edge
/// `(bl_x, bl_y)-(br_x, br_y)`.
pub open spec fn upward_rows(
    v: CanvasView,
    col: u32,
    top_x: int,
    top_y: int,
    bl_x: int,
    bl_y: int,
    br_x: int,
    br_y: int,
    y: int,
) -> Seq<u32>
    decreases bl_y + 1 - y,
{
    if y > bl_y {
        v.pixels
    } else {
        let xl = interp_spec(bl_y, bl_x, top_y, top_x, y);
        let xr = interp_spec(br_y, br_x, top_y, top_x, y);
        upward_rows(
            v.with_pixels(hline_seq(v, col, xl, y, xr)),
            col,
            top_x,
            top_y,
            bl_x,
            bl_y,
            br_x,
            br_y,
            y + 1,
        )
    }
}

/// The full effect of [`upward_triangle`]: the rows from the top apex down
/// to the flat bottom edge.
pub open spec fn upward_tri_seq(
    v: CanvasView,
    col: u32,
    top_x: int,
    top_y: int,
    bl_x: int,
    bl_y: int,
    br_x: int,
    br_y: int,
) -> Seq<u32> {
    upward_rows(v, col, top_x, top_y, bl_x, bl_y, br_x, br_y, top_y)
}

/// Fills a flat-topped ("downward") triangle by drawing one clipped
/// horizontal span per scanline from the flat top edge to the bottom apex.
///
/// The caller guarantees the top edge is genuinely flat and strictly above
/// the apex; zero-height edges are special-cased by the caller, as the
/// interpolation divides by the triangle's vertical extent.
pub fn downward_triangle(
    c: &mut Canvas,
    col: &ARGBColour,
    tl_x: isize,
    tl_y: isize,
    tr_x: isize,
    tr_y: isize,
    bot_x: isize,
    bot_y: isize,
)
    requires
        old(c).wf(),
        tl_y == tr_y,
        tl_y < bot_y,
        -COORD_LIMIT <= tl_x <= COORD_LIMIT,
        -COORD_LIMIT <= tr_x <= COORD_LIMIT,
        -COORD_LIMIT <= bot_x <= COORD_LIMIT,
        -COORD_LIMIT <= tl_y <= COORD_LIMIT,
        -COORD_LIMIT <= bot_y <= COORD_LIMIT,
    ensures
        final(c).wf(),
        final(c)@.width == old(c)@.width,
        final(c)@.height == old(c)@.height,
        final(c)@.pixels == downward_tri_seq(
            old(c)@,
            col.spec_packed(),
            tl_x as int,
            tl_y as int,
            tr_x as int,
            tr_y as int,
            bot_x as int,
            bot_y as int,
        ),
{
    let ghost v0 = c@;
    let ghost colp = col.spec_packed();
    let mut y: isize = tl_y;
    while y <= bot_y
        invariant
            c.wf(),
            v0.wf(),
            c@.width == v0.width,
            c@.height == v0.height,
            tl_y <= y,
            y as int <= bot_y as int + 1,
            tl_y == tr_y,
            tl_y < bot_y,
            -COORD_LIMIT <= tl_x <= COORD_LIMIT,
            -COORD_LIMIT <= tr_x <= COORD_LIMIT,
            -COORD_LIMIT <= bot_x <= COORD_LIMIT,
            -COORD_LIMIT <= tl_y <= COORD_LIMIT,
            -COORD_LIMIT <= bot_y <= COORD_LIMIT,
            colp == col.spec_packed(),
            downward_rows(
                c@,
                colp,
                tl_x as int,
                tl_y as int,
                tr_x as int,
                tr_y as int,
                bot_x as int,
                bot_y as int,
                y as int,
            ) == downward_rows(
                v0,
                colp,
                tl_x as int,
                tl_y as int,
                tr_x as int,
                tr_y as int,
                bot_x as int,
                bot_y as int,
                tl_y as int,
            ),
        decreases bot_y + 1 - y,
    {
        let xl = interp(tl_y as i64, tl_x as i64, bot_y as i64, bot_x as i64, y as i64);
        let xr = interp(tr_y as i64, tr_x as i64, bot_y as i64, bot_x as i64, y as i64);
        let ghost pre = c@;
        h_line(c, col, xl as isize, y, xr as isize);
        proof {
            assert(downward_rows(
                pre,
                colp,
                tl_x as int,
                tl_y as int,
                tr_x as int,
                tr_y as int,
                bot_x as int,
                bot_y as int,
                y as int,
            ) == downward_rows(
                pre.with_pixels(hline_seq(pre, colp, xl as int, y as int, xr as int)),
                colp,
                tl_x as int,
                tl_y as int,
                tr_x as int,
                tr_y as int,
                bot_x as int,
                bot_y as int,
                y as int + 1,
            ));
            assert(c@ == pre.with_pixels(hline_seq(pre, colp, xl as int, y as int, xr as int)));
        }
        y += 1;
    }
}

/// Fills a flat-bottomed ("upward") triangle by drawing one clipped
/// horizontal span per scanline from the top apex to the flat bottom edge.
///
/// The caller guarantees the bottom edge is genuinely flat and strictly
/// below the apex; zero-height edges are special-cased by the caller, as the
/// interpolation divides by the triangle's vertical extent.
pub fn upward_triangle(
    c: &mut Canvas,
    col: &ARGBColour,
    top_x: isize,
    top_y: isize,
    bl_x: isize,
    bl_y: isize,
    br_x: isize,
    br_y: isize,
)
    requires
        old(c).wf(),
        bl_y == br_y,
        top_y < bl_y,
        -COORD_LIMIT <= top_x <= COORD_LIMIT,
        -COORD_LIMIT <= bl_x <= COORD_LIMIT,
        -COORD_LIMIT <= br_x <= COORD_LIMIT,
        -COORD_LIMIT <= top_y <= COORD_LIMIT,
        -COORD_LIMIT <= bl_y <= COORD_LIMIT,
    ensures
        final(c).wf(),
        final(c)@.width == old(c)@.width,
        final(c)@.height == old(c)@.height,
        final(c)@.pixels == upward_tri_seq(
            old(c)@,
            col.spec_packed(),
            top_x as int,
            top_y as int,
            bl_x as int,
            bl_y as int,
            br_x as int,
            br_y as int,
        ),
{
    let ghost v0 = c@;
    let ghost colp = col.spec_packed();
    let mut y: isize = top_y;
    while y <= bl_y
        invariant
            c.wf(),
            v0.wf(),
            c@.width == v0.width,
            c@.height == v0.height,
            top_y <= y,
            y as int <= bl_y as int + 1,
            bl_y == br_y,
            top_y < bl_y,
            -COORD_LIMIT <= top_x <= COORD_LIMIT,
            -COORD_LIMIT <= bl_x <= COORD_LIMIT,
            -COORD_LIMIT <= br_x <= COORD_LIMIT,
            -COORD_LIMIT <= top_y <= COORD_LIMIT,
            -COORD_LIMIT <= bl_y <= COORD_LIMIT,
            colp == col.spec_packed(),
            upward_rows(
                c@,
                colp,
                top_x as int,
                top_y as int,
                bl_x as int,
                bl_y as int,
                br_x as int,
                br_y as int,
                y as int,
            ) == upward_rows(
                v0,
                colp,
                top_x as int,
                top_y as int,
                bl_x as int,
                bl_y as int,
                br_x as int,
                br_y as int,
                top_y as int,
            ),
        decreases bl_y + 1 - y,
    {
        let xl = interp(bl_y as i64, bl_x as i64, top_y as i64, top_x as i64, y as i64);
        let xr = interp(br_y as i64, br_x as i64, top_y as i64, top_x as i64, y as i64);
        let ghost pre = c@;
        h_line(c, col, xl as isize, y, xr as isize);
        proof {
            assert(upward_rows(
                pre,
                colp,
                top_x as int,
                top_y as int,
                bl_x as int,
                bl_y as int,
                br_x as int,
                br_y as int,
                y as int,
            ) == upward_rows(
                pre.with_pixels(hline_seq(pre, colp, xl as int, y as int, xr as int)),
                colp,
                top_x as int,
                top_y as int,
                bl_x as int,
                bl_y as int,
                br_x as int,
                br_y as int,
                y as int + 1,
            ));
            assert(c@ == pre.with_pixels(hline_seq(pre, colp, xl as int, y as int, xr as int)));
        }
        y += 1;
    }
}


/// The bound on fixed-point texture co-ordinates accepted by the textured
/// fills: scaled by [`UV_ONE`], it spans far beyond the conventional
/// `[0, 1]` range while keeping the interpolation arithmetic representable.
///
/// [`UV_ONE`]: crate::types::UV_ONE
pub const UV_LIMIT: i64 = 0x7fff_ffff_ffff;

/// The texture co-ordinate at column `x` of a scanline whose unclipped span
/// runs from `xl0` (value `a`) to `xr0` (value `b`).  A zero-width span
/// keeps its left value.  Because the interpolation is anchored at the
/// unclipped left end, clipping the span's ends does not disturb it.
pub open spec fn span_uv(xl0: int, xr0: int, a: int, b: int, x: int) -> int {
    if xr0 == xl0 {
        a
    } else {
        interp_spec(xl0, a, xr0, b, x)
    }
}

/// The buffer after texturing the columns `x ..= x_end` of scanline `y`:
/// each destination pixel takes the source pixel sampled at the
/// interpolated `(u, v)` — but only when that sample's alpha channel is
/// nonzero; destination pixels under transparent samples are unchanged.
pub open spec fn tex_span(
    dst: CanvasView,
    src: CanvasView,
    mode: UVWrapMode,
    y: int,
    xl0: int,
    xr0: int,
    ul: int,
    ur: int,
    vl: int,
    vr: int,
    x: int,
    x_end: int,
) -> Seq<u32>
    decreases x_end + 1 - x,
{
    if x > x_end {
        dst.pixels
    } else {
        let uu = span_uv(xl0, xr0, ul, ur, x);
        let vv = span_uv(xl0, xr0, vl, vr, x);
        let px = spec_sample(src, uu, vv, mode);
        let s1 = if alpha_of(px) > 0 {
            dst.pixels.update(y * dst.width + x, px)
        } else {
            dst.pixels
        };
        tex_span(dst.with_pixels(s1), src, mode, y, xl0, xr0, ul, ur, vl, vr, x + 1, x_end)
    }
}

/// The buffer after texturing the scanlines `y ..= y_end` of a flat-topped
/// triangle: the scanline's x bounds and its left and right `(u, v)` are
/// interpolated along the side edges, the x bounds are clipped to the
/// canvas, and the span is textured.
pub open spec fn tex_down_rows(
    dst: CanvasView,
    src: CanvasView,
    mode: UVWrapMode,
    tl_x: int,
    tl_y: int,
    tl_u: int,
    tl_v: int,
    tr_x: int,
    tr_y: int,
    tr_u: int,
    tr_v: int,
    bot_x: int,
    bot_y: int,
    bot_u: int,
    bot_v: int,
    y: int,
    y_end: int,
) -> Seq<u32>
    decreases y_end + 1 - y,
{
    if y > y_end {
        dst.pixels
    } else {
        let xl0 = interp_spec(tl_y, tl_x, bot_y, bot_x, y);
        let xr0 = interp_spec(tr_y, tr_x, bot_y, bot_x, y);
        let ul = interp_spec(tl_y, tl_u, bot_y, bot_u, y);
        let ur = interp_spec(tr_y, tr_u, bot_y, bot_u, y);
        let vl = interp_spec(tl_y, tl_v, bot_y, bot_v, y);
        let vr = interp_spec(tr_y, tr_v, bot_y, bot_v, y);
        let row = tex_span(
            dst,
            src,
            mode,
            y,
            xl0,
            xr0,
            ul,
            ur,
            vl,
            vr,
            imax(xl0, 0),
            imin(xr0, dst.width - 1),
        );
        tex_down_rows(
            dst.with_pixels(row),
            src,
            mode,
            tl_x,
            tl_y,
            tl_u,
            tl_v,
            tr_x,
            tr_y,
            tr_u,
            tr_v,
            bot_x,
            bot_y,
            bot_u,
            bot_v,
            y + 1,
            y_end,
        )
    }
}

/// The full effect of [`downward_triangle_textured`]: the scanlines from the
/// flat top edge down to the bottom apex, both clipped to the canvas.
pub open spec fn tex_down_seq(
    dst: CanvasView,
    src: CanvasView,
    mode: UVWrapMode,
    tl: UVVertex,
    tr: UVVertex,
    bot: UVVertex,
) -> Seq<u32> {
    tex_down_rows(
        dst,
        src,
        mode,
        tl.x as int,
        tl.y as int,
        tl.u as int,
        tl.v as int,
        tr.x as int,
        tr.y as int,
        tr.u as int,
        tr.v as int,
        bot.x as int,
        bot.y as int,
        bot.u as int,
        bot.v as int,
        imax(tl.y as int, 0),
        imin(bot.y as int, dst.height - 1),
    )
}

/// The buffer after texturing the scanlines `y ..= y_end` of a
/// flat-bottomed triangle; the interpolation is anchored at the bottom
/// vertices and runs toward the top apex.
pub open spec fn tex_up_rows(
    dst: CanvasView,
    src: CanvasView,
    mode: UVWrapMode,
    top_x: int,
    top_y: int,
    top_u: int,
    top_v: int,
    bl_x: int,
    bl_y: int,
    bl_u: int,
    bl_v: int,
    br_x: int,
    br_y: int,
    br_u: int,
    br_v: int,
    y: int,
    y_end: int,
) -> Seq<u32>
    decreases y_end + 1 - y,
{
    if y > y_end {
        dst.pixels
    } else {
        let xl0 = interp_spec(bl_y, bl_x, top_y, top_x, y);
        let xr0 = interp_spec(br_y, br_x, top_y, top_x, y);
        let ul = interp_spec(bl_y, bl_u, top_y, top_u, y);
        let ur = interp_spec(br_y, br_u, top_y, top_u, y);
        let vl = interp_spec(bl_y, bl_v, top_y, top_v, y);
        let vr = interp_spec(br_y, br_v, top_y, top_v, y);
        let row = tex_span(
            dst,
            src,
            mode,
            y,
            xl0,
            xr0,
            ul,
            ur,
            vl,
            vr,
            imax(xl0, 0),
            imin(xr0, dst.width - 1),
        );
        tex_up_rows(
            dst.with_pixels(row),
            src,
            mode,
            top_x,
            top_y,
            top_u,
            top_v,
            bl_x,
            bl_y,
            bl_u,
            bl_v,
            br_x,
            br_y,
            br_u,
            br_v,
            y + 1,
            y_end,
        )
    }
}

/// The full effect of [`upward_triangle_textured`]: the scanlines from the
/// top apex down to the flat bottom edge, both clipped to the canvas.
pub open spec fn tex_up_seq(
    dst: CanvasView,
    src: CanvasView,
    mode: UVWrapMode,
    top: UVVertex,
    bl: UVVertex,
    br: UVVertex,
) -> Seq<u32> {
    tex_up_rows(
        dst,
        src,
        mode,
        top.x as int,
        top.y as int,
        top.u as int,
        top.v as int,
        bl.x as int,
        bl.y as int,
        bl.u as int,
        bl.v as int,
        br.x as int,
        br.y as int,
        br.u as int,
        br.v as int,
        imax(top.y as int, 0),
        imin(bl.y as int, dst.height - 1),
    )
}


/// Textures a flat-topped ("downward") triangle: for each scanline from the
/// flat top edge to the bottom apex, clipped to the canvas, the span's x
/// bounds and its `(u, v)` endpoints are interpolated along the side edges,
/// and each destination pixel takes the source sample at its interpolated
/// `(u, v)` — only when that sample's alpha channel is nonzero.
pub fn downward_triangle_textured(
    canv_dst: &mut Canvas,
    canv_src: &Canvas,
    tl: UVVertex,
    tr: UVVertex,
    bot: UVVertex,
    uv_mode: UVWrapMode,
)
    requires
        old(canv_dst).wf(),
        canv_src.wf(),
        canv_src@.width > 0,
        canv_src@.height > 0,
        tl.y == tr.y,
        tl.y < bot.y,
        -COORD_LIMIT <= tl.x <= COORD_LIMIT,
        -COORD_LIMIT <= tr.x <= COORD_LIMIT,
        -COORD_LIMIT <= bot.x <= COORD_LIMIT,
        -COORD_LIMIT <= tl.y <= COORD_LIMIT,
        -COORD_LIMIT <= bot.y <= COORD_LIMIT,
        -UV_LIMIT <= tl.u <= UV_LIMIT,
        -UV_LIMIT <= tl.v <= UV_LIMIT,
        -UV_LIMIT <= tr.u <= UV_LIMIT,
        -UV_LIMIT <= tr.v <= UV_LIMIT,
        -UV_LIMIT <= bot.u <= UV_LIMIT,
        -UV_LIMIT <= bot.v <= UV_LIMIT,
    ensures
        final(canv_dst).wf(),
        final(canv_dst)@.width == old(canv_dst)@.width,
        final(canv_dst)@.height == old(canv_dst)@.height,
        final(canv_dst)@.pixels == tex_down_seq(old(canv_dst)@, canv_src@, uv_mode, tl, tr, bot),
{
    let ghost v0 = canv_dst@;
    let w = canv_dst.width();
    let h = canv_dst.height();
    let y_start: isize = if tl.y > 0 {
        tl.y
    } else {
        0
    };
    let y_end: isize = if bot.y < h as isize {
        bot.y
    } else {
        h as isize - 1
    };
    let mut y: isize = y_start;
    while y <= y_end
        invariant
            canv_dst.wf(),
            v0.wf(),
            canv_src.wf(),
            canv_src@.width > 0,
            canv_src@.height > 0,
            canv_dst@.width == v0.width,
            canv_dst@.height == v0.height,
            w as int == v0.width,
            h as int == v0.height,
            tl.y == tr.y,
            tl.y < bot.y,
            -COORD_LIMIT <= tl.x <= COORD_LIMIT,
            -COORD_LIMIT <= tr.x <= COORD_LIMIT,
            -COORD_LIMIT <= bot.x <= COORD_LIMIT,
            -COORD_LIMIT <= tl.y <= COORD_LIMIT,
            -COORD_LIMIT <= bot.y <= COORD_LIMIT,
            -UV_LIMIT <= tl.u <= UV_LIMIT,
            -UV_LIMIT <= tl.v <= UV_LIMIT,
            -UV_LIMIT <= tr.u <= UV_LIMIT,
            -UV_LIMIT <= tr.v <= UV_LIMIT,
            -UV_LIMIT <= bot.u <= UV_LIMIT,
            -UV_LIMIT <= bot.v <= UV_LIMIT,
            y_start as int == imax(tl.y as int, 0),
            y_end as int == imin(bot.y as int, v0.height - 1),
            y_start <= y,
            tex_down_rows(
                canv_dst@,
                canv_src@,
                uv_mode,
                tl.x as int,
                tl.y as int,
                tl.u as int,
                tl.v as int,
                tr.x as int,
                tr.y as int,
                tr.u as int,
                tr.v as int,
                bot.x as int,
                bot.y as int,
                bot.u as int,
                bot.v as int,
                y as int,
                y_end as int,
            ) == tex_down_rows(
                v0,
                canv_src@,
                uv_mode,
                tl.x as int,
                tl.y as int,
                tl.u as int,
                tl.v as int,
                tr.x as int,
                tr.y as int,
                tr.u as int,
                tr.v as int,
                bot.x as int,
                bot.y as int,
                bot.u as int,
                bot.v as int,
                y_start as int,
                y_end as int,
            ),
        decreases y_end + 1 - y,
    {
        let xl0 = interp(tl.y as i64, tl.x as i64, bot.y as i64, bot.x as i64, y as i64);
        let xr0 = interp(tr.y as i64, tr.x as i64, bot.y as i64, bot.x as i64, y as i64);
        let ul = interp(tl.y as i64, tl.u, bot.y as i64, bot.u, y as i64);
        let ur = interp(tr.y as i64, tr.u, bot.y as i64, bot.u, y as i64);
        let vl = interp(tl.y as i64, tl.v, bot.y as i64, bot.v, y as i64);
        let vr = interp(tr.y as i64, tr.v, bot.y as i64, bot.v, y as i64);
        let x_start: isize = if xl0 > 0 {
            xl0 as isize
        } else {
            0
        };
        let x_end: isize = if xr0 < w as i64 - 1 {
            xr0 as isize
        } else {
            w as isize - 1
        };
        let ghost rowpre = canv_dst@;
        let mut x: isize = x_start;
        while x <= x_end
            invariant
                canv_dst.wf(),
                rowpre.wf(),
                canv_src.wf(),
                canv_src@.width > 0,
                canv_src@.height > 0,
                canv_dst@.width == rowpre.width,
                canv_dst@.height == rowpre.height,
                w as int == rowpre.width,
                0 <= y as int,
                (y as int) < rowpre.height,
                x_start as int == imax(xl0 as int, 0),
                x_end as int == imin(xr0 as int, rowpre.width - 1),
                x_start <= x,
                -COORD_LIMIT <= xl0 <= COORD_LIMIT,
                -COORD_LIMIT <= xr0 <= COORD_LIMIT,
                -UV_LIMIT <= ul <= UV_LIMIT,
                -UV_LIMIT <= ur <= UV_LIMIT,
                -UV_LIMIT <= vl <= UV_LIMIT,
                -UV_LIMIT <= vr <= UV_LIMIT,
                tex_span(
                    canv_dst@,
                    canv_src@,
                    uv_mode,
                    y as int,
                    xl0 as int,
                    xr0 as int,
                    ul as int,
                    ur as int,
                    vl as int,
                    vr as int,
                    x as int,
                    x_end as int,
                ) == tex_span(
                    rowpre,
                    canv_src@,
                    uv_mode,
                    y as int,
                    xl0 as int,
                    xr0 as int,
                    ul as int,
                    ur as int,
                    vl as int,
                    vr as int,
                    x_start as int,
                    x_end as int,
                ),
            decreases x_end + 1 - x,
        {
            let uu: i64 = if xr0 == xl0 {
                ul
            } else {
                interp(xl0, ul, xr0, ur, x as i64)
            };
            let vv: i64 = if xr0 == xl0 {
                vl
            } else {
                interp(xl0, vl, xr0, vr, x as i64)
            };
            let px = canv_src.sample(uu, vv, uv_mode);
            let ghost pre = canv_dst@;
            proof {
                lemma_row_major_in_range(rowpre.width, rowpre.height, x as int, y as int);
            }
            if alpha_nonzero(px) {
                canv_dst.set_pixel(x as usize, y as usize, px);
            }
            proof {
                assert(tex_span(
                    pre,
                    canv_src@,
                    uv_mode,
                    y as int,
                    xl0 as int,
                    xr0 as int,
                    ul as int,
                    ur as int,
                    vl as int,
                    vr as int,
                    x as int,
                    x_end as int,
                ) == tex_span(
                    canv_dst@,
                    canv_src@,
                    uv_mode,
                    y as int,
                    xl0 as int,
                    xr0 as int,
                    ul as int,
                    ur as int,
                    vl as int,
                    vr as int,
                    x as int + 1,
                    x_end as int,
                ));
            }
            x += 1;
        }
        proof {
            assert(tex_down_rows(
                rowpre,
                canv_src@,
                uv_mode,
                tl.x as int,
                tl.y as int,
                tl.u as int,
                tl.v as int,
                tr.x as int,
                tr.y as int,
                tr.u as int,
                tr.v as int,
                bot.x as int,
                bot.y as int,
                bot.u as int,
                bot.v as int,
                y as int,
                y_end as int,
            ) == tex_down_rows(
                canv_dst@,
                canv_src@,
                uv_mode,
                tl.x as int,
                tl.y as int,
                tl.u as int,
                tl.v as int,
                tr.x as int,
                tr.y as int,
                tr.u as int,
                tr.v as int,
                bot.x as int,
                bot.y as int,
                bot.u as int,
                bot.v as int,
                y as int + 1,
                y_end as int,
            ));
        }
        y += 1;
    }
}


/// Textures a flat-bottomed ("upward") triangle: for each scanline from the
/// top apex to the flat bottom edge, clipped to the canvas, the span's x
/// bounds and its `(u, v)` endpoints are interpolated along the side edges
/// (anchored at the bottom vertices), and each destination pixel takes the
/// source sample at its interpolated `(u, v)` — only when that sample's
/// alpha channel is nonzero.
pub fn upward_triangle_textured(
    canv_dst: &mut Canvas,
    canv_src: &Canvas,
    top: UVVertex,
    bl: UVVertex,
    br: UVVertex,
    uv_mode: UVWrapMode,
)
    requires
        old(canv_dst).wf(),
        canv_src.wf(),
        canv_src@.width > 0,
        canv_src@.height > 0,
        bl.y == br.y,
        top.y < bl.y,
        -COORD_LIMIT <= top.x <= COORD_LIMIT,
        -COORD_LIMIT <= bl.x <= COORD_LIMIT,
        -COORD_LIMIT <= br.x <= COORD_LIMIT,
        -COORD_LIMIT <= top.y <= COORD_LIMIT,
        -COORD_LIMIT <= bl.y <= COORD_LIMIT,
        -UV_LIMIT <= top.u <= UV_LIMIT,
        -UV_LIMIT <= top.v <= UV_LIMIT,
        -UV_LIMIT <= bl.u <= UV_LIMIT,
        -UV_LIMIT <= bl.v <= UV_LIMIT,
        -UV_LIMIT <= br.u <= UV_LIMIT,
        -UV_LIMIT <= br.v <= UV_LIMIT,
    ensures
        final(canv_dst).wf(),
        final(canv_dst)@.width == old(canv_dst)@.width,
        final(canv_dst)@.height == old(canv_dst)@.height,
        final(canv_dst)@.pixels == tex_up_seq(old(canv_dst)@, canv_src@, uv_mode, top, bl, br),
{
    let ghost v0 = canv_dst@;
    let w = canv_dst.width();
    let h = canv_dst.height();
    let y_start: isize = if top.y > 0 {
        top.y
    } else {
        0
    };
    let y_end: isize = if bl.y < h as isize {
        bl.y
    } else {
        h as isize - 1
    };
    let mut y: isize = y_start;
    while y <= y_end
        invariant
            canv_dst.wf(),
            v0.wf(),
            canv_src.wf(),
            canv_src@.width > 0,
            canv_src@.height > 0,
            canv_dst@.width == v0.width,
            canv_dst@.height == v0.height,
            w as int == v0.width,
            h as int == v0.height,
            bl.y == br.y,
            top.y < bl.y,
            -COORD_LIMIT <= top.x <= COORD_LIMIT,
            -COORD_LIMIT <= bl.x <= COORD_LIMIT,
            -COORD_LIMIT <= br.x <= COORD_LIMIT,
            -COORD_LIMIT <= top.y <= COORD_LIMIT,
            -COORD_LIMIT <= bl.y <= COORD_LIMIT,
            -UV_LIMIT <= top.u <= UV_LIMIT,
            -UV_LIMIT <= top.v <= UV_LIMIT,
            -UV_LIMIT <= bl.u <= UV_LIMIT,
            -UV_LIMIT <= bl.v <= UV_LIMIT,
            -UV_LIMIT <= br.u <= UV_LIMIT,
            -UV_LIMIT <= br.v <= UV_LIMIT,
            y_start as int == imax(top.y as int, 0),
            y_end as int == imin(bl.y as int, v0.height - 1),
            y_start <= y,
            tex_up_rows(
                canv_dst@,
                canv_src@,
                uv_mode,
                top.x as int,
                top.y as int,
                top.u as int,
                top.v as int,
                bl.x as int,
                bl.y as int,
                bl.u as int,
                bl.v as int,
                br.x as int,
                br.y as int,
                br.u as int,
                br.v as int,
                y as int,
                y_end as int,
            ) == tex_up_rows(
                v0,
                canv_src@,
                uv_mode,
                top.x as int,
                top.y as int,
                top.u as int,
                top.v as int,
                bl.x as int,
                bl.y as int,
                bl.u as int,
                bl.v as int,
                br.x as int,
                br.y as int,
                br.u as int,
                br.v as int,
                y_start as int,
                y_end as int,
            ),
        decreases y_end + 1 - y,
    {
        let xl0 = interp(bl.y as i64, bl.x as i64, top.y as i64, top.x as i64, y as i64);
        let xr0 = interp(br.y as i64, br.x as i64, top.y as i64, top.x as i64, y as i64);
        let ul = interp(bl.y as i64, bl.u, top.y as i64, top.u, y as i64);
        let ur = interp(br.y as i64, br.u, top.y as i64, top.u, y as i64);
        let vl = interp(bl.y as i64, bl.v, top.y as i64, top.v, y as i64);
        let vr = interp(br.y as i64, br.v, top.y as i64, top.v, y as i64);
        let x_start: isize = if xl0 > 0 {
            xl0 as isize
        } else {
            0
        };
        let x_end: isize = if xr0 < w as i64 - 1 {
            xr0 as isize
        } else {
            w as isize - 1
        };
        let ghost rowpre = canv_dst@;
        let mut x: isize = x_start;
        while x <= x_end
            invariant
                canv_dst.wf(),
                rowpre.wf(),
                canv_src.wf(),
                canv_src@.width > 0,
                canv_src@.height > 0,
                canv_dst@.width == rowpre.width,
                canv_dst@.height == rowpre.height,
                w as int == rowpre.width,
                0 <= y as int,
                (y as int) < rowpre.height,
                x_start as int == imax(xl0 as int, 0),
                x_end as int == imin(xr0 as int, rowpre.width - 1),
                x_start <= x,
                -COORD_LIMIT <= xl0 <= COORD_LIMIT,
                -COORD_LIMIT <= xr0 <= COORD_LIMIT,
                -UV_LIMIT <= ul <= UV_LIMIT,
                -UV_LIMIT <= ur <= UV_LIMIT,
                -UV_LIMIT <= vl <= UV_LIMIT,
                -UV_LIMIT <= vr <= UV_LIMIT,
                tex_span(
                    canv_dst@,
                    canv_src@,
                    uv_mode,
                    y as int,
                    xl0 as int,
                    xr0 as int,
                    ul as int,
                    ur as int,
                    vl as int,
                    vr as int,
                    x as int,
                    x_end as int,
                ) == tex_span(
                    rowpre,
                    canv_src@,
                    uv_mode,
                    y as int,
                    xl0 as int,
                    xr0 as int,
                    ul as int,
                    ur as int,
                    vl as int,
                    vr as int,
                    x_start as int,
                    x_end as int,
                ),
            decreases x_end + 1 - x,
        {
            let uu: i64 = if xr0 == xl0 {
                ul
            } else {
                interp(xl0, ul, xr0, ur, x as i64)
            };
            let vv: i64 = if xr0 == xl0 {
                vl
            } else {
                interp(xl0, vl, xr0, vr, x as i64)
            };
            let px = canv_src.sample(uu, vv, uv_mode);
            let ghost pre = canv_dst@;
            proof {
                lemma_row_major_in_range(rowpre.width, rowpre.height, x as int, y as int);
            }
            if alpha_nonzero(px) {
                canv_dst.set_pixel(x as usize, y as usize, px);
            }
            proof {
                assert(tex_span(
                    pre,
                    canv_src@,
                    uv_mode,
                    y as int,
                    xl0 as int,
                    xr0 as int,
                    ul as int,
                    ur as int,
                    vl as int,
                    vr as int,
                    x as int,
                    x_end as int,
                ) == tex_span(
                    canv_dst@,
                    canv_src@,
                    uv_mode,
                    y as int,
                    xl0 as int,
                    xr0 as int,
                    ul as int,
                    ur as int,
                    vl as int,
                    vr as int,
                    x as int + 1,
                    x_end as int,
                ));
            }
            x += 1;
        }
        proof {
            assert(tex_up_rows(
                rowpre,
                canv_src@,
                uv_mode,
                top.x as int,
                top.y as int,
                top.u as int,
                top.v as int,
                bl.x as int,
                bl.y as int,
                bl.u as int,
                bl.v as int,
                br.x as int,
                br.y as int,
                br.u as int,
                br.v as int,
                y as int,
                y_end as int,
            ) == tex_up_rows(
                canv_dst@,
                canv_src@,
                uv_mode,
                top.x as int,
                top.y as int,
                top.u as int,
                top.v as int,
                bl.x as int,
                bl.y as int,
                bl.u as int,
                bl.v as int,
                br.x as int,
                br.y as int,
                br.u as int,
                br.v as int,
                y as int + 1,
                y_end as int,
            ));
        }
        y += 1;
    }
}


/// A textured span changes a destination pixel only to a value whose alpha
/// channel is nonzero; every other pixel keeps its old value.
pub proof fn lemma_tex_span_opaque_only(
    dst: CanvasView,
    src: CanvasView,
    mode: UVWrapMode,
    y: int,
    xl0: int,
    xr0: int,
    ul: int,
    ur: int,
    vl: int,
    vr: int,
    x: int,
    x_end: int,
)
    requires
        dst.wf(),
        0 <= y < dst.height,
        0 <= x,
        x_end < dst.width,
    ensures
        tex_span(dst, src, mode, y, xl0, xr0, ul, ur, vl, vr, x, x_end).len()
            == dst.pixels.len(),
        forall|i: int|
            0 <= i < dst.pixels.len() ==> tex_span(
                dst,
                src,
                mode,
                y,
                xl0,
                xr0,
                ul,
                ur,
                vl,
                vr,
                x,
                x_end,
            )[i] == dst.pixels[i] || alpha_of(
                tex_span(dst, src, mode, y, xl0, xr0, ul, ur, vl, vr, x, x_end)[i],
            ) > 0,
    decreases x_end + 1 - x,
{
    if x > x_end {
    } else {
        let uu = span_uv(xl0, xr0, ul, ur, x);
        let vv = span_uv(xl0, xr0, vl, vr, x);
        let px = spec_sample(src, uu, vv, mode);
        let s1 = if alpha_of(px) > 0 {
            dst.pixels.update(y * dst.width + x, px)
        } else {
            dst.pixels
        };
        lemma_row_major_in_range(dst.width, dst.height, x, y);
        let dst1 = dst.with_pixels(s1);
        lemma_tex_span_opaque_only(dst1, src, mode, y, xl0, xr0, ul, ur, vl, vr, x + 1, x_end);
        let r = tex_span(dst, src, mode, y, xl0, xr0, ul, ur, vl, vr, x, x_end);
        assert(r == tex_span(dst1, src, mode, y, xl0, xr0, ul, ur, vl, vr, x + 1, x_end));
        assert forall|i: int| 0 <= i < dst.pixels.len() implies r[i] == dst.pixels[i] || alpha_of(
            r[i],
        ) > 0 by {
            assert(r[i] == dst1.pixels[i] || alpha_of(r[i]) > 0);
        }
    }
}

/// When every pixel of the source canvas is fully transparent, a textured
/// span leaves the destination untouched.
pub proof fn lemma_tex_span_transparent(
    dst: CanvasView,
    src: CanvasView,
    mode: UVWrapMode,
    y: int,
    xl0: int,
    xr0: int,
    ul: int,
    ur: int,
    vl: int,
    vr: int,
    x: int,
    x_end: int,
)
    requires
        src.wf(),
        src.width > 0,
        src.height > 0,
        forall|j: int| 0 <= j < src.pixels.len() ==> alpha_of(src.pixels[j]) == 0,
    ensures
        tex_span(dst, src, mode, y, xl0, xr0, ul, ur, vl, vr, x, x_end) == dst.pixels,
    decreases x_end + 1 - x,
{
    if x > x_end {
    } else {
        let uu = span_uv(xl0, xr0, ul, ur, x);
        let vv = span_uv(xl0, xr0, vl, vr, x);
        lemma_uv_coord_in_range(uu, mode, src.width);
        lemma_uv_coord_in_range(vv, mode, src.height);
        lemma_row_major_in_range(
            src.width,
            src.height,
            crate::canvas::uv_to_coord(crate::canvas::uv_wrapped(uu, mode), src.width),
            crate::canvas::uv_to_coord(crate::canvas::uv_wrapped(vv, mode), src.height),
        );
        assert(alpha_of(spec_sample(src, uu, vv, mode)) == 0);
        assert(dst.with_pixels(dst.pixels) == dst);
        lemma_tex_span_transparent(dst, src, mode, y, xl0, xr0, ul, ur, vl, vr, x + 1, x_end);
    }
}

/// The scanlines of a textured flat-topped triangle change a destination
/// pixel only to a value with nonzero alpha.
pub proof fn lemma_tex_down_rows_opaque_only(
    dst: CanvasView,
    src: CanvasView,
    mode: UVWrapMode,
    tl_x: int,
    tl_y: int,
    tl_u: int,
    tl_v: int,
    tr_x: int,
    tr_y: int,
    tr_u: int,
    tr_v: int,
    bot_x: int,
    bot_y: int,
    bot_u: int,
    bot_v: int,
    y: int,
    y_end: int,
)
    requires
        dst.wf(),
        0 <= y,
        y_end < dst.height,
    ensures
        tex_down_rows(
            dst,
            src,
            mode,
            tl_x,
            tl_y,
            tl_u,
            tl_v,
            tr_x,
            tr_y,
            tr_u,
            tr_v,
            bot_x,
            bot_y,
            bot_u,
            bot_v,
            y,
            y_end,
        ).len() == dst.pixels.len(),
        forall|i: int|
            0 <= i < dst.pixels.len() ==> tex_down_rows(
                dst,
                src,
                mode,
                tl_x,
                tl_y,
                tl_u,
                tl_v,
                tr_x,
                tr_y,
                tr_u,
                tr_v,
                bot_x,
                bot_y,
                bot_u,
                bot_v,
                y,
                y_end,
            )[i] == dst.pixels[i] || alpha_of(
                tex_down_rows(
                    dst,
                    src,
                    mode,
                    tl_x,
                    tl_y,
                    tl_u,
                    tl_v,
                    tr_x,
                    tr_y,
                    tr_u,
                    tr_v,
                    bot_x,
                    bot_y,
                    bot_u,
                    bot_v,
                    y,
                    y_end,
                )[i],
            ) > 0,
    decreases y_end + 1 - y,
{
    if y > y_end {
    } else {
        let xl0 = interp_spec(tl_y, tl_x, bot_y, bot_x, y);
        let xr0 = interp_spec(tr_y, tr_x, bot_y, bot_x, y);
        let ul = interp_spec(tl_y, tl_u, bot_y, bot_u, y);
        let ur = interp_spec(tr_y, tr_u, bot_y, bot_u, y);
        let vl = interp_spec(tl_y, tl_v, bot_y, bot_v, y);
        let vr = interp_spec(tr_y, tr_v, bot_y, bot_v, y);
        let row = tex_span(
            dst,
            src,
            mode,
            y,
            xl0,
            xr0,
            ul,
            ur,
            vl,
            vr,
            imax(xl0, 0),
            imin(xr0, dst.width - 1),
        );
        lemma_tex_span_opaque_only(
            dst,
            src,
            mode,
            y,
            xl0,
            xr0,
            ul,
            ur,
            vl,
            vr,
            imax(xl0, 0),
            imin(xr0, dst.width - 1),
        );
        lemma_tex_down_rows_opaque_only(
            dst.with_pixels(row),
            src,
            mode,
            tl_x,
            tl_y,
            tl_u,
            tl_v,
            tr_x,
            tr_y,
            tr_u,
            tr_v,
            bot_x,
            bot_y,
            bot_u,
            bot_v,
            y + 1,
            y_end,
        );
    }
}

/// When every pixel of the source canvas is fully transparent, the textured
/// flat-topped scanlines leave the destination untouched.
pub proof fn lemma_tex_down_rows_transparent(
    dst: CanvasView,
    src: CanvasView,
    mode: UVWrapMode,
    tl_x: int,
    tl_y: int,
    tl_u: int,
    tl_v: int,
    tr_x: int,
    tr_y: int,
    tr_u: int,
    tr_v: int,
    bot_x: int,
    bot_y: int,
    bot_u: int,
    bot_v: int,
    y: int,
    y_end: int,
)
    requires
        src.wf(),
        src.width > 0,
        src.height > 0,
        forall|j: int| 0 <= j < src.pixels.len() ==> alpha_of(src.pixels[j]) == 0,
    ensures
        tex_down_rows(
            dst,
            src,
            mode,
            tl_x,
            tl_y,
            tl_u,
            tl_v,
            tr_x,
            tr_y,
            tr_u,
            tr_v,
            bot_x,
            bot_y,
            bot_u,
            bot_v,
            y,
            y_end,
        ) == dst.pixels,
    decreases y_end + 1 - y,
{
    if y > y_end {
    } else {
        let xl0 = interp_spec(tl_y, tl_x, bot_y, bot_x, y);
        let xr0 = interp_spec(tr_y, tr_x, bot_y, bot_x, y);
        let ul = interp_spec(tl_y, tl_u, bot_y, bot_u, y);
        let ur = interp_spec(tr_y, tr_u, bot_y, bot_u, y);
        let vl = interp_spec(tl_y, tl_v, bot_y, bot_v, y);
        let vr = interp_spec(tr_y, tr_v, bot_y, bot_v, y);
        lemma_tex_span_transparent(
            dst,
            src,
            mode,
            y,
            xl0,
            xr0,
            ul,
            ur,
            vl,
            vr,
            imax(xl0, 0),
            imin(xr0, dst.width - 1),
        );
        assert(dst.with_pixels(dst.pixels) == dst);
        lemma_tex_down_rows_transparent(
            dst,
            src,
            mode,
            tl_x,
            tl_y,
            tl_u,
            tl_v,
            tr_x,
            tr_y,
            tr_u,
            tr_v,
            bot_x,
            bot_y,
            bot_u,
            bot_v,
            y + 1,
            y_end,
        );
    }
}

/// The scanlines of a textured flat-bottomed triangle change a destination
/// pixel only to a value with nonzero alpha.
pub proof fn lemma_tex_up_rows_opaque_only(
    dst: CanvasView,
    src: CanvasView,
    mode: UVWrapMode,
    top_x: int,
    top_y: int,
    top_u: int,
    top_v: int,
    bl_x: int,
    bl_y: int,
    bl_u: int,
    bl_v: int,
    br_x: int,
    br_y: int,
    br_u: int,
    br_v: int,
    y: int,
    y_end: int,
)
    requires
        dst.wf(),
        0 <= y,
        y_end < dst.height,
    ensures
        tex_up_rows(
            dst,
            src,
            mode,
            top_x,
            top_y,
            top_u,
            top_v,
            bl_x,
            bl_y,
            bl_u,
            bl_v,
            br_x,
            br_y,
            br_u,
            br_v,
            y,
            y_end,
        ).len() == dst.pixels.len(),
        forall|i: int|
            0 <= i < dst.pixels.len() ==> tex_up_rows(
                dst,
                src,
                mode,
                top_x,
                top_y,
                top_u,
                top_v,
                bl_x,
                bl_y,
                bl_u,
                bl_v,
                br_x,
                br_y,
                br_u,
                br_v,
                y,
                y_end,
            )[i] == dst.pixels[i] || alpha_of(
                tex_up_rows(
                    dst,
                    src,
                    mode,
                    top_x,
                    top_y,
                    top_u,
                    top_v,
                    bl_x,
                    bl_y,
                    bl_u,
                    bl_v,
                    br_x,
                    br_y,
                    br_u,
                    br_v,
                    y,
                    y_end,
                )[i],
            ) > 0,
    decreases y_end + 1 - y,
{
    if y > y_end {
    } else {
        let xl0 = interp_spec(bl_y, bl_x, top_y, top_x, y);
        let xr0 = interp_spec(br_y, br_x, top_y, top_x, y);
        let ul = interp_spec(bl_y, bl_u, top_y, top_u, y);
        let ur = interp_spec(br_y, br_u, top_y, top_u, y);
        let vl = interp_spec(bl_y, bl_v, top_y, top_v, y);
        let vr = interp_spec(br_y, br_v, top_y, top_v, y);
        let row = tex_span(
            dst,
            src,
            mode,
            y,
            xl0,
            xr0,
            ul,
            ur,
            vl,
            vr,
            imax(xl0, 0),
            imin(xr0, dst.width - 1),
        );
        lemma_tex_span_opaque_only(
            dst,
            src,
            mode,
            y,
            xl0,
            xr0,
            ul,
            ur,
            vl,
            vr,
            imax(xl0, 0),
            imin(xr0, dst.width - 1),
        );
        lemma_tex_up_rows_opaque_only(
            dst.with_pixels(row),
            src,
            mode,
            top_x,
            top_y,
            top_u,
            top_v,
            bl_x,
            bl_y,
            bl_u,
            bl_v,
            br_x,
            br_y,
            br_u,
            br_v,
            y + 1,
            y_end,
        );
    }
}

/// When every pixel of the source canvas is fully transparent, the textured
/// flat-bottomed scanlines leave the destination untouched.
pub proof fn lemma_tex_up_rows_transparent(
    dst: CanvasView,
    src: CanvasView,
    mode: UVWrapMode,
    top_x: int,
    top_y: int,
    top_u: int,
    top_v: int,
    bl_x: int,
    bl_y: int,
    bl_u: int,
    bl_v: int,
    br_x: int,
    br_y: int,
    br_u: int,
    br_v: int,
    y: int,
    y_end: int,
)
    requires
        src.wf(),
        src.width > 0,
        src.height > 0,
        forall|j: int| 0 <= j < src.pixels.len() ==> alpha_of(src.pixels[j]) == 0,
    ensures
        tex_up_rows(
            dst,
            src,
            mode,
            top_x,
            top_y,
            top_u,
            top_v,
            bl_x,
            bl_y,
            bl_u,
            bl_v,
            br_x,
            br_y,
            br_u,
            br_v,
            y,
            y_end,
        ) == dst.pixels,
    decreases y_end + 1 - y,
{
    if y > y_end {
    } else {
        let xl0 = interp_spec(bl_y, bl_x, top_y, top_x, y);
        let xr0 = interp_spec(br_y, br_x, top_y, top_x, y);
        let ul = interp_spec(bl_y, bl_u, top_y, top_u, y);
        let ur = interp_spec(br_y, br_u, top_y, top_u, y);
        let vl = interp_spec(bl_y, bl_v, top_y, top_v, y);
        let vr = interp_spec(br_y, br_v, top_y, top_v, y);
        lemma_tex_span_transparent(
            dst,
            src,
            mode,
            y,
            xl0,
            xr0,
            ul,
            ur,
            vl,
            vr,
            imax(xl0, 0),
            imin(xr0, dst.width - 1),
        );
        assert(dst.with_pixels(dst.pixels) == dst);
        lemma_tex_up_rows_transparent(
            dst,
            src,
            mode,
            top_x,
            top_y,
            top_u,
            top_v,
            bl_x,
            bl_y,
            bl_u,
            bl_v,
            br_x,
            br_y,
            br_u,
            br_v,
            y + 1,
            y_end,
        );
    }
}

} // verus!




