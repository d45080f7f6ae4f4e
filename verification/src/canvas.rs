//! The canvas: a fixed-size buffer of packed 32-bit ARGB pixels stored in
//! row-major order, with bulk operations (clear, bulk load, canvas-to-canvas
//! compositing) and the nearest-pixel UV sampling read path used by textured
//! rasterization.

use crate::raster_math::imax;
use crate::raster_math::imin;
use crate::raster_math::lemma_row_major_in_range;
use crate::raster_math::lemma_row_major_injective;
use crate::types::alpha_of;
use crate::types::ARGBColour;
use crate::types::UVWrapMode;
use crate::types::UV_ONE;
use vstd::arithmetic::div_mod::lemma_div_pos_is_pos;
use vstd::arithmetic::div_mod::lemma_multiply_divide_lt;
use vstd::prelude::*;

verus! {

/// The mathematical content of a [`Canvas`]: its dimensions and the sequence
/// of packed pixels, row-major, with index `y * width + x`.
pub struct CanvasView {
    pub width: int,
    pub height: int,
    pub pixels: Seq<u32>,
}

impl CanvasView {
    /// The buffer holds exactly `width * height` pixels, and both dimensions
    /// are small enough that row-major indices and signed co-ordinate
    /// arithmetic stay within the machine integer types.
    pub open spec fn wf(self) -> bool {
        &&& self.pixels.len() == self.width * self.height
        &&& self.pixels.len() <= usize::MAX
        &&& 0 <= self.width <= 0x7fff_ffff
        &&& 0 <= self.height <= 0x7fff_ffff
    }

    /// Whether `(x, y)` lies on the canvas.
    pub open spec fn in_bounds(self, x: int, y: int) -> bool {
        0 <= x < self.width && 0 <= y < self.height
    }

    /// The pixel at `(x, y)`.
    pub open spec fn pixel(self, x: int, y: int) -> u32 {
        self.pixels[y * self.width + x]
    }

    /// The same canvas dimensions with the pixel sequence replaced.
    pub open spec fn with_pixels(self, p: Seq<u32>) -> CanvasView {
        CanvasView { width: self.width, height: self.height, pixels: p }
    }
}

/// A single buffer of 32-bit ARGB pixels with a fixed width and height.
pub struct Canvas {
    width: usize,
    height: usize,
    buffer: Vec<u32>,
}

impl View for Canvas {
    type V = CanvasView;

    closed spec fn view(&self) -> CanvasView {
        CanvasView {
            width: self.width as int,
            height: self.height as int,
            pixels: self.buffer@,
        }
    }
}

/// Maps a fixed-point UV co-ordinate into `[0, UV_ONE]` according to the
/// wrapping mode: clamping saturates at the edges, wrapping is periodic.
pub open spec fn uv_wrapped(u: int, mode: UVWrapMode) -> int {
    match mode {
        UVWrapMode::Clamp => imin(imax(u, 0), UV_ONE as int),
        UVWrapMode::Wrap => u % (UV_ONE as int),
    }
}

/// Maps a wrapped UV co-ordinate in `[0, UV_ONE]` to the nearest pixel
/// co-ordinate along an axis with `extent` pixels.
pub open spec fn uv_to_coord(u: int, extent: int) -> int {
    (u * (extent - 1) + (UV_ONE as int) / 2) / (UV_ONE as int)
}

/// The buffer after clearing a canvas to one colour: every pixel holds the
/// packed colour, whatever the canvas held before.
pub open spec fn cleared_seq(v: CanvasView, col: u32) -> Seq<u32> {
    Seq::new(v.pixels.len(), |i: int| col)
}

/// The pixel value that sampling a canvas at fixed-point `(u, v)` returns.
pub open spec fn spec_sample(v: CanvasView, u: int, vv: int, mode: UVWrapMode) -> u32 {
    v.pixel(uv_to_coord(uv_wrapped(u, mode), v.width), uv_to_coord(uv_wrapped(vv, mode), v.height))
}

/// The sampled pixel co-ordinate along one axis is always on the canvas.
pub proof fn lemma_uv_coord_in_range(u: int, mode: UVWrapMode, extent: int)
    requires
        extent >= 1,
    ensures
        0 <= uv_to_coord(uv_wrapped(u, mode), extent) < extent,
{
    let s = UV_ONE as int;
    let w = uv_wrapped(u, mode);
    if mode is Wrap {
        vstd::arithmetic::div_mod::lemma_mod_bound(u, s);
    }
    assert(0 <= w <= s);
    let num = w * (extent - 1) + 32768;
    assert(s / 2 == 32768);
    assert(0 <= num && num < s * extent) by (nonlinear_arith)
        requires
            0 <= w <= 65536,
            extent >= 1,
            s == 65536,
            num == w * (extent - 1) + 32768,
    ;
    lemma_div_pos_is_pos(num, s);
    lemma_multiply_divide_lt(num, s, extent);
}

impl Canvas {
    /// The canvas's buffer matches its dimensions.
    pub open spec fn wf(&self) -> bool {
        self@.wf()
    }

    /// Create a new Canvas with a specified width and height in pixels.
    /// Every pixel starts as zero: fully transparent black.
    ///
    /// The bounds on the dimensions keep every row-major index and every
    /// signed co-ordinate computation representable in the machine integers.
    pub fn new(width: usize, height: usize) -> (c: Self)
        requires
            width <= 0x7fff_ffff,
            height <= 0x7fff_ffff,
            width * height <= usize::MAX,
        ensures
            c.wf(),
            c@.width == width as int,
            c@.height == height as int,
            c@.pixels.len() == width * height,
            forall|i: int| 0 <= i < c@.pixels.len() ==> c@.pixels[i] == 0u32,
    {
        let n = width * height;
        let mut buffer: Vec<u32> = Vec::new();
        let mut i: usize = 0;
        while i < n
            invariant
                i <= n,
                buffer@.len() == i as int,
                forall|j: int| 0 <= j < i as int ==> buffer@[j] == 0u32,
            decreases n - i,
        {
            buffer.push(0);
            i += 1;
        }
        Self { width, height, buffer }
    }

    /// Returns the index into the pixel buffer for a pixel given its x and y
    /// co-ordinates: `y * width + x`.
    pub fn buffer_index(&self, x: usize, y: usize) -> (idx: usize)
        requires
            self.wf(),
            x < self@.width,
            y < self@.height,
        ensures
            idx == y * self@.width + x,
            idx < self@.pixels.len(),
    {
        proof {
            lemma_row_major_in_range(self@.width, self@.height, x as int, y as int);
        }
        (y * self.width) + x
    }

    /// Returns the Canvas's height in pixels.
    pub fn height(&self) -> (h: usize)
        ensures
            h as int == self@.height,
    {
        self.height
    }

    /// Returns the Canvas's width in pixels.
    pub fn width(&self) -> (w: usize)
        ensures
            w as int == self@.width,
    {
        self.width
    }

    /// Returns an immutable reference to the pixel buffer for direct
    /// read-only pixel access.
    pub fn buffer(&self) -> (b: &Vec<u32>)
        ensures
            b@ == self@.pixels,
    {
        &self.buffer
    }

    /// Reads the pixel at `(x, y)`.
    pub fn pixel(&self, x: usize, y: usize) -> (px: u32)
        requires
            self.wf(),
            x < self@.width,
            y < self@.height,
        ensures
            px == self@.pixel(x as int, y as int),
    {
        let idx = self.buffer_index(x, y);
        self.buffer[idx]
    }

    /// Overwrites the pixel at `(x, y)`.
    pub fn set_pixel(&mut self, x: usize, y: usize, px: u32)
        requires
            old(self).wf(),
            x < old(self)@.width,
            y < old(self)@.height,
        ensures
            final(self).wf(),
            final(self)@.width == old(self)@.width,
            final(self)@.height == old(self)@.height,
            final(self)@.pixels == old(self)@.pixels.update(
                y as int * old(self)@.width + x as int,
                px,
            ),
    {
        let idx = self.buffer_index(x, y);
        self.buffer.set(idx, px);
    }

    /// Clears the entire Canvas to a specified colour: afterwards every pixel
    /// holds exactly the packed encoding of `colour`, whatever the canvas
    /// held before.
    pub fn clear(&mut self, colour: &ARGBColour)
        requires
            old(self).wf(),
        ensures
            final(self).wf(),
            final(self)@.width == old(self)@.width,
            final(self)@.height == old(self)@.height,
            final(self)@.pixels == cleared_seq(old(self)@, colour.spec_packed()),
            forall|x: int, y: int|
                final(self)@.in_bounds(x, y) ==> final(self)@.pixel(x, y) == colour.spec_packed(),
    {
        let px = colour.packed();
        let n = self.buffer.len();
        let mut i: usize = 0;
        while i < n
            invariant
                i <= n,
                self.wf(),
                n as int == self@.pixels.len(),
                self@.width == old(self)@.width,
                self@.height == old(self)@.height,
                px == colour.spec_packed(),
                forall|j: int| 0 <= j < i as int ==> self@.pixels[j] == px,
                forall|j: int| i as int <= j < n as int ==> self@.pixels[j] == old(self)@.pixels[j],
            decreases n - i,
        {
            self.buffer.set(i, px);
            i += 1;
        }
        assert(self@.pixels =~= cleared_seq(old(self)@, colour.spec_packed()));
        proof {
            let v = self@;
            assert forall|x: int, y: int| v.in_bounds(x, y) implies v.pixel(x, y)
                == colour.spec_packed() by {
                lemma_row_major_in_range(v.width, v.height, x, y);
            }
        }
    }

    /// Copies a source pixel vector into the Canvas buffer.
    ///
    /// Succeeds exactly when `src` holds `width * height` pixels; on a length
    /// mismatch the canvas is left completely unmodified and the call
    /// reports failure.
    pub fn load_pixels(&mut self, src: Vec<u32>) -> (ok: bool)
        requires
            old(self).wf(),
        ensures
            final(self).wf(),
            final(self)@.width == old(self)@.width,
            final(self)@.height == old(self)@.height,
            ok == (src@.len() == old(self)@.width * old(self)@.height),
            ok ==> final(self)@.pixels == src@,
            !ok ==> final(self)@ == old(self)@,
    {
        if src.len() != self.buffer.len() {
            return false;
        }
        self.buffer = src;
        true
    }

    /// Samples the canvas at a fixed-point `(u, v)` co-ordinate and returns
    /// the nearest pixel value.
    ///
    /// `u` and `v` are scaled by [`UV_ONE`]; values outside `[0, UV_ONE]`
    /// are first mapped back into range by the wrapping mode, then scaled to
    /// the pixel grid and rounded to the nearest pixel.
    pub fn sample(&self, u: i64, v: i64, mode: UVWrapMode) -> (px: u32)
        requires
            self.wf(),
            self@.width > 0,
            self@.height > 0,
        ensures
            px == spec_sample(self@, u as int, v as int, mode),
    {
        let x = uv_axis(u, self.width, mode);
        let y = uv_axis(v, self.height, mode);
        proof {
            lemma_uv_coord_in_range(u as int, mode, self@.width);
            lemma_uv_coord_in_range(v as int, mode, self@.height);
        }
        self.pixel(x, y)
    }

    /// Composites `src_canv` onto `self` with its top-left corner at
    /// `(x, y)`, clipped to `self`'s bounds.  A source pixel overwrites the
    /// destination pixel under it only if its alpha channel is nonzero; all
    /// other destination pixels are unchanged.
    pub fn draw_canvas(&mut self, src_canv: &Canvas, x: usize, y: usize)
        requires
            old(self).wf(),
            src_canv.wf(),
        ensures
            final(self).wf(),
            final(self)@.width == old(self)@.width,
            final(self)@.height == old(self)@.height,
            forall|px: int, py: int|
                old(self)@.in_bounds(px, py) ==> final(self)@.pixel(px, py) == (if x as int <= px
                    < x as int + src_canv@.width && y as int <= py < y as int + src_canv@.height
                    && alpha_of(src_canv@.pixel(px - x as int, py - y as int)) > 0 {
                    src_canv@.pixel(px - x as int, py - y as int)
                } else {
                    old(self)@.pixel(px, py)
                }),
    {
        let w = self.width;
        let h = self.height;
        let sw = src_canv.width();
        let sh = src_canv.height();
        if x >= w || y >= h || sw == 0 || sh == 0 {
            return ;
        }
        let max_x: usize = if sw - 1 >= w - 1 - x {
            w - 1
        } else {
            x + (sw - 1)
        };
        let max_y: usize = if sh - 1 >= h - 1 - y {
            h - 1
        } else {
            y + (sh - 1)
        };
        let ghost v0 = self@;
        let mut py: usize = y;
        while py <= max_y
            invariant
                self.wf(),
                self@.width == v0.width,
                self@.height == v0.height,
                v0.wf(),
                src_canv.wf(),
                x < v0.width,
                y as int <= py as int <= max_y + 1,
                max_x as int == imin(x as int + src_canv@.width - 1, v0.width - 1),
                max_y as int == imin(y as int + src_canv@.height - 1, v0.height - 1),
                forall|qx: int, qy: int|
                    v0.in_bounds(qx, qy) ==> self@.pixel(qx, qy) == (if x as int <= qx <= max_x
                        && y as int <= qy < py as int && alpha_of(
                        src_canv@.pixel(qx - x as int, qy - y as int),
                    ) > 0 {
                        src_canv@.pixel(qx - x as int, qy - y as int)
                    } else {
                        v0.pixel(qx, qy)
                    }),
            decreases max_y + 1 - py,
        {
            let mut px: usize = x;
            while px <= max_x
                invariant
                    self.wf(),
                    self@.width == v0.width,
                    self@.height == v0.height,
                    v0.wf(),
                    src_canv.wf(),
                    x as int <= px as int <= max_x + 1,
                    y as int <= py as int <= max_y as int,
                    max_x as int == imin(x as int + src_canv@.width - 1, v0.width - 1),
                    max_y as int == imin(y as int + src_canv@.height - 1, v0.height - 1),
                    forall|qx: int, qy: int|
                        v0.in_bounds(qx, qy) ==> self@.pixel(qx, qy) == (if (x as int <= qx
                            <= max_x && y as int <= qy < py as int && alpha_of(
                            src_canv@.pixel(qx - x as int, qy - y as int),
                        ) > 0) || (qy == py as int && x as int <= qx < px as int && alpha_of(
                            src_canv@.pixel(qx - x as int, qy - y as int),
                        ) > 0) {
                            src_canv@.pixel(qx - x as int, qy - y as int)
                        } else {
                            v0.pixel(qx, qy)
                        }),
                decreases max_x + 1 - px,
            {
                let sp = src_canv.pixel(px - x, py - y);
                if crate::types::alpha_nonzero(sp) {
                    self.set_pixel(px, py, sp);
                    proof {
                        assert forall|qx: int, qy: int| v0.in_bounds(qx, qy) implies self@.pixel(
                            qx,
                            qy,
                        ) == (if (x as int <= qx <= max_x && y as int <= qy < py as int
                            && alpha_of(src_canv@.pixel(qx - x as int, qy - y as int)) > 0) || (qy
                            == py as int && x as int <= qx < px as int + 1 && alpha_of(
                            src_canv@.pixel(qx - x as int, qy - y as int),
                        ) > 0) {
                            src_canv@.pixel(qx - x as int, qy - y as int)
                        } else {
                            v0.pixel(qx, qy)
                        }) by {
                            lemma_row_major_in_range(v0.width, v0.height, qx, qy);
                            lemma_row_major_in_range(v0.width, v0.height, px as int, py as int);
                            lemma_row_major_injective(v0.width, qx, qy, px as int, py as int);
                        }
                    }
                } else {
                    proof {
                        assert forall|qx: int, qy: int| v0.in_bounds(qx, qy) implies self@.pixel(
                            qx,
                            qy,
                        ) == (if (x as int <= qx <= max_x && y as int <= qy < py as int
                            && alpha_of(src_canv@.pixel(qx - x as int, qy - y as int)) > 0) || (qy
                            == py as int && x as int <= qx < px as int + 1 && alpha_of(
                            src_canv@.pixel(qx - x as int, qy - y as int),
                        ) > 0) {
                            src_canv@.pixel(qx - x as int, qy - y as int)
                        } else {
                            v0.pixel(qx, qy)
                        }) by {
                            lemma_row_major_in_range(v0.width, v0.height, qx, qy);
                            lemma_row_major_in_range(v0.width, v0.height, px as int, py as int);
                            lemma_row_major_injective(v0.width, qx, qy, px as int, py as int);
                        }
                    }
                }
                px += 1;
            }
            py += 1;
        }
    }
}

/// Maps one fixed-point UV axis co-ordinate to a pixel co-ordinate on an
/// axis with `extent` pixels, applying the wrapping mode first.
fn uv_axis(u: i64, extent: usize, mode: UVWrapMode) -> (c: usize)
    requires
        1 <= extent <= 0x7fff_ffff,
    ensures
        c as int == uv_to_coord(uv_wrapped(u as int, mode), extent as int),
{
    let wrapped: i64 = match mode {
        UVWrapMode::Clamp => {
            if u < 0 {
                0
            } else if u > UV_ONE {
                UV_ONE
            } else {
                u
            }
        },
        UVWrapMode::Wrap => {
            proof {
                vstd::arithmetic::div_mod::lemma_mod_bound(u as int, UV_ONE as int);
            }
            match u.checked_rem_euclid(UV_ONE) {
                Some(r) => r,
                None => 0,
            }
        },
    };
    assert(0 <= wrapped as int <= UV_ONE as int);
    let k: i64 = extent as i64 - 1;
    assert(0 <= wrapped as int * (k as int) <= 65536 * 0x7fff_ffff) by (nonlinear_arith)
        requires
            0 <= wrapped as int <= 65536,
            0 <= k as int <= 0x7fff_ffff,
    ;
    let num: i64 = wrapped * k + 32768;
    proof {
        lemma_uv_coord_in_range(u as int, mode, extent as int);
    }
    match num.checked_div_euclid(UV_ONE) {
        Some(q) => q as usize,
        None => 0,
    }
}


/// Clamp-mode sampling saturates: any u beyond the right texture edge
/// samples the same pixel as u exactly at the edge, and any u left of 0
/// samples the same pixel as 0.  The same holds for v by symmetry of the
/// two axes.
pub proof fn lemma_sample_clamp_saturates(v: CanvasView, u: int, vv: int)
    ensures
        u > UV_ONE as int ==> spec_sample(v, u, vv, UVWrapMode::Clamp) == spec_sample(
            v,
            UV_ONE as int,
            vv,
            UVWrapMode::Clamp,
        ),
        u < 0 ==> spec_sample(v, u, vv, UVWrapMode::Clamp) == spec_sample(
            v,
            0,
            vv,
            UVWrapMode::Clamp,
        ),
{
}

/// Wrap-mode sampling is periodic: shifting u by a whole texture width
/// samples the same pixel.
pub proof fn lemma_sample_wrap_periodic(v: CanvasView, u: int, vv: int)
    ensures
        spec_sample(v, u + UV_ONE as int, vv, UVWrapMode::Wrap) == spec_sample(
            v,
            u,
            vv,
            UVWrapMode::Wrap,
        ),
{
    vstd::arithmetic::div_mod::lemma_mod_add_multiples_vanish(u, UV_ONE as int);
}

/// Clearing is idempotent: a second clear with the same colour leaves the
/// buffer exactly as the first left it, whatever the canvas held at the
/// start.
pub proof fn lemma_clear_idempotent(v: CanvasView, col: u32)
    ensures
        cleared_seq(v.with_pixels(cleared_seq(v, col)), col) == cleared_seq(v, col),
{
    assert(cleared_seq(v.with_pixels(cleared_seq(v, col)), col) =~= cleared_seq(v, col));
}

} // verus!

