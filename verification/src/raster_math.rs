//! Integer arithmetic underlying the rasterizer: row-major pixel addressing,
//! the truncating division of the executable integer types, and the linear
//! interpolation used by the scanline algorithms.

use vstd::arithmetic::div_mod::lemma_div_nonincreasing;
use vstd::arithmetic::div_mod::lemma_div_pos_is_pos;
use vstd::arithmetic::div_mod::lemma_fundamental_div_mod;
use vstd::arithmetic::div_mod::lemma_fundamental_div_mod_converse;
use vstd::arithmetic::div_mod::lemma_multiply_divide_le;
use vstd::prelude::*;

verus! {

/// The smaller of two integers.
pub open spec fn imin(a: int, b: int) -> int {
    if a < b {
        a
    } else {
        b
    }
}

/// The larger of two integers.
pub open spec fn imax(a: int, b: int) -> int {
    if a < b {
        b
    } else {
        a
    }
}

/// Division rounding towards zero, the rounding that `/` performs on the
/// executable signed integer types.
pub open spec fn trunc_div(a: int, b: int) -> int
    recommends
        b != 0,
{
    if a >= 0 {
        if b >= 0 {
            a / b
        } else {
            -(a / -b)
        }
    } else {
        if b >= 0 {
            -((-a) / b)
        } else {
            (-a) / (-b)
        }
    }
}

/// For a positive divisor, the truncated quotient lies between 0 and the
/// exact quotient's integer neighbours nearest zero; in particular its
/// magnitude never exceeds any bound `m` with `|a| <= b * m`.
pub proof fn lemma_trunc_div_bounds(a: int, b: int, m: int)
    requires
        b > 0,
        0 <= m,
        -(b * m) <= a <= b * m,
    ensures
        -m <= trunc_div(a, b) <= m,
        a >= 0 ==> trunc_div(a, b) >= 0,
        a <= 0 ==> trunc_div(a, b) <= 0,
{
    if a >= 0 {
        lemma_div_pos_is_pos(a, b);
        lemma_div_nonincreasing(a, b);
        lemma_multiply_divide_le(a, b, m);
    } else {
        lemma_div_pos_is_pos(-a, b);
        lemma_multiply_divide_le(-a, b, m);
    }
}

/// Division truncating towards zero on 128-bit operands, with a positive
/// divisor.  This is the exact arithmetic the scanline interpolators use.
pub fn div_trunc(a: i128, b: i128) -> (q: i128)
    requires
        b > 0,
    ensures
        q == trunc_div(a as int, b as int),
{
    proof {
        if a >= 0 {
            lemma_div_pos_is_pos(a as int, b as int);
            lemma_div_nonincreasing(a as int, b as int);
        } else {
            lemma_div_pos_is_pos(-(a as int), b as int);
            lemma_div_nonincreasing(-(a as int), b as int);
        }
    }
    match a.checked_div(b) {
        Some(q) => q,
        None => 0,
    }
}

/// Linear interpolation with truncating division: the value at `p` on the
/// segment from `(a_pos, a_val)` to `(t_pos, t_val)`.
pub open spec fn interp_spec(a_pos: int, a_val: int, t_pos: int, t_val: int, p: int) -> int {
    a_val + trunc_div((p - a_pos) * (t_val - a_val), t_pos - a_pos)
}

/// Interpolating at a point between the two endpoint positions yields a value
/// between the two endpoint values.
pub proof fn lemma_interp_in_range(a_pos: int, a_val: int, t_pos: int, t_val: int, p: int)
    requires
        a_pos != t_pos,
        imin(a_pos, t_pos) <= p <= imax(a_pos, t_pos),
    ensures
        imin(a_val, t_val) <= interp_spec(a_pos, a_val, t_pos, t_val, p) <= imax(a_val, t_val),
{
    let num = (p - a_pos) * (t_val - a_val);
    let den = t_pos - a_pos;
    let m = if t_val >= a_val {
        t_val - a_val
    } else {
        a_val - t_val
    };
    assert(trunc_div(num, den) == trunc_div(-num, -den));
    if den > 0 {
        assert(-(den * m) <= num <= den * m && (t_val >= a_val ==> num >= 0) && (t_val <= a_val
            ==> num <= 0)) by (nonlinear_arith)
            requires
                0 <= p - a_pos <= den,
                m == if t_val >= a_val { t_val - a_val } else { a_val - t_val },
                num == (p - a_pos) * (t_val - a_val),
        ;
        lemma_trunc_div_bounds(num, den, m);
    } else {
        assert(-((-den) * m) <= -num <= (-den) * m && (t_val >= a_val ==> -num >= 0) && (t_val
            <= a_val ==> -num <= 0)) by (nonlinear_arith)
            requires
                den <= p - a_pos <= 0,
                den < 0,
                m == if t_val >= a_val { t_val - a_val } else { a_val - t_val },
                num == (p - a_pos) * (t_val - a_val),
        ;
        lemma_trunc_div_bounds(-num, -den, m);
    }
}

/// Executable linear interpolation between `(a_pos, a_val)` and
/// `(t_pos, t_val)`, evaluated at a position `p` lying between the two.
pub fn interp(a_pos: i64, a_val: i64, t_pos: i64, t_val: i64, p: i64) -> (v: i64)
    requires
        a_pos != t_pos,
        imin(a_pos as int, t_pos as int) <= p as int <= imax(a_pos as int, t_pos as int),
        -0x4000_0000_0000_0000 <= a_pos <= 0x4000_0000_0000_0000,
        -0x4000_0000_0000_0000 <= t_pos <= 0x4000_0000_0000_0000,
        -0x4000_0000_0000_0000 <= a_val <= 0x4000_0000_0000_0000,
        -0x4000_0000_0000_0000 <= t_val <= 0x4000_0000_0000_0000,
    ensures
        v == interp_spec(a_pos as int, a_val as int, t_pos as int, t_val as int, p as int),
        imin(a_val as int, t_val as int) <= v as int <= imax(a_val as int, t_val as int),
{
    proof {
        lemma_interp_in_range(a_pos as int, a_val as int, t_pos as int, t_val as int, p as int);
        assert((p as int - a_pos as int) * (t_val as int - a_val as int) <= 0x8000_0000_0000_0000
            * 0x8000_0000_0000_0000 && (p as int - a_pos as int) * (t_val as int - a_val as int)
            >= -(0x8000_0000_0000_0000 * 0x8000_0000_0000_0000)) by (nonlinear_arith)
            requires
                -0x8000_0000_0000_0000 <= p as int - a_pos as int <= 0x8000_0000_0000_0000,
                -0x8000_0000_0000_0000 <= t_val as int - a_val as int <= 0x8000_0000_0000_0000,
        ;
    }
    let num: i128 = (p as i128 - a_pos as i128) * (t_val as i128 - a_val as i128);
    let den: i128 = t_pos as i128 - a_pos as i128;
    if den > 0 {
        let q = div_trunc(num, den);
        (a_val as i128 + q) as i64
    } else {
        let q = div_trunc(-num, -den);
        proof {
            assert(trunc_div(-(num as int), -(den as int)) == trunc_div(num as int, den as int));
        }
        (a_val as i128 + q) as i64
    }
}

/// A pixel inside the canvas has a row-major index inside the buffer.
pub proof fn lemma_row_major_in_range(w: int, h: int, x: int, y: int)
    requires
        0 <= x < w,
        0 <= y < h,
    ensures
        0 <= y * w + x < w * h,
    decreases h,
{
    assert(0 <= y * w + x < w * h) by (nonlinear_arith)
        requires
            0 <= x < w,
            0 <= y < h,
    ;
}

/// Row and column can be recovered from a row-major index.
pub proof fn lemma_row_major_unflatten(w: int, x: int, y: int)
    requires
        0 <= x < w,
        0 <= y,
    ensures
        (y * w + x) / w == y,
        (y * w + x) % w == x,
{
    lemma_fundamental_div_mod_converse(y * w + x, w, y, x);
}

/// A buffer index lies in the flat range of one row's span exactly when its
/// row is that row and its column lies in the span.
pub proof fn lemma_flat_range_row(w: int, y: int, lo: int, hi: int, i: int)
    requires
        0 <= lo <= hi < w,
        0 <= y,
    ensures
        (y * w + lo <= i <= y * w + hi) <==> (i / w == y && lo <= i % w <= hi),
{
    vstd::arithmetic::mul::lemma_mul_is_commutative(w, y);
    if y * w + lo <= i <= y * w + hi {
        lemma_fundamental_div_mod_converse(i, w, y, i - y * w);
    }
    if i / w == y && lo <= i % w <= hi {
        lemma_fundamental_div_mod(i, w);
    }
}

/// Two distinct in-bounds pixels have distinct row-major indices.
pub proof fn lemma_row_major_injective(w: int, x1: int, y1: int, x2: int, y2: int)
    requires
        0 <= x1 < w,
        0 <= x2 < w,
        0 <= y1,
        0 <= y2,
    ensures
        (y1 * w + x1 == y2 * w + x2) <==> (x1 == x2 && y1 == y2),
{
    lemma_row_major_unflatten(w, x1, y1);
    lemma_row_major_unflatten(w, x2, y2);
}

} // verus!
