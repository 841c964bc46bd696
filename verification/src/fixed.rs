//! Fixed-point scalar arithmetic: the number type of the renderer.
//!
//! A scalar is an `i64` holding a real value scaled by `FX_ONE` (16 fractional
//! bits).  Every operation clips its result into `[-FX_LIMIT, FX_LIMIT]`, so
//! all operations are total; division by zero yields zero by convention, and
//! the square root of a negative scalar yields zero.

use vstd::prelude::*;
use vstd::arithmetic::div_mod::{
    lemma_div_by_multiple, lemma_div_is_ordered, lemma_div_pos_is_pos, lemma_fundamental_div_mod,
    lemma_mod_bound,
};

verus! {

/// Scale factor of the fixed-point scalars: 2^16, the representation of 1.0.
pub const FX_ONE: i64 = 65536;
/// Representation of 2.0.
pub const FX_TWO: i64 = 131072;
/// Representation of 0.5.
pub const FX_HALF: i64 = 32768;
/// Largest magnitude a scalar may take (2^62); every operation clips its
/// result into `[-FX_LIMIT, FX_LIMIT]`.
pub const FX_LIMIT: i64 = 4611686018427387904;

/// Magnitude of an integer.
pub open spec fn abs_i(x: int) -> int {
    if x >= 0 { x } else { -x }
}

/// Division truncated toward zero, for a nonzero divisor.
pub open spec fn tdiv(x: int, d: int) -> int {
    if (x >= 0) == (d >= 0) {
        abs_i(x) / abs_i(d)
    } else {
        -(abs_i(x) / abs_i(d))
    }
}

/// Clip an integer into the scalar range `[-FX_LIMIT, FX_LIMIT]`.
pub open spec fn clip(x: int) -> int {
    if x > FX_LIMIT as int {
        FX_LIMIT as int
    } else if x < -(FX_LIMIT as int) {
        -(FX_LIMIT as int)
    } else {
        x
    }
}

/// Scalar addition.
pub open spec fn fx_add(a: int, b: int) -> int {
    clip(a + b)
}

/// Scalar subtraction.
pub open spec fn fx_sub(a: int, b: int) -> int {
    clip(a - b)
}

/// Scalar negation.
pub open spec fn fx_neg(a: int) -> int {
    clip(-a)
}

/// Scalar multiplication: the double-width product, rescaled with truncation.
pub open spec fn fx_mul(a: int, b: int) -> int {
    clip(tdiv(a * b, FX_ONE as int))
}

/// Scalar division; a zero divisor yields zero.
pub open spec fn fx_div(a: int, b: int) -> int {
    if b == 0 {
        0
    } else {
        clip(tdiv(a * (FX_ONE as int), b))
    }
}

/// Clamp a scalar into the color range `[0, FX_ONE]`.
pub open spec fn clamp01(x: int) -> int {
    if x < 0 {
        0
    } else if x > FX_ONE as int {
        FX_ONE as int
    } else {
        x
    }
}

/// `r` is the integer square root (floor) of `v`.
pub open spec fn is_sqrt_floor(v: int, r: int) -> bool {
    0 <= r && r * r <= v && v < (r + 1) * (r + 1)
}

/// The integer square root (floor) of `v`, for `v >= 0`.
pub open spec fn sqrt_floor(v: int) -> int {
    choose|r: int| is_sqrt_floor(v, r)
}

/// Scalar square root; nonpositive scalars yield zero.
pub open spec fn fx_sqrt(a: int) -> int {
    if a <= 0 {
        0
    } else {
        sqrt_floor(a * (FX_ONE as int))
    }
}

/// The integer square root is unique, so a witness pins `sqrt_floor` down.
pub proof fn lemma_sqrt_floor_unique(v: int, r: int)
    requires
        is_sqrt_floor(v, r),
    ensures
        sqrt_floor(v) == r,
{
    assert(exists|q: int| is_sqrt_floor(v, q));
    let s = sqrt_floor(v);
    assert(is_sqrt_floor(v, s));
    if s < r {
        assert(false) by (nonlinear_arith)
            requires
                0 <= s,
                0 <= r,
                s < r,
                s * s <= v,
                v < (s + 1) * (s + 1),
                r * r <= v,
        {
        }
    } else if r < s {
        assert(false) by (nonlinear_arith)
            requires
                0 <= s,
                0 <= r,
                r < s,
                r * r <= v,
                v < (r + 1) * (r + 1),
                s * s <= v,
        {
        }
    }
}

/// Rescaling by truncated division loses less than one scale unit, and never
/// grows the magnitude.
pub proof fn lemma_tdiv16(x: int)
    ensures
        abs_i(x - 65536 * tdiv(x, 65536)) < 65536,
        abs_i(tdiv(x, 65536)) * 65536 <= abs_i(x),
{
    if x >= 0 {
        lemma_fundamental_div_mod(x, 65536);
        lemma_mod_bound(x, 65536);
        lemma_div_pos_is_pos(x, 65536);
    } else {
        lemma_fundamental_div_mod(-x, 65536);
        lemma_mod_bound(-x, 65536);
        lemma_div_pos_is_pos(-x, 65536);
    }
}

/// Truncated division decomposes its argument with a remainder smaller than
/// the divisor, never grows the magnitude, and keeps nonnegative arguments
/// nonnegative.
pub proof fn lemma_tdiv_rem(x: int, d: int)
    requires
        d > 0,
    ensures
        abs_i(x - d * tdiv(x, d)) < d,
        abs_i(tdiv(x, d)) * d <= abs_i(x),
        x >= 0 ==> tdiv(x, d) >= 0 && x - d * tdiv(x, d) >= 0,
{
    if x >= 0 {
        lemma_fundamental_div_mod(x, d);
        lemma_mod_bound(x, d);
        lemma_div_pos_is_pos(x, d);
        assert(tdiv(x, d) == x / d);
        assert(x - d * tdiv(x, d) == x % d);
        let q = x / d;
        let r = x % d;
        assert(q * d == x - r) by (nonlinear_arith)
            requires
                x == d * q + r,
        {
        }
        assert(abs_i(tdiv(x, d)) * d == x - r);
    } else {
        lemma_fundamental_div_mod(-x, d);
        lemma_mod_bound(-x, d);
        lemma_div_pos_is_pos(-x, d);
        assert(tdiv(x, d) == -((-x) / d));
        assert(abs_i(tdiv(x, d)) == (-x) / d);
        let q = (-x) / d;
        let r = (-x) % d;
        assert(x - d * (-q) == -r && q * d == -x - r) by (nonlinear_arith)
            requires
                -x == d * q + r,
        {
        }
        assert(x - d * tdiv(x, d) == -r);
        assert(abs_i(tdiv(x, d)) * d == -x - r);
    }
}

/// Every nonnegative integer has an integer square root.
proof fn lemma_sqrt_witness(v: int) -> (r: int)
    requires
        v >= 0,
    ensures
        is_sqrt_floor(v, r),
    decreases v,
{
    if v == 0 {
        0
    } else {
        let p = lemma_sqrt_witness(v - 1);
        if (p + 1) * (p + 1) <= v {
            assert(0 <= p + 1 && (p + 1) * (p + 1) <= v && v < ((p + 1) + 1) * ((p + 1)
                + 1)) by (nonlinear_arith)
                requires
                    0 <= p,
                    (p + 1) * (p + 1) <= v,
                    v - 1 < (p + 1) * (p + 1),
            {
            }
            assert(is_sqrt_floor(v, p + 1));
            p + 1
        } else {
            p
        }
    }
}

/// `sqrt_floor` of a nonnegative integer satisfies its defining bounds.
pub proof fn lemma_sqrt_floor_bounds(v: int)
    requires
        v >= 0,
    ensures
        is_sqrt_floor(v, sqrt_floor(v)),
{
    let w = lemma_sqrt_witness(v);
    assert(exists|q: int| is_sqrt_floor(v, q));
}

/// A product of scalars in `[0, 1]` lies in `[0, 1]` and is at most either
/// factor.
pub proof fn lemma_fx_mul_le(a: int, b: int)
    requires
        0 <= a <= FX_ONE as int,
        0 <= b <= FX_ONE as int,
    ensures
        0 <= fx_mul(a, b) <= a,
        fx_mul(a, b) <= b,
{
    assert(0 <= a * b && a * b <= a * 65536 && a * b <= b * 65536) by (nonlinear_arith)
        requires
            0 <= a <= 65536,
            0 <= b <= 65536,
    {
    }
    lemma_div_pos_is_pos(a * b, 65536);
    lemma_div_is_ordered(a * b, a * 65536, 65536);
    lemma_div_is_ordered(a * b, b * 65536, 65536);
    lemma_div_by_multiple(a, 65536);
    lemma_div_by_multiple(b, 65536);
    assert(tdiv(a * b, 65536) == (a * b) / 65536);
}

/// A product of nonnegative scalars whose double-width product stays below
/// `FX_ONE * FX_ONE` multiplies to a scalar in `[0, 1]`.
pub proof fn lemma_fx_mul_color(a: int, b: int)
    requires
        0 <= a,
        0 <= b,
        a * b <= 4294967296,
    ensures
        0 <= fx_mul(a, b) <= FX_ONE as int,
{
    assert(a * b >= 0) by (nonlinear_arith)
        requires
            0 <= a,
            0 <= b,
    {
    }
    let p = a * b;
    lemma_div_pos_is_pos(p, 65536);
    lemma_div_is_ordered(p, 4294967296, 65536);
    assert(tdiv(p, 65536) == p / 65536);
}

/// Clip a double-width intermediate into the scalar range.
fn clip_e(x: i128) -> (r: i64)
    ensures
        r as int == clip(x as int),
{
    if x > FX_LIMIT as i128 {
        FX_LIMIT
    } else if x < -(FX_LIMIT as i128) {
        -FX_LIMIT
    } else {
        x as i64
    }
}

/// Division truncated toward zero on double-width integers.
fn tdiv_e(x: i128, d: i128) -> (r: i128)
    requires
        d != 0,
        x != i128::MIN,
        d != i128::MIN,
    ensures
        r as int == tdiv(x as int, d as int),
{
    let xn: bool = x < 0;
    let dn: bool = d < 0;
    let xa: u128 = if xn { (-x) as u128 } else { x as u128 };
    let da: u128 = if dn { (-d) as u128 } else { d as u128 };
    let q: u128 = xa / da;
    if xn == dn {
        q as i128
    } else {
        -(q as i128)
    }
}

/// Scalar addition.
pub fn fadd(a: i64, b: i64) -> (r: i64)
    ensures
        r as int == fx_add(a as int, b as int),
{
    clip_e(a as i128 + b as i128)
}

/// Scalar subtraction.
pub fn fsub(a: i64, b: i64) -> (r: i64)
    ensures
        r as int == fx_sub(a as int, b as int),
{
    clip_e(a as i128 - b as i128)
}

/// Scalar negation.
pub fn fneg(a: i64) -> (r: i64)
    ensures
        r as int == fx_neg(a as int),
{
    clip_e(-(a as i128))
}

/// Scalar multiplication.
pub fn fmul(a: i64, b: i64) -> (r: i64)
    ensures
        r as int == fx_mul(a as int, b as int),
{
    proof {
        assert(-85070591730234615865843651857942052864 <= (a as int) * (b as int)
            <= 85070591730234615865843651857942052864) by (nonlinear_arith)
            requires
                -9223372036854775808 <= a as int <= 9223372036854775807,
                -9223372036854775808 <= b as int <= 9223372036854775807,
        {
        }
    }
    let p: i128 = (a as i128) * (b as i128);
    let q: i128 = tdiv_e(p, FX_ONE as i128);
    clip_e(q)
}

/// Scalar division; a zero divisor yields zero.
pub fn fdiv(a: i64, b: i64) -> (r: i64)
    ensures
        r as int == fx_div(a as int, b as int),
{
    if b == 0 {
        0
    } else {
        proof {
            assert(-604462909807314587353088 <= (a as int) * 65536
                <= 604462909807314587353088) by (nonlinear_arith)
                requires
                    -9223372036854775808 <= a as int <= 9223372036854775807,
            {
            }
        }
        let x: i128 = (a as i128) * (FX_ONE as i128);
        let q: i128 = tdiv_e(x, b as i128);
        clip_e(q)
    }
}

/// The integer part of a scalar, truncated toward zero.
pub fn fint(a: i64) -> (r: i64)
    ensures
        r as int == tdiv(a as int, FX_ONE as int),
{
    tdiv_e(a as i128, FX_ONE as i128) as i64
}

/// Integer square root (floor) by bisection.
fn isqrt(v: u128) -> (r: u64)
    requires
        v < 1208925819614629174706176,
    ensures
        is_sqrt_floor(v as int, r as int),
{
    if v == 0 {
        return 0;
    }
    let mut lo: u64 = 0;
    let mut hi: u64 = 1099511627776;
    while lo + 1 < hi
        invariant
            lo < hi,
            hi <= 1099511627776,
            (lo as int) * (lo as int) <= v as int,
            (v as int) < (hi as int) * (hi as int),
        decreases hi - lo,
    {
        let mid: u64 = lo + (hi - lo) / 2;
        proof {
            assert((mid as int) * (mid as int) <= 1208925819614629174706176)
                by (nonlinear_arith)
                requires
                    0 <= mid as int <= 1099511627776,
            {
            }
        }
        let sq: u128 = (mid as u128) * (mid as u128);
        if sq <= v {
            lo = mid;
        } else {
            hi = mid;
        }
    }
    lo
}

/// Scalar square root; nonpositive scalars yield zero.
pub fn fsqrt(a: i64) -> (r: i64)
    ensures
        r as int == fx_sqrt(a as int),
{
    if a <= 0 {
        0
    } else {
        proof {
            assert((a as int) * 65536 <= 604462909807314587353088) by (nonlinear_arith)
                requires
                    0 <= a as int <= 9223372036854775807,
            {
            }
        }
        let v: u128 = (a as u128) * (FX_ONE as u128);
        let s: u64 = isqrt(v);
        proof {
            assert((s as int) < 1099511627776) by (nonlinear_arith)
                requires
                    0 <= s as int,
                    (s as int) * (s as int) <= v as int,
                    (v as int) < 1208925819614629174706176,
            {
            }
            lemma_sqrt_floor_unique(v as int, s as int);
        }
        s as i64
    }
}

} // verus!
