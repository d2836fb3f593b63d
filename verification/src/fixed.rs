//! Fixed-point scalars.
//!
//! A scalar is an `i64` holding a real value scaled by [`FX_ONE`]
//! (millionths).  Angles are degrees in the same encoding.  Operations that
//! could leave the `i64` range saturate at the extremes; the contracts state
//! the exact mathematical value whenever it fits.

use vstd::prelude::*;

verus! {

/// One unit: every coordinate, size, angle and scale factor is an `i64`
/// holding the real value times this constant.
pub const FX_ONE: i64 = 1_000_000;

/// Clamp an unbounded integer into the `i64` range.
pub open spec fn sat64(x: int) -> int {
    if x > i64::MAX {
        i64::MAX as int
    } else if x < i64::MIN {
        i64::MIN as int
    } else {
        x
    }
}

/// Division rounding toward zero (the spec-level `/` is Euclidean).
pub open spec fn trunc_div(p: int, d: int) -> int
    recommends
        d > 0,
{
    if p >= 0 {
        p / d
    } else {
        -((-p) / d)
    }
}

/// The mathematical product of two scalars, rescaled into the fixed-point
/// encoding (rounded toward zero) and clamped into `i64`.
pub open spec fn fx_mul_spec(a: int, b: int) -> int {
    sat64(trunc_div(a * b, FX_ONE as int))
}

/// The mathematical quotient of two scalars in the fixed-point encoding
/// (rounded toward zero) and clamped into `i64`.
pub open spec fn fx_div_spec(a: int, b: int) -> int
    recommends
        b != 0,
{
    if b > 0 {
        sat64(trunc_div(a * (FX_ONE as int), b))
    } else {
        sat64(trunc_div((-a) * (FX_ONE as int), -b))
    }
}

/// Saturating addition.
pub fn sat_add(a: i64, b: i64) -> (r: i64)
    ensures
        r == sat64(a + b),
{
    let s: i128 = a as i128 + b as i128;
    if s > i64::MAX as i128 {
        i64::MAX
    } else if s < i64::MIN as i128 {
        i64::MIN
    } else {
        s as i64
    }
}

/// Saturating subtraction.
pub fn sat_sub(a: i64, b: i64) -> (r: i64)
    ensures
        r == sat64(a - b),
{
    let s: i128 = a as i128 - b as i128;
    if s > i64::MAX as i128 {
        i64::MAX
    } else if s < i64::MIN as i128 {
        i64::MIN
    } else {
        s as i64
    }
}

/// Magnitude of an `i64` as a `u128`.
pub(crate) fn abs_u128(a: i64) -> (r: u128)
    ensures
        r == if a >= 0 { a as int } else { -(a as int) },
{
    if a >= 0 {
        a as u128
    } else {
        (-(a as i128)) as u128
    }
}

/// Fixed-point multiplication: the product rescaled by [`FX_ONE`], rounded
/// toward zero and saturating at the `i64` extremes.
pub fn fx_mul(a: i64, b: i64) -> (r: i64)
    ensures
        r == fx_mul_spec(a as int, b as int),
{
    let neg: bool = (a < 0) != (b < 0);
    let pa: u128 = abs_u128(a);
    let pb: u128 = abs_u128(b);
    proof {
        lemma_abs_mul(a as int, b as int);
        assert(pa * pb < 0x8000_0000_0000_0000_0000_0000_0000_0000u128) by (nonlinear_arith)
            requires
                pa <= 0x8000_0000_0000_0000u128,
                pb <= 0x8000_0000_0000_0000u128,
        ;
    }
    let p: u128 = pa * pb;
    let q: u128 = p / (FX_ONE as u128);
    sign_saturate(neg, q, Ghost(a as int * b as int), Ghost(FX_ONE as int))
}

/// Fixed-point division: `a / b` in the fixed-point encoding, rounded toward
/// zero and saturating at the `i64` extremes.
pub fn fx_div(a: i64, b: i64) -> (r: i64)
    requires
        b != 0,
    ensures
        r == fx_div_spec(a as int, b as int),
{
    let neg: bool = (a < 0) != (b < 0);
    let pa: u128 = abs_u128(a);
    let pb: u128 = abs_u128(b);
    let p: u128 = pa * (FX_ONE as u128);
    let q: u128 = p / pb;
    if b > 0 {
        sign_saturate(neg, q, Ghost(a as int * (FX_ONE as int)), Ghost(b as int))
    } else {
        sign_saturate(neg, q, Ghost((-(a as int)) * (FX_ONE as int)), Ghost(-(b as int)))
    }
}

/// Apply a sign to a magnitude-quotient and clamp into `i64`.
///
/// `q` must be the magnitude of `trunc_div(p, d)`, and `neg` its sign.
fn sign_saturate(neg: bool, q: u128, Ghost(p): Ghost<int>, Ghost(d): Ghost<int>) -> (r: i64)
    requires
        d > 0,
        q == if p >= 0 { p / d } else { (-p) / d },
        neg ==> p <= 0,
        !neg ==> p >= 0,
    ensures
        r == sat64(trunc_div(p, d)),
{
    if neg {
        if q >= 9_223_372_036_854_775_808u128 {
            i64::MIN
        } else {
            -(q as i64)
        }
    } else {
        if q > i64::MAX as u128 {
            i64::MAX
        } else {
            q as i64
        }
    }
}

/// Integer square root of a value below `2^100`, by binary search.
fn isqrt_u128(n: u128) -> (r: u128)
    requires
        n < 0x10_0000_0000_0000_0000_0000_0000u128,
    ensures
        r * r <= n,
        n < (r + 1) * (r + 1),
        r <= 0x4_0000_0000_0000u128,
{
    let mut lo: u128 = 0;
    let mut hi: u128 = 0x4_0000_0000_0000u128;
    proof {
        assert(n < hi * hi) by (nonlinear_arith)
            requires
                n < 0x10_0000_0000_0000_0000_0000_0000u128,
                hi == 0x4_0000_0000_0000u128,
        ;
    }
    while lo + 1 < hi
        invariant
            lo * lo <= n,
            n < hi * hi,
            lo < hi <= 0x4_0000_0000_0000u128,
        decreases hi - lo,
    {
        let mid: u128 = lo + (hi - lo) / 2;
        proof {
            assert(mid * mid <= 0x4_0000_0000_0000u128 * 0x4_0000_0000_0000u128)
                by (nonlinear_arith)
                requires
                    mid <= 0x4_0000_0000_0000u128,
            ;
        }
        if mid * mid <= n {
            lo = mid;
        } else {
            hi = mid;
        }
    }
    lo
}

/// Fixed-point square root, rounded down: the largest scalar whose square
/// (computed exactly, not in the truncating fixed-point product) is at most
/// the argument.
pub fn fx_sqrt(a: i64) -> (r: i64)
    requires
        a >= 0,
    ensures
        r >= 0,
        r * r <= a * (FX_ONE as int),
        a * (FX_ONE as int) < (r + 1) * (r + 1),
{
    proof {
        assert((a as u128) * (FX_ONE as u128) < 0x10_0000_0000_0000_0000_0000_0000u128)
            by (nonlinear_arith)
            requires
                a as u128 <= 0x8000_0000_0000_0000u128,
                FX_ONE == 1_000_000i64,
        ;
    }
    let n: u128 = (a as u128) * (FX_ONE as u128);
    let r: u128 = isqrt_u128(n);
    r as i64
}

/// Floor division of a small `i128` by a positive divisor.
fn floor_div_i128(s: i128, d: i128) -> (r: i128)
    requires
        0 < d <= 16,
        -0x1_0000_0000_0000_0000_0000i128 <= s <= 0x1_0000_0000_0000_0000_0000i128,
    ensures
        r == s as int / d as int,
{
    if s >= 0 {
        (((s as u128) / (d as u128)) as i128)
    } else {
        let m: u128 = (-s) as u128;
        let q: u128 = m / (d as u128);
        let rem: u128 = m % (d as u128);
        proof {
            vstd::arithmetic::div_mod::lemma_fundamental_div_mod(m as int, d as int);
            assert((d as int) * (-(q as int)) == -((d as int) * (q as int)))
                by (nonlinear_arith);
            assert((d as int) * (-(q as int) - 1) == -((d as int) * (q as int)) - (d as int))
                by (nonlinear_arith);
        }
        if rem == 0 {
            proof {
                vstd::arithmetic::div_mod::lemma_fundamental_div_mod_converse(
                    s as int,
                    d as int,
                    -(q as int),
                    0,
                );
            }
            -(q as i128)
        } else {
            proof {
                vstd::arithmetic::div_mod::lemma_fundamental_div_mod_converse(
                    s as int,
                    d as int,
                    -(q as int) - 1,
                    d - rem,
                );
            }
            -(q as i128) - 1
        }
    }
}

/// The floor of the average of two scalars.
pub fn avg2(a: i64, b: i64) -> (r: i64)
    ensures
        r == (a + b) / 2,
{
    let s: i128 = a as i128 + b as i128;
    let q = floor_div_i128(s, 2);
    proof {
        vstd::arithmetic::div_mod::lemma_div_is_ordered(2 * (i64::MIN as int), s as int, 2);
        vstd::arithmetic::div_mod::lemma_div_is_ordered(s as int, 2 * (i64::MAX as int), 2);
        vstd::arithmetic::div_mod::lemma_div_multiples_vanish(i64::MIN as int, 2);
        vstd::arithmetic::div_mod::lemma_div_multiples_vanish(i64::MAX as int, 2);
    }
    q as i64
}

/// The floor of the weighted average `(a + 2b + c) / 4`.
pub fn avg4_121(a: i64, b: i64, c: i64) -> (r: i64)
    ensures
        r == (a + 2 * b + c) / 4,
{
    let s: i128 = a as i128 + 2 * (b as i128) + c as i128;
    let q = floor_div_i128(s, 4);
    proof {
        vstd::arithmetic::div_mod::lemma_div_is_ordered(4 * (i64::MIN as int), s as int, 4);
        vstd::arithmetic::div_mod::lemma_div_is_ordered(s as int, 4 * (i64::MAX as int), 4);
        vstd::arithmetic::div_mod::lemma_div_multiples_vanish(i64::MIN as int, 4);
        vstd::arithmetic::div_mod::lemma_div_multiples_vanish(i64::MAX as int, 4);
    }
    q as i64
}

/// The floor of the weighted average `(a + 3b + 3c + d) / 8`.
pub fn avg8_1331(a: i64, b: i64, c: i64, d: i64) -> (r: i64)
    ensures
        r == (a + 3 * b + 3 * c + d) / 8,
{
    let s: i128 = a as i128 + 3 * (b as i128) + 3 * (c as i128) + d as i128;
    let q = floor_div_i128(s, 8);
    proof {
        vstd::arithmetic::div_mod::lemma_div_is_ordered(8 * (i64::MIN as int), s as int, 8);
        vstd::arithmetic::div_mod::lemma_div_is_ordered(s as int, 8 * (i64::MAX as int), 8);
        vstd::arithmetic::div_mod::lemma_div_multiples_vanish(i64::MIN as int, 8);
        vstd::arithmetic::div_mod::lemma_div_multiples_vanish(i64::MAX as int, 8);
    }
    q as i64
}

/// Floor division of a scalar by a positive scalar.
pub fn floor_div(a: i64, b: i64) -> (r: i64)
    requires
        b > 0,
    ensures
        r == a as int / b as int,
{
    if a >= 0 {
        proof {
            vstd::arithmetic::div_mod::lemma_div_pos_is_pos(a as int, b as int);
            vstd::arithmetic::div_mod::lemma_div_is_ordered_by_denominator(a as int, 1, b as int);
            vstd::arithmetic::div_mod::lemma_div_basics(a as int);
        }
        ((a as u64) / (b as u64)) as i64
    } else {
        let m: u128 = (-(a as i128)) as u128;
        let bu: u128 = b as u128;
        let q: u128 = m / bu;
        let rem: u128 = m % bu;
        proof {
            vstd::arithmetic::div_mod::lemma_fundamental_div_mod(m as int, b as int);
            assert((b as int) * (-(q as int)) == -((b as int) * (q as int)))
                by (nonlinear_arith);
            assert((b as int) * (-(q as int) - 1) == -((b as int) * (q as int)) - (b as int))
                by (nonlinear_arith);
            assert(q * bu <= m) by (nonlinear_arith)
                requires
                    m == q * bu + (m % bu),
            ;
            assert(q <= q * bu) by (nonlinear_arith)
                requires
                    bu >= 1,
            ;
        }
        if rem == 0 {
            proof {
                vstd::arithmetic::div_mod::lemma_fundamental_div_mod_converse(
                    a as int,
                    b as int,
                    -(q as int),
                    0,
                );
            }
            ((-(q as i128)) as i64)
        } else {
            proof {
                vstd::arithmetic::div_mod::lemma_fundamental_div_mod_converse(
                    a as int,
                    b as int,
                    -(q as int) - 1,
                    b - rem,
                );
            }
            ((-(q as i128) - 1) as i64)
        }
    }
}

/// Clamp an `i128` into the `i64` range.
pub fn sat_narrow(s: i128) -> (r: i64)
    ensures
        r == sat64(s as int),
{
    if s > i64::MAX as i128 {
        i64::MAX
    } else if s < i64::MIN as i128 {
        i64::MIN
    } else {
        s as i64
    }
}

/// Dividing by the fixed-point one is exact.
pub proof fn lemma_fx_div_one(v: i64)
    ensures
        fx_div_spec(v as int, FX_ONE as int) == v,
{
    let one = FX_ONE as int;
    vstd::arithmetic::div_mod::lemma_div_multiples_vanish(v as int, one);
    vstd::arithmetic::div_mod::lemma_div_multiples_vanish(-(v as int), one);
    assert((v as int) * one == one * (v as int)) by (nonlinear_arith);
    assert((-(v as int)) * one == one * (-(v as int))) by (nonlinear_arith);
}

/// The fixed-point square of a representable non-negative scalar is exact
/// and stays well inside `i64`.
pub proof fn lemma_fx_square_exact(sc: i64)
    requires
        0 <= sc <= 2_000_000_000_000,
        (sc * sc) % (FX_ONE as int) == 0,
    ensures
        fx_mul_spec(sc as int, sc as int) == sc * sc / (FX_ONE as int),
        0 <= sc * sc / (FX_ONE as int) <= 4_000_000_000_000_000_000,
        (sc * sc / (FX_ONE as int)) * (FX_ONE as int) == sc * sc,
{
    let one = FX_ONE as int;
    assert(0 <= sc * sc <= 4_000_000_000_000_000_000_000_000) by (nonlinear_arith)
        requires
            0 <= sc <= 2_000_000_000_000,
    ;
    vstd::arithmetic::div_mod::lemma_div_pos_is_pos(sc * sc, one);
    vstd::arithmetic::div_mod::lemma_div_is_ordered(
        sc * sc,
        4_000_000_000_000_000_000_000_000,
        one,
    );
    vstd::arithmetic::div_mod::lemma_fundamental_div_mod(sc * sc, one);
}

/// A non-negative integer bracketed between the square of `a` and the next
/// square is `a` itself.
pub proof fn lemma_sqrt_bracket(s: int, a: int)
    requires
        s >= 0,
        a >= 0,
        s * s <= a * a < (s + 1) * (s + 1),
    ensures
        s == a,
{
    assert(s == a) by (nonlinear_arith)
        requires
            s >= 0,
            a >= 0,
            s * s <= a * a < (s + 1) * (s + 1),
    ;
}

/// Multiplying by the fixed-point constants one, zero and minus one is
/// exact (up to saturation at the `i64` extremes).
pub proof fn lemma_fx_mul_unit(v: i64)
    ensures
        fx_mul_spec(FX_ONE as int, v as int) == v,
        fx_mul_spec(v as int, FX_ONE as int) == v,
        fx_mul_spec(0, v as int) == 0,
        fx_mul_spec(v as int, 0) == 0,
        fx_mul_spec(-(FX_ONE as int), v as int) == sat64(-(v as int)),
        fx_mul_spec(v as int, -(FX_ONE as int)) == sat64(-(v as int)),
{
    let one = FX_ONE as int;
    vstd::arithmetic::div_mod::lemma_div_multiples_vanish(v as int, one);
    vstd::arithmetic::div_mod::lemma_div_multiples_vanish(-(v as int), one);
    vstd::arithmetic::div_mod::lemma_div_multiples_vanish(0, one);
    assert(one * (v as int) == (v as int) * one) by (nonlinear_arith);
    assert((-one) * (v as int) == (v as int) * (-one)) by (nonlinear_arith);
    assert((-one) * (v as int) == one * (-(v as int))) by (nonlinear_arith);
    assert(-(one * (v as int)) == one * (-(v as int))) by (nonlinear_arith);
    assert((v as int) * 0 == 0 && 0 * (v as int) == 0) by (nonlinear_arith);
}

proof fn lemma_abs_mul(a: int, b: int)
    ensures
        (if a >= 0 { a } else { -a }) * (if b >= 0 { b } else { -b }) == if a * b >= 0 {
            a * b
        } else {
            -(a * b)
        },
        ((a < 0) != (b < 0)) ==> a * b <= 0,
        ((a < 0) == (b < 0)) ==> a * b >= 0,
{
    assert((if a >= 0 { a } else { -a }) * (if b >= 0 { b } else { -b }) == if a * b >= 0 {
        a * b
    } else {
        -(a * b)
    }) by (nonlinear_arith);
    assert(((a < 0) != (b < 0)) ==> a * b <= 0) by (nonlinear_arith);
    assert(((a < 0) == (b < 0)) ==> a * b >= 0) by (nonlinear_arith);
}

} // verus!
