//! Trigonometry on fixed-point degrees.
//!
//! Angles are degrees in the same millionths encoding as every other scalar.
//! The results are polynomial approximations; the contracts state the range
//! of every result and pin the exact values on the quadrant boundaries (and,
//! for [`atan2_fx`], on the diagonals), which is what the rest of the library
//! relies on.

use vstd::arithmetic::div_mod::lemma_div_is_ordered;
use vstd::arithmetic::div_mod::lemma_fundamental_div_mod_converse;
use vstd::prelude::*;

use crate::fixed::FX_ONE;
use crate::fixed::abs_u128;

verus! {

/// A full turn, in fixed-point degrees.
pub const FX_TURN: i64 = 360_000_000;

/// A quarter turn, in fixed-point degrees.
pub const FX_QUARTER: i64 = 90_000_000;

/// `sin 45` and `cos 45` in the fixed-point encoding.
const FX_SIN45: i64 = 707_107;

proof fn lemma_mul_le(a: u128, b: u128, ab: u128, bb: u128)
    requires
        a <= ab,
        b <= bb,
    ensures
        a * b <= ab * bb,
{
    assert(a * b <= ab * bb) by (nonlinear_arith)
        requires
            a <= ab,
            b <= bb,
    ;
}

/// Reduce an angle to `[0, 360)` degrees; the result is the Euclidean
/// remainder of the angle by a full turn.
fn norm_deg(deg: i64) -> (r: i64)
    ensures
        0 <= r < FX_TURN,
        r == (deg as int) % (FX_TURN as int),
{
    if deg >= 0 {
        let m: u64 = (deg as u64) % (FX_TURN as u64);
        m as i64
    } else {
        let n: u128 = (-(deg as i128)) as u128;
        let q: u128 = n / (FX_TURN as u128);
        let m: u128 = n % (FX_TURN as u128);
        if m == 0 {
            proof {
                lemma_fundamental_div_mod_converse(
                    deg as int,
                    FX_TURN as int,
                    -(q as int),
                    0,
                );
            }
            0
        } else {
            proof {
                lemma_fundamental_div_mod_converse(
                    deg as int,
                    FX_TURN as int,
                    -(q as int) - 1,
                    FX_TURN - m,
                );
            }
            (FX_TURN as u128 - m) as i64
        }
    }
}

/// Sine and cosine of an angle in fixed-point degrees.
///
/// Both results lie in `[-1, 1]`; on the quadrant boundaries (multiples of
/// 90 degrees) they are exact, and at odd multiples of 45 degrees the two
/// magnitudes coincide, which keeps right-angle geometry exact.
pub fn sin_cos_fx(deg: i64) -> (sc: (i64, i64))
    ensures
        -FX_ONE <= sc.0 <= FX_ONE,
        -FX_ONE <= sc.1 <= FX_ONE,
        (deg as int) % (FX_TURN as int) == 0 ==> sc.0 == 0 && sc.1 == FX_ONE,
        (deg as int) % (FX_TURN as int) == 90_000_000 ==> sc.0 == FX_ONE && sc.1 == 0,
        (deg as int) % (FX_TURN as int) == 180_000_000 ==> sc.0 == 0 && sc.1 == -FX_ONE,
        (deg as int) % (FX_TURN as int) == 270_000_000 ==> sc.0 == -FX_ONE && sc.1 == 0,
        (deg as int) % (FX_TURN as int) == 45_000_000 ==> sc.0 == 707_107 && sc.1 == 707_107,
        (deg as int) % (FX_TURN as int) == 135_000_000 ==> sc.0 == 707_107 && sc.1
            == -707_107,
        (deg as int) % (FX_TURN as int) == 225_000_000 ==> sc.0 == -707_107 && sc.1
            == -707_107,
        (deg as int) % (FX_TURN as int) == 315_000_000 ==> sc.0 == -707_107 && sc.1
            == 707_107,
{
    let m: i64 = norm_deg(deg);
    let mu: u64 = m as u64;
    let q: u64 = mu / (FX_QUARTER as u64);
    let a: i64 = (mu % (FX_QUARTER as u64)) as i64;
    proof {
        assert(q == mu as int / 90_000_000int);
        assert(a == mu as int % 90_000_000int);
        assert(mu == 0 ==> q == 0 && a == 0);
        assert(mu == 90_000_000 ==> q == 1 && a == 0);
        assert(mu == 180_000_000 ==> q == 2 && a == 0);
        assert(mu == 270_000_000 ==> q == 3 && a == 0);
        assert(mu == 45_000_000 ==> q == 0 && a == 45_000_000);
        assert(mu == 135_000_000 ==> q == 1 && a == 45_000_000);
        assert(mu == 225_000_000 ==> q == 2 && a == 45_000_000);
        assert(mu == 315_000_000 ==> q == 3 && a == 45_000_000);
    }
    let (s, c) = sin_cos_acute(a);
    if q == 0 {
        (s, c)
    } else if q == 1 {
        (c, -s)
    } else if q == 2 {
        (-s, -c)
    } else {
        (-c, s)
    }
}

/// Sine and cosine on `[0, 90)` degrees; both results in `[0, 1]`, exact at 0
/// and with equal values at 45 degrees.
fn sin_cos_acute(a: i64) -> (sc: (i64, i64))
    requires
        0 <= a < FX_QUARTER,
    ensures
        0 <= sc.0 <= FX_ONE,
        0 <= sc.1 <= FX_ONE,
        a == 0 ==> sc.0 == 0 && sc.1 == FX_ONE,
        a == 45_000_000 ==> sc.0 == FX_SIN45 && sc.1 == FX_SIN45,
{
    if a == 0 {
        (0, FX_ONE)
    } else if a == 45_000_000 {
        (FX_SIN45, FX_SIN45)
    } else if a < 45_000_000 {
        (sin_poly(a), cos_poly(a))
    } else {
        (cos_poly(FX_QUARTER - a), sin_poly(FX_QUARTER - a))
    }
}


/// Multiply two nano-scaled values and rescale, staying within nano range.
fn mul_div_nano(a: u128, b: u128) -> (r: u128)
    requires
        a <= 1_000_000_000,
        b <= 1_000_000_000,
    ensures
        r == (a * b) / 1_000_000_000,
        r <= 1_000_000_000,
{
    proof {
        lemma_mul_le(a, b, 1_000_000_000, 1_000_000_000);
    }
    let p: u128 = a * b;
    proof {
        lemma_div_is_ordered(
            p as int,
            1_000_000_000_000_000_000,
            1_000_000_000,
        );
    }
    p / 1_000_000_000
}

/// Degrees (millionths) to nanoradians, rounded down.
fn deg_to_nano_rad(a: i64) -> (x: u128)
    requires
        0 <= a <= 45_000_000,
    ensures
        x <= 785_398_164,
{
    let x: u128 = (a as u128) * 17_453_292_519_943u128 / 1_000_000_000_000u128;
    proof {
        lemma_div_is_ordered(
            (a as u128 * 17_453_292_519_943u128) as int,
            45_000_000u128 * 17_453_292_519_943u128 as int,
            1_000_000_000_000,
        );
    }
    x
}

/// Taylor sine on `(0, 45]` degrees, computed in nanoradians and rounded to
/// the fixed-point encoding; the result is clamped into `[0, 1]`.
fn sin_poly(a: i64) -> (r: i64)
    requires
        0 < a <= 45_000_000,
    ensures
        0 <= r <= FX_ONE,
{
    let x: u128 = deg_to_nano_rad(a);
    let x2: u128 = mul_div_nano(x, x);
    let x3: u128 = mul_div_nano(x2, x);
    let x5: u128 = mul_div_nano(x3, x2);
    let x7: u128 = mul_div_nano(x5, x2);
    let x9: u128 = mul_div_nano(x7, x2);
    let t: i128 = x as i128 - (x3 / 6) as i128 + (x5 / 120) as i128 - (x7 / 5040) as i128 + (x9
        / 362_880) as i128;
    round_nano_to_micro(t)
}

/// Taylor cosine on `(0, 45]` degrees, computed in nanoradians and rounded to
/// the fixed-point encoding; the result is clamped into `[0, 1]`.
fn cos_poly(a: i64) -> (r: i64)
    requires
        0 < a <= 45_000_000,
    ensures
        0 <= r <= FX_ONE,
{
    let x: u128 = deg_to_nano_rad(a);
    let x2: u128 = mul_div_nano(x, x);
    let x4: u128 = mul_div_nano(x2, x2);
    let x6: u128 = mul_div_nano(x4, x2);
    let x8: u128 = mul_div_nano(x6, x2);
    let t: i128 = 1_000_000_000i128 - (x2 / 2) as i128 + (x4 / 24) as i128 - (x6 / 720) as i128
        + (x8 / 40_320) as i128;
    round_nano_to_micro(t)
}

/// The angle of the point `(x, y)` from the positive X axis, in fixed-point
/// degrees within `[-180, 180]`.
///
/// On the axes and the diagonals the result is exact; elsewhere it is a
/// polynomial approximation.
pub fn atan2_fx(y: i64, x: i64) -> (r: i64)
    ensures
        -180_000_000 <= r <= 180_000_000,
        y == 0 && x >= 0 ==> r == 0,
        y == 0 && x < 0 ==> r == 180_000_000,
        x == 0 && y > 0 ==> r == 90_000_000,
        x == 0 && y < 0 ==> r == -90_000_000,
        y == x && x > 0 ==> r == 45_000_000,
        y == -x && x < 0 ==> r == 135_000_000,
        y == x && x < 0 ==> r == -135_000_000,
        y == -x && x > 0 ==> r == -45_000_000,
{
    if y == 0 {
        if x >= 0 {
            0
        } else {
            180_000_000
        }
    } else if x == 0 {
        if y > 0 {
            90_000_000
        } else {
            -90_000_000
        }
    } else {
        let ay: u128 = abs_u128(y);
        let ax: u128 = abs_u128(x);
        let base: i64 = if ay == ax {
            45_000_000
        } else if ay < ax {
            atan_ratio(ay, ax)
        } else {
            90_000_000 - atan_ratio(ax, ay)
        };
        if x > 0 {
            if y > 0 {
                base
            } else {
                -base
            }
        } else {
            if y > 0 {
                180_000_000 - base
            } else {
                base - 180_000_000
            }
        }
    }
}

/// `atan(n / d)` for `0 < n < d`, in fixed-point degrees within `[0, 45]`.
fn atan_ratio(n: u128, d: u128) -> (r: i64)
    requires
        0 < n < d,
        d <= 0x8000_0000_0000_0000u128,
    ensures
        0 <= r <= 45_000_000,
{
    proof {
        lemma_mul_le(n, 1_000_000_000, 0x8000_0000_0000_0000u128, 1_000_000_000);
        lemma_ratio_below_one(n, d);
    }
    let z: u128 = n * 1_000_000_000 / d;
    if z > 414_213_562 {
        proof {
            lemma_div_is_ordered(
                ((1_000_000_000 - z) * 1_000_000_000) as int,
                585_786_437_000_000_000,
            1_000_000_000 + z as int,
            );
            vstd::arithmetic::div_mod::lemma_div_is_ordered_by_denominator(
                585_786_437_000_000_000,
                1_414_213_563,
                1_000_000_000 + z as int,
            );
        }
        let w: u128 = ((1_000_000_000 - z) * 1_000_000_000) / (1_000_000_000 + z);
        45_000_000 - atan_poly(w)
    } else {
        atan_poly(z)
    }
}

proof fn lemma_ratio_below_one(n: u128, d: u128)
    requires
        0 < n < d,
    ensures
        n * 1_000_000_000 / (d as int) < 1_000_000_000,
{
    assert(n * 1_000_000_000 / (d as int) < 1_000_000_000) by (nonlinear_arith)
        requires
            0 < n < d,
    ;
}

/// Taylor arctangent of a nano-scaled ratio below `tan 22.5`, in fixed-point
/// degrees clamped into `[0, 22.6]`.
fn atan_poly(z: u128) -> (r: i64)
    requires
        z <= 414_213_563,
    ensures
        0 <= r <= 22_600_000,
{
    let z2: u128 = mul_div_nano(z, z);
    let z3: u128 = mul_div_nano(z2, z);
    let z5: u128 = mul_div_nano(z3, z2);
    let z7: u128 = mul_div_nano(z5, z2);
    let z9: u128 = mul_div_nano(z7, z2);
    let z11: u128 = mul_div_nano(z9, z2);
    let z13: u128 = mul_div_nano(z11, z2);
    let t: i128 = z as i128 - (z3 / 3) as i128 + (z5 / 5) as i128 - (z7 / 7) as i128 + (z9
        / 9) as i128 - (z11 / 11) as i128 + (z13 / 13) as i128;
    if t <= 0 {
        0
    } else {
        let tu: u128 = t as u128;
        proof {
            lemma_mul_le(tu, 57_295_779_513, 2_000_000_000, 57_295_779_513);
        }
        let md: u128 = (tu * 57_295_779_513 + 500_000_000_000) / 1_000_000_000_000;
        if md >= 22_600_000 {
            22_600_000
        } else {
            md as i64
        }
    }
}

/// Round a nano-scaled value to the fixed-point (micro) encoding, clamped
/// into `[0, 1]`.
fn round_nano_to_micro(t: i128) -> (r: i64)
    ensures
        0 <= r <= FX_ONE,
{
    if t <= 0 {
        0
    } else {
        let m: u128 = ((t as u128) + 500) / 1000;
        if m >= FX_ONE as u128 {
            FX_ONE
        } else {
            m as i64
        }
    }
}

} // verus!
