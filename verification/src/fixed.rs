//! Fixed-point arithmetic base of the engine.
//!
//! Every amplitude, power and gain in the engine is an `i64` carrying 20
//! fractional bits: `FIXED_ONE` stands for the real value 1.0.  Products are
//! computed in `i128` and scaled back down, so the helpers here never
//! overflow for operands within `AMP_MAX`, which leaves far more headroom
//! (about +120 dB over full scale) than any audio stream uses.

use vstd::prelude::*;

verus! {

/// The fixed-point unit: 2^20.  A sample at digital full scale is `FIXED_ONE`.
pub const FIXED_ONE: i64 = 1048576;

/// Largest magnitude any amplitude, power or gain handled by the engine may
/// take: 2^40, i.e. one million in real terms (+120 dB over full scale).
pub const AMP_MAX: i64 = 1099511627776;

/// Half the fixed-point unit: 2^19, the rounding offset of
/// [`div_scale_round`].
pub const HALF_ONE: i64 = 524288;

/// The scale of the limiter's gain coefficient: 2^60, i.e. `GAIN_ONE`
/// stands for a gain of 1.0.  The gain carries 60 fractional bits so that
/// the quotient `limit / peak` is exact to within `2^-20` relative error
/// over the engine's whole amplitude range.
pub const GAIN_ONE: i64 = 1152921504606846976;

/// Truncating (round-toward-zero) division by the fixed-point scale.
pub open spec fn div_scale(x: int) -> int {
    if x >= 0 {
        x / (FIXED_ONE as int)
    } else {
        -((-x) / (FIXED_ONE as int))
    }
}

/// Ceiling division by the fixed-point scale, for nonnegative operands.
pub open spec fn div_scale_up(x: int) -> int {
    (x + FIXED_ONE - 1) / (FIXED_ONE as int)
}

/// The smaller of `a` and `b`.
pub open spec fn min_spec(a: int, b: int) -> int {
    if a <= b {
        a
    } else {
        b
    }
}

/// The larger of `a` and `b`.
pub open spec fn max_spec(a: int, b: int) -> int {
    if a >= b {
        a
    } else {
        b
    }
}

/// The absolute value of `x`.
pub open spec fn abs_spec(x: int) -> int {
    if x >= 0 {
        x
    } else {
        -x
    }
}

/// The absolute value of `x`.
pub fn abs_i64(x: i64) -> (r: i64)
    requires
        x > i64::MIN,
    ensures
        r == abs_spec(x as int),
{
    if x >= 0 {
        x
    } else {
        -x
    }
}

/// `x` forced into the interval `[lo, hi]`.
pub open spec fn clamp_spec(x: int, lo: int, hi: int) -> int {
    if x < lo {
        lo
    } else if x > hi {
        hi
    } else {
        x
    }
}

/// `x` forced into `[lo, hi]`.
pub fn clamp_i64(x: i64, lo: i64, hi: i64) -> (r: i64)
    requires
        lo <= hi,
    ensures
        r == clamp_spec(x as int, lo as int, hi as int),
{
    if x < lo {
        lo
    } else if x > hi {
        hi
    } else {
        x
    }
}

/// Truncating division of a wide intermediate by the fixed-point scale.
pub fn div_scale_i128(x: i128) -> (r: i64)
    requires
        -0x400000000000000000000int <= x <= 0x400000000000000000000int,
    ensures
        r == div_scale(x as int),
{
    if x >= 0 {
        let q: u128 = (x as u128) / (FIXED_ONE as u128);
        q as i64
    } else {
        let q: u128 = ((-x) as u128) / (FIXED_ONE as u128);
        -(q as i64)
    }
}

/// Round-to-nearest division by the fixed-point scale (ties round up).
pub open spec fn div_scale_round(x: int) -> int {
    (x + HALF_ONE) / (FIXED_ONE as int)
}

/// Round-to-nearest division of a wide intermediate by the fixed-point
/// scale.
pub fn div_scale_round_i128(x: i128) -> (r: i64)
    requires
        -0x400000000000000000000int <= x <= 0x400000000000000000000int,
    ensures
        r == div_scale_round(x as int),
{
    let shifted: i128 = x + (HALF_ONE as i128);
    if shifted >= 0 {
        let q: u128 = (shifted as u128) / (FIXED_ONE as u128);
        q as i64
    } else {
        let m: u128 = (-shifted) as u128;
        let q: u128 = (m + ((FIXED_ONE - 1) as u128)) / (FIXED_ONE as u128);
        proof {
            let mi = m as int;
            let f = FIXED_ONE as int;
            let qi = (mi + f - 1) / f;
            vstd::arithmetic::div_mod::lemma_fundamental_div_mod(mi + f - 1, f);
            vstd::arithmetic::div_mod::lemma_div_pos_is_pos(mi + f - 1, f);
            assert(qi * f == f * qi) by (nonlinear_arith);
            vstd::arithmetic::div_mod::lemma_fundamental_div_mod_converse(
                -mi,
                f,
                -qi,
                qi * f - mi,
            );
        }
        -(q as i64)
    }
}

/// Round-to-nearest division of a wide intermediate by the fixed-point
/// scale, kept wide: for quotients that may not fit a narrow word before
/// saturation.
pub fn div_scale_round_wide(x: i128) -> (r: i128)
    requires
        -0x2000000000000000000000int <= x <= 0x2000000000000000000000int,
    ensures
        r == div_scale_round(x as int),
{
    let shifted: i128 = x + (HALF_ONE as i128);
    if shifted >= 0 {
        let q: u128 = (shifted as u128) / (FIXED_ONE as u128);
        q as i128
    } else {
        let m: u128 = (-shifted) as u128;
        let q: u128 = (m + ((FIXED_ONE - 1) as u128)) / (FIXED_ONE as u128);
        proof {
            let mi = m as int;
            let f = FIXED_ONE as int;
            let qi = (mi + f - 1) / f;
            vstd::arithmetic::div_mod::lemma_fundamental_div_mod(mi + f - 1, f);
            vstd::arithmetic::div_mod::lemma_div_pos_is_pos(mi + f - 1, f);
            assert(qi * f == f * qi) by (nonlinear_arith);
            vstd::arithmetic::div_mod::lemma_fundamental_div_mod_converse(
                -mi,
                f,
                -qi,
                qi * f - mi,
            );
        }
        -(q as i128)
    }
}

/// Rounding to the nearest multiple moves a value bounded by `b * FIXED_ONE`
/// to one bounded by `b`.
pub proof fn lemma_div_scale_round_bound(x: int, b: int)
    requires
        0 <= b,
        -(b * FIXED_ONE) <= x <= b * FIXED_ONE,
    ensures
        -b <= div_scale_round(x) <= b,
{
    let f = FIXED_ONE as int;
    assert(b * f == f * b) by (nonlinear_arith);
    vstd::arithmetic::div_mod::lemma_div_is_ordered(x + HALF_ONE, b * f + HALF_ONE, f);
    vstd::arithmetic::div_mod::lemma_fundamental_div_mod_converse(b * f + HALF_ONE, f, b, HALF_ONE as int);
    vstd::arithmetic::div_mod::lemma_div_is_ordered(-(b * f) + HALF_ONE, x + HALF_ONE, f);
    vstd::arithmetic::div_mod::lemma_fundamental_div_mod_converse(
        -(b * f) + HALF_ONE,
        f,
        -b,
        HALF_ONE as int,
    );
}

/// Truncating division by the gain scale, for the final gain application.
pub open spec fn div_gain(x: int) -> int {
    if x >= 0 {
        x / (GAIN_ONE as int)
    } else {
        -((-x) / (GAIN_ONE as int))
    }
}

/// Truncating division of a wide intermediate by the gain scale.
pub fn div_gain_i128(x: i128) -> (r: i64)
    requires
        -0x40000000000000000000000000000int <= x <= 0x40000000000000000000000000000int,
    ensures
        r == div_gain(x as int),
{
    if x >= 0 {
        let q: u128 = (x as u128) / (GAIN_ONE as u128);
        q as i64
    } else {
        let q: u128 = ((-x) as u128) / (GAIN_ONE as u128);
        -(q as i64)
    }
}

/// Scaling down a product bounded by `b * GAIN_ONE` gives a value bounded
/// by `b`.
pub proof fn lemma_div_gain_bound(x: int, b: int)
    requires
        0 <= b,
        -(b * GAIN_ONE) <= x <= b * GAIN_ONE,
    ensures
        -b <= div_gain(x) <= b,
{
    assert(b * (GAIN_ONE as int) == (GAIN_ONE as int) * b) by (nonlinear_arith);
    vstd::arithmetic::div_mod::lemma_div_multiples_vanish(b, GAIN_ONE as int);
    if x >= 0 {
        vstd::arithmetic::div_mod::lemma_div_is_ordered(x, b * (GAIN_ONE as int), GAIN_ONE as int);
        vstd::arithmetic::div_mod::lemma_div_pos_is_pos(x, GAIN_ONE as int);
    } else {
        vstd::arithmetic::div_mod::lemma_div_is_ordered(-x, b * (GAIN_ONE as int), GAIN_ONE as int);
        vstd::arithmetic::div_mod::lemma_div_pos_is_pos(-x, GAIN_ONE as int);
    }
}

/// Scaling down a product bounded by `b * FIXED_ONE` gives a value bounded
/// by `b`.
pub proof fn lemma_div_scale_bound(x: int, b: int)
    requires
        0 <= b,
        -(b * FIXED_ONE) <= x <= b * FIXED_ONE,
    ensures
        -b <= div_scale(x) <= b,
{
    assert(b * (FIXED_ONE as int) == (FIXED_ONE as int) * b) by (nonlinear_arith);
    vstd::arithmetic::div_mod::lemma_div_multiples_vanish(b, FIXED_ONE as int);
    if x >= 0 {
        vstd::arithmetic::div_mod::lemma_div_is_ordered(x, b * (FIXED_ONE as int), FIXED_ONE as int);
        vstd::arithmetic::div_mod::lemma_div_pos_is_pos(x, FIXED_ONE as int);
    } else {
        vstd::arithmetic::div_mod::lemma_div_is_ordered(-x, b * (FIXED_ONE as int), FIXED_ONE as int);
        vstd::arithmetic::div_mod::lemma_div_pos_is_pos(-x, FIXED_ONE as int);
    }
}

/// The integer square root: the unique `r >= 0` with `r * r <= x < (r + 1) * (r + 1)`.
pub open spec fn sqrt_floor(x: int) -> int {
    choose|r: int| 0 <= r && #[trigger] (r * r) <= x < (r + 1) * (r + 1)
}

/// Every nonnegative integer has an integer square root, and `sqrt_floor`
/// denotes it.
pub proof fn lemma_sqrt_floor_exists(x: int)
    requires
        0 <= x,
    ensures
        0 <= sqrt_floor(x),
        sqrt_floor(x) * sqrt_floor(x) <= x < (sqrt_floor(x) + 1) * (sqrt_floor(x) + 1),
    decreases x,
{
    if x == 0 {
        assert(0 <= 0int && (0int) * (0int) <= x < (0int + 1) * (0int + 1));
    } else {
        lemma_sqrt_floor_exists(x - 1);
        let r = sqrt_floor(x - 1);
        if x < (r + 1) * (r + 1) {
            assert(0 <= r && r * r <= x < (r + 1) * (r + 1));
        } else {
            assert((r + 1) * (r + 1) < (r + 2) * (r + 2)) by (nonlinear_arith)
                requires
                    0 <= r,
            ;
            assert(0 <= r + 1 && (r + 1) * (r + 1) <= x < (r + 1 + 1) * (r + 1 + 1));
        }
    }
}

/// Two integer square roots of the same value coincide.
pub proof fn lemma_sqrt_floor_unique(x: int, a: int, b: int)
    requires
        0 <= a,
        0 <= b,
        a * a <= x < (a + 1) * (a + 1),
        b * b <= x < (b + 1) * (b + 1),
    ensures
        a == b,
{
    if a < b {
        assert((a + 1) * (a + 1) <= b * b) by (nonlinear_arith)
            requires
                0 <= a,
                a + 1 <= b,
        ;
    }
    if b < a {
        assert((b + 1) * (b + 1) <= a * a) by (nonlinear_arith)
            requires
                0 <= b,
                b + 1 <= a,
        ;
    }
}

/// The integer square root, by bisection.
pub fn isqrt(x: u64) -> (r: u64)
    ensures
        r == sqrt_floor(x as int),
        r * r <= x,
        x < (r + 1) * (r + 1),
{
    let mut lo: u64 = 0;
    let mut hi: u64 = 4294967296;
    proof {
        assert((4294967296int) * (4294967296int) > u64::MAX as int) by (nonlinear_arith);
    }
    while lo + 1 < hi
        invariant
            lo < hi <= 4294967296,
            (lo as int) * (lo as int) <= x as int,
            (x as int) < (hi as int) * (hi as int),
        decreases hi - lo,
    {
        let mid = lo + (hi - lo) / 2;
        proof {
            assert((mid as int) * (mid as int) <= (4294967295int) * (4294967295int))
                by (nonlinear_arith)
                requires
                    0 <= mid <= 4294967295,
            ;
            assert((4294967295int) * (4294967295int) <= u64::MAX as int) by (nonlinear_arith);
        }
        let sq = mid * mid;
        if sq <= x {
            lo = mid;
        } else {
            hi = mid;
        }
    }
    proof {
        assert((x as int) < ((lo + 1) as int) * ((lo + 1) as int));
        lemma_sqrt_floor_exists(x as int);
        lemma_sqrt_floor_unique(x as int, sqrt_floor(x as int), lo as int);
        assert((lo as int) * (lo as int) == lo * lo) by (nonlinear_arith);
    }
    lo
}

} // verus!
