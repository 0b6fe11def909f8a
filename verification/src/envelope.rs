//! Attack/release smoothing of a nonnegative control signal.
//!
//! Of the two smoothing models found in practice, this envelope implements
//! the exponential decibel-domain one: per sample the value is multiplied by
//! a fixed coefficient (greater than one while attacking towards a larger
//! target, smaller than one while releasing towards a smaller one) and then
//! clamped so it never passes the target.  The coefficients correspond to a
//! fixed decibel budget spread over the configured attack or release time;
//! an attack or release of zero milliseconds maps to the largest (smallest)
//! admissible coefficient rather than to a division by zero.  The output is
//! floored at the smallest positive fixed-point value, so downstream
//! divisions never see zero.
//!
//! The attack multiplication rounds up and the release multiplication rounds
//! down, so a strictly-greater-than-one attack coefficient makes strict
//! progress from any positive value: the proofs below show convergence to
//! the target in finitely many steps, without overshoot.

use vstd::prelude::*;

use crate::fixed::{div_scale_up, max_spec, min_spec, AMP_MAX, FIXED_ONE};

verus! {

/// Largest admissible attack coefficient: large enough that one step from
/// the smallest positive value reaches any admissible target.
pub const ATTACK_COEFFICIENT_MAX: i64 = 1152921504606846976;

/// One smoothing step: the value moves multiplicatively towards `target`
/// and never passes it, then is floored at the smallest positive value.
pub open spec fn envelope_step(v: int, ac: int, rc: int, target: int) -> int {
    let moved = if target > v {
        min_spec(div_scale_up(v * ac), target)
    } else if target < v {
        max_spec((v * rc) / (FIXED_ONE as int), target)
    } else {
        v
    };
    max_spec(moved, 1)
}

/// `n` smoothing steps towards a constant `target`.
pub open spec fn envelope_run(v: int, ac: int, rc: int, target: int, n: nat) -> int
    decreases n,
{
    if n == 0 {
        v
    } else {
        envelope_step(envelope_run(v, ac, rc, target, (n - 1) as nat), ac, rc, target)
    }
}

/// One attack step towards a target at or above the current value never
/// overshoots the target, never moves down, and from any value below the
/// target moves up by at least one.
pub proof fn lemma_envelope_step_attack(v: int, ac: int, rc: int, target: int)
    requires
        0 <= v <= target,
        1 <= target,
        FIXED_ONE < ac,
    ensures
        v <= envelope_step(v, ac, rc, target) <= target,
        envelope_step(v, ac, rc, target) >= min_spec(target, v + 1),
{
    if v < target {
        if v == 0 {
            assert(div_scale_up(0 * ac) == 0);
        } else {
            assert(v * ac >= v * (FIXED_ONE as int) + v) by (nonlinear_arith)
                requires
                    1 <= v,
                    ac >= FIXED_ONE + 1,
            ;
            assert((v + 1) * (FIXED_ONE as int) == v * (FIXED_ONE as int) + FIXED_ONE)
                by (nonlinear_arith);
            vstd::arithmetic::div_mod::lemma_div_is_ordered(
                (v + 1) * (FIXED_ONE as int),
                v * ac + FIXED_ONE - 1,
                FIXED_ONE as int,
            );
            vstd::arithmetic::div_mod::lemma_div_multiples_vanish(v + 1, FIXED_ONE as int);
            assert(div_scale_up(v * ac) >= v + 1);
        }
    }
}

/// One release step towards a target at or below the current value never
/// moves up, never falls below the target or the positive floor, and from
/// any value above both moves down by at least one.
pub proof fn lemma_envelope_step_release(v: int, ac: int, rc: int, target: int)
    requires
        1 <= v <= AMP_MAX,
        0 <= target <= v,
        0 <= rc < FIXED_ONE,
    ensures
        max_spec(target, 1) <= envelope_step(v, ac, rc, target) <= v,
        envelope_step(v, ac, rc, target) <= max_spec(max_spec(target, 1), v - 1),
{
    if target < v {
        assert(v * rc <= v * (FIXED_ONE as int) - v) by (nonlinear_arith)
            requires
                1 <= v,
                0 <= rc <= FIXED_ONE - 1,
        ;
        assert((v - 1) * (FIXED_ONE as int) == v * (FIXED_ONE as int) - FIXED_ONE)
            by (nonlinear_arith);
        vstd::arithmetic::div_mod::lemma_div_is_ordered(
            v * rc,
            v * (FIXED_ONE as int) - 1,
            FIXED_ONE as int,
        );
        vstd::arithmetic::div_mod::lemma_fundamental_div_mod_converse(
            v * (FIXED_ONE as int) - 1,
            FIXED_ONE as int,
            v - 1,
            (FIXED_ONE - 1) as int,
        );
        vstd::arithmetic::div_mod::lemma_div_pos_is_pos(v * rc, FIXED_ONE as int);
    }
}

/// Fed a constant target at or above the start value, successive outputs
/// are non-decreasing, never overshoot the target, and reach it within
/// `target` steps: after `n` steps the value is at least `min(target, v + n)`.
pub proof fn lemma_envelope_attack_converges(v: int, ac: int, rc: int, target: int, n: nat)
    requires
        0 <= v <= target,
        1 <= target,
        FIXED_ONE < ac,
    ensures
        envelope_run(v, ac, rc, target, n) <= envelope_run(v, ac, rc, target, n + 1) <= target,
        v <= envelope_run(v, ac, rc, target, n) <= target,
        envelope_run(v, ac, rc, target, n) >= min_spec(target, v + n),
    decreases n,
{
    if n == 0 {
        lemma_envelope_step_attack(v, ac, rc, target);
    } else {
        lemma_envelope_attack_converges(v, ac, rc, target, (n - 1) as nat);
        let prev = envelope_run(v, ac, rc, target, (n - 1) as nat);
        let cur = envelope_run(v, ac, rc, target, n);
        lemma_envelope_step_attack(prev, ac, rc, target);
        lemma_envelope_step_attack(cur, ac, rc, target);
    }
}

/// Fed a constant target at or below the start value, successive outputs
/// are non-increasing, never fall below the target or the positive floor,
/// and come down to `max(target, 1)` within `v` steps.
pub proof fn lemma_envelope_release_converges(v: int, ac: int, rc: int, target: int, n: nat)
    requires
        1 <= v <= AMP_MAX,
        0 <= target <= v,
        0 <= rc < FIXED_ONE,
    ensures
        envelope_run(v, ac, rc, target, n + 1) <= envelope_run(v, ac, rc, target, n) <= v,
        max_spec(target, 1) <= envelope_run(v, ac, rc, target, n),
        envelope_run(v, ac, rc, target, n) <= max_spec(max_spec(target, 1), v - n),
    decreases n,
{
    if n == 0 {
        lemma_envelope_step_release(v, ac, rc, target);
    } else {
        lemma_envelope_release_converges(v, ac, rc, target, (n - 1) as nat);
        let prev = envelope_run(v, ac, rc, target, (n - 1) as nat);
        let cur = envelope_run(v, ac, rc, target, n);
        lemma_envelope_step_release(prev, ac, rc, target);
        lemma_envelope_step_release(cur, ac, rc, target);
    }
}

pub struct Envelope {
    /// The smoothed value.
    pub value: i64,
    /// Per-sample multiplier while the target is above the value; at least 1.0.
    pub attack_coefficient: i64,
    /// Per-sample multiplier while the target is below the value; at most 1.0.
    pub release_coefficient: i64,
}

impl Envelope {
    /// Well-formedness: the value is a bounded nonnegative amplitude and the
    /// coefficients lie on the attack (>= 1.0) and release (<= 1.0) sides.
    pub open spec fn wf(self) -> bool {
        &&& 0 <= self.value <= AMP_MAX
        &&& FIXED_ONE <= self.attack_coefficient <= ATTACK_COEFFICIENT_MAX
        &&& 0 <= self.release_coefficient <= FIXED_ONE
    }

    /// A fresh envelope: value zero, both coefficients 1.0 (no smoothing).
    pub fn new() -> (r: Envelope)
        ensures
            r.wf(),
            r.value == 0,
            r.attack_coefficient == FIXED_ONE,
            r.release_coefficient == FIXED_ONE,
    {
        Envelope { value: 0, attack_coefficient: FIXED_ONE, release_coefficient: FIXED_ONE }
    }

    /// Feeds one target value and returns the smoothed value.
    pub fn calculate(&mut self, value: i64) -> (r: i64)
        requires
            old(self).wf(),
            0 <= value <= AMP_MAX,
        ensures
            final(self).wf(),
            final(self).attack_coefficient == old(self).attack_coefficient,
            final(self).release_coefficient == old(self).release_coefficient,
            final(self).value == envelope_step(
                old(self).value as int,
                old(self).attack_coefficient as int,
                old(self).release_coefficient as int,
                value as int,
            ),
            r == final(self).value,
    {
        let ghost v0 = self.value as int;
        if value > self.value {
            proof {
                assert(0 <= v0 * (self.attack_coefficient as int)
                    <= 0x10000000000000000000000000int) by (nonlinear_arith)
                    requires
                        0 <= v0 <= 0x10000000000int,
                        0 <= self.attack_coefficient <= 0x1000000000000000int,
                ;
            }
            let wide: i128 = (self.value as i128) * (self.attack_coefficient as i128);
            let grown_wide: u128 = ((wide as u128) + ((FIXED_ONE - 1) as u128)) / (FIXED_ONE as u128);
            if grown_wide >= (value as u128) {
                self.value = value;
            } else {
                self.value = grown_wide as i64;
            }
        } else if value < self.value {
            proof {
                assert(v0 * (self.release_coefficient as int) <= v0 * (FIXED_ONE as int) && 0 <= v0 * (
                self.release_coefficient as int) && v0 * (FIXED_ONE as int)
                    <= 0x10000000000000000000000000int) by (nonlinear_arith)
                    requires
                        0 <= v0 <= 0x10000000000int,
                        0 <= self.release_coefficient <= FIXED_ONE,
                        FIXED_ONE == 1048576,
                ;
                assert(v0 * (FIXED_ONE as int) / (FIXED_ONE as int) == v0) by (nonlinear_arith)
                    requires
                        0 <= v0,
                ;
                vstd::arithmetic::div_mod::lemma_div_is_ordered(
                    v0 * (self.release_coefficient as int),
                    v0 * (FIXED_ONE as int),
                    FIXED_ONE as int,
                );
            }
            let wide: i128 = (self.value as i128) * (self.release_coefficient as i128);
            let decayed: i64 = ((wide as u128) / (FIXED_ONE as u128)) as i64;
            if decayed >= value {
                self.value = decayed;
            } else {
                self.value = value;
            }
        }
        if self.value < 1 {
            self.value = 1;
        }
        self.value
    }

    /// Installs new attack and release coefficients.  The conversion from
    /// millisecond time constants to per-sample coefficients is exponential
    /// and is done by the host boundary; this engine takes the resulting
    /// fixed-point multipliers.
    pub fn set_coefficients(&mut self, attack_coefficient: i64, release_coefficient: i64) -> (unit:
        ())
        requires
            old(self).wf(),
            FIXED_ONE <= attack_coefficient <= ATTACK_COEFFICIENT_MAX,
            0 <= release_coefficient <= FIXED_ONE,
        ensures
            final(self).wf(),
            final(self).value == old(self).value,
            final(self).attack_coefficient == attack_coefficient,
            final(self).release_coefficient == release_coefficient,
    {
        self.attack_coefficient = attack_coefficient;
        self.release_coefficient = release_coefficient;
    }
}

} // verus!
