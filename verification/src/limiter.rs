//! The peak-tracking limiter state machine.
//!
//! The state tracks a running peak/loudness estimate, floored at the
//! configured limit, and a gain coefficient that is the quotient
//! `limit / peak` carried at 60 fractional bits (`GAIN_ONE` stands for a
//! gain of 1.0), fine enough that the product `gain * peak` matches the
//! limit to within `2^-20` relative error over the whole amplitude range.
//! Per sample the tracked peak attacks instantaneously to a larger
//! estimate and decays multiplicatively towards a smaller one.  Turning
//! infinite sustain on freezes the peak at its current maximum and
//! suppresses the release branch.  A long enough run of near-silent input
//! resets the state to `peak == limit`, `gain == 1`.  The gain is floored
//! at the smallest positive value, so it is strictly positive whenever the
//! limit is.

use vstd::prelude::*;

use crate::fixed::{max_spec, AMP_MAX, FIXED_ONE, GAIN_ONE};

verus! {

/// Inputs below this magnitude (about -80 dBFS) count as silence.
pub const SILENCE_THRESHOLD: i64 = 105;

/// How many consecutive silent samples constitute a silence gap.
pub const SILENCE_RUN_SAMPLES: u64 = 10;

/// The gain coefficient for a tracked peak: the quotient `limit / peak` at
/// the gain scale, floored at the smallest positive value.
pub open spec fn gain_for(limit: int, peak: int) -> int {
    max_spec(1, (limit * GAIN_ONE) / peak)
}

/// The attack/release rule for the tracked peak, after it has been floored
/// at the limit: a larger estimate is taken instantly; a smaller one lets
/// the peak decay by the release factor, never below `max(estimate, limit)`
/// and never while infinite sustain holds; otherwise the peak is held.
pub open spec fn limiter_peak_step(
    peak: int,
    estimate: int,
    limit: int,
    release_factor: int,
    infinite_sustain: bool,
) -> int {
    let floored = max_spec(peak, limit);
    if estimate > floored {
        estimate
    } else if estimate < floored && floored > limit && !infinite_sustain {
        let decayed = (floored * release_factor) / (FIXED_ONE as int);
        max_spec(decayed, max_spec(estimate, limit))
    } else {
        floored
    }
}

/// One full update of the limiter state: silence-gap reset and counting,
/// then the peak rule.  Returns the new tracked peak, the new silence-run
/// length, and whether the silence gap fired (on which the caller clears
/// its meter history).  While infinite sustain holds and the peak is still
/// above the limit, the gap does not fire: a frozen maximum is kept even
/// through silence.
pub open spec fn limiter_step(
    s: LimiterState,
    estimate: int,
    sample_abs: int,
    limit: int,
    release_factor: int,
    infinite_sustain: bool,
) -> (int, int, bool) {
    let silent = sample_abs < SILENCE_THRESHOLD;
    let gap = silent && s.silence_run >= SILENCE_RUN_SAMPLES && (!infinite_sustain || s.peak
        == limit);
    let peak1 = if gap {
        limit
    } else {
        s.peak as int
    };
    let run = if !silent {
        0
    } else if gap || s.silence_run == u64::MAX {
        s.silence_run as int
    } else {
        s.silence_run + 1
    };
    (limiter_peak_step(peak1, estimate, limit, release_factor, infinite_sustain), run, gap)
}

pub struct LimiterState {
    /// The tracked peak/loudness estimate; never below the limit.
    pub peak: i64,
    /// The gain coefficient `limit / peak` at the gain scale; `GAIN_ONE`
    /// exactly while at the limit.
    pub gain: i64,
    /// The ceiling the tracked peak is held against.
    pub limit: i64,
    /// While set, the peak is frozen at its maximum: the release branch is
    /// suppressed and a silence gap does not pull it down.
    pub infinite_sustain: bool,
    /// Length of the current run of near-silent input samples.
    pub silence_run: u64,
}

impl LimiterState {
    /// Well-formedness: the peak sits at or above the positive limit and
    /// the gain is exactly the rounded-down quotient `limit / peak` at the
    /// gain scale, strictly positive and at most 1.0.
    pub open spec fn wf(self) -> bool {
        &&& 1 <= self.limit <= AMP_MAX
        &&& self.limit <= self.peak <= AMP_MAX
        &&& self.gain == gain_for(self.limit as int, self.peak as int)
        &&& 1 <= self.gain <= GAIN_ONE
    }

    /// A fresh limiter at the given limit: peak at the limit, gain 1.0.
    pub fn new(limit: i64) -> (r: LimiterState)
        requires
            1 <= limit <= AMP_MAX,
        ensures
            r.wf(),
            r.peak == limit,
            r.gain == GAIN_ONE,
            r.limit == limit,
            !r.infinite_sustain,
            r.silence_run == 0,
    {
        proof {
            lemma_gain_at_limit(limit as int);
        }
        LimiterState {
            peak: limit,
            gain: GAIN_ONE,
            limit,
            infinite_sustain: false,
            silence_run: 0,
        }
    }

    /// Forces the state back to the floor: peak exactly at the limit and
    /// gain exactly 1.0.
    pub fn reset(&mut self, limit: i64) -> (unit: ())
        requires
            old(self).wf(),
            1 <= limit <= AMP_MAX,
        ensures
            final(self).wf(),
            final(self).peak == limit,
            final(self).gain == GAIN_ONE,
            final(self).limit == limit,
            final(self).infinite_sustain == old(self).infinite_sustain,
            final(self).silence_run == old(self).silence_run,
    {
        proof {
            lemma_gain_at_limit(limit as int);
        }
        self.peak = limit;
        self.gain = GAIN_ONE;
        self.limit = limit;
    }

    /// One per-sample update.  Returns the new gain coefficient and whether
    /// the silence gap fired, on which the caller clears its
    /// accumulator/meter history.
    pub fn update(
        &mut self,
        estimate: i64,
        sample_abs: i64,
        limit: i64,
        release_factor: i64,
        infinite_sustain: bool,
    ) -> (r: (i64, bool))
        requires
            old(self).wf(),
            0 <= estimate <= AMP_MAX,
            0 <= sample_abs,
            1 <= limit <= AMP_MAX,
            0 <= release_factor <= FIXED_ONE,
        ensures
            final(self).wf(),
            final(self).limit == limit,
            final(self).infinite_sustain == infinite_sustain,
            ({
                let (peak, run, did_reset) = limiter_step(
                    *old(self),
                    estimate as int,
                    sample_abs as int,
                    limit as int,
                    release_factor as int,
                    infinite_sustain,
                );
                &&& final(self).peak == peak
                &&& final(self).silence_run == run
                &&& r.1 == did_reset
            }),
            final(self).gain == gain_for(limit as int, final(self).peak as int),
            r.0 == final(self).gain,
    {
        self.infinite_sustain = infinite_sustain;
        let silent = sample_abs < SILENCE_THRESHOLD;
        let mut did_reset = false;
        if silent {
            if self.silence_run >= SILENCE_RUN_SAMPLES && (!infinite_sustain || self.peak == limit) {
                self.peak = limit;
                did_reset = true;
            } else if self.silence_run < u64::MAX {
                self.silence_run = self.silence_run + 1;
            }
        } else {
            self.silence_run = 0;
        }
        // attack / release / hold on the floored peak
        let floored = if self.peak >= limit {
            self.peak
        } else {
            limit
        };
        if estimate > floored {
            self.peak = estimate;
        } else if estimate < floored && floored > limit && !infinite_sustain {
            proof {
                assert(0 <= (floored as int) * (release_factor as int)
                    <= 0x1000000000000000int) by (nonlinear_arith)
                    requires
                        0 <= floored <= 0x10000000000int,
                        0 <= release_factor <= 1048576,
                ;
            }
            let decayed = (((floored as u64) * (release_factor as u64)) / (FIXED_ONE as u64)) as i64;
            let lower = if estimate >= limit {
                estimate
            } else {
                limit
            };
            self.peak = if decayed >= lower {
                decayed
            } else {
                lower
            };
        } else {
            self.peak = floored;
        }
        self.limit = limit;
        proof {
            lemma_gain_quotient_in_range(limit as int, self.peak as int);
        }
        let quotient = (((limit as u128) * (GAIN_ONE as u128)) / (self.peak as u128)) as i64;
        self.gain = if quotient >= 1 {
            quotient
        } else {
            1
        };
        (self.gain, did_reset)
    }
}

/// The scaled quotient `limit / peak` is positive and at most 1.0 for any
/// peak at or above the limit.
proof fn lemma_gain_quotient_in_range(limit: int, peak: int)
    requires
        1 <= limit <= peak,
        peak <= AMP_MAX,
    ensures
        1 <= (limit * GAIN_ONE) / peak <= GAIN_ONE,
{
    assert(1 <= limit * GAIN_ONE <= peak * GAIN_ONE) by (nonlinear_arith)
        requires
            1 <= limit <= peak,
            GAIN_ONE == 1152921504606846976,
    ;
    vstd::arithmetic::div_mod::lemma_div_pos_is_pos(limit * GAIN_ONE, peak);
    vstd::arithmetic::div_mod::lemma_div_is_ordered(limit * GAIN_ONE, peak * GAIN_ONE, peak);
    assert(peak * GAIN_ONE == peak * (GAIN_ONE as int)) by (nonlinear_arith);
    vstd::arithmetic::div_mod::lemma_div_multiples_vanish(GAIN_ONE as int, peak);
    assert(peak * (GAIN_ONE as int) / peak == GAIN_ONE);
    vstd::arithmetic::div_mod::lemma_div_is_ordered(peak, limit * GAIN_ONE, peak);
    vstd::arithmetic::div_mod::lemma_div_by_self(peak);
}

/// At the limit itself the quotient is exact: `gain_for(limit, limit)` is
/// precisely 1.0.
pub proof fn lemma_gain_at_limit(limit: int)
    requires
        1 <= limit,
    ensures
        gain_for(limit, limit) == GAIN_ONE,
{
    vstd::arithmetic::div_mod::lemma_div_multiples_vanish(GAIN_ONE as int, limit);
    assert(limit * (GAIN_ONE as int) == (GAIN_ONE as int) * limit) by (nonlinear_arith);
}

/// The limiter invariant: in every well-formed state the gain is the exact
/// rounded-down quotient of the scaled limit by the peak, so `gain * peak`
/// misses `limit * GAIN_ONE` by less than `peak`; since the peak is at most
/// `GAIN_ONE / FIXED_ONE`, the relative error of `gain * peak` against the
/// scaled limit is below one part in `FIXED_ONE` (about 1e-6), well within
/// a 1e-5 tolerance — with no condition on how far the peak sits above the
/// limit.
pub proof fn lemma_limiter_gain_tracks(s: LimiterState)
    requires
        s.wf(),
    ensures
        s.gain * s.peak <= s.limit * GAIN_ONE < s.gain * s.peak + s.peak,
        FIXED_ONE * (s.limit * GAIN_ONE - s.gain * s.peak) < s.limit * GAIN_ONE,
{
    let l = s.limit as int;
    let p = s.peak as int;
    let q = (l * (GAIN_ONE as int)) / p;
    lemma_gain_quotient_in_range(l, p);
    vstd::arithmetic::div_mod::lemma_fundamental_div_mod(l * (GAIN_ONE as int), p);
    assert(s.gain == q);
    assert(p * q == q * p) by (nonlinear_arith);
    assert(FIXED_ONE * (l * GAIN_ONE - q * p) < FIXED_ONE * p) by (nonlinear_arith)
        requires
            l * GAIN_ONE - q * p < p,
            FIXED_ONE == 1048576,
    ;
    assert(FIXED_ONE * p <= l * GAIN_ONE) by (nonlinear_arith)
        requires
            1 <= l,
            p <= AMP_MAX,
            AMP_MAX == 1099511627776,
            FIXED_ONE == 1048576,
            GAIN_ONE == 1152921504606846976,
    ;
}

} // verus!
