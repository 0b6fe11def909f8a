//! The canonical per-sample processing engine.
//!
//! One engine owns the whole chain the near-duplicate plugin variants
//! repeat: input gain, K-weighting and dual windowed metering, envelope
//! smoothing of the loudness estimate, the peak-tracking limiter, a
//! look-ahead delay of the raw input, output gain, and a hard output
//! ceiling.  Parameters arrive as an immutable per-call snapshot of plain
//! fixed-point values; decibel and millisecond conversions happen at the
//! host boundary.
//!
//! Per sample: the raw pair is scaled by the input gain and fed to the
//! meter; the loudness estimate (or, while the meter is still warming up,
//! the instantaneous sample magnitude) is smoothed by the loudness
//! envelope, the fast power meter's amplitude is smoothed by its own
//! envelope, and the larger of the two layered readings drives the
//! limiter; the raw pair, delayed, is scaled by input gain, output gain
//! and the limiter gain, and finally clamped to the hard limit.  A toggle
//! of the reset control or a long enough silence gap puts the limiter back
//! at `gain == 1` and clears the measurement history (including the
//! current sample); turning infinite sustain on freezes the tracked peak
//! where it stands.

use vstd::prelude::*;

use crate::delay_buffer::{delayed_output, DelayBuffer};
use crate::envelope::{envelope_step, Envelope};
use crate::fixed::{
    abs_i64, abs_spec, clamp_i64, clamp_spec, div_gain, div_gain_i128, div_scale, div_scale_i128,
    lemma_div_scale_bound, max_spec, min_spec, AMP_MAX, FIXED_ONE, GAIN_ONE,
};
use crate::limiter::{gain_for, limiter_step, LimiterState};
use crate::loudness::{
    amplitude_of_mean, meter_loudness, power_amplitude, prefilter_after, prefilter_out,
    weighted_power, Filter, Loudness, Prefilter,
};
use crate::sum_buffer::{window_sum, MAX_WINDOW};

verus! {

/// Largest linear gain a snapshot may carry (about +84 dB).
pub const GAIN_MAX: i64 = 17179869184;

/// Largest raw input sample magnitude the engine accepts (64.0; hosts
/// deliver samples within full scale, 1.0).
pub const SAMPLE_MAX: i64 = 67108864;

/// The read-only per-call parameter snapshot, in linear fixed-point units.
pub struct ParameterSnapshot {
    /// Linear gain applied to the input before measurement and output.
    pub input_gain: i64,
    /// Linear gain applied to the output.
    pub output_gain: i64,
    /// The loudness/peak ceiling the limiter holds the signal to.
    pub limit: i64,
    /// Hard output sample ceiling, applied after all gain stages.
    pub hard_limit: i64,
    /// Per-sample multiplicative release factor for the tracked peak.
    pub release_factor: i64,
    /// Freezes the tracked peak and suppresses the release branch.
    pub infinite_sustain: bool,
    /// Toggle-style reset control: a change forces a limiter/meter reset.
    pub reset: bool,
}

impl ParameterSnapshot {
    pub open spec fn wf(self) -> bool {
        &&& 0 <= self.input_gain <= GAIN_MAX
        &&& 0 <= self.output_gain <= GAIN_MAX
        &&& 1 <= self.limit <= AMP_MAX
        &&& 0 <= self.hard_limit <= AMP_MAX
        &&& 0 <= self.release_factor <= FIXED_ONE
    }
}

/// Both members of the pair lie within `[-b, b]`.
pub open spec fn pair_bounded(p: (i64, i64), b: int) -> bool {
    -b <= p.0 <= b && -b <= p.1 <= b
}

/// A prefilter with its rolling state cleared, coefficients kept.
pub open spec fn prefilter_cleared(p: Prefilter) -> Prefilter {
    Prefilter {
        first: Filter { x1: 0, x2: 0, y1: 0, y2: 0, ..p.first },
        second: Filter { x1: 0, x2: 0, y1: 0, y2: 0, ..p.second },
    }
}

pub struct Engine {
    pub loudness: Loudness,
    /// Smooths the slow loudness meter's reading.
    pub envelope: Envelope,
    /// Smooths the fast power meter's amplitude.
    pub power_envelope: Envelope,
    pub limiter: LimiterState,
    pub delay: DelayBuffer,
    /// Last seen state of the toggle-style reset control.
    pub previous_reset: bool,
}

impl Engine {
    pub open spec fn wf(self) -> bool {
        &&& self.loudness.wf()
        &&& self.envelope.wf()
        &&& self.power_envelope.wf()
        &&& self.limiter.wf()
        &&& self.delay.wf()
        &&& forall|i: int|
            0 <= i < self.delay.spec_inputs().len() ==> #[trigger] pair_bounded(
                self.delay.spec_inputs()[i],
                SAMPLE_MAX as int,
            )
    }

    /// A fresh engine: the given channel weighting, window lengths, limit
    /// and look-ahead delay; envelope at rest; limiter at the limit.
    pub fn new(
        prefilter: Prefilter,
        samples_num_per_loudness_window: usize,
        samples_num_per_power_window: usize,
        limit: i64,
        delay: usize,
    ) -> (r: Engine)
        requires
            prefilter.wf(),
            1 <= samples_num_per_loudness_window <= MAX_WINDOW,
            1 <= samples_num_per_power_window <= MAX_WINDOW,
            1 <= limit <= AMP_MAX,
            delay < usize::MAX,
        ensures
            r.wf(),
            r.loudness.samples_num_per_loudness_window == samples_num_per_loudness_window,
            r.loudness.samples_num_per_power_window == samples_num_per_power_window,
            r.loudness.count == 0,
            r.envelope.value == 0,
            r.power_envelope.value == 0,
            r.limiter.peak == limit && r.limiter.gain == GAIN_ONE && r.limiter.limit == limit,
            r.delay.spec_delay() == delay,
            r.delay.spec_inputs() == Seq::<(i64, i64)>::empty(),
            !r.previous_reset,
    {
        Engine {
            loudness: Loudness::new(
                prefilter,
                samples_num_per_loudness_window,
                samples_num_per_power_window,
            ),
            envelope: Envelope::new(),
            power_envelope: Envelope::new(),
            limiter: LimiterState::new(limit),
            delay: DelayBuffer::new(delay),
            previous_reset: false,
        }
    }

    /// Processes one raw stereo sample pair under the given snapshot and
    /// returns the output pair.  The contract below walks the whole chain:
    /// optional edge-triggered reset, input gain, weighting and windowed
    /// metering, meter readiness and decimation, envelope smoothing,
    /// limiter update, look-ahead delay, the three gain stages and the
    /// final hard clamp.
    pub fn process(&mut self, left_in: i64, right_in: i64, params: &ParameterSnapshot) -> (r: (
        i64,
        i64,
    ))
        requires
            old(self).wf(),
            params.wf(),
            -SAMPLE_MAX <= left_in <= SAMPLE_MAX,
            -SAMPLE_MAX <= right_in <= SAMPLE_MAX,
        ensures
            final(self).wf(),
            final(self).previous_reset == params.reset,
            final(self).loudness.samples_num_per_loudness_window == old(
                self,
            ).loudness.samples_num_per_loudness_window,
            final(self).loudness.samples_num_per_power_window == old(
                self,
            ).loudness.samples_num_per_power_window,
            final(self).loudness.calculation_interval == old(self).loudness.calculation_interval,
            final(self).envelope.attack_coefficient == old(self).envelope.attack_coefficient,
            final(self).envelope.release_coefficient == old(self).envelope.release_coefficient,
            final(self).power_envelope.attack_coefficient == old(
                self,
            ).power_envelope.attack_coefficient,
            final(self).power_envelope.release_coefficient == old(
                self,
            ).power_envelope.release_coefficient,
            final(self).delay.spec_delay() == old(self).delay.spec_delay(),
            final(self).delay.spec_inputs() == old(self).delay.spec_inputs().push(
                (left_in, right_in),
            ),
            ({
                let reset_edge = params.reset != old(self).previous_reset;
                let lp0 = if reset_edge {
                    prefilter_cleared(old(self).loudness.left_prefilter)
                } else {
                    old(self).loudness.left_prefilter
                };
                let rp0 = if reset_edge {
                    prefilter_cleared(old(self).loudness.right_prefilter)
                } else {
                    old(self).loudness.right_prefilter
                };
                let lvalues0 = if reset_edge {
                    Seq::<i64>::empty()
                } else {
                    old(self).loudness.loudness_power_buffer.spec_values()
                };
                let pvalues0 = if reset_edge {
                    Seq::<i64>::empty()
                } else {
                    old(self).loudness.power_buffer.spec_values()
                };
                let count0: int = if reset_edge {
                    0
                } else {
                    old(self).loudness.count as int
                };
                let ticks0: int = if reset_edge {
                    0
                } else {
                    old(self).loudness.ticks as int
                };
                let cached0: int = if reset_edge {
                    0
                } else {
                    old(self).loudness.current_loudness as int
                };
                let limiter0 = if reset_edge {
                    LimiterState {
                        peak: params.limit,
                        gain: FIXED_ONE,
                        limit: params.limit,
                        ..old(self).limiter
                    }
                } else {
                    old(self).limiter
                };
                let gl = div_scale(left_in * params.input_gain) as i64;
                let gr = div_scale(right_in * params.input_gain) as i64;
                let sample_abs = max_spec(abs_spec(gl as int), abs_spec(gr as int));
                let p = weighted_power(
                    prefilter_out(lp0, gl) as int,
                    prefilter_out(rp0, gr) as int,
                ) as i64;
                let lvalues1 = lvalues0.push(p);
                let pvalues1 = pvalues0.push(p);
                let lw = old(self).loudness.samples_num_per_loudness_window as int;
                let pw = old(self).loudness.samples_num_per_power_window as int;
                let lmean = window_sum(lvalues1, lw) / lw;
                let pmean = window_sum(pvalues1, pw) / pw;
                let interval = old(self).loudness.calculation_interval as int;
                let cached1 = if ticks0 + 1 >= interval {
                    meter_loudness(lmean)
                } else {
                    cached0
                };
                let count1 = min_spec(count0 + 1, u64::MAX as int);
                let mute = count1 < lw && params.infinite_sustain;
                let estimate = if count1 >= lw {
                    cached1
                } else if mute {
                    0
                } else {
                    sample_abs
                };
                let smoothed = envelope_step(
                    old(self).envelope.value as int,
                    old(self).envelope.attack_coefficient as int,
                    old(self).envelope.release_coefficient as int,
                    estimate,
                );
                let smoothed_power = envelope_step(
                    old(self).power_envelope.value as int,
                    old(self).power_envelope.attack_coefficient as int,
                    old(self).power_envelope.release_coefficient as int,
                    power_amplitude(pmean),
                );
                let drive = max_spec(smoothed, smoothed_power);
                let (peak, run, meter_cleared) = limiter_step(
                    limiter0,
                    drive,
                    sample_abs,
                    params.limit as int,
                    params.release_factor as int,
                    params.infinite_sustain,
                );
                let lgain = gain_for(params.limit as int, peak);
                let delayed = delayed_output(
                    old(self).delay.spec_inputs().push((left_in, right_in)),
                    old(self).delay.spec_delay(),
                );
                let gains = div_scale(params.input_gain * params.output_gain);
                let out_l = if mute {
                    0
                } else {
                    clamp_spec(
                        div_gain(div_scale(delayed.0 * gains) * lgain),
                        -params.hard_limit as int,
                        params.hard_limit as int,
                    )
                };
                let out_r = if mute {
                    0
                } else {
                    clamp_spec(
                        div_gain(div_scale(delayed.1 * gains) * lgain),
                        -params.hard_limit as int,
                        params.hard_limit as int,
                    )
                };
                &&& final(self).envelope.value == smoothed
                &&& final(self).power_envelope.value == smoothed_power
                &&& final(self).limiter.peak == peak
                &&& final(self).limiter.silence_run == run
                &&& final(self).limiter.gain == lgain
                &&& final(self).limiter.limit == params.limit
                &&& final(self).limiter.infinite_sustain == params.infinite_sustain
                &&& r.0 == out_l
                &&& r.1 == out_r
                &&& (meter_cleared ==> final(self).loudness.loudness_power_buffer.spec_values()
                    == Seq::<i64>::empty() && final(self).loudness.power_buffer.spec_values()
                    == Seq::<i64>::empty() && final(self).loudness.count == 0)
                &&& (!meter_cleared ==> final(self).loudness.loudness_power_buffer.spec_values()
                    == lvalues1 && final(self).loudness.power_buffer.spec_values() == pvalues1
                    && final(self).loudness.count == count1 && final(self).loudness.current_loudness
                    == cached1 && final(self).loudness.left_prefilter == prefilter_after(lp0, gl)
                    && final(self).loudness.right_prefilter == prefilter_after(rp0, gr))
            }),
    {
        if params.reset != self.previous_reset {
            self.limiter.reset(params.limit);
            self.loudness.reset();
            self.previous_reset = params.reset;
        }
        let gl = scale_sample(left_in, params.input_gain);
        let gr = scale_sample(right_in, params.input_gain);
        let al = abs_i64(gl);
        let ar = abs_i64(gr);
        let sample_abs = if al >= ar {
            al
        } else {
            ar
        };
        let means = self.loudness.add_samples(gl, gr);
        // silence gating: holding a frozen limit against a meter that has
        // seen no full window yet is not meaningful, so infinite sustain
        // mutes the output until the meter becomes valid
        let mut mute = false;
        let estimate = match self.loudness.loudness() {
            Some(loudness) => loudness,
            None => {
                if params.infinite_sustain {
                    mute = true;
                    0
                } else {
                    sample_abs
                }
            },
        };
        let smoothed = self.envelope.calculate(estimate);
        // the fast power leg of the layered limiting: the power window's
        // amplitude through its own envelope; the louder reading governs
        let power_estimate = amplitude_of_mean(means.1);
        let smoothed_power = self.power_envelope.calculate(power_estimate);
        let drive = if smoothed >= smoothed_power {
            smoothed
        } else {
            smoothed_power
        };
        let (lgain, meter_cleared) = self.limiter.update(
            drive,
            sample_abs,
            params.limit,
            params.release_factor,
            params.infinite_sustain,
        );
        if meter_cleared {
            self.loudness.reset();
        }
        let ghost delay_before = self.delay.spec_inputs();
        let (delayed_left, delayed_right) = self.delay.add(left_in, right_in);
        proof {
            let inputs1 = self.delay.spec_inputs();
            assert forall|i: int| 0 <= i < inputs1.len() implies #[trigger] pair_bounded(
                inputs1[i],
                SAMPLE_MAX as int,
            ) by {
                if i < delay_before.len() {
                    assert(pair_bounded(delay_before[i], SAMPLE_MAX as int));
                    assert(inputs1[i] == delay_before[i]);
                }
            }
            let d = self.delay.spec_delay();
            if inputs1.len() > d {
                assert(pair_bounded(inputs1[inputs1.len() - 1 - d], SAMPLE_MAX as int));
            }
            assert(0 <= (params.input_gain as int) * (params.output_gain as int)
                <= 0x100000000000000000int) by (nonlinear_arith)
                requires
                    0 <= params.input_gain <= 0x400000000int,
                    0 <= params.output_gain <= 0x400000000int,
            ;
            lemma_div_scale_bound(
                (params.input_gain as int) * (params.output_gain as int),
                0x1000000000000int,
            );
        }
        let gains: i64 = div_scale_i128(
            (params.input_gain as i128) * (params.output_gain as i128),
        );
        proof {
            lemma_output_product_bounds(delayed_left, delayed_right, gains);
        }
        let scaled_left: i64 = div_scale_i128((delayed_left as i128) * (gains as i128));
        let scaled_right: i64 = div_scale_i128((delayed_right as i128) * (gains as i128));
        proof {
            lemma_gain_product_bounds(scaled_left, scaled_right, lgain);
        }
        if mute {
            (0, 0)
        } else {
            let out_l = clamp_i64(
                div_gain_i128((scaled_left as i128) * (lgain as i128)),
                -params.hard_limit,
                params.hard_limit,
            );
            let out_r = clamp_i64(
                div_gain_i128((scaled_right as i128) * (lgain as i128)),
                -params.hard_limit,
                params.hard_limit,
            );
            (out_l, out_r)
        }
    }
}

/// A raw input sample scaled by a snapshot gain stays a bounded amplitude.
fn scale_sample(x: i64, g: i64) -> (r: i64)
    requires
        -SAMPLE_MAX <= x <= SAMPLE_MAX,
        0 <= g <= GAIN_MAX,
    ensures
        r == div_scale(x * g),
        -AMP_MAX <= r <= AMP_MAX,
{
    proof {
        assert(-0x1000000000000000int <= (x as int) * (g as int) <= 0x1000000000000000int)
            by (nonlinear_arith)
            requires
                -0x4000000 <= x <= 0x4000000,
                0 <= g <= 0x400000000,
        ;
        lemma_div_scale_bound((x as int) * (g as int), AMP_MAX as int);
    }
    div_scale_i128((x as i128) * (g as i128))
}

/// The delayed raw pair times the combined host gains stays within the
/// scale division's domain, and the quotient within the amplitude range
/// times the gain resolution.
proof fn lemma_output_product_bounds(dl: i64, dr: i64, gains: i64)
    requires
        -SAMPLE_MAX <= dl <= SAMPLE_MAX,
        -SAMPLE_MAX <= dr <= SAMPLE_MAX,
        -0x1000000000000int <= gains <= 0x1000000000000int,
    ensures
        -0x4000000000000000000int <= dl * gains <= 0x4000000000000000000int,
        -0x4000000000000000000int <= dr * gains <= 0x4000000000000000000int,
        -0x40000000000000int <= div_scale(dl * gains) <= 0x40000000000000int,
        -0x40000000000000int <= div_scale(dr * gains) <= 0x40000000000000int,
{
    assert(-0x4000000000000000000int <= (dl as int) * (gains as int)
        <= 0x4000000000000000000int && -0x4000000000000000000int <= (dr as int) * (
    gains as int) <= 0x4000000000000000000int) by (nonlinear_arith)
        requires
            -0x4000000 <= dl <= 0x4000000,
            -0x4000000 <= dr <= 0x4000000,
            -0x1000000000000 <= gains <= 0x1000000000000,
    ;
    lemma_div_scale_bound(dl * gains, 0x40000000000000int);
    lemma_div_scale_bound(dr * gains, 0x40000000000000int);
}

/// The scaled pair times the limiter gain stays within the gain division's
/// domain.
proof fn lemma_gain_product_bounds(sl: i64, sr: i64, lgain: i64)
    requires
        -0x40000000000000 <= sl <= 0x40000000000000,
        -0x40000000000000 <= sr <= 0x40000000000000,
        0 <= lgain <= GAIN_ONE,
    ensures
        -0x40000000000000000000000000000int <= sl * lgain <= 0x40000000000000000000000000000int,
        -0x40000000000000000000000000000int <= sr * lgain <= 0x40000000000000000000000000000int,
{
    assert(-0x40000000000000000000000000000int <= (sl as int) * (lgain as int)
        <= 0x40000000000000000000000000000int && -0x40000000000000000000000000000int <= (
    sr as int) * (lgain as int) <= 0x40000000000000000000000000000int) by (nonlinear_arith)
        requires
            -0x40000000000000 <= sl <= 0x40000000000000,
            -0x40000000000000 <= sr <= 0x40000000000000,
            0 <= lgain <= 0x1000000000000000,
    ;
}

} // verus!
