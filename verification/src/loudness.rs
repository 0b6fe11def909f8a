//! Perceptual loudness measurement: K-weighting prefilter and dual
//! windowed power meter.
//!
//! Each channel runs through two cascaded second-order sections (a
//! high-shelf boost above about 1.68 kHz, then a high-pass below about
//! 38 Hz).  The squared magnitudes of the weighted channels are summed per
//! sample and pushed into two sliding windows of independent length: a slow
//! "loudness" window and a fast "power" window.  The meter reading is
//! `K * sqrt(sum / W)` with the calibration constant `K` of about 0.9235,
//! recomputed every `calculation_interval` samples and held in between, and
//! reported as not yet valid until the loudness window has been filled once.
//!
//! Filter coefficients are fixed-point.  The bilinear-transform design
//! formulas from the sample rate involve transcendental functions and live
//! at the host boundary; the reference coefficient set for 48 kHz is
//! provided here as constants.

use vstd::prelude::*;

use crate::fixed::{
    clamp_spec, div_scale, div_scale_i128, div_scale_round, div_scale_round_i128,
    div_scale_round_wide, isqrt, lemma_div_scale_round_bound, min_spec, sqrt_floor, AMP_MAX,
    FIXED_ONE,
};
use crate::sum_buffer::{window_sum, SumBuffer, MAX_WINDOW};

verus! {

/// Largest coefficient magnitude a filter section may carry (4.0; the
/// K-weighting sections stay below 2.7).
pub const COEF_MAX: i64 = 4194304;

/// Largest magnitude of a filter's rolling state words: `AMP_MAX` at the
/// state scale.  The state carries 20 extra fractional bits beyond the
/// engine's amplitudes, so rounding noise injected into the feedback path
/// stays far below the engine's resolution even where a near-unity pole
/// amplifies it.
pub const STATE_MAX: i64 = 1152921504606846976;

/// The meter calibration constant: 0.9235 in fixed point, the linear
/// equivalent of the -0.691 dB offset of the loudness scale.
pub const LOUDNESS_CALIBRATION: i64 = 968389;

/// High-shelf section coefficients for 48 kHz (fixed-point).
pub const HIGH_SHELF_48K_B0: i64 = 1609695;

pub const HIGH_SHELF_48K_B1: i64 = -2822448;

pub const HIGH_SHELF_48K_B2: i64 = 1256606;

pub const HIGH_SHELF_48K_A1: i64 = -1772785;

pub const HIGH_SHELF_48K_A2: i64 = 768062;

/// High-pass section coefficients for 48 kHz (fixed-point).
pub const HIGH_PASS_48K_B0: i64 = 1048576;

pub const HIGH_PASS_48K_B1: i64 = -2097152;

pub const HIGH_PASS_48K_B2: i64 = 1048576;

pub const HIGH_PASS_48K_A1: i64 = -2086716;

pub const HIGH_PASS_48K_A2: i64 = 1038166;

/// One second-order filter section: five coefficients (at the engine
/// scale) and the last two input and output samples, carried at the finer
/// state scale.
#[derive(Clone, Copy)]
pub struct Filter {
    pub a1: i64,
    pub a2: i64,
    pub b0: i64,
    pub b1: i64,
    pub b2: i64,
    pub x1: i64,
    pub x2: i64,
    pub y1: i64,
    pub y2: i64,
}

/// The unsaturated next state word: the affine combination of the new
/// input (lifted to the state scale), the two past inputs and the two past
/// outputs, scaled back down with rounding to nearest.
pub open spec fn biquad_state_raw(f: Filter, x0: int) -> int {
    div_scale_round(
        f.b0 * (x0 * FIXED_ONE) + f.b1 * f.x1 + f.b2 * f.x2 - f.a1 * f.y1 - f.a2 * f.y2,
    )
}

/// The next output-state word, saturated to the state range (inert for any
/// stable coefficient set on real audio).
pub open spec fn biquad_state(f: Filter, x0: int) -> int {
    clamp_spec(biquad_state_raw(f, x0), -STATE_MAX as int, STATE_MAX as int)
}

/// The biquad output at the engine scale: the output-state word rounded
/// back down.
pub open spec fn biquad_out(f: Filter, x0: int) -> int {
    div_scale_round(biquad_state(f, x0))
}

/// The section state after accepting input `x0`: history shifted by one.
pub open spec fn filter_after(f: Filter, x0: i64) -> Filter {
    Filter {
        x1: (x0 * FIXED_ONE) as i64,
        x2: f.x1,
        y1: biquad_state(f, x0 as int) as i64,
        y2: f.y1,
        ..f
    }
}

impl Filter {
    /// Well-formedness: coefficients and rolling state within range.
    pub open spec fn wf(self) -> bool {
        &&& -COEF_MAX <= self.a1 <= COEF_MAX
        &&& -COEF_MAX <= self.a2 <= COEF_MAX
        &&& -COEF_MAX <= self.b0 <= COEF_MAX
        &&& -COEF_MAX <= self.b1 <= COEF_MAX
        &&& -COEF_MAX <= self.b2 <= COEF_MAX
        &&& -STATE_MAX <= self.x1 <= STATE_MAX
        &&& -STATE_MAX <= self.x2 <= STATE_MAX
        &&& -STATE_MAX <= self.y1 <= STATE_MAX
        &&& -STATE_MAX <= self.y2 <= STATE_MAX
    }

    /// A section with the given coefficients and silent history.
    pub fn new(b0: i64, b1: i64, b2: i64, a1: i64, a2: i64) -> (r: Filter)
        requires
            -COEF_MAX <= b0 <= COEF_MAX,
            -COEF_MAX <= b1 <= COEF_MAX,
            -COEF_MAX <= b2 <= COEF_MAX,
            -COEF_MAX <= a1 <= COEF_MAX,
            -COEF_MAX <= a2 <= COEF_MAX,
        ensures
            r.wf(),
            r.b0 == b0 && r.b1 == b1 && r.b2 == b2 && r.a1 == a1 && r.a2 == a2,
            r.x1 == 0 && r.x2 == 0 && r.y1 == 0 && r.y2 == 0,
    {
        Filter { a1, a2, b0, b1, b2, x1: 0, x2: 0, y1: 0, y2: 0 }
    }

    /// Stage 1 of the K-weighting pre-filter at 48 kHz.
    pub fn high_shelf_48k() -> (r: Filter)
        ensures
            r.wf(),
            r.b0 == HIGH_SHELF_48K_B0 && r.b1 == HIGH_SHELF_48K_B1 && r.b2 == HIGH_SHELF_48K_B2,
            r.a1 == HIGH_SHELF_48K_A1 && r.a2 == HIGH_SHELF_48K_A2,
            r.x1 == 0 && r.x2 == 0 && r.y1 == 0 && r.y2 == 0,
    {
        Filter::new(
            HIGH_SHELF_48K_B0,
            HIGH_SHELF_48K_B1,
            HIGH_SHELF_48K_B2,
            HIGH_SHELF_48K_A1,
            HIGH_SHELF_48K_A2,
        )
    }

    /// Stage 2 of the K-weighting pre-filter at 48 kHz.
    pub fn high_pass_48k() -> (r: Filter)
        ensures
            r.wf(),
            r.b0 == HIGH_PASS_48K_B0 && r.b1 == HIGH_PASS_48K_B1 && r.b2 == HIGH_PASS_48K_B2,
            r.a1 == HIGH_PASS_48K_A1 && r.a2 == HIGH_PASS_48K_A2,
            r.x1 == 0 && r.x2 == 0 && r.y1 == 0 && r.y2 == 0,
    {
        Filter::new(
            HIGH_PASS_48K_B0,
            HIGH_PASS_48K_B1,
            HIGH_PASS_48K_B2,
            HIGH_PASS_48K_A1,
            HIGH_PASS_48K_A2,
        )
    }

    /// Feed the next input sample, get the next output sample.
    pub fn apply(&mut self, x0: i64) -> (y0: i64)
        requires
            old(self).wf(),
            -AMP_MAX <= x0 <= AMP_MAX,
        ensures
            final(self).wf(),
            *final(self) == filter_after(*old(self), x0),
            y0 == biquad_out(*old(self), x0 as int),
            -AMP_MAX <= y0 <= AMP_MAX,
    {
        proof {
            assert(-STATE_MAX <= (x0 as int) * (FIXED_ONE as int) <= STATE_MAX)
                by (nonlinear_arith)
                requires
                    -0x10000000000int <= x0 <= 0x10000000000int,
                    FIXED_ONE == 1048576,
                    STATE_MAX == 1152921504606846976,
            ;
        }
        let xs: i64 = x0 * FIXED_ONE;
        proof {
            lemma_biquad_product_bounds(*self, xs);
        }
        let acc: i128 = (self.b0 as i128) * (xs as i128) + (self.b1 as i128) * (self.x1 as i128)
            + (self.b2 as i128) * (self.x2 as i128) - (self.a1 as i128) * (self.y1 as i128) - (
        self.a2 as i128) * (self.y2 as i128);
        let raw = div_scale_round_wide(acc);
        let state: i64 = if raw < -(STATE_MAX as i128) {
            -STATE_MAX
        } else if raw > (STATE_MAX as i128) {
            STATE_MAX
        } else {
            raw as i64
        };
        proof {
            assert((AMP_MAX as int) * (FIXED_ONE as int) == STATE_MAX) by (nonlinear_arith)
                requires
                    AMP_MAX == 1099511627776,
                    FIXED_ONE == 1048576,
                    STATE_MAX == 1152921504606846976,
            ;
            lemma_div_scale_round_bound(state as int, AMP_MAX as int);
        }
        let y0 = div_scale_round_i128(state as i128);
        self.x2 = self.x1;
        self.x1 = xs;
        self.y2 = self.y1;
        self.y1 = state;
        y0
    }

    /// Forgets the rolling state, keeping the coefficients.
    pub fn reset(&mut self) -> (unit: ())
        requires
            old(self).wf(),
        ensures
            final(self).wf(),
            *final(self) == (Filter { x1: 0, x2: 0, y1: 0, y2: 0, ..*old(self) }),
    {
        self.x1 = 0;
        self.x2 = 0;
        self.y1 = 0;
        self.y2 = 0;
    }
}

/// Each coefficient/state product of a well-formed section is bounded, so
/// the accumulated combination stays within the wide division's domain.
proof fn lemma_biquad_product_bounds(f: Filter, xs: i64)
    requires
        f.wf(),
        -STATE_MAX <= xs <= STATE_MAX,
    ensures
        -0x2000000000000000000000int <= f.b0 * xs + f.b1 * f.x1 + f.b2 * f.x2 - f.a1 * f.y1
            - f.a2 * f.y2 <= 0x2000000000000000000000int,
        -0x400000000000000000000int <= f.b0 * xs <= 0x400000000000000000000int,
        -0x400000000000000000000int <= f.b1 * f.x1 <= 0x400000000000000000000int,
        -0x400000000000000000000int <= f.b2 * f.x2 <= 0x400000000000000000000int,
        -0x400000000000000000000int <= f.a1 * f.y1 <= 0x400000000000000000000int,
        -0x400000000000000000000int <= f.a2 * f.y2 <= 0x400000000000000000000int,
{
    assert forall|c: int, v: int|
        -COEF_MAX <= c <= COEF_MAX && -STATE_MAX <= v <= STATE_MAX implies -0x400000000000000000000int
        <= #[trigger] (c * v) <= 0x400000000000000000000int by {
        assert(-0x400000000000000000000int <= c * v <= 0x400000000000000000000int)
            by (nonlinear_arith)
            requires
                -4194304 <= c <= 4194304,
                -0x1000000000000000int <= v <= 0x1000000000000000int,
        ;
    }
}

/// Two K-weighting sections in series: high-shelf, then high-pass.
#[derive(Clone, Copy)]
pub struct Prefilter {
    pub first: Filter,
    pub second: Filter,
}

/// The intermediate sample between the two sections.
pub open spec fn prefilter_mid(p: Prefilter, x0: i64) -> i64 {
    biquad_out(p.first, x0 as int) as i64
}

/// The weighted sample the cascade produces for input `x0`.
pub open spec fn prefilter_out(p: Prefilter, x0: i64) -> i64 {
    biquad_out(p.second, prefilter_mid(p, x0) as int) as i64
}

/// The cascade state after accepting input `x0`.
pub open spec fn prefilter_after(p: Prefilter, x0: i64) -> Prefilter {
    Prefilter {
        first: filter_after(p.first, x0),
        second: filter_after(p.second, prefilter_mid(p, x0)),
    }
}

impl Prefilter {
    pub open spec fn wf(self) -> bool {
        self.first.wf() && self.second.wf()
    }

    /// A cascade of the two given sections.
    pub fn new(first: Filter, second: Filter) -> (r: Prefilter)
        requires
            first.wf(),
            second.wf(),
        ensures
            r.wf(),
            r.first == first,
            r.second == second,
    {
        Prefilter { first, second }
    }

    /// The K-weighting cascade for 48 kHz with silent history.
    pub fn k_weighting_48k() -> (r: Prefilter)
        ensures
            r.wf(),
            r.first == Filter::high_shelf_48k_spec(),
            r.second == Filter::high_pass_48k_spec(),
    {
        Prefilter::new(Filter::high_shelf_48k(), Filter::high_pass_48k())
    }

    /// Feed a raw sample through both sections.
    pub fn apply(&mut self, sample: i64) -> (r: i64)
        requires
            old(self).wf(),
            -AMP_MAX <= sample <= AMP_MAX,
        ensures
            final(self).wf(),
            *final(self) == prefilter_after(*old(self), sample),
            r == prefilter_out(*old(self), sample),
    {
        let mid = self.first.apply(sample);
        self.second.apply(mid)
    }

    /// Forgets both sections' rolling state.
    pub fn reset(&mut self) -> (unit: ())
        requires
            old(self).wf(),
        ensures
            final(self).wf(),
            final(self).first == (Filter { x1: 0, x2: 0, y1: 0, y2: 0, ..old(self).first }),
            final(self).second == (Filter { x1: 0, x2: 0, y1: 0, y2: 0, ..old(self).second }),
    {
        self.first.reset();
        self.second.reset();
    }
}

impl Filter {
    /// The 48 kHz high-shelf section as a spec value.
    pub open spec fn high_shelf_48k_spec() -> Filter {
        Filter {
            a1: HIGH_SHELF_48K_A1,
            a2: HIGH_SHELF_48K_A2,
            b0: HIGH_SHELF_48K_B0,
            b1: HIGH_SHELF_48K_B1,
            b2: HIGH_SHELF_48K_B2,
            x1: 0,
            x2: 0,
            y1: 0,
            y2: 0,
        }
    }

    /// The 48 kHz high-pass section as a spec value.
    pub open spec fn high_pass_48k_spec() -> Filter {
        Filter {
            a1: HIGH_PASS_48K_A1,
            a2: HIGH_PASS_48K_A2,
            b0: HIGH_PASS_48K_B0,
            b1: HIGH_PASS_48K_B1,
            b2: HIGH_PASS_48K_B2,
            x1: 0,
            x2: 0,
            y1: 0,
            y2: 0,
        }
    }
}

/// The summed squared magnitude of the two weighted channel samples,
/// saturated to the engine's power range.
pub open spec fn weighted_power(l: int, r: int) -> int {
    min_spec(div_scale(l * l + r * r), AMP_MAX as int)
}

/// The meter reading for a mean power: `K * sqrt(mean)` in fixed point.
pub open spec fn meter_loudness(mean: int) -> int {
    div_scale(LOUDNESS_CALIBRATION * sqrt_floor(mean * FIXED_ONE))
}

/// The uncalibrated amplitude of a mean power: `sqrt(mean)` in fixed
/// point, as the fast power meter reports it.
pub open spec fn power_amplitude(mean: int) -> int {
    sqrt_floor(mean * FIXED_ONE)
}

/// The exec amplitude of a mean power: `sqrt(mean)` in fixed point.
pub fn amplitude_of_mean(mean: i64) -> (r: i64)
    requires
        0 <= mean <= AMP_MAX,
    ensures
        r == power_amplitude(mean as int),
        0 <= r <= AMP_MAX,
{
    proof {
        assert((mean as int) * (FIXED_ONE as int) <= 0x1000000000000000int) by (nonlinear_arith)
            requires
                0 <= mean <= 0x10000000000int,
                FIXED_ONE == 1048576,
        ;
    }
    let wide: u64 = (mean as u64) * (FIXED_ONE as u64);
    let root = isqrt(wide);
    proof {
        assert(wide <= 0x1000000000000000u64);
        assert((root as int) * (root as int) <= 0x1000000000000000int);
        assert(root <= 0x40000000u64) by (nonlinear_arith)
            requires
                (root as int) * (root as int) <= 0x1000000000000000int,
        ;
    }
    root as i64
}

/// The dual loudness/power meter over one stereo stream.
pub struct Loudness {
    /// Window length of the slow loudness meter, in samples.
    pub samples_num_per_loudness_window: usize,
    /// Window length of the fast power meter, in samples.
    pub samples_num_per_power_window: usize,
    /// The meter reading is recomputed every this many samples and held in
    /// between.
    pub calculation_interval: usize,
    /// Samples accepted since construction, reset or loudness-window change.
    pub count: u64,
    /// Samples since the last meter recomputation.
    pub ticks: usize,
    /// The held meter reading.
    pub current_loudness: i64,
    pub left_prefilter: Prefilter,
    pub right_prefilter: Prefilter,
    pub loudness_power_buffer: SumBuffer,
    pub power_buffer: SumBuffer,
}

impl Loudness {
    /// Well-formedness: both windows and the cascades are well-formed, the
    /// buffers hold only nonnegative powers, and the held reading is a
    /// bounded nonnegative amplitude.
    pub open spec fn wf(self) -> bool {
        &&& self.left_prefilter.wf()
        &&& self.right_prefilter.wf()
        &&& self.loudness_power_buffer.wf()
        &&& self.power_buffer.wf()
        &&& self.loudness_power_buffer.spec_size() == self.samples_num_per_loudness_window
        &&& self.power_buffer.spec_size() == self.samples_num_per_power_window
        &&& 1 <= self.calculation_interval <= MAX_WINDOW
        &&& self.ticks < self.calculation_interval
        &&& 0 <= self.current_loudness <= AMP_MAX
        &&& forall|j: int|
            0 <= j < self.loudness_power_buffer.spec_values().len() ==> 0
                <= #[trigger] self.loudness_power_buffer.spec_values()[j]
        &&& forall|j: int|
            0 <= j < self.power_buffer.spec_values().len() ==> 0
                <= #[trigger] self.power_buffer.spec_values()[j]
    }

    /// A meter with the given channel weighting and window lengths.  The
    /// reading is recomputed every sample until an interval is set.
    pub fn new(
        prefilter: Prefilter,
        samples_num_per_loudness_window: usize,
        samples_num_per_power_window: usize,
    ) -> (r: Loudness)
        requires
            prefilter.wf(),
            1 <= samples_num_per_loudness_window <= MAX_WINDOW,
            1 <= samples_num_per_power_window <= MAX_WINDOW,
        ensures
            r.wf(),
            r.samples_num_per_loudness_window == samples_num_per_loudness_window,
            r.samples_num_per_power_window == samples_num_per_power_window,
            r.calculation_interval == 1,
            r.count == 0,
            r.current_loudness == 0,
            r.left_prefilter == prefilter,
            r.right_prefilter == prefilter,
            r.loudness_power_buffer.spec_values() == Seq::<i64>::empty(),
            r.power_buffer.spec_values() == Seq::<i64>::empty(),
    {
        Loudness {
            samples_num_per_loudness_window,
            samples_num_per_power_window,
            calculation_interval: 1,
            count: 0,
            ticks: 0,
            current_loudness: 0,
            left_prefilter: prefilter,
            right_prefilter: prefilter,
            loudness_power_buffer: SumBuffer::new(samples_num_per_loudness_window),
            power_buffer: SumBuffer::new(samples_num_per_power_window),
        }
    }

    /// Feeds one stereo sample pair: weights both channels, pushes their
    /// summed squared magnitude into both windows, and returns the two mean
    /// powers (loudness window first).  Every `calculation_interval`-th call
    /// also recomputes the held meter reading from the loudness mean.
    pub fn add_samples(&mut self, left_sample: i64, right_sample: i64) -> (r: (i64, i64))
        requires
            old(self).wf(),
            -AMP_MAX <= left_sample <= AMP_MAX,
            -AMP_MAX <= right_sample <= AMP_MAX,
        ensures
            final(self).wf(),
            final(self).samples_num_per_loudness_window == old(self).samples_num_per_loudness_window,
            final(self).samples_num_per_power_window == old(self).samples_num_per_power_window,
            final(self).calculation_interval == old(self).calculation_interval,
            final(self).left_prefilter == prefilter_after(old(self).left_prefilter, left_sample),
            final(self).right_prefilter == prefilter_after(
                old(self).right_prefilter,
                right_sample,
            ),
            final(self).count == min_spec(old(self).count + 1, u64::MAX as int),
            ({
                let p = weighted_power(
                    prefilter_out(old(self).left_prefilter, left_sample) as int,
                    prefilter_out(old(self).right_prefilter, right_sample) as int,
                );
                let lw = old(self).samples_num_per_loudness_window as int;
                let pw = old(self).samples_num_per_power_window as int;
                let lvalues = old(self).loudness_power_buffer.spec_values().push(p as i64);
                let pvalues = old(self).power_buffer.spec_values().push(p as i64);
                let lmean = window_sum(lvalues, lw) / lw;
                &&& final(self).loudness_power_buffer.spec_values() == lvalues
                &&& final(self).power_buffer.spec_values() == pvalues
                &&& r.0 == lmean
                &&& r.1 == window_sum(pvalues, pw) / pw
                &&& 0 <= r.0 <= AMP_MAX
                &&& 0 <= r.1 <= AMP_MAX
                &&& (old(self).ticks + 1 >= old(self).calculation_interval ==> final(self).ticks
                    == 0 && final(self).current_loudness == meter_loudness(lmean))
                &&& (old(self).ticks + 1 < old(self).calculation_interval ==> final(self).ticks
                    == old(self).ticks + 1 && final(self).current_loudness == old(self).current_loudness)
            }),
    {
        let ghost s0 = *old(self);
        let wl = self.left_prefilter.apply(left_sample);
        let wr = self.right_prefilter.apply(right_sample);
        proof {
            assert(0 <= (wl as int) * (wl as int) <= 0x100000000000000000000int && 0 <= (wr as int)
                * (wr as int) <= 0x100000000000000000000int) by (nonlinear_arith)
                requires
                    -0x10000000000int <= wl <= 0x10000000000int,
                    -0x10000000000int <= wr <= 0x10000000000int,
            ;
        }
        let sq: i128 = (wl as i128) * (wl as i128) + (wr as i128) * (wr as i128);
        let scaled = div_scale_i128(sq);
        let p = if scaled >= AMP_MAX {
            AMP_MAX
        } else {
            scaled
        };
        proof {
            vstd::arithmetic::div_mod::lemma_div_pos_is_pos(sq as int, FIXED_ONE as int);
        }
        let loudness_sum = self.loudness_power_buffer.add(p);
        let power_sum = self.power_buffer.add(p);
        proof {
            lemma_mean_in_range(
                self.loudness_power_buffer.spec_values(),
                s0.samples_num_per_loudness_window as int,
            );
            lemma_mean_in_range(
                self.power_buffer.spec_values(),
                s0.samples_num_per_power_window as int,
            );
        }
        let lmean = ((loudness_sum as u64) / (self.samples_num_per_loudness_window as u64)) as i64;
        let pmean = ((power_sum as u64) / (self.samples_num_per_power_window as u64)) as i64;
        if self.count < u64::MAX {
            self.count = self.count + 1;
        }
        self.ticks = self.ticks + 1;
        if self.ticks >= self.calculation_interval {
            self.ticks = 0;
            self.current_loudness = loudness_of_mean(lmean);
        }
        (lmean, pmean)
    }

    /// The held meter reading, or nothing while the loudness window has not
    /// yet been observed in full.  A caller must fall back to some other
    /// estimate (such as the instantaneous sample magnitude) in that case.
    pub fn loudness(&self) -> (r: Option<i64>)
        requires
            self.wf(),
        ensures
            r is Some <==> self.count >= self.samples_num_per_loudness_window,
            r matches Some(v) ==> v == self.current_loudness && 0 <= v <= AMP_MAX,
    {
        if self.count >= (self.samples_num_per_loudness_window as u64) {
            Some(self.current_loudness)
        } else {
            None
        }
    }

    /// Forgets all measurement history: filters, windows, warm-up count and
    /// the held reading.
    pub fn reset(&mut self) -> (unit: ())
        requires
            old(self).wf(),
        ensures
            final(self).wf(),
            final(self).samples_num_per_loudness_window == old(self).samples_num_per_loudness_window,
            final(self).samples_num_per_power_window == old(self).samples_num_per_power_window,
            final(self).calculation_interval == old(self).calculation_interval,
            final(self).count == 0,
            final(self).ticks == 0,
            final(self).current_loudness == 0,
            final(self).loudness_power_buffer.spec_values() == Seq::<i64>::empty(),
            final(self).power_buffer.spec_values() == Seq::<i64>::empty(),
            final(self).left_prefilter.first == (Filter {
                x1: 0,
                x2: 0,
                y1: 0,
                y2: 0,
                ..old(self).left_prefilter.first
            }),
            final(self).left_prefilter.second == (Filter {
                x1: 0,
                x2: 0,
                y1: 0,
                y2: 0,
                ..old(self).left_prefilter.second
            }),
            final(self).right_prefilter.first == (Filter {
                x1: 0,
                x2: 0,
                y1: 0,
                y2: 0,
                ..old(self).right_prefilter.first
            }),
            final(self).right_prefilter.second == (Filter {
                x1: 0,
                x2: 0,
                y1: 0,
                y2: 0,
                ..old(self).right_prefilter.second
            }),
    {
        self.left_prefilter.reset();
        self.right_prefilter.reset();
        self.loudness_power_buffer.reset();
        self.power_buffer.reset();
        self.count = 0;
        self.ticks = 0;
        self.current_loudness = 0;
    }

    /// Changes the window lengths.  A window whose length differs from the
    /// current one is rebuilt empty; its next fill is a defined transient,
    /// and a changed loudness window restarts the warm-up count.
    pub fn set_samples_num_per_windows(
        &mut self,
        samples_num_per_loudness_window: usize,
        samples_num_per_power_window: usize,
    ) -> (unit: ())
        requires
            old(self).wf(),
            1 <= samples_num_per_loudness_window <= MAX_WINDOW,
            1 <= samples_num_per_power_window <= MAX_WINDOW,
        ensures
            final(self).wf(),
            final(self).samples_num_per_loudness_window == samples_num_per_loudness_window,
            final(self).samples_num_per_power_window == samples_num_per_power_window,
            final(self).calculation_interval == old(self).calculation_interval,
            final(self).left_prefilter == old(self).left_prefilter,
            final(self).right_prefilter == old(self).right_prefilter,
            samples_num_per_loudness_window == old(self).samples_num_per_loudness_window
                ==> final(self).loudness_power_buffer == old(self).loudness_power_buffer
                && final(self).count == old(self).count,
            samples_num_per_loudness_window != old(self).samples_num_per_loudness_window
                ==> final(self).loudness_power_buffer.spec_values() == Seq::<i64>::empty()
                && final(self).count == 0,
            samples_num_per_power_window == old(self).samples_num_per_power_window
                ==> final(self).power_buffer == old(self).power_buffer,
            samples_num_per_power_window != old(self).samples_num_per_power_window
                ==> final(self).power_buffer.spec_values() == Seq::<i64>::empty(),
    {
        if self.samples_num_per_loudness_window != samples_num_per_loudness_window {
            self.samples_num_per_loudness_window = samples_num_per_loudness_window;
            self.loudness_power_buffer = SumBuffer::new(samples_num_per_loudness_window);
            self.count = 0;
        }
        if self.samples_num_per_power_window != samples_num_per_power_window {
            self.samples_num_per_power_window = samples_num_per_power_window;
            self.power_buffer = SumBuffer::new(samples_num_per_power_window);
        }
    }

    /// Changes how often the meter reading is recomputed: every
    /// `calculation_interval` samples, trading reaction latency for work.
    pub fn set_calculation_interval(&mut self, calculation_interval: usize) -> (unit: ())
        requires
            old(self).wf(),
            1 <= calculation_interval <= MAX_WINDOW,
        ensures
            final(self).wf(),
            final(self).calculation_interval == calculation_interval,
            final(self).ticks == 0,
            *final(self) == (Loudness {
                calculation_interval,
                ticks: 0,
                ..*old(self)
            }),
    {
        self.calculation_interval = calculation_interval;
        self.ticks = 0;
    }
}

/// The exec meter reading: `K * sqrt(mean)` in fixed point.
fn loudness_of_mean(mean: i64) -> (r: i64)
    requires
        0 <= mean <= AMP_MAX,
    ensures
        r == meter_loudness(mean as int),
        0 <= r <= AMP_MAX,
{
    proof {
        assert((mean as int) * (FIXED_ONE as int) <= 0x1000000000000000int) by (nonlinear_arith)
            requires
                0 <= mean <= 0x10000000000int,
                FIXED_ONE == 1048576,
        ;
    }
    let wide: u64 = (mean as u64) * (FIXED_ONE as u64);
    let root = isqrt(wide);
    proof {
        assert(wide <= 0x1000000000000000u64);
        assert((root as int) * (root as int) <= 0x1000000000000000int);
        assert(root <= 0x40000000u64) by (nonlinear_arith)
            requires
                (root as int) * (root as int) <= 0x1000000000000000int,
        ;
    }
    let cal: u64 = (LOUDNESS_CALIBRATION as u64) * root;
    let r = (cal / (FIXED_ONE as u64)) as i64;
    proof {
        vstd::arithmetic::div_mod::lemma_div_is_ordered(
            (LOUDNESS_CALIBRATION as int) * (root as int),
            (FIXED_ONE as int) * 0x40000000int,
            FIXED_ONE as int,
        );
        vstd::arithmetic::div_mod::lemma_div_multiples_vanish(0x40000000int, FIXED_ONE as int);
        assert((LOUDNESS_CALIBRATION as int) * (root as int) <= (FIXED_ONE as int) * 0x40000000int)
            by (nonlinear_arith)
            requires
                0 <= root <= 0x40000000u64,
                0 <= LOUDNESS_CALIBRATION <= FIXED_ONE,
        ;
    }
    r
}

/// A mean of window-summed powers lies in the engine's power range.
proof fn lemma_mean_in_range(values: Seq<i64>, w: int)
    requires
        1 <= w,
        forall|j: int| 0 <= j < values.len() ==> 0 <= #[trigger] values[j] <= AMP_MAX,
    ensures
        0 <= window_sum(values, w) <= w * AMP_MAX,
        0 <= window_sum(values, w) / w <= AMP_MAX,
{
    crate::sum_buffer::lemma_window_sum_range(values, w, 0, AMP_MAX as int);
    assert(w * 0 == 0) by (nonlinear_arith);
    vstd::arithmetic::div_mod::lemma_div_pos_is_pos(window_sum(values, w), w);
    vstd::arithmetic::div_mod::lemma_div_is_ordered(window_sum(values, w), w * AMP_MAX, w);
    assert(w * AMP_MAX == (AMP_MAX as int) * w) by (nonlinear_arith);
    vstd::arithmetic::div_mod::lemma_div_multiples_vanish(AMP_MAX as int, w);
}

} // verus!
