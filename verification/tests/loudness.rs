use jimtel::fixed::{isqrt, FIXED_ONE};
use jimtel::loudness::{amplitude_of_mean, Filter, Loudness, Prefilter, LOUDNESS_CALIBRATION};

const F: i64 = FIXED_ONE;

/// A section that passes its input through unchanged.
fn identity_filter() -> Filter {
    Filter::new(F, 0, 0, 0, 0)
}

fn identity_prefilter() -> Prefilter {
    Prefilter::new(identity_filter(), identity_filter())
}

#[test]
fn isqrt_exact_values() {
    assert_eq!(isqrt(0), 0);
    assert_eq!(isqrt(1), 1);
    assert_eq!(isqrt(3), 1);
    assert_eq!(isqrt(4), 2);
    assert_eq!(isqrt(99), 9);
    assert_eq!(isqrt(100), 10);
    assert_eq!(isqrt(u64::MAX), 4294967295);
}

#[test]
fn mean_power_of_identity_weighted_samples() {
    let mut loudness = Loudness::new(identity_prefilter(), 2, 1);
    // power of the pair (1.0, 1.0) is 1^2 + 1^2 = 2.0
    let (lmean, pmean) = loudness.add_samples(F, F);
    assert_eq!(pmean, 2 * F);
    // the loudness window of 2 averages over both slots, the first still 0
    assert_eq!(lmean, F);
    let (lmean, pmean) = loudness.add_samples(F, F);
    assert_eq!(lmean, 2 * F);
    assert_eq!(pmean, 2 * F);
}

#[test]
fn meter_reading_is_calibrated_sqrt() {
    let mut loudness = Loudness::new(identity_prefilter(), 1, 1);
    loudness.add_samples(F, F);
    let reading = loudness.loudness().expect("window of one sample is full");
    // K * sqrt(2.0) with K about 0.9235
    let expected = 0.9235 * 2f64.sqrt();
    let got = reading as f64 / F as f64;
    assert!((got - expected).abs() < 1e-3, "reading {got}, expected {expected}");
    // and exactly the integer formula
    let mean = 2 * F;
    let exact = LOUDNESS_CALIBRATION * isqrt((mean * F) as u64) as i64 / F;
    assert_eq!(reading, exact);
}

#[test]
fn power_amplitude_is_the_square_root() {
    // sqrt(4.0) == 2.0 exactly, and in general the floor square root
    assert_eq!(amplitude_of_mean(0), 0);
    assert_eq!(amplitude_of_mean(4 * F), 2 * F);
    assert_eq!(amplitude_of_mean(2 * F), isqrt(((2 * F) as u64) * (F as u64)) as i64);
}

#[test]
fn meter_is_not_valid_until_the_window_is_full() {
    let mut loudness = Loudness::new(identity_prefilter(), 4, 1);
    assert!(loudness.loudness().is_none());
    loudness.add_samples(F, 0);
    loudness.add_samples(F, 0);
    loudness.add_samples(F, 0);
    assert!(loudness.loudness().is_none());
    loudness.add_samples(F, 0);
    assert!(loudness.loudness().is_some());
    // a reset restarts the warm-up
    loudness.reset();
    assert!(loudness.loudness().is_none());
}

#[test]
fn calculation_interval_holds_the_reading_between_updates() {
    let mut loudness = Loudness::new(identity_prefilter(), 1, 1);
    loudness.set_calculation_interval(3);
    // first recomputation happens on the third sample
    loudness.add_samples(F, F);
    let first = loudness.loudness().unwrap();
    assert_eq!(first, 0, "reading still at its initial value");
    loudness.add_samples(F, F);
    assert_eq!(loudness.loudness().unwrap(), 0);
    loudness.add_samples(F, F);
    let updated = loudness.loudness().unwrap();
    assert!(updated > F, "reading recomputed on the interval boundary");
    // held again for the next two samples even though the input fell silent
    loudness.add_samples(0, 0);
    assert_eq!(loudness.loudness().unwrap(), updated);
    loudness.add_samples(0, 0);
    assert_eq!(loudness.loudness().unwrap(), updated);
    loudness.add_samples(0, 0);
    assert_eq!(loudness.loudness().unwrap(), 0);
}

#[test]
fn window_change_rebuilds_only_the_changed_window() {
    let mut loudness = Loudness::new(identity_prefilter(), 2, 2);
    loudness.add_samples(F, F);
    loudness.add_samples(F, F);
    assert!(loudness.loudness().is_some());
    // same lengths: nothing happens
    loudness.set_samples_num_per_windows(2, 2);
    assert!(loudness.loudness().is_some());
    // a new loudness window restarts the warm-up
    loudness.set_samples_num_per_windows(3, 2);
    assert!(loudness.loudness().is_none());
}

/// Reference impulse response check: the fixed-point cascade at 48 kHz must
/// match a double-precision biquad built from the standard bilinear-transform
/// design formulas, within 1e-4 of full scale per sample.
#[test]
fn prefilter_impulse_response_matches_reference() {
    // high-shelf design (gain +4 dB at about 1.68 kHz, Q 0.707)
    let fs = 48000.0f64;
    let pi = std::f64::consts::PI;
    let gain_db = 3.99984385397f64;
    let q_shelf = 0.7071752369554193f64;
    let center_shelf = 1681.9744509555319f64;
    let k = (pi * center_shelf / fs).tan();
    let vh = 10f64.powf(gain_db / 20.0);
    let vb = vh.powf(0.499666774155);
    let a0 = 1.0 + k / q_shelf + k * k;
    let hs = [
        (vh + vb * k / q_shelf + k * k) / a0,  // b0
        2.0 * (k * k - vh) / a0,               // b1
        (vh - vb * k / q_shelf + k * k) / a0,  // b2
        2.0 * (k * k - 1.0) / a0,              // a1
        (1.0 - k / q_shelf + k * k) / a0,      // a2
    ];
    // high-pass design (about 38 Hz, Q 0.5)
    let q_hp = 0.5003270373253953f64;
    let center_hp = 38.13547087613982f64;
    let k2 = (pi * center_hp / fs).tan();
    let a02 = 1.0 + k2 / q_hp + k2 * k2;
    let hp = [
        1.0,
        -2.0,
        1.0,
        2.0 * (k2 * k2 - 1.0) / a02,
        (1.0 - k2 / q_hp + k2 * k2) / a02,
    ];

    let mut fixed = Prefilter::k_weighting_48k();
    let mut st1 = [0f64; 4]; // x1 x2 y1 y2 of the reference shelf
    let mut st2 = [0f64; 4];
    for n in 0..1024 {
        let x = if n == 0 { 1.0f64 } else { 0.0 };
        let mid = hs[0] * x + hs[1] * st1[0] + hs[2] * st1[1] - hs[3] * st1[2] - hs[4] * st1[3];
        st1 = [x, st1[0], mid, st1[2]];
        let y = hp[0] * mid + hp[1] * st2[0] + hp[2] * st2[1] - hp[3] * st2[2] - hp[4] * st2[3];
        st2 = [mid, st2[0], y, st2[2]];

        let input = if n == 0 { F } else { 0 };
        let got = fixed.apply(input) as f64 / F as f64;
        assert!(
            (got - y).abs() < 1e-4,
            "impulse response diverged at sample {n}: fixed {got}, reference {y}"
        );
    }
}
