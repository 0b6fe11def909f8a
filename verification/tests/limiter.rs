use jimtel::fixed::{AMP_MAX, FIXED_ONE, GAIN_ONE};
use jimtel::limiter::{LimiterState, SILENCE_RUN_SAMPLES, SILENCE_THRESHOLD};

const F: i64 = FIXED_ONE;
const LOUD: i64 = 10 * F; // far above the silence threshold

/// `gain * peak` must match `limit` (at the gain scale) within 1e-5
/// relative error.
fn assert_gain_tracks(limiter: &LimiterState, limit: i64) {
    let product = (limiter.gain as i128) * (limiter.peak as i128);
    let scaled_limit = (limit as i128) * (GAIN_ONE as i128);
    assert!(product <= scaled_limit);
    assert!(scaled_limit < product + limiter.peak as i128);
    let relative = (scaled_limit - product) as f64 / scaled_limit as f64;
    assert!(relative.abs() < 1e-5, "relative error {relative}");
}

#[test]
fn gain_times_peak_equals_limit_while_tracking() {
    let limit = 7 * F / 10;
    let mut limiter = LimiterState::new(limit);
    // an estimate above the limit: the peak attacks to it instantly
    let estimate = 2 * F;
    limiter.update(estimate, LOUD, limit, F, false);
    assert_eq!(limiter.peak, estimate);
    assert!(limiter.peak > limit);
    assert_gain_tracks(&limiter, limit);
}

#[test]
fn gain_tracks_even_at_extreme_ratios() {
    // the lowest limit the parameter table admits (about -80 dBFS) against
    // a full-scale peak: 80 dB of gain reduction
    let limit = 105;
    let mut limiter = LimiterState::new(limit);
    limiter.update(F + 1, LOUD, limit, F, false);
    assert_eq!(limiter.peak, F + 1);
    assert_gain_tracks(&limiter, limit);
    // and against the largest amplitude the engine can represent at all
    limiter.update(AMP_MAX, LOUD, limit, F, false);
    assert_eq!(limiter.peak, AMP_MAX);
    assert_gain_tracks(&limiter, limit);
}

#[test]
fn reset_is_exact() {
    let limit = 123_456;
    let mut limiter = LimiterState::new(limit);
    limiter.update(90 * F, LOUD, limit, F, false);
    assert!(limiter.peak > limit);
    assert!(limiter.gain < GAIN_ONE);
    limiter.reset(limit);
    assert_eq!(limiter.peak, limit);
    assert_eq!(limiter.gain, GAIN_ONE);
}

#[test]
fn new_starts_at_the_limit_with_unit_gain() {
    let limiter = LimiterState::new(5 * F);
    assert_eq!(limiter.peak, 5 * F);
    assert_eq!(limiter.gain, GAIN_ONE);
}

#[test]
fn release_decays_the_peak_towards_the_limit() {
    let limit = F / 2;
    let mut limiter = LimiterState::new(limit);
    limiter.update(4 * F, LOUD, limit, F, false);
    assert_eq!(limiter.peak, 4 * F);
    // a small estimate with a 0.5 release factor halves the peak per sample
    // until the limit stops it
    limiter.update(0, LOUD, limit, F / 2, false);
    assert_eq!(limiter.peak, 2 * F);
    limiter.update(0, LOUD, limit, F / 2, false);
    assert_eq!(limiter.peak, F);
    limiter.update(0, LOUD, limit, F / 2, false);
    assert_eq!(limiter.peak, limit);
    assert_eq!(limiter.gain, GAIN_ONE);
}

#[test]
fn infinite_sustain_freezes_the_peak() {
    let limit = F / 2;
    let mut limiter = LimiterState::new(limit);
    limiter.update(3 * F, LOUD, limit, F / 2, false);
    assert_eq!(limiter.peak, 3 * F);
    let held_gain = limiter.gain;
    // turning sustain on keeps the held maximum exactly where it stands
    let (gain, did_reset) = limiter.update(0, LOUD, limit, F / 2, true);
    assert!(!did_reset);
    assert_eq!(limiter.peak, 3 * F);
    assert_eq!(gain, held_gain);
    // and the release branch stays suppressed while sustain holds
    limiter.update(0, LOUD, limit, F / 2, true);
    assert_eq!(limiter.peak, 3 * F);
    // dropping sustain lets the release move again
    limiter.update(0, LOUD, limit, F / 2, false);
    assert_eq!(limiter.peak, 3 * F / 2);
}

#[test]
fn silence_gap_resets_after_the_run_threshold() {
    let limit = F / 2;
    let mut limiter = LimiterState::new(limit);
    limiter.update(6 * F, LOUD, limit, F, false);
    assert_eq!(limiter.peak, 6 * F);
    // a sustained run of near-silent input forces the state back to the
    // limit; the estimate is held meanwhile by the unit release factor
    let mut reset_seen_at = None;
    for n in 0..(SILENCE_RUN_SAMPLES + 5) {
        let (_, did_reset) = limiter.update(6 * F, SILENCE_THRESHOLD - 1, limit, F, false);
        if did_reset && reset_seen_at.is_none() {
            reset_seen_at = Some(n);
        }
    }
    assert_eq!(reset_seen_at, Some(SILENCE_RUN_SAMPLES));
}
