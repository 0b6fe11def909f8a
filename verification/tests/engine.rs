use jimtel::engine::{Engine, ParameterSnapshot};
use jimtel::fixed::{AMP_MAX, FIXED_ONE, GAIN_ONE};
use jimtel::loudness::Prefilter;

const F: i64 = FIXED_ONE;

fn to_fixed(x: f64) -> i64 {
    (x * F as f64).round() as i64
}

fn snapshot(limit: i64, release_factor: i64) -> ParameterSnapshot {
    ParameterSnapshot {
        input_gain: F,
        output_gain: F,
        limit,
        hard_limit: AMP_MAX,
        release_factor,
        infinite_sustain: false,
        reset: false,
    }
}

/// A full-scale 1 kHz sine for one second at 48 kHz against a -3 dBFS
/// limit, then one second of silence: the output must hold the limit
/// during the tone, and the gain must be back at 1.0 shortly after the
/// silence begins.
#[test]
fn sine_is_limited_and_gain_recovers_in_silence() {
    let sample_rate = 48000usize;
    // 0.4 s loudness window, 10 ms power window
    let mut engine = Engine::new(Prefilter::k_weighting_48k(), 19200, 480, F, 0);
    let limit = to_fixed(10f64.powf(-3.0 / 20.0)); // -3 dBFS
    // release 200 ms: per-sample decay factor limit^(1000 / (48000 * 200))
    let release_factor =
        to_fixed((limit as f64 / F as f64).powf(1000.0 / (sample_rate as f64 * 200.0)));
    // attack 10 ms and release 200 ms as envelope coefficients:
    // 10^(+-80 dB / (time * rate) / 20) per sample
    let attack = to_fixed(10f64.powf(80.0 / (0.010 * sample_rate as f64) / 20.0));
    let release = to_fixed(10f64.powf(-80.0 / (0.200 * sample_rate as f64) / 20.0));
    engine.envelope.set_coefficients(attack, release);
    engine.power_envelope.set_coefficients(attack, release);
    let params = snapshot(limit, release_factor);

    let mut sum_squares = 0f64;
    let mut counted = 0usize;
    for n in 0..sample_rate {
        let phase = 2.0 * std::f64::consts::PI * 1000.0 * n as f64 / sample_rate as f64;
        let s = to_fixed(phase.sin());
        let (out_l, out_r) = engine.process(s, s, &params);
        assert_eq!(out_l, out_r);
        // measure the steady state, after the attack transient
        if n >= sample_rate / 2 {
            let out = out_l as f64 / F as f64;
            sum_squares += out * out;
            counted += 1;
        }
    }
    let rms = (sum_squares / counted as f64).sqrt();
    let limit_linear = limit as f64 / F as f64;
    assert!(
        rms <= limit_linear + 0.02,
        "output RMS {rms} above the limit {limit_linear}"
    );
    assert!(rms > 0.2, "output almost silent: RMS {rms}");
    assert!(engine.limiter.gain < GAIN_ONE, "limiter not engaged on a full-scale tone");

    // silence: the gain must come back to exactly 1.0 well within the
    // release-derived bound (the silence gate makes it much faster)
    let mut recovered_at = None;
    for n in 0..sample_rate {
        engine.process(0, 0, &params);
        if engine.limiter.gain == GAIN_ONE && recovered_at.is_none() {
            recovered_at = Some(n);
        }
    }
    let bound = (0.200 * sample_rate as f64 * (1.0 / limit_linear).ln()).ceil() as usize;
    let recovered = recovered_at.expect("gain never recovered");
    assert!(
        recovered <= bound,
        "gain took {recovered} samples to recover, bound {bound}"
    );
}

#[test]
fn passthrough_below_the_limit() {
    // a quiet signal well below the limit passes through with unit gain
    let mut engine = Engine::new(Prefilter::k_weighting_48k(), 48, 48, F, 0);
    let params = snapshot(F, F);
    let s = F / 100;
    let mut last = (0i64, 0i64);
    for _ in 0..500 {
        last = engine.process(s, s, &params);
    }
    assert_eq!(engine.limiter.gain, GAIN_ONE);
    assert_eq!(last.0, s);
}

#[test]
fn hard_limit_clamps_the_output() {
    let mut engine = Engine::new(Prefilter::k_weighting_48k(), 48, 48, AMP_MAX, 0);
    let mut params = snapshot(AMP_MAX, F);
    params.hard_limit = F / 2;
    // the huge limit keeps the limiter at unit gain; only the hard clamp acts
    let (out_l, out_r) = engine.process(2 * F, -2 * F, &params);
    assert_eq!(out_l, F / 2);
    assert_eq!(out_r, -F / 2);
}

#[test]
fn input_and_output_gain_multiply() {
    let mut engine = Engine::new(Prefilter::k_weighting_48k(), 48, 48, AMP_MAX, 0);
    let mut params = snapshot(AMP_MAX, F);
    params.input_gain = 2 * F;
    params.output_gain = 3 * F;
    let (out_l, _) = engine.process(1000, 500, &params);
    assert_eq!(out_l, 6000);
}

#[test]
fn reset_toggle_clears_the_limiter() {
    let mut engine = Engine::new(Prefilter::k_weighting_48k(), 4, 4, F / 2, 0);
    engine.envelope.set_coefficients(1_000_000_000 * F, F / 2);
    let mut params = snapshot(F / 2, F);
    for _ in 0..50 {
        engine.process(F, F, &params);
    }
    assert!(engine.limiter.gain < GAIN_ONE);
    // a few silent samples (fewer than the silence gap) let the envelope
    // decay below the limit, but the held peak keeps the gain down
    for _ in 0..5 {
        engine.process(0, 0, &params);
    }
    assert!(engine.limiter.gain < GAIN_ONE);
    params.reset = true; // the toggle's edge forces the reset
    engine.process(0, 0, &params);
    assert_eq!(engine.limiter.gain, GAIN_ONE);
    assert_eq!(engine.limiter.peak, F / 2);
}

#[test]
fn infinite_sustain_mutes_until_the_meter_is_valid() {
    let window = 48usize;
    let mut engine = Engine::new(Prefilter::k_weighting_48k(), window, window, F, 0);
    let mut params = snapshot(F, F);
    params.infinite_sustain = true;
    let mut first_audible = None;
    for n in 0..(3 * window) {
        let (out_l, out_r) = engine.process(F / 2, F / 2, &params);
        if (out_l, out_r) != (0, 0) && first_audible.is_none() {
            first_audible = Some(n);
        }
    }
    // silent while the window fills, audible afterwards
    let n = first_audible.expect("output never became audible");
    assert!(n + 1 >= window, "output audible after {n} samples, window {window}");
    assert!(n <= window + 1);
}

#[test]
fn delayed_engine_outputs_the_delayed_input() {
    let mut engine = Engine::new(Prefilter::k_weighting_48k(), 48, 48, AMP_MAX, 3);
    let params = snapshot(AMP_MAX, F);
    let inputs: Vec<i64> = (1..=10).map(|n| n * 1000).collect();
    let mut outputs = Vec::new();
    for &s in &inputs {
        outputs.push(engine.process(s, s, &params).0);
    }
    for n in 0..10usize {
        if n < 3 {
            assert_eq!(outputs[n], 0);
        } else {
            assert_eq!(outputs[n], inputs[n - 3]);
        }
    }
}
