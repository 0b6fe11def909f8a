use jimtel::envelope::Envelope;
use jimtel::fixed::FIXED_ONE;

const F: i64 = FIXED_ONE;

#[test]
fn attack_rises_to_target_without_overshoot() {
    let mut env = Envelope::new();
    // attack multiplier about 1.02 per sample, release about 0.98
    env.set_coefficients(F + F / 50, F - F / 50);
    let target = 100_000i64;
    let mut previous = 0i64;
    let mut reached = false;
    for _ in 0..2000 {
        let v = env.calculate(target);
        assert!(v >= previous, "output decreased during attack");
        assert!(v <= target, "output overshot the target");
        previous = v;
        if v == target {
            reached = true;
            break;
        }
    }
    assert!(reached, "output never converged to the target");
}

#[test]
fn release_falls_to_floor_and_never_below() {
    let mut env = Envelope::new();
    env.set_coefficients(F + F / 2, F / 2);
    // drive the value up first
    for _ in 0..200 {
        env.calculate(50_000);
    }
    let mut previous = env.calculate(50_000);
    let mut at_floor = false;
    for _ in 0..200 {
        let v = env.calculate(0);
        assert!(v <= previous, "output increased during release");
        assert!(v >= 1, "output fell below the positive floor");
        previous = v;
        if v == 1 {
            at_floor = true;
        }
    }
    assert!(at_floor, "output never came down to the floor");
}

#[test]
fn attack_step_has_exact_value() {
    let mut env = Envelope::new();
    // a doubling attack coefficient: each step doubles the value until the
    // target is hit
    env.set_coefficients(2 * F, F);
    env.calculate(1_000_000); // 0 -> floored to 1
    assert_eq!(env.calculate(1_000_000), 2);
    assert_eq!(env.calculate(1_000_000), 4);
    assert_eq!(env.calculate(1_000_000), 8);
}

#[test]
fn release_step_has_exact_value() {
    let mut env = Envelope::new();
    env.set_coefficients(1_000_000_000 * F, F / 2);
    // the first step from rest lands on the floor; the huge attack
    // coefficient then jumps straight to the target
    assert_eq!(env.calculate(4096), 1);
    assert_eq!(env.calculate(4096), 4096);
    // halving release, clamped below at the new target
    assert_eq!(env.calculate(0), 2048);
    assert_eq!(env.calculate(0), 1024);
    assert_eq!(env.calculate(1000), 1000);
}

#[test]
fn equal_target_holds_the_value() {
    let mut env = Envelope::new();
    env.set_coefficients(2 * F, F / 2);
    for _ in 0..16 {
        env.calculate(300);
    }
    assert_eq!(env.calculate(300), 300);
    assert_eq!(env.calculate(300), 300);
    assert_eq!(env.calculate(300), 300);
}
