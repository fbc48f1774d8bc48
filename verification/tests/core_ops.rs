//! Scalar operations: clamping, hue wrapping, sample normalization.

use hsl_led::fixed::{clamp, wrap_unit, HALF, UNIT};
use hsl_led::sampler::sample;

/// The fixed-point representation of the real value `v`.
fn fx(v: f64) -> i64 {
    (v * (UNIT as f64)).round() as i64
}

#[test]
fn clamp_pins_values_outside_the_unit_interval() {
    assert_eq!(clamp(fx(-5.0), 0, UNIT), 0);
    assert_eq!(clamp(fx(5.0), 0, UNIT), UNIT);
    assert_eq!(clamp(fx(0.5), 0, UNIT), fx(0.5));
}

#[test]
fn clamp_boundaries_are_inclusive() {
    assert_eq!(clamp(0, 0, UNIT), 0);
    assert_eq!(clamp(UNIT, 0, UNIT), UNIT);
    assert_eq!(clamp(-1, 0, UNIT), 0);
    assert_eq!(clamp(UNIT + 1, 0, UNIT), UNIT);
}

#[test]
fn clamp_is_idempotent_on_a_sweep() {
    let mut x: i64 = -3 * UNIT;
    while x <= 3 * UNIT {
        let once = clamp(x, 0, UNIT);
        assert_eq!(clamp(once, 0, UNIT), once);
        x += 123_456;
    }
}

#[test]
fn wrap_unit_folds_one_excursion() {
    assert_eq!(wrap_unit(fx(-0.2)), fx(0.8));
    assert_eq!(wrap_unit(fx(1.2)), fx(0.2));
    assert_eq!(wrap_unit(fx(0.5)), fx(0.5));
}

#[test]
fn wrap_unit_is_not_a_general_modulo() {
    // A single wrap is applied; inputs beyond [-1, 2] stay out of range.
    assert_eq!(wrap_unit(fx(2.5)), fx(1.5));
    assert_eq!(wrap_unit(fx(-1.5)), fx(-0.5));
}

#[test]
fn sample_normalizes_corrects_and_clamps() {
    // 2048 / 4096 * 1.1 - 0.05 == 0.5 exactly.
    assert_eq!(sample(2048, 4096, fx(1.1), fx(-0.05)), HALF);
    // 0 / 4096 * 1.1 - 0.05 == -0.05, clamped up to 0.
    assert_eq!(sample(0, 4096, fx(1.1), fx(-0.05)), 0);
    // 4095 / 4096 * 1.1 - 0.05 is above 1, clamped down to 1.
    assert_eq!(sample(4095, 4096, fx(1.1), fx(-0.05)), UNIT);
}

#[test]
fn sample_without_correction_is_plain_division() {
    assert_eq!(sample(1024, 4096, UNIT, 0), fx(0.25));
    assert_eq!(sample(4096, 4096, UNIT, 0), UNIT);
}
