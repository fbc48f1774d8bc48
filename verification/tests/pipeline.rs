//! The color transform, the actuator mapping, and the full iteration.

use hsl_led::actuator::{status_leds, to_duty, LedState};
use hsl_led::color::{hsl_to_rgb, hue_to_channel};
use hsl_led::control::{iteration, ADC_DIVISOR, CORRECTION_OFFSET, CORRECTION_SCALE};
use hsl_led::fixed::{HALF, THIRD, UNIT};
use hsl_led::sampler::sample;

/// The fixed-point representation of the real value `v`.
fn fx(v: f64) -> i64 {
    (v * (UNIT as f64)).round() as i64
}

#[test]
fn hue_zero_is_red() {
    let c = hsl_to_rgb(0, UNIT, HALF);
    assert_eq!((c.r, c.g, c.b), (UNIT, 0, 0));
}

#[test]
fn hue_one_third_is_green() {
    let c = hsl_to_rgb(THIRD, UNIT, HALF);
    assert_eq!((c.r, c.g, c.b), (0, UNIT, 0));
}

#[test]
fn hue_two_thirds_is_blue() {
    let c = hsl_to_rgb(2 * THIRD, UNIT, HALF);
    assert_eq!((c.r, c.g, c.b), (0, 0, UNIT));
}

#[test]
fn hue_half_is_cyan() {
    let c = hsl_to_rgb(HALF, UNIT, HALF);
    assert_eq!((c.r, c.g, c.b), (0, UNIT, UNIT));
}

#[test]
fn hue_ramp_hits_its_breakpoints() {
    let sixth = UNIT / 6;
    let two_thirds = 2 * THIRD;
    // ramp up over [0, 1/6): one step below the breakpoint is one ramp step
    // below q, and the breakpoint itself holds q
    assert_eq!(hue_to_channel(0, UNIT, 0), 0);
    assert_eq!(hue_to_channel(0, UNIT, sixth - 1), UNIT - 6);
    assert_eq!(hue_to_channel(0, UNIT, sixth), UNIT);
    // plateau at q over [1/6, 1/2), then ramp down to p at 2/3
    assert_eq!(hue_to_channel(0, UNIT, HALF - 1), UNIT);
    assert_eq!(hue_to_channel(0, UNIT, HALF), UNIT);
    assert_eq!(hue_to_channel(0, UNIT, two_thirds - 1), 6);
    assert_eq!(hue_to_channel(0, UNIT, two_thirds), 0);
    assert_eq!(hue_to_channel(0, UNIT, UNIT), 0);
    // the offset enters through a single wrap
    assert_eq!(hue_to_channel(0, UNIT, -THIRD), 0);
    assert_eq!(hue_to_channel(0, UNIT, UNIT + THIRD), UNIT);
}

#[test]
fn zero_saturation_is_gray_for_every_hue() {
    let mut h: i64 = 0;
    while h <= UNIT {
        let c = hsl_to_rgb(h, 0, HALF);
        assert_eq!((c.r, c.g, c.b), (HALF, HALF, HALF));
        h += 100_000;
    }
}

#[test]
fn extreme_lightness_dominates_hue() {
    let black = hsl_to_rgb(fx(0.3), UNIT, 0);
    assert_eq!((black.r, black.g, black.b), (0, 0, 0));
    let white = hsl_to_rgb(fx(0.3), UNIT, UNIT);
    assert_eq!((white.r, white.g, white.b), (UNIT, UNIT, UNIT));
}

#[test]
fn channels_stay_on_the_unit_interval() {
    let mut h: i64 = 0;
    while h <= UNIT {
        let mut l: i64 = 0;
        while l <= UNIT {
            let c = hsl_to_rgb(h, UNIT, l);
            assert!(0 <= c.r && c.r <= UNIT);
            assert!(0 <= c.g && c.g <= UNIT);
            assert!(0 <= c.b && c.b <= UNIT);
            l += 375_000;
        }
        h += 250_000;
    }
}

#[test]
fn duty_mapping_truncates() {
    assert_eq!(to_duty(fx(0.0), 1000), 0);
    assert_eq!(to_duty(fx(1.0), 1000), 1000);
    assert_eq!(to_duty(fx(0.999), 1000), 999);
}

#[test]
fn status_led_boundaries_are_inclusive() {
    assert_eq!(status_leds(fx(0.0)), LedState::Off);
    assert_eq!(status_leds(fx(1.0)), LedState::Full);
    assert_eq!(status_leds(fx(0.5)), LedState::Mid);
    assert_eq!(status_leds(-1), LedState::Off);
    assert_eq!(status_leds(1), LedState::Mid);
    assert_eq!(status_leds(UNIT - 1), LedState::Mid);
    assert_eq!(status_leds(UNIT + 1), LedState::Full);
}

#[test]
fn status_classifier_is_total_without_overlap() {
    let mut t: i64 = -2 * UNIT;
    while t <= 3 * UNIT {
        let s = status_leds(t);
        let off = s == LedState::Off;
        let full = s == LedState::Full;
        let mid = s == LedState::Mid;
        // exactly one pattern, and the one its interval prescribes
        assert_eq!(off, t <= 0);
        assert_eq!(full, t >= UNIT);
        assert_eq!(mid, 0 < t && t < UNIT);
        assert_eq!(usize::from(off) + usize::from(full) + usize::from(mid), 1);
        t += 98_765;
    }
}

#[test]
fn midpoint_iteration_drives_cyan() {
    // Raw 2048 on both inputs: both normalize to exactly 0.5, the color is
    // cyan, and the duty counts split across the two timers accordingly.
    assert_eq!(sample(2048, ADC_DIVISOR, CORRECTION_SCALE, CORRECTION_OFFSET), HALF);
    let cmd = iteration(2048, 2048, 1000, 800);
    assert_eq!(cmd.duty_r, 0);
    assert_eq!(cmd.duty_g, 1000);
    assert_eq!(cmd.duty_b, 800);
    assert_eq!(cmd.led, LedState::Mid);
}

#[test]
fn grounded_inputs_switch_everything_off() {
    let cmd = iteration(0, 0, 1000, 1000);
    assert_eq!((cmd.duty_r, cmd.duty_g, cmd.duty_b), (0, 0, 0));
    assert_eq!(cmd.led, LedState::Off);
}

#[test]
fn full_scale_inputs_drive_white_at_full_duty() {
    let cmd = iteration(4095, 4095, 1000, 800);
    assert_eq!((cmd.duty_r, cmd.duty_g, cmd.duty_b), (1000, 1000, 800));
    assert_eq!(cmd.led, LedState::Full);
}
