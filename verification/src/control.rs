//! One iteration of the fixed-cadence control loop.
//!
//! Per iteration the loop samples two potentiometers, maps lightness (input
//! A) and hue (input B) through the HSL transform at full saturation, and
//! derives three PWM duty counts plus a status-LED pattern. The same second
//! input deliberately drives both the hue axis and the LED threshold. The
//! caller performs the hardware reads and writes and the 50 ms suspension
//! between iterations; this module computes the commands.

use vstd::prelude::*;
use crate::actuator::{spec_duty, spec_status, status_leds, to_duty, LedState};
use crate::color::{hsl_to_rgb, spec_hsl_to_rgb};
use crate::fixed::UNIT;
use crate::sampler::{sample, spec_sample};

verus! {

/// Full-scale divisor of the analog converter: raw counts per unit.
pub const ADC_DIVISOR: i64 = 4096;

/// Fixed-point gain of the linear input correction: 1.1 units.
pub const CORRECTION_SCALE: i64 = 6_600_000;

/// Fixed-point offset of the linear input correction: minus 0.05 units.
pub const CORRECTION_OFFSET: i64 = -300_000;

/// The constant saturation fed to the color transform: full.
pub const SATURATION: i64 = UNIT;

/// Milliseconds the loop suspends after each iteration.
pub const LOOP_PERIOD_MS: u32 = 50;

/// Base frequency of the PWM timers, configured once at setup.
pub const PWM_FREQ_HZ: u32 = 1000;

/// Largest raw sample `iteration` accepts; sixteen times the divisor, which
/// covers any converter of up to sixteen bits.
pub const MAX_RAW: i64 = 0xFFFF;

/// Largest per-timer maximum duty `iteration` accepts: the full 32-bit
/// range the hardware can report.
pub const MAX_DUTY_LIMIT: i64 = 0xFFFF_FFFF;

/// What one iteration writes to the actuators: a duty count per color
/// channel and the status-LED pattern. Red and green share one timer, blue
/// has its own, so the two sides carry their own duty scales.
pub struct Command {
    pub duty_r: i64,
    pub duty_g: i64,
    pub duty_b: i64,
    pub led: LedState,
}

/// The normalized lightness of an iteration: input A through the sampler
/// with the fixed divisor and correction.
pub open spec fn spec_lightness(raw_a: int) -> int {
    spec_sample(raw_a, ADC_DIVISOR as int, CORRECTION_SCALE as int, CORRECTION_OFFSET as int)
}

/// The normalized hue of an iteration: input B through the same sampler.
pub open spec fn spec_hue(raw_b: int) -> int {
    spec_sample(raw_b, ADC_DIVISOR as int, CORRECTION_SCALE as int, CORRECTION_OFFSET as int)
}

/// Computes the actuator commands of one loop iteration from the two raw
/// samples and the two timers' maximum duty counts. Input A drives the
/// lightness axis; input B drives both the hue axis and the LED threshold.
pub fn iteration(raw_a: i64, raw_b: i64, max_duty_rg: i64, max_duty_b: i64) -> (cmd: Command)
    requires
        0 <= raw_a <= MAX_RAW,
        0 <= raw_b <= MAX_RAW,
        0 <= max_duty_rg <= MAX_DUTY_LIMIT,
        0 <= max_duty_b <= MAX_DUTY_LIMIT,
    ensures
        ({
            let rgb = spec_hsl_to_rgb(spec_hue(raw_b as int), SATURATION as int,
                spec_lightness(raw_a as int));
            &&& cmd.duty_r == spec_duty(rgb.0, max_duty_rg as int)
            &&& cmd.duty_g == spec_duty(rgb.1, max_duty_rg as int)
            &&& cmd.duty_b == spec_duty(rgb.2, max_duty_b as int)
            &&& cmd.led == spec_status(spec_hue(raw_b as int))
            &&& 0 <= cmd.duty_r <= max_duty_rg
            &&& 0 <= cmd.duty_g <= max_duty_rg
            &&& 0 <= cmd.duty_b <= max_duty_b
        }),
{
    let lightness = sample(raw_a, ADC_DIVISOR, CORRECTION_SCALE, CORRECTION_OFFSET);
    let hue = sample(raw_b, ADC_DIVISOR, CORRECTION_SCALE, CORRECTION_OFFSET);
    let rgb = hsl_to_rgb(hue, SATURATION, lightness);
    let led = status_leds(hue);
    Command {
        duty_r: to_duty(rgb.r, max_duty_rg),
        duty_g: to_duty(rgb.g, max_duty_rg),
        duty_b: to_duty(rgb.b, max_duty_b),
        led,
    }
}

} // verus!
