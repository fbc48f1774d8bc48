//! From computed values to actuator commands.
//!
//! An RGB channel value on the unit interval becomes an integer PWM duty
//! count by truncating multiplication with the timer's maximum duty, and a
//! threshold input becomes one of three status-LED patterns.

use vstd::prelude::*;
use crate::fixed::{div_floor, lemma_unit_quotient_at_most, UNIT};

verus! {

/// The three status-LED patterns: both inactive, both in their "full"
/// pattern, or the middle pattern for inputs strictly inside the unit
/// interval. The electrical polarity of each pin is the board's business,
/// not this crate's.
#[derive(Clone, Copy, Debug, PartialEq, Eq, Structural)]
pub enum LedState {
    Off,
    Full,
    Mid,
}

/// What `status_leds` returns: `Off` at or below zero, `Full` at or above
/// one, `Mid` strictly in between. The boundaries are inclusive.
pub open spec fn spec_status(t: int) -> LedState {
    if t <= 0 {
        LedState::Off
    } else if t >= UNIT {
        LedState::Full
    } else {
        LedState::Mid
    }
}

/// Classifies a threshold input into the three LED patterns.
pub fn status_leds(t: i64) -> (r: LedState)
    ensures
        r == spec_status(t as int),
{
    if t <= 0 {
        LedState::Off
    } else if t >= UNIT {
        LedState::Full
    } else {
        LedState::Mid
    }
}

/// The classifier is total and its regions have no gaps and no overlaps:
/// every input falls in exactly one of the three patterns, and each pattern
/// is produced exactly on its closed or open interval.
pub proof fn lemma_status_partition(t: int)
    ensures
        spec_status(t) == LedState::Off || spec_status(t) == LedState::Mid || spec_status(t)
            == LedState::Full,
        spec_status(t) == LedState::Off <==> t <= 0,
        spec_status(t) == LedState::Full <==> t >= UNIT,
        spec_status(t) == LedState::Mid <==> 0 < t < UNIT,
{
}

/// What `to_duty` returns: the duty count `floor(v * max_duty)`, truncating
/// rather than rounding.
pub open spec fn spec_duty(v: int, max_duty: int) -> int {
    v * max_duty / (UNIT as int)
}

/// Maps a unit-interval channel value to an integer duty count in
/// `[0, max_duty]` by truncating multiplication.
pub fn to_duty(v: i64, max_duty: i64) -> (d: i64)
    requires
        0 <= v <= UNIT,
        0 <= max_duty <= 0xFFFF_FFFF,
    ensures
        d == spec_duty(v as int, max_duty as int),
        0 <= d <= max_duty,
{
    proof {
        assert(0 <= (v as int) * (max_duty as int) <= (max_duty as int) * (UNIT as int)
            && (max_duty as int) * (UNIT as int) <= 0xFFFF_FFFF * (UNIT as int))
            by (nonlinear_arith)
            requires
                0 <= v <= UNIT,
                0 <= max_duty <= 0xFFFF_FFFF,
        ;
    }
    let num: i64 = v * max_duty;
    let d = div_floor(num, UNIT);
    proof {
        lemma_unit_quotient_at_most(num as int, max_duty as int);
    }
    d
}

} // verus!
