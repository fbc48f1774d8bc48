//! Exact fixed-point scalars on the unit interval.
//!
//! A real value `x` is represented by the integer `x * UNIT`, so `0.0` is
//! `0` and `1.0` is `UNIT`. `UNIT` is divisible by 2, 3, 20 and 1000, so all
//! of the constants the control pipeline depends on (the breakpoints 1/6,
//! 1/2 and 2/3 of the hue ramp, the correction scale 1.1 and offset 0.05)
//! are represented exactly.

use vstd::prelude::*;
use vstd::arithmetic::div_mod::{
    lemma_div_is_ordered, lemma_div_multiples_vanish, lemma_div_pos_is_pos,
    lemma_multiply_divide_le,
};

verus! {

/// The fixed-point representation of the real value 1.0.
pub const UNIT: i64 = 6_000_000;

/// The fixed-point representation of 1/6, the first hue-ramp breakpoint.
pub const SIXTH: i64 = 1_000_000;

/// The fixed-point representation of 1/3, the hue offset between the red,
/// green and blue channels.
pub const THIRD: i64 = 2_000_000;

/// The fixed-point representation of 1/2.
pub const HALF: i64 = 3_000_000;

/// The fixed-point representation of 2/3, the last hue-ramp breakpoint.
pub const TWO_THIRDS: i64 = 4_000_000;

/// What `clamp` returns: `hi` if `x >= hi`, else `lo` if `x <= lo`, else `x`.
pub open spec fn spec_clamp(x: int, lo: int, hi: int) -> int {
    if x >= hi {
        hi
    } else if x <= lo {
        lo
    } else {
        x
    }
}

/// Restricts `x` to the range `[lo, hi]`, testing the upper bound first.
pub fn clamp(x: i64, lo: i64, hi: i64) -> (r: i64)
    requires
        lo <= hi,
    ensures
        r == spec_clamp(x as int, lo as int, hi as int),
        lo <= r <= hi,
{
    if x >= hi {
        hi
    } else if x <= lo {
        lo
    } else {
        x
    }
}

/// Clamping is idempotent: clamping an already-clamped value changes nothing.
pub proof fn lemma_clamp_idempotent(x: int, lo: int, hi: int)
    requires
        lo <= hi,
    ensures
        spec_clamp(spec_clamp(x, lo, hi), lo, hi) == spec_clamp(x, lo, hi),
{
}

/// What `wrap_unit` returns: one unit-length excursion is folded back into
/// the unit interval; anything further out is left as it is.
pub open spec fn spec_wrap_unit(t: int) -> int {
    if t < 0 {
        t + UNIT
    } else if t > UNIT {
        t - UNIT
    } else {
        t
    }
}

/// Folds at most one unit of excursion back into `[0, 1]`: `t + 1` for
/// negative `t`, `t - 1` for `t` above one, otherwise `t` unchanged. This is
/// deliberately not a general modulo: an input outside `[-1, 2]` is wrapped
/// once and remains out of range.
pub fn wrap_unit(t: i64) -> (r: i64)
    ensures
        r == spec_wrap_unit(t as int),
        -UNIT <= t <= 2 * UNIT ==> 0 <= r <= UNIT,
{
    if t < 0 {
        t + UNIT
    } else if t > UNIT {
        t - UNIT
    } else {
        t
    }
}

/// A quotient of `UNIT` is bounded by any `c` whose multiple of `UNIT`
/// bounds the dividend: `num <= c * UNIT` gives `num / UNIT <= c`.
pub proof fn lemma_unit_quotient_at_most(num: int, c: int)
    requires
        0 <= num,
        num <= c * (UNIT as int),
    ensures
        0 <= num / (UNIT as int) <= c,
{
    lemma_div_pos_is_pos(num, UNIT as int);
    assert(c * (UNIT as int) == (UNIT as int) * c) by (nonlinear_arith);
    lemma_multiply_divide_le(num, UNIT as int, c);
}

/// A quotient of `UNIT` is at least any `c` whose multiple of `UNIT` the
/// dividend reaches: `c * UNIT <= num` gives `c <= num / UNIT`.
pub proof fn lemma_unit_quotient_at_least(num: int, c: int)
    requires
        c * (UNIT as int) <= num,
    ensures
        c <= num / (UNIT as int),
{
    assert(c * (UNIT as int) == (UNIT as int) * c) by (nonlinear_arith);
    lemma_div_multiples_vanish(c, UNIT as int);
    lemma_div_is_ordered(c * (UNIT as int), num, UNIT as int);
}

/// Euclidean quotient of a nonnegative value by a positive one.
pub(crate) fn div_floor(a: i64, b: i64) -> (r: i64)
    requires
        0 <= a,
        0 < b,
    ensures
        r == a as int / b as int,
{
    ((a as u64) / (b as u64)) as i64
}

} // verus!
