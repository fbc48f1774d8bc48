//! Normalization of raw analog samples to the unit interval.
//!
//! A raw ADC count is divided by the converter's full-scale divisor,
//! corrected by a linear map (a gain and an offset, both fixed-point), and
//! clamped to `[0, UNIT]`. There is no error path: every raw count yields a
//! normalized value.

use vstd::prelude::*;
use crate::fixed::{
    clamp, div_floor, lemma_unit_quotient_at_most, spec_clamp, UNIT,
};
use vstd::arithmetic::div_mod::{lemma_div_pos_is_pos, lemma_multiply_divide_le};

verus! {

/// What `sample` returns: `raw / divisor`, then `* scale + offset`, then
/// clamped to the unit interval. `scale` and `offset` are fixed-point.
pub open spec fn spec_sample(raw: int, divisor: int, scale: int, offset: int) -> int {
    let x = raw * (UNIT as int) / divisor;
    let corrected = x * scale / (UNIT as int) + offset;
    spec_clamp(corrected, 0, UNIT as int)
}

/// Normalizes one raw sample: divide by `divisor`, apply the linear
/// correction `scale`/`offset`, clamp to `[0, UNIT]`. The bounds on the
/// arguments only keep the 64-bit intermediate products from overflowing;
/// they allow raw values up to sixteen times the divisor and corrections up
/// to sixteen units in either direction.
pub fn sample(raw: i64, divisor: i64, scale: i64, offset: i64) -> (r: i64)
    requires
        0 <= raw,
        0 < divisor <= 100_000_000,
        raw <= 16 * divisor,
        0 <= scale <= 16 * UNIT,
        -16 * UNIT <= offset <= 16 * UNIT,
    ensures
        r == spec_sample(raw as int, divisor as int, scale as int, offset as int),
        0 <= r <= UNIT,
{
    proof {
        assert(0 <= (raw as int) * (UNIT as int) <= (divisor as int) * (16 * (UNIT as int))
            && (divisor as int) * (16 * (UNIT as int)) <= 100_000_000 * (16 * (UNIT as int)))
            by (nonlinear_arith)
            requires
                0 <= raw <= 16 * divisor,
                0 < divisor <= 100_000_000,
        ;
    }
    let num: i64 = raw * UNIT;
    let x = div_floor(num, divisor);
    proof {
        lemma_div_pos_is_pos(num as int, divisor as int);
        lemma_multiply_divide_le(num as int, divisor as int, 16 * (UNIT as int));
        assert(0 <= (x as int) * (scale as int) <= (256 * (UNIT as int)) * (UNIT as int))
            by (nonlinear_arith)
            requires
                0 <= x <= 16 * UNIT,
                0 <= scale <= 16 * UNIT,
        ;
    }
    let product: i64 = x * scale;
    let scaled = div_floor(product, UNIT);
    proof {
        lemma_unit_quotient_at_most(product as int, 256 * (UNIT as int));
    }
    let corrected: i64 = scaled + offset;
    clamp(corrected, 0, UNIT)
}

} // verus!
