//! The HSL to RGB color transform on fixed-point unit-interval values.
//!
//! Hue, saturation and lightness each live in `[0, UNIT]`; hue is circular
//! and wraps at one. The transform is the standard piecewise HSL model with
//! breakpoints at 1/6, 1/2 and 2/3 of the hue ramp, including the
//! achromatic short-circuit for zero saturation.

use vstd::prelude::*;
use crate::fixed::{
    div_floor, lemma_unit_quotient_at_least, lemma_unit_quotient_at_most, spec_wrap_unit,
    wrap_unit, HALF, SIXTH, THIRD, TWO_THIRDS, UNIT,
};

verus! {

/// An RGB triple; each channel is a fixed-point value in `[0, UNIT]`.
pub struct Rgb {
    pub r: i64,
    pub g: i64,
    pub b: i64,
}

impl Rgb {
    /// Every channel lies on the unit interval.
    pub open spec fn wf(self) -> bool {
        &&& 0 <= self.r <= UNIT
        &&& 0 <= self.g <= UNIT
        &&& 0 <= self.b <= UNIT
    }
}

/// What `hue_to_channel` returns: the trapezoid-shaped ramp between the two
/// chroma levels `p <= q`, evaluated at the wrapped hue offset `t`.
pub open spec fn spec_hue_channel(p: int, q: int, t: int) -> int {
    let tw = spec_wrap_unit(t);
    if tw < SIXTH {
        p + (q - p) * 6 * tw / (UNIT as int)
    } else if tw < HALF {
        q
    } else if tw < TWO_THIRDS {
        p + (q - p) * (TWO_THIRDS - tw) * 6 / (UNIT as int)
    } else {
        p
    }
}

/// The second chroma level of the HSL model: `l * (1 + s)` below half
/// lightness, `l + s - l * s` otherwise.
pub open spec fn spec_chroma_q(s: int, l: int) -> int {
    if l < HALF {
        l * (UNIT + s) / (UNIT as int)
    } else {
        l + s - l * s / (UNIT as int)
    }
}

/// The first chroma level of the HSL model: `2 * l - q`.
pub open spec fn spec_chroma_p(s: int, l: int) -> int {
    2 * l - spec_chroma_q(s, l)
}

/// What `hsl_to_rgb` returns, as an `(r, g, b)` triple of fixed-point
/// values. Zero saturation short-circuits to the achromatic gray `l`.
pub open spec fn spec_hsl_to_rgb(h: int, s: int, l: int) -> (int, int, int) {
    if s == 0 {
        (l, l, l)
    } else {
        let q = spec_chroma_q(s, l);
        let p = spec_chroma_p(s, l);
        (
            spec_hue_channel(p, q, h + THIRD),
            spec_hue_channel(p, q, h),
            spec_hue_channel(p, q, h - THIRD),
        )
    }
}

/// One channel of the hue ramp: after wrapping `t` once into the unit
/// interval, ramp up over `[0, 1/6)`, hold `q` over `[1/6, 1/2)`, ramp down
/// over `[1/2, 2/3)`, and hold `p` from `2/3` on.
pub fn hue_to_channel(p: i64, q: i64, t: i64) -> (r: i64)
    requires
        0 <= p <= q <= UNIT,
        -UNIT <= t <= 2 * UNIT,
    ensures
        r == spec_hue_channel(p as int, q as int, t as int),
        p <= r <= q,
{
    let tw = wrap_unit(t);
    if tw < SIXTH {
        let rise: i64 = (q - p) * 6;
        proof {
            assert(0 <= (rise as int) * (tw as int) <= ((q - p) as int) * (UNIT as int))
                by (nonlinear_arith)
                requires
                    rise == (q - p) * 6,
                    0 <= q - p,
                    0 <= tw < SIXTH,
                    UNIT == 6 * SIXTH,
            ;
            assert(((q - p) as int) * (UNIT as int) <= (UNIT as int) * (UNIT as int))
                by (nonlinear_arith)
                requires
                    0 <= q - p <= UNIT,
            ;
        }
        let num: i64 = rise * tw;
        let m = div_floor(num, UNIT);
        proof {
            lemma_unit_quotient_at_most(num as int, (q - p) as int);
        }
        p + m
    } else if tw < HALF {
        q
    } else if tw < TWO_THIRDS {
        let fall: i64 = (TWO_THIRDS - tw) * 6;
        proof {
            assert(((q - p) as int) * (fall as int) == ((q - p) as int) * ((TWO_THIRDS - tw) as int)
                * 6) by (nonlinear_arith)
                requires
                    fall == (TWO_THIRDS - tw) * 6,
            ;
            assert(0 <= ((q - p) as int) * (fall as int) <= ((q - p) as int) * (UNIT as int))
                by (nonlinear_arith)
                requires
                    fall == (TWO_THIRDS - tw) * 6,
                    0 <= q - p,
                    HALF <= tw < TWO_THIRDS,
                    TWO_THIRDS - HALF == SIXTH,
                    UNIT == 6 * SIXTH,
            ;
            assert(((q - p) as int) * (UNIT as int) <= (UNIT as int) * (UNIT as int))
                by (nonlinear_arith)
                requires
                    0 <= q - p <= UNIT,
            ;
        }
        let num: i64 = (q - p) * fall;
        let m = div_floor(num, UNIT);
        proof {
            lemma_unit_quotient_at_most(num as int, (q - p) as int);
        }
        p + m
    } else {
        p
    }
}

/// Converts a hue/saturation/lightness triple to RGB. Reproduces the
/// canonical piecewise transform, including the exact breakpoints and the
/// achromatic special case; the result always lies on the unit cube.
pub fn hsl_to_rgb(h: i64, s: i64, l: i64) -> (c: Rgb)
    requires
        0 <= h <= UNIT,
        0 <= s <= UNIT,
        0 <= l <= UNIT,
    ensures
        (c.r as int, c.g as int, c.b as int) == spec_hsl_to_rgb(h as int, s as int, l as int),
        c.wf(),
{
    if s == 0 {
        Rgb { r: l, g: l, b: l }
    } else {
        let q: i64 = if l < HALF {
            proof {
                assert((l as int) * ((UNIT + s) as int) <= (2 * l) * (UNIT as int)
                    && (l as int) * (UNIT as int) <= (l as int) * ((UNIT + s) as int)
                    && (l as int) * ((UNIT + s) as int) <= (UNIT as int) * (UNIT as int)
                    && 0 <= (l as int) * ((UNIT + s) as int)) by (nonlinear_arith)
                    requires
                        0 <= l < HALF,
                        0 < s <= UNIT,
                        UNIT == 2 * HALF,
                ;
            }
            let num: i64 = l * (UNIT + s);
            let ql = div_floor(num, UNIT);
            proof {
                lemma_unit_quotient_at_most(num as int, 2 * (l as int));
                lemma_unit_quotient_at_most(num as int, UNIT as int);
                lemma_unit_quotient_at_least(num as int, l as int);
            }
            ql
        } else {
            proof {
                assert(0 <= (l as int) * (s as int) <= (s as int) * (UNIT as int)
                    && ((l + s - UNIT) as int) * (UNIT as int) <= (l as int) * (s as int)
                    && ((s - l) as int) * (UNIT as int) <= (l as int) * (s as int)
                    && (l as int) * (s as int) <= (UNIT as int) * (UNIT as int))
                    by (nonlinear_arith)
                    requires
                        HALF <= l <= UNIT,
                        0 < s <= UNIT,
                        UNIT == 2 * HALF,
                ;
            }
            let num: i64 = l * s;
            let ls = div_floor(num, UNIT);
            proof {
                lemma_unit_quotient_at_most(num as int, s as int);
                lemma_unit_quotient_at_least(num as int, (l + s - UNIT) as int);
                lemma_unit_quotient_at_least(num as int, (s - l) as int);
            }
            l + s - ls
        };
        let p: i64 = 2 * l - q;
        let r = hue_to_channel(p, q, h + THIRD);
        let g = hue_to_channel(p, q, h);
        let b = hue_to_channel(p, q, h - THIRD);
        Rgb { r, g, b }
    }
}

/// With zero saturation the conversion is an achromatic gray: every channel
/// equals the lightness, whatever the hue.
pub proof fn lemma_achromatic_ignores_hue(h: int, l: int)
    ensures
        spec_hsl_to_rgb(h, 0, l) == (l, l, l),
{
}

} // verus!
