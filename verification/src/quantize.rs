//! Dual-channel quantization: one fractional duty becomes two integer
//! per-channel duty percentages.
//!
//! The hardware exposes two independently-settable integer-percent channels.
//! Splitting the fractional remainder across them yields three effective
//! levels per integer band (floor/floor, floor/ceiling, ceiling/ceiling),
//! approximating fractional duty on integer-only hardware.

use vstd::prelude::*;
use vstd::arithmetic::div_mod::lemma_div_is_ordered;
use crate::units::{MAX_DUTY, SCALE};

verus! {

/// Remainders above this make the second channel round up, in micro-units
/// of a duty percentage point.
pub const LOW_REMAINDER_THRESHOLD: i64 = 200_000;

/// Remainders above this make both channels round up, in micro-units of a
/// duty percentage point.
pub const HIGH_REMAINDER_THRESHOLD: i64 = 700_000;

/// What quantization returns: with `fl` the duty's whole-percent floor and
/// `rem` its fractional remainder, the ceiling is capped at 100 percent, the
/// floor is raised to the configured minimum duty, and each channel takes
/// the ceiling when the remainder clears its threshold, the floor otherwise.
pub open spec fn spec_quantize(duty: int, min_duty: int) -> (int, int)
    recommends
        0 <= duty <= MAX_DUTY,
        0 <= min_duty <= MAX_DUTY,
{
    let fl = duty / (SCALE as int);
    let rem = duty % (SCALE as int);
    let up = if rem == 0 {
        fl
    } else {
        fl + 1
    };
    let ceilv = if up <= 100 {
        up
    } else {
        100
    };
    let mfl = min_duty / (SCALE as int);
    let floorv = if mfl >= fl {
        mfl
    } else {
        fl
    };
    let a = if rem > HIGH_REMAINDER_THRESHOLD {
        ceilv
    } else {
        floorv
    };
    let b = if rem > LOW_REMAINDER_THRESHOLD {
        ceilv
    } else {
        floorv
    };
    (a, b)
}

/// Converts one fractional duty into the two integer channel duties.
pub fn quantize(duty: i64, min_duty: i64) -> (r: (u8, u8))
    requires
        0 <= duty <= MAX_DUTY,
        0 <= min_duty <= MAX_DUTY,
    ensures
        (r.0 as int, r.1 as int) == spec_quantize(duty as int, min_duty as int),
        r.0 <= 100,
        r.1 <= 100,
{
    let d = duty as u64;
    let fl: u64 = d / (SCALE as u64);
    let rem: u64 = d % (SCALE as u64);
    proof {
        lemma_div_is_ordered(duty as int, MAX_DUTY as int, SCALE as int);
        lemma_div_is_ordered(min_duty as int, MAX_DUTY as int, SCALE as int);
    }
    let up: u64 = if rem == 0 {
        fl
    } else {
        fl + 1
    };
    let ceilv: u64 = if up <= 100 {
        up
    } else {
        100
    };
    let mfl: u64 = (min_duty as u64) / (SCALE as u64);
    let floorv: u64 = if mfl >= fl {
        mfl
    } else {
        fl
    };
    let a: u64 = if rem > HIGH_REMAINDER_THRESHOLD as u64 {
        ceilv
    } else {
        floorv
    };
    let b: u64 = if rem > LOW_REMAINDER_THRESHOLD as u64 {
        ceilv
    } else {
        floorv
    };
    (a as u8, b as u8)
}

} // verus!
