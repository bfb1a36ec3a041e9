//! Rate-limited step shaping: how much of the gap between the current and
//! the desired duty one tick may close.

use vstd::prelude::*;
use vstd::arithmetic::mul::lemma_mul_upper_bound;
use crate::curve::{curve_lookup, lemma_interp_quotient_bounds, CurvePoint, CurveTable};
use crate::units::{abs, abs_diff, COORD_LIMIT, MAX_DUTY, SCALE};

verus! {

/// The fraction of the duty gap to apply this tick, in micro-units of a
/// fraction: the shaping curve evaluated at the absolute gap.
pub open spec fn spec_step_fraction(sc: Seq<CurvePoint>, cur: int, des: int) -> int {
    curve_lookup(sc, abs(des - cur))
}

/// Looks the absolute duty gap up in the shaping curve. A small gap maps to
/// a small fraction and a large gap to a full step, so the controller moves
/// slowly near the target and fast far from it.
pub fn step_fraction(sc: &CurveTable, cur: i64, des: i64) -> (r: i64)
    requires
        sc.wf(),
        -COORD_LIMIT <= cur <= COORD_LIMIT,
        -COORD_LIMIT <= des <= COORD_LIMIT,
    ensures
        r == spec_step_fraction(sc@, cur as int, des as int),
{
    sc.lookup(abs_diff(des, cur))
}

/// Truncated-toward-zero scaling of a signed gap by a fraction carried in
/// micro-units.
pub open spec fn scale_by_fraction(delta: int, frac: int) -> int {
    if delta >= 0 {
        (delta * frac) / (SCALE as int)
    } else {
        -((-delta) * frac / (SCALE as int))
    }
}

/// The duty one shaped step arrives at: the current duty plus the scaled
/// gap toward the desired duty, floored at the configured minimum.
pub open spec fn spec_shaped_duty(cur: int, des: int, frac: int, floor: int) -> int {
    let stepped = cur + scale_by_fraction(des - cur, frac);
    if stepped >= floor {
        stepped
    } else {
        floor
    }
}

/// Applies one shaped step: move `frac` (micro-units of a fraction in
/// `[0, 1]`) of the way from `cur` to `des`, never below `floor`.
pub fn shaped_duty(cur: i64, des: i64, frac: i64, floor: i64) -> (r: i64)
    requires
        0 <= cur <= MAX_DUTY,
        0 <= des <= MAX_DUTY,
        0 <= frac <= SCALE,
        0 <= floor <= MAX_DUTY,
    ensures
        r == spec_shaped_duty(cur as int, des as int, frac as int, floor as int),
        0 <= r <= MAX_DUTY,
{
    let stepped: i64 = if des >= cur {
        let delta = des - cur;
        proof {
            lemma_mul_upper_bound(delta as int, MAX_DUTY as int, frac as int, SCALE as int);
        }
        let num: u64 = (delta as u64) * (frac as u64);
        let step: u64 = num / (SCALE as u64);
        proof {
            lemma_interp_quotient_bounds(delta as int, frac as int, SCALE as int);
        }
        cur + (step as i64)
    } else {
        let delta = cur - des;
        proof {
            lemma_mul_upper_bound(delta as int, MAX_DUTY as int, frac as int, SCALE as int);
        }
        let num: u64 = (delta as u64) * (frac as u64);
        let step: u64 = num / (SCALE as u64);
        proof {
            lemma_interp_quotient_bounds(delta as int, frac as int, SCALE as int);
        }
        cur - (step as i64)
    };
    if stepped >= floor {
        stepped
    } else {
        floor
    }
}

} // verus!
