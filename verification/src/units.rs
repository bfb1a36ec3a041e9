//! Fixed-point units shared by the whole controller.
//!
//! Temperatures (degrees Celsius) and duty cycles (percentage points) are
//! carried as `i64` micro-units: one whole unit is [`SCALE`] micro-units.

use vstd::prelude::*;

verus! {

/// Micro-units per whole unit (one degree, one percentage point).
pub const SCALE: i64 = 1_000_000;

/// Largest duty cycle the hardware accepts: 100 percent, in micro-units.
pub const MAX_DUTY: i64 = 100_000_000;

/// Largest magnitude allowed for a curve coordinate, in micro-units.
/// Keeping coordinates within this bound lets every interpolation product
/// fit comfortably in 128-bit intermediates.
pub const COORD_LIMIT: i64 = 1_000_000_000_000;

/// Absolute value of a mathematical integer.
pub open spec fn abs(x: int) -> int {
    if x >= 0 {
        x
    } else {
        -x
    }
}

/// Absolute difference of two duties, as an executable value.
pub fn abs_diff(a: i64, b: i64) -> (r: i64)
    requires
        -COORD_LIMIT <= a <= COORD_LIMIT,
        -COORD_LIMIT <= b <= COORD_LIMIT,
    ensures
        r == abs(a - b),
{
    if a >= b {
        a - b
    } else {
        b - a
    }
}

} // verus!
