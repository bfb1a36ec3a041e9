//! The error kinds the controller distinguishes.

use vstd::prelude::*;

verus! {

/// Everything that can go wrong around one control tick.
///
/// An invalid configuration is fatal at startup; a failed sensor read or
/// actuation on a single tick is transient and the loop retries on the next
/// tick.
#[derive(Clone, Copy, Debug, PartialEq, Eq, Structural)]
pub enum ControlError {
    /// A temperature sample could not be acquired.
    SensorReadFailed,
    /// The actuation command failed.
    ActuationFailed,
    /// The configuration was rejected at construction.
    ConfigInvalid,
}

} // verus!
