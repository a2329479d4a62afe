//! Battery warning thresholds shared by the UI and the activity timer.
//!
//! Turning ADC millivolts into a percentage goes through a floating-point
//! voltage curve, which lives with the board code; this module only holds the
//! integer thresholds the verified logic compares that percentage against.
use vstd::prelude::*;

verus! {

/// Piecewise discharge curve; its thresholds are in percent.
pub struct BatteryCurve;

impl BatteryCurve {
    /// At or below this the low-battery warning latches.
    pub const LOW_THRESHOLD: u8 = 15;

    /// At or above this the latched warning is released.
    pub const RECOVER_THRESHOLD: u8 = 20;
}

} // verus!
