//! Command types sent from API handlers to backend components.

use vstd::prelude::*;

verus! {

/// Commands from the API to the scheduler.
#[derive(Clone, Copy, Debug, PartialEq, Eq, Structural)]
pub enum SchedulerCommand {
    /// Pause job distribution to all threads.
    PauseMining,
    /// Resume job distribution after a pause.
    ResumeMining,
    /// Set the chip frequency on every chain. Each thread clamps to its safe
    /// range and re-ramps its PLL.
    SetFrequency { khz: u32 },
    /// Set the operating point, frequency and chain voltage. The two are
    /// sequenced in the order that keeps the chips safe.
    SetOperatingPoint { khz: u32, microvolts: u32 },
}

/// Commands from the API to board management.
#[derive(Clone, Debug)]
pub enum BoardCommand {
    /// Set a fan's target duty cycle on a specific board.
    SetFanTarget {
        board: String,
        fan: String,
        /// Target duty cycle (0 to 100), or none for automatic control.
        percent: Option<u8>,
    },
}

} // verus!
