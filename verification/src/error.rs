use vstd::prelude::*;

verus! {

/// Errors that the farming logic reports.
#[derive(Clone, Copy, Debug, PartialEq, Eq, Structural)]
pub enum AmmError {
    /// A snapshot was requested before the minimum window since the last
    /// snapshot had passed.
    InsufficientSlotTimeSinceLastSnapshot,
}

} // verus!
