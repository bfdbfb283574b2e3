use vstd::prelude::*;

verus! {

/// How many harvest mints a farm can distribute.
pub const MAX_HARVEST_MINTS: usize = 10;

/// How many changes of the tokens-per-slot setting a harvest remembers.
pub const TOKENS_PER_SLOT_HISTORY_LEN: usize = 10;

/// How many snapshots the farm's ring buffer holds.
pub const SNAPSHOTS_LEN: usize = 1000;

/// The minimum number of slots between two snapshots that applies while a
/// farm's own setting is zero (about an hour at 0.4 s per slot).
pub const MIN_SNAPSHOT_WINDOW_SLOTS: u64 = 9000;

} // verus!
