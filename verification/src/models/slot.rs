use vstd::prelude::*;

verus! {

/// A point in time measured in slots of the chain.
#[derive(Clone, Copy, Debug, PartialEq, Eq, Structural)]
pub struct Slot {
    pub slot: u64,
}

impl Slot {
    pub fn new(slot: u64) -> (s: Self)
        ensures
            s.slot == slot,
    {
        Slot { slot }
    }
}

impl Default for Slot {
    fn default() -> (s: Self)
        ensures
            s.slot == 0,
    {
        Slot { slot: 0 }
    }
}

} // verus!
