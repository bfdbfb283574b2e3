use vstd::prelude::*;

verus! {

/// An amount of tokens of some mint.
#[derive(Clone, Copy, Debug, PartialEq, Eq, Structural)]
pub struct TokenAmount {
    pub amount: u64,
}

impl TokenAmount {
    pub fn new(amount: u64) -> (t: Self)
        ensures
            t.amount == amount,
    {
        TokenAmount { amount }
    }
}

impl Default for TokenAmount {
    fn default() -> (t: Self)
        ensures
            t.amount == 0,
    {
        TokenAmount { amount: 0 }
    }
}

} // verus!
