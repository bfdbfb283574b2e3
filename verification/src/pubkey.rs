use vstd::prelude::*;

verus! {

/// The 32 bytes of an account address. The farming logic only carries
/// addresses; it never computes with them.
#[derive(Clone, Copy, Debug, PartialEq, Eq)]
pub struct Pubkey {
    pub bytes: [u8; 32],
}

impl Pubkey {
    /// Whether every byte of the address is zero.
    pub open spec fn is_zero(self) -> bool {
        forall|i: int| 0 <= i < 32 ==> #[trigger] self.bytes@[i] == 0u8
    }

    /// The all-zero address, which marks an unused slot.
    pub fn zeroed() -> (p: Self)
        ensures
            p.is_zero(),
    {
        Pubkey { bytes: [0u8; 32] }
    }
}

impl Default for Pubkey {
    fn default() -> (p: Self)
        ensures
            p.is_zero(),
    {
        Pubkey::zeroed()
    }
}

} // verus!
