//! Admin's representation of rewards and history of the system.
use vstd::prelude::*;

use crate::consts::{
    MAX_HARVEST_MINTS, MIN_SNAPSHOT_WINDOW_SLOTS, SNAPSHOTS_LEN, TOKENS_PER_SLOT_HISTORY_LEN,
};
use crate::error::AmmError;
use crate::models::slot::Slot;
use crate::models::token_amount::TokenAmount;
use crate::pubkey::Pubkey;

verus! {

/// To create a user incentive for token possession, time dependent rewards
/// are distributed. A farmer stakes tokens of a mint `S`, ie. they lock them
/// with the program, and they become eligible for harvest.
pub struct Farm {
    /// Can change settings on this farm.
    pub admin: Pubkey,
    /// The mint of tokens which are staked by farmers (`S`).
    pub stake_mint: Pubkey,
    /// Staked tokens are stored in this program's vault (token account).
    pub stake_vault: Pubkey,
    /// Harvest mints with the configuration of how many tokens are released
    /// per slot. A harvest whose mint is the default key is uninitialized.
    pub harvests: [Harvest; MAX_HARVEST_MINTS],
    /// Snapshots of the amount of total staked tokens.
    pub snapshots: Snapshots,
    /// Minimum number of slots between two snapshots. While it is zero,
    /// [`MIN_SNAPSHOT_WINDOW_SLOTS`] applies.
    pub min_snapshot_window_slots: u64,
}

/// A harvest is uninitialized while its `mint` is the default key.
#[derive(Clone, Copy, Debug, PartialEq, Eq)]
pub struct Harvest {
    /// The mint of tokens which are distributed to farmers.
    pub mint: Pubkey,
    /// Admin deposits the reward tokens which are harvested by farmers into
    /// this vault.
    pub vault: Pubkey,
    /// History of changes to the tokens-per-slot setting (`ρ`), ordered by
    /// `at.slot` descending: index 0 holds the latest change.
    pub tokens_per_slot: [TokensPerSlotHistory; TOKENS_PER_SLOT_HISTORY_LEN],
}

/// One change of the tokens-per-slot setting.
#[derive(Clone, Copy, Debug, PartialEq, Eq, Structural)]
pub struct TokensPerSlotHistory {
    pub value: TokenAmount,
    /// The slot at which the new value was set.
    pub at: Slot,
}

/// Ring buffer of snapshots. `ring_buffer_tip` is the index of the latest
/// snapshot; the next snapshot is written at the index after it, wrapping
/// to 0 after the last index.
#[derive(Clone, Copy, Debug, PartialEq, Eq)]
pub struct Snapshots {
    pub ring_buffer_tip: u64,
    pub ring_buffer: [Snapshot; SNAPSHOTS_LEN],
}

/// Defines a snapshot window.
#[derive(Clone, Copy, Debug, PartialEq, Eq, Structural)]
pub struct Snapshot {
    pub staked: TokenAmount,
    pub started_at: Slot,
}

// ---------------------------------------------------------------------------
// Defaults
// ---------------------------------------------------------------------------

impl Default for Snapshot {
    fn default() -> (s: Self)
        ensures
            s.staked.amount == 0,
            s.started_at.slot == 0,
    {
        Snapshot { staked: TokenAmount { amount: 0 }, started_at: Slot { slot: 0 } }
    }
}

impl Default for TokensPerSlotHistory {
    fn default() -> (h: Self)
        ensures
            h.value.amount == 0,
            h.at.slot == 0,
    {
        TokensPerSlotHistory { value: TokenAmount { amount: 0 }, at: Slot { slot: 0 } }
    }
}

impl Default for Harvest {
    fn default() -> (h: Self)
        ensures
            h.mint.is_zero(),
            h.vault.is_zero(),
            forall|i: int|
                0 <= i < TOKENS_PER_SLOT_HISTORY_LEN ==> (#[trigger] h.tokens_per_slot@[i]) == (
                TokensPerSlotHistory { value: TokenAmount { amount: 0 }, at: Slot { slot: 0 } }),
    {
        let entry = TokensPerSlotHistory { value: TokenAmount { amount: 0 }, at: Slot { slot: 0 } };
        Harvest {
            mint: Pubkey::zeroed(),
            vault: Pubkey::zeroed(),
            tokens_per_slot: [entry; TOKENS_PER_SLOT_HISTORY_LEN],
        }
    }
}

impl Default for Snapshots {
    fn default() -> (s: Self)
        ensures
            s.ring_buffer_tip == 0,
            forall|i: int|
                0 <= i < SNAPSHOTS_LEN ==> (#[trigger] s.ring_buffer@[i]) == (Snapshot {
                    staked: TokenAmount { amount: 0 },
                    started_at: Slot { slot: 0 },
                }),
    {
        let empty = Snapshot { staked: TokenAmount { amount: 0 }, started_at: Slot { slot: 0 } };
        Snapshots { ring_buffer_tip: 0, ring_buffer: [empty; SNAPSHOTS_LEN] }
    }
}

impl Default for Farm {
    fn default() -> (f: Self)
        ensures
            f.admin.is_zero(),
            f.stake_mint.is_zero(),
            f.stake_vault.is_zero(),
            forall|i: int|
                0 <= i < MAX_HARVEST_MINTS ==> {
                    &&& (#[trigger] f.harvests@[i]).mint.is_zero()
                    &&& f.harvests@[i].vault.is_zero()
                    &&& forall|j: int|
                        0 <= j < TOKENS_PER_SLOT_HISTORY_LEN ==> (
                        #[trigger] f.harvests@[i].tokens_per_slot@[j]) == (TokensPerSlotHistory {
                            value: TokenAmount { amount: 0 },
                            at: Slot { slot: 0 },
                        })
                },
            f.snapshots.ring_buffer_tip == 0,
            forall|i: int|
                0 <= i < SNAPSHOTS_LEN ==> (#[trigger] f.snapshots.ring_buffer@[i]) == (Snapshot {
                    staked: TokenAmount { amount: 0 },
                    started_at: Slot { slot: 0 },
                }),
            f.min_snapshot_window_slots == 0,
    {
        let harvest = Harvest::default();
        Farm {
            admin: Pubkey::zeroed(),
            stake_mint: Pubkey::zeroed(),
            stake_vault: Pubkey::zeroed(),
            harvests: [harvest; MAX_HARVEST_MINTS],
            snapshots: Snapshots::default(),
            min_snapshot_window_slots: 0,
        }
    }
}

// ---------------------------------------------------------------------------
// Tokens per slot
// ---------------------------------------------------------------------------

/// Index `i` holds the first change of ρ, in the order of the history, that
/// was made at or before `slot`.
pub open spec fn is_first_change_at_or_before(
    history: Seq<TokensPerSlotHistory>,
    slot: u64,
    i: int,
) -> bool {
    &&& 0 <= i < history.len()
    &&& history[i].at.slot <= slot
    &&& forall|j: int| 0 <= j < i ==> slot < (#[trigger] history[j]).at.slot
}

/// Index `i` holds the last entry of the history whose value is not zero.
pub open spec fn is_last_nonzero_change(history: Seq<TokensPerSlotHistory>, i: int) -> bool {
    &&& 0 <= i < history.len()
    &&& history[i].value.amount != 0
    &&& forall|j: int| i < j < history.len() ==> (#[trigger] history[j]).value.amount == 0
}

/// ρ at `slot` and the slot of the next change of ρ after it.
///
/// Where some change was made at or before `slot`, the first such change in
/// the history gives ρ, and the entry before it (if any) gives the next
/// change. Where none was, ρ is zero (no history means the harvest is lost)
/// and the next change is the last entry with a nonzero value, or the first
/// entry if every value is zero.
pub open spec fn tokens_per_slot_at(history: Seq<TokensPerSlotHistory>, slot: u64) -> (
    TokenAmount,
    Option<Slot>,
) {
    if exists|i: int| is_first_change_at_or_before(history, slot, i) {
        let i = choose|i: int| is_first_change_at_or_before(history, slot, i);
        (history[i].value, if i == 0 { None } else { Some(history[i - 1].at) })
    } else {
        let next = if exists|j: int| is_last_nonzero_change(history, j) {
            history[choose|j: int| is_last_nonzero_change(history, j)].at
        } else {
            history[0].at
        };
        (TokenAmount { amount: 0 }, Some(next))
    }
}

/// At most one index is the first change at or before a slot.
pub proof fn lemma_first_change_unique(
    history: Seq<TokensPerSlotHistory>,
    slot: u64,
    i: int,
    k: int,
)
    requires
        is_first_change_at_or_before(history, slot, i),
        is_first_change_at_or_before(history, slot, k),
    ensures
        i == k,
{
    if i < k {
        assert(slot < history[i].at.slot);
    } else if k < i {
        assert(slot < history[k].at.slot);
    }
}

/// At most one index is the last nonzero entry.
pub proof fn lemma_last_nonzero_unique(history: Seq<TokensPerSlotHistory>, i: int, k: int)
    requires
        is_last_nonzero_change(history, i),
        is_last_nonzero_change(history, k),
    ensures
        i == k,
{
    if i < k {
        assert(history[k].value.amount == 0);
    } else if k < i {
        assert(history[i].value.amount == 0);
    }
}

impl Harvest {
    /// Seed prefix of a harvest vault address: the ASCII bytes of
    /// `harvest_vault`.
    pub const VAULT_PREFIX: [u8; 13] = [104u8, 97u8, 114u8, 118u8, 101u8, 115u8, 116u8, 95u8, 118u8, 97u8, 117u8, 108u8, 116u8];

    /// Returns the last change to ρ before or at a given slot.
    ///
    /// If the admin changes ρ during an open snapshot window, it should only
    /// be considered from the next snapshot; this method does not account
    /// for that.
    ///
    /// The first tuple member is ρ itself, the second is the slot of the
    /// _next_ change of ρ, if any ([`None`] if the found change is the latest).
    pub fn tokens_per_slot(&self, at: Slot) -> (r: (TokenAmount, Option<Slot>))
        ensures
            r == tokens_per_slot_at(self.tokens_per_slot@, at.slot),
    {
        let ghost history = self.tokens_per_slot@;
        let mut i: usize = 0;
        while i < TOKENS_PER_SLOT_HISTORY_LEN
            invariant
                i <= TOKENS_PER_SLOT_HISTORY_LEN,
                history == self.tokens_per_slot@,
                history.len() == TOKENS_PER_SLOT_HISTORY_LEN,
                forall|j: int| 0 <= j < i ==> at.slot < (#[trigger] history[j]).at.slot,
            decreases TOKENS_PER_SLOT_HISTORY_LEN - i,
        {
            if self.tokens_per_slot[i].at.slot <= at.slot {
                proof {
                    assert(is_first_change_at_or_before(history, at.slot, i as int));
                    let c = choose|c: int| is_first_change_at_or_before(history, at.slot, c);
                    lemma_first_change_unique(history, at.slot, i as int, c);
                }
                if i == 0 {
                    return (self.tokens_per_slot[0].value, None);
                } else {
                    return (self.tokens_per_slot[i].value, Some(self.tokens_per_slot[i - 1].at));
                }
            }
            i = i + 1;
        }
        assert(!exists|c: int| is_first_change_at_or_before(history, at.slot, c)) by {
            if exists|c: int| is_first_change_at_or_before(history, at.slot, c) {
                let c = choose|c: int| is_first_change_at_or_before(history, at.slot, c);
                assert(at.slot < history[c].at.slot);
            }
        }
        // No change at or before `at`: find the oldest (hence from the back)
        // change to a nonzero value.
        let mut k: usize = TOKENS_PER_SLOT_HISTORY_LEN;
        while k > 0
            invariant
                k <= TOKENS_PER_SLOT_HISTORY_LEN,
                history == self.tokens_per_slot@,
                history.len() == TOKENS_PER_SLOT_HISTORY_LEN,
                !exists|c: int| is_first_change_at_or_before(history, at.slot, c),
                forall|j: int| k <= j < history.len() ==> (#[trigger] history[j]).value.amount == 0,
            decreases k,
        {
            if self.tokens_per_slot[k - 1].value.amount != 0 {
                proof {
                    assert(is_last_nonzero_change(history, k - 1));
                    let c = choose|c: int| is_last_nonzero_change(history, c);
                    lemma_last_nonzero_unique(history, k - 1, c);
                }
                return (TokenAmount { amount: 0 }, Some(self.tokens_per_slot[k - 1].at));
            }
            k = k - 1;
        }
        assert(!exists|c: int| is_last_nonzero_change(history, c)) by {
            if exists|c: int| is_last_nonzero_change(history, c) {
                let c = choose|c: int| is_last_nonzero_change(history, c);
                assert(history[c].value.amount == 0);
            }
        }
        (TokenAmount { amount: 0 }, Some(self.tokens_per_slot[0].at))
    }
}

// ---------------------------------------------------------------------------
// Snapshots
// ---------------------------------------------------------------------------

/// The minimum snapshot window that applies for a farm setting: the setting
/// itself, or [`MIN_SNAPSHOT_WINDOW_SLOTS`] while it is zero.
pub open spec fn effective_snapshot_window(setting: u64) -> u64 {
    if setting == 0 {
        MIN_SNAPSHOT_WINDOW_SLOTS
    } else {
        setting
    }
}

impl Snapshots {
    /// The tip points into the ring buffer.
    pub open spec fn wf(self) -> bool {
        self.ring_buffer_tip < SNAPSHOTS_LEN
    }

    /// The snapshot at the tip.
    pub open spec fn latest(self) -> Snapshot {
        self.ring_buffer@[self.ring_buffer_tip as int]
    }

    /// The index that follows `tip` in the ring buffer.
    pub open spec fn next_tip(tip: u64) -> u64 {
        ((tip + 1) % (SNAPSHOTS_LEN as int)) as u64
    }
}

impl Farm {
    /// Seed prefix of the farm's signer address: the ASCII bytes of `signer`.
    pub const SIGNER_PDA_PREFIX: [u8; 6] = [115u8, 105u8, 103u8, 110u8, 101u8, 114u8];

    /// Seed prefix of the farm's stake vault address: the ASCII bytes of
    /// `stake_vault`.
    pub const STAKE_VAULT_PREFIX: [u8; 11] = [115u8, 116u8, 97u8, 107u8, 101u8, 95u8, 118u8, 97u8, 117u8, 108u8, 116u8];

    /// The farm's ring buffer tip is valid.
    pub open spec fn wf(self) -> bool {
        self.snapshots.wf()
    }

    /// The latest snapshot of the farm.
    pub open spec fn latest(self) -> Snapshot {
        self.snapshots.latest()
    }

    /// The minimum number of slots between two snapshots of this farm.
    pub open spec fn snapshot_window(self) -> u64 {
        effective_snapshot_window(self.min_snapshot_window_slots)
    }

    /// The first slot at which the next snapshot may be taken.
    pub open spec fn next_snapshot_slot(self) -> int {
        self.latest().started_at.slot + self.snapshot_window()
    }

    /// `next` is `self` after recording `snapshot` at the index that follows
    /// the tip, which becomes the new tip; everything else is unchanged.
    pub open spec fn records_snapshot(self, next: Farm, snapshot: Snapshot) -> bool {
        let tip = Snapshots::next_tip(self.snapshots.ring_buffer_tip);
        &&& next.snapshots.ring_buffer_tip == tip
        &&& next.snapshots.ring_buffer@ == self.snapshots.ring_buffer@.update(tip as int, snapshot)
        &&& next.admin == self.admin
        &&& next.stake_mint == self.stake_mint
        &&& next.stake_vault == self.stake_vault
        &&& next.harvests == self.harvests
        &&& next.min_snapshot_window_slots == self.min_snapshot_window_slots
    }

    /// The snapshot at the ring buffer tip.
    pub fn latest_snapshot(farm: &Farm) -> (s: Snapshot)
        requires
            farm.wf(),
        ensures
            s == farm.latest(),
    {
        farm.snapshots.ring_buffer[farm.snapshots.ring_buffer_tip as usize]
    }

    /// Records the amount in the stake vault at `current_slot` as the new
    /// latest snapshot, provided the farm's minimum snapshot window has passed
    /// since the latest snapshot started.
    pub fn take_snapshot(&mut self, current_slot: Slot, stake_vault: TokenAmount) -> (r: Result<
        (),
        AmmError,
    >)
        requires
            old(self).wf(),
            old(self).next_snapshot_slot() <= u64::MAX,
        ensures
            final(self).wf(),
            // A nonzero setting is the window itself, whatever its size.
            old(self).min_snapshot_window_slots != 0 ==> (r is Err <==> current_slot.slot
                < old(self).latest().started_at.slot + old(self).min_snapshot_window_slots),
            // While the setting is zero, the default window applies.
            old(self).min_snapshot_window_slots == 0 ==> (r is Err <==> current_slot.slot
                < old(self).latest().started_at.slot + MIN_SNAPSHOT_WINDOW_SLOTS),
            r is Err ==> {
                &&& r == Err::<(), AmmError>(AmmError::InsufficientSlotTimeSinceLastSnapshot)
                &&& *final(self) == *old(self)
            },
            current_slot.slot < old(self).next_snapshot_slot() ==> {
                &&& r == Err::<(), AmmError>(AmmError::InsufficientSlotTimeSinceLastSnapshot)
                &&& *final(self) == *old(self)
            },
            current_slot.slot >= old(self).next_snapshot_slot() ==> {
                &&& r == Ok::<(), AmmError>(())
                &&& old(self).records_snapshot(
                    *final(self),
                    Snapshot { staked: stake_vault, started_at: current_slot },
                )
            },
    {
        // While the farm's own setting is zero, the default window applies.
        let min_snapshot_window_slots = if self.min_snapshot_window_slots == 0 {
            MIN_SNAPSHOT_WINDOW_SLOTS
        } else {
            self.min_snapshot_window_slots
        };

        // The slot in which the last snapshot was taken
        let last_snapshot_slot = self.snapshots.ring_buffer[self.snapshots.ring_buffer_tip as usize].started_at.slot;

        // Assert that sufficient time has passed
        if current_slot.slot < last_snapshot_slot + min_snapshot_window_slots {
            return Err(AmmError::InsufficientSlotTimeSinceLastSnapshot);
        }

        // Move the tip to the next index, wrapping around after the last one.
        // A fresh farm has its tip at 0, so the first round of snapshots is
        // recorded from index 1 onwards.
        let is_tip_last_index = self.snapshots.ring_buffer_tip as usize == SNAPSHOTS_LEN - 1;
        self.snapshots.ring_buffer_tip =
            if is_tip_last_index {
                0
            } else {
                self.snapshots.ring_buffer_tip + 1
            };

        let tip = self.snapshots.ring_buffer_tip as usize;
        self.snapshots.ring_buffer[tip] = Snapshot {
            staked: TokenAmount { amount: stake_vault.amount },
            started_at: Slot { slot: current_slot.slot },
        };

        Ok(())
    }
}

} // verus!
