//! Properties of the farm model that span several calls.
use vstd::prelude::*;

use vstd::arithmetic::div_mod::{
    lemma_add_mod_noop, lemma_mod_equivalence, lemma_small_mod,
};

use crate::consts::{MIN_SNAPSHOT_WINDOW_SLOTS, SNAPSHOTS_LEN};
use crate::models::farm::{
    is_first_change_at_or_before, is_last_nonzero_change, lemma_first_change_unique,
    lemma_last_nonzero_unique, tokens_per_slot_at, Farm, Snapshot, Snapshots,
    TokensPerSlotHistory,
};

verus! {

/// A snapshot that was just recorded is what `latest_snapshot` gives back,
/// and the ring buffer tip stays valid.
pub proof fn lemma_recorded_snapshot_is_latest(before: Farm, after: Farm, snapshot: Snapshot)
    requires
        before.wf(),
        before.records_snapshot(after, snapshot),
    ensures
        after.wf(),
        after.latest() == snapshot,
{
}

/// After a snapshot was recorded at some slot, the next snapshot may only be
/// taken once the farm's snapshot window has passed since that slot: a
/// request at any earlier slot is refused.
pub proof fn lemma_snapshot_window_restarts(
    before: Farm,
    after: Farm,
    snapshot: Snapshot,
    later: u64,
)
    requires
        before.wf(),
        before.records_snapshot(after, snapshot),
        later < snapshot.started_at.slot + before.snapshot_window(),
    ensures
        after.snapshot_window() == before.snapshot_window(),
        after.next_snapshot_slot() == snapshot.started_at.slot + before.snapshot_window(),
        later < after.next_snapshot_slot(),
{
}

/// The snapshot window of a farm is its admin's setting whenever that is
/// nonzero, of any size, and the default window only while it is zero; the
/// next snapshot may be taken once that many slots have passed since the
/// latest snapshot started.
pub proof fn lemma_snapshot_window_follows_setting(farm: Farm)
    ensures
        farm.min_snapshot_window_slots != 0 ==> farm.snapshot_window()
            == farm.min_snapshot_window_slots,
        farm.min_snapshot_window_slots == 0 ==> farm.snapshot_window()
            == MIN_SNAPSHOT_WINDOW_SLOTS,
        farm.snapshot_window() >= farm.min_snapshot_window_slots,
        farm.snapshot_window() > 0,
        farm.next_snapshot_slot() == farm.latest().started_at.slot + (
        if farm.min_snapshot_window_slots == 0 {
            MIN_SNAPSHOT_WINDOW_SLOTS
        } else {
            farm.min_snapshot_window_slots
        }),
{
}

/// Each snapshot moves the tip one index forward, wrapping around after the
/// last index of the ring buffer.
pub proof fn lemma_next_tip_cycles(tip: u64)
    requires
        tip < SNAPSHOTS_LEN,
    ensures
        Snapshots::next_tip(tip) < SNAPSHOTS_LEN,
        tip + 1 < SNAPSHOTS_LEN ==> Snapshots::next_tip(tip) == tip + 1,
        tip + 1 == SNAPSHOTS_LEN ==> Snapshots::next_tip(tip) == 0,
{
}

/// `farms[i + 1]` is `farms[i]` after recording `snapshots[i]`, for every
/// recorded snapshot.
pub open spec fn is_snapshot_trace(farms: Seq<Farm>, snapshots: Seq<Snapshot>) -> bool {
    &&& farms.len() == snapshots.len() + 1
    &&& forall|i: int|
        0 <= i < snapshots.len() ==> (#[trigger] farms[i]).records_snapshot(
            farms[i + 1],
            snapshots[i],
        )
}

/// The ring buffer keeps the most recent snapshots: after `n` snapshots
/// starting from a farm with a valid tip `t`, the tip is at `(t + n) mod
/// SNAPSHOTS_LEN`, and for every `k` below both `n` and `SNAPSHOTS_LEN`, the
/// snapshot recorded `k` snapshots before the last one sits at
/// `(t + n - k) mod SNAPSHOTS_LEN`.
#[verifier::spinoff_prover]
#[verifier::rlimit(50)]
pub proof fn lemma_ring_buffer_keeps_recent_snapshots(
    farms: Seq<Farm>,
    snapshots: Seq<Snapshot>,
    n: int,
)
    requires
        is_snapshot_trace(farms, snapshots),
        farms[0].wf(),
        0 <= n <= snapshots.len(),
    ensures
        farms[n].wf(),
        farms[n].snapshots.ring_buffer_tip == (farms[0].snapshots.ring_buffer_tip + n) % (
        SNAPSHOTS_LEN as int),
        forall|k: int|
            0 <= k < n && k < SNAPSHOTS_LEN ==> #[trigger] farms[n].snapshots.ring_buffer@[(
            farms[0].snapshots.ring_buffer_tip + n - k) % (SNAPSHOTS_LEN as int)]
                == snapshots[n - 1 - k],
    decreases n,
{
    let len = SNAPSHOTS_LEN as int;
    let t0 = farms[0].snapshots.ring_buffer_tip as int;
    if n == 0 {
        lemma_small_mod(t0 as nat, len as nat);
    } else {
        lemma_ring_buffer_keeps_recent_snapshots(farms, snapshots, n - 1);
        let prev = farms[n - 1];
        let cur = farms[n];
        assert(prev.records_snapshot(cur, snapshots[n - 1]));
        // The tip advances to (t0 + n) mod len.
        lemma_add_mod_noop(t0 + n - 1, 1, len);
        lemma_small_mod(1, len as nat);
        assert(cur.snapshots.ring_buffer_tip == (t0 + n) % len);
        assert forall|k: int| 0 <= k < n && k < len implies #[trigger] cur.snapshots.ring_buffer@[(
        t0 + n - k) % len] == snapshots[n - 1 - k] by {
            if k > 0 {
                // The slot written last is different from the one at distance k.
                lemma_mod_equivalence(t0 + n, t0 + n - k, len);
                lemma_small_mod(k as nat, len as nat);
                assert((t0 + n - k) % len != (t0 + n) % len);
                assert((t0 + n - k) % len == (t0 + (n - 1) - (k - 1)) % len);
                assert(prev.snapshots.ring_buffer@[(t0 + (n - 1) - (k - 1)) % len] == snapshots[(n
                    - 1) - 1 - (k - 1)]);
            }
        }
    }
}

/// What `tokens_per_slot` returns, over any history: the value of the first
/// entry set at or before the slot, with the entry before it as the next
/// change (none for the first entry); where every entry was set after the
/// slot, zero, with the last entry of nonzero value as the next change, or
/// the first entry where every value is zero.
pub proof fn lemma_tokens_per_slot_answers(history: Seq<TokensPerSlotHistory>, slot: u64)
    requires
        history.len() > 0,
    ensures
        forall|i: int|
            #![trigger history[i]]
            0 <= i < history.len() && history[i].at.slot <= slot && (forall|j: int|
                0 <= j < i ==> slot < (#[trigger] history[j]).at.slot) ==> {
                &&& tokens_per_slot_at(history, slot).0 == history[i].value
                &&& i == 0 ==> tokens_per_slot_at(history, slot).1 is None
                &&& i > 0 ==> tokens_per_slot_at(history, slot).1 == Some(history[i - 1].at)
            },
        (forall|i: int| 0 <= i < history.len() ==> slot < (#[trigger] history[i]).at.slot) ==> {
            &&& tokens_per_slot_at(history, slot).0.amount == 0
            &&& forall|j: int|
                #![trigger history[j]]
                0 <= j < history.len() && history[j].value.amount != 0 && (forall|m: int|
                    j < m < history.len() ==> (#[trigger] history[m]).value.amount == 0)
                    ==> tokens_per_slot_at(history, slot).1 == Some(history[j].at)
            &&& (forall|m: int| 0 <= m < history.len() ==> (#[trigger] history[m]).value.amount
                == 0) ==> tokens_per_slot_at(history, slot).1 == Some(history[0].at)
        },
{
    assert forall|i: int|
        #![trigger history[i]]
        0 <= i < history.len() && history[i].at.slot <= slot && (forall|j: int|
            0 <= j < i ==> slot < (#[trigger] history[j]).at.slot) implies {
        &&& tokens_per_slot_at(history, slot).0 == history[i].value
        &&& i == 0 ==> tokens_per_slot_at(history, slot).1 is None
        &&& i > 0 ==> tokens_per_slot_at(history, slot).1 == Some(history[i - 1].at)
    } by {
        assert(is_first_change_at_or_before(history, slot, i));
        let c = choose|c: int| is_first_change_at_or_before(history, slot, c);
        lemma_first_change_unique(history, slot, i, c);
    }
    if forall|i: int| 0 <= i < history.len() ==> slot < (#[trigger] history[i]).at.slot {
        assert(!exists|c: int| is_first_change_at_or_before(history, slot, c)) by {
            if exists|c: int| is_first_change_at_or_before(history, slot, c) {
                let c = choose|c: int| is_first_change_at_or_before(history, slot, c);
                assert(slot < history[c].at.slot);
            }
        }
        assert forall|j: int|
            #![trigger history[j]]
            0 <= j < history.len() && history[j].value.amount != 0 && (forall|m: int|
                j < m < history.len() ==> (#[trigger] history[m]).value.amount == 0) implies
            tokens_per_slot_at(history, slot).1 == Some(history[j].at) by {
            assert(is_last_nonzero_change(history, j));
            let c = choose|c: int| is_last_nonzero_change(history, c);
            lemma_last_nonzero_unique(history, j, c);
        }
        if forall|m: int| 0 <= m < history.len() ==> (#[trigger] history[m]).value.amount == 0 {
            assert(!exists|c: int| is_last_nonzero_change(history, c)) by {
                if exists|c: int| is_last_nonzero_change(history, c) {
                    let c = choose|c: int| is_last_nonzero_change(history, c);
                    assert(history[c].value.amount == 0);
                }
            }
        }
    }
}

/// Over a history ordered by slot, latest first, `tokens_per_slot` returns
/// the latest change of ρ made at or before the slot, and the next change it
/// reports is the earliest change made after the slot.
pub proof fn lemma_tokens_per_slot_is_latest_change(
    history: Seq<TokensPerSlotHistory>,
    slot: u64,
    k: int,
)
    requires
        forall|i: int, j: int|
            0 <= i <= j < history.len() ==> (#[trigger] history[i]).at.slot >= (
            #[trigger] history[j]).at.slot,
        0 <= k < history.len(),
        history[k].at.slot <= slot,
    ensures
        ({
            let (value, next) = tokens_per_slot_at(history, slot);
            exists|i: int|
                #![trigger history[i]]
                {
                    &&& 0 <= i < history.len()
                    &&& history[i].at.slot <= slot
                    &&& value == history[i].value
                    &&& forall|m: int|
                        0 <= m < history.len() && history[m].at.slot <= slot ==> history[m].at.slot
                            <= history[i].at.slot
                    &&& (next is None <==> i == 0)
                }
        }),
        ({
            let next = tokens_per_slot_at(history, slot).1;
            next matches Some(n) ==> {
                &&& slot < n.slot
                &&& forall|m: int|
                    0 <= m < history.len() && slot < history[m].at.slot ==> n.slot
                        <= #[trigger] history[m].at.slot
            }
        }),
{
    // The first change at or before the slot exists: it is the smallest index
    // at or before `k` whose change is at or before the slot.
    let i = first_index_at_or_before(history, slot, k);
    assert(is_first_change_at_or_before(history, slot, i));
    let c = choose|c: int| is_first_change_at_or_before(history, slot, c);
    lemma_first_change_unique(history, slot, i, c);
    assert forall|m: int|
        0 <= m < history.len() && history[m].at.slot <= slot implies history[m].at.slot
        <= history[i].at.slot by {
        if m < i {
            assert(slot < history[m].at.slot);
        }
    }
    if i > 0 {
        assert forall|m: int| 0 <= m < history.len() && slot < history[m].at.slot implies history[i
            - 1].at.slot <= #[trigger] history[m].at.slot by {
            if m >= i {
                assert(history[i].at.slot >= history[m].at.slot);
            }
        }
    }
}

/// The smallest index up to `k` whose change is at or before `slot`.
proof fn first_index_at_or_before(history: Seq<TokensPerSlotHistory>, slot: u64, k: int) -> (i:
    int)
    requires
        0 <= k < history.len(),
        history[k].at.slot <= slot,
    ensures
        is_first_change_at_or_before(history, slot, i),
        i <= k,
    decreases k,
{
    if exists|j: int| 0 <= j < k && (#[trigger] history[j]).at.slot <= slot {
        let j = choose|j: int| 0 <= j < k && (#[trigger] history[j]).at.slot <= slot;
        first_index_at_or_before(history, slot, j)
    } else {
        k
    }
}

/// Where every change of ρ was made after the slot, ρ is zero (the harvest
/// is lost) and the reported next change is one of them, so it lies after
/// the slot.
pub proof fn lemma_tokens_per_slot_before_history(history: Seq<TokensPerSlotHistory>, slot: u64)
    requires
        history.len() > 0,
        forall|i: int| 0 <= i < history.len() ==> slot < (#[trigger] history[i]).at.slot,
    ensures
        tokens_per_slot_at(history, slot).0.amount == 0,
        tokens_per_slot_at(history, slot).1 is Some,
        slot < tokens_per_slot_at(history, slot).1->0.slot,
{
    assert(!exists|c: int| is_first_change_at_or_before(history, slot, c)) by {
        if exists|c: int| is_first_change_at_or_before(history, slot, c) {
            let c = choose|c: int| is_first_change_at_or_before(history, slot, c);
            assert(slot < history[c].at.slot);
        }
    }
    if exists|j: int| is_last_nonzero_change(history, j) {
        let j = choose|j: int| is_last_nonzero_change(history, j);
        assert(slot < history[j].at.slot);
    } else {
        assert(slot < history[0].at.slot);
    }
}

} // verus!
