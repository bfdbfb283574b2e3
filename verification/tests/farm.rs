use amm::consts;
use amm::models::farm::{Farm, Harvest, Snapshot, Snapshots, TokensPerSlotHistory};
use amm::models::slot::Slot;
use amm::models::token_amount::TokenAmount;
use std::cell;

#[test]
fn it_matches_harvest_tokens_per_slot_with_const() {
    let harvest = Harvest::default();

    assert_eq!(
        harvest.tokens_per_slot.len(),
        consts::TOKENS_PER_SLOT_HISTORY_LEN
    );
}

#[test]
fn it_matches_snapshots_with_const() {
    let snapshots = Snapshots::default();

    assert_eq!(snapshots.ring_buffer.len(), consts::SNAPSHOTS_LEN);
}

#[test]
fn it_matches_harvests_with_const() {
    let farm = Farm::default();

    assert_eq!(farm.harvests.len(), consts::MAX_HARVEST_MINTS);
}

#[test]
fn it_has_stable_size() {
    let farm = Farm::default();

    assert_eq!(8 + std::mem::size_of_val(&farm), 18_360);
}

#[test]
fn it_calculates_tps_with_empty_setting() {
    let harvest = Harvest::default();
    let (tps, next_change) = harvest.tokens_per_slot(Slot { slot: 0 });
    assert_eq!(tps.amount, 0);
    assert!(next_change.is_none());
}

#[test]
fn it_calculates_tps_with_one_setting() {
    let mut harvest = Harvest::default();
    harvest.tokens_per_slot[0] = TokensPerSlotHistory {
        value: TokenAmount { amount: 10 },
        at: Slot { slot: 100 },
    };

    let (tps, next_change) = harvest.tokens_per_slot(Slot { slot: 0 });
    assert_eq!(tps.amount, 0);
    assert_eq!(next_change, Some(Slot { slot: 100 }));

    let (tps, next_change) = harvest.tokens_per_slot(Slot { slot: 50 });
    assert_eq!(tps.amount, 0);
    assert_eq!(next_change, Some(Slot { slot: 100 }));

    let (tps, next_change) = harvest.tokens_per_slot(Slot { slot: 100 });
    assert_eq!(tps.amount, 10);
    assert!(next_change.is_none());

    let (tps, next_change) = harvest.tokens_per_slot(Slot { slot: 101 });
    assert_eq!(tps.amount, 10);
    assert!(next_change.is_none());

    let (tps, next_change) = harvest.tokens_per_slot(Slot { slot: 200 });
    assert_eq!(tps.amount, 10);
    assert!(next_change.is_none());
}

#[test]
fn it_calculates_tps_with_five_settings() {
    let mut harvest = Harvest::default();
    harvest.tokens_per_slot[0] = TokensPerSlotHistory {
        value: TokenAmount { amount: 10 },
        at: Slot { slot: 100 },
    };
    harvest.tokens_per_slot[1] = TokensPerSlotHistory {
        value: TokenAmount { amount: 5 },
        at: Slot { slot: 90 },
    };
    harvest.tokens_per_slot[2] = TokensPerSlotHistory {
        value: TokenAmount { amount: 8 },
        at: Slot { slot: 80 },
    };
    harvest.tokens_per_slot[3] = TokensPerSlotHistory {
        value: TokenAmount { amount: 0 },
        at: Slot { slot: 70 },
    };
    harvest.tokens_per_slot[4] = TokensPerSlotHistory {
        value: TokenAmount { amount: 20 },
        at: Slot { slot: 60 },
    };

    let (tps, next_change) = harvest.tokens_per_slot(Slot { slot: 101 });
    assert_eq!(tps.amount, 10);
    assert!(next_change.is_none());

    let (tps, next_change) = harvest.tokens_per_slot(Slot { slot: 100 });
    assert_eq!(tps.amount, 10);
    assert!(next_change.is_none());

    let (tps, next_change) = harvest.tokens_per_slot(Slot { slot: 91 });
    assert_eq!(tps.amount, 5);
    assert_eq!(next_change, Some(Slot { slot: 100 }));

    let (tps, next_change) = harvest.tokens_per_slot(Slot { slot: 90 });
    assert_eq!(tps.amount, 5);
    assert_eq!(next_change, Some(Slot { slot: 100 }));

    let (tps, next_change) = harvest.tokens_per_slot(Slot { slot: 89 });
    assert_eq!(tps.amount, 8);
    assert_eq!(next_change, Some(Slot { slot: 90 }));

    let (tps, next_change) = harvest.tokens_per_slot(Slot { slot: 81 });
    assert_eq!(tps.amount, 8);
    assert_eq!(next_change, Some(Slot { slot: 90 }));

    let (tps, next_change) = harvest.tokens_per_slot(Slot { slot: 80 });
    assert_eq!(tps.amount, 8);
    assert_eq!(next_change, Some(Slot { slot: 90 }));

    let (tps, next_change) = harvest.tokens_per_slot(Slot { slot: 71 });
    assert_eq!(tps.amount, 0);
    assert_eq!(next_change, Some(Slot { slot: 80 }));

    let (tps, next_change) = harvest.tokens_per_slot(Slot { slot: 61 });
    assert_eq!(tps.amount, 20);
    assert_eq!(next_change, Some(Slot { slot: 70 }));

    let (tps, next_change) = harvest.tokens_per_slot(Slot { slot: 60 });
    assert_eq!(tps.amount, 20);
    assert_eq!(next_change, Some(Slot { slot: 70 }));

    let (tps, next_change) = harvest.tokens_per_slot(Slot { slot: 59 });
    assert_eq!(tps.amount, 0);
    assert_eq!(next_change, Some(Slot { slot: 60 }));

    let (tps, next_change) = harvest.tokens_per_slot(Slot { slot: 0 });
    assert_eq!(tps.amount, 0);
    assert_eq!(next_change, Some(Slot { slot: 60 }));
}

#[test]
fn it_calculates_tps_with_max_settings() {
    let mut harvest = Harvest::default();
    harvest.tokens_per_slot[0] = TokensPerSlotHistory {
        value: TokenAmount { amount: 10 },
        at: Slot { slot: 100 },
    };
    for i in 1..(consts::MAX_HARVEST_MINTS - 2) {
        harvest.tokens_per_slot[i] = harvest.tokens_per_slot[0];
    }
    harvest.tokens_per_slot[8] = TokensPerSlotHistory {
        value: TokenAmount { amount: 1 },
        at: Slot { slot: 10 },
    };
    harvest.tokens_per_slot[9] = TokensPerSlotHistory {
        value: TokenAmount { amount: 5 },
        at: Slot { slot: 5 },
    };

    let (tps, next_change) = harvest.tokens_per_slot(Slot { slot: 9 });
    assert_eq!(tps.amount, 5);
    assert_eq!(next_change, Some(Slot { slot: 10 }));

    let (tps, next_change) = harvest.tokens_per_slot(Slot { slot: 5 });
    assert_eq!(tps.amount, 5);
    assert_eq!(next_change, Some(Slot { slot: 10 }));

    let (tps, next_change) = harvest.tokens_per_slot(Slot { slot: 0 });
    assert_eq!(tps.amount, 0);
    assert_eq!(next_change, Some(Slot { slot: 5 }));
}

#[test]
fn it_returns_farm_latest_snapshot() {
    let farm = Farm::default();
    assert_eq!(
        Farm::latest_snapshot(&cell::RefCell::new(farm).borrow()),
        Snapshot::default()
    );

    let mut farm = Farm::default();
    farm.snapshots.ring_buffer_tip = 10;
    farm.snapshots.ring_buffer[10] = Snapshot {
        staked: TokenAmount::new(10),
        started_at: Slot::new(20),
    };
    assert_eq!(
        Farm::latest_snapshot(&cell::RefCell::new(farm).borrow()),
        Snapshot {
            staked: TokenAmount::new(10),
            started_at: Slot::new(20),
        }
    );
}

#[test]
fn it_takes_snapshot() {
    let mut farm = Farm::default();
    farm.min_snapshot_window_slots = 1;

    let stake_vault_amount = 10;
    let current_slot = 5;

    assert_eq!(farm.snapshots.ring_buffer_tip, 0);

    let _result = farm.take_snapshot(
        Slot::new(current_slot),
        TokenAmount::new(stake_vault_amount),
    );

    // After take_snapshot is called the tip should
    // move from 0 to 1
    assert_eq!(farm.snapshots.ring_buffer_tip, 1);

    assert_eq!(
        farm.snapshots.ring_buffer[1].staked,
        TokenAmount { amount: 10 }
    );

    assert_eq!(farm.snapshots.ring_buffer[1].started_at, Slot { slot: 5 });
}
