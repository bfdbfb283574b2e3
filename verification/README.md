# amm farming model

The farming part of an AMM: each farm distributes up to ten harvests, whose
tokens-per-slot setting keeps a history of its changes, and records the
amount of staked tokens in a ring buffer of snapshots.

- `src/models/farm.rs`: the data model, `Harvest::tokens_per_slot`,
  `Farm::latest_snapshot` and `Farm::take_snapshot`, with their contracts.
- `src/models/farm_laws.rs`: properties that span calls (the ring buffer
  keeps the most recent snapshots, the snapshot window restarts, the
  tokens-per-slot lookup finds the latest change at or before a slot).
- `src/consts.rs`, `src/error.rs`, `src/pubkey.rs`, `src/models/slot.rs`,
  `src/models/token_amount.rs`: constants and the small types the model uses.
