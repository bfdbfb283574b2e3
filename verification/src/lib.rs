//! Farming model of the AMM: harvest configuration with its history of
//! tokens-per-slot changes, and the ring buffer of stake snapshots.
pub mod consts;
pub mod error;
pub mod models;
pub mod pubkey;
