//! An escrow-backed, two-player, turn-based chess match between staked
//! parties on a deterministically executed ledger.
//!
//! The crate models the match lifecycle state machine with integrated stake
//! escrow and deterministic identity derivation. Chess rules themselves are
//! delegated to an external engine behind a narrow, trusted interface.

pub mod coin;
pub mod contract;
pub mod engine;
pub mod error;
pub mod game;
pub mod ident;
pub mod msg;
pub mod response;
pub mod state;
pub mod store;
