//! Coordination and consensus rules for a blind-merge-mined sidechain: the mining cycle as a
//! state machine, the per-height limits on transactions and bodies, the wallet's unspent view
//! and its reconciliation with the ledger, and the draft transactions the wallet signs.

pub mod builder;
pub mod consensus;
pub mod mining;
pub mod panels;
pub mod types;
pub mod utxo;
