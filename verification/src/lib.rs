//! Atomic swap escrow: a maker deposits one asset into a derived vault and
//! names the amount of a second asset it wants back; a taker fulfills the
//! offer atomically, or the maker cancels it. The ledger model, the escrow
//! record, the deterministic address derivation and the three transitions
//! are verified here.

pub mod address;
pub mod derivation;
pub mod errors;
pub mod ledger;
pub mod steps;
pub mod state;
