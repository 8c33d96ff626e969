//! Council lifecycle and budget accounting.
//!
//! A governing body of a fixed number of seats is re-elected periodically.
//! Each cycle walks through three stages: candidacy announcement, the
//! election itself (run by an external voting subsystem), and an idle phase.
//! Alongside the lifecycle, a shared budget is refilled on a schedule and
//! paid out to seated members as block rewards, tolerating shortfalls.
//!
//! The crate owns the persistent council state and the rules that mutate it;
//! balances and stake locks live in an external ledger that is modelled here
//! as plain maps (see `ledger`). The host drives the per-tick entry points
//! and performs the real transfers.

pub mod actions;
pub mod calculations;
pub mod checks;
pub mod council;
pub mod election;
pub mod laws;
pub mod ledger;
pub mod mutations;
pub mod rewards;
pub mod state;
pub mod types;
