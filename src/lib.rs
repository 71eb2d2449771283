//! A ledger of client accounts driven by a stream of deposits, withdrawals
//! and dispute events, with every balance change proved exact.

pub mod account;
pub mod amount;
pub mod engine;
pub mod laws;
pub mod ledger;
pub mod transaction;
