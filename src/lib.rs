//! A payments engine: replays deposits, withdrawals, disputes, resolves and
//! chargebacks over per-client accounts held in exact decimal amounts.
pub mod amount;
pub mod transaction;
pub mod ledger;
pub mod laws;
