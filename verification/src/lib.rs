//! A ledger engine for a stream of deposits, withdrawals, disputes,
//! resolutions and chargebacks.
//!
//! Every event is applied at most once, in arrival order, and either commits
//! both an account record and a transaction record or leaves the ledger as it
//! was. The rules are stated once, as a mathematical transition over integers
//! and maps, and every executable function is proved against them.

pub mod decimal;
pub mod engine;
pub mod feed;
pub mod laws;
pub mod ledger;
pub mod model;
pub mod money;
pub mod queue;
pub mod report;
pub mod run;
pub mod state;
pub mod store;
pub mod text;
