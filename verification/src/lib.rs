//! A ledger engine that replays an ordered log of transactions against
//! per-client accounts.
//!
//! Amounts are fixed-point numbers counted in ten-thousandths of a currency
//! unit, so every comparison and every sum is exact.
//!
//! - [`amount`]: the decimal notation of amounts, read and written.
//! - [`transaction`]: the records that the engine takes.
//! - [`client`]: one account and its five balance operations.
//! - [`index`]: the accepted transactions and their dispute status.
//! - [`ledger`]: the mathematical model of a run, record by record.
//! - [`engine`]: the engine itself, proved against that model.
//! - [`laws`]: what holds of every run.
//! - [`error`]: why a record is refused, and whether that ends the run.

pub mod amount;
pub mod client;
pub mod engine;
pub mod error;
pub mod index;
pub mod laws;
pub mod ledger;
pub mod transaction;
