//! A ledger of client accounts driven by a stream of deposits, withdrawals
//! and the dispute lifecycle (dispute, resolve, chargeback).
//!
//! Amounts are fixed-point integers counting ten-thousandths of a unit, so
//! every balance is exact and `total == available + held` holds exactly.
pub mod account;
pub mod amount;
pub mod engine;
pub mod error;
pub mod transaction;
