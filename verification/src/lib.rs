//! Accounting and risk-management core of a decentralized lending pool.
//!
//! The pool tracks, per supported asset, a market of deposits and borrows
//! whose value grows over time through compounding interest indices, and it
//! enforces solvency rules that let third parties liquidate
//! under-collateralized positions. Balances are stored "scaled"
//! (normalized by the market's index at write time) so that they grow
//! passively between accrual points without per-user writes.

pub mod config;
pub mod decimal;
pub mod error;
pub mod governance;
pub mod health;
pub mod ledger;
pub mod market;
pub mod pool;
pub mod positions;
