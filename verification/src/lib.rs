//! Cross-margin lending and trading ledger: a pool of assets shared by many
//! margin accounts, with interest accrued through per-asset indexes, positions
//! valued in a common quote currency, and liquidation of accounts whose
//! collateral no longer covers their debt.
//!
//! All amounts are unsigned 64.64 fixed-point numbers. Every operation either
//! completes or leaves the ledger exactly as it found it.
//!
//! - [`fixed_point`]: the numbers.
//! - [`state`]: the records of a group and of a margin account, and the
//!   plain values in which the outside world is handed to the ledger.
//! - [`rates`], [`group`]: the interest curve and the accrual of interest.
//! - [`oracle`], [`account`]: prices and the valuation of an account.
//! - [`ledger`]: the steps that change an account and its group together.
//! - [`processor`], [`trading`], [`liquidation`], [`genesis`]: the operations.
//! - [`layout`]: where records lie in the bytes that hold them.
//! - [`laws`]: what holds of the operations, proved.

pub mod error;
pub mod steps;
pub mod fixed_point;
pub mod state;
pub mod rates;
pub mod group;
pub mod account;
pub mod oracle;
pub mod ledger;
pub mod processor;
pub mod trading;
pub mod liquidation;
pub mod genesis;
pub mod laws;
pub mod layout;
