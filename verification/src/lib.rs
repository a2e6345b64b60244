//! A pooled-capital vault: depositors pay in a stable currency and receive
//! proportional ownership shares; idle capital is deployed into an external
//! liquidation-auction bid queue that pays out a collateral asset.  The
//! modules below hold the vault's valuation, share accounting, bid
//! lifecycle, time-lock queue and access-control logic, each function with
//! a contract describing exactly what it computes and when it fails.
//!
//! The host environment (persistent storage, bank balances, the external
//! bid queue, the price oracle) is modelled by plain values: an operation
//! takes the stored vault data and a snapshot of the host queries, and
//! returns the new vault data together with the list of outgoing commands,
//! or a typed error.  Either everything in the result takes effect, or
//! nothing does.

pub mod bids;
pub mod commands;
pub mod contract;
pub mod error;
pub mod laws;
pub mod lock;
pub mod maps;
pub mod msg;
pub mod query;
pub mod rate;
pub mod state;
pub mod valuation;

pub use error::ContractError;
