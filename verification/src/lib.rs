//! Accounting core of a collateralized lending market.
//!
//! The crate tracks, per listed asset and per user, supplied and borrowed
//! balances, accrues interest through compounding indices, and checks
//! collateralization on every balance-changing operation.
//!
//! The ledger is pure: the time, the prices, the caller and the caller's
//! roles come in as plain values, and every operation hands back a receipt
//! of what the collaborators are to be told. An operation that is refused
//! leaves the pool as it was.
//!
//! - [`wide`] and [`fixed`]: checked fixed-point arithmetic with 256-bit
//!   products.
//! - [`bitset`]: sets of reserve ids.
//! - [`reserve`], [`position`], [`config`]: the records of the ledger, the
//!   rates of a reserve and the accrual of interest.
//! - [`records`] and [`actions`]: the transitions of deposit, redeem, borrow,
//!   repay and the collateral flag on the records they touch.
//! - [`collateral`]: the values of a user's collateral and debt.
//! - [`table`] and [`pool`]: the store and its invariant.
//! - [`v_token_interface`], [`manage`], [`view`]: the remaining entry points
//!   of the pool.
//! - [`block_timestamp_provider`], [`price_feed_provider`]: the clock and the
//!   price feed of a deployment.
//! - [`laws`]: what holds of the ledger whatever the inputs.

pub mod account;
pub mod actions;
pub mod bitset;
pub mod block_timestamp_provider;
pub mod collateral;
pub mod config;
pub mod errors;
pub mod fixed;
pub mod laws;
pub mod manage;
pub mod pool;
pub mod position;
pub mod price_feed_provider;
pub mod records;
pub mod reserve;
pub mod table;
pub mod v_token_interface;
pub mod view;
pub mod wide;
