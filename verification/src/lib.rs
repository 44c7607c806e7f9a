//! Reward-emission and vault accounting for a family of on-chain incentive
//! contracts: a fixed token supply is released over block height according to
//! a piecewise-constant schedule, split pro-rata among registered receivers by
//! mutable weights, and a share-accounted vault mints and burns claims on a
//! pooled balance.
//!
//! Everything here is pure integer logic over plain values.  The host
//! environment (storage, message encoding, token transfers) supplies inputs
//! such as the current block height and the caller identity, and executes the
//! payout instructions these functions return.

pub mod accrual;
pub mod contract;
pub mod distributor;
pub mod error;
pub mod msg;
pub mod registry;
pub mod state;
pub mod vault;
