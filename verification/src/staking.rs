//! Stake-weighted reward accrual and the claims queue.

pub mod accrual;
pub mod claims;
pub mod contract;
pub mod error;
pub mod msg;
pub mod state;
