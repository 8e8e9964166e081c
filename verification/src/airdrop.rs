//! A fixed allocation released by the number of missions passed.

pub mod contract;
pub mod error;
pub mod msg;
pub mod state;
