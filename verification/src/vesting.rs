//! A fixed allocation released in daily steps after a cliff.

pub mod contract;
pub mod error;
pub mod msg;
pub mod state;
