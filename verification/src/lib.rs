//! Verified accounting for a token-staking scheme and its two sibling
//! distribution schemes.
//!
//! * [`staking`]: participants bond a token, accrue rewards from a time-sliced
//!   emission schedule in proportion to their stake, and unlock principal
//!   through a delayed or a penalised instant path.
//! * [`airdrop`]: a fixed allocation released by the number of missions passed.
//! * [`vesting`]: a fixed allocation released daily after a cliff.
//!
//! Every operation is a function from an explicit store and plain inputs to a
//! new store and a list of transfers; contracts are stated over mathematical
//! integers and sequences.

pub mod addr_map;
pub mod airdrop;
pub mod chain;
pub mod errors;
pub mod math;
pub mod payment;
pub mod platform_registry;
pub mod staking;
pub mod vesting;
