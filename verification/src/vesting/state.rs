//! What the vesting scheme keeps between operations.

use vstd::prelude::*;
use crate::addr_map::AddrMap;
pub use crate::payment::FeeConfig;

verus! {

/// The configuration, set at instantiation and changed by the owner only.
#[derive(Clone, Debug, PartialEq, Eq)]
pub struct Config {
    pub owner: String,
    pub terraland_token: String,
    pub name: String,
    pub fee_config: Vec<FeeConfig>,
    pub vesting: Vesting,
}

/// The release plan: nothing before `start_time`; `initial_percentage`
/// percent from then until `cliff_end_time`; from there the rest in equal
/// daily steps up to `end_time`; everything after `end_time`.
#[derive(Clone, Copy, Debug, PartialEq, Eq, Structural)]
pub struct Vesting {
    pub start_time: u64,
    pub end_time: u64,
    pub initial_percentage: u64,
    pub cliff_end_time: u64,
}

/// The allocation of one member and what the member has taken of it.
#[derive(Clone, Copy, Debug, PartialEq, Eq, Structural)]
pub struct Member {
    pub amount: u128,
    pub claimed: u128,
}

impl View for Member {
    type V = Member;

    open spec fn view(&self) -> Member {
        *self
    }
}

/// The number of members.
#[derive(Clone, Copy, Debug, PartialEq, Eq, Structural)]
pub struct State {
    pub num_of_members: u64,
}

/// Everything the vesting scheme keeps.
#[derive(Debug, PartialEq, Eq)]
pub struct Store {
    pub config: Config,
    pub state: State,
    pub members: AddrMap<Member>,
}

} // verus!
