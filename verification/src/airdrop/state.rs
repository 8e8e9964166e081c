//! What the airdrop scheme keeps between operations.

use vstd::prelude::*;
use crate::addr_map::AddrMap;
pub use crate::payment::FeeConfig;

verus! {

/// The configuration, set at instantiation and changed by the owner only.
#[derive(Clone, Debug, PartialEq, Eq)]
pub struct Config {
    pub owner: String,
    pub terraland_token: String,
    pub fee_config: Vec<FeeConfig>,
    pub mission_smart_contracts: MissionSmartContracts,
}

/// The contracts that are asked whether a member has passed a mission.
#[derive(Clone, Debug, PartialEq, Eq)]
pub struct MissionSmartContracts {
    pub lp_staking: Option<String>,
    pub tland_staking: Option<String>,
    pub platform_registry: Option<String>,
}

/// The allocation of one member and what the member has taken of it.
#[derive(Clone, Copy, Debug, PartialEq, Eq, Structural)]
pub struct Member {
    pub amount: u128,
    pub claimed: u128,
}

impl View for Member {
    type V = Member;

    open spec fn view(&self) -> Member {
        *self
    }
}

impl Default for Member {
    fn default() -> (res: Member)
        ensures
            res == (Member { amount: 0, claimed: 0 }),
    {
        Member { amount: 0, claimed: 0 }
    }
}

/// The number of members.
#[derive(Clone, Copy, Debug, PartialEq, Eq, Structural)]
pub struct State {
    pub num_of_members: u64,
}

/// Everything the airdrop scheme keeps.
#[derive(Debug, PartialEq, Eq)]
pub struct Store {
    pub config: Config,
    pub state: State,
    pub members: AddrMap<Member>,
}

} // verus!
