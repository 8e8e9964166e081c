//! The messages of the airdrop scheme and its answers.

use vstd::prelude::*;
use crate::airdrop::state::FeeConfig;

verus! {

/// What the scheme is set up with.
#[derive(Clone, Debug, PartialEq, Eq)]
pub struct InstantiateMsg {
    pub owner: String,
    pub terraland_token: String,
    pub fee_config: Vec<FeeConfig>,
    pub mission_smart_contracts: Option<InstantiateMissionSmartContracts>,
}

/// The addresses of the mission contracts, as a message names them.
#[derive(Clone, Debug, PartialEq, Eq)]
pub struct InstantiateMissionSmartContracts {
    pub lp_staking: Option<String>,
    pub tland_staking: Option<String>,
    pub platform_registry: Option<String>,
}

/// The operations that change the store.
#[derive(Clone, Debug, PartialEq, Eq)]
pub enum ExecuteMsg {
    UpdateConfig {
        owner: Option<String>,
        fee_config: Option<Vec<FeeConfig>>,
        mission_smart_contracts: Option<InstantiateMissionSmartContracts>,
    },
    /// Claim what the missions passed have earned. `missions` is what the
    /// mission contracts answer for the sender.
    Claim { missions: Missions },
    RegisterMembers(Vec<RegisterMemberItem>),
    RemoveMembers(Vec<String>),
    UstWithdraw { recipient: String, amount: u128 },
    /// Withdraw all of a token, by the owner. `balance` is what the token
    /// contract reports as held by this contract.
    TokenWithdraw { token: String, recipient: String, balance: u128 },
}

/// The message of a migration; it carries nothing.
#[derive(Clone, Copy, Debug, PartialEq, Eq, Structural)]
pub struct MigrateMsg {}

/// The questions that the scheme answers.
#[derive(Clone, Debug, PartialEq, Eq)]
pub enum QueryMsg {
    Config {},
    State {},
    Member { address: String },
    ListMembers { start_after: Option<String>, limit: Option<u32> },
}

/// One member to register: the allocation and, where given, what counts
/// as claimed of it.
#[derive(Clone, Debug, PartialEq, Eq)]
pub struct RegisterMemberItem {
    pub address: String,
    pub amount: u128,
    pub claimed: Option<u128>,
}

/// A member with what it can claim for the missions passed.
#[derive(Clone, Copy, Debug, PartialEq, Eq, Structural)]
pub struct MemberResponseItem {
    pub amount: u128,
    pub available_to_claim: u128,
    pub claimed: u128,
    pub passed_missions: Missions,
}

/// The missions that a member has passed.
#[derive(Clone, Copy, Debug, PartialEq, Eq, Structural)]
pub struct Missions {
    pub is_in_lp_staking: bool,
    pub is_registered_on_platform: bool,
    pub is_property_shareholder: bool,
}

/// A member as a listing shows it.
#[derive(Clone, Debug, PartialEq, Eq)]
pub struct MemberListResponseItem {
    pub address: String,
    pub amount: u128,
    pub claimed: u128,
}

/// The answer to a query for one member; `None` for an unknown address.
#[derive(Clone, Copy, Debug, PartialEq, Eq, Structural)]
pub struct MemberResponse {
    pub member: Option<MemberResponseItem>,
}

/// One page of the listing of all members.
#[derive(Clone, Debug, PartialEq, Eq)]
pub struct MemberListResponse {
    pub members: Vec<MemberListResponseItem>,
}

} // verus!
