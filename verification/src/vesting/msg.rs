//! The messages of the vesting scheme and its answers.

use vstd::prelude::*;
use crate::vesting::state::{FeeConfig, Vesting};

verus! {

/// What the scheme is set up with.
#[derive(Clone, Debug, PartialEq, Eq)]
pub struct InstantiateMsg {
    pub owner: String,
    pub terraland_token: String,
    pub name: String,
    pub fee_config: Vec<FeeConfig>,
    pub vesting: Vesting,
}

/// The operations that change the store.
#[derive(Clone, Debug, PartialEq, Eq)]
pub enum ExecuteMsg {
    UpdateConfig {
        owner: Option<String>,
        name: Option<String>,
        fee_config: Option<Vec<FeeConfig>>,
        vesting: Option<Vesting>,
    },
    Claim {},
    RegisterMembers(Vec<RegisterMemberItem>),
    UstWithdraw { recipient: String, amount: u128 },
    /// Withdraw all of a token, by the owner. `balance` is what the token
    /// contract reports as held by this contract.
    TokenWithdraw { token: String, recipient: String, balance: u128 },
}

/// The message of a migration; it carries nothing.
#[derive(Clone, Copy, Debug, PartialEq, Eq, Structural)]
pub struct MigrateMsg {}

/// The questions that the scheme answers.
#[derive(Clone, Debug, PartialEq, Eq)]
pub enum QueryMsg {
    Config {},
    State {},
    Member { address: String },
    ListMembers { start_after: Option<String>, limit: Option<u32> },
}

/// One member to register: the allocation and what counts as claimed of
/// it, nothing where that is not given.
#[derive(Clone, Debug, PartialEq, Eq)]
pub struct RegisterMemberItem {
    pub address: String,
    pub amount: u128,
    pub claimed: Option<u128>,
}

/// A member with what it can claim at the time of the query.
#[derive(Clone, Copy, Debug, PartialEq, Eq, Structural)]
pub struct MemberResponseItem {
    pub amount: u128,
    pub available_to_claim: u128,
    pub claimed: u128,
}

/// A member as a listing shows it.
#[derive(Clone, Debug, PartialEq, Eq)]
pub struct MemberListResponseItem {
    pub address: String,
    pub info: MemberResponseItem,
}

/// The answer to a query for one member; `None` for an unknown address.
#[derive(Clone, Copy, Debug, PartialEq, Eq, Structural)]
pub struct MemberResponse {
    pub member: Option<MemberResponseItem>,
}

/// One page of the listing of all members.
#[derive(Clone, Debug, PartialEq, Eq)]
pub struct MemberListResponse {
    pub members: Vec<MemberListResponseItem>,
}

} // verus!
