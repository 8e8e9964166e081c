//! The messages of the staking scheme and its answers.

use vstd::prelude::*;
use crate::math::Decimal;
use crate::staking::state::{Claim, FeeConfig, Schedule};

verus! {

/// What the scheme is set up with.
#[derive(Clone, Debug, PartialEq, Eq)]
pub struct InstantiateMsg {
    pub owner: String,
    pub staking_token: String,
    pub terraland_token: String,
    pub unbonding_period: u64,
    pub burn_address: String,
    pub instant_claim_percentage_loss: u64,
    pub distribution_schedule: Vec<Schedule>,
    pub fee_config: Vec<FeeConfig>,
}

/// The parts of the configuration to replace; `None` keeps a part.
#[derive(Clone, Debug, PartialEq, Eq)]
pub struct NewConfig {
    pub owner: Option<String>,
    pub staking_token: Option<String>,
    pub unbonding_period: Option<u64>,
    pub burn_address: Option<String>,
    pub instant_claim_percentage_loss: Option<u64>,
    pub distribution_schedule: Option<Vec<Schedule>>,
    pub fee_config: Option<Vec<FeeConfig>>,
}

/// Tokens received from a token contract on behalf of `sender`.
#[derive(Clone, Debug, PartialEq, Eq)]
pub struct Cw20ReceiveMsg {
    /// The participant who sent the tokens.
    pub sender: String,
    pub amount: u128,
    pub msg: ReceiveMsg,
}

/// The operations that change the store.
#[derive(Clone, Debug, PartialEq, Eq)]
pub enum ExecuteMsg {
    /// Update config parameters.
    UpdateConfig(NewConfig),
    /// Start unbonding the given number of tokens: the sender loses the
    /// stake at once and can claim the tokens after the unbonding period.
    Unbond { tokens: u128 },
    /// Claim the tokens whose unbonding period is over.
    Claim {},
    /// Claim without waiting period, but with percentage fee.
    InstantClaim {},
    /// Withdraw reward.
    Withdraw {},
    /// Tokens sent by a token contract.
    Receive(Cw20ReceiveMsg),
    /// Withdraw native coins from the contract, by the owner.
    UstWithdraw { recipient: String, amount: u128 },
    /// Withdraw all of a token from the contract, by the owner. `balance` is
    /// what the token contract reports as held by this contract.
    TokenWithdraw { token: String, recipient: String, balance: u128 },
}

/// The message of a migration; it carries nothing.
#[derive(Clone, Copy, Debug, PartialEq, Eq, Structural)]
pub struct MigrateMsg {}

/// What a deposit through the token contract asks for.
#[derive(Clone, Copy, Debug, PartialEq, Eq, Structural)]
pub enum ReceiveMsg {
    /// Only valid cw20 message is to bond the tokens.
    Bond {},
}

/// The questions that the scheme answers.
#[derive(Clone, Debug, PartialEq, Eq)]
pub enum QueryMsg {
    /// Return config.
    Config {},
    /// Return state.
    State {},
    /// Return staker info.
    Member { address: String },
    /// Return stakers.
    ListMembers { start_after: Option<String>, limit: Option<u32> },
}

/// A participant as of the time of the query.
#[derive(Debug, PartialEq, Eq, Clone)]
pub struct MemberResponseItem {
    pub stake: u128,
    /// The reward accrued up to the time of the query.
    pub reward: u128,
    pub reward_index: Decimal,
    pub withdrawn: u128,
    pub claims: Vec<Claim>,
}

/// A participant as a listing shows it.
#[derive(Debug, PartialEq, Eq, Clone)]
pub struct MemberListResponseItem {
    pub address: String,
    pub info: MemberResponseItem,
}

/// The answer to a query for one participant; `None` for an unknown
/// address.
#[derive(Debug, PartialEq, Eq, Clone)]
pub struct MemberResponse {
    pub member: Option<MemberResponseItem>,
}

/// One page of the listing of all participants.
#[derive(Debug, PartialEq, Eq, Clone)]
pub struct MemberListResponse {
    pub members: Vec<MemberListResponseItem>,
}

impl Default for MemberResponseItem {
    fn default() -> (res: MemberResponseItem)
        ensures
            res.stake == 0,
            res.reward == 0,
            res.reward_index.atomics == 0,
            res.withdrawn == 0,
            res.claims@.len() == 0,
    {
        MemberResponseItem {
            stake: 0,
            reward: 0,
            reward_index: Decimal::zero(),
            withdrawn: 0,
            claims: Vec::new(),
        }
    }
}

} // verus!
