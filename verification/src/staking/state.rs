//! What the staking scheme keeps between operations.

use vstd::prelude::*;
use crate::addr_map::AddrMap;
use crate::math::Decimal;
pub use crate::payment::FeeConfig;

verus! {

/// The configuration, set at instantiation and changed by the owner only.
#[derive(Clone, Debug, PartialEq, Eq)]
pub struct Config {
    pub owner: String,
    pub staking_token: String,
    pub terraland_token: String,
    /// Seconds between unbonding and the release of the principal.
    pub unbonding_period: u64,
    pub burn_address: String,
    /// The share of an instant claim that goes to the burn address, in percent.
    pub instant_claim_percentage_loss: u64,
    pub distribution_schedule: Vec<Schedule>,
    pub fee_config: Vec<FeeConfig>,
}

/// One segment of the emission schedule: `amount` is emitted at a constant
/// rate per second from `start_time` up to `end_time`.
#[derive(Clone, Copy, Debug, PartialEq, Eq, Structural)]
pub struct Schedule {
    pub amount: u128,
    pub start_time: u64,
    pub end_time: u64,
}

/// The checkpoint of one participant.
#[derive(Clone, Copy, Debug, PartialEq, Eq, Structural)]
pub struct MemberInfo {
    /// The amount currently bonded.
    pub stake: u128,
    /// The reward accrued up to the checkpoint, withdrawn or not.
    pub pending_reward: u128,
    /// The global reward index at the checkpoint.
    pub reward_index: Decimal,
    /// The part of the reward that was paid out.
    pub withdrawn: u128,
}

/// The accrual state shared by all participants.
#[derive(Clone, Copy, Debug, PartialEq, Eq, Structural)]
pub struct State {
    /// The sum of all stakes.
    pub total_stake: u128,
    /// The time of the last settlement; zero before the first.
    pub last_updated: u64,
    /// The reward emitted so far per unit of stake.
    pub global_reward_index: Decimal,
    pub num_of_members: u64,
}

/// Principal on its way out: `amount` can be claimed from `release_at` on.
#[derive(Clone, Copy, Debug, PartialEq, Eq, Structural)]
pub struct Claim {
    pub amount: u128,
    /// The time of maturity, in seconds.
    pub release_at: u64,
}

/// What the scheme keeps for one participant.
#[derive(Clone, Debug, PartialEq, Eq)]
pub struct Account {
    pub info: MemberInfo,
    /// The outstanding claims, oldest first.
    pub claims: Vec<Claim>,
}

/// An [`Account`] as a mathematical value.
pub ghost struct AccountView {
    pub info: MemberInfo,
    pub claims: Seq<Claim>,
}

impl View for Account {
    type V = AccountView;

    open spec fn view(&self) -> AccountView {
        AccountView { info: self.info, claims: self.claims@ }
    }
}

/// Everything the staking scheme keeps: read and written as a whole by each
/// operation.
#[derive(Debug, PartialEq, Eq)]
pub struct Store {
    pub config: Config,
    pub state: State,
    pub accounts: AddrMap<Account>,
}

impl Default for MemberInfo {
    fn default() -> (res: MemberInfo)
        ensures
            res == (MemberInfo {
                stake: 0,
                pending_reward: 0,
                reward_index: Decimal { atomics: 0 },
                withdrawn: 0,
            }),
    {
        MemberInfo { stake: 0, pending_reward: 0, reward_index: Decimal::zero(), withdrawn: 0 }
    }
}

impl Default for Schedule {
    fn default() -> (res: Schedule)
        ensures
            res == (Schedule { amount: 0, start_time: 0, end_time: 0 }),
    {
        Schedule { amount: 0, start_time: 0, end_time: 0 }
    }
}

} // verus!
