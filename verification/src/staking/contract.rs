//! The operations of the staking scheme.

use vstd::prelude::*;
use vstd::string::*;
use crate::addr_map::{
    contains_key, index_of, lemma_put_entries, lemma_rank_bounds, page, put, rank, record, AddrMap,
};
use crate::chain::{is_send, is_transfer, Balance, Env, Msg, Response};
use crate::math::{
    lemma_scale_bounds, lemma_share_bounds, multiply_ratio, ratio_atomics, scale_floor, share_floor,
    Decimal,
};
use crate::payment::{check_fee, fee_paid, fee_refused, Coin, FeeConfig, FeeError, MessageInfo};
use crate::staking::claims::{
    claim_all, claim_tokens, copy_claims, create_claim, lemma_prefix_totals, matured_total, total,
    waiting,
};
use crate::staking::error::{ContractError, StdError};
use crate::staking::msg::{
    Cw20ReceiveMsg, ExecuteMsg, InstantiateMsg, MemberListResponse, MemberListResponseItem,
    MemberResponse, MemberResponseItem, MigrateMsg, NewConfig, QueryMsg, ReceiveMsg,
};
use crate::staking::state::{Account, AccountView, Claim, Config, MemberInfo, Schedule, State, Store};

verus! {

/// The name under which the scheme records itself.
pub const CONTRACT_NAME: &'static str = "crates.io:fcq-staking";

/// The largest number of members in one page of a listing.
pub const MAX_LIMIT: u32 = 30;

/// The number of members in a page where none is asked for.
pub const DEFAULT_LIMIT: u32 = 10;

/// The seconds of the interval from `from` to `to` that lie in the segment.
pub open spec fn overlap_seconds(segment: Schedule, from: u64, to: u64) -> int {
    let start = if from > segment.start_time {
        from
    } else {
        segment.start_time
    };
    let end = if to < segment.end_time {
        to
    } else {
        segment.end_time
    };
    if end > start {
        end - start
    } else {
        0
    }
}

/// What one segment emits between `from` and `to`: the share of its amount
/// that the seconds of overlap are of its duration, rounded down.
pub open spec fn segment_emission(segment: Schedule, from: u64, to: u64) -> int {
    if overlap_seconds(segment, from, to) > 0 {
        share_floor(
            segment.amount as int,
            overlap_seconds(segment, from, to),
            segment.end_time - segment.start_time,
        )
    } else {
        0
    }
}

/// What the schedule emits between `from` and `to`: the sum over its
/// segments. Nothing is emitted where `to` is not after `from`.
pub open spec fn emitted(schedule: Seq<Schedule>, from: u64, to: u64) -> int
    decreases schedule.len(),
{
    if schedule.len() == 0 {
        0
    } else {
        emitted(schedule.drop_last(), from, to) + segment_emission(schedule.last(), from, to)
    }
}

/// A segment never emits more than its amount, whatever the interval.
pub proof fn lemma_segment_emission_bounds(segment: Schedule, from: u64, to: u64)
    ensures
        0 <= segment_emission(segment, from, to) <= segment.amount,
{
    let seconds = overlap_seconds(segment, from, to);
    if seconds > 0 {
        lemma_share_bounds(
            segment.amount as int,
            seconds,
            0,
            segment.end_time - segment.start_time,
        );
    }
}

/// A prefix of the schedule emits no more than the whole.
pub proof fn lemma_emitted_prefix(schedule: Seq<Schedule>, from: u64, to: u64, k: int)
    requires
        0 <= k <= schedule.len(),
    ensures
        0 <= emitted(schedule.take(k), from, to) <= emitted(schedule, from, to),
    decreases schedule.len(),
{
    if k == schedule.len() {
        assert(schedule.take(k) =~= schedule);
        if schedule.len() > 0 {
            lemma_emitted_prefix(schedule.drop_last(), from, to, k - 1);
            lemma_segment_emission_bounds(schedule.last(), from, to);
            assert(schedule.drop_last().take(k - 1) =~= schedule.drop_last());
        }
    } else {
        lemma_emitted_prefix(schedule.drop_last(), from, to, k);
        lemma_segment_emission_bounds(schedule.last(), from, to);
        assert(schedule.drop_last().take(k) =~= schedule.take(k));
    }
}

/// Segments that do not overlap the interval add nothing: where all overlap
/// lies at positions `first` up to `last`, the prefix before `first` emits
/// nothing and the prefix up to `last` emits everything.
pub proof fn lemma_emitted_range(schedule: Seq<Schedule>, from: u64, to: u64, first: int, last: int)
    requires
        0 <= first <= last <= schedule.len(),
        forall|i: int|
            0 <= i < schedule.len() && overlap_seconds(#[trigger] schedule[i], from, to) > 0
                ==> first <= i < last,
    ensures
        emitted(schedule.take(first), from, to) == 0,
        emitted(schedule.take(last), from, to) == emitted(schedule, from, to),
    decreases schedule.len(),
{
    if schedule.len() == 0 {
        assert(schedule.take(first) =~= schedule);
    } else {
        let rest = schedule.drop_last();
        let n = rest.len() as int;
        if last <= n {
            assert forall|i: int|
                0 <= i < rest.len() && overlap_seconds(#[trigger] rest[i], from, to) > 0 implies first
                <= i < last by {
                assert(rest[i] == schedule[i]);
            }
            lemma_emitted_range(rest, from, to, first, last);
            assert(rest.take(first) =~= schedule.take(first));
            assert(rest.take(last) =~= schedule.take(last));
            assert(overlap_seconds(schedule[n], from, to) <= 0);
        } else {
            assert(schedule.take(last) =~= schedule);
            if first <= n {
                assert forall|i: int|
                    0 <= i < rest.len() && overlap_seconds(#[trigger] rest[i], from, to) > 0 implies first
                    <= i < n by {
                    assert(rest[i] == schedule[i]);
                }
                lemma_emitted_range(rest, from, to, first, n);
                assert(rest.take(first) =~= schedule.take(first));
            } else {
                assert(schedule.take(first) =~= schedule);
                assert forall|i: int|
                    0 <= i < rest.len() && overlap_seconds(#[trigger] rest[i], from, to) > 0 implies n
                    <= i < n by {
                    assert(rest[i] == schedule[i]);
                }
                lemma_emitted_range(rest, from, to, n, n);
                assert(rest.take(n) =~= rest);
                assert(overlap_seconds(schedule[n], from, to) <= 0);
            }
        }
    }
}

/// Whether some second of the interval from `from` to `to` lies in the
/// segment.
pub fn overlaps(segment: &Schedule, from: u64, to: u64) -> (res: bool)
    ensures
        res == (overlap_seconds(*segment, from, to) > 0),
{
    let start = if from > segment.start_time {
        from
    } else {
        segment.start_time
    };
    let end = if to < segment.end_time {
        to
    } else {
        segment.end_time
    };
    end > start
}

/// The positions of the schedule that hold every segment with emission
/// between `start_time` and `end_time`: from the first such segment up to,
/// and not including, the position behind the last. Both are the length of
/// the schedule where no segment overlaps the interval.
pub fn find_distribution_schedule_range(cfg: &Config, start_time: u64, end_time: u64) -> (res: (
    usize,
    usize,
))
    ensures
        res.0 <= res.1 <= cfg.distribution_schedule@.len(),
        forall|i: int|
            0 <= i < cfg.distribution_schedule@.len() && overlap_seconds(
                #[trigger] cfg.distribution_schedule@[i],
                start_time,
                end_time,
            ) > 0 ==> res.0 <= i < res.1,
        res.0 < res.1 ==> overlap_seconds(
            cfg.distribution_schedule@[res.0 as int],
            start_time,
            end_time,
        ) > 0 && overlap_seconds(cfg.distribution_schedule@[res.1 - 1], start_time, end_time) > 0,
        res.0 == res.1 ==> res.0 == cfg.distribution_schedule@.len(),
{
    let schedule = &cfg.distribution_schedule;
    let n = schedule.len();
    let mut first: usize = n;
    let mut last: usize = n;
    let mut i: usize = 0;
    while i < n
        invariant
            schedule@ == cfg.distribution_schedule@,
            n == schedule@.len(),
            i <= n,
            first <= n,
            first == n ==> last == n,
            first < n ==> first < last <= i,
            forall|j: int|
                0 <= j < i && overlap_seconds(#[trigger] schedule@[j], start_time, end_time) > 0
                    ==> first <= j < last,
            first < n ==> overlap_seconds(schedule@[first as int], start_time, end_time) > 0
                && overlap_seconds(schedule@[last - 1], start_time, end_time) > 0,
        decreases n - i,
    {
        if overlaps(&schedule[i], start_time, end_time) {
            if first == n {
                first = i;
            }
            last = i + 1;
        }
        i += 1;
    }
    (first, last)
}

/// What the schedule emits between `from` and `to`; `None` where the sum
/// does not fit in 128 bits.
pub fn emitted_amount(cfg: &Config, from: u64, to: u64) -> (res: Option<u128>)
    ensures
        res == if emitted(cfg.distribution_schedule@, from, to) <= u128::MAX {
            Some(emitted(cfg.distribution_schedule@, from, to) as u128)
        } else {
            None
        },
{
    let schedule = &cfg.distribution_schedule;
    let (first, last) = find_distribution_schedule_range(cfg, from, to);
    let mut total: u128 = 0;
    let mut i: usize = first;
    proof {
        lemma_emitted_range(schedule@, from, to, first as int, last as int);
    }
    while i < last
        invariant
            schedule@ == cfg.distribution_schedule@,
            first <= i <= last <= schedule@.len(),
            total == emitted(schedule@.take(i as int), from, to),
            emitted(schedule@.take(last as int), from, to) == emitted(schedule@, from, to),
        decreases last - i,
    {
        let segment = &schedule[i];
        proof {
            let next = schedule@.take(i + 1);
            assert(next.drop_last() =~= schedule@.take(i as int));
            assert(next.last() == schedule@[i as int]);
            lemma_segment_emission_bounds(*segment, from, to);
            lemma_emitted_prefix(schedule@, from, to, i + 1);
        }
        if overlaps(segment, from, to) {
            let start = if from > segment.start_time {
                from
            } else {
                segment.start_time
            };
            let end = if to < segment.end_time {
                to
            } else {
                segment.end_time
            };
            let part: u128 = multiply_ratio(
                segment.amount,
                (end - start) as u128,
                (segment.end_time - segment.start_time) as u128,
            );
            match total.checked_add(part) {
                Some(sum) => {
                    total = sum;
                },
                None => {
                    return None;
                },
            }
        }
        i += 1;
    }
    Some(total)
}

/// Rewards accrue: a first settlement has been made and someone is staked.
pub open spec fn accrues(state: State) -> bool {
    state.last_updated != 0 && state.total_stake != 0
}

/// The atomic units of the global reward index at `time`: the stored index
/// plus the emission since the last settlement per unit of stake. The index
/// stands still before the first settlement and while nothing is staked.
pub open spec fn index_after(schedule: Seq<Schedule>, state: State, time: u64) -> int {
    if accrues(state) {
        state.global_reward_index.atomics + ratio_atomics(
            emitted(schedule, state.last_updated, time),
            state.total_stake as int,
        )
    } else {
        state.global_reward_index.atomics as int
    }
}

/// The index at `time` can be represented: the emission since the last
/// settlement and the index itself fit in 128 bits.
pub open spec fn index_fits(schedule: Seq<Schedule>, state: State, time: u64) -> bool {
    accrues(state) ==> emitted(schedule, state.last_updated, time) <= u128::MAX && index_after(
        schedule,
        state,
        time,
    ) <= u128::MAX
}

/// The global reward index at `time`.
pub open spec fn index_at(schedule: Seq<Schedule>, state: State, time: u64) -> Decimal {
    Decimal { atomics: index_after(schedule, state, time) as u128 }
}

/// The index never goes down.
pub proof fn lemma_index_monotonic(schedule: Seq<Schedule>, state: State, time: u64)
    ensures
        state.global_reward_index.atomics <= index_after(schedule, state, time),
{
    if accrues(state) {
        let amount = emitted(schedule, state.last_updated, time);
        let stake = state.total_stake as int;
        lemma_emitted_prefix(schedule, state.last_updated, time, 0);
        assert(0 <= amount * 1_000_000_000_000_000_000 / stake) by (nonlinear_arith)
            requires
                0 <= amount,
                0 < stake,
        ;
    }
}

/// The global reward index as of `time`, without changing the state.
pub fn compute_reward_index(cfg: &Config, state: &State, time: u64) -> (res: Result<
    Decimal,
    StdError,
>)
    ensures
        res == if index_fits(cfg.distribution_schedule@, *state, time) {
            Ok::<Decimal, StdError>(index_at(cfg.distribution_schedule@, *state, time))
        } else {
            Err::<Decimal, StdError>(StdError::Overflow)
        },
{
    if state.last_updated == 0 || state.total_stake == 0 {
        return Ok(state.global_reward_index);
    }
    let distributed_amount = match emitted_amount(cfg, state.last_updated, time) {
        Some(amount) => amount,
        None => {
            return Err(StdError::Overflow);
        },
    };
    proof {
        lemma_emitted_prefix(cfg.distribution_schedule@, state.last_updated, time, 0);
    }
    let increase = match Decimal::checked_from_ratio(distributed_amount, state.total_stake) {
        Some(ratio) => ratio,
        None => {
            return Err(StdError::Overflow);
        },
    };
    match state.global_reward_index.checked_add(increase) {
        Some(index) => Ok(index),
        None => Err(StdError::Overflow),
    }
}

/// The reward of a participant once the global index stands at `index`:
/// what was pending, plus the stake times the rise of the index since the
/// checkpoint, rounded down.
pub open spec fn reward_after(member: MemberInfo, index: Decimal) -> int {
    member.pending_reward + scale_floor(
        member.stake as int,
        index.atomics - member.reward_index.atomics,
    )
}

/// The reward at `index` can be computed: the checkpoint does not lie above
/// the index, and neither what accrues nor the reward leaves the range of
/// 128 bits.
pub open spec fn reward_fits(member: MemberInfo, index: Decimal) -> bool {
    &&& member.reward_index.atomics <= index.atomics
    &&& scale_floor(member.stake as int, index.atomics - member.reward_index.atomics)
        <= u128::MAX
    &&& reward_after(member, index) <= u128::MAX
}

/// The reward of a participant as of the global index `global_reward_index`.
pub fn compute_member_reward(member_info: &MemberInfo, global_reward_index: Decimal) -> (res: Result<
    u128,
    StdError,
>)
    ensures
        res == if reward_fits(*member_info, global_reward_index) {
            Ok::<u128, StdError>(reward_after(*member_info, global_reward_index) as u128)
        } else {
            Err::<u128, StdError>(StdError::Overflow)
        },
{
    let rise = match global_reward_index.atomics.checked_sub(member_info.reward_index.atomics) {
        Some(atomics) => Decimal { atomics },
        None => {
            return Err(StdError::Overflow);
        },
    };
    let accrued = match rise.checked_scale(member_info.stake) {
        Some(amount) => amount,
        None => {
            return Err(StdError::Overflow);
        },
    };
    match member_info.pending_reward.checked_add(accrued) {
        Some(reward) => Ok(reward),
        None => Err(StdError::Overflow),
    }
}

/// The participant can be settled at `time`.
pub open spec fn settles(schedule: Seq<Schedule>, state: State, member: MemberInfo, time: u64) -> bool {
    index_fits(schedule, state, time) && reward_fits(member, index_at(schedule, state, time))
}

/// The checkpoint of the participant after a settlement at `time`: the reward
/// is brought up to date and the global index is noted.
pub open spec fn settled(schedule: Seq<Schedule>, state: State, member: MemberInfo, time: u64) -> MemberInfo {
    MemberInfo {
        stake: member.stake,
        pending_reward: reward_after(member, index_at(schedule, state, time)) as u128,
        reward_index: index_at(schedule, state, time),
        withdrawn: member.withdrawn,
    }
}

/// Brings the checkpoint of a participant up to `time`. Nothing changes
/// where the arithmetic overflows.
pub fn update_member_reward(state: &State, cfg: &Config, time: u64, member_info: &mut MemberInfo) -> (res:
    Result<(), StdError>)
    ensures
        res == if settles(cfg.distribution_schedule@, *state, *old(member_info), time) {
            Ok::<(), StdError>(())
        } else {
            Err::<(), StdError>(StdError::Overflow)
        },
        *final(member_info) == if res is Ok {
            settled(cfg.distribution_schedule@, *state, *old(member_info), time)
        } else {
            *old(member_info)
        },
{
    let global_reward_index = match compute_reward_index(cfg, state, time) {
        Ok(index) => index,
        Err(error) => {
            return Err(error);
        },
    };
    let reward = match compute_member_reward(member_info, global_reward_index) {
        Ok(reward) => reward,
        Err(error) => {
            return Err(error);
        },
    };
    member_info.reward_index = global_reward_index;
    member_info.pending_reward = reward;
    Ok(())
}


/// The account of a participant who has not been seen yet.
pub open spec fn new_account() -> AccountView {
    AccountView {
        info: MemberInfo {
            stake: 0,
            pending_reward: 0,
            reward_index: Decimal { atomics: 0 },
            withdrawn: 0,
        },
        claims: Seq::empty(),
    }
}

/// The account kept for `addr`, or a new one.
pub open spec fn account_or_new(accounts: Seq<(Seq<char>, AccountView)>, addr: Seq<char>) -> AccountView {
    if contains_key(accounts, addr) {
        record(accounts, addr)
    } else {
        new_account()
    }
}

/// The sum of the stakes of all participants.
pub open spec fn staked(accounts: Seq<(Seq<char>, AccountView)>) -> int
    decreases accounts.len(),
{
    if accounts.len() == 0 {
        0
    } else {
        staked(accounts.drop_last()) + accounts.last().1.info.stake
    }
}

/// The total stake of the state is the sum of the stakes of the
/// participants.
pub open spec fn conserved(state: State, accounts: Seq<(Seq<char>, AccountView)>) -> bool {
    state.total_stake == staked(accounts)
}

proof fn lemma_staked_update(accounts: Seq<(Seq<char>, AccountView)>, i: int, entry: (
    Seq<char>,
    AccountView,
))
    requires
        0 <= i < accounts.len(),
    ensures
        staked(accounts.update(i, entry)) == staked(accounts) - accounts[i].1.info.stake
            + entry.1.info.stake,
    decreases accounts.len(),
{
    let changed = accounts.update(i, entry);
    if i == accounts.len() - 1 {
        assert(changed.drop_last() =~= accounts.drop_last());
    } else {
        assert(changed.drop_last() =~= accounts.drop_last().update(i, entry));
        lemma_staked_update(accounts.drop_last(), i, entry);
    }
}

proof fn lemma_staked_insert(accounts: Seq<(Seq<char>, AccountView)>, i: int, entry: (
    Seq<char>,
    AccountView,
))
    requires
        0 <= i <= accounts.len(),
    ensures
        staked(accounts.insert(i, entry)) == staked(accounts) + entry.1.info.stake,
    decreases accounts.len(),
{
    let changed = accounts.insert(i, entry);
    if i == accounts.len() {
        assert(changed.drop_last() =~= accounts);
    } else {
        assert(changed.drop_last() =~= accounts.drop_last().insert(i, entry));
        lemma_staked_insert(accounts.drop_last(), i, entry);
    }
}

/// Storing an account changes the sum of the stakes by the difference
/// between its stake and the stake that stood under the address before.
pub proof fn lemma_staked_put(accounts: Seq<(Seq<char>, AccountView)>, addr: Seq<char>, account: AccountView)
    ensures
        staked(put(accounts, addr, account)) == staked(accounts) - account_or_new(
            accounts,
            addr,
        ).info.stake + account.info.stake,
{
    if contains_key(accounts, addr) {
        lemma_staked_update(accounts, index_of(accounts, addr), (addr, account));
    } else {
        lemma_rank_bounds(accounts, addr);
        lemma_staked_insert(accounts, rank(accounts, addr), (addr, account));
    }
}

/// No checkpoint lies above the global index, and no participant has
/// withdrawn more than has accrued.
pub open spec fn checkpoints_sound(state: State, accounts: Seq<(Seq<char>, AccountView)>) -> bool {
    forall|i: int|
        0 <= i < accounts.len() ==> {
            &&& (#[trigger] accounts[i]).1.info.reward_index.atomics
                <= state.global_reward_index.atomics
            &&& accounts[i].1.info.withdrawn <= accounts[i].1.info.pending_reward
        }
}

/// Storing an account that is sound under an index that has not gone down
/// keeps all checkpoints sound.
pub proof fn lemma_checkpoints_after_put(
    before: State,
    after: State,
    accounts: Seq<(Seq<char>, AccountView)>,
    addr: Seq<char>,
    account: AccountView,
)
    requires
        checkpoints_sound(before, accounts),
        before.global_reward_index.atomics <= after.global_reward_index.atomics,
        account.info.reward_index.atomics <= after.global_reward_index.atomics,
        account.info.withdrawn <= account.info.pending_reward,
    ensures
        checkpoints_sound(after, put(accounts, addr, account)),
{
    let stored = put(accounts, addr, account);
    lemma_put_entries(accounts, addr, account);
    assert forall|j: int| 0 <= j < stored.len() implies {
        &&& (#[trigger] stored[j]).1.info.reward_index.atomics <= after.global_reward_index.atomics
        &&& stored[j].1.info.withdrawn <= stored[j].1.info.pending_reward
    } by {
        if stored[j] != (addr, account) {
            let i = choose|i: int| 0 <= i < accounts.len() && accounts[i] == stored[j];
            assert(accounts[i].1.info.withdrawn <= accounts[i].1.info.pending_reward);
        }
    }
}

/// The account kept for an address in a sound ledger is sound.
pub proof fn lemma_checkpoint_of(state: State, accounts: Seq<(Seq<char>, AccountView)>, addr: Seq<char>)
    requires
        checkpoints_sound(state, accounts),
    ensures
        account_or_new(accounts, addr).info.reward_index.atomics
            <= state.global_reward_index.atomics,
        account_or_new(accounts, addr).info.withdrawn <= account_or_new(
            accounts,
            addr,
        ).info.pending_reward,
{
    if contains_key(accounts, addr) {
        let i = index_of(accounts, addr);
        assert(accounts[i].1.info.withdrawn <= accounts[i].1.info.pending_reward);
    }
}

/// Storing the settled account of a participant, with the state settled at
/// the same time, keeps the total stake the sum of the stakes where the
/// total moves as the stake does, does not lower the index, and keeps the
/// checkpoints sound.
pub proof fn lemma_settled_put(
    schedule: Seq<Schedule>,
    state: State,
    after: State,
    accounts: Seq<(Seq<char>, AccountView)>,
    addr: Seq<char>,
    account: AccountView,
    now: u64,
)
    requires
        settles(schedule, state, account_or_new(accounts, addr).info, now),
        after.global_reward_index == index_at(schedule, state, now),
        account.info.reward_index == index_at(schedule, state, now),
        account.info.pending_reward == settled(
            schedule,
            state,
            account_or_new(accounts, addr).info,
            now,
        ).pending_reward,
        account.info.withdrawn == account_or_new(accounts, addr).info.withdrawn
            || account.info.withdrawn == account.info.pending_reward,
        after.total_stake + account_or_new(accounts, addr).info.stake == state.total_stake
            + account.info.stake,
    ensures
        conserved(state, accounts) ==> conserved(after, put(accounts, addr, account)),
        checkpoints_sound(state, accounts) ==> checkpoints_sound(
            after,
            put(accounts, addr, account),
        ),
        state.global_reward_index.atomics <= after.global_reward_index.atomics,
{
    let before = account_or_new(accounts, addr).info;
    lemma_index_monotonic(schedule, state, now);
    lemma_staked_put(accounts, addr, account);
    lemma_scale_bounds(
        before.stake as int,
        index_at(schedule, state, now).atomics - before.reward_index.atomics,
    );
    if checkpoints_sound(state, accounts) {
        lemma_checkpoint_of(state, accounts, addr);
        lemma_checkpoints_after_put(state, after, accounts, addr, account);
    }
}

/// Whether `error` says why `funds` do not pay for `operation`.
pub open spec fn fee_denied(
    error: ContractError,
    funds: Seq<Coin>,
    fees: Seq<FeeConfig>,
    operation: Seq<char>,
) -> bool {
    match error {
        ContractError::Payment(inner) => fee_refused(FeeError::Payment(inner), funds, fees, operation),
        ContractError::InvalidFeeAmount {} => fee_refused(
            FeeError::InvalidFeeAmount,
            funds,
            fees,
            operation,
        ),
        _ => false,
    }
}

/// The fee gate: accepts the call where `operation` is free or exactly its
/// fee is attached, as the only coin.
pub fn must_pay_fee(info: &MessageInfo, cfg: &Config, operation: String) -> (res: Result<
    (),
    ContractError,
>)
    ensures
        res is Ok <==> fee_paid(info.funds@, cfg.fee_config@, operation@),
        res matches Err(error) ==> fee_denied(error, info.funds@, cfg.fee_config@, operation@),
{
    match check_fee(info, &cfg.fee_config, &operation) {
        Ok(()) => Ok(()),
        Err(error) => Err(ContractError::from_fee(error)),
    }
}

/// The tokens that a deposit bonds: a positive amount moved by the staking
/// token.
pub open spec fn bond_tokens(cfg: Config, amount: Balance) -> Option<u128> {
    match amount {
        Balance::Cw20 { address, amount } => if address@ == cfg.staking_token@ && amount > 0 {
            Some(amount)
        } else {
            None
        },
        Balance::Native(_) => None,
    }
}

/// Bonding `tokens` at `now` stays within range.
pub open spec fn bond_fits(
    schedule: Seq<Schedule>,
    state: State,
    accounts: Seq<(Seq<char>, AccountView)>,
    sender: Seq<char>,
    tokens: u128,
    now: u64,
) -> bool {
    let member = account_or_new(accounts, sender).info;
    &&& settles(schedule, state, member, now)
    &&& member.stake + tokens <= u128::MAX
    &&& state.total_stake + tokens <= u128::MAX
    &&& !contains_key(accounts, sender) ==> state.num_of_members < u64::MAX
}

/// The state after `sender` has bonded `tokens` at `now`.
pub open spec fn bonded_state(
    schedule: Seq<Schedule>,
    state: State,
    accounts: Seq<(Seq<char>, AccountView)>,
    sender: Seq<char>,
    tokens: u128,
    now: u64,
) -> State {
    State {
        total_stake: (state.total_stake + tokens) as u128,
        last_updated: now,
        global_reward_index: index_at(schedule, state, now),
        num_of_members: if contains_key(accounts, sender) {
            state.num_of_members
        } else {
            (state.num_of_members + 1) as u64
        },
    }
}

/// The account of `sender` after bonding `tokens` at `now`.
pub open spec fn bonded_account(
    schedule: Seq<Schedule>,
    state: State,
    accounts: Seq<(Seq<char>, AccountView)>,
    sender: Seq<char>,
    tokens: u128,
    now: u64,
) -> AccountView {
    let account = account_or_new(accounts, sender);
    let member = settled(schedule, state, account.info, now);
    AccountView {
        info: MemberInfo {
            stake: (member.stake + tokens) as u128,
            pending_reward: member.pending_reward,
            reward_index: member.reward_index,
            withdrawn: member.withdrawn,
        },
        claims: account.claims,
    }
}

/// Whether `error` says why the deposit cannot be bonded.
pub open spec fn bond_refused(
    error: ContractError,
    cfg: Config,
    state: State,
    accounts: Seq<(Seq<char>, AccountView)>,
    amount: Balance,
    sender: Seq<char>,
    now: u64,
) -> bool {
    match amount {
        Balance::Native(_) => error is MissedToken,
        Balance::Cw20 { address, amount } => if address@ != cfg.staking_token@ {
            error matches ContractError::InvalidToken(named) && named@ == address@
        } else if amount == 0 {
            error is InvalidZeroAmount
        } else {
            !bond_fits(cfg.distribution_schedule@, state, accounts, sender, amount, now) && error
                == ContractError::Std(StdError::Overflow)
        },
    }
}

/// What bonding a deposit for `sender` at `now` does: on success the
/// participant is settled and the amount is added to the stake and to the
/// total stake; a refusal changes nothing.
pub open spec fn bond_outcome(
    before: Store,
    after: Store,
    res: Result<Response, ContractError>,
    now: u64,
    amount: Balance,
    sender: Seq<char>,
) -> bool {
    match res {
        Ok(response) => {
            &&& bond_tokens(before.config, amount) matches Some(tokens)
            &&& bond_fits(
                before.config.distribution_schedule@,
                before.state,
                before.accounts@,
                sender,
                tokens,
                now,
            )
            &&& after.config == before.config
            &&& after.state == bonded_state(
                before.config.distribution_schedule@,
                before.state,
                before.accounts@,
                sender,
                tokens,
                now,
            )
            &&& after.accounts@ == put(
                before.accounts@,
                sender,
                bonded_account(
                    before.config.distribution_schedule@,
                    before.state,
                    before.accounts@,
                    sender,
                    tokens,
                    now,
                ),
            )
            &&& response.messages@.len() == 0
        },
        Err(error) => after == before && bond_refused(
            error,
            before.config,
            before.state,
            before.accounts@,
            amount,
            sender,
            now,
        ),
    }
}

/// Bonds the tokens of a deposit for `sender`: settles the participant, then
/// adds the amount to the stake and to the total stake. A first deposit
/// creates the account. The deposit must be a positive amount of the
/// staking token.
pub fn execute_bond(store: &mut Store, env: &Env, amount: Balance, sender: String) -> (res: Result<
    Response,
    ContractError,
>)
    requires
        old(store).state.last_updated <= env.time,
    ensures
        old(store).state.last_updated <= final(store).state.last_updated,
        bond_outcome(*old(store), *final(store), res, env.time, amount, sender@),
        conserved(old(store).state, old(store).accounts@) ==> conserved(
            final(store).state,
            final(store).accounts@,
        ),
        checkpoints_sound(old(store).state, old(store).accounts@) ==> checkpoints_sound(
            final(store).state,
            final(store).accounts@,
        ),
        old(store).state.global_reward_index.atomics <= final(store).state.global_reward_index.atomics,
{
    let tokens = match &amount {
        Balance::Cw20 { address, amount } => {
            if *address == store.config.staking_token {
                *amount
            } else {
                return Err(ContractError::InvalidToken(address.clone()));
            }
        },
        Balance::Native(_) => {
            return Err(ContractError::MissedToken {});
        },
    };
    if tokens == 0 {
        return Err(ContractError::InvalidZeroAmount {});
    }
    let found = store.accounts.find(sender.as_str());
    let (mut member_info, claims) = match found {
        Some(i) => {
            let account = store.accounts.value_at(i);
            (account.info, copy_claims(&account.claims))
        },
        None => (MemberInfo::default(), Vec::new()),
    };
    if update_member_reward(&store.state, &store.config, env.time, &mut member_info).is_err() {
        return Err(ContractError::Std(StdError::Overflow));
    }
    let stake = match member_info.stake.checked_add(tokens) {
        Some(sum) => sum,
        None => {
            return Err(ContractError::Std(StdError::Overflow));
        },
    };
    let total_stake = match store.state.total_stake.checked_add(tokens) {
        Some(sum) => sum,
        None => {
            return Err(ContractError::Std(StdError::Overflow));
        },
    };
    let num_of_members = if found.is_none() {
        match store.state.num_of_members.checked_add(1) {
            Some(sum) => sum,
            None => {
                return Err(ContractError::Std(StdError::Overflow));
            },
        }
    } else {
        store.state.num_of_members
    };
    proof {
        lemma_settled_put(
            store.config.distribution_schedule@,
            store.state,
            bonded_state(
                store.config.distribution_schedule@,
                store.state,
                store.accounts@,
                sender@,
                tokens,
                env.time,
            ),
            store.accounts@,
            sender@,
            bonded_account(
                store.config.distribution_schedule@,
                store.state,
                store.accounts@,
                sender@,
                tokens,
                env.time,
            ),
            env.time,
        );
    }
    member_info.stake = stake;
    store.state = State {
        total_stake,
        last_updated: env.time,
        global_reward_index: member_info.reward_index,
        num_of_members,
    };
    store.accounts.put(sender, Account { info: member_info, claims });
    Ok(Response::new())
}


/// Unbonding `amount` at `now` stays within range.
pub open spec fn unbond_fits(cfg: Config, state: State, member: MemberInfo, amount: u128, now: u64) -> bool {
    &&& settles(cfg.distribution_schedule@, state, member, now)
    &&& amount <= state.total_stake
    &&& now + cfg.unbonding_period <= u64::MAX
}

/// The state after `amount` has been unbonded at `now`.
pub open spec fn unbonded_state(cfg: Config, state: State, amount: u128, now: u64) -> State {
    State {
        total_stake: (state.total_stake - amount) as u128,
        last_updated: now,
        global_reward_index: index_at(cfg.distribution_schedule@, state, now),
        num_of_members: state.num_of_members,
    }
}

/// The account after `amount` has been unbonded at `now`: the stake is
/// lowered, the reward stays, and a claim for the amount joins the queue.
pub open spec fn unbonded_account(
    cfg: Config,
    state: State,
    account: AccountView,
    amount: u128,
    now: u64,
) -> AccountView {
    let member = settled(cfg.distribution_schedule@, state, account.info, now);
    AccountView {
        info: MemberInfo {
            stake: (member.stake - amount) as u128,
            pending_reward: member.pending_reward,
            reward_index: member.reward_index,
            withdrawn: member.withdrawn,
        },
        claims: account.claims.push(
            Claim { amount, release_at: (now + cfg.unbonding_period) as u64 },
        ),
    }
}

/// Whether `error` says why `sender` cannot unbond `amount`.
pub open spec fn unbond_refused(
    error: ContractError,
    cfg: Config,
    state: State,
    accounts: Seq<(Seq<char>, AccountView)>,
    info: MessageInfo,
    amount: u128,
    now: u64,
) -> bool {
    if !fee_paid(info.funds@, cfg.fee_config@, "unbond"@) {
        fee_denied(error, info.funds@, cfg.fee_config@, "unbond"@)
    } else if !contains_key(accounts, info.sender@) {
        error is MemberNotFound
    } else if record(accounts, info.sender@).info.stake < amount {
        error is InsufficientStake
    } else {
        !unbond_fits(cfg, state, record(accounts, info.sender@).info, amount, now) && error
            == ContractError::Std(StdError::Overflow)
    }
}

/// What unbonding `amount` at `now` does: on success the participant is
/// settled, stake and total stake are lowered and a claim is queued; a
/// refusal changes nothing.
pub open spec fn unbond_outcome(
    before: Store,
    after: Store,
    res: Result<Response, ContractError>,
    now: u64,
    info: MessageInfo,
    amount: u128,
) -> bool {
    match res {
        Ok(response) => {
            &&& fee_paid(info.funds@, before.config.fee_config@, "unbond"@)
            &&& contains_key(before.accounts@, info.sender@)
            &&& amount <= record(before.accounts@, info.sender@).info.stake
            &&& unbond_fits(
                before.config,
                before.state,
                record(before.accounts@, info.sender@).info,
                amount,
                now,
            )
            &&& after.config == before.config
            &&& after.state == unbonded_state(
                before.config,
                before.state,
                amount,
                now,
            )
            &&& after.accounts@ == put(
                before.accounts@,
                info.sender@,
                unbonded_account(
                    before.config,
                    before.state,
                    record(before.accounts@, info.sender@),
                    amount,
                    now,
                ),
            )
            &&& response.messages@.len() == 0
        },
        Err(error) => after == before && unbond_refused(
            error,
            before.config,
            before.state,
            before.accounts@,
            info,
            amount,
            now,
        ),
    }
}

/// Starts unbonding `amount` of the sender's stake: settles the participant,
/// lowers the stake and the total stake, and queues a claim that matures
/// after the unbonding period.
pub fn execute_unbond(store: &mut Store, env: &Env, info: &MessageInfo, amount: u128) -> (res: Result<
    Response,
    ContractError,
>)
    requires
        old(store).state.last_updated <= env.time,
    ensures
        old(store).state.last_updated <= final(store).state.last_updated,
        unbond_outcome(*old(store), *final(store), res, env.time, *info, amount),
        conserved(old(store).state, old(store).accounts@) ==> conserved(
            final(store).state,
            final(store).accounts@,
        ),
        checkpoints_sound(old(store).state, old(store).accounts@) ==> checkpoints_sound(
            final(store).state,
            final(store).accounts@,
        ),
        old(store).state.global_reward_index.atomics <= final(store).state.global_reward_index.atomics,
{
    match must_pay_fee(info, &store.config, String::from_str("unbond")) {
        Ok(()) => {},
        Err(error) => {
            return Err(error);
        },
    }
    let i = match store.accounts.find(info.sender.as_str()) {
        Some(i) => i,
        None => {
            return Err(ContractError::MemberNotFound {});
        },
    };
    let account = store.accounts.value_at(i);
    let mut member_info = account.info;
    if member_info.stake < amount {
        return Err(ContractError::InsufficientStake {});
    }
    if update_member_reward(&store.state, &store.config, env.time, &mut member_info).is_err() {
        return Err(ContractError::Std(StdError::Overflow));
    }
    let total_stake = match store.state.total_stake.checked_sub(amount) {
        Some(rest) => rest,
        None => {
            return Err(ContractError::Std(StdError::Overflow));
        },
    };
    let release_at = match env.time.checked_add(store.config.unbonding_period) {
        Some(time) => time,
        None => {
            return Err(ContractError::Std(StdError::Overflow));
        },
    };
    let claims = create_claim(&account.claims, amount, release_at);
    proof {
        lemma_settled_put(
            store.config.distribution_schedule@,
            store.state,
            unbonded_state(store.config, store.state, amount, env.time),
            store.accounts@,
            info.sender@,
            unbonded_account(
                store.config,
                store.state,
                record(store.accounts@, info.sender@),
                amount,
                env.time,
            ),
            env.time,
        );
    }
    member_info.stake = member_info.stake - amount;
    store.state = State {
        total_stake,
        last_updated: env.time,
        global_reward_index: member_info.reward_index,
        num_of_members: store.state.num_of_members,
    };
    store.accounts.put(info.sender.clone(), Account { info: member_info, claims });
    Ok(Response::new())
}

/// Whether `error` says why nothing is released to the sender on the
/// delayed path.
pub open spec fn claim_refused(
    error: ContractError,
    cfg: Config,
    state: State,
    accounts: Seq<(Seq<char>, AccountView)>,
    info: MessageInfo,
    now: u64,
) -> bool {
    let account = record(accounts, info.sender@);
    if !fee_paid(info.funds@, cfg.fee_config@, "claim"@) {
        fee_denied(error, info.funds@, cfg.fee_config@, "claim"@)
    } else if !contains_key(accounts, info.sender@) {
        error is NothingToClaim
    } else if !settles(cfg.distribution_schedule@, state, account.info, now) || matured_total(
        account.claims,
        now,
    ) > u128::MAX {
        error == ContractError::Std(StdError::Overflow)
    } else {
        matured_total(account.claims, now) == 0 && error is NothingToClaim
    }
}

/// The account after a claim at `now`: settled, and without the claims
/// that have matured.
pub open spec fn claimed_account(cfg: Config, state: State, account: AccountView, now: u64) -> AccountView {
    AccountView {
        info: settled(cfg.distribution_schedule@, state, account.info, now),
        claims: waiting(account.claims, now),
    }
}

/// What a claim at `now` does: on success the participant is settled, the
/// matured claims leave the queue and their sum is transferred to the
/// sender; a refusal changes nothing.
pub open spec fn claim_outcome(
    before: Store,
    after: Store,
    res: Result<Response, ContractError>,
    now: u64,
    info: MessageInfo,
) -> bool {
    match res {
        Ok(response) => {
            let account = record(before.accounts@, info.sender@);
            &&& fee_paid(info.funds@, before.config.fee_config@, "claim"@)
            &&& contains_key(before.accounts@, info.sender@)
            &&& settles(before.config.distribution_schedule@, before.state, account.info, now)
            &&& 0 < matured_total(account.claims, now) <= u128::MAX
            &&& after.config == before.config
            &&& after.state == settled_state(before.config, before.state, now)
            &&& after.accounts@ == put(
                before.accounts@,
                info.sender@,
                claimed_account(before.config, before.state, account, now),
            )
            &&& response.messages@.len() == 1
            &&& is_transfer(
                response.messages@[0],
                before.config.staking_token@,
                info.sender@,
                matured_total(account.claims, now),
            )
        },
        Err(error) => after == before && claim_refused(
            error,
            before.config,
            before.state,
            before.accounts@,
            info,
            now,
        ),
    }
}

/// The delayed path: settles the sender, releases the principal of every
/// claim that has matured, and removes those claims.
pub fn execute_claim(store: &mut Store, env: &Env, info: &MessageInfo) -> (res: Result<
    Response,
    ContractError,
>)
    requires
        old(store).state.last_updated <= env.time,
    ensures
        old(store).state.last_updated <= final(store).state.last_updated,
        claim_outcome(*old(store), *final(store), res, env.time, *info),
        conserved(old(store).state, old(store).accounts@) ==> conserved(
            final(store).state,
            final(store).accounts@,
        ),
        checkpoints_sound(old(store).state, old(store).accounts@) ==> checkpoints_sound(
            final(store).state,
            final(store).accounts@,
        ),
        old(store).state.global_reward_index.atomics <= final(store).state.global_reward_index.atomics,
{
    match must_pay_fee(info, &store.config, String::from_str("claim")) {
        Ok(()) => {},
        Err(error) => {
            return Err(error);
        },
    }
    let i = match store.accounts.find(info.sender.as_str()) {
        Some(i) => i,
        None => {
            return Err(ContractError::NothingToClaim {});
        },
    };
    let account = store.accounts.value_at(i);
    let mut member_info = account.info;
    if update_member_reward(&store.state, &store.config, env.time, &mut member_info).is_err() {
        return Err(ContractError::Std(StdError::Overflow));
    }
    let (release, kept) = match claim_tokens(&account.claims, env.time) {
        Some(outcome) => outcome,
        None => {
            return Err(ContractError::Std(StdError::Overflow));
        },
    };
    proof {
        lemma_prefix_totals(account.claims@, env.time, 0);
    }
    if release == 0 {
        return Err(ContractError::NothingToClaim {});
    }
    let response = Response::transfer(&store.config.staking_token, &info.sender, release);
    proof {
        lemma_settled_put(
            store.config.distribution_schedule@,
            store.state,
            settled_state(store.config, store.state, env.time),
            store.accounts@,
            info.sender@,
            claimed_account(
                store.config,
                store.state,
                record(store.accounts@, info.sender@),
                env.time,
            ),
            env.time,
        );
    }
    store.state = State {
        total_stake: store.state.total_stake,
        last_updated: env.time,
        global_reward_index: member_info.reward_index,
        num_of_members: store.state.num_of_members,
    };
    store.accounts.put(info.sender.clone(), Account { info: member_info, claims: kept });
    Ok(response)
}

/// The part of `release` that an instant claim gives up: the configured
/// percentage, rounded down.
pub open spec fn instant_fee(cfg: Config, release: int) -> int {
    release * cfg.instant_claim_percentage_loss / 100
}

/// An instant claim of `release` stays within range.
pub open spec fn instant_fits(cfg: Config, release: int) -> bool {
    &&& release <= u128::MAX
    &&& release * cfg.instant_claim_percentage_loss <= u128::MAX
    &&& instant_fee(cfg, release) <= release
}

/// Whether `error` says why nothing is released to the sender on the
/// instant path.
pub open spec fn instant_claim_refused(
    error: ContractError,
    cfg: Config,
    state: State,
    accounts: Seq<(Seq<char>, AccountView)>,
    info: MessageInfo,
    now: u64,
) -> bool {
    let account = record(accounts, info.sender@);
    if !fee_paid(info.funds@, cfg.fee_config@, "instant_claim"@) {
        fee_denied(error, info.funds@, cfg.fee_config@, "instant_claim"@)
    } else if !contains_key(accounts, info.sender@) {
        error is NothingToClaim
    } else if !settles(cfg.distribution_schedule@, state, account.info, now) || total(
        account.claims,
    ) > u128::MAX {
        error == ContractError::Std(StdError::Overflow)
    } else if total(account.claims) == 0 {
        error is NothingToClaim
    } else {
        !instant_fits(cfg, total(account.claims)) && error == ContractError::Std(
            StdError::Overflow,
        )
    }
}

/// The account after an instant claim at `now`: settled, and without any
/// claim.
pub open spec fn drained_account(cfg: Config, state: State, account: AccountView, now: u64) -> AccountView {
    AccountView {
        info: settled(cfg.distribution_schedule@, state, account.info, now),
        claims: Seq::empty(),
    }
}

/// What an instant claim at `now` does: on success the participant is
/// settled, every claim leaves the queue, the sum less the penalty is
/// transferred to the sender and the penalty to the burn address; a refusal
/// changes nothing.
pub open spec fn instant_claim_outcome(
    before: Store,
    after: Store,
    res: Result<Response, ContractError>,
    now: u64,
    info: MessageInfo,
) -> bool {
    match res {
        Ok(response) => {
            let account = record(before.accounts@, info.sender@);
            let release = total(account.claims);
            let fee = instant_fee(before.config, release);
            &&& fee_paid(info.funds@, before.config.fee_config@, "instant_claim"@)
            &&& contains_key(before.accounts@, info.sender@)
            &&& settles(before.config.distribution_schedule@, before.state, account.info, now)
            &&& 0 < release
            &&& instant_fits(before.config, release)
            &&& after.config == before.config
            &&& after.state == settled_state(before.config, before.state, now)
            &&& after.accounts@ == put(
                before.accounts@,
                info.sender@,
                drained_account(before.config, before.state, account, now),
            )
            &&& response.messages@.len() == 2
            &&& is_transfer(
                response.messages@[0],
                before.config.staking_token@,
                info.sender@,
                release - fee,
            )
            &&& is_transfer(
                response.messages@[1],
                before.config.staking_token@,
                before.config.burn_address@,
                fee,
            )
        },
        Err(error) => after == before && instant_claim_refused(
            error,
            before.config,
            before.state,
            before.accounts@,
            info,
            now,
        ),
    }
}

/// The instant path: settles the sender and releases the principal of
/// every outstanding claim, matured or not, less the configured percentage,
/// which goes to the burn address. No claim is left.
pub fn execute_instant_claim(store: &mut Store, env: &Env, info: &MessageInfo) -> (res: Result<
    Response,
    ContractError,
>)
    requires
        old(store).state.last_updated <= env.time,
    ensures
        old(store).state.last_updated <= final(store).state.last_updated,
        instant_claim_outcome(*old(store), *final(store), res, env.time, *info),
        conserved(old(store).state, old(store).accounts@) ==> conserved(
            final(store).state,
            final(store).accounts@,
        ),
        checkpoints_sound(old(store).state, old(store).accounts@) ==> checkpoints_sound(
            final(store).state,
            final(store).accounts@,
        ),
        old(store).state.global_reward_index.atomics <= final(store).state.global_reward_index.atomics,
{
    match must_pay_fee(info, &store.config, String::from_str("instant_claim")) {
        Ok(()) => {},
        Err(error) => {
            return Err(error);
        },
    }
    let i = match store.accounts.find(info.sender.as_str()) {
        Some(i) => i,
        None => {
            return Err(ContractError::NothingToClaim {});
        },
    };
    let account = store.accounts.value_at(i);
    let mut member_info = account.info;
    if update_member_reward(&store.state, &store.config, env.time, &mut member_info).is_err() {
        return Err(ContractError::Std(StdError::Overflow));
    }
    let release = match claim_all(&account.claims) {
        Some(sum) => sum,
        None => {
            return Err(ContractError::Std(StdError::Overflow));
        },
    };
    proof {
        lemma_prefix_totals(account.claims@, 0, 0);
    }
    if release == 0 {
        return Err(ContractError::NothingToClaim {});
    }
    let fee = match release.checked_mul(store.config.instant_claim_percentage_loss as u128) {
        Some(product) => product / 100,
        None => {
            return Err(ContractError::Std(StdError::Overflow));
        },
    };
    let net = match release.checked_sub(fee) {
        Some(rest) => rest,
        None => {
            return Err(ContractError::Std(StdError::Overflow));
        },
    };
    let mut messages = Vec::new();
    messages.push(
        Msg::Transfer {
            token: store.config.staking_token.clone(),
            recipient: info.sender.clone(),
            amount: net,
        },
    );
    messages.push(
        Msg::Transfer {
            token: store.config.staking_token.clone(),
            recipient: store.config.burn_address.clone(),
            amount: fee,
        },
    );
    proof {
        lemma_settled_put(
            store.config.distribution_schedule@,
            store.state,
            settled_state(store.config, store.state, env.time),
            store.accounts@,
            info.sender@,
            drained_account(
                store.config,
                store.state,
                record(store.accounts@, info.sender@),
                env.time,
            ),
            env.time,
        );
    }
    store.state = State {
        total_stake: store.state.total_stake,
        last_updated: env.time,
        global_reward_index: member_info.reward_index,
        num_of_members: store.state.num_of_members,
    };
    store.accounts.put(info.sender.clone(), Account { info: member_info, claims: Vec::new() });
    Ok(Response { messages })
}

/// The reward that `member` can withdraw once settled at `now`.
pub open spec fn withdrawable(cfg: Config, state: State, member: MemberInfo, now: u64) -> int {
    settled(cfg.distribution_schedule@, state, member, now).pending_reward - member.withdrawn
}

/// The state after a settlement at `now`.
pub open spec fn settled_state(cfg: Config, state: State, now: u64) -> State {
    State {
        total_stake: state.total_stake,
        last_updated: now,
        global_reward_index: index_at(cfg.distribution_schedule@, state, now),
        num_of_members: state.num_of_members,
    }
}

/// The account after its whole reward has been withdrawn at `now`.
pub open spec fn withdrawn_account(cfg: Config, state: State, account: AccountView, now: u64) -> AccountView {
    let member = settled(cfg.distribution_schedule@, state, account.info, now);
    AccountView {
        info: MemberInfo {
            stake: member.stake,
            pending_reward: member.pending_reward,
            reward_index: member.reward_index,
            withdrawn: member.pending_reward,
        },
        claims: account.claims,
    }
}

/// Whether `error` says why no reward is paid to the sender.
pub open spec fn withdraw_refused(
    error: ContractError,
    cfg: Config,
    state: State,
    accounts: Seq<(Seq<char>, AccountView)>,
    info: MessageInfo,
    now: u64,
) -> bool {
    let member = record(accounts, info.sender@).info;
    if !fee_paid(info.funds@, cfg.fee_config@, "withdraw"@) {
        fee_denied(error, info.funds@, cfg.fee_config@, "withdraw"@)
    } else if !contains_key(accounts, info.sender@) {
        error is MemberNotFound
    } else if !settles(cfg.distribution_schedule@, state, member, now) || withdrawable(
        cfg,
        state,
        member,
        now,
    ) < 0 {
        error == ContractError::Std(StdError::Overflow)
    } else {
        withdrawable(cfg, state, member, now) == 0 && error is NothingToWithdraw
    }
}

/// What a withdrawal at `now` does: on success the participant is settled and
/// the reward beyond earlier withdrawals is transferred to the sender; a
/// refusal changes nothing.
pub open spec fn withdraw_outcome(
    before: Store,
    after: Store,
    res: Result<Response, ContractError>,
    now: u64,
    info: MessageInfo,
) -> bool {
    match res {
        Ok(response) => {
            let account = record(before.accounts@, info.sender@);
            &&& fee_paid(info.funds@, before.config.fee_config@, "withdraw"@)
            &&& contains_key(before.accounts@, info.sender@)
            &&& settles(
                before.config.distribution_schedule@,
                before.state,
                account.info,
                now,
            )
            &&& 0 < withdrawable(before.config, before.state, account.info, now)
            &&& after.config == before.config
            &&& after.state == settled_state(
                before.config,
                before.state,
                now,
            )
            &&& after.accounts@ == put(
                before.accounts@,
                info.sender@,
                withdrawn_account(before.config, before.state, account, now),
            )
            &&& response.messages@.len() == 1
            &&& is_transfer(
                response.messages@[0],
                before.config.terraland_token@,
                info.sender@,
                withdrawable(before.config, before.state, account.info, now),
            )
        },
        Err(error) => after == before && withdraw_refused(
            error,
            before.config,
            before.state,
            before.accounts@,
            info,
            now,
        ),
    }
}

/// Pays out the reward of the sender: settles the participant and releases
/// what has accrued beyond earlier withdrawals, in the reward token.
pub fn execute_withdraw(store: &mut Store, env: &Env, info: &MessageInfo) -> (res: Result<
    Response,
    ContractError,
>)
    requires
        old(store).state.last_updated <= env.time,
    ensures
        old(store).state.last_updated <= final(store).state.last_updated,
        withdraw_outcome(*old(store), *final(store), res, env.time, *info),
        conserved(old(store).state, old(store).accounts@) ==> conserved(
            final(store).state,
            final(store).accounts@,
        ),
        checkpoints_sound(old(store).state, old(store).accounts@) ==> checkpoints_sound(
            final(store).state,
            final(store).accounts@,
        ),
        old(store).state.global_reward_index.atomics <= final(store).state.global_reward_index.atomics,
{
    match must_pay_fee(info, &store.config, String::from_str("withdraw")) {
        Ok(()) => {},
        Err(error) => {
            return Err(error);
        },
    }
    let i = match store.accounts.find(info.sender.as_str()) {
        Some(i) => i,
        None => {
            return Err(ContractError::MemberNotFound {});
        },
    };
    let account = store.accounts.value_at(i);
    let mut member_info = account.info;
    if update_member_reward(&store.state, &store.config, env.time, &mut member_info).is_err() {
        return Err(ContractError::Std(StdError::Overflow));
    }
    let amount = match member_info.pending_reward.checked_sub(member_info.withdrawn) {
        Some(rest) => rest,
        None => {
            return Err(ContractError::Std(StdError::Overflow));
        },
    };
    if amount == 0 {
        return Err(ContractError::NothingToWithdraw {});
    }
    let claims = copy_claims(&account.claims);
    let response = Response::transfer(&store.config.terraland_token, &info.sender, amount);
    proof {
        lemma_settled_put(
            store.config.distribution_schedule@,
            store.state,
            settled_state(store.config, store.state, env.time),
            store.accounts@,
            info.sender@,
            withdrawn_account(
                store.config,
                store.state,
                record(store.accounts@, info.sender@),
                env.time,
            ),
            env.time,
        );
    }
    member_info.withdrawn = member_info.pending_reward;
    store.state = State {
        total_stake: store.state.total_stake,
        last_updated: env.time,
        global_reward_index: member_info.reward_index,
        num_of_members: store.state.num_of_members,
    };
    store.accounts.put(info.sender.clone(), Account { info: member_info, claims });
    Ok(response)
}


/// Sets the scheme up: the configuration of the message, no stake, no
/// settlement yet, no member.
pub fn instantiate(msg: InstantiateMsg) -> (res: (Store, Response))
    ensures
        res.0.config == (Config {
            owner: msg.owner,
            staking_token: msg.staking_token,
            terraland_token: msg.terraland_token,
            unbonding_period: msg.unbonding_period,
            burn_address: msg.burn_address,
            instant_claim_percentage_loss: msg.instant_claim_percentage_loss,
            distribution_schedule: msg.distribution_schedule,
            fee_config: msg.fee_config,
        }),
        res.0.state == (State {
            total_stake: 0,
            last_updated: 0,
            global_reward_index: Decimal { atomics: 0 },
            num_of_members: 0,
        }),
        res.0.accounts@.len() == 0,
        conserved(res.0.state, res.0.accounts@),
        res.1.messages@.len() == 0,
{
    let config = Config {
        owner: msg.owner,
        staking_token: msg.staking_token,
        terraland_token: msg.terraland_token,
        unbonding_period: msg.unbonding_period,
        burn_address: msg.burn_address,
        instant_claim_percentage_loss: msg.instant_claim_percentage_loss,
        distribution_schedule: msg.distribution_schedule,
        fee_config: msg.fee_config,
    };
    let state = State {
        total_stake: 0,
        last_updated: 0,
        global_reward_index: Decimal::zero(),
        num_of_members: 0,
    };
    (Store { config, state, accounts: AddrMap::new() }, Response::new())
}

/// Accepts a migration from a store that the same scheme has written:
/// `previous_contract` is the name recorded there.
pub fn migrate(previous_contract: String, _msg: MigrateMsg) -> (res: Result<Response, ContractError>)
    ensures
        match res {
            Ok(response) => previous_contract@ == CONTRACT_NAME@ && response.messages@.len() == 0,
            Err(error) => previous_contract@ != CONTRACT_NAME@ && error
                == (ContractError::CannotMigrate { previous_contract }),
        },
{
    if previous_contract != String::from_str(CONTRACT_NAME) {
        return Err(ContractError::CannotMigrate { previous_contract });
    }
    Ok(Response::new())
}

/// Whether the caller is the owner.
pub fn check_owner(cfg: &Config, info: &MessageInfo) -> (res: Result<(), ContractError>)
    ensures
        match res {
            Ok(_) => info.sender@ == cfg.owner@,
            Err(error) => info.sender@ != cfg.owner@ && error is Unauthorized,
        },
{
    if info.sender != cfg.owner {
        return Err(ContractError::Unauthorized {});
    }
    Ok(())
}

/// The configuration with the parts that `new_config` names replaced.
pub open spec fn updated_config(cfg: Config, new_config: NewConfig) -> Config {
    Config {
        owner: match new_config.owner {
            Some(owner) => owner,
            None => cfg.owner,
        },
        staking_token: match new_config.staking_token {
            Some(token) => token,
            None => cfg.staking_token,
        },
        terraland_token: cfg.terraland_token,
        unbonding_period: match new_config.unbonding_period {
            Some(period) => period,
            None => cfg.unbonding_period,
        },
        burn_address: match new_config.burn_address {
            Some(address) => address,
            None => cfg.burn_address,
        },
        instant_claim_percentage_loss: match new_config.instant_claim_percentage_loss {
            Some(percentage) => percentage,
            None => cfg.instant_claim_percentage_loss,
        },
        distribution_schedule: match new_config.distribution_schedule {
            Some(schedule) => schedule,
            None => cfg.distribution_schedule,
        },
        fee_config: match new_config.fee_config {
            Some(fees) => fees,
            None => cfg.fee_config,
        },
    }
}

/// What an update of the configuration does: for the owner it replaces the
/// named parts and nothing else; anyone else is turned away.
pub open spec fn update_config_outcome(
    before: Store,
    after: Store,
    res: Result<Response, ContractError>,
    info: MessageInfo,
    new_config: NewConfig,
) -> bool {
    match res {
        Ok(response) => {
            &&& info.sender@ == before.config.owner@
            &&& after.config == updated_config(before.config, new_config)
            &&& after.state == before.state
            &&& after.accounts == before.accounts
            &&& response.messages@.len() == 0
        },
        Err(error) => after == before && info.sender@ != before.config.owner@ && error
            is Unauthorized,
    }
}

/// Replaces parts of the configuration, for the owner only.
pub fn execute_update_config(store: &mut Store, info: &MessageInfo, new_config: NewConfig) -> (res:
    Result<Response, ContractError>)
    ensures
        update_config_outcome(*old(store), *final(store), res, *info, new_config),
{
    match check_owner(&store.config, info) {
        Ok(()) => {},
        Err(error) => {
            return Err(error);
        },
    }
    if let Some(owner) = new_config.owner {
        store.config.owner = owner;
    }
    if let Some(token) = new_config.staking_token {
        store.config.staking_token = token;
    }
    if let Some(address) = new_config.burn_address {
        store.config.burn_address = address;
    }
    if let Some(period) = new_config.unbonding_period {
        store.config.unbonding_period = period;
    }
    if let Some(percentage) = new_config.instant_claim_percentage_loss {
        store.config.instant_claim_percentage_loss = percentage;
    }
    if let Some(schedule) = new_config.distribution_schedule {
        store.config.distribution_schedule = schedule;
    }
    if let Some(fees) = new_config.fee_config {
        store.config.fee_config = fees;
    }
    Ok(Response::new())
}

/// The deposit that a message from a token contract stands for: the tokens
/// come from the contract that sent the message.
pub open spec fn received_balance(info: MessageInfo, wrapper: Cw20ReceiveMsg) -> Balance {
    Balance::Cw20 { address: info.sender, amount: wrapper.amount }
}

/// Takes tokens sent through a token contract and bonds them for the
/// participant who sent them.
pub fn execute_receive(store: &mut Store, env: &Env, info: MessageInfo, wrapper: Cw20ReceiveMsg) -> (res:
    Result<Response, ContractError>)
    requires
        old(store).state.last_updated <= env.time,
    ensures
        old(store).state.last_updated <= final(store).state.last_updated,
        bond_outcome(
            *old(store),
            *final(store),
            res,
            env.time,
            received_balance(info, wrapper),
            wrapper.sender@,
        ),
        conserved(old(store).state, old(store).accounts@) ==> conserved(
            final(store).state,
            final(store).accounts@,
        ),
        checkpoints_sound(old(store).state, old(store).accounts@) ==> checkpoints_sound(
            final(store).state,
            final(store).accounts@,
        ),
        old(store).state.global_reward_index.atomics <= final(store).state.global_reward_index.atomics,
{
    let balance = Balance::Cw20 { address: info.sender, amount: wrapper.amount };
    match wrapper.msg {
        ReceiveMsg::Bond {} => execute_bond(store, env, balance, wrapper.sender),
    }
}

/// What a withdrawal of native coins by the owner does: it changes nothing
/// and asks for `amount` of "uusd" to be paid to `recipient`.
pub open spec fn ust_withdraw_outcome(
    cfg: Config,
    res: Result<Response, ContractError>,
    info: MessageInfo,
    recipient: Seq<char>,
    amount: u128,
) -> bool {
    match res {
        Ok(response) => {
            &&& info.sender@ == cfg.owner@
            &&& response.messages@.len() == 1
            &&& is_send(response.messages@[0], recipient, "uusd"@, amount as int)
        },
        Err(error) => info.sender@ != cfg.owner@ && error is Unauthorized,
    }
}

/// Pays native coins held by the contract to `recipient`, for the owner
/// only.
pub fn execute_ust_withdraw(store: &Store, info: &MessageInfo, recipient: String, amount: u128) -> (res:
    Result<Response, ContractError>)
    ensures
        ust_withdraw_outcome(store.config, res, *info, recipient@, amount),
{
    match check_owner(&store.config, info) {
        Ok(()) => {},
        Err(error) => {
            return Err(error);
        },
    }
    let mut messages = Vec::new();
    messages.push(Msg::Send { to_address: recipient, denom: String::from_str("uusd"), amount });
    Ok(Response { messages })
}

/// What a withdrawal of a token by the owner does: it changes nothing and
/// asks for the whole `balance` of the token to be moved to `recipient`.
pub open spec fn token_withdraw_outcome(
    cfg: Config,
    res: Result<Response, ContractError>,
    info: MessageInfo,
    token: Seq<char>,
    recipient: Seq<char>,
    balance: u128,
) -> bool {
    match res {
        Ok(response) => {
            &&& info.sender@ == cfg.owner@
            &&& response.messages@.len() == 1
            &&& is_transfer(response.messages@[0], token, recipient, balance as int)
        },
        Err(error) => info.sender@ != cfg.owner@ && error is Unauthorized,
    }
}

/// Moves all of a token held by the contract to `recipient`, for the owner
/// only. `balance` is what the token contract reports as held.
pub fn execute_token_withdraw(
    store: &Store,
    info: &MessageInfo,
    token: String,
    recipient: String,
    balance: u128,
) -> (res: Result<Response, ContractError>)
    ensures
        token_withdraw_outcome(store.config, res, *info, token@, recipient@, balance),
{
    match check_owner(&store.config, info) {
        Ok(()) => {},
        Err(error) => {
            return Err(error);
        },
    }
    Ok(Response::transfer(&token, &recipient, balance))
}

/// Whether the message settles its sender, and so needs a time that is not
/// before the last settlement.
pub open spec fn settles_sender(msg: ExecuteMsg) -> bool {
    msg is Receive || msg is Unbond || msg is Claim || msg is InstantClaim || msg is Withdraw
}

/// What a message does to the store and what it asks of the chain.
pub open spec fn execute_outcome(
    before: Store,
    after: Store,
    res: Result<Response, ContractError>,
    now: u64,
    info: MessageInfo,
    msg: ExecuteMsg,
) -> bool {
    match msg {
        ExecuteMsg::UpdateConfig(new_config) => update_config_outcome(
            before,
            after,
            res,
            info,
            new_config,
        ),
        ExecuteMsg::Receive(wrapper) => bond_outcome(
            before,
            after,
            res,
            now,
            received_balance(info, wrapper),
            wrapper.sender@,
        ),
        ExecuteMsg::Unbond { tokens } => unbond_outcome(before, after, res, now, info, tokens),
        ExecuteMsg::Claim {} => claim_outcome(before, after, res, now, info),
        ExecuteMsg::InstantClaim {} => instant_claim_outcome(before, after, res, now, info),
        ExecuteMsg::Withdraw {} => withdraw_outcome(before, after, res, now, info),
        ExecuteMsg::UstWithdraw { recipient, amount } => after == before && ust_withdraw_outcome(
            before.config,
            res,
            info,
            recipient@,
            amount,
        ),
        ExecuteMsg::TokenWithdraw { token, recipient, balance } => after == before
            && token_withdraw_outcome(before.config, res, info, token@, recipient@, balance),
    }
}

/// Carries out one message. Whatever the message, the total stake stays the
/// sum of the stakes and the reward index does not go down.
pub fn execute(store: &mut Store, env: &Env, info: MessageInfo, msg: ExecuteMsg) -> (res: Result<
    Response,
    ContractError,
>)
    requires
        settles_sender(msg) ==> old(store).state.last_updated <= env.time,
    ensures
        old(store).state.last_updated <= final(store).state.last_updated,
        execute_outcome(*old(store), *final(store), res, env.time, info, msg),
        conserved(old(store).state, old(store).accounts@) ==> conserved(
            final(store).state,
            final(store).accounts@,
        ),
        checkpoints_sound(old(store).state, old(store).accounts@) ==> checkpoints_sound(
            final(store).state,
            final(store).accounts@,
        ),
        old(store).state.global_reward_index.atomics <= final(store).state.global_reward_index.atomics,
{
    match msg {
        ExecuteMsg::UpdateConfig(new_config) => execute_update_config(store, &info, new_config),
        ExecuteMsg::Receive(wrapper) => execute_receive(store, env, info, wrapper),
        ExecuteMsg::Unbond { tokens } => execute_unbond(store, env, &info, tokens),
        ExecuteMsg::Claim {} => execute_claim(store, env, &info),
        ExecuteMsg::InstantClaim {} => execute_instant_claim(store, env, &info),
        ExecuteMsg::Withdraw {} => execute_withdraw(store, env, &info),
        ExecuteMsg::UstWithdraw { recipient, amount } => execute_ust_withdraw(
            store,
            &info,
            recipient,
            amount,
        ),
        ExecuteMsg::TokenWithdraw { token, recipient, balance } => execute_token_withdraw(
            store,
            &info,
            token,
            recipient,
            balance,
        ),
    }
}

/// The configuration.
pub fn query_config(store: &Store) -> (res: &Config)
    ensures
        *res == store.config,
{
    &store.config
}

/// The accrual state as stored, not brought up to the time of the query.
pub fn query_state(store: &Store) -> (res: State)
    ensures
        res == store.state,
{
    store.state
}

/// `item` shows `account` as of `now`: the reward and the index are brought
/// up to that time, the rest is as stored.
pub open spec fn shows(
    item: MemberResponseItem,
    cfg: Config,
    state: State,
    account: AccountView,
    now: u64,
) -> bool {
    let member = settled(cfg.distribution_schedule@, state, account.info, now);
    &&& item.stake == member.stake
    &&& item.reward == member.pending_reward
    &&& item.reward_index == member.reward_index
    &&& item.withdrawn == member.withdrawn
    &&& item.claims@ == account.claims
}

/// What a query for the participant at `addr` answers at `now`: nothing for
/// an unknown address, and else the account as of `now`.
pub open spec fn member_answer(
    store: Store,
    res: Result<MemberResponse, StdError>,
    addr: Seq<char>,
    now: u64,
) -> bool {
    if !contains_key(store.accounts@, addr) {
        res matches Ok(response) && response.member is None
    } else if settles(
        store.config.distribution_schedule@,
        store.state,
        record(store.accounts@, addr).info,
        now,
    ) {
        res matches Ok(response) && response.member matches Some(item) && shows(
            item,
            store.config,
            store.state,
            record(store.accounts@, addr),
            now,
        )
    } else {
        res matches Err(error) && error == StdError::Overflow
    }
}

/// The account as of `now`, for an answer.
fn member_item(store: &Store, account: &Account, now: u64) -> (res: Result<MemberResponseItem, StdError>)
    ensures
        match res {
            Ok(item) => settles(
                store.config.distribution_schedule@,
                store.state,
                account.info,
                now,
            ) && shows(item, store.config, store.state, account@, now),
            Err(error) => !settles(
                store.config.distribution_schedule@,
                store.state,
                account.info,
                now,
            ) && error == StdError::Overflow,
        },
{
    let mut info = account.info;
    match update_member_reward(&store.state, &store.config, now, &mut info) {
        Ok(()) => {},
        Err(error) => {
            return Err(error);
        },
    }
    Ok(
        MemberResponseItem {
            stake: info.stake,
            reward: info.pending_reward,
            reward_index: info.reward_index,
            withdrawn: info.withdrawn,
            claims: copy_claims(&account.claims),
        },
    )
}

/// The participant at `addr` as of the time of the query. The store is not
/// changed.
pub fn query_member(store: &Store, env: &Env, addr: String) -> (res: Result<MemberResponse, StdError>)
    ensures
        member_answer(*store, res, addr@, env.time),
{
    match store.accounts.find(addr.as_str()) {
        Some(i) => {
            let item = match member_item(store, store.accounts.value_at(i), env.time) {
                Ok(item) => item,
                Err(error) => {
                    return Err(error);
                },
            };
            Ok(MemberResponse { member: Some(item) })
        },
        None => Ok(MemberResponse { member: None }),
    }
}

/// The number of members in a page: what is asked for, ten where nothing
/// is, and never more than thirty.
pub open spec fn page_limit(limit: Option<u32>) -> int {
    let asked = match limit {
        Some(n) => n,
        None => DEFAULT_LIMIT,
    };
    if asked < MAX_LIMIT {
        asked as int
    } else {
        MAX_LIMIT as int
    }
}

/// The accounts of one page of the listing.
pub open spec fn listed(store: Store, start_after: Option<String>, limit: Option<u32>) -> Seq<
    (Seq<char>, AccountView),
> {
    page(
        store.accounts@,
        match start_after {
            Some(addr) => Some(addr@),
            None => None,
        },
        page_limit(limit),
    )
}

/// What a listing answers at `now`: the accounts of the page in ascending
/// order of their addresses, each as of `now`.
pub open spec fn members_answer(
    store: Store,
    res: Result<MemberListResponse, StdError>,
    start_after: Option<String>,
    limit: Option<u32>,
    now: u64,
) -> bool {
    let entries = listed(store, start_after, limit);
    if forall|i: int|
        0 <= i < entries.len() ==> settles(
            store.config.distribution_schedule@,
            store.state,
            (#[trigger] entries[i]).1.info,
            now,
        ) {
        res matches Ok(response) && response.members@.len() == entries.len() && forall|i: int|
            0 <= i < entries.len() ==> (#[trigger] response.members@[i]).address@ == entries[i].0
                && shows(response.members@[i].info, store.config, store.state, entries[i].1, now)
    } else {
        res matches Err(error) && error == StdError::Overflow
    }
}

/// One page of the listing of all participants, in ascending order of their
/// addresses, starting behind `start_after`. The store is not changed.
pub fn query_member_list(store: &Store, env: &Env, start_after: Option<String>, limit: Option<u32>) -> (res:
    Result<MemberListResponse, StdError>)
    ensures
        members_answer(*store, res, start_after, limit, env.time),
{
    let asked = match limit {
        Some(n) => n,
        None => DEFAULT_LIMIT,
    };
    let limit_len: usize = if asked < MAX_LIMIT {
        asked as usize
    } else {
        MAX_LIMIT as usize
    };
    let first: usize = match &start_after {
        Some(addr) => store.accounts.first_after(addr.as_str()),
        None => 0,
    };
    let last: usize = if limit_len < store.accounts.len() - first {
        first + limit_len
    } else {
        store.accounts.len()
    };
    let ghost entries = listed(*store, start_after, limit);
    proof {
        assert(entries == store.accounts@.subrange(first as int, last as int));
    }
    let mut members: Vec<MemberListResponseItem> = Vec::new();
    let mut i: usize = first;
    while i < last
        invariant
            first <= i <= last <= store.accounts@.len(),
            entries == store.accounts@.subrange(first as int, last as int),
            entries == listed(*store, start_after, limit),
            members@.len() == i - first,
            forall|k: int|
                0 <= k < i - first ==> settles(
                    store.config.distribution_schedule@,
                    store.state,
                    (#[trigger] entries[k]).1.info,
                    env.time,
                ),
            forall|k: int|
                0 <= k < i - first ==> (#[trigger] members@[k]).address@ == entries[k].0 && shows(
                    members@[k].info,
                    store.config,
                    store.state,
                    entries[k].1,
                    env.time,
                ),
        decreases last - i,
    {
        let item = match member_item(store, store.accounts.value_at(i), env.time) {
            Ok(item) => item,
            Err(error) => {
                proof {
                    let k = i - first;
                    assert(entries[k] == store.accounts@[i as int]);
                    assert(0 <= k < entries.len());
                    assert(!settles(
                        store.config.distribution_schedule@,
                        store.state,
                        entries[k].1.info,
                        env.time,
                    ));
                }
                return Err(error);
            },
        };
        let address = store.accounts.key_at(i).clone();
        proof {
            assert(entries[i - first] == store.accounts@[i as int]);
        }
        members.push(MemberListResponseItem { address, info: item });
        i += 1;
    }
    Ok(MemberListResponse { members })
}

/// The answer to a query.
pub enum QueryResponse<'a> {
    Config(&'a Config),
    State(State),
    Member(MemberResponse),
    ListMembers(MemberListResponse),
}

/// What a query answers at `now`.
pub open spec fn query_answer(
    store: Store,
    res: Result<QueryResponse, StdError>,
    now: u64,
    msg: QueryMsg,
) -> bool {
    match msg {
        QueryMsg::Config {} => res matches Ok(QueryResponse::Config(config)) && *config
            == store.config,
        QueryMsg::State {} => res matches Ok(QueryResponse::State(state)) && state == store.state,
        QueryMsg::Member { address } => member_answer(
            store,
            match res {
                Ok(QueryResponse::Member(response)) => Ok(response),
                Err(error) => Err(error),
                _ => arbitrary(),
            },
            address@,
            now,
        ) && (res is Ok ==> res->Ok_0 is Member),
        QueryMsg::ListMembers { start_after, limit } => members_answer(
            store,
            match res {
                Ok(QueryResponse::ListMembers(response)) => Ok(response),
                Err(error) => Err(error),
                _ => arbitrary(),
            },
            start_after,
            limit,
            now,
        ) && (res is Ok ==> res->Ok_0 is ListMembers),
    }
}

/// Answers one query. The store is not changed.
pub fn query<'a>(store: &'a Store, env: &Env, msg: QueryMsg) -> (res: Result<QueryResponse<'a>, StdError>)
    ensures
        query_answer(*store, res, env.time, msg),
{
    match msg {
        QueryMsg::Config {} => Ok(QueryResponse::Config(query_config(store))),
        QueryMsg::State {} => Ok(QueryResponse::State(query_state(store))),
        QueryMsg::Member { address } => match query_member(store, env, address) {
            Ok(response) => Ok(QueryResponse::Member(response)),
            Err(error) => Err(error),
        },
        QueryMsg::ListMembers { start_after, limit } => match query_member_list(
            store,
            env,
            start_after,
            limit,
        ) {
            Ok(response) => Ok(QueryResponse::ListMembers(response)),
            Err(error) => Err(error),
        },
    }
}

} // verus!
