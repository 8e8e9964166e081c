//! What holds of the accrual of rewards across operations.

use vstd::prelude::*;
use crate::addr_map::{contains_key, lemma_put_lookup, ordered, put, record};
use crate::chain::{Balance, Response};
use crate::math::{
    lemma_scale_bounds, lemma_share_bounds, ratio_atomics, Decimal, DECIMAL_FRACTIONAL,
};
use crate::payment::MessageInfo;
use crate::staking::contract::{
    bond_fits, bond_outcome, bond_tokens, bonded_account, bonded_state, checkpoints_sound,
    conserved, emitted, index_after, index_at, index_fits, lemma_settled_put, member_answer,
    overlap_seconds, reward_after, reward_fits, settled, settled_state, settles, unbond_fits,
    unbond_outcome, unbonded_account, unbonded_state, withdraw_outcome, withdrawn_account,
};
use crate::staking::error::{ContractError, StdError};
use crate::staking::msg::MemberResponse;
use crate::staking::state::{AccountView, Config, MemberInfo, Schedule, State, Store};

verus! {

/// An interval without a second in it emits nothing.
pub proof fn lemma_emitted_nothing(schedule: Seq<Schedule>, from: u64, to: u64)
    requires
        to <= from,
    ensures
        emitted(schedule, from, to) == 0,
    decreases schedule.len(),
{
    if schedule.len() > 0 {
        lemma_emitted_nothing(schedule.drop_last(), from, to);
    }
}

/// What is emitted up to a point in between and what is emitted from there
/// on add up to no more than what is emitted over the whole interval, and
/// fall short of it by less than one unit for each segment: each part is
/// rounded down. With the bound of each segment by its amount, no
/// interleaving of settlements hands out more than a segment holds.
pub proof fn lemma_emitted_additive(schedule: Seq<Schedule>, from: u64, mid: u64, to: u64)
    requires
        from <= mid <= to,
    ensures
        emitted(schedule, from, mid) + emitted(schedule, mid, to) <= emitted(schedule, from, to),
        emitted(schedule, from, to) - schedule.len() <= emitted(schedule, from, mid) + emitted(
            schedule,
            mid,
            to,
        ),
    decreases schedule.len(),
{
    if schedule.len() > 0 {
        lemma_emitted_additive(schedule.drop_last(), from, mid, to);
        let segment = schedule.last();
        let left = overlap_seconds(segment, from, mid);
        let right = overlap_seconds(segment, mid, to);
        let whole = overlap_seconds(segment, from, to);
        assert(left + right == whole);
        if whole > 0 {
            let amount = segment.amount as int;
            let duration = segment.end_time - segment.start_time;
            lemma_share_bounds(amount, left, right, duration);
            lemma_share_bounds(amount, right, left, duration);
            let x = amount * left;
            let y = amount * right;
            assert(0 <= x && 0 <= y && amount * whole == x + y) by (nonlinear_arith)
                requires
                    0 <= amount,
                    0 <= left,
                    0 <= right,
                    left + right == whole,
                    x == amount * left,
                    y == amount * right,
            ;
            assert((x + y) / duration - 1 <= x / duration + y / duration) by (nonlinear_arith)
                requires
                    0 <= x,
                    0 <= y,
                    0 < duration,
            ;
        }
    }
}

/// While nothing is staked the index stands still, so the emission of that
/// stretch is credited to no one: not to a participant settled at its end,
/// and not to the one whose deposit ends it. After that deposit the index
/// moves by the emission after the deposit only.
pub proof fn lemma_no_accrual_without_stake(
    schedule: Seq<Schedule>,
    state: State,
    accounts: Seq<(Seq<char>, AccountView)>,
    member: MemberInfo,
    sender: Seq<char>,
    tokens: u128,
    now: u64,
    later: u64,
)
    requires
        state.total_stake == 0,
        tokens > 0,
        bond_fits(schedule, state, accounts, sender, tokens, now),
    ensures
        index_fits(schedule, state, now),
        index_at(schedule, state, now) == state.global_reward_index,
        reward_after(member, index_at(schedule, state, now)) == reward_after(
            member,
            state.global_reward_index,
        ),
        bonded_state(schedule, state, accounts, sender, tokens, now).global_reward_index
            == state.global_reward_index,
        index_after(
            schedule,
            bonded_state(schedule, state, accounts, sender, tokens, now),
            later,
        ) == state.global_reward_index.atomics + if now != 0 {
            ratio_atomics(emitted(schedule, now, later), tokens as int)
        } else {
            0
        },
{
}

/// Two participants who make their first deposit of the same amount at the
/// same time hold the same stake, checkpoint and reward, in whichever order
/// they come and whatever other participants do at that time in between:
/// the second deposit meets a ledger that was last settled at that time and
/// whose index is the one that the first deposit has settled. While neither
/// of the two is settled again, a settlement at any common later time, on
/// any later state, gives both the same reward.
pub proof fn lemma_accrual_fairness(
    schedule: Seq<Schedule>,
    state: State,
    accounts: Seq<(Seq<char>, AccountView)>,
    first: Seq<char>,
    between: State,
    others: Seq<(Seq<char>, AccountView)>,
    second: Seq<char>,
    tokens: u128,
    now: u64,
    later: State,
    time: u64,
)
    requires
        !contains_key(accounts, first),
        !contains_key(others, second),
        bond_fits(schedule, state, accounts, first, tokens, now),
        between.last_updated == now,
        between.global_reward_index == index_at(schedule, state, now),
        bond_fits(schedule, between, others, second, tokens, now),
    ensures
        ({
            let one = bonded_account(schedule, state, accounts, first, tokens, now);
            let other = bonded_account(schedule, between, others, second, tokens, now);
            &&& one.info == other.info
            &&& settles(schedule, later, one.info, time) == settles(
                schedule,
                later,
                other.info,
                time,
            )
            &&& settled(schedule, later, one.info, time) == settled(
                schedule,
                later,
                other.info,
                time,
            )
        }),
{
    lemma_emitted_nothing(schedule, now, now);
    lemma_scale_bounds(0, index_at(schedule, state, now).atomics as int);
    assert(index_after(schedule, between, now) == between.global_reward_index.atomics);
}

/// After a deposit at `now` the ledger was last settled at `now` and holds
/// the index that the deposit has settled, and so it stays under every
/// further operation at that time: what the fairness of deposits asks of
/// the ledger that the second deposit meets.
pub proof fn lemma_index_stands_within_a_second(cfg: Config, state: State, now: u64)
    requires
        state.last_updated == now,
    ensures
        index_fits(cfg.distribution_schedule@, state, now),
        index_at(cfg.distribution_schedule@, state, now) == state.global_reward_index,
        settled_state(cfg, state, now) == state,
{
    lemma_emitted_nothing(cfg.distribution_schedule@, now, now);
}

/// Settling a participant is idempotent: a second settlement at the same
/// time, on the state that the first one leaves, changes nothing.
pub proof fn lemma_settlement_idempotent(cfg: Config, state: State, member: MemberInfo, now: u64)
    requires
        settles(cfg.distribution_schedule@, state, member, now),
    ensures
        ({
            let after = settled_state(cfg, state, now);
            let once = settled(cfg.distribution_schedule@, state, member, now);
            &&& settles(cfg.distribution_schedule@, after, once, now)
            &&& settled(cfg.distribution_schedule@, after, once, now) == once
            &&& settled_state(cfg, after, now) == after
        }),
{
    lemma_emitted_nothing(cfg.distribution_schedule@, now, now);
    lemma_scale_bounds(member.stake as int, 0);
}

/// A participant after a settlement at `index`, with the stake unchanged:
/// what a claim or a withdrawal does to the checkpoint.
pub open spec fn settled_at(member: MemberInfo, index: Decimal) -> MemberInfo {
    MemberInfo {
        stake: member.stake,
        pending_reward: reward_after(member, index) as u128,
        reward_index: index,
        withdrawn: member.withdrawn,
    }
}

/// A settlement in between costs at most one unit: with the stake
/// unchanged, a settlement at one index followed by a settlement at a later
/// index gives the reward of a single settlement at the later index or one
/// unit less, since each settlement rounds down. Nothing is lost exactly
/// where the two fractions that are cut off add up to less than a unit.
pub proof fn lemma_settlement_in_between(member: MemberInfo, first: Decimal, second: Decimal)
    requires
        reward_fits(member, first),
        first.atomics <= second.atomics,
    ensures
        ({
            let direct = reward_after(member, second);
            let stepwise = reward_after(settled_at(member, first), second);
            let lost = (member.stake * (first.atomics - member.reward_index.atomics))
                % (DECIMAL_FRACTIONAL as int) + (member.stake * (second.atomics - first.atomics))
                % (DECIMAL_FRACTIONAL as int);
            &&& direct - 1 <= stepwise <= direct
            &&& stepwise == direct <==> lost < DECIMAL_FRACTIONAL
        }),
{
    let stake = member.stake as int;
    let low = first.atomics - member.reward_index.atomics;
    let high = second.atomics - first.atomics;
    assert(stake * (low + high) == stake * low + stake * high) by (nonlinear_arith);
    assert(0 <= stake * low && 0 <= stake * high) by (nonlinear_arith)
        requires
            0 <= stake,
            0 <= low,
            0 <= high,
    ;
}

/// A participant after settlements at each of `indexes` in turn.
pub open spec fn settled_through(member: MemberInfo, indexes: Seq<Decimal>) -> MemberInfo
    decreases indexes.len(),
{
    if indexes.len() == 0 {
        member
    } else {
        settled_at(settled_through(member, indexes.drop_last()), indexes.last())
    }
}

/// Each of the settlements at `indexes` can be computed in its turn.
pub open spec fn settlements_fit(member: MemberInfo, indexes: Seq<Decimal>) -> bool
    decreases indexes.len(),
{
    indexes.len() == 0 || (settlements_fit(member, indexes.drop_last()) && reward_fits(
        settled_through(member, indexes.drop_last()),
        indexes.last(),
    ))
}

/// Fairness across claims and withdrawals: of two participants with the
/// same stake, checkpoint and reward, one is settled any number of times
/// while neither bonds or unbonds. At a common later index the one who was
/// settled in between has the reward of the other or less, by at most one
/// unit for each settlement in between; with no settlement in between the
/// rewards are equal.
pub proof fn lemma_fairness_across_settlements(
    one: MemberInfo,
    other: MemberInfo,
    indexes: Seq<Decimal>,
    index: Decimal,
)
    requires
        one.stake == other.stake,
        one.reward_index == other.reward_index,
        one.pending_reward == other.pending_reward,
        settlements_fit(one, indexes),
        settled_through(one, indexes).reward_index.atomics <= index.atomics,
    ensures
        settled_through(one, indexes).stake == other.stake,
        other.reward_index.atomics <= settled_through(one, indexes).reward_index.atomics,
        reward_after(other, index) - indexes.len() <= reward_after(
            settled_through(one, indexes),
            index,
        ) <= reward_after(other, index),
        indexes.len() == 0 ==> reward_after(settled_through(one, indexes), index) == reward_after(
            other,
            index,
        ),
    decreases indexes.len(),
{
    if indexes.len() > 0 {
        let earlier = settled_through(one, indexes.drop_last());
        lemma_fairness_across_settlements(one, other, indexes.drop_last(), indexes.last());
        lemma_fairness_across_settlements(one, other, indexes.drop_last(), index);
        lemma_settlement_in_between(earlier, indexes.last(), index);
    }
}

/// A withdrawal leaves nothing to withdraw: a second one at the same time,
/// with nothing in between, is refused for want of reward.
pub proof fn lemma_second_withdrawal_is_refused(
    before: Store,
    between: Store,
    after: Store,
    first: Result<Response, ContractError>,
    second: Result<Response, ContractError>,
    now: u64,
    info: MessageInfo,
)
    requires
        ordered(before.accounts@),
        withdraw_outcome(before, between, first, now, info),
        first is Ok,
        withdraw_outcome(between, after, second, now, info),
    ensures
        second matches Err(error) && error is NothingToWithdraw,
        after == between,
{
    let account = record(before.accounts@, info.sender@);
    let paid = withdrawn_account(before.config, before.state, account, now);
    lemma_put_lookup(before.accounts@, info.sender@, paid, info.sender@);
    lemma_settlement_idempotent(before.config, before.state, account.info, now);
    let once = settled(before.config.distribution_schedule@, before.state, account.info, now);
    assert(reward_after(paid.info, index_at(between.config.distribution_schedule@, between.state, now))
        == reward_after(once, index_at(between.config.distribution_schedule@, between.state, now)));
}

/// Two participants with the same stake and the same checkpoint accrue the
/// same reward over any stretch, whatever they had accrued before.
pub proof fn lemma_equal_stakes_accrue_equally(one: MemberInfo, other: MemberInfo, index: Decimal)
    requires
        one.stake == other.stake,
        one.reward_index == other.reward_index,
    ensures
        reward_after(one, index) - one.pending_reward == reward_after(other, index)
            - other.pending_reward,
{
}

/// Two answers agree: both fail, both know no such participant, or both
/// show the same stake, reward, index, withdrawals and claims.
pub open spec fn same_answer(
    one: Result<MemberResponse, StdError>,
    other: Result<MemberResponse, StdError>,
) -> bool {
    match (one, other) {
        (Ok(a), Ok(b)) => match (a.member, b.member) {
            (Some(x), Some(y)) => {
                &&& x.stake == y.stake
                &&& x.reward == y.reward
                &&& x.reward_index == y.reward_index
                &&& x.withdrawn == y.withdrawn
                &&& x.claims@ == y.claims@
            },
            (None, None) => true,
            _ => false,
        },
        (Err(a), Err(b)) => a == b,
        _ => false,
    }
}

/// A query for a participant reads the store and never writes it, and what
/// it answers is determined by the store, the address and the time: asked
/// twice with nothing in between, it answers the same.
pub proof fn lemma_query_idempotent(
    store: Store,
    one: Result<MemberResponse, StdError>,
    other: Result<MemberResponse, StdError>,
    addr: Seq<char>,
    now: u64,
)
    requires
        member_answer(store, one, addr, now),
        member_answer(store, other, addr, now),
    ensures
        same_answer(one, other),
{
}

/// The accrual state and the accounts, as mathematical values.
pub ghost struct Ledger {
    pub state: State,
    pub accounts: Seq<(Seq<char>, AccountView)>,
}

/// A change of stake.
pub ghost enum Movement {
    /// `sender` bonds `tokens` at `now`.
    Bond { sender: Seq<char>, tokens: u128, now: u64 },
    /// `sender` unbonds `amount` at `now`.
    Unbond { sender: Seq<char>, amount: u128, now: u64 },
}

/// The ledger of a store.
pub open spec fn ledger_of(store: Store) -> Ledger {
    Ledger { state: store.state, accounts: store.accounts@ }
}

/// The ledger after a movement. A movement that cannot be carried out (a
/// time before the last settlement, no tokens, an unknown participant, more
/// than the stake, out of range) leaves the ledger as it is.
pub open spec fn moved(cfg: Config, ledger: Ledger, movement: Movement) -> Ledger {
    let schedule = cfg.distribution_schedule@;
    match movement {
        Movement::Bond { sender, tokens, now } => if ledger.state.last_updated <= now && tokens > 0
            && bond_fits(
            schedule,
            ledger.state,
            ledger.accounts,
            sender,
            tokens,
            now,
        ) {
            Ledger {
                state: bonded_state(schedule, ledger.state, ledger.accounts, sender, tokens, now),
                accounts: put(
                    ledger.accounts,
                    sender,
                    bonded_account(schedule, ledger.state, ledger.accounts, sender, tokens, now),
                ),
            }
        } else {
            ledger
        },
        Movement::Unbond { sender, amount, now } => if ledger.state.last_updated <= now
            && contains_key(ledger.accounts, sender) && amount <= record(ledger.accounts, sender).info.stake && unbond_fits(
            cfg,
            ledger.state,
            record(ledger.accounts, sender).info,
            amount,
            now,
        ) {
            Ledger {
                state: unbonded_state(cfg, ledger.state, amount, now),
                accounts: put(
                    ledger.accounts,
                    sender,
                    unbonded_account(
                        cfg,
                        ledger.state,
                        record(ledger.accounts, sender),
                        amount,
                        now,
                    ),
                ),
            }
        } else {
            ledger
        },
    }
}

/// The ledger after a sequence of movements, one after the other.
pub open spec fn moved_all(cfg: Config, ledger: Ledger, movements: Seq<Movement>) -> Ledger
    decreases movements.len(),
{
    if movements.len() == 0 {
        ledger
    } else {
        moved(cfg, moved_all(cfg, ledger, movements.drop_last()), movements.last())
    }
}

/// What the operations do to the ledger is a movement: a deposit that is
/// accepted moves the ledger as `Bond` does, an unbonding that is accepted as
/// `Unbond` does, and one that is refused leaves it as it is.
pub proof fn lemma_operations_are_movements(
    before: Store,
    after: Store,
    res: Result<Response, ContractError>,
    now: u64,
    info: MessageInfo,
    deposit: Balance,
    sender: Seq<char>,
    amount: u128,
)
    requires
        before.state.last_updated <= now,
    ensures
        bond_outcome(before, after, res, now, deposit, sender) ==> ledger_of(after) == if res
            is Ok {
            moved(
                before.config,
                ledger_of(before),
                Movement::Bond { sender, tokens: bond_tokens(before.config, deposit)->Some_0, now },
            )
        } else {
            ledger_of(before)
        },
        unbond_outcome(before, after, res, now, info, amount) ==> ledger_of(after) == if res
            is Ok {
            moved(
                before.config,
                ledger_of(before),
                Movement::Unbond { sender: info.sender@, amount, now },
            )
        } else {
            ledger_of(before)
        },
{
}

/// One movement keeps the total stake equal to the sum of the stakes, does
/// not lower the reward index nor the time of the last settlement, and
/// keeps the checkpoints sound.
pub proof fn lemma_movement_conserves(cfg: Config, ledger: Ledger, movement: Movement)
    ensures
        conserved(ledger.state, ledger.accounts) ==> conserved(
            moved(cfg, ledger, movement).state,
            moved(cfg, ledger, movement).accounts,
        ),
        checkpoints_sound(ledger.state, ledger.accounts) ==> checkpoints_sound(
            moved(cfg, ledger, movement).state,
            moved(cfg, ledger, movement).accounts,
        ),
        ledger.state.global_reward_index.atomics <= moved(
            cfg,
            ledger,
            movement,
        ).state.global_reward_index.atomics,
        ledger.state.last_updated <= moved(cfg, ledger, movement).state.last_updated,
{
    let after = moved(cfg, ledger, movement);
    let schedule = cfg.distribution_schedule@;
    if after != ledger {
        match movement {
            Movement::Bond { sender, tokens, now } => {
                lemma_settled_put(
                    schedule,
                    ledger.state,
                    after.state,
                    ledger.accounts,
                    sender,
                    bonded_account(schedule, ledger.state, ledger.accounts, sender, tokens, now),
                    now,
                );
            },
            Movement::Unbond { sender, amount, now } => {
                lemma_settled_put(
                    schedule,
                    ledger.state,
                    after.state,
                    ledger.accounts,
                    sender,
                    unbonded_account(
                        cfg,
                        ledger.state,
                        record(ledger.accounts, sender),
                        amount,
                        now,
                    ),
                    now,
                );
            },
        }
    }
}

/// Conservation and the monotonic index over any sequence of bonds and
/// unbonds: from a ledger whose total stake is the sum of the stakes, every
/// sequence leads to such a ledger again, and neither the reward index nor
/// the time of the last settlement at its end is below that at its start.
pub proof fn lemma_movements_conserve(cfg: Config, ledger: Ledger, movements: Seq<Movement>)
    ensures
        conserved(ledger.state, ledger.accounts) ==> conserved(
            moved_all(cfg, ledger, movements).state,
            moved_all(cfg, ledger, movements).accounts,
        ),
        checkpoints_sound(ledger.state, ledger.accounts) ==> checkpoints_sound(
            moved_all(cfg, ledger, movements).state,
            moved_all(cfg, ledger, movements).accounts,
        ),
        ledger.state.global_reward_index.atomics <= moved_all(
            cfg,
            ledger,
            movements,
        ).state.global_reward_index.atomics,
        ledger.state.last_updated <= moved_all(cfg, ledger, movements).state.last_updated,
    decreases movements.len(),
{
    if movements.len() > 0 {
        lemma_movements_conserve(cfg, ledger, movements.drop_last());
        lemma_movement_conserves(
            cfg,
            moved_all(cfg, ledger, movements.drop_last()),
            movements.last(),
        );
    }
}

} // verus!
