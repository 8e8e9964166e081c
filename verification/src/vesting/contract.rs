//! The operations of the vesting scheme.

use vstd::prelude::*;
use vstd::string::*;
use crate::addr_map::{contains_key, lemma_rank_bounds, page, put, record, AddrMap};
use crate::chain::{is_send, is_transfer, Env, Msg, Response};
use crate::payment::{check_fee, fee_paid, fee_refused, Coin, FeeConfig, FeeError, MessageInfo};
use crate::vesting::error::{ContractError, StdError};
use crate::vesting::msg::{
    ExecuteMsg, InstantiateMsg, MemberListResponse, MemberListResponseItem, MemberResponse,
    MemberResponseItem, MigrateMsg, QueryMsg, RegisterMemberItem,
};
use crate::vesting::state::{Config, Member, State, Store, Vesting};

verus! {

/// The name under which the scheme records itself.
pub const CONTRACT_NAME: &'static str = "crates.io:airdrop";

/// The largest number of members in one page of a listing.
pub const MAX_LIMIT: u32 = 30;

/// The number of members in a page where none is asked for.
pub const DEFAULT_LIMIT: u32 = 10;

/// The seconds of a day.
pub const DAY: u64 = 86400;

/// Sets the scheme up: the configuration of the message and no member.
pub fn instantiate(msg: InstantiateMsg) -> (res: (Store, Response))
    ensures
        res.0.config == (Config {
            owner: msg.owner,
            terraland_token: msg.terraland_token,
            name: msg.name,
            fee_config: msg.fee_config,
            vesting: msg.vesting,
        }),
        res.0.state == (State { num_of_members: 0 }),
        res.0.members@.len() == 0,
        res.1.messages@.len() == 0,
{
    let config = Config {
        owner: msg.owner,
        terraland_token: msg.terraland_token,
        name: msg.name,
        fee_config: msg.fee_config,
        vesting: msg.vesting,
    };
    (Store { config, state: State { num_of_members: 0 }, members: AddrMap::new() }, Response::new())
}

/// Accepts a migration from a store that the same scheme has written:
/// `previous_contract` is the name recorded there.
pub fn migrate(previous_contract: String, _msg: MigrateMsg) -> (res: Result<Response, ContractError>)
    ensures
        match res {
            Ok(response) => previous_contract@ == CONTRACT_NAME@ && response.messages@.len() == 0,
            Err(error) => previous_contract@ != CONTRACT_NAME@ && error
                == (ContractError::CannotMigrate { previous_contract }),
        },
{
    if previous_contract != String::from_str(CONTRACT_NAME) {
        return Err(ContractError::CannotMigrate { previous_contract });
    }
    Ok(Response::new())
}

/// Whether the caller is the owner.
pub fn check_owner(cfg: &Config, info: &MessageInfo) -> (res: Result<(), ContractError>)
    ensures
        match res {
            Ok(_) => info.sender@ == cfg.owner@,
            Err(error) => info.sender@ != cfg.owner@ && error is Unauthorized,
        },
{
    if info.sender != cfg.owner {
        return Err(ContractError::Unauthorized {});
    }
    Ok(())
}

/// The configuration with the given parts replaced.
pub open spec fn updated_config(
    cfg: Config,
    new_owner: Option<String>,
    new_name: Option<String>,
    new_fee_config: Option<Vec<FeeConfig>>,
    new_vesting: Option<Vesting>,
) -> Config {
    Config {
        owner: match new_owner {
            Some(owner) => owner,
            None => cfg.owner,
        },
        terraland_token: cfg.terraland_token,
        name: match new_name {
            Some(name) => name,
            None => cfg.name,
        },
        fee_config: match new_fee_config {
            Some(fees) => fees,
            None => cfg.fee_config,
        },
        vesting: match new_vesting {
            Some(vesting) => vesting,
            None => cfg.vesting,
        },
    }
}

/// What an update of the configuration does: for the owner it replaces the
/// given parts and nothing else; anyone else is turned away.
pub open spec fn update_config_outcome(
    before: Store,
    after: Store,
    res: Result<Response, ContractError>,
    info: MessageInfo,
    new_owner: Option<String>,
    new_name: Option<String>,
    new_fee_config: Option<Vec<FeeConfig>>,
    new_vesting: Option<Vesting>,
) -> bool {
    match res {
        Ok(response) => {
            &&& info.sender@ == before.config.owner@
            &&& after.config == updated_config(
                before.config,
                new_owner,
                new_name,
                new_fee_config,
                new_vesting,
            )
            &&& after.state == before.state
            &&& after.members == before.members
            &&& response.messages@.len() == 0
        },
        Err(error) => after == before && info.sender@ != before.config.owner@ && error
            is Unauthorized,
    }
}

/// Replaces parts of the configuration, for the owner only.
pub fn execute_update_config(
    store: &mut Store,
    info: &MessageInfo,
    new_owner: Option<String>,
    new_name: Option<String>,
    new_fee_config: Option<Vec<FeeConfig>>,
    new_vesting: Option<Vesting>,
) -> (res: Result<Response, ContractError>)
    ensures
        update_config_outcome(
            *old(store),
            *final(store),
            res,
            *info,
            new_owner,
            new_name,
            new_fee_config,
            new_vesting,
        ),
{
    match check_owner(&store.config, info) {
        Ok(()) => {},
        Err(error) => {
            return Err(error);
        },
    }
    if let Some(owner) = new_owner {
        store.config.owner = owner;
    }
    if let Some(name) = new_name {
        store.config.name = name;
    }
    if let Some(fees) = new_fee_config {
        store.config.fee_config = fees;
    }
    if let Some(vesting) = new_vesting {
        store.config.vesting = vesting;
    }
    Ok(Response::new())
}

/// The member that a registration sets: the amount, and what was claimed
/// of it so far, nothing where that is not given.
pub open spec fn registered_member(item: RegisterMemberItem) -> Member {
    Member {
        amount: item.amount,
        claimed: match item.claimed {
            Some(claimed) => claimed,
            None => 0,
        },
    }
}

/// The members after a list of registrations, each replacing what stood
/// under its address.
pub open spec fn registered(members: Seq<(Seq<char>, Member)>, items: Seq<RegisterMemberItem>) -> Seq<
    (Seq<char>, Member),
>
    decreases items.len(),
{
    if items.len() == 0 {
        members
    } else {
        put(
            registered(members, items.drop_last()),
            items.last().address@,
            registered_member(items.last()),
        )
    }
}

/// What a registration does: for the owner it stores every member of the
/// list and counts those that are new; anyone else is turned away, and the
/// count must stay in range.
pub open spec fn register_members_outcome(
    before: Store,
    after: Store,
    res: Result<Response, ContractError>,
    info: MessageInfo,
    items: Seq<RegisterMemberItem>,
) -> bool {
    let members = registered(before.members@, items);
    let count = before.state.num_of_members + members.len() - before.members@.len();
    match res {
        Ok(response) => {
            &&& info.sender@ == before.config.owner@
            &&& count <= u64::MAX
            &&& after.config == before.config
            &&& after.state == (State { num_of_members: count as u64 })
            &&& after.members@ == members
            &&& response.messages@.len() == 0
        },
        Err(error) => after == before && if info.sender@ != before.config.owner@ {
            error is Unauthorized
        } else {
            count > u64::MAX && error == ContractError::Std(StdError::Overflow)
        },
    }
}

/// Storing a record adds at most one entry and removes none.
pub proof fn lemma_put_len<V>(m: Seq<(Seq<char>, V)>, key: Seq<char>, value: V)
    ensures
        put(m, key, value).len() == if contains_key(m, key) {
            m.len()
        } else {
            m.len() + 1
        },
{
    lemma_rank_bounds(m, key);
}

/// Stores the members of the list, for the owner only.
pub fn execute_register_members(store: &mut Store, info: &MessageInfo, members: Vec<RegisterMemberItem>) -> (res:
    Result<Response, ContractError>)
    ensures
        register_members_outcome(*old(store), *final(store), res, *info, members@),
{
    match check_owner(&store.config, info) {
        Ok(()) => {},
        Err(error) => {
            return Err(error);
        },
    }
    let mut updated = store.members.duplicate();
    let mut new_members: u64 = 0;
    let mut i: usize = 0;
    while i < members.len()
        invariant
            i <= members@.len(),
            updated@ == registered(store.members@, members@.take(i as int)),
            new_members == updated@.len() - store.members@.len(),
            new_members <= i,
        decreases members@.len() - i,
    {
        let item = &members[i];
        let member = Member {
            amount: item.amount,
            claimed: match item.claimed {
                Some(claimed) => claimed,
                None => 0,
            },
        };
        proof {
            let next = members@.take(i + 1);
            assert(next.drop_last() =~= members@.take(i as int));
            assert(next.last() == members@[i as int]);
            lemma_put_len(updated@, item.address@, member);
        }
        if updated.find(item.address.as_str()).is_none() {
            new_members += 1;
        }
        updated.put(item.address.clone(), member);
        i += 1;
    }
    proof {
        assert(members@.take(i as int) =~= members@);
    }
    let count = match store.state.num_of_members.checked_add(new_members) {
        Some(count) => count,
        None => {
            return Err(ContractError::Std(StdError::Overflow));
        },
    };
    store.state = State { num_of_members: count };
    store.members = updated;
    Ok(Response::new())
}

/// The part of the allocation that is released at the start, in full units.
pub open spec fn initial_amount(member: Member, vesting: Vesting) -> int {
    member.amount * vesting.initial_percentage / 100
}

/// The whole days from the end of the cliff to the end of the plan.
pub open spec fn total_days(vesting: Vesting) -> int {
    (vesting.end_time - vesting.cliff_end_time) / (DAY as int)
}

/// The whole days from the end of the cliff to `time`.
pub open spec fn days_passed(vesting: Vesting, time: u64) -> int {
    (time - vesting.cliff_end_time) / (DAY as int)
}

/// Whether `time` lies in the stretch of daily release: within the plan and
/// not before the end of the cliff.
pub open spec fn in_daily_release(vesting: Vesting, time: u64) -> bool {
    vesting.start_time <= time <= vesting.end_time && vesting.cliff_end_time <= time
}

/// The amount released to a member at `time`.
pub open spec fn released(member: Member, vesting: Vesting, time: u64) -> int {
    if time < vesting.start_time {
        0
    } else if time > vesting.end_time {
        member.amount as int
    } else if time < vesting.cliff_end_time {
        initial_amount(member, vesting)
    } else {
        (member.amount - initial_amount(member, vesting)) * days_passed(vesting, time)
            / total_days(vesting) + initial_amount(member, vesting)
    }
}

/// What keeps the released amount from being computed at `time`, if
/// anything: within the plan the initial amount must be in range; in the
/// stretch of daily release it must not exceed the allocation, the product
/// of the rest and the days passed must be in range, and the stretch must
/// hold a whole day.
pub open spec fn release_failure(member: Member, vesting: Vesting, time: u64) -> Option<StdError> {
    if time < vesting.start_time || time > vesting.end_time {
        None
    } else if member.amount * vesting.initial_percentage > u128::MAX {
        Some(StdError::Overflow)
    } else if time < vesting.cliff_end_time {
        None
    } else if initial_amount(member, vesting) > member.amount || (member.amount - initial_amount(
        member,
        vesting,
    )) * days_passed(vesting, time) > u128::MAX {
        Some(StdError::Overflow)
    } else if total_days(vesting) == 0 {
        Some(StdError::DivideByZero)
    } else {
        None
    }
}

/// Where the released amount can be computed, it is in range; in the
/// stretch of daily release it lies between the initial amount and the
/// allocation.
pub proof fn lemma_released_bounds(member: Member, vesting: Vesting, time: u64)
    requires
        release_failure(member, vesting, time) is None,
    ensures
        0 <= released(member, vesting, time) <= u128::MAX,
        in_daily_release(vesting, time) ==> initial_amount(member, vesting) <= released(
            member,
            vesting,
            time,
        ) <= member.amount,
{
    let amount = member.amount as int;
    let percentage = vesting.initial_percentage as int;
    assert(0 <= amount * percentage) by (nonlinear_arith)
        requires
            0 <= amount,
            0 <= percentage,
    ;
    if in_daily_release(vesting, time) {
        let rest = member.amount - initial_amount(member, vesting);
        let passed = days_passed(vesting, time);
        let days = total_days(vesting);
        assert(0 <= passed <= days) by (nonlinear_arith)
            requires
                passed == (time - vesting.cliff_end_time) / 86400,
                days == (vesting.end_time - vesting.cliff_end_time) / 86400,
                vesting.cliff_end_time <= time <= vesting.end_time,
        ;
        assert(0 <= rest * passed / days <= rest) by (nonlinear_arith)
            requires
                0 <= rest,
                0 <= passed <= days,
                0 < days,
        ;
    }
}

/// The amount released to a member at `time`.
pub fn compute_released_amount(member: &Member, cfg: &Config, time: u64) -> (res: Result<u128, StdError>)
    ensures
        res == match release_failure(*member, cfg.vesting, time) {
            Some(error) => Err::<u128, StdError>(error),
            None => Ok::<u128, StdError>(released(*member, cfg.vesting, time) as u128),
        },
{
    if time < cfg.vesting.start_time {
        return Ok(0);
    }
    if time > cfg.vesting.end_time {
        return Ok(member.amount);
    }
    let initial_amount = match member.amount.checked_mul(cfg.vesting.initial_percentage as u128) {
        Some(product) => product / 100,
        None => {
            return Err(StdError::Overflow);
        },
    };
    if time < cfg.vesting.cliff_end_time {
        return Ok(initial_amount);
    }
    let total_days = (cfg.vesting.end_time - cfg.vesting.cliff_end_time) / DAY;
    let days_passed = (time - cfg.vesting.cliff_end_time) / DAY;
    let rest = match member.amount.checked_sub(initial_amount) {
        Some(rest) => rest,
        None => {
            return Err(StdError::Overflow);
        },
    };
    let product = match rest.checked_mul(days_passed as u128) {
        Some(product) => product,
        None => {
            return Err(StdError::Overflow);
        },
    };
    if total_days == 0 {
        return Err(StdError::DivideByZero);
    }
    proof {
        lemma_released_bounds(*member, cfg.vesting, time);
    }
    Ok(product / (total_days as u128) + initial_amount)
}

/// What keeps the available amount from being computed at `time`, if
/// anything: the released amount must be computable and not less than what
/// was claimed.
pub open spec fn available_failure(member: Member, vesting: Vesting, time: u64) -> Option<StdError> {
    match release_failure(member, vesting, time) {
        Some(error) => Some(error),
        None => if released(member, vesting, time) < member.claimed {
            Some(StdError::Overflow)
        } else {
            None
        },
    }
}

/// What a member can claim at `time`: the released amount less what was
/// claimed.
pub open spec fn available(member: Member, vesting: Vesting, time: u64) -> int {
    released(member, vesting, time) - member.claimed
}

/// What a member can claim at `time`.
pub fn compute_available_amount(member: &Member, cfg: &Config, time: u64) -> (res: Result<u128, StdError>)
    ensures
        res == match available_failure(*member, cfg.vesting, time) {
            Some(error) => Err::<u128, StdError>(error),
            None => Ok::<u128, StdError>(available(*member, cfg.vesting, time) as u128),
        },
{
    let released_amount = match compute_released_amount(member, cfg, time) {
        Ok(amount) => amount,
        Err(error) => {
            return Err(error);
        },
    };
    proof {
        lemma_released_bounds(*member, cfg.vesting, time);
    }
    match released_amount.checked_sub(member.claimed) {
        Some(rest) => Ok(rest),
        None => Err(StdError::Overflow),
    }
}

/// Whether `error` says why `funds` do not pay for `operation`.
pub open spec fn fee_denied(
    error: ContractError,
    funds: Seq<Coin>,
    fees: Seq<FeeConfig>,
    operation: Seq<char>,
) -> bool {
    match error {
        ContractError::Payment(inner) => fee_refused(FeeError::Payment(inner), funds, fees, operation),
        ContractError::InvalidFeeAmount {} => fee_refused(
            FeeError::InvalidFeeAmount,
            funds,
            fees,
            operation,
        ),
        _ => false,
    }
}

/// The fee gate: accepts the call where `operation` is free or exactly its
/// fee is attached, as the only coin.
pub fn must_pay_fee(info: &MessageInfo, cfg: &Config, operation: String) -> (res: Result<
    (),
    ContractError,
>)
    ensures
        res is Ok <==> fee_paid(info.funds@, cfg.fee_config@, operation@),
        res matches Err(error) ==> fee_denied(error, info.funds@, cfg.fee_config@, operation@),
{
    match check_fee(info, &cfg.fee_config, &operation) {
        Ok(()) => Ok(()),
        Err(error) => Err(ContractError::from_fee(error)),
    }
}

/// Whether `error` says why nothing is released to the sender.
pub open spec fn claim_refused(
    error: ContractError,
    cfg: Config,
    members: Seq<(Seq<char>, Member)>,
    info: MessageInfo,
    now: u64,
) -> bool {
    let member = record(members, info.sender@);
    if !fee_paid(info.funds@, cfg.fee_config@, "claim"@) {
        fee_denied(error, info.funds@, cfg.fee_config@, "claim"@)
    } else if !contains_key(members, info.sender@) {
        error is MemberNotFound
    } else {
        match available_failure(member, cfg.vesting, now) {
            Some(failure) => error == ContractError::Std(failure),
            None => available(member, cfg.vesting, now) == 0 && error is NothingToClaim,
        }
    }
}

/// What a claim at `now` does: on success everything released so far counts
/// as claimed and what was not claimed before is transferred to the sender;
/// a refusal changes nothing.
pub open spec fn claim_outcome(
    before: Store,
    after: Store,
    res: Result<Response, ContractError>,
    now: u64,
    info: MessageInfo,
) -> bool {
    match res {
        Ok(response) => {
            let member = record(before.members@, info.sender@);
            &&& fee_paid(info.funds@, before.config.fee_config@, "claim"@)
            &&& contains_key(before.members@, info.sender@)
            &&& available_failure(member, before.config.vesting, now) is None
            &&& 0 < available(member, before.config.vesting, now)
            &&& after.config == before.config
            &&& after.state == before.state
            &&& after.members@ == put(
                before.members@,
                info.sender@,
                Member {
                    amount: member.amount,
                    claimed: released(member, before.config.vesting, now) as u128,
                },
            )
            &&& response.messages@.len() == 1
            &&& is_transfer(
                response.messages@[0],
                before.config.terraland_token@,
                info.sender@,
                available(member, before.config.vesting, now),
            )
        },
        Err(error) => after == before && claim_refused(
            error,
            before.config,
            before.members@,
            info,
            now,
        ),
    }
}

/// Releases to the sender what has vested and was not claimed before.
pub fn execute_claim(store: &mut Store, env: &Env, info: &MessageInfo) -> (res: Result<
    Response,
    ContractError,
>)
    ensures
        claim_outcome(*old(store), *final(store), res, env.time, *info),
{
    match must_pay_fee(info, &store.config, String::from_str("claim")) {
        Ok(()) => {},
        Err(error) => {
            return Err(error);
        },
    }
    let i = match store.members.find(info.sender.as_str()) {
        Some(i) => i,
        None => {
            return Err(ContractError::MemberNotFound {});
        },
    };
    let mut member = *store.members.value_at(i);
    let amount = match compute_available_amount(&member, &store.config, env.time) {
        Ok(amount) => amount,
        Err(error) => {
            return Err(ContractError::Std(error));
        },
    };
    proof {
        lemma_released_bounds(member, store.config.vesting, env.time);
    }
    if amount == 0 {
        return Err(ContractError::NothingToClaim {});
    }
    member.claimed = member.claimed + amount;
    let response = Response::transfer(&store.config.terraland_token, &info.sender, amount);
    store.members.put(info.sender.clone(), member);
    Ok(response)
}

/// What a withdrawal of native coins by the owner does: it changes nothing
/// and asks for `amount` of "uusd" to be paid to `recipient`.
pub open spec fn ust_withdraw_outcome(
    cfg: Config,
    res: Result<Response, ContractError>,
    info: MessageInfo,
    recipient: Seq<char>,
    amount: u128,
) -> bool {
    match res {
        Ok(response) => {
            &&& info.sender@ == cfg.owner@
            &&& response.messages@.len() == 1
            &&& is_send(response.messages@[0], recipient, "uusd"@, amount as int)
        },
        Err(error) => info.sender@ != cfg.owner@ && error is Unauthorized,
    }
}

/// Pays native coins held by the contract to `recipient`, for the owner
/// only.
pub fn execute_ust_withdraw(store: &Store, info: &MessageInfo, recipient: String, amount: u128) -> (res:
    Result<Response, ContractError>)
    ensures
        ust_withdraw_outcome(store.config, res, *info, recipient@, amount),
{
    match check_owner(&store.config, info) {
        Ok(()) => {},
        Err(error) => {
            return Err(error);
        },
    }
    let mut messages = Vec::new();
    messages.push(Msg::Send { to_address: recipient, denom: String::from_str("uusd"), amount });
    Ok(Response { messages })
}

/// What a withdrawal of a token by the owner does: it changes nothing and
/// asks for the whole `balance` of the token to be moved to `recipient`.
pub open spec fn token_withdraw_outcome(
    cfg: Config,
    res: Result<Response, ContractError>,
    info: MessageInfo,
    token: Seq<char>,
    recipient: Seq<char>,
    balance: u128,
) -> bool {
    match res {
        Ok(response) => {
            &&& info.sender@ == cfg.owner@
            &&& response.messages@.len() == 1
            &&& is_transfer(response.messages@[0], token, recipient, balance as int)
        },
        Err(error) => info.sender@ != cfg.owner@ && error is Unauthorized,
    }
}

/// Moves all of a token held by the contract to `recipient`, for the owner
/// only. `balance` is what the token contract reports as held.
pub fn execute_token_withdraw(
    store: &Store,
    info: &MessageInfo,
    token: String,
    recipient: String,
    balance: u128,
) -> (res: Result<Response, ContractError>)
    ensures
        token_withdraw_outcome(store.config, res, *info, token@, recipient@, balance),
{
    match check_owner(&store.config, info) {
        Ok(()) => {},
        Err(error) => {
            return Err(error);
        },
    }
    Ok(Response::transfer(&token, &recipient, balance))
}

/// What a message does to the store and what it asks of the chain.
pub open spec fn execute_outcome(
    before: Store,
    after: Store,
    res: Result<Response, ContractError>,
    now: u64,
    info: MessageInfo,
    msg: ExecuteMsg,
) -> bool {
    match msg {
        ExecuteMsg::UpdateConfig { owner, name, fee_config, vesting } => update_config_outcome(
            before,
            after,
            res,
            info,
            owner,
            name,
            fee_config,
            vesting,
        ),
        ExecuteMsg::RegisterMembers(members) => register_members_outcome(
            before,
            after,
            res,
            info,
            members@,
        ),
        ExecuteMsg::Claim {} => claim_outcome(before, after, res, now, info),
        ExecuteMsg::UstWithdraw { recipient, amount } => after == before && ust_withdraw_outcome(
            before.config,
            res,
            info,
            recipient@,
            amount,
        ),
        ExecuteMsg::TokenWithdraw { token, recipient, balance } => after == before
            && token_withdraw_outcome(before.config, res, info, token@, recipient@, balance),
    }
}

/// Carries out one message.
pub fn execute(store: &mut Store, env: &Env, info: MessageInfo, msg: ExecuteMsg) -> (res: Result<
    Response,
    ContractError,
>)
    ensures
        execute_outcome(*old(store), *final(store), res, env.time, info, msg),
{
    match msg {
        ExecuteMsg::UpdateConfig { owner, name, fee_config, vesting } => execute_update_config(
            store,
            &info,
            owner,
            name,
            fee_config,
            vesting,
        ),
        ExecuteMsg::RegisterMembers(members) => execute_register_members(store, &info, members),
        ExecuteMsg::Claim {} => execute_claim(store, env, &info),
        ExecuteMsg::UstWithdraw { recipient, amount } => execute_ust_withdraw(
            store,
            &info,
            recipient,
            amount,
        ),
        ExecuteMsg::TokenWithdraw { token, recipient, balance } => execute_token_withdraw(
            store,
            &info,
            token,
            recipient,
            balance,
        ),
    }
}

/// The configuration.
pub fn query_config(store: &Store) -> (res: &Config)
    ensures
        *res == store.config,
{
    &store.config
}

/// The state.
pub fn query_state(store: &Store) -> (res: State)
    ensures
        res == store.state,
{
    store.state
}

/// `item` shows `member` as of `time`.
pub open spec fn shows(item: MemberResponseItem, member: Member, vesting: Vesting, time: u64) -> bool {
    &&& item.amount == member.amount
    &&& item.available_to_claim == available(member, vesting, time)
    &&& item.claimed == member.claimed
}

/// What a query for the member at `addr` answers at `time`: nothing for an
/// unknown address, and else the member with what it can claim.
pub open spec fn member_answer(
    store: Store,
    res: Result<MemberResponse, StdError>,
    addr: Seq<char>,
    time: u64,
) -> bool {
    if !contains_key(store.members@, addr) {
        res matches Ok(response) && response.member is None
    } else {
        match available_failure(record(store.members@, addr), store.config.vesting, time) {
            Some(failure) => res matches Err(error) && error == failure,
            None => res matches Ok(response) && response.member matches Some(item) && shows(
                item,
                record(store.members@, addr),
                store.config.vesting,
                time,
            ),
        }
    }
}

/// The member as of `time`, for an answer.
fn member_item(store: &Store, member: &Member, time: u64) -> (res: Result<MemberResponseItem, StdError>)
    ensures
        match res {
            Ok(item) => available_failure(*member, store.config.vesting, time) is None && shows(
                item,
                *member,
                store.config.vesting,
                time,
            ),
            Err(error) => available_failure(*member, store.config.vesting, time) == Some(error),
        },
{
    let available_to_claim = match compute_available_amount(member, &store.config, time) {
        Ok(amount) => amount,
        Err(error) => {
            return Err(error);
        },
    };
    proof {
        lemma_released_bounds(*member, store.config.vesting, time);
    }
    Ok(MemberResponseItem { amount: member.amount, available_to_claim, claimed: member.claimed })
}

/// The member at `addr` as of `time`. The store is not changed.
pub fn query_member(store: &Store, addr: String, time: u64) -> (res: Result<MemberResponse, StdError>)
    ensures
        member_answer(*store, res, addr@, time),
{
    match store.members.find(addr.as_str()) {
        Some(i) => {
            let item = match member_item(store, store.members.value_at(i), time) {
                Ok(item) => item,
                Err(error) => {
                    return Err(error);
                },
            };
            Ok(MemberResponse { member: Some(item) })
        },
        None => Ok(MemberResponse { member: None }),
    }
}

/// The number of members in a page: what is asked for, ten where nothing
/// is, and never more than thirty.
pub open spec fn page_limit(limit: Option<u32>) -> int {
    let asked = match limit {
        Some(n) => n,
        None => DEFAULT_LIMIT,
    };
    if asked < MAX_LIMIT {
        asked as int
    } else {
        MAX_LIMIT as int
    }
}

/// The members of one page of the listing.
pub open spec fn listed(store: Store, start_after: Option<String>, limit: Option<u32>) -> Seq<
    (Seq<char>, Member),
> {
    page(
        store.members@,
        match start_after {
            Some(addr) => Some(addr@),
            None => None,
        },
        page_limit(limit),
    )
}

/// The position of the first member of the page whose available amount
/// cannot be computed at `time`, or the length of the page.
pub open spec fn first_failure(entries: Seq<(Seq<char>, Member)>, vesting: Vesting, time: u64) -> int
    decreases entries.len(),
{
    if entries.len() == 0 {
        0
    } else if first_failure(entries.drop_last(), vesting, time) < entries.len() - 1 {
        first_failure(entries.drop_last(), vesting, time)
    } else if available_failure(entries.last().1, vesting, time) is Some {
        entries.len() - 1
    } else {
        entries.len() as int
    }
}

/// What a listing answers at `time`: the members of the page in ascending
/// order of their addresses, each with what it can claim; or the failure of
/// the first member for which that cannot be computed.
pub open spec fn members_answer(
    store: Store,
    res: Result<MemberListResponse, StdError>,
    start_after: Option<String>,
    limit: Option<u32>,
    time: u64,
) -> bool {
    let entries = listed(store, start_after, limit);
    let stop = first_failure(entries, store.config.vesting, time);
    if stop == entries.len() {
        res matches Ok(response) && response.members@.len() == entries.len() && forall|i: int|
            0 <= i < entries.len() ==> (#[trigger] response.members@[i]).address@ == entries[i].0
                && shows(response.members@[i].info, entries[i].1, store.config.vesting, time)
    } else {
        res matches Err(error) && available_failure(entries[stop].1, store.config.vesting, time)
            == Some(error)
    }
}

/// One page of the listing of all members, in ascending order of their
/// addresses, starting behind `start_after`. The store is not changed.
pub fn query_member_list(store: &Store, start_after: Option<String>, limit: Option<u32>, time: u64) -> (res:
    Result<MemberListResponse, StdError>)
    ensures
        members_answer(*store, res, start_after, limit, time),
{
    let asked = match limit {
        Some(n) => n,
        None => DEFAULT_LIMIT,
    };
    let limit_len: usize = if asked < MAX_LIMIT {
        asked as usize
    } else {
        MAX_LIMIT as usize
    };
    let first: usize = match &start_after {
        Some(addr) => store.members.first_after(addr.as_str()),
        None => 0,
    };
    let last: usize = if limit_len < store.members.len() - first {
        first + limit_len
    } else {
        store.members.len()
    };
    let ghost entries = listed(*store, start_after, limit);
    proof {
        assert(entries == store.members@.subrange(first as int, last as int));
        assert(entries.take(0) =~= Seq::<(Seq<char>, Member)>::empty());
    }
    let mut members: Vec<MemberListResponseItem> = Vec::new();
    let mut i: usize = first;
    while i < last
        invariant
            first <= i <= last <= store.members@.len(),
            entries == store.members@.subrange(first as int, last as int),
            entries == listed(*store, start_after, limit),
            members@.len() == i - first,
            first_failure(entries.take(i - first), store.config.vesting, time) == i - first,
            forall|k: int|
                0 <= k < i - first ==> (#[trigger] members@[k]).address@ == entries[k].0 && shows(
                    members@[k].info,
                    entries[k].1,
                    store.config.vesting,
                    time,
                ),
        decreases last - i,
    {
        proof {
            let k = i - first;
            assert(entries[k] == store.members@[i as int]);
            assert(entries.take(k + 1).drop_last() =~= entries.take(k));
            assert(entries.take(k + 1).last() == entries[k]);
        }
        let item = match member_item(store, store.members.value_at(i), time) {
            Ok(item) => item,
            Err(error) => {
                proof {
                    lemma_first_failure_stays(entries, store.config.vesting, time, i - first + 1);
                }
                return Err(error);
            },
        };
        let address = store.members.key_at(i).clone();
        members.push(MemberListResponseItem { address, info: item });
        i += 1;
    }
    proof {
        assert(entries.take(i - first) =~= entries);
    }
    Ok(MemberListResponse { members })
}

/// A failure within a prefix of the page is the first failure of the page.
pub proof fn lemma_first_failure_stays(entries: Seq<(Seq<char>, Member)>, vesting: Vesting, time: u64, k: int)
    requires
        0 <= k <= entries.len(),
        first_failure(entries.take(k), vesting, time) < k,
    ensures
        first_failure(entries, vesting, time) == first_failure(entries.take(k), vesting, time),
    decreases entries.len() - k,
{
    if k == entries.len() {
        assert(entries.take(k) =~= entries);
    } else {
        assert(entries.take(k + 1).drop_last() =~= entries.take(k));
        lemma_first_failure_stays(entries, vesting, time, k + 1);
    }
}

/// The answer to a query.
pub enum QueryResponse<'a> {
    Config(&'a Config),
    State(State),
    Member(MemberResponse),
    ListMembers(MemberListResponse),
}

/// What a query answers at `time`.
pub open spec fn query_answer(
    store: Store,
    res: Result<QueryResponse, StdError>,
    time: u64,
    msg: QueryMsg,
) -> bool {
    match msg {
        QueryMsg::Config {} => res matches Ok(QueryResponse::Config(config)) && *config
            == store.config,
        QueryMsg::State {} => res matches Ok(QueryResponse::State(state)) && state == store.state,
        QueryMsg::Member { address } => member_answer(
            store,
            match res {
                Ok(QueryResponse::Member(response)) => Ok(response),
                Err(error) => Err(error),
                _ => arbitrary(),
            },
            address@,
            time,
        ) && (res is Ok ==> res->Ok_0 is Member),
        QueryMsg::ListMembers { start_after, limit } => members_answer(
            store,
            match res {
                Ok(QueryResponse::ListMembers(response)) => Ok(response),
                Err(error) => Err(error),
                _ => arbitrary(),
            },
            start_after,
            limit,
            time,
        ) && (res is Ok ==> res->Ok_0 is ListMembers),
    }
}

/// Answers one query. The store is not changed.
pub fn query<'a>(store: &'a Store, env: &Env, msg: QueryMsg) -> (res: Result<QueryResponse<'a>, StdError>)
    ensures
        query_answer(*store, res, env.time, msg),
{
    match msg {
        QueryMsg::Config {} => Ok(QueryResponse::Config(query_config(store))),
        QueryMsg::State {} => Ok(QueryResponse::State(query_state(store))),
        QueryMsg::Member { address } => match query_member(store, address, env.time) {
            Ok(response) => Ok(QueryResponse::Member(response)),
            Err(error) => Err(error),
        },
        QueryMsg::ListMembers { start_after, limit } => match query_member_list(
            store,
            start_after,
            limit,
            env.time,
        ) {
            Ok(response) => Ok(QueryResponse::ListMembers(response)),
            Err(error) => Err(error),
        },
    }
}

} // verus!
