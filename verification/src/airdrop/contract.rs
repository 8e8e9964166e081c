//! The operations of the airdrop scheme.

use vstd::prelude::*;
use vstd::string::*;
use crate::addr_map::{contains_key, lemma_rank_bounds, page, put, record, without, AddrMap};
use crate::airdrop::error::{ContractError, StdError};
use crate::airdrop::msg::{
    ExecuteMsg, InstantiateMissionSmartContracts, InstantiateMsg, MemberListResponse,
    MemberListResponseItem, MemberResponse, MemberResponseItem, MigrateMsg, Missions, QueryMsg,
    RegisterMemberItem,
};
use crate::airdrop::state::{Config, Member, MissionSmartContracts, State, Store};
use crate::chain::{is_send, is_transfer, Msg, Response};
use crate::payment::{check_fee, fee_paid, fee_refused, Coin, FeeConfig, FeeError, MessageInfo};
use crate::platform_registry::query::AddressBaseInfoResponse;
use crate::staking::msg::MemberResponse as StakingMemberResponse;

verus! {

/// The name under which the scheme records itself.
pub const CONTRACT_NAME: &'static str = "crates.io:airdrop";

/// The number of missions; the first counts as passed by every member.
pub const NUM_OF_MISSIONS: u32 = 4;

/// The largest number of members in one page of a listing.
pub const MAX_LIMIT: u32 = 30;

/// The number of members in a page where none is asked for.
pub const DEFAULT_LIMIT: u32 = 10;

/// The mission contracts of a message; none where the message names none.
pub open spec fn mission_contracts(m: Option<InstantiateMissionSmartContracts>) -> MissionSmartContracts {
    match m {
        Some(m) => MissionSmartContracts {
            lp_staking: m.lp_staking,
            tland_staking: m.tland_staking,
            platform_registry: m.platform_registry,
        },
        None => MissionSmartContracts { lp_staking: None, tland_staking: None, platform_registry: None },
    }
}

/// The mission contracts of a message; none where the message names none.
pub fn mission_smart_contracts_from(m: Option<InstantiateMissionSmartContracts>) -> (res:
    MissionSmartContracts)
    ensures
        res == mission_contracts(m),
{
    match m {
        Some(m) => MissionSmartContracts {
            lp_staking: m.lp_staking,
            tland_staking: m.tland_staking,
            platform_registry: m.platform_registry,
        },
        None => MissionSmartContracts { lp_staking: None, tland_staking: None, platform_registry: None },
    }
}

/// Sets the scheme up: the configuration of the message and no member.
pub fn instantiate(msg: InstantiateMsg) -> (res: (Store, Response))
    ensures
        res.0.config == (Config {
            owner: msg.owner,
            terraland_token: msg.terraland_token,
            fee_config: msg.fee_config,
            mission_smart_contracts: mission_contracts(msg.mission_smart_contracts),
        }),
        res.0.state == (State { num_of_members: 0 }),
        res.0.members@.len() == 0,
        res.1.messages@.len() == 0,
{
    let config = Config {
        owner: msg.owner,
        terraland_token: msg.terraland_token,
        fee_config: msg.fee_config,
        mission_smart_contracts: mission_smart_contracts_from(msg.mission_smart_contracts),
    };
    (Store { config, state: State { num_of_members: 0 }, members: AddrMap::new() }, Response::new())
}

/// Accepts a migration from a store that the same scheme has written:
/// `previous_contract` is the name recorded there.
pub fn migrate(previous_contract: String, _msg: MigrateMsg) -> (res: Result<Response, ContractError>)
    ensures
        match res {
            Ok(response) => previous_contract@ == CONTRACT_NAME@ && response.messages@.len() == 0,
            Err(error) => previous_contract@ != CONTRACT_NAME@ && error
                == (ContractError::CannotMigrate { previous_contract }),
        },
{
    if previous_contract != String::from_str(CONTRACT_NAME) {
        return Err(ContractError::CannotMigrate { previous_contract });
    }
    Ok(Response::new())
}

/// Whether the caller is the owner.
pub fn check_owner(cfg: &Config, info: &MessageInfo) -> (res: Result<(), ContractError>)
    ensures
        match res {
            Ok(_) => info.sender@ == cfg.owner@,
            Err(error) => info.sender@ != cfg.owner@ && error is Unauthorized,
        },
{
    if info.sender != cfg.owner {
        return Err(ContractError::Unauthorized {});
    }
    Ok(())
}

/// `new` where it names a contract, `current` where it does not.
pub open spec fn replaced(current: Option<String>, new: Option<String>) -> Option<String> {
    if new is Some {
        new
    } else {
        current
    }
}

/// The configuration with the given parts replaced.
pub open spec fn updated_config(
    cfg: Config,
    new_owner: Option<String>,
    new_fee_config: Option<Vec<FeeConfig>>,
    new_mission_smart_contracts: Option<InstantiateMissionSmartContracts>,
) -> Config {
    let new = mission_contracts(new_mission_smart_contracts);
    Config {
        owner: match new_owner {
            Some(owner) => owner,
            None => cfg.owner,
        },
        terraland_token: cfg.terraland_token,
        fee_config: match new_fee_config {
            Some(fees) => fees,
            None => cfg.fee_config,
        },
        mission_smart_contracts: MissionSmartContracts {
            lp_staking: replaced(cfg.mission_smart_contracts.lp_staking, new.lp_staking),
            tland_staking: replaced(cfg.mission_smart_contracts.tland_staking, new.tland_staking),
            platform_registry: replaced(
                cfg.mission_smart_contracts.platform_registry,
                new.platform_registry,
            ),
        },
    }
}

/// What an update of the configuration does: for the owner it replaces the
/// given parts and nothing else; anyone else is turned away.
pub open spec fn update_config_outcome(
    before: Store,
    after: Store,
    res: Result<Response, ContractError>,
    info: MessageInfo,
    new_owner: Option<String>,
    new_fee_config: Option<Vec<FeeConfig>>,
    new_mission_smart_contracts: Option<InstantiateMissionSmartContracts>,
) -> bool {
    match res {
        Ok(response) => {
            &&& info.sender@ == before.config.owner@
            &&& after.config == updated_config(
                before.config,
                new_owner,
                new_fee_config,
                new_mission_smart_contracts,
            )
            &&& after.state == before.state
            &&& after.members == before.members
            &&& response.messages@.len() == 0
        },
        Err(error) => after == before && info.sender@ != before.config.owner@ && error
            is Unauthorized,
    }
}

/// Replaces parts of the configuration, for the owner only.
pub fn execute_update_config(
    store: &mut Store,
    info: &MessageInfo,
    new_owner: Option<String>,
    new_fee_config: Option<Vec<FeeConfig>>,
    new_mission_smart_contracts: Option<InstantiateMissionSmartContracts>,
) -> (res: Result<Response, ContractError>)
    ensures
        update_config_outcome(
            *old(store),
            *final(store),
            res,
            *info,
            new_owner,
            new_fee_config,
            new_mission_smart_contracts,
        ),
{
    match check_owner(&store.config, info) {
        Ok(()) => {},
        Err(error) => {
            return Err(error);
        },
    }
    let new_mission_sc = mission_smart_contracts_from(new_mission_smart_contracts);
    if let Some(owner) = new_owner {
        store.config.owner = owner;
    }
    if let Some(fees) = new_fee_config {
        store.config.fee_config = fees;
    }
    if new_mission_sc.lp_staking.is_some() {
        store.config.mission_smart_contracts.lp_staking = new_mission_sc.lp_staking;
    }
    if new_mission_sc.tland_staking.is_some() {
        store.config.mission_smart_contracts.tland_staking = new_mission_sc.tland_staking;
    }
    if new_mission_sc.platform_registry.is_some() {
        store.config.mission_smart_contracts.platform_registry = new_mission_sc.platform_registry;
    }
    Ok(Response::new())
}

/// The member kept for `addr`, or one without allocation.
pub open spec fn member_or_new(members: Seq<(Seq<char>, Member)>, addr: Seq<char>) -> Member {
    if contains_key(members, addr) {
        record(members, addr)
    } else {
        Member { amount: 0, claimed: 0 }
    }
}

/// The member that a registration leaves: the amount is set, and what was
/// claimed is set where it is given and kept where it is not.
pub open spec fn registered_member(current: Member, item: RegisterMemberItem) -> Member {
    Member {
        amount: item.amount,
        claimed: match item.claimed {
            Some(claimed) => claimed,
            None => current.claimed,
        },
    }
}

/// The members after a list of registrations, one after the other.
pub open spec fn registered(members: Seq<(Seq<char>, Member)>, items: Seq<RegisterMemberItem>) -> Seq<
    (Seq<char>, Member),
>
    decreases items.len(),
{
    if items.len() == 0 {
        members
    } else {
        let earlier = registered(members, items.drop_last());
        put(
            earlier,
            items.last().address@,
            registered_member(member_or_new(earlier, items.last().address@), items.last()),
        )
    }
}

/// What a registration does: for the owner it stores every member of the
/// list and counts those that are new; anyone else is turned away, and the
/// count must stay in range.
pub open spec fn register_members_outcome(
    before: Store,
    after: Store,
    res: Result<Response, ContractError>,
    info: MessageInfo,
    items: Seq<RegisterMemberItem>,
) -> bool {
    let members = registered(before.members@, items);
    let count = before.state.num_of_members + members.len() - before.members@.len();
    match res {
        Ok(response) => {
            &&& info.sender@ == before.config.owner@
            &&& count <= u64::MAX
            &&& after.config == before.config
            &&& after.state == (State { num_of_members: count as u64 })
            &&& after.members@ == members
            &&& response.messages@.len() == 0
        },
        Err(error) => after == before && if info.sender@ != before.config.owner@ {
            error is Unauthorized
        } else {
            count > u64::MAX && error == ContractError::Std(StdError::Overflow)
        },
    }
}

/// Storing a record adds at most one entry and removes none; removing one
/// takes at most one entry away.
pub proof fn lemma_len_after<V>(m: Seq<(Seq<char>, V)>, key: Seq<char>, value: V)
    ensures
        put(m, key, value).len() == if contains_key(m, key) {
            m.len()
        } else {
            m.len() + 1
        },
        without(m, key).len() == if contains_key(m, key) {
            m.len() - 1
        } else {
            m.len() as int
        },
{
    lemma_rank_bounds(m, key);
}

/// Stores the members of the list, for the owner only.
pub fn execute_register_members(store: &mut Store, info: &MessageInfo, members: Vec<RegisterMemberItem>) -> (res:
    Result<Response, ContractError>)
    ensures
        register_members_outcome(*old(store), *final(store), res, *info, members@),
{
    match check_owner(&store.config, info) {
        Ok(()) => {},
        Err(error) => {
            return Err(error);
        },
    }
    let mut updated = store.members.duplicate();
    let mut new_members: u64 = 0;
    let mut i: usize = 0;
    while i < members.len()
        invariant
            i <= members@.len(),
            updated@ == registered(store.members@, members@.take(i as int)),
            new_members == updated@.len() - store.members@.len(),
            new_members <= i,
        decreases members@.len() - i,
    {
        let item = &members[i];
        let mut member = match updated.find(item.address.as_str()) {
            Some(at) => *updated.value_at(at),
            None => {
                new_members += 1;
                Member::default()
            },
        };
        member.amount = item.amount;
        if let Some(claimed) = item.claimed {
            member.claimed = claimed;
        }
        proof {
            let next = members@.take(i + 1);
            assert(next.drop_last() =~= members@.take(i as int));
            assert(next.last() == members@[i as int]);
            lemma_len_after(updated@, item.address@, member);
        }
        updated.put(item.address.clone(), member);
        i += 1;
    }
    proof {
        assert(members@.take(i as int) =~= members@);
    }
    let count = match store.state.num_of_members.checked_add(new_members) {
        Some(count) => count,
        None => {
            return Err(ContractError::Std(StdError::Overflow));
        },
    };
    store.state = State { num_of_members: count };
    store.members = updated;
    Ok(Response::new())
}

/// The members after the removal of a list of addresses.
pub open spec fn removed(members: Seq<(Seq<char>, Member)>, addresses: Seq<String>) -> Seq<
    (Seq<char>, Member),
>
    decreases addresses.len(),
{
    if addresses.len() == 0 {
        members
    } else {
        without(removed(members, addresses.drop_last()), addresses.last()@)
    }
}

/// What a removal does: for the owner it drops every member of the list
/// and lowers the count by those that were there; anyone else is turned
/// away, and the count must not fall below zero.
pub open spec fn remove_members_outcome(
    before: Store,
    after: Store,
    res: Result<Response, ContractError>,
    info: MessageInfo,
    addresses: Seq<String>,
) -> bool {
    let members = removed(before.members@, addresses);
    let count = before.state.num_of_members - (before.members@.len() - members.len());
    match res {
        Ok(response) => {
            &&& info.sender@ == before.config.owner@
            &&& count >= 0
            &&& after.config == before.config
            &&& after.state == (State { num_of_members: count as u64 })
            &&& after.members@ == members
            &&& response.messages@.len() == 0
        },
        Err(error) => after == before && if info.sender@ != before.config.owner@ {
            error is Unauthorized
        } else {
            count < 0 && error == ContractError::Std(StdError::Overflow)
        },
    }
}

/// Drops the members of the list, for the owner only.
pub fn execute_remove_members(store: &mut Store, info: &MessageInfo, addresses: Vec<String>) -> (res:
    Result<Response, ContractError>)
    ensures
        remove_members_outcome(*old(store), *final(store), res, *info, addresses@),
{
    match check_owner(&store.config, info) {
        Ok(()) => {},
        Err(error) => {
            return Err(error);
        },
    }
    let mut updated = store.members.duplicate();
    let mut dropped: u64 = 0;
    let mut i: usize = 0;
    while i < addresses.len()
        invariant
            i <= addresses@.len(),
            updated@ == removed(store.members@, addresses@.take(i as int)),
            dropped == store.members@.len() - updated@.len(),
            dropped <= i,
        decreases addresses@.len() - i,
    {
        proof {
            let next = addresses@.take(i + 1);
            assert(next.drop_last() =~= addresses@.take(i as int));
            assert(next.last() == addresses@[i as int]);
            lemma_len_after(updated@, addresses@[i as int]@, Member { amount: 0, claimed: 0 });
        }
        if updated.remove(addresses[i].as_str()) {
            dropped += 1;
        }
        i += 1;
    }
    proof {
        assert(addresses@.take(i as int) =~= addresses@);
    }
    let count = match store.state.num_of_members.checked_sub(dropped) {
        Some(count) => count,
        None => {
            return Err(ContractError::Std(StdError::Overflow));
        },
    };
    store.state = State { num_of_members: count };
    store.members = updated;
    Ok(Response::new())
}

/// The number of missions passed: one that every member has passed, and
/// one more for each mission that is marked.
pub open spec fn missions_passed(missions: Missions) -> int {
    1 + if missions.is_in_lp_staking {
        1int
    } else {
        0int
    } + if missions.is_registered_on_platform {
        1int
    } else {
        0int
    } + if missions.is_property_shareholder {
        1int
    } else {
        0int
    }
}

/// The number of missions passed.
pub fn calc_missions_passed(missions: &Missions) -> (res: u32)
    ensures
        res == missions_passed(*missions),
        1 <= res <= NUM_OF_MISSIONS,
{
    let mut passed: u32 = 1;
    if missions.is_in_lp_staking {
        passed += 1;
    }
    if missions.is_registered_on_platform {
        passed += 1;
    }
    if missions.is_property_shareholder {
        passed += 1;
    }
    passed
}

/// What the answers of the mission contracts say of a member: a mission
/// counts as passed where its contract is configured and has answered so.
pub open spec fn missions_of(
    cfg: Config,
    staking: Option<StakingMemberResponse>,
    registry: Option<AddressBaseInfoResponse>,
) -> Missions {
    Missions {
        is_in_lp_staking: cfg.mission_smart_contracts.lp_staking is Some && staking is Some
            && staking->Some_0.member is Some,
        is_registered_on_platform: cfg.mission_smart_contracts.platform_registry is Some
            && registry is Some && registry->Some_0.is_registered,
        is_property_shareholder: cfg.mission_smart_contracts.platform_registry is Some
            && registry is Some && registry->Some_0.is_property_buyer,
    }
}

/// The missions that a member has passed, from what the configured mission
/// contracts answer about the member: `staking` is the answer of the
/// staking contract to a query for the member, `registry` that of the
/// platform registry.
pub fn check_missions(
    cfg: &Config,
    staking: &Option<StakingMemberResponse>,
    registry: &Option<AddressBaseInfoResponse>,
) -> (res: Missions)
    ensures
        res == missions_of(*cfg, *staking, *registry),
{
    let mut missions = Missions {
        is_in_lp_staking: false,
        is_registered_on_platform: false,
        is_property_shareholder: false,
    };
    if cfg.mission_smart_contracts.lp_staking.is_some() {
        if let Some(answer) = staking {
            if answer.member.is_some() {
                missions.is_in_lp_staking = true;
            }
        }
    }
    if cfg.mission_smart_contracts.platform_registry.is_some() {
        if let Some(answer) = registry {
            if answer.is_registered {
                missions.is_registered_on_platform = true;
            }
            if answer.is_property_buyer {
                missions.is_property_shareholder = true;
            }
        }
    }
    missions
}

/// The part of the allocation that the missions passed have earned: a
/// quarter for each, rounded down.
pub open spec fn earned(missions: Missions, member: Member) -> int {
    member.amount * missions_passed(missions) / (NUM_OF_MISSIONS as int)
}

/// What a member can claim: what is earned and not claimed yet.
pub open spec fn claimable(missions: Missions, member: Member) -> int {
    if earned(missions, member) >= member.claimed {
        earned(missions, member) - member.claimed
    } else {
        0
    }
}

/// The product of the allocation and the number of missions passed is in
/// range.
pub open spec fn claim_fits(missions: Missions, member: Member) -> bool {
    member.amount * missions_passed(missions) <= u128::MAX
}

/// What a member can claim for the missions passed.
pub fn calc_claim_amount(missions: &Missions, member: &Member) -> (res: Result<u128, StdError>)
    ensures
        res == if claim_fits(*missions, *member) {
            Ok::<u128, StdError>(claimable(*missions, *member) as u128)
        } else {
            Err::<u128, StdError>(StdError::Overflow)
        },
{
    let passed_missions_num = calc_missions_passed(missions);
    let amount_earned = match member.amount.checked_mul(passed_missions_num as u128) {
        Some(product) => product / (NUM_OF_MISSIONS as u128),
        None => {
            return Err(StdError::Overflow);
        },
    };
    match amount_earned.checked_sub(member.claimed) {
        Some(rest) => Ok(rest),
        None => Ok(0),
    }
}

/// Whether `error` says why `funds` do not pay for `operation`.
pub open spec fn fee_denied(
    error: ContractError,
    funds: Seq<Coin>,
    fees: Seq<FeeConfig>,
    operation: Seq<char>,
) -> bool {
    match error {
        ContractError::Payment(inner) => fee_refused(FeeError::Payment(inner), funds, fees, operation),
        ContractError::InvalidFeeAmount {} => fee_refused(
            FeeError::InvalidFeeAmount,
            funds,
            fees,
            operation,
        ),
        _ => false,
    }
}

/// The fee gate: accepts the call where `operation` is free or exactly its
/// fee is attached, as the only coin.
pub fn must_pay_fee(info: &MessageInfo, cfg: &Config, operation: String) -> (res: Result<
    (),
    ContractError,
>)
    ensures
        res is Ok <==> fee_paid(info.funds@, cfg.fee_config@, operation@),
        res matches Err(error) ==> fee_denied(error, info.funds@, cfg.fee_config@, operation@),
{
    match check_fee(info, &cfg.fee_config, &operation) {
        Ok(()) => Ok(()),
        Err(error) => Err(ContractError::from_fee(error)),
    }
}

/// Whether `error` says why nothing is released to the sender.
pub open spec fn claim_refused(
    error: ContractError,
    cfg: Config,
    members: Seq<(Seq<char>, Member)>,
    info: MessageInfo,
    missions: Missions,
) -> bool {
    let member = record(members, info.sender@);
    if !fee_paid(info.funds@, cfg.fee_config@, "claim"@) {
        fee_denied(error, info.funds@, cfg.fee_config@, "claim"@)
    } else if !contains_key(members, info.sender@) {
        error is MemberNotFound
    } else if !claim_fits(missions, member) || member.claimed + claimable(missions, member)
        > u128::MAX {
        error == ContractError::Std(StdError::Overflow)
    } else {
        claimable(missions, member) == 0 && error is NothingToClaim
    }
}

/// What a claim does: on success what the missions passed have earned and
/// was not claimed before is transferred to the sender and counts as
/// claimed; a refusal changes nothing.
pub open spec fn claim_outcome(
    before: Store,
    after: Store,
    res: Result<Response, ContractError>,
    info: MessageInfo,
    missions: Missions,
) -> bool {
    match res {
        Ok(response) => {
            let member = record(before.members@, info.sender@);
            &&& fee_paid(info.funds@, before.config.fee_config@, "claim"@)
            &&& contains_key(before.members@, info.sender@)
            &&& claim_fits(missions, member)
            &&& 0 < claimable(missions, member)
            &&& member.claimed + claimable(missions, member) <= u128::MAX
            &&& after.config == before.config
            &&& after.state == before.state
            &&& after.members@ == put(
                before.members@,
                info.sender@,
                Member {
                    amount: member.amount,
                    claimed: (member.claimed + claimable(missions, member)) as u128,
                },
            )
            &&& response.messages@.len() == 1
            &&& is_transfer(
                response.messages@[0],
                before.config.terraland_token@,
                info.sender@,
                claimable(missions, member),
            )
        },
        Err(error) => after == before && claim_refused(
            error,
            before.config,
            before.members@,
            info,
            missions,
        ),
    }
}

/// Releases to the sender what the missions passed have earned and was not
/// claimed before. `missions` is what the mission contracts say of the
/// sender.
pub fn execute_claim(store: &mut Store, info: &MessageInfo, missions: Missions) -> (res: Result<
    Response,
    ContractError,
>)
    ensures
        claim_outcome(*old(store), *final(store), res, *info, missions),
{
    match must_pay_fee(info, &store.config, String::from_str("claim")) {
        Ok(()) => {},
        Err(error) => {
            return Err(error);
        },
    }
    let i = match store.members.find(info.sender.as_str()) {
        Some(i) => i,
        None => {
            return Err(ContractError::MemberNotFound {});
        },
    };
    let mut member = *store.members.value_at(i);
    let amount = match calc_claim_amount(&missions, &member) {
        Ok(amount) => amount,
        Err(error) => {
            return Err(ContractError::Std(error));
        },
    };
    let claimed = match member.claimed.checked_add(amount) {
        Some(sum) => sum,
        None => {
            return Err(ContractError::Std(StdError::Overflow));
        },
    };
    if amount == 0 {
        return Err(ContractError::NothingToClaim {});
    }
    member.claimed = claimed;
    let response = Response::transfer(&store.config.terraland_token, &info.sender, amount);
    store.members.put(info.sender.clone(), member);
    Ok(response)
}

/// What a withdrawal of native coins by the owner does: it changes nothing
/// and asks for `amount` of "uusd" to be paid to `recipient`.
pub open spec fn ust_withdraw_outcome(
    cfg: Config,
    res: Result<Response, ContractError>,
    info: MessageInfo,
    recipient: Seq<char>,
    amount: u128,
) -> bool {
    match res {
        Ok(response) => {
            &&& info.sender@ == cfg.owner@
            &&& response.messages@.len() == 1
            &&& is_send(response.messages@[0], recipient, "uusd"@, amount as int)
        },
        Err(error) => info.sender@ != cfg.owner@ && error is Unauthorized,
    }
}

/// Pays native coins held by the contract to `recipient`, for the owner
/// only.
pub fn execute_ust_withdraw(store: &Store, info: &MessageInfo, recipient: String, amount: u128) -> (res:
    Result<Response, ContractError>)
    ensures
        ust_withdraw_outcome(store.config, res, *info, recipient@, amount),
{
    match check_owner(&store.config, info) {
        Ok(()) => {},
        Err(error) => {
            return Err(error);
        },
    }
    let mut messages = Vec::new();
    messages.push(Msg::Send { to_address: recipient, denom: String::from_str("uusd"), amount });
    Ok(Response { messages })
}

/// What a withdrawal of a token by the owner does: it changes nothing and
/// asks for the whole `balance` of the token to be moved to `recipient`.
pub open spec fn token_withdraw_outcome(
    cfg: Config,
    res: Result<Response, ContractError>,
    info: MessageInfo,
    token: Seq<char>,
    recipient: Seq<char>,
    balance: u128,
) -> bool {
    match res {
        Ok(response) => {
            &&& info.sender@ == cfg.owner@
            &&& response.messages@.len() == 1
            &&& is_transfer(response.messages@[0], token, recipient, balance as int)
        },
        Err(error) => info.sender@ != cfg.owner@ && error is Unauthorized,
    }
}

/// Moves all of a token held by the contract to `recipient`, for the owner
/// only. `balance` is what the token contract reports as held.
pub fn execute_token_withdraw(
    store: &Store,
    info: &MessageInfo,
    token: String,
    recipient: String,
    balance: u128,
) -> (res: Result<Response, ContractError>)
    ensures
        token_withdraw_outcome(store.config, res, *info, token@, recipient@, balance),
{
    match check_owner(&store.config, info) {
        Ok(()) => {},
        Err(error) => {
            return Err(error);
        },
    }
    Ok(Response::transfer(&token, &recipient, balance))
}

/// What a message does to the store and what it asks of the chain.
pub open spec fn execute_outcome(
    before: Store,
    after: Store,
    res: Result<Response, ContractError>,
    info: MessageInfo,
    msg: ExecuteMsg,
) -> bool {
    match msg {
        ExecuteMsg::UpdateConfig { owner, fee_config, mission_smart_contracts } => update_config_outcome(
            before,
            after,
            res,
            info,
            owner,
            fee_config,
            mission_smart_contracts,
        ),
        ExecuteMsg::RegisterMembers(members) => register_members_outcome(
            before,
            after,
            res,
            info,
            members@,
        ),
        ExecuteMsg::RemoveMembers(addresses) => remove_members_outcome(
            before,
            after,
            res,
            info,
            addresses@,
        ),
        ExecuteMsg::Claim { missions } => claim_outcome(before, after, res, info, missions),
        ExecuteMsg::UstWithdraw { recipient, amount } => after == before && ust_withdraw_outcome(
            before.config,
            res,
            info,
            recipient@,
            amount,
        ),
        ExecuteMsg::TokenWithdraw { token, recipient, balance } => after == before
            && token_withdraw_outcome(before.config, res, info, token@, recipient@, balance),
    }
}

/// Carries out one message.
pub fn execute(store: &mut Store, info: MessageInfo, msg: ExecuteMsg) -> (res: Result<
    Response,
    ContractError,
>)
    ensures
        execute_outcome(*old(store), *final(store), res, info, msg),
{
    match msg {
        ExecuteMsg::UpdateConfig {
            owner,
            fee_config,
            mission_smart_contracts,
        } => execute_update_config(store, &info, owner, fee_config, mission_smart_contracts),
        ExecuteMsg::RegisterMembers(members) => execute_register_members(store, &info, members),
        ExecuteMsg::RemoveMembers(addresses) => execute_remove_members(store, &info, addresses),
        ExecuteMsg::Claim { missions } => execute_claim(store, &info, missions),
        ExecuteMsg::UstWithdraw { recipient, amount } => execute_ust_withdraw(
            store,
            &info,
            recipient,
            amount,
        ),
        ExecuteMsg::TokenWithdraw { token, recipient, balance } => execute_token_withdraw(
            store,
            &info,
            token,
            recipient,
            balance,
        ),
    }
}

/// The configuration.
pub fn query_config(store: &Store) -> (res: &Config)
    ensures
        *res == store.config,
{
    &store.config
}

/// The state.
pub fn query_state(store: &Store) -> (res: State)
    ensures
        res == store.state,
{
    store.state
}

/// What a query for the member at `addr` answers, given the missions that
/// the member has passed: nothing for an unknown address, and else the
/// member with what it can claim.
pub open spec fn member_answer(
    store: Store,
    res: Result<MemberResponse, StdError>,
    addr: Seq<char>,
    missions: Missions,
) -> bool {
    let member = record(store.members@, addr);
    if !contains_key(store.members@, addr) {
        res == Ok::<MemberResponse, StdError>(MemberResponse { member: None })
    } else if claim_fits(missions, member) {
        res == Ok::<MemberResponse, StdError>(
            MemberResponse {
                member: Some(
                    MemberResponseItem {
                        amount: member.amount,
                        available_to_claim: claimable(missions, member) as u128,
                        claimed: member.claimed,
                        passed_missions: missions,
                    },
                ),
            },
        )
    } else {
        res == Err::<MemberResponse, StdError>(StdError::Overflow)
    }
}

/// The member at `addr` with what it can claim. `passed_missions` is what
/// the mission contracts say of the member. The store is not changed.
pub fn query_member(store: &Store, addr: String, passed_missions: Missions) -> (res: Result<
    MemberResponse,
    StdError,
>)
    ensures
        member_answer(*store, res, addr@, passed_missions),
{
    match store.members.find(addr.as_str()) {
        Some(i) => {
            let m = store.members.value_at(i);
            let available_to_claim = match calc_claim_amount(&passed_missions, m) {
                Ok(amount) => amount,
                Err(error) => {
                    return Err(error);
                },
            };
            Ok(
                MemberResponse {
                    member: Some(
                        MemberResponseItem {
                            amount: m.amount,
                            available_to_claim,
                            claimed: m.claimed,
                            passed_missions,
                        },
                    ),
                },
            )
        },
        None => Ok(MemberResponse { member: None }),
    }
}

/// The number of members in a page: what is asked for, ten where nothing
/// is, and never more than thirty.
pub open spec fn page_limit(limit: Option<u32>) -> int {
    let asked = match limit {
        Some(n) => n,
        None => DEFAULT_LIMIT,
    };
    if asked < MAX_LIMIT {
        asked as int
    } else {
        MAX_LIMIT as int
    }
}

/// The members of one page of the listing.
pub open spec fn listed(store: Store, start_after: Option<String>, limit: Option<u32>) -> Seq<
    (Seq<char>, Member),
> {
    page(
        store.members@,
        match start_after {
            Some(addr) => Some(addr@),
            None => None,
        },
        page_limit(limit),
    )
}

/// What a listing answers: the members of the page in ascending order of
/// their addresses, as stored.
pub open spec fn members_answer(
    store: Store,
    res: MemberListResponse,
    start_after: Option<String>,
    limit: Option<u32>,
) -> bool {
    let entries = listed(store, start_after, limit);
    res.members@.len() == entries.len() && forall|i: int|
        0 <= i < entries.len() ==> (#[trigger] res.members@[i]).address@ == entries[i].0
            && res.members@[i].amount == entries[i].1.amount && res.members@[i].claimed
            == entries[i].1.claimed
}

/// One page of the listing of all members, in ascending order of their
/// addresses, starting behind `start_after`. The store is not changed.
pub fn query_member_list(store: &Store, start_after: Option<String>, limit: Option<u32>) -> (res:
    MemberListResponse)
    ensures
        members_answer(*store, res, start_after, limit),
{
    let asked = match limit {
        Some(n) => n,
        None => DEFAULT_LIMIT,
    };
    let limit_len: usize = if asked < MAX_LIMIT {
        asked as usize
    } else {
        MAX_LIMIT as usize
    };
    let first: usize = match &start_after {
        Some(addr) => store.members.first_after(addr.as_str()),
        None => 0,
    };
    let last: usize = if limit_len < store.members.len() - first {
        first + limit_len
    } else {
        store.members.len()
    };
    let ghost entries = listed(*store, start_after, limit);
    proof {
        assert(entries == store.members@.subrange(first as int, last as int));
    }
    let mut members: Vec<MemberListResponseItem> = Vec::new();
    let mut i: usize = first;
    while i < last
        invariant
            first <= i <= last <= store.members@.len(),
            entries == store.members@.subrange(first as int, last as int),
            members@.len() == i - first,
            forall|k: int|
                0 <= k < i - first ==> (#[trigger] members@[k]).address@ == entries[k].0
                    && members@[k].amount == entries[k].1.amount && members@[k].claimed
                    == entries[k].1.claimed,
        decreases last - i,
    {
        let m = store.members.value_at(i);
        let address = store.members.key_at(i).clone();
        proof {
            assert(entries[i - first] == store.members@[i as int]);
        }
        members.push(MemberListResponseItem { address, amount: m.amount, claimed: m.claimed });
        i += 1;
    }
    MemberListResponse { members }
}

/// The answer to a query.
pub enum QueryResponse<'a> {
    Config(&'a Config),
    State(State),
    Member(MemberResponse),
    ListMembers(MemberListResponse),
}

/// What a query answers, given the missions that the member asked for has
/// passed.
pub open spec fn query_answer(
    store: Store,
    res: Result<QueryResponse, StdError>,
    msg: QueryMsg,
    missions: Missions,
) -> bool {
    match msg {
        QueryMsg::Config {} => res matches Ok(QueryResponse::Config(config)) && *config
            == store.config,
        QueryMsg::State {} => res matches Ok(QueryResponse::State(state)) && state == store.state,
        QueryMsg::Member { address } => match res {
            Ok(QueryResponse::Member(response)) => member_answer(
                store,
                Ok(response),
                address@,
                missions,
            ),
            Ok(_) => false,
            Err(error) => member_answer(store, Err(error), address@, missions),
        },
        QueryMsg::ListMembers { start_after, limit } => res matches Ok(
            QueryResponse::ListMembers(response),
        ) && members_answer(store, response, start_after, limit),
    }
}

/// Answers one query. `missions` is what the mission contracts say of the
/// member that the query asks for. The store is not changed.
pub fn query<'a>(store: &'a Store, msg: QueryMsg, missions: Missions) -> (res: Result<
    QueryResponse<'a>,
    StdError,
>)
    ensures
        query_answer(*store, res, msg, missions),
{
    match msg {
        QueryMsg::Config {} => Ok(QueryResponse::Config(query_config(store))),
        QueryMsg::State {} => Ok(QueryResponse::State(query_state(store))),
        QueryMsg::Member { address } => match query_member(store, address, missions) {
            Ok(response) => Ok(QueryResponse::Member(response)),
            Err(error) => Err(error),
        },
        QueryMsg::ListMembers { start_after, limit } => Ok(
            QueryResponse::ListMembers(query_member_list(store, start_after, limit)),
        ),
    }
}

} // verus!
