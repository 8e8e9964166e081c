use terraland::chain::{Env, Msg};
use terraland::payment::{Coin, FeeConfig, MessageInfo, PaymentError};
use terraland::vesting::contract::{
    compute_available_amount, compute_released_amount, execute, execute_register_members,
    instantiate, migrate, query, query_config, query_member, query_member_list, query_state,
    QueryResponse,
};
use terraland::vesting::error::{ContractError, StdError};
use terraland::vesting::msg::{
    ExecuteMsg, InstantiateMsg, MemberListResponseItem, MemberResponseItem, MigrateMsg, QueryMsg,
    RegisterMemberItem,
};
use terraland::vesting::state::{Config, Member, State, Store, Vesting};

const INIT_ADMIN: &str = "admin";
const USER1: &str = "somebody";
const USER2: &str = "else";
const TERRALAND_TOKEN_ADDRESS: &str = "tland1234567890";
const NAME: &str = "VESTING";
const WEEK: u64 = 604800;
const FEE: u128 = 1000000;
const FEE_DENOM: &str = "uusd";
/// The time of the block that every scenario starts from, in seconds.
const START: u64 = 1_571_797_419;

fn vesting_env() -> Env {
    Env { time: START }
}

fn vesting_info(sender: &str, funds: &[Coin]) -> MessageInfo {
    MessageInfo { sender: sender.to_string(), funds: funds.to_vec() }
}

fn vesting_instantiate(env: Env) -> Store {
    let msg = InstantiateMsg {
        owner: INIT_ADMIN.into(),
        terraland_token: TERRALAND_TOKEN_ADDRESS.into(),
        name: "VESTING".to_string(),
        fee_config: Vec::from([FeeConfig {
            fee: FEE,
            operation: "claim".to_string(),
            denom: FEE_DENOM.to_string(),
        }]),
        vesting: Vesting {
            start_time: env.time,
            end_time: env.time + 10 * WEEK,
            initial_percentage: 10,
            cliff_end_time: env.time + WEEK,
        },
    };
    instantiate(msg).0
}

fn vesting_get_env(height_delta: u64) -> Env {
    Env { time: START + height_delta * 6 }
}

fn assert_vesting_users(
    store: &Store,
    env: Env,
    user1: Option<MemberResponseItem>,
    user2: Option<MemberResponseItem>,
) {
    let member1 = query_member(store, USER1.into(), env.time).unwrap();
    assert_eq!(member1.member, user1);

    let member2 = query_member(store, USER2.into(), env.time).unwrap();
    assert_eq!(member2.member, user2);
}

fn register_members(store: &mut Store, user1: u128, user2: u128) {
    let env = vesting_env();

    for (addr, amount) in &[(USER1, user1), (USER2, user2)] {
        if *amount != 0 {
            let msg = ExecuteMsg::RegisterMembers(Vec::from([RegisterMemberItem {
                address: addr.to_string(),
                amount: *amount,
                claimed: None,
            }]));
            let info = vesting_info(INIT_ADMIN, &[]);
            execute(store, &env, info, msg).unwrap();
        }
    }
}

fn assert_available_to_claim(store: &Store, user1_stake: u128, user2_stake: u128, height_delta: u64) {
    let env = vesting_get_env(height_delta);

    let res1 = query_member(store, USER1.into(), env.time).unwrap();
    assert_eq!(res1.member.unwrap().available_to_claim, user1_stake);

    let res2 = query_member(store, USER2.into(), env.time).unwrap();
    assert_eq!(res2.member.unwrap().available_to_claim, user2_stake);
}

fn assert_claimed(store: &Store, user1_stake: u128, user2_stake: u128, height_delta: u64) {
    let env = vesting_get_env(height_delta);

    let res1 = query_member(store, USER1.into(), env.time).unwrap();
    assert_eq!(res1.member.unwrap().claimed, user1_stake);

    let res2 = query_member(store, USER2.into(), env.time).unwrap();
    assert_eq!(res2.member.unwrap().claimed, user2_stake);
}

fn assert_amount(store: &Store, user1_stake: u128, user2_stake: u128, height_delta: u64) {
    let env = vesting_get_env(height_delta);

    let res1 = query_member(store, USER1.into(), env.time).unwrap();
    assert_eq!(res1.member.unwrap().amount, user1_stake);

    let res2 = query_member(store, USER2.into(), env.time).unwrap();
    assert_eq!(res2.member.unwrap().amount, user2_stake);
}

fn plan(start_time: u64, cliff_end_time: u64, end_time: u64, initial_percentage: u64) -> Config {
    Config {
        owner: INIT_ADMIN.into(),
        terraland_token: TERRALAND_TOKEN_ADDRESS.into(),
        name: NAME.into(),
        fee_config: vec![],
        vesting: Vesting { start_time, end_time, initial_percentage, cliff_end_time },
    }
}

#[test]
fn contract_proper_instantiation() {
    let env = vesting_env();
    let store = vesting_instantiate(vesting_env());

    // it worked, let's query the state
    let res = query_config(&store);
    assert_eq!(INIT_ADMIN, res.owner.as_str());
    assert_eq!(NAME, res.name.as_str());

    let res = query_member(&store, USER1.into(), env.time).unwrap();
    assert_eq!(None, res.member)
}

#[test]
fn register_members_and_claim() {
    let mut store = vesting_instantiate(vesting_env());

    // Assert initial staking members
    assert_vesting_users(&store, vesting_env(), None, None);

    // Register 2 members with amounts for vesting
    register_members(&mut store, 1_000_000, 5_000_000);

    assert_amount(&store, 1_000_000, 5_000_000, 0);
    assert_claimed(&store, 0, 0, 0);
    assert_available_to_claim(&store, 100_000, 500_000, 0);

    // available_to_claim keeps const until clif ends
    assert_available_to_claim(&store, 100_000, 500_000, 100800);
    // the daily increase happens
    assert_available_to_claim(&store, 114_285, 571_428, 115200);
    assert_available_to_claim(&store, 114_285, 571_428, 115200);
    assert_available_to_claim(&store, 128_571, 642_857, 129600);
    // ... until end of vesting
    assert_available_to_claim(&store, 1_000_000, 5_000_000, 1008000);
    assert_available_to_claim(&store, 1_000_000, 5_000_000, 10080000);

    // claim
    let env = vesting_get_env(100800);
    let msg = ExecuteMsg::Claim {};
    let info = vesting_info(USER1, &[Coin { denom: FEE_DENOM.to_string(), amount: FEE }]);
    execute(&mut store, &env, info, msg).unwrap();

    // check available_to_claim and claimed
    assert_available_to_claim(&store, 0, 500_000, 100800);
    assert_claimed(&store, 100_000, 0, 100800);
}

#[test]
fn released_amount_follows_the_plan() {
    let cfg = plan(1000, 2000, 2000 + 10 * 86400, 25);
    let member = Member { amount: 1003, claimed: 0 };
    let at = |time: u64| compute_released_amount(&member, &cfg, time);
    assert_eq!(at(0), Ok(0));
    assert_eq!(at(999), Ok(0));
    assert_eq!(at(1000), Ok(250));
    assert_eq!(at(1999), Ok(250));
    assert_eq!(at(2000), Ok(250));
    assert_eq!(at(2000 + 86399), Ok(250));
    assert_eq!(at(2000 + 86400), Ok(325));
    assert_eq!(at(2000 + 3 * 86400), Ok(475));
    assert_eq!(at(2000 + 10 * 86400 - 1), Ok(927));
    assert_eq!(at(2000 + 10 * 86400), Ok(1003));
    assert_eq!(at(2000 + 10 * 86400 + 1), Ok(1003));
    assert_eq!(at(u64::MAX), Ok(1003));
}

#[test]
fn released_amount_reports_what_cannot_be_computed() {
    let member = Member { amount: 1000, claimed: 0 };
    // less than a day between the cliff and the end
    let short = plan(0, 100, 100 + 86399, 10);
    assert_eq!(compute_released_amount(&member, &short, 99), Ok(100));
    assert_eq!(compute_released_amount(&member, &short, 100), Err(StdError::DivideByZero));
    // more than the whole allocation at the start
    let greedy = plan(0, 100, 100 + 86400, 101);
    assert_eq!(compute_released_amount(&member, &greedy, 99), Ok(1010));
    assert_eq!(compute_released_amount(&member, &greedy, 100), Err(StdError::Overflow));
    // the initial amount does not fit
    let large = Member { amount: u128::MAX / 2, claimed: 0 };
    let cfg = plan(0, 100, 100 + 86400, 3);
    assert_eq!(compute_released_amount(&large, &cfg, 50), Err(StdError::Overflow));
    assert_eq!(compute_released_amount(&large, &cfg, 100 + 86401), Ok(u128::MAX / 2));
    // the product of the rest and the days does not fit
    let long = plan(0, 100, 100 + 40 * 86400, 0);
    let large = Member { amount: u128::MAX / 10, claimed: 0 };
    assert_eq!(compute_released_amount(&large, &long, 100 + 10 * 86400), Ok(u128::MAX / 10 * 10 / 40));
    assert_eq!(compute_released_amount(&large, &long, 100 + 11 * 86400), Err(StdError::Overflow));
}

#[test]
fn available_amount_is_what_was_not_claimed() {
    let cfg = plan(1000, 2000, 2000 + 10 * 86400, 25);
    let member = Member { amount: 1003, claimed: 200 };
    assert_eq!(compute_available_amount(&member, &cfg, 1500), Ok(50));
    assert_eq!(compute_available_amount(&member, &cfg, 2000 + 3 * 86400), Ok(275));
    assert_eq!(compute_available_amount(&member, &cfg, 999), Err(StdError::Overflow));
    let all = Member { amount: 1003, claimed: 1003 };
    assert_eq!(compute_available_amount(&all, &cfg, u64::MAX), Ok(0));
}

#[test]
fn vesting_claim_is_refused_without_member_fee_or_funds() {
    let mut store = vesting_instantiate(vesting_env());
    register_members(&mut store, 1_000_000, 0);
    let paid = [Coin { denom: FEE_DENOM.to_string(), amount: FEE }];
    let claim = |store: &mut Store, sender: &str, funds: &[Coin], delta: u64| {
        execute(store, &vesting_get_env(delta), vesting_info(sender, funds), ExecuteMsg::Claim {})
    };
    assert_eq!(
        claim(&mut store, USER1, &[], 0),
        Err(ContractError::Payment(PaymentError::NoFunds {}))
    );
    assert_eq!(
        claim(&mut store, USER1, &[Coin { denom: FEE_DENOM.to_string(), amount: FEE + 1 }], 0),
        Err(ContractError::InvalidFeeAmount {})
    );
    assert_eq!(claim(&mut store, USER2, &paid, 0), Err(ContractError::MemberNotFound {}));
    let res = claim(&mut store, USER1, &paid, 0).unwrap();
    assert_eq!(
        res.messages,
        vec![Msg::Transfer {
            token: TERRALAND_TOKEN_ADDRESS.to_string(),
            recipient: USER1.to_string(),
            amount: 100_000,
        }]
    );
    assert_eq!(claim(&mut store, USER1, &paid, 0), Err(ContractError::NothingToClaim {}));
    assert_eq!(claim(&mut store, USER1, &paid, 100800), Err(ContractError::NothingToClaim {}));
    let res = claim(&mut store, USER1, &paid, 115200).unwrap();
    assert_eq!(
        res.messages,
        vec![Msg::Transfer {
            token: TERRALAND_TOKEN_ADDRESS.to_string(),
            recipient: USER1.to_string(),
            amount: 14_285,
        }]
    );
    let member = query_member(&store, USER1.into(), vesting_get_env(115200).time).unwrap().member;
    assert_eq!(
        member,
        Some(MemberResponseItem { amount: 1_000_000, available_to_claim: 0, claimed: 114_285 })
    );
}

#[test]
fn vesting_registration_is_for_the_owner_and_counts_new_members() {
    let mut store = vesting_instantiate(vesting_env());
    let items = || {
        vec![
            RegisterMemberItem { address: USER1.to_string(), amount: 10, claimed: Some(4) },
            RegisterMemberItem { address: USER2.to_string(), amount: 20, claimed: None },
            RegisterMemberItem { address: USER1.to_string(), amount: 30, claimed: None },
        ]
    };
    assert_eq!(
        execute_register_members(&mut store, &vesting_info(USER1, &[]), items()),
        Err(ContractError::Unauthorized {})
    );
    assert_eq!(query_state(&store), State { num_of_members: 0 });
    execute_register_members(&mut store, &vesting_info(INIT_ADMIN, &[]), items()).unwrap();
    assert_eq!(query_state(&store), State { num_of_members: 2 });
    // a later registration replaces the member, claimed amount included
    let one = query_member(&store, USER1.to_string(), 0).unwrap().member.unwrap();
    assert_eq!((one.amount, one.claimed), (30, 0));
    execute_register_members(&mut store, &vesting_info(INIT_ADMIN, &[]), items()).unwrap();
    assert_eq!(query_state(&store), State { num_of_members: 2 });
}

#[test]
fn vesting_registration_that_overflows_the_count_changes_nothing() {
    let mut store = vesting_instantiate(vesting_env());
    store.state = State { num_of_members: u64::MAX };
    let items = vec![RegisterMemberItem { address: USER1.to_string(), amount: 10, claimed: None }];
    assert_eq!(
        execute_register_members(&mut store, &vesting_info(INIT_ADMIN, &[]), items),
        Err(ContractError::Std(StdError::Overflow))
    );
    assert_eq!(query_member(&store, USER1.to_string(), 0).unwrap().member, None);
}

#[test]
fn vesting_members_are_listed_with_what_they_can_claim() {
    let mut store = vesting_instantiate(vesting_env());
    register_members(&mut store, 1_000_000, 5_000_000);
    let time = vesting_get_env(115200).time;
    let page = query_member_list(&store, None, None, time).unwrap();
    assert_eq!(
        page.members,
        vec![
            MemberListResponseItem {
                address: USER2.to_string(),
                info: MemberResponseItem { amount: 5_000_000, available_to_claim: 571_428, claimed: 0 },
            },
            MemberListResponseItem {
                address: USER1.to_string(),
                info: MemberResponseItem { amount: 1_000_000, available_to_claim: 114_285, claimed: 0 },
            },
        ]
    );
    let page = query_member_list(&store, Some(USER2.to_string()), Some(5), time).unwrap();
    assert_eq!(page.members.len(), 1);
    assert_eq!(page.members[0].address, USER1);
    match query(&store, &Env { time }, QueryMsg::ListMembers { start_after: None, limit: Some(1) }) {
        Ok(QueryResponse::ListMembers(page)) => assert_eq!(page.members[0].address, USER2),
        _ => panic!("a listing is expected"),
    }
}

#[test]
fn vesting_listing_reports_the_first_failure() {
    let mut store = vesting_instantiate(vesting_env());
    let items = vec![
        RegisterMemberItem { address: USER1.to_string(), amount: 10, claimed: Some(11) },
        RegisterMemberItem { address: USER2.to_string(), amount: 20, claimed: None },
    ];
    execute_register_members(&mut store, &vesting_info(INIT_ADMIN, &[]), items).unwrap();
    assert_eq!(query_member_list(&store, None, None, u64::MAX), Err(StdError::Overflow));
    assert!(query_member_list(&store, None, Some(1), u64::MAX).is_ok());
}

#[test]
fn vesting_migrate_accepts_its_own_name_only() {
    assert!(migrate("crates.io:airdrop".to_string(), MigrateMsg {}).is_ok());
    assert_eq!(
        migrate("crates.io:fcq-staking".to_string(), MigrateMsg {}),
        Err(ContractError::CannotMigrate { previous_contract: "crates.io:fcq-staking".to_string() })
    );
}

#[test]
fn vesting_config_update_and_withdrawals_are_for_the_owner() {
    let mut store = vesting_instantiate(vesting_env());
    let env = vesting_env();
    let update = || ExecuteMsg::UpdateConfig {
        owner: None,
        name: Some("NEXT".to_string()),
        fee_config: Some(vec![]),
        vesting: None,
    };
    assert_eq!(
        execute(&mut store, &env, vesting_info(USER1, &[]), update()),
        Err(ContractError::Unauthorized {})
    );
    execute(&mut store, &env, vesting_info(INIT_ADMIN, &[]), update()).unwrap();
    assert_eq!(query_config(&store).name, "NEXT");
    assert_eq!(query_config(&store).fee_config, vec![]);
    assert_eq!(query_config(&store).vesting.initial_percentage, 10);
    let send = ExecuteMsg::UstWithdraw { recipient: USER1.to_string(), amount: 5 };
    assert_eq!(
        execute(&mut store, &env, vesting_info(INIT_ADMIN, &[]), send).unwrap().messages,
        vec![Msg::Send { to_address: USER1.to_string(), denom: "uusd".to_string(), amount: 5 }]
    );
    let all = ExecuteMsg::TokenWithdraw {
        token: "token".to_string(),
        recipient: USER1.to_string(),
        balance: 8,
    };
    assert_eq!(
        execute(&mut store, &env, vesting_info(USER2, &[]), all),
        Err(ContractError::Unauthorized {})
    );
}
