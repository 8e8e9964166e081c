use terraland::chain::{Balance, Env, Msg, Response};
use terraland::math::Decimal;
use terraland::payment::{Coin, FeeConfig, MessageInfo, PaymentError};
use terraland::staking::contract::{
    execute, execute_bond, execute_claim, execute_instant_claim, execute_unbond,
    execute_update_config, execute_withdraw, instantiate, migrate, query, query_config,
    query_member, query_member_list, query_state, QueryResponse,
};
use terraland::staking::error::{ContractError, StdError};
use terraland::staking::msg::{
    Cw20ReceiveMsg, ExecuteMsg, InstantiateMsg, MemberResponseItem, MigrateMsg, NewConfig,
    QueryMsg, ReceiveMsg,
};
use terraland::staking::state::{Claim, MemberInfo, Schedule, Store};

const INIT_ADMIN: &str = "admin";
const USER1: &str = "somebody";
const USER2: &str = "else";
const USER3: &str = "funny";
const UNBONDING_PERIOD: u64 = 600;
const BURN_ADDRESS: &str = "burn1234567890";
const TERRALAND_TOKEN_ADDRESS: &str = "tland1234567890";
const STAKING_TOKEN_ADDRESS: &str = "staking1234567890";
const WEEK: u64 = 604800;
/// The time of the block that every scenario starts from, in seconds.
const START: u64 = 1_571_797_419;

fn fee(operation: &str) -> FeeConfig {
    FeeConfig { fee: 1000000, operation: operation.to_string(), denom: "uusd".to_string() }
}

fn default_instantiate(env: Env) -> Store {
    let msg = InstantiateMsg {
        owner: INIT_ADMIN.into(),
        staking_token: STAKING_TOKEN_ADDRESS.into(),
        terraland_token: TERRALAND_TOKEN_ADDRESS.into(),
        unbonding_period: UNBONDING_PERIOD,
        burn_address: BURN_ADDRESS.into(),
        instant_claim_percentage_loss: 0,
        distribution_schedule: Vec::from([
            Schedule { amount: 150_000_000_000, start_time: env.time, end_time: env.time + WEEK },
            Schedule {
                amount: 100_000_000_000,
                start_time: env.time + WEEK,
                end_time: env.time + 2 * WEEK,
            },
        ]),
        fee_config: Vec::from([fee("claim"), fee("instant_claim"), fee("withdraw"), fee("unbond")]),
    };
    instantiate(msg).0
}

fn mock_env() -> Env {
    Env { time: START }
}

fn get_env(height_delta: u64) -> Env {
    Env { time: START + height_delta * 6 }
}

fn mock_info(sender: &str, funds: &[Coin]) -> MessageInfo {
    MessageInfo { sender: sender.to_string(), funds: funds.to_vec() }
}

fn uusd(amount: u128) -> Coin {
    Coin { denom: "uusd".to_string(), amount }
}

fn get_member(store: &Store, addr: String) -> Option<MemberResponseItem> {
    match query(store, &mock_env(), QueryMsg::Member { address: addr }).unwrap() {
        QueryResponse::Member(res) => res.member,
        _ => panic!("a member query is answered with a member"),
    }
}

fn assert_users(
    store: &Store,
    user1: Option<MemberResponseItem>,
    user2: Option<MemberResponseItem>,
    user3: Option<MemberResponseItem>,
) {
    let member1 = get_member(store, USER1.into());
    assert_eq!(member1, user1);

    let member2 = get_member(store, USER2.into());
    assert_eq!(member2, user2);

    let member3 = get_member(store, USER3.into());
    assert_eq!(member3, user3);
}

fn bond_cw20(store: &mut Store, user1: u128, user2: u128, user3: u128, height_delta: u64) {
    let env = get_env(height_delta);

    for (addr, stake) in &[(USER1, user1), (USER2, user2), (USER3, user3)] {
        if *stake != 0 {
            let msg = ExecuteMsg::Receive(Cw20ReceiveMsg {
                sender: addr.to_string(),
                amount: *stake,
                msg: ReceiveMsg::Bond {},
            });
            let info = mock_info(STAKING_TOKEN_ADDRESS, &[]);
            execute(store, &env, info, msg).unwrap();
        }
    }
}

fn unbond(store: &mut Store, user1: u128, user2: u128, user3: u128, height_delta: u64, funds: &[Coin]) {
    let env = get_env(height_delta);

    for (addr, stake) in &[(USER1, user1), (USER2, user2), (USER3, user3)] {
        if *stake != 0 {
            let msg = ExecuteMsg::Unbond { tokens: *stake };
            let info = mock_info(addr, funds);
            execute(store, &env, info, msg).unwrap();
        }
    }
}

fn assert_stake(store: &Store, user1_stake: u128, user2_stake: u128, user3_stake: u128, height_delta: u64) {
    let env = get_env(height_delta);

    let res1 = query_member(store, &env, USER1.into()).unwrap();
    assert_eq!(res1.member.unwrap().stake, user1_stake);

    let res2 = query_member(store, &env, USER2.into()).unwrap();
    assert_eq!(res2.member.unwrap().stake, user2_stake);

    let res3 = query_member(store, &env, USER3.into()).unwrap();
    assert_eq!(res3.member.unwrap().stake, user3_stake);
}

fn assert_rewards(store: &Store, user1_reward: u128, user2_reward: u128, user3_reward: u128, height_delta: u64) {
    let env = get_env(height_delta);

    let res1 = query_member(store, &env, USER1.into()).unwrap();
    assert_eq!(res1.member.unwrap_or(Default::default()).reward, user1_reward);

    let res2 = query_member(store, &env, USER2.into()).unwrap();
    assert_eq!(res2.member.unwrap_or(Default::default()).reward, user2_reward);

    let res3 = query_member(store, &env, USER3.into()).unwrap();
    assert_eq!(res3.member.unwrap_or(Default::default()).reward, user3_reward);
}

fn info_of(store: &Store, addr: &str, env: &Env) -> MemberResponseItem {
    query_member(store, env, addr.to_string()).unwrap().member.unwrap()
}

/// A store with one segment of `amount` over `[start, start + duration)`,
/// no fees, the given unbonding period and penalty.
fn plain_store(segments: Vec<Schedule>, unbonding_period: u64, penalty: u64) -> Store {
    instantiate(InstantiateMsg {
        owner: INIT_ADMIN.into(),
        staking_token: STAKING_TOKEN_ADDRESS.into(),
        terraland_token: TERRALAND_TOKEN_ADDRESS.into(),
        unbonding_period,
        burn_address: BURN_ADDRESS.into(),
        instant_claim_percentage_loss: penalty,
        distribution_schedule: segments,
        fee_config: Vec::new(),
    })
    .0
}

fn bond(store: &mut Store, addr: &str, amount: u128, time: u64) -> Result<Response, ContractError> {
    execute_bond(
        store,
        &Env { time },
        Balance::Cw20 { address: STAKING_TOKEN_ADDRESS.to_string(), amount },
        addr.to_string(),
    )
}

fn total_of_stakes(store: &Store) -> u128 {
    let all = query_member_list(store, &Env { time: 0 }, None, Some(30)).unwrap();
    all.members.iter().map(|m| m.info.stake).sum()
}

#[test]
fn proper_instantiation() {
    let env = mock_env();
    let store = default_instantiate(mock_env());

    // it worked, let's query the state
    let res = query_config(&store);
    assert_eq!(INIT_ADMIN, res.owner.as_str());

    let res = query_state(&store);
    assert_eq!(0, res.total_stake);

    let res = query_member(&store, &env, USER1.into()).unwrap();
    assert_eq!(None, res.member)
}

#[test]
fn cw20_token_bond() {
    let mut store = default_instantiate(mock_env());

    // Assert initial staking members
    assert_users(&store, None, None, None);

    bond_cw20(&mut store, 12_000, 7_500, 500, 1);
    assert_stake(&store, 12_000, 7_500, 500, 1);

    // check rewards after 1 block (6 seconds)
    assert_rewards(&store, 892_857, 558_035, 37_202, 2);

    bond_cw20(&mut store, 0, 0, 5_000, 2);
    assert_stake(&store, 12_000, 7_500, 5_500, 2);
    assert_rewards(&store, 892_857, 558_035, 37_202, 2);

    // check rewards after another 1 block (6 seconds)
    assert_rewards(&store, 1_607_142, 1_004_464, 364_582, 3);
}

#[test]
fn cw20_token_bond_on_distribution_schedules_edge() {
    let mut store = default_instantiate(mock_env());

    // bond 1 block before end of first distribution schedule
    bond_cw20(&mut store, 10, 0, 0, 100799);

    // calc reward 1 block after end of first distribution schedule
    assert_rewards(&store, 2480158, 0, 0, 100801);
}

#[test]
fn cw20_token_bond_before_distribution_start() {
    let mut store = default_instantiate(get_env(10));

    // bond 9 block before start of distribution, the reward should be 0 until distribution start
    bond_cw20(&mut store, 10, 10, 10, 1);
    assert_rewards(&store, 0, 0, 0, 5);
    assert_rewards(&store, 0, 0, 0, 10);

    // rewart is calculated after distribution start
    assert_rewards(&store, 496031, 496031, 496031, 11);
    assert_rewards(&store, 992063, 992063, 992063, 12);
}

#[test]
fn cw20_token_bond_after_distribution_end() {
    let mut store = default_instantiate(mock_env());

    // bond 1 block before end of first distribution
    bond_cw20(&mut store, 10, 10, 10, 201599);
    assert_rewards(&store, 330687, 330687, 330687, 201600);

    // bond after the end of distribution - it will not change the rewards
    bond_cw20(&mut store, 1000, 1000, 1000, 201601);
    assert_stake(&store, 1010, 1010, 1010, 201601);
    assert_rewards(&store, 330687, 330687, 330687, 201601);
    assert_rewards(&store, 330687, 330687, 330687, 301800);
}

#[test]
fn cw20_token_unbond() {
    let mut store = default_instantiate(mock_env());

    bond_cw20(&mut store, 12_000, 7_500, 500, 1);

    unbond(&mut store, 0, 0, 500, 2, &[Coin { denom: "uusd".to_string(), amount: 1000000 }]);

    assert_stake(&store, 12_000, 7_500, 0, 2);

    assert_rewards(&store, 892_857, 558_035, 37_202, 2);
}

#[test]
fn withdraw_reward() {
    let mut store = default_instantiate(mock_env());

    bond_cw20(&mut store, 12_000, 7_500, 500, 1);

    let env = get_env(2);
    let msg = ExecuteMsg::Withdraw {};
    let info = mock_info(USER1, &[Coin { denom: "uusd".to_string(), amount: 1000000 }]);
    execute(&mut store, &env, info, msg).unwrap();
}

#[test]
fn withdraw_pays_the_accrued_reward_in_the_reward_token() {
    let mut store = default_instantiate(mock_env());
    bond_cw20(&mut store, 12_000, 7_500, 500, 1);

    let info = mock_info(USER1, &[uusd(1000000)]);
    let res = execute_withdraw(&mut store, &get_env(2), &info).unwrap();
    assert_eq!(
        res.messages,
        vec![Msg::Transfer {
            token: TERRALAND_TOKEN_ADDRESS.to_string(),
            recipient: USER1.to_string(),
            amount: 892_857,
        }]
    );
    let member = info_of(&store, USER1, &get_env(2));
    assert_eq!(member.reward, 892_857);
    assert_eq!(member.withdrawn, 892_857);
    assert_eq!(query_state(&store).last_updated, START + 12);
}

#[test]
fn withdraw_twice_without_time_passing_pays_once() {
    let mut store = default_instantiate(mock_env());
    bond_cw20(&mut store, 12_000, 7_500, 500, 1);

    let info = mock_info(USER1, &[uusd(1000000)]);
    let first = execute_withdraw(&mut store, &get_env(2), &info).unwrap();
    assert_eq!(
        first.messages,
        vec![Msg::Transfer {
            token: TERRALAND_TOKEN_ADDRESS.to_string(),
            recipient: USER1.to_string(),
            amount: 892_857,
        }]
    );
    let second = execute_withdraw(&mut store, &get_env(2), &info);
    assert_eq!(second, Err(ContractError::NothingToWithdraw {}));
}

#[test]
fn withdraw_of_an_unknown_participant_is_refused() {
    let mut store = default_instantiate(mock_env());
    let info = mock_info(USER1, &[uusd(1000000)]);
    assert_eq!(
        execute_withdraw(&mut store, &get_env(2), &info),
        Err(ContractError::MemberNotFound {})
    );
}

#[test]
fn sole_staker_captures_the_full_emission() {
    let d = 1000;
    let (a1, a2) = (5_000_000, 3_000_000);
    let mut store = plain_store(
        vec![
            Schedule { amount: a1, start_time: 100, end_time: 100 + d },
            Schedule { amount: a2, start_time: 100 + d, end_time: 100 + 2 * d },
        ],
        0,
        0,
    );
    bond(&mut store, USER1, 50, 100).unwrap();
    assert_eq!(info_of(&store, USER1, &Env { time: 100 }).reward, 0);
    assert_eq!(info_of(&store, USER1, &Env { time: 100 + d }).reward, a1);
    assert_eq!(info_of(&store, USER1, &Env { time: 100 + 2 * d }).reward, a1 + a2);
    assert_eq!(info_of(&store, USER1, &Env { time: 100 + 5 * d }).reward, a1 + a2);
}

#[test]
fn sole_staker_is_paid_a_whole_segment() {
    let mut store = plain_store(
        vec![Schedule { amount: 150_000_000_000, start_time: START, end_time: START + WEEK }],
        0,
        0,
    );
    bond(&mut store, USER1, 1, START).unwrap();
    assert_eq!(info_of(&store, USER1, &Env { time: START + WEEK }).reward, 150_000_000_000);
    let res =
        execute_withdraw(&mut store, &Env { time: START + 2 * WEEK }, &mock_info(USER1, &[])).unwrap();
    assert_eq!(transfers(&res), vec![150_000_000_000]);
}

#[test]
fn settlement_in_between_costs_at_most_one_unit() {
    let schedule = || vec![Schedule { amount: 100, start_time: 100, end_time: 300 }];
    let mut store = plain_store(schedule(), 0, 0);
    bond(&mut store, USER1, 1, 100).unwrap();
    bond(&mut store, USER2, 1, 100).unwrap();
    // the index is 12.5 at 150: half a unit is cut off for the one who withdraws
    execute_withdraw(&mut store, &Env { time: 150 }, &mock_info(USER1, &[])).unwrap();
    let one = info_of(&store, USER1, &Env { time: 200 });
    let other = info_of(&store, USER2, &Env { time: 200 });
    assert_eq!((one.reward, other.reward), (24, 25));
    assert_eq!((one.stake, one.reward_index), (other.stake, other.reward_index));
    // without a settlement in between both are shown the same
    let mut store = plain_store(schedule(), 0, 0);
    bond(&mut store, USER1, 1, 100).unwrap();
    bond(&mut store, USER2, 1, 100).unwrap();
    assert_eq!(
        info_of(&store, USER1, &Env { time: 200 }).reward,
        info_of(&store, USER2, &Env { time: 200 }).reward
    );
}

#[test]
fn claim_waits_for_the_unbonding_period() {
    let (p, t, x) = (600u64, 5000u64, 40u128);
    let mut store = plain_store(vec![], p, 0);
    bond(&mut store, USER1, 100, 1000).unwrap();
    let info = mock_info(USER1, &[]);
    execute_unbond(&mut store, &Env { time: t }, &info, x).unwrap();
    assert_eq!(
        info_of(&store, USER1, &Env { time: t }).claims,
        vec![Claim { amount: x, release_at: t + p }]
    );
    assert_eq!(info_of(&store, USER1, &Env { time: t }).stake, 60);

    assert_eq!(
        execute_claim(&mut store, &Env { time: t + p - 1 }, &info),
        Err(ContractError::NothingToClaim {})
    );
    assert_eq!(info_of(&store, USER1, &Env { time: t }).claims.len(), 1);

    let res = execute_claim(&mut store, &Env { time: t + p }, &info).unwrap();
    assert_eq!(
        res.messages,
        vec![Msg::Transfer {
            token: STAKING_TOKEN_ADDRESS.to_string(),
            recipient: USER1.to_string(),
            amount: x,
        }]
    );
    assert_eq!(info_of(&store, USER1, &Env { time: t + p }).claims, vec![]);
    assert_eq!(
        execute_claim(&mut store, &Env { time: t + p }, &info),
        Err(ContractError::NothingToClaim {})
    );
}

#[test]
fn claim_releases_matured_entries_and_keeps_the_others() {
    let mut store = plain_store(vec![], 100, 0);
    bond(&mut store, USER1, 1000, 10).unwrap();
    let info = mock_info(USER1, &[]);
    execute_unbond(&mut store, &Env { time: 20 }, &info, 1).unwrap();
    execute_unbond(&mut store, &Env { time: 50 }, &info, 2).unwrap();
    execute_unbond(&mut store, &Env { time: 50 }, &info, 4).unwrap();
    execute_unbond(&mut store, &Env { time: 60 }, &info, 8).unwrap();
    let res = execute_claim(&mut store, &Env { time: 150 }, &info).unwrap();
    assert_eq!(
        res.messages,
        vec![Msg::Transfer {
            token: STAKING_TOKEN_ADDRESS.to_string(),
            recipient: USER1.to_string(),
            amount: 7,
        }]
    );
    assert_eq!(
        info_of(&store, USER1, &Env { time: 150 }).claims,
        vec![Claim { amount: 8, release_at: 160 }]
    );
}

#[test]
fn instant_claim_takes_the_penalty_and_drains_the_queue() {
    let mut store = plain_store(vec![], 1_000_000, 10);
    bond(&mut store, USER1, 5000, 10).unwrap();
    let info = mock_info(USER1, &[]);
    execute_unbond(&mut store, &Env { time: 20 }, &info, 300).unwrap();
    execute_unbond(&mut store, &Env { time: 900 }, &info, 700).unwrap();
    let res = execute_instant_claim(&mut store, &Env { time: 1000 }, &info).unwrap();
    assert_eq!(
        res.messages,
        vec![
            Msg::Transfer {
                token: STAKING_TOKEN_ADDRESS.to_string(),
                recipient: USER1.to_string(),
                amount: 900,
            },
            Msg::Transfer {
                token: STAKING_TOKEN_ADDRESS.to_string(),
                recipient: BURN_ADDRESS.to_string(),
                amount: 100,
            },
        ]
    );
    assert_eq!(info_of(&store, USER1, &Env { time: 1000 }).claims, vec![]);
    assert_eq!(
        execute_instant_claim(&mut store, &Env { time: 1000 }, &info),
        Err(ContractError::NothingToClaim {})
    );
}

#[test]
fn instant_claim_rounds_the_penalty_down() {
    let mut store = plain_store(vec![], 50, 33);
    bond(&mut store, USER1, 5000, 10).unwrap();
    let info = mock_info(USER1, &[]);
    execute_unbond(&mut store, &Env { time: 20 }, &info, 10).unwrap();
    let res = execute_instant_claim(&mut store, &Env { time: 20 }, &info).unwrap();
    match &res.messages[..] {
        [Msg::Transfer { amount: net, .. }, Msg::Transfer { amount: fee, .. }] => {
            assert_eq!((*net, *fee), (7, 3));
        }
        _ => panic!("two transfers are expected"),
    }
}

#[test]
fn instant_claim_with_a_penalty_over_one_hundred_percent_is_refused() {
    let mut store = plain_store(vec![], 50, 101);
    bond(&mut store, USER1, 5000, 10).unwrap();
    let info = mock_info(USER1, &[]);
    execute_unbond(&mut store, &Env { time: 20 }, &info, 100).unwrap();
    assert_eq!(
        execute_instant_claim(&mut store, &Env { time: 20 }, &info),
        Err(ContractError::Std(StdError::Overflow))
    );
    assert_eq!(info_of(&store, USER1, &Env { time: 20 }).claims.len(), 1);
}

#[test]
fn total_stake_is_the_sum_of_the_stakes() {
    let mut store = plain_store(
        vec![Schedule { amount: 1_000_000, start_time: 0, end_time: 1000 }],
        10,
        0,
    );
    assert_eq!(query_state(&store).total_stake, total_of_stakes(&store));
    bond(&mut store, USER1, 700, 10).unwrap();
    bond(&mut store, USER2, 50, 20).unwrap();
    assert_eq!(query_state(&store).total_stake, 750);
    assert_eq!(query_state(&store).total_stake, total_of_stakes(&store));
    execute_unbond(&mut store, &Env { time: 30 }, &mock_info(USER1, &[]), 200).unwrap();
    bond(&mut store, USER3, 1, 40).unwrap();
    execute_unbond(&mut store, &Env { time: 50 }, &mock_info(USER2, &[]), 50).unwrap();
    assert_eq!(query_state(&store).total_stake, 501);
    assert_eq!(query_state(&store).total_stake, total_of_stakes(&store));
    assert_eq!(query_state(&store).num_of_members, 3);
}

#[test]
fn reward_index_never_decreases() {
    let mut store = plain_store(
        vec![Schedule { amount: 1_000_000, start_time: 0, end_time: 1000 }],
        10,
        0,
    );
    let mut last = query_state(&store).global_reward_index.atomics;
    bond(&mut store, USER1, 700, 10).unwrap();
    for (step, time) in [20u64, 20, 500, 999, 1000, 4000].iter().enumerate() {
        if step % 2 == 0 {
            bond(&mut store, USER2, 3, *time).unwrap();
        } else {
            execute_unbond(&mut store, &Env { time: *time }, &mock_info(USER1, &[]), 100).unwrap();
        }
        let now = query_state(&store).global_reward_index.atomics;
        assert!(now >= last);
        last = now;
    }
    // 1000 per second: 10 seconds on 700, then on 703, 603, 606, 506, 509
    assert_eq!(query_state(&store).global_reward_index, Decimal { atomics: 1_635_714_242_602_530_393_021 });
}

#[test]
fn equal_deposits_at_the_same_time_accrue_equally() {
    let mut store = plain_store(
        vec![Schedule { amount: 1_000_000, start_time: 0, end_time: 1000 }],
        10,
        0,
    );
    bond(&mut store, USER3, 999, 5).unwrap();
    bond(&mut store, USER1, 123, 100).unwrap();
    bond(&mut store, USER2, 123, 100).unwrap();
    for time in [100u64, 101, 333, 1000, 5000] {
        let one = info_of(&store, USER1, &Env { time });
        let other = info_of(&store, USER2, &Env { time });
        assert_eq!(one.reward, other.reward);
        assert_eq!(one, other);
    }
    assert_eq!(info_of(&store, USER1, &Env { time: 333 }).reward, 23_019);
}

#[test]
fn query_member_is_idempotent() {
    let mut store = default_instantiate(mock_env());
    bond_cw20(&mut store, 12_000, 7_500, 500, 1);
    let before = query_state(&store);
    let one = query_member(&store, &get_env(7), USER2.into());
    let other = query_member(&store, &get_env(7), USER2.into());
    assert_eq!(one, other);
    assert_eq!(query_state(&store), before);
}

#[test]
fn no_reward_accrues_while_nothing_is_staked() {
    let mut store = plain_store(
        vec![
            Schedule { amount: 1_000, start_time: 100, end_time: 200 },
            Schedule { amount: 5_000, start_time: 200, end_time: 300 },
        ],
        0,
        0,
    );
    // a settlement before the first segment, then nothing staked during it
    bond(&mut store, USER1, 10, 50).unwrap();
    execute_unbond(&mut store, &Env { time: 60 }, &mock_info(USER1, &[]), 10).unwrap();
    bond(&mut store, USER2, 10, 200).unwrap();
    assert_eq!(query_state(&store).global_reward_index, Decimal { atomics: 0 });
    assert_eq!(info_of(&store, USER1, &Env { time: 300 }).reward, 0);
    assert_eq!(info_of(&store, USER2, &Env { time: 300 }).reward, 5_000);
    bond(&mut store, USER1, 10, 300).unwrap();
    assert_eq!(info_of(&store, USER1, &Env { time: 400 }).reward, 0);
}

#[test]
fn the_first_deposit_sets_the_baseline_without_credit() {
    let mut store = plain_store(
        vec![Schedule { amount: 1_000, start_time: 0, end_time: 100 }],
        0,
        0,
    );
    bond(&mut store, USER1, 10, 50).unwrap();
    assert_eq!(query_state(&store).last_updated, 50);
    assert_eq!(info_of(&store, USER1, &Env { time: 50 }).reward, 0);
    assert_eq!(info_of(&store, USER1, &Env { time: 100 }).reward, 500);
}

#[test]
fn bond_of_zero_tokens_is_refused() {
    let mut store = default_instantiate(mock_env());
    assert_eq!(
        bond(&mut store, USER1, 0, START),
        Err(ContractError::InvalidZeroAmount {})
    );
    assert_eq!(get_member(&store, USER1.into()), None);
}

#[test]
fn bond_of_another_token_is_refused() {
    let mut store = default_instantiate(mock_env());
    let res = execute_bond(
        &mut store,
        &mock_env(),
        Balance::Cw20 { address: "other".to_string(), amount: 5 },
        USER1.to_string(),
    );
    assert_eq!(res, Err(ContractError::InvalidToken("other".to_string())));
    let res = execute_bond(&mut store, &mock_env(), Balance::Native(vec![uusd(5)]), USER1.to_string());
    assert_eq!(res, Err(ContractError::MissedToken {}));
}

#[test]
fn bond_that_overflows_the_stake_is_refused() {
    let mut store = plain_store(vec![], 0, 0);
    bond(&mut store, USER1, u128::MAX, 10).unwrap();
    assert_eq!(bond(&mut store, USER1, 1, 10), Err(ContractError::Std(StdError::Overflow)));
    assert_eq!(bond(&mut store, USER2, 1, 10), Err(ContractError::Std(StdError::Overflow)));
    assert_eq!(query_state(&store).total_stake, u128::MAX);
    assert_eq!(query_state(&store).num_of_members, 1);
}

#[test]
fn unbond_more_than_the_stake_is_refused() {
    let mut store = plain_store(vec![], 0, 0);
    bond(&mut store, USER1, 10, 10).unwrap();
    let info = mock_info(USER1, &[]);
    assert_eq!(
        execute_unbond(&mut store, &Env { time: 20 }, &info, 11),
        Err(ContractError::InsufficientStake {})
    );
    assert_eq!(
        execute_unbond(&mut store, &Env { time: 20 }, &mock_info(USER2, &[]), 1),
        Err(ContractError::MemberNotFound {})
    );
    assert_eq!(info_of(&store, USER1, &Env { time: 20 }).stake, 10);
    assert_eq!(query_state(&store).last_updated, 10);
}

#[test]
fn unbond_keeps_the_accrued_reward() {
    let mut store = plain_store(
        vec![Schedule { amount: 1_000, start_time: 0, end_time: 100 }],
        0,
        0,
    );
    bond(&mut store, USER1, 10, 10).unwrap();
    execute_unbond(&mut store, &Env { time: 60 }, &mock_info(USER1, &[]), 10).unwrap();
    let member = info_of(&store, USER1, &Env { time: 100 });
    assert_eq!((member.stake, member.reward), (0, 500));
}

#[test]
fn unbond_whose_maturity_overflows_is_refused() {
    let mut store = plain_store(vec![], u64::MAX, 0);
    bond(&mut store, USER1, 10, 10).unwrap();
    assert_eq!(
        execute_unbond(&mut store, &Env { time: 20 }, &mock_info(USER1, &[]), 1),
        Err(ContractError::Std(StdError::Overflow))
    );
}

#[test]
fn fee_must_be_paid_exactly() {
    let mut store = default_instantiate(mock_env());
    bond_cw20(&mut store, 12_000, 7_500, 500, 1);
    let env = get_env(2);
    let unbond = |store: &mut Store, funds: &[Coin]| {
        execute_unbond(store, &env, &mock_info(USER1, funds), 1)
    };
    assert_eq!(unbond(&mut store, &[]), Err(ContractError::Payment(PaymentError::NoFunds {})));
    assert_eq!(
        unbond(&mut store, &[uusd(0)]),
        Err(ContractError::Payment(PaymentError::NoFunds {}))
    );
    assert_eq!(
        unbond(&mut store, &[uusd(1000000), uusd(1)]),
        Err(ContractError::Payment(PaymentError::MultipleDenoms {}))
    );
    assert_eq!(
        unbond(&mut store, &[Coin { denom: "uluna".to_string(), amount: 1000000 }]),
        Err(ContractError::Payment(PaymentError::MissingDenom("uusd".to_string())))
    );
    assert_eq!(unbond(&mut store, &[uusd(999999)]), Err(ContractError::InvalidFeeAmount {}));
    assert_eq!(unbond(&mut store, &[uusd(1000001)]), Err(ContractError::InvalidFeeAmount {}));
    assert_eq!(info_of(&store, USER1, &env).stake, 12_000);
    assert!(unbond(&mut store, &[uusd(1000000)]).is_ok());
    assert_eq!(info_of(&store, USER1, &env).stake, 11_999);
}

#[test]
fn operation_without_a_configured_fee_is_free() {
    let mut store = default_instantiate(mock_env());
    let owner = mock_info(INIT_ADMIN, &[]);
    let only_claim = NewConfig {
        owner: None,
        staking_token: None,
        unbonding_period: None,
        burn_address: None,
        instant_claim_percentage_loss: None,
        distribution_schedule: None,
        fee_config: Some(vec![fee("claim"), FeeConfig {
            fee: 0,
            operation: "withdraw".to_string(),
            denom: "uusd".to_string(),
        }]),
    };
    execute_update_config(&mut store, &owner, only_claim).unwrap();
    bond_cw20(&mut store, 12_000, 7_500, 500, 1);
    assert!(execute_unbond(&mut store, &get_env(2), &mock_info(USER1, &[]), 1).is_ok());
    assert!(execute_withdraw(&mut store, &get_env(2), &mock_info(USER2, &[])).is_ok());
    assert_eq!(
        execute_claim(&mut store, &get_env(2000), &mock_info(USER1, &[])),
        Err(ContractError::Payment(PaymentError::NoFunds {}))
    );
}

#[test]
fn later_fee_entry_overrides_an_earlier_one() {
    let mut store = plain_store(vec![], 0, 0);
    store.config.fee_config = vec![
        FeeConfig { fee: 5, operation: "unbond".to_string(), denom: "uusd".to_string() },
        FeeConfig { fee: 7, operation: "unbond".to_string(), denom: "uluna".to_string() },
    ];
    bond(&mut store, USER1, 10, 10).unwrap();
    let env = Env { time: 20 };
    assert_eq!(
        execute_unbond(&mut store, &env, &mock_info(USER1, &[uusd(5)]), 1),
        Err(ContractError::Payment(PaymentError::MissingDenom("uluna".to_string())))
    );
    let luna = Coin { denom: "uluna".to_string(), amount: 7 };
    assert!(execute_unbond(&mut store, &env, &mock_info(USER1, &[luna]), 1).is_ok());
}

#[test]
fn update_config_is_for_the_owner() {
    let mut store = default_instantiate(mock_env());
    let change = || NewConfig {
        owner: Some("next".to_string()),
        staking_token: None,
        unbonding_period: Some(5),
        burn_address: None,
        instant_claim_percentage_loss: Some(3),
        distribution_schedule: Some(vec![]),
        fee_config: None,
    };
    assert_eq!(
        execute_update_config(&mut store, &mock_info(USER1, &[]), change()),
        Err(ContractError::Unauthorized {})
    );
    assert_eq!(query_config(&store).owner, INIT_ADMIN);
    execute_update_config(&mut store, &mock_info(INIT_ADMIN, &[]), change()).unwrap();
    let config = query_config(&store);
    assert_eq!(config.owner, "next");
    assert_eq!(config.staking_token, STAKING_TOKEN_ADDRESS);
    assert_eq!(config.unbonding_period, 5);
    assert_eq!(config.instant_claim_percentage_loss, 3);
    assert_eq!(config.distribution_schedule, vec![]);
    assert_eq!(config.fee_config.len(), 4);
}

#[test]
fn owner_withdraws_coins_and_tokens() {
    let mut store = default_instantiate(mock_env());
    let env = mock_env();
    let coins = || ExecuteMsg::UstWithdraw { recipient: USER1.to_string(), amount: 9 };
    let tokens = || ExecuteMsg::TokenWithdraw {
        token: "token".to_string(),
        recipient: USER2.to_string(),
        balance: 77,
    };
    assert_eq!(
        execute(&mut store, &env, mock_info(USER1, &[]), coins()),
        Err(ContractError::Unauthorized {})
    );
    assert_eq!(
        execute(&mut store, &env, mock_info(USER1, &[]), tokens()),
        Err(ContractError::Unauthorized {})
    );
    assert_eq!(
        execute(&mut store, &env, mock_info(INIT_ADMIN, &[]), coins()).unwrap().messages,
        vec![Msg::Send { to_address: USER1.to_string(), denom: "uusd".to_string(), amount: 9 }]
    );
    assert_eq!(
        execute(&mut store, &env, mock_info(INIT_ADMIN, &[]), tokens()).unwrap().messages,
        vec![Msg::Transfer {
            token: "token".to_string(),
            recipient: USER2.to_string(),
            amount: 77,
        }]
    );
}

#[test]
fn migrate_accepts_its_own_name_only() {
    assert!(migrate("crates.io:fcq-staking".to_string(), MigrateMsg {}).is_ok());
    assert_eq!(
        migrate("crates.io:airdrop".to_string(), MigrateMsg {}),
        Err(ContractError::CannotMigrate { previous_contract: "crates.io:airdrop".to_string() })
    );
}

#[test]
fn members_are_listed_in_order_of_their_addresses() {
    let mut store = default_instantiate(mock_env());
    bond_cw20(&mut store, 12_000, 7_500, 500, 1);
    let addresses = |start_after: Option<&str>, limit: Option<u32>| -> Vec<String> {
        query_member_list(&store, &get_env(2), start_after.map(|s| s.to_string()), limit)
            .unwrap()
            .members
            .into_iter()
            .map(|m| m.address)
            .collect()
    };
    assert_eq!(addresses(None, None), vec![USER2, USER3, USER1]);
    assert_eq!(addresses(None, Some(2)), vec![USER2, USER3]);
    assert_eq!(addresses(Some(USER2), Some(1)), vec![USER3]);
    assert_eq!(addresses(Some("f"), None), vec![USER3, USER1]);
    assert_eq!(addresses(Some(USER1), None), Vec::<String>::new());
    assert_eq!(addresses(None, Some(0)), Vec::<String>::new());
    let page = query_member_list(&store, &get_env(2), None, None).unwrap();
    assert_eq!(page.members[2].info.reward, 892_857);
    assert_eq!(page.members[0].info.stake, 7_500);
}

#[test]
fn listing_is_capped_at_thirty_and_defaults_to_ten() {
    let mut store = plain_store(vec![], 0, 0);
    for i in 0..40 {
        bond(&mut store, &format!("user{:02}", i), 1, 10).unwrap();
    }
    let len = |limit: Option<u32>| {
        query_member_list(&store, &Env { time: 10 }, None, limit).unwrap().members.len()
    };
    assert_eq!(len(None), 10);
    assert_eq!(len(Some(30)), 30);
    assert_eq!(len(Some(1000)), 30);
    let page = query_member_list(&store, &Env { time: 10 }, Some("user09".to_string()), None).unwrap();
    assert_eq!(page.members[0].address, "user10");
    assert_eq!(page.members[9].address, "user19");
}

#[test]
fn member_info_defaults_to_nothing() {
    assert_eq!(
        MemberInfo::default(),
        MemberInfo { stake: 0, pending_reward: 0, reward_index: Decimal { atomics: 0 }, withdrawn: 0 }
    );
    assert_eq!(Schedule::default(), Schedule { amount: 0, start_time: 0, end_time: 0 });
}

#[test]
fn checkpoints_never_pass_the_index_nor_withdrawals_the_reward() {
    let mut store = plain_store(
        vec![Schedule { amount: 1_000_000, start_time: 0, end_time: 1000 }],
        10,
        0,
    );
    let sound = |store: &Store| {
        let index = store.state.global_reward_index.atomics;
        (0..store.accounts.len()).all(|i| {
            let member = store.accounts.value_at(i).info;
            member.reward_index.atomics <= index && member.withdrawn <= member.pending_reward
        })
    };
    bond(&mut store, USER1, 700, 10).unwrap();
    assert!(sound(&store));
    bond(&mut store, USER2, 50, 20).unwrap();
    assert!(sound(&store));
    execute_withdraw(&mut store, &Env { time: 30 }, &mock_info(USER1, &[])).unwrap();
    assert!(sound(&store));
    execute_unbond(&mut store, &Env { time: 40 }, &mock_info(USER2, &[]), 50).unwrap();
    assert!(sound(&store));
    execute_claim(&mut store, &Env { time: 50 }, &mock_info(USER2, &[])).unwrap();
    assert!(sound(&store));
    execute_withdraw(&mut store, &Env { time: 2000 }, &mock_info(USER2, &[])).unwrap();
    assert!(sound(&store));
    assert_eq!(store.accounts.value_at(0).info.withdrawn, 1_333);
    assert_eq!(store.accounts.value_at(1).info.withdrawn, 19_333);
}

#[test]
fn queries_are_answered_by_their_kind() {
    let mut store = default_instantiate(mock_env());
    bond_cw20(&mut store, 12_000, 7_500, 500, 1);
    match query(&store, &get_env(2), QueryMsg::Config {}) {
        Ok(QueryResponse::Config(config)) => assert_eq!(config.burn_address, BURN_ADDRESS),
        _ => panic!("the configuration is expected"),
    }
    match query(&store, &get_env(2), QueryMsg::State {}) {
        Ok(QueryResponse::State(state)) => {
            assert_eq!(state.total_stake, 20_000);
            assert_eq!(state.last_updated, START + 6);
            assert_eq!(state.num_of_members, 3);
        }
        _ => panic!("the state is expected"),
    }
    match query(&store, &get_env(2), QueryMsg::ListMembers { start_after: None, limit: Some(1) }) {
        Ok(QueryResponse::ListMembers(page)) => {
            assert_eq!(page.members.len(), 1);
            assert_eq!(page.members[0].address, USER2);
            assert_eq!(page.members[0].info.reward, 558_035);
        }
        _ => panic!("a listing is expected"),
    }
    match query(&store, &get_env(2), QueryMsg::Member { address: USER3.to_string() }) {
        Ok(QueryResponse::Member(answer)) => {
            assert_eq!(
                answer.member,
                Some(MemberResponseItem {
                    stake: 500,
                    reward: 37_202,
                    reward_index: Decimal { atomics: 74_404_750_000_000_000_000 },
                    withdrawn: 0,
                    claims: vec![],
                })
            );
        }
        _ => panic!("a member is expected"),
    }
}

#[test]
fn query_that_overflows_is_refused() {
    let mut store = plain_store(
        vec![Schedule { amount: u128::MAX, start_time: 10, end_time: 11 }],
        0,
        0,
    );
    bond(&mut store, USER1, 1, 5).unwrap();
    assert!(query_member(&store, &Env { time: 10 }, USER1.to_string()).is_ok());
    assert_eq!(
        query_member(&store, &Env { time: 11 }, USER1.to_string()),
        Err(StdError::Overflow)
    );
    assert_eq!(query_member_list(&store, &Env { time: 11 }, None, None), Err(StdError::Overflow));
    assert_eq!(
        bond(&mut store, USER1, 1, 11),
        Err(ContractError::Std(StdError::Overflow))
    );
    assert_eq!(query_state(&store).last_updated, 5);
}

#[test]
fn both_claim_paths_settle_the_sender_first() {
    let mut store = plain_store(
        vec![Schedule { amount: 1_000, start_time: 0, end_time: 100 }],
        10,
        50,
    );
    bond(&mut store, USER1, 10, 10).unwrap();
    let info = mock_info(USER1, &[]);
    execute_unbond(&mut store, &Env { time: 20 }, &info, 4).unwrap();
    execute_unbond(&mut store, &Env { time: 20 }, &info, 2).unwrap();
    // a refused claim settles nothing
    assert_eq!(
        execute_claim(&mut store, &Env { time: 25 }, &info),
        Err(ContractError::NothingToClaim {})
    );
    assert_eq!(query_state(&store).last_updated, 20);
    execute_claim(&mut store, &Env { time: 30 }, &info).unwrap();
    assert_eq!(query_state(&store).last_updated, 30);
    assert_eq!(
        query_state(&store).global_reward_index,
        Decimal { atomics: 35_000_000_000_000_000_000 }
    );
    let member = store.accounts.value_at(0).info;
    assert_eq!((member.stake, member.pending_reward), (4, 100 + 100));
    assert_eq!(member.reward_index, query_state(&store).global_reward_index);

    execute_unbond(&mut store, &Env { time: 30 }, &info, 1).unwrap();
    let res = execute_instant_claim(&mut store, &Env { time: 40 }, &info).unwrap();
    assert_eq!(transfers(&res), vec![1, 0]);
    assert_eq!(query_state(&store).last_updated, 40);
    let member = store.accounts.value_at(0).info;
    assert_eq!((member.stake, member.pending_reward), (3, 299));
    assert_eq!(query_state(&store).total_stake, 3);
}

fn transfers(res: &Response) -> Vec<u128> {
    res.messages
        .iter()
        .map(|msg| match msg {
            Msg::Transfer { amount, .. } => *amount,
            Msg::Send { amount, .. } => *amount,
        })
        .collect()
}
