//! Tests of the vesting engine: instantiation, grant registration, claims,
//! deregistration, withdrawal, and queries.

use token_vesting::contract::{
    claim, deregister_vesting_accounts, execute, instantiate, query, reward_users, withdraw,
};
use token_vesting::errors::{ContractError, StdError, VestingError};
use token_vesting::msgs::{
    Attribute, BankTransfer, Coin, Denom, ExecuteMsg, InstantiateMsg, QueryAnswer, QueryMsg,
    RewardUserRequest, VestingAccountResponse, VestingData, VestingScheduleQueryOutput,
};
use token_vesting::contract::VestingContract;
use token_vesting::schedule::VestingSchedule;

fn coin(amount: u128, denom: &str) -> Coin {
    Coin { denom: denom.to_string(), amount }
}

fn attr(key: &str, value: &str) -> Attribute {
    Attribute { key: key.to_string(), value: value.to_string() }
}

fn schedule(start: u64, cliff: u64, end: u64) -> VestingSchedule {
    VestingSchedule::LinearVestingWithCliff {
        start_time: start,
        end_time: end,
        cliff_time: cliff,
    }
}

fn reward(addr: &str, vesting: u128, cliff: u128) -> RewardUserRequest {
    RewardUserRequest {
        user_address: addr.to_string(),
        vesting_amount: vesting,
        cliff_amount: cliff,
    }
}

fn setup(deposit: u128, denom: &str, admin: &str, managers: &[&str]) -> VestingContract {
    instantiate(
        InstantiateMsg {
            admin: admin.to_string(),
            managers: managers.iter().map(|m| m.to_string()).collect(),
        },
        vec![coin(deposit, denom)],
    )
    .expect("instantiation should succeed")
}

/// Instantiates the engine with a 5000 `token` deposit, an admin, and one
/// manager.
fn setup_with_block_time() -> VestingContract {
    setup(5000, "token", "admin-sender", &["manager-sender"])
}

fn require_error(c: &mut VestingContract, now: u64, sender: &str, msg: ExecuteMsg, expected: ContractError) {
    let res = execute(c, now, &sender.to_string(), msg);
    match res {
        Err(err) => assert_eq!(err, expected),
        Ok(_) => panic!("Expected error but got success: {res:?}"),
    }
}

#[test]
fn proper_initialization() {
    let msg = InstantiateMsg {
        admin: "admin-sender".to_string(),
        managers: vec!["admin-sender".to_string()],
    };
    let res = instantiate(msg, vec![coin(1000, "nibi")]);
    assert!(res.is_ok());
}

#[test]
fn invalid_coin_sent_instantiation() {
    let msg = InstantiateMsg {
        admin: "admin-sender".to_string(),
        managers: vec!["admin-sender".to_string()],
    };

    // No coins sent
    let res = instantiate(msg.clone(), vec![]);
    assert_eq!(
        res.unwrap_err(),
        StdError::GenericErr { msg: "must deposit exactly one type of token".to_string() }
    );

    // 2 coins sent
    let res = instantiate(msg.clone(), vec![coin(1000, "nibi"), coin(1000, "usd")]);
    assert_eq!(
        res.unwrap_err(),
        StdError::GenericErr { msg: "must deposit exactly one type of token".to_string() }
    );

    // 0 amount coins sent
    let res = instantiate(msg, vec![coin(0, "nibi")]);
    assert_eq!(
        res.unwrap_err(),
        StdError::GenericErr { msg: "must deposit some token".to_string() }
    );
}

#[test]
fn invalid_manangers_initialization() {
    let too_short =
        "Invalid input: human address too short for this mock implementation (must be >= 3).";

    let msg = InstantiateMsg { admin: "admin-sender".to_string(), managers: vec![] };
    let res = instantiate(msg, vec![coin(1000, "nibi")]);
    assert_eq!(
        res.unwrap_err(),
        StdError::GenericErr { msg: "managers cannot be empty".to_string() }
    );

    let msg = InstantiateMsg { admin: "admin-sender".to_string(), managers: vec!["".to_string()] };
    let res = instantiate(msg, vec![coin(1000, "nibi")]);
    assert_eq!(res.unwrap_err(), StdError::GenericErr { msg: too_short.to_string() });

    let msg = InstantiateMsg {
        admin: "admin-sender".to_string(),
        managers: vec!["admin-sender".to_string(), "".to_string()],
    };
    let res = instantiate(msg, vec![coin(1000, "nibi")]);
    assert_eq!(res.unwrap_err(), StdError::GenericErr { msg: too_short.to_string() });

    let msg = InstantiateMsg { admin: "".to_string(), managers: vec!["admin-sender".to_string()] };
    let res = instantiate(msg, vec![coin(1000, "nibi")]);
    assert_eq!(res.unwrap_err(), StdError::GenericErr { msg: too_short.to_string() });
}

#[test]
fn invalid_managers() {
    let msg = InstantiateMsg {
        admin: "admin-sender".to_string(),
        managers: vec!["admin-manager".to_string()],
    };

    // No coins sent
    let res = instantiate(msg.clone(), vec![]);
    assert_eq!(
        res.unwrap_err(),
        StdError::GenericErr { msg: "must deposit exactly one type of token".to_string() }
    );

    // 2 coins sent
    let res = instantiate(msg, vec![coin(1000, "nibi"), coin(1000, "usd")]);
    assert_eq!(
        res.unwrap_err(),
        StdError::GenericErr { msg: "must deposit exactly one type of token".to_string() }
    );
}

fn reward_msg(
    start: u64,
    end: u64,
    vesting: u128,
    cliff_amount: u128,
    cliff_time: u64,
) -> ExecuteMsg {
    ExecuteMsg::RewardUsers {
        rewards: vec![reward("addr0001", vesting, cliff_amount)],
        vesting_schedule: schedule(start, cliff_time, end),
    }
}

#[test]
fn register_cliff_vesting_account_with_native_token() {
    let mut c = setup(2000, "uusd", "addr0000", &["admin-sender"]);
    let now = 100;

    // unauthorized sender
    require_error(
        &mut c,
        now,
        "addr0042",
        reward_msg(100, 110, 0, 1000, 105),
        ContractError::Std(StdError::generic_err(
            "Sender addr0042 is unauthorized to reward users.".to_string(),
        )),
    );

    // zero amount vesting token
    require_error(
        &mut c,
        now,
        "addr0000",
        reward_msg(100, 110, 0, 1000, 105),
        ContractError::Vesting(VestingError::ZeroVestingAmount),
    );

    // cliff time less than start time
    require_error(
        &mut c,
        now,
        "addr0000",
        reward_msg(100, 110, 1000, 500, 99),
        ContractError::Vesting(VestingError::InvalidTimeRange {
            start_time: 100,
            cliff_time: 99,
            end_time: 110,
        }),
    );

    // end time less than start time
    require_error(
        &mut c,
        now,
        "addr0000",
        reward_msg(110, 100, 1000, 1000, 105),
        ContractError::Vesting(VestingError::InvalidTimeRange {
            start_time: 110,
            cliff_time: 105,
            end_time: 100,
        }),
    );

    // cliff amount greater than vesting amount
    require_error(
        &mut c,
        now,
        "addr0000",
        reward_msg(100, 110, 1000, 1001, 105),
        ContractError::Vesting(VestingError::ExcessiveAmount {
            cliff_amount: 1001,
            vesting_amount: 1000,
        }),
    );

    // deposit amount higher than unallocated
    require_error(
        &mut c,
        now,
        "addr0000",
        reward_msg(100, 110, 10000, 250, 105),
        ContractError::Std(StdError::generic_err(
            "Insufficient funds for all rewards. Contract has 2000 available but trying to allocate 10000"
                .to_string(),
        )),
    );

    // valid amount
    let res = execute(&mut c, now, &"addr0000".to_string(), reward_msg(100, 110, 1000, 250, 105))
        .expect("valid registration");
    assert_eq!(
        res.attributes,
        vec![
            attr("action", "register_vesting_account"),
            attr("address", "addr0001"),
            attr("vesting_amount", "1000"),
            attr("method", "reward_users"),
        ]
    );

    // duplicate recipients in one batch: both entries register as
    // independent accounts, each with its own attribute set
    let msg = ExecuteMsg::RewardUsers {
        rewards: vec![reward("addr0002", 500, 250), reward("addr0002", 500, 250)],
        vesting_schedule: schedule(100, 105, 110),
    };
    let res = execute(&mut c, now, &"addr0000".to_string(), msg).expect("batch registration");
    assert_eq!(
        res.attributes,
        vec![
            attr("action", "register_vesting_account"),
            attr("address", "addr0002"),
            attr("vesting_amount", "500"),
            attr("method", "reward_users"),
            attr("action", "register_vesting_account"),
            attr("address", "addr0002"),
            attr("vesting_amount", "500"),
            attr("method", "reward_users"),
        ]
    );
}

#[test]
fn test_withdraw() {
    let mut c = setup(2000, "uusd", "addr0000", &["admin-sender"]);
    let now = 100;

    let _res = execute(&mut c, now, &"addr0000".to_string(), reward_msg(100, 110, 1000, 250, 105))
        .expect("valid registration");

    // unauthorized sender
    require_error(
        &mut c,
        now,
        "addr0042",
        ExecuteMsg::Withdraw { amount: 1000 },
        ContractError::Std(StdError::generic_err("Unauthorized".to_string())),
    );

    // withdraw more than unallocated: clamped to what is available
    let res = execute(&mut c, now, &"addr0000".to_string(), ExecuteMsg::Withdraw { amount: 1001 })
        .expect("clamped withdrawal");
    assert_eq!(
        res.attributes,
        vec![
            attr("action", "withdraw"),
            attr("recipient", "addr0000"),
            attr("amount", "1000"),
            attr("unallocated_amount", "0"),
        ]
    );
    assert_eq!(
        res.messages,
        vec![BankTransfer { to_address: "addr0000".to_string(), amount: vec![coin(1000, "uusd")] }]
    );

    // withdraw but there's no more unallocated
    require_error(
        &mut c,
        now,
        "addr0000",
        ExecuteMsg::Withdraw { amount: 1 },
        ContractError::Std(StdError::generic_err("Nothing to withdraw".to_string())),
    );
}

#[test]
fn register_vesting_account_with_native_token() {
    let mut c = setup(1000, "uusd", "addr0000", &["admin-sender"]);
    let now = 100;

    // zero amount vesting token
    require_error(
        &mut c,
        now,
        "addr0000",
        ExecuteMsg::RewardUsers {
            rewards: vec![reward("addr0001", 0, 0)],
            vesting_schedule: schedule(100, 105, 110),
        },
        ContractError::Vesting(VestingError::ZeroVestingAmount),
    );

    // too much vesting amount
    let res = execute(
        &mut c,
        now,
        &"addr0000".to_string(),
        ExecuteMsg::RewardUsers {
            rewards: vec![reward("addr0001", 1000001, 0)],
            vesting_schedule: schedule(100, 105, 110),
        },
    );
    match res {
        Err(ContractError::Std(StdError::GenericErr { msg })) => assert_eq!(
            msg,
            "Insufficient funds for all rewards. Contract has 1000 available but trying to allocate 1000001"
        ),
        _ => panic!("should not enter. got result: {res:?}"),
    }

    // too much vesting amount in 2 rewards
    let res = execute(
        &mut c,
        now,
        &"addr0000".to_string(),
        ExecuteMsg::RewardUsers {
            rewards: vec![reward("addr0001", 1000, 0), reward("addr0001", 1, 0)],
            vesting_schedule: schedule(100, 105, 110),
        },
    );
    match res {
        Err(ContractError::Std(StdError::GenericErr { msg })) => assert_eq!(
            msg,
            "Insufficient funds for all rewards. Contract has 1000 available but trying to allocate 1001"
        ),
        _ => panic!("should not enter. got result: {res:?}"),
    }

    // valid amount
    let res = execute(
        &mut c,
        now,
        &"addr0000".to_string(),
        ExecuteMsg::RewardUsers {
            rewards: vec![reward("addr0001", 100, 0)],
            vesting_schedule: schedule(100, 105, 110),
        },
    )
    .expect("valid registration");
    assert_eq!(
        res.attributes,
        vec![
            attr("action", "register_vesting_account"),
            attr("address", "addr0001"),
            attr("vesting_amount", "100"),
            attr("method", "reward_users"),
        ]
    );

    // query vesting account
    let ans = query(
        &c,
        now,
        QueryMsg::VestingAccount {
            address: "addr0001".to_string(),
            start_after: None,
            limit: None,
        },
    )
    .expect("query should succeed");
    assert_eq!(
        ans,
        QueryAnswer::VestingAccount(VestingAccountResponse {
            address: "addr0001".to_string(),
            vestings: vec![VestingData {
                master_address: Some("addr0000".to_string()),
                vesting_amount: 100,
                vesting_schedule: VestingScheduleQueryOutput::LinearVestingWithCliff {
                    start_time: 100,
                    end_time: 110,
                    cliff_time: 105,
                    vesting_amount: 100,
                    cliff_amount: 0,
                },
                vesting_denom: Denom::Native("uusd".to_string()),
                vested_amount: 0,
                claimable_amount: 0,
            }],
        })
    );
}

#[test]
fn claim_native() {
    let mut c = setup(1000000, "uusd", "addr0000", &["admin-sender"]);

    let res = execute(
        &mut c,
        100,
        &"addr0000".to_string(),
        ExecuteMsg::RewardUsers {
            rewards: vec![reward("addr0001", 1000000, 500000)],
            vesting_schedule: schedule(100, 105, 110),
        },
    )
    .expect("valid registration");
    assert_eq!(
        res.attributes,
        vec![
            attr("action", "register_vesting_account"),
            attr("address", "addr0001"),
            attr("vesting_amount", "1000000"),
            attr("method", "reward_users"),
        ]
    );

    // make time to half claimable
    let res = execute(&mut c, 105, &"addr0001".to_string(), ExecuteMsg::Claim {})
        .expect("claim should succeed");
    assert_eq!(
        res.messages,
        vec![BankTransfer {
            to_address: "addr0001".to_string(),
            amount: vec![coin(500000, "uusd")],
        }]
    );
    assert_eq!(
        res.attributes,
        vec![
            attr("action", "claim"),
            attr("address", "addr0001"),
            attr("vesting_amount", "1000000"),
            attr("vested_amount", "500000"),
            attr("claim_amount", "500000"),
        ]
    );

    let ans = query(
        &c,
        105,
        QueryMsg::VestingAccount {
            address: "addr0001".to_string(),
            start_after: None,
            limit: None,
        },
    )
    .expect("query should succeed");
    assert_eq!(
        ans,
        QueryAnswer::VestingAccount(VestingAccountResponse {
            address: "addr0001".to_string(),
            vestings: vec![VestingData {
                master_address: Some("addr0000".to_string()),
                vesting_amount: 1000000,
                vesting_schedule: VestingScheduleQueryOutput::LinearVestingWithCliff {
                    start_time: 100,
                    end_time: 110,
                    cliff_time: 105,
                    vesting_amount: 1000000,
                    cliff_amount: 500000,
                },
                vesting_denom: Denom::Native("uusd".to_string()),
                vested_amount: 500000,
                claimable_amount: 0,
            }],
        })
    );

    // the rest vests by the end of the schedule
    let res = execute(&mut c, 110, &"addr0001".to_string(), ExecuteMsg::Claim {})
        .expect("claim should succeed");
    assert_eq!(
        res.messages,
        vec![BankTransfer {
            to_address: "addr0001".to_string(),
            amount: vec![coin(500000, "uusd")],
        }]
    );
    assert_eq!(
        res.attributes,
        vec![
            attr("action", "claim"),
            attr("address", "addr0001"),
            attr("vesting_amount", "1000000"),
            attr("vested_amount", "1000000"),
            attr("claim_amount", "500000"),
        ]
    );

    // the fully claimed account is pruned
    let ans = query(
        &c,
        110,
        QueryMsg::VestingAccount {
            address: "addr0001".to_string(),
            start_after: None,
            limit: None,
        },
    )
    .expect("query should succeed");
    assert_eq!(
        ans,
        QueryAnswer::VestingAccount(VestingAccountResponse {
            address: "addr0001".to_string(),
            vestings: vec![],
        })
    );
}

#[test]
fn deregister_err_nonexistent_vesting_account() {
    let mut c = setup_with_block_time();
    let res = execute(
        &mut c,
        50,
        &"manager-sender".to_string(),
        ExecuteMsg::DeregisterVestingAccounts { addresses: vec!["nonexistent".to_string()] },
    )
    .expect("deregistration reports per-address results");
    let items = res.data.expect("deregistration returns result data");
    assert!(!items[0].success);
    let error_msg = &items[0].error_msg;
    assert!(
        error_msg.contains(
            "Failed to deregister vesting account: Generic error: User nonexistent does not have a vesting account."
        ),
        "Unexpected error message {error_msg:?}"
    );
}

#[test]
fn deregister_err_unauthorized_vesting_account() {
    let mut c = setup_with_block_time();
    require_error(
        &mut c,
        50,
        "addr0042",
        ExecuteMsg::DeregisterVestingAccounts { addresses: vec!["addr0001".to_string()] },
        ContractError::Std(StdError::generic_err(
            "Sender addr0042 is not authorized to deregister vesting accounts.".to_string(),
        )),
    );
}

#[test]
fn deregister_successful() {
    let mut c = setup_with_block_time();

    execute(
        &mut c,
        105,
        &"admin-sender".to_string(),
        ExecuteMsg::RewardUsers {
            rewards: vec![reward("addr0001", 5000, 1250)],
            vesting_schedule: schedule(100, 105, 110),
        },
    )
    .expect("valid registration");

    // claim the vested part first
    execute(&mut c, 105, &"addr0001".to_string(), ExecuteMsg::Claim {})
        .expect("claim should succeed");

    // deregister with the manager address: the recipient is already
    // settled, so no transfer goes out and the unvested remainder returns
    // to the unallocated pool
    let res = execute(
        &mut c,
        105,
        &"manager-sender".to_string(),
        ExecuteMsg::DeregisterVestingAccounts { addresses: vec!["addr0001".to_string()] },
    )
    .expect("deregistration reports per-address results");
    let data = res.data.expect("deregistration returns result data");
    assert_eq!(data[0].user_address, "addr0001");
    assert!(data[0].success);
    assert_eq!(data[0].error_msg, "");
    assert_eq!(res.messages.len(), 0);
    assert_eq!(c.ledger.unallocated_amount, 3750);
}

#[test]
fn query_vesting_accounts() {
    let mut c = setup_with_block_time();

    execute(
        &mut c,
        105,
        &"admin-sender".to_string(),
        ExecuteMsg::RewardUsers {
            rewards: vec![reward("addr0001", 5000, 1250)],
            vesting_schedule: schedule(100, 105, 110),
        },
    )
    .expect("valid registration");

    let ans = query(&c, 105, QueryMsg::VestingAccounts { address: vec!["addr0001".to_string()] })
        .expect("query should succeed");
    let items = match ans {
        QueryAnswer::VestingAccounts(items) => items,
        other => panic!("unexpected answer: {other:?}"),
    };
    assert_eq!(
        items[0],
        VestingAccountResponse {
            address: "addr0001".to_string(),
            vestings: vec![VestingData {
                master_address: Some("admin-sender".to_string()),
                vesting_amount: 5000,
                vesting_schedule: VestingScheduleQueryOutput::LinearVestingWithCliff {
                    start_time: 100,
                    end_time: 110,
                    cliff_time: 105,
                    vesting_amount: 5000,
                    cliff_amount: 1250,
                },
                vesting_denom: Denom::Native("token".to_string()),
                vested_amount: 1250,
                claimable_amount: 1250,
            }],
        }
    );
}

#[test]
fn claim_is_idempotent_without_time_advance() {
    let mut c = setup(1000000, "uusd", "addr0000", &["admin-sender"]);
    execute(
        &mut c,
        100,
        &"addr0000".to_string(),
        ExecuteMsg::RewardUsers {
            rewards: vec![reward("addr0001", 1000000, 500000)],
            vesting_schedule: schedule(100, 105, 110),
        },
    )
    .expect("valid registration");

    let first = execute(&mut c, 105, &"addr0001".to_string(), ExecuteMsg::Claim {})
        .expect("first claim");
    assert_eq!(first.messages.len(), 1);

    let before = c.clone();
    let second = execute(&mut c, 105, &"addr0001".to_string(), ExecuteMsg::Claim {})
        .expect("second claim");
    assert_eq!(second.messages.len(), 0);
    assert_eq!(second.attributes.len(), 0);
    assert_eq!(c.ledger.unallocated_amount, before.ledger.unallocated_amount);
    assert_eq!(c.registry.entries.len(), before.registry.entries.len());
    assert_eq!(
        c.registry.entries[0].accounts[0].claimed_amount,
        before.registry.entries[0].accounts[0].claimed_amount
    );
}

#[test]
fn reward_query_scenario_cliff_then_linear() {
    // deposit 2000 uusd; grant 1000 with cliff amount 250 over
    // start=100, cliff=105, end=110
    let mut c = setup(2000, "uusd", "addr0000", &["admin-sender"]);
    execute(
        &mut c,
        100,
        &"addr0000".to_string(),
        ExecuteMsg::RewardUsers {
            rewards: vec![reward("addr000A", 1000, 250)],
            vesting_schedule: schedule(100, 105, 110),
        },
    )
    .expect("valid registration");

    let vested_at = |c: &VestingContract, now: u64| -> (u128, u128) {
        let ans = query(
            c,
            now,
            QueryMsg::VestingAccount {
                address: "addr000A".to_string(),
                start_after: None,
                limit: None,
            },
        )
        .expect("query should succeed");
        match ans {
            QueryAnswer::VestingAccount(resp) => {
                (resp.vestings[0].vested_amount, resp.vestings[0].claimable_amount)
            },
            other => panic!("unexpected answer: {other:?}"),
        }
    };

    assert_eq!(vested_at(&c, 100), (0, 0));
    assert_eq!(vested_at(&c, 105), (250, 250));
    // halfway through the linear region: 250 + 750 * 2 / 5 = 550
    assert_eq!(vested_at(&c, 107), (550, 550));
    assert_eq!(vested_at(&c, 110), (1000, 1000));
}

#[test]
fn excessive_cliff_leaves_ledger_unchanged() {
    let mut c = setup(2000, "uusd", "addr0000", &["admin-sender"]);
    require_error(
        &mut c,
        100,
        "addr0000",
        reward_msg(100, 110, 1000, 1001, 105),
        ContractError::Vesting(VestingError::ExcessiveAmount {
            cliff_amount: 1001,
            vesting_amount: 1000,
        }),
    );
    assert_eq!(c.ledger.unallocated_amount, 2000);
}

#[test]
fn deregister_mixed_valid_and_nonexistent() {
    let mut c = setup_with_block_time();
    execute(
        &mut c,
        105,
        &"admin-sender".to_string(),
        ExecuteMsg::RewardUsers {
            rewards: vec![reward("addr0001", 5000, 1250)],
            vesting_schedule: schedule(100, 105, 110),
        },
    )
    .expect("valid registration");
    assert_eq!(c.ledger.unallocated_amount, 0);

    // nothing claimed yet: the vested 1250 is paid out on deregistration,
    // the unvested 3750 returns to the unallocated pool, and the
    // nonexistent address reports a per-address failure
    let res = execute(
        &mut c,
        105,
        &"manager-sender".to_string(),
        ExecuteMsg::DeregisterVestingAccounts {
            addresses: vec!["addr0001".to_string(), "missing99".to_string()],
        },
    )
    .expect("deregistration reports per-address results");
    let data = res.data.expect("deregistration returns result data");
    assert_eq!(data.len(), 2);
    assert!(data[0].success);
    assert_eq!(data[0].error_msg, "");
    assert!(!data[1].success);
    assert!(data[1].error_msg.contains("missing99 does not have a vesting account."));
    assert_eq!(
        res.messages,
        vec![BankTransfer { to_address: "addr0001".to_string(), amount: vec![coin(1250, "token")] }]
    );
    assert_eq!(c.ledger.unallocated_amount, 3750);
}

#[test]
fn duplicate_rewards_visible_in_queries_and_pagination() {
    let mut c = setup(2000, "uusd", "addr0000", &["admin-sender"]);
    execute(
        &mut c,
        100,
        &"addr0000".to_string(),
        ExecuteMsg::RewardUsers {
            rewards: vec![reward("addr0002", 500, 250), reward("addr0002", 300, 0)],
            vesting_schedule: schedule(100, 105, 110),
        },
    )
    .expect("batch registration");

    let page = |start_after: Option<u64>, limit: Option<u32>| -> Vec<u128> {
        let resp = token_vesting::contract::query_vesting_account(
            &c,
            100,
            &"addr0002".to_string(),
            start_after,
            limit,
        )
        .expect("query should succeed");
        resp.vestings.iter().map(|d| d.vesting_amount).collect()
    };

    assert_eq!(page(None, None), vec![500, 300]);
    assert_eq!(page(None, Some(1)), vec![500]);
    assert_eq!(page(Some(0), None), vec![300]);
    assert_eq!(page(Some(1), None), Vec::<u128>::new());
}

#[test]
fn claim_with_time_running_backwards_is_an_arithmetic_error() {
    let mut c = setup(2000, "uusd", "addr0000", &["admin-sender"]);
    execute(&mut c, 100, &"addr0000".to_string(), reward_msg(100, 110, 1000, 250, 105))
        .expect("valid registration");
    // claim in the linear region: claimed becomes 550
    execute(&mut c, 107, &"addr0001".to_string(), ExecuteMsg::Claim {}).expect("claim");
    // evaluated earlier, the vested amount falls below the claimed amount
    let before = c.clone();
    let res = execute(&mut c, 105, &"addr0001".to_string(), ExecuteMsg::Claim {});
    assert_eq!(res.unwrap_err(), ContractError::Overflow);
    assert_eq!(c.ledger.unallocated_amount, before.ledger.unallocated_amount);
    assert_eq!(
        c.registry.entries[0].accounts[0].claimed_amount,
        before.registry.entries[0].accounts[0].claimed_amount
    );
    // the query's claimable amount underflows the same way
    let res = query(
        &c,
        105,
        QueryMsg::VestingAccount {
            address: "addr0001".to_string(),
            start_after: None,
            limit: None,
        },
    );
    assert_eq!(res.unwrap_err(), ContractError::Overflow);
}

#[test]
fn reward_batch_total_overflow() {
    let mut c = setup(2000, "uusd", "addr0000", &["admin-sender"]);
    let res = execute(
        &mut c,
        100,
        &"addr0000".to_string(),
        ExecuteMsg::RewardUsers {
            rewards: vec![reward("addr0001", u128::MAX, 0), reward("addr0002", 1, 0)],
            vesting_schedule: schedule(100, 105, 110),
        },
    );
    assert_eq!(res.unwrap_err(), ContractError::Overflow);
    assert_eq!(c.ledger.unallocated_amount, 2000);
}

#[test]
fn direct_operations_match_dispatcher() {
    let mut c1 = setup(2000, "uusd", "addr0000", &["admin-sender"]);
    let mut c2 = setup(2000, "uusd", "addr0000", &["admin-sender"]);

    let r1 = reward_users(
        &mut c1,
        &"addr0000".to_string(),
        vec![reward("addr0001", 1000, 250)],
        schedule(100, 105, 110),
    )
    .expect("direct registration");
    let r2 = execute(
        &mut c2,
        100,
        &"addr0000".to_string(),
        reward_msg(100, 110, 1000, 250, 105),
    )
    .expect("dispatched registration");
    assert_eq!(r1, r2);

    let cl1 = claim(&mut c1, 107, &"addr0001".to_string()).expect("direct claim");
    let cl2 = execute(&mut c2, 107, &"addr0001".to_string(), ExecuteMsg::Claim {})
        .expect("dispatched claim");
    assert_eq!(cl1, cl2);

    let w1 = withdraw(&mut c1, &"addr0000".to_string(), 400).expect("direct withdrawal");
    let w2 = execute(&mut c2, 107, &"addr0000".to_string(), ExecuteMsg::Withdraw { amount: 400 })
        .expect("dispatched withdrawal");
    assert_eq!(w1, w2);

    let d1 = deregister_vesting_accounts(
        &mut c1,
        108,
        &"admin-sender".to_string(),
        vec!["addr0001".to_string()],
    )
    .expect("direct deregistration");
    let d2 = execute(
        &mut c2,
        108,
        &"admin-sender".to_string(),
        ExecuteMsg::DeregisterVestingAccounts { addresses: vec!["addr0001".to_string()] },
    )
    .expect("dispatched deregistration");
    assert_eq!(d1, d2);
}
