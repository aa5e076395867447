//! Tests of the broker bank: owner gating, the halt switch, operator
//! management, withdrawals, and the ownership state machine.

use token_vesting::broker::{
    assert_not_halted, bank_send, edit_opers, execute_update_ownership, filter_coins, instantiate,
    query, query_accepted_denoms, query_perms_status, toggle_halt, withdraw_funds, BrokerBank,
    BrokerError, BrokerInstantiateMsg, BrokerQueryAnswer, BrokerQueryMsg, OperAction,
};
use token_vesting::msgs::Coin;
use token_vesting::ownership::{update_ownership, Action, Ownership, OwnershipError};

const TEST_OWNER: &str = "owner";

fn coin(amount: u128, denom: &str) -> Coin {
    Coin { denom: denom.to_string(), amount }
}

fn setup_contract(to_addrs: Vec<String>, opers: Vec<String>) -> BrokerBank {
    instantiate(BrokerInstantiateMsg { owner: TEST_OWNER.to_string(), to_addrs, opers })
        .expect("instantiation should succeed")
}

fn setup_contract_defaults() -> BrokerBank {
    setup_contract(
        vec!["to_addr0".to_string(), "to_addr1".to_string()],
        vec!["oper0".to_string(), "oper1".to_string()],
    )
}

fn broker_err_message(e: &BrokerError) -> String {
    match e {
        BrokerError::Ownership(oe) => oe.message().to_string(),
        BrokerError::ToAddrNotAllowed { to_addr } => format!("not allowed: {to_addr}"),
        BrokerError::OperationsHalted => "operations halted".to_string(),
        BrokerError::UnauthorizedOperator { sender } => format!("unauthorized: {sender}"),
        BrokerError::Std(se) => se.message().clone(),
    }
}

#[test]
pub fn test_assert_owner() {
    let not_owner = "not-owner".to_string();
    let want_err = "not the contract's current owner";
    let to_addrs: Vec<String> = vec!["mm_kucoin".to_string(), "mm_bybit".to_string()];
    let opers: Vec<String> = vec!["valid_oper".to_string()];

    // EditOpers
    let mut b = setup_contract(to_addrs.clone(), opers.clone());
    let res = edit_opers(
        &mut b,
        &not_owner,
        OperAction::AddOper { address: "new_oper".to_string() },
    );
    let err = res.expect_err("err should be defined");
    assert!(
        broker_err_message(&err).contains(want_err),
        "got error {}",
        broker_err_message(&err)
    );

    // UpdateOwnership
    let mut b = setup_contract(to_addrs.clone(), opers.clone());
    let res = execute_update_ownership(
        &mut b,
        1,
        &not_owner,
        Action::TransferOwnership { new_owner: "new_owner".to_string(), expiry: None },
    );
    let err = res.expect_err("err should be defined");
    assert!(err.message().contains(want_err), "got error {}", err.message());

    // Withdraw
    let mut b = setup_contract(to_addrs.clone(), opers.clone());
    let res = withdraw_funds(
        &mut b,
        1,
        &not_owner,
        Some("mm_bybit".to_string()),
        vec![],
        "[]".to_string(),
    );
    let err = res.expect_err("err should be defined");
    assert!(
        broker_err_message(&err).contains(want_err),
        "got error {}",
        broker_err_message(&err)
    );

    // ToggleHalt
    let mut b = setup_contract(to_addrs.clone(), opers.clone());
    let res = toggle_halt(&mut b, &not_owner);
    let err = res.expect_err("err should be defined");
    assert!(
        broker_err_message(&err).contains(want_err),
        "got error {}",
        broker_err_message(&err)
    );

    // WithdrawAll
    let mut b = setup_contract(to_addrs, opers);
    let res = withdraw_funds(
        &mut b,
        1,
        &not_owner,
        Some("mm_bybit".to_string()),
        vec![],
        "[]".to_string(),
    );
    let err = res.expect_err("err should be defined");
    assert!(
        broker_err_message(&err).contains(want_err),
        "got error {}",
        broker_err_message(&err)
    );
}

#[test]
fn exec_withdraw() {
    let to_addrs: Vec<String> = vec!["mm_kucoin".to_string(), "mm_bybit".to_string()];
    let opers: Vec<String> = vec!["valid_oper".to_string()];
    let owner = TEST_OWNER.to_string();

    // WithdrawAll with no contract funds
    let mut b = setup_contract(to_addrs.clone(), opers.clone());
    let (tr, _ev) = withdraw_funds(
        &mut b,
        1,
        &owner,
        Some("mm_bybit".to_string()),
        vec![],
        "[]".to_string(),
    )
    .expect("withdrawal should succeed");
    assert_eq!(tr.to_address, "mm_bybit");
    assert_eq!(tr.amount, vec![]);

    // WithdrawAll with a nonzero balance
    let mut b = setup_contract(to_addrs.clone(), opers.clone());
    let (tr, _ev) = withdraw_funds(
        &mut b,
        1,
        &owner,
        Some("to_addr".to_string()),
        vec![coin(420, "unibi")],
        "[unibi]".to_string(),
    )
    .expect("withdrawal should succeed");
    assert_eq!(tr.to_address, "to_addr");
    assert_eq!(tr.amount, vec![coin(420, "unibi")]);

    // Withdraw one denomination out of several
    let mut b = setup_contract(to_addrs, opers);
    let balances = vec![coin(420, "unibi"), coin(69, "uusd")];
    let filtered = filter_coins(balances, &vec!["uusd".to_string()]);
    assert_eq!(filtered, vec![coin(69, "uusd")]);
    let (tr, _ev) = withdraw_funds(
        &mut b,
        1,
        &owner,
        Some("to_addr".to_string()),
        filtered,
        "[uusd]".to_string(),
    )
    .expect("withdrawal should succeed");
    assert_eq!(tr.to_address, "to_addr");
    assert_eq!(tr.amount, vec![coin(69, "uusd")]);
}

#[test]
pub fn exec_toggle_halt() {
    let mut b = setup_contract_defaults();

    let status = query_perms_status(&b);
    assert_eq!(status.is_halted, false);
    assert_eq!(status.perms.owner, Some(TEST_OWNER.to_string()));
    assert_eq!(status.perms.operators, vec!["oper0".to_string(), "oper1".to_string()]);

    // ToggleHalt: error case
    let res = toggle_halt(&mut b, &"not_owner".to_string());
    assert!(res.is_err(), "got {res:?}");
    assert_eq!(query_perms_status(&b).is_halted, false);

    // ToggleHalt: success case
    let owner = TEST_OWNER.to_string();
    toggle_halt(&mut b, &owner).expect("toggle should succeed");
    assert_eq!(query_perms_status(&b).is_halted, true);

    toggle_halt(&mut b, &owner).expect("toggle should succeed");
    assert_eq!(query_perms_status(&b).is_halted, false);
}

#[test]
fn bank_send_paths() {
    let mut b = setup_contract_defaults();
    let oper = "oper0".to_string();

    // not an operator
    let res = bank_send(
        &mut b,
        7,
        &"stranger".to_string(),
        vec![coin(5, "unibi")],
        "[]".to_string(),
        "to_addr0".to_string(),
    );
    assert!(matches!(res, Err(BrokerError::UnauthorizedOperator { .. })));

    // the halt guard accepts only while the contract is halted
    let res = bank_send(
        &mut b,
        7,
        &oper,
        vec![coin(5, "unibi")],
        "[]".to_string(),
        "to_addr0".to_string(),
    );
    assert!(matches!(res, Err(BrokerError::OperationsHalted)));

    toggle_halt(&mut b, &TEST_OWNER.to_string()).expect("toggle should succeed");

    // recipient not on the allow list
    let res = bank_send(
        &mut b,
        7,
        &oper,
        vec![coin(5, "unibi")],
        "[]".to_string(),
        "nowhere".to_string(),
    );
    assert!(matches!(res, Err(BrokerError::ToAddrNotAllowed { .. })));

    // allowed
    let (tr, ev) = bank_send(
        &mut b,
        7,
        &oper,
        vec![coin(5, "unibi")],
        "[{\"denom\":\"unibi\",\"amount\":\"5\"}]".to_string(),
        "to_addr0".to_string(),
    )
    .expect("send should succeed");
    assert_eq!(tr.to_address, "to_addr0");
    assert_eq!(tr.amount, vec![coin(5, "unibi")]);
    assert_eq!(ev.ty, "bank_send");
    assert_eq!(b.logs.len(), 1);
    assert_eq!(b.logs[0].block_height, 7);
    assert_eq!(b.logs[0].sender_addr, "oper0");
}

#[test]
fn assert_not_halted_accepts_only_halted() {
    assert!(assert_not_halted(true).is_ok());
    assert!(matches!(assert_not_halted(false), Err(BrokerError::OperationsHalted)));
}

#[test]
fn edit_opers_add_and_remove() {
    let mut b = setup_contract_defaults();
    let owner = TEST_OWNER.to_string();

    let attrs = edit_opers(
        &mut b,
        &owner,
        OperAction::AddOper { address: "oper2".to_string() },
    )
    .expect("add should succeed");
    assert_eq!(attrs[0].value, "add_operator");
    assert_eq!(attrs[1].value, "oper2");
    assert_eq!(b.operators, vec!["oper0", "oper1", "oper2"]);

    // adding again keeps the set free of duplicates
    edit_opers(&mut b, &owner, OperAction::AddOper { address: "oper2".to_string() })
        .expect("add should succeed");
    assert_eq!(b.operators, vec!["oper0", "oper1", "oper2"]);

    let attrs = edit_opers(
        &mut b,
        &owner,
        OperAction::RemoveOper { address: "oper1".to_string() },
    )
    .expect("remove should succeed");
    assert_eq!(attrs[0].value, "remove_operator");
    assert_eq!(b.operators, vec!["oper0", "oper2"]);
}

#[test]
fn accepted_denoms_reports_stored_set() {
    let b = setup_contract_defaults();
    assert_eq!(query_accepted_denoms(&b), vec!["to_addr0".to_string(), "to_addr1".to_string()]);
}

#[test]
fn ownership_two_step_transfer() {
    let mut o = Ownership {
        owner: Some("alice99".to_string()),
        pending_owner: None,
        pending_expiry: None,
    };

    // only the owner may nominate
    let res = update_ownership(
        &mut o,
        5,
        &"mallory9".to_string(),
        Action::TransferOwnership { new_owner: "bob4567".to_string(), expiry: None },
    );
    assert_eq!(res, Err(OwnershipError::NotOwner));

    update_ownership(
        &mut o,
        5,
        &"alice99".to_string(),
        Action::TransferOwnership { new_owner: "bob4567".to_string(), expiry: Some(10) },
    )
    .expect("transfer should succeed");
    assert_eq!(o.pending_owner, Some("bob4567".to_string()));

    // nobody else can accept
    let res = update_ownership(&mut o, 6, &"mallory9".to_string(), Action::AcceptOwnership);
    assert_eq!(res, Err(OwnershipError::NotPendingOwner));

    // accepting after the expiry fails
    let mut expired = o.clone();
    let res = update_ownership(&mut expired, 11, &"bob4567".to_string(), Action::AcceptOwnership);
    assert_eq!(res, Err(OwnershipError::OwnershipExpired));

    // accepting in time succeeds
    update_ownership(&mut o, 10, &"bob4567".to_string(), Action::AcceptOwnership)
        .expect("accept should succeed");
    assert_eq!(o.owner, Some("bob4567".to_string()));
    assert_eq!(o.pending_owner, None);

    // renouncing clears the owner
    update_ownership(&mut o, 12, &"bob4567".to_string(), Action::RenounceOwnership)
        .expect("renounce should succeed");
    assert_eq!(o.owner, None);

    // with no owner, nothing to accept
    let res = update_ownership(&mut o, 13, &"bob4567".to_string(), Action::AcceptOwnership);
    assert_eq!(res, Err(OwnershipError::NoPendingOwner));
}

#[test]
fn instantiate_rejects_short_owner() {
    let res = instantiate(BrokerInstantiateMsg {
        owner: "ab".to_string(),
        to_addrs: vec![],
        opers: vec![],
    });
    let err = res.expect_err("owner too short");
    assert!(err.message().contains("too short"));
}

#[test]
fn broker_query_dispatcher() {
    let b = setup_contract_defaults();
    match query(&b, BrokerQueryMsg::Perms {}) {
        BrokerQueryAnswer::Perms(status) => {
            assert_eq!(status.perms.owner, Some(TEST_OWNER.to_string()));
            assert!(!status.is_halted);
        },
        other => panic!("unexpected answer: {other:?}"),
    }
    match query(&b, BrokerQueryMsg::Ownership {}) {
        BrokerQueryAnswer::Ownership(o) => {
            assert_eq!(o.owner, Some(TEST_OWNER.to_string()));
            assert_eq!(o.pending_owner, None);
        },
        other => panic!("unexpected answer: {other:?}"),
    }
}

#[test]
fn filter_coins_keeps_order_and_denoms() {
    let balances = vec![coin(1, "a11"), coin(2, "b22"), coin(3, "a11"), coin(4, "c33")];
    let filtered = filter_coins(balances, &vec!["a11".to_string(), "c33".to_string()]);
    assert_eq!(filtered, vec![coin(1, "a11"), coin(3, "a11"), coin(4, "c33")]);
    let none = filter_coins(vec![coin(9, "zz9")], &vec![]);
    assert_eq!(none, Vec::<Coin>::new());
}
