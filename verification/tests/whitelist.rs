//! Tests of the shifter whitelist: admin powers, member management, and
//! member-gated market adjustments.

use token_vesting::whitelist::{
    can_execute, check_admin, check_member, execute, instantiate, query, ExecuteResponse, InitMsg,
    PerpAction, Whitelist, WhitelistExecuteMsg, WhitelistQueryAnswer, WhitelistQueryMsg,
};

fn setup(admin: &str) -> Whitelist {
    instantiate(InitMsg { admin: admin.to_string() })
}

#[test]
fn test_instantiate() {
    let w = setup("admin");
    assert_eq!(w.admin, "admin");
    assert_eq!(w.members.len(), 0);
}

#[test]
fn test_has_admin_power() {
    let w = setup("admin");
    assert!(!w.is_admin(&"not-admin".to_string()));

    let w = setup("admin");
    assert!(w.is_admin(&"admin".to_string()));
}

#[test]
fn test_execute_unauthorized() {
    let mut w = setup("admin");
    let result = execute(
        &mut w,
        &"unauthorized".to_string(),
        WhitelistExecuteMsg::AddMember { address: "addr0001".to_string() },
    );
    assert!(result.is_err());
}

#[test]
fn test_execute_add_member() {
    let mut w = setup("admin");
    let new_member = "new_member";
    assert!(!w.is_admin(&new_member.to_string()));

    let result = execute(
        &mut w,
        &"admin".to_string(),
        WhitelistExecuteMsg::AddMember { address: new_member.to_string() },
    )
    .expect("add should succeed");
    match result {
        ExecuteResponse::Empty(attrs) => {
            assert_eq!(attrs.len(), 2, "resp.attributes: {attrs:#?}");
        },
        ExecuteResponse::NibiruExecuteMsg(..) => panic!("unexpected response"),
    }

    assert!(w.has(&new_member.to_string()));
    let answer = query(&w, WhitelistQueryMsg::IsMember { address: new_member.to_string() });
    match answer {
        WhitelistQueryAnswer::IsMember(resp) => assert!(resp.is_member),
        other => panic!("unexpected answer: {other:?}"),
    }
}

#[test]
fn test_execute_remove_member() {
    let mut w = setup("admin");

    // Set up the initial whitelist
    assert_eq!(w.members.len(), 0);
    for member in ["vitalik", "musk", "satoshi"] {
        execute(
            &mut w,
            &"admin".to_string(),
            WhitelistExecuteMsg::AddMember { address: member.to_string() },
        )
        .expect("add should succeed");
    }

    // Remove a member from the whitelist
    let result = execute(
        &mut w,
        &"admin".to_string(),
        WhitelistExecuteMsg::RemoveMember { address: "satoshi".to_string() },
    )
    .expect("remove should succeed");
    match result {
        ExecuteResponse::Empty(attrs) => {
            assert_eq!(attrs.len(), 2, "resp.attributes: {attrs:#?}");
        },
        ExecuteResponse::NibiruExecuteMsg(..) => panic!("unexpected response"),
    }

    let answer = query(&w, WhitelistQueryMsg::Whitelist {});
    let whitelist = match answer {
        WhitelistQueryAnswer::Whitelist(resp) => resp.whitelist,
        other => panic!("unexpected answer: {other:?}"),
    };
    let mut got = whitelist.members.clone();
    got.sort();
    let mut expected = vec!["vitalik".to_string(), "musk".to_string()];
    expected.sort();
    assert_eq!(got, expected, "got: {got:#?}, wanted: {expected:#?}");
}

#[test]
fn member_gated_shifts() {
    let mut w = setup("admin");
    execute(
        &mut w,
        &"admin".to_string(),
        WhitelistExecuteMsg::AddMember { address: "shifter1".to_string() },
    )
    .expect("add should succeed");

    // a non-member may not shift
    let res = execute(
        &mut w,
        &"admin".to_string(),
        WhitelistExecuteMsg::DepthShift { pair: "ubtc:uusd".to_string(), depth_mult: "2".to_string() },
    );
    let err = res.expect_err("the admin is not a member");
    assert_eq!(
        err.message(),
        "unauthorized : sender admin is not a whitelist member"
    );

    // a member may
    let res = execute(
        &mut w,
        &"shifter1".to_string(),
        WhitelistExecuteMsg::DepthShift { pair: "ubtc:uusd".to_string(), depth_mult: "2".to_string() },
    )
    .expect("member shift should succeed");
    match res {
        ExecuteResponse::NibiruExecuteMsg(PerpAction::DepthShift { pair, depth_mult }, attrs) => {
            assert_eq!(pair, "ubtc:uusd");
            assert_eq!(depth_mult, "2");
            assert_eq!(attrs[0].value, "depth_shift");
        },
        other => panic!("unexpected response: {other:?}"),
    }

    let res = execute(
        &mut w,
        &"shifter1".to_string(),
        WhitelistExecuteMsg::PegShift { pair: "ueth:uusd".to_string(), peg_mult: "0.5".to_string() },
    )
    .expect("member shift should succeed");
    match res {
        ExecuteResponse::NibiruExecuteMsg(PerpAction::PegShift { pair, peg_mult }, attrs) => {
            assert_eq!(pair, "ueth:uusd");
            assert_eq!(peg_mult, "0.5");
            assert_eq!(attrs[0].value, "peg_shift");
        },
        other => panic!("unexpected response: {other:?}"),
    }
}

#[test]
fn change_admin_hands_over_the_role() {
    let mut w = setup("admin");
    execute(
        &mut w,
        &"admin".to_string(),
        WhitelistExecuteMsg::ChangeAdmin { address: "admin2".to_string() },
    )
    .expect("change should succeed");
    assert_eq!(w.admin, "admin2");

    // the old admin lost the role
    let can = can_execute(&w, &"admin".to_string());
    assert!(check_admin(can).is_err());
    let can = can_execute(&w, &"admin2".to_string());
    assert!(check_admin(can).is_ok());
}

#[test]
fn check_member_message() {
    let w = setup("admin");
    let can = can_execute(&w, &"someone".to_string());
    let err = check_member(can).expect_err("not a member");
    assert_eq!(err.message(), "unauthorized : sender someone is not a whitelist member");
}
