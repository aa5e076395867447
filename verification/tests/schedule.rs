//! Tests of the schedule math, the decimal rendering, the error types,
//! and the plain data shapes.

use token_vesting::decimal::{u128_to_string, u64_to_string};
use token_vesting::errors::{ContractError, StdError, VestingError};
use token_vesting::proto;
use token_vesting::schedule::{validate_reward, vested_amount, VestingSchedule};
use token_vesting::valuator;

fn schedule(start: u64, cliff: u64, end: u64) -> VestingSchedule {
    VestingSchedule::LinearVestingWithCliff {
        start_time: start,
        end_time: end,
        cliff_time: cliff,
    }
}

#[test]
fn vested_amount_exact_values() {
    let s = schedule(100, 105, 110);
    // zero before the cliff
    assert_eq!(vested_amount(&s, 1000, 250, 99), 0);
    assert_eq!(vested_amount(&s, 1000, 250, 104), 0);
    // exactly the cliff amount at the cliff
    assert_eq!(vested_amount(&s, 1000, 250, 105), 250);
    // linear with floor division in between: 250 + 750 * t / 5
    assert_eq!(vested_amount(&s, 1000, 250, 106), 400);
    assert_eq!(vested_amount(&s, 1000, 250, 107), 550);
    assert_eq!(vested_amount(&s, 1000, 251, 107), 550); // floor: 251 + 749*2/5 = 550
    assert_eq!(vested_amount(&s, 1000, 250, 109), 850);
    // the whole grant at and after the end
    assert_eq!(vested_amount(&s, 1000, 250, 110), 1000);
    assert_eq!(vested_amount(&s, 1000, 250, 200), 1000);
}

#[test]
fn vested_amount_is_monotone_on_samples() {
    let s = schedule(0, 10, 1_000_000);
    let mut last: u128 = 0;
    let mut t: u64 = 0;
    while t <= 1_000_100 {
        let v = vested_amount(&s, u128::MAX / 2, 12345, t);
        assert!(v >= last, "vested amount decreased at t={t}");
        last = v;
        t += 9973;
    }
    assert_eq!(vested_amount(&s, u128::MAX / 2, 12345, 1_000_100), u128::MAX / 2);
}

#[test]
fn vested_amount_degenerate_cliff_at_end() {
    // cliff == end: everything is released at the end, nothing before
    let s = schedule(100, 110, 110);
    assert_eq!(vested_amount(&s, 1000, 250, 109), 0);
    assert_eq!(vested_amount(&s, 1000, 250, 110), 1000);
}

#[test]
fn vested_amount_no_cliff() {
    // cliff == start: accrual starts immediately
    let s = schedule(100, 100, 110);
    assert_eq!(vested_amount(&s, 1000, 0, 100), 0);
    assert_eq!(vested_amount(&s, 1000, 0, 105), 500);
    assert_eq!(vested_amount(&s, 1000, 0, 110), 1000);
}

#[test]
fn vested_amount_large_values_no_overflow() {
    let s = schedule(0, 1, u64::MAX);
    let v = vested_amount(&s, u128::MAX, 0, u64::MAX - 1);
    assert!(v < u128::MAX);
    assert_eq!(vested_amount(&s, u128::MAX, 0, u64::MAX), u128::MAX);
}

#[test]
fn validate_reward_variants() {
    // zero grant is checked first
    assert_eq!(
        validate_reward(0, 1000, &schedule(100, 99, 110)),
        Err(VestingError::ZeroVestingAmount)
    );
    // then the time range
    assert_eq!(
        validate_reward(1000, 500, &schedule(100, 99, 110)),
        Err(VestingError::InvalidTimeRange { start_time: 100, cliff_time: 99, end_time: 110 })
    );
    assert_eq!(
        validate_reward(1000, 500, &schedule(110, 105, 100)),
        Err(VestingError::InvalidTimeRange { start_time: 110, cliff_time: 105, end_time: 100 })
    );
    assert_eq!(
        validate_reward(1000, 500, &schedule(100, 111, 110)),
        Err(VestingError::InvalidTimeRange { start_time: 100, cliff_time: 111, end_time: 110 })
    );
    // then the cliff/vesting relationship
    assert_eq!(
        validate_reward(1000, 1001, &schedule(100, 105, 110)),
        Err(VestingError::ExcessiveAmount { cliff_amount: 1001, vesting_amount: 1000 })
    );
    assert_eq!(validate_reward(1000, 1000, &schedule(100, 105, 110)), Ok(()));
    assert_eq!(validate_reward(1, 0, &schedule(100, 100, 101)), Ok(()));
}

#[test]
fn decimal_rendering() {
    assert_eq!(u128_to_string(0), "0");
    assert_eq!(u128_to_string(7), "7");
    assert_eq!(u128_to_string(10), "10");
    assert_eq!(u128_to_string(12345), "12345");
    assert_eq!(u128_to_string(1000000), "1000000");
    assert_eq!(
        u128_to_string(u128::MAX),
        "340282366920938463463374607431768211455"
    );
    assert_eq!(u64_to_string(0), "0");
    assert_eq!(u64_to_string(u64::MAX), "18446744073709551615");
}

#[test]
fn error_equality_and_messages() {
    let a = ContractError::Std(StdError::generic_err("boom".to_string()));
    let b = ContractError::Std(StdError::GenericErr { msg: "boom".to_string() });
    assert_eq!(a, b);
    assert_ne!(a, ContractError::Overflow);
    assert_ne!(a, ContractError::Vesting(VestingError::ZeroVestingAmount));
    let m = StdError::generic_err("boom".to_string());
    assert_eq!(m.message(), "boom");
    assert_eq!(
        VestingError::MismatchedVestingAndDepositAmount { vesting_amount: 5, deposit_amount: 6 },
        VestingError::MismatchedVestingAndDepositAmount { vesting_amount: 5, deposit_amount: 6 }
    );
}

#[test]
fn proto_shapes_carry_plain_data() {
    let dist = proto::inflation::InflationDistribution {
        staking_rewards: "0.6".to_string(),
        community_pool: "0.2".to_string(),
        strategic_reserves: "0.2".to_string(),
    };
    let calc = proto::inflation::ExponentialCalculation {
        a: "500000".to_string(),
        r: "0.5".to_string(),
        c: "1000".to_string(),
    };
    let params = proto::inflation::Params {
        inflation_enabled: true,
        exponential_calculation: Some(calc.clone()),
        inflation_distribution: Some(dist.clone()),
        epochs_per_period: 30,
    };
    let genesis = proto::inflation::GenesisState {
        params: Some(params.clone()),
        period: 3,
        skipped_epochs: 1,
    };
    assert_eq!(genesis.params.as_ref().unwrap().epochs_per_period, 30);
    assert_eq!(
        genesis.params.unwrap().inflation_distribution.unwrap().staking_rewards,
        "0.6"
    );

    let resp = proto::inflation::QueryPeriodResponse { period: 7 };
    assert_eq!(resp, proto::inflation::QueryPeriodResponse { period: 7 });
    let supply = proto::inflation::QueryCirculatingSupplyResponse {
        circulating_supply: Some(proto::inflation::DecCoin {
            denom: "unibi".to_string(),
            amount: "123.45".to_string(),
        }),
    };
    assert_eq!(supply.circulating_supply.unwrap().denom, "unibi");
    let rate = proto::inflation::QueryInflationRateResponse { inflation_rate: "0.12".to_string() };
    assert_eq!(rate.inflation_rate, "0.12");
    let skipped = proto::inflation::QuerySkippedEpochsResponse { skipped_epochs: 4 };
    assert_eq!(skipped.skipped_epochs, 4);
    let _reqs = (
        proto::inflation::QueryPeriodRequest {},
        proto::inflation::QueryEpochMintProvisionRequest {},
        proto::inflation::QuerySkippedEpochsRequest {},
        proto::inflation::QueryCirculatingSupplyRequest {},
        proto::inflation::QueryInflationRateRequest {},
        proto::inflation::QueryParamsRequest {},
    );
    let pr = proto::inflation::QueryParamsResponse { params: Some(params) };
    assert!(pr.params.unwrap().inflation_enabled);
    let provision = proto::inflation::QueryEpochMintProvisionResponse { epoch_mint_provision: None };
    assert!(provision.epoch_mint_provision.is_none());

    let gen = proto::genutil::GenesisState { gen_txs: vec![vec![1, 2, 3], vec![]] };
    assert_eq!(gen.gen_txs.len(), 2);

    let li = proto::base_reflection::ListImplementationsResponse {
        implementation_message_names: vec!["/cosmos.bank.v1beta1.MsgSend".to_string()],
    };
    assert_eq!(li.implementation_message_names.len(), 1);
    let la = proto::base_reflection::ListAllInterfacesResponse {
        interface_names: vec!["cosmos.base.v1beta1.Msg".to_string()],
    };
    assert_eq!(la.interface_names[0], "cosmos.base.v1beta1.Msg");
    let _req = proto::base_reflection::ListAllInterfacesRequest {};
    let lr = proto::base_reflection::ListImplementationsRequest {
        interface_name: "cosmos.base.v1beta1.Msg".to_string(),
    };
    assert_eq!(lr.interface_name, "cosmos.base.v1beta1.Msg");

    let _fd_req = proto::reflection::FileDescriptorsRequest {};
    let fd = proto::reflection::FileDescriptorsResponse {
        files: vec![prost_types::FileDescriptorProto::default()],
    };
    assert_eq!(fd.files.len(), 1);
}

#[test]
fn valuator_message_shapes() {
    let msg = valuator::ExecuteMsg::ChangeDenom { from: "uusd".to_string(), to: "uusdc".to_string() };
    assert_eq!(
        msg,
        valuator::ExecuteMsg::ChangeDenom { from: "uusd".to_string(), to: "uusdc".to_string() }
    );
    assert_ne!(msg, valuator::ExecuteMsg::AddDenom { denom: "uusd".to_string() });
    let init = valuator::InstantiateMsg {
        owner: "owner123".to_string(),
        accepted_denoms: vec!["uusd".to_string(), "uusdc".to_string()],
    };
    assert_eq!(init.accepted_denoms.len(), 2);
    let _mig = valuator::MigrateMsg {};
    let _rm = valuator::ExecuteMsg::RemoveDenom { denom: "uusd".to_string() };
}
