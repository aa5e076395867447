//! Request and response shapes of the vesting engine's operation surface.

use vstd::prelude::*;
use crate::schedule::VestingSchedule;

verus! {

/// A token amount of one denomination, as handed in by the funding
/// transaction or out by a transfer instruction.
#[derive(Debug, Clone, PartialEq, Eq)]
pub struct Coin {
    pub denom: String,
    pub amount: u128,
}

/// The mathematical model of a coin.
#[verifier::ext_equal]
pub struct CoinModel {
    pub denom: Seq<char>,
    pub amount: int,
}

impl View for Coin {
    type V = CoinModel;

    open spec fn view(&self) -> CoinModel {
        CoinModel { denom: self.denom@, amount: self.amount as int }
    }
}

/// A token denomination: a native coin or a contract-issued token.
#[derive(Debug, Clone, PartialEq, Eq)]
pub enum Denom {
    Native(String),
    Cw20(String),
}

/// An instruction for the external transfer executor: send `amount` to
/// `to_address`.
#[derive(Debug, Clone, PartialEq, Eq)]
pub struct BankTransfer {
    pub to_address: String,
    pub amount: Vec<Coin>,
}

/// The mathematical model of a transfer instruction.
#[verifier::ext_equal]
pub struct TransferModel {
    pub to: Seq<char>,
    pub amount: Seq<CoinModel>,
}

impl View for BankTransfer {
    type V = TransferModel;

    open spec fn view(&self) -> TransferModel {
        TransferModel { to: self.to_address@, amount: self.amount@.map_values(|c: Coin| c@) }
    }
}

/// One audit attribute of an operation's result.
#[derive(Debug, Clone, PartialEq, Eq)]
pub struct Attribute {
    pub key: String,
    pub value: String,
}

impl View for Attribute {
    type V = (Seq<char>, Seq<char>);

    open spec fn view(&self) -> (Seq<char>, Seq<char>) {
        (self.key@, self.value@)
    }
}

/// One grant request inside a RewardUsers batch.
#[derive(Debug, Clone, PartialEq, Eq)]
pub struct RewardUserRequest {
    pub user_address: String,
    pub vesting_amount: u128,
    pub cliff_amount: u128,
}

/// The mathematical model of a grant request.
#[verifier::ext_equal]
pub struct RewardModel {
    pub user: Seq<char>,
    pub vesting_amount: int,
    pub cliff_amount: int,
}

impl View for RewardUserRequest {
    type V = RewardModel;

    open spec fn view(&self) -> RewardModel {
        RewardModel {
            user: self.user_address@,
            vesting_amount: self.vesting_amount as int,
            cliff_amount: self.cliff_amount as int,
        }
    }
}

/// The per-address outcome a deregistration call reports in its result
/// data.
#[derive(Debug, Clone, PartialEq, Eq)]
pub struct DeregisterUserResponse {
    pub user_address: String,
    pub success: bool,
    pub error_msg: String,
}

/// The mathematical model of a per-address deregistration outcome.
#[verifier::ext_equal]
pub struct DeregModel {
    pub user: Seq<char>,
    pub success: bool,
    pub error_msg: Seq<char>,
}

impl View for DeregisterUserResponse {
    type V = DeregModel;

    open spec fn view(&self) -> DeregModel {
        DeregModel { user: self.user_address@, success: self.success, error_msg: self.error_msg@ }
    }
}

/// Creates the contract: fixes the admin and manager set and reads the
/// escrow deposit from the funding transaction.
#[derive(Debug, Clone, PartialEq, Eq)]
pub struct InstantiateMsg {
    pub admin: String,
    pub managers: Vec<String>,
}

/// The engine's state-changing operations.
#[derive(Debug, Clone, PartialEq, Eq)]
pub enum ExecuteMsg {
    /// Registers one vesting account per reward entry, atomically as a
    /// batch.
    RewardUsers { rewards: Vec<RewardUserRequest>, vesting_schedule: VestingSchedule },
    /// Removes every account of each given address, settling vested funds
    /// and releasing the remainder; per-address partial success.
    DeregisterVestingAccounts { addresses: Vec<String> },
    /// Pays the caller everything vested and unclaimed across their
    /// accounts.
    Claim {},
    /// Pays the admin up to `amount` out of the unallocated pool.
    Withdraw { amount: u128 },
}

/// The engine's queries; vested and claimable amounts are computed live at
/// query time.
#[derive(Debug, Clone, PartialEq, Eq)]
pub enum QueryMsg {
    VestingAccount { address: String, start_after: Option<u64>, limit: Option<u32> },
    VestingAccounts { address: Vec<String> },
}

/// The schedule as reported by queries, together with the grant amounts.
#[derive(Debug, Clone, PartialEq, Eq)]
pub enum VestingScheduleQueryOutput {
    LinearVestingWithCliff {
        start_time: u64,
        end_time: u64,
        cliff_time: u64,
        vesting_amount: u128,
        cliff_amount: u128,
    },
}

/// One account as reported by queries.
#[derive(Debug, Clone, PartialEq, Eq)]
pub struct VestingData {
    pub master_address: Option<String>,
    pub vesting_amount: u128,
    pub vesting_schedule: VestingScheduleQueryOutput,
    pub vesting_denom: Denom,
    pub vested_amount: u128,
    pub claimable_amount: u128,
}

/// All reported accounts of one recipient.
#[derive(Debug, Clone, PartialEq, Eq)]
pub struct VestingAccountResponse {
    pub address: String,
    pub vestings: Vec<VestingData>,
}

/// What an execute operation hands back: transfer instructions for the
/// external executor, audit attributes, and (for deregistration) the
/// per-address results.
#[derive(Debug, Clone, PartialEq, Eq)]
pub struct Response {
    pub messages: Vec<BankTransfer>,
    pub attributes: Vec<Attribute>,
    pub data: Option<Vec<DeregisterUserResponse>>,
}

/// The typed answer of the query dispatcher.
#[derive(Debug, Clone, PartialEq, Eq)]
pub enum QueryAnswer {
    VestingAccount(VestingAccountResponse),
    VestingAccounts(Vec<VestingAccountResponse>),
}

} // verus!
