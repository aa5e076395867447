//! Error types of the vesting engine.

use vstd::prelude::*;

verus! {

/// Validation errors for vesting grants and schedules.
#[derive(Debug, Clone, Copy, PartialEq, Eq, Structural)]
pub enum VestingError {
    /// The requested grant has `vesting_amount == 0`.
    ZeroVestingAmount,
    /// The schedule violates `start_time <= cliff_time <= end_time` with
    /// `start_time < end_time`.
    InvalidTimeRange { start_time: u64, cliff_time: u64, end_time: u64 },
    /// The requested `cliff_amount` exceeds the `vesting_amount`.
    ExcessiveAmount { cliff_amount: u128, vesting_amount: u128 },
    /// The requested vesting total does not match the deposited total.
    MismatchedVestingAndDepositAmount { vesting_amount: u128, deposit_amount: u128 },
}

/// A generic error of the host environment, carrying a plain message.
#[derive(Debug, Clone)]
pub enum StdError {
    GenericErr { msg: String },
}

impl StdError {
    /// Builds a generic error from a message.
    pub fn generic_err(msg: String) -> (r: StdError)
        ensures
            r == (StdError::GenericErr { msg }),
    {
        StdError::GenericErr { msg }
    }

    /// The plain-text message carried by this error.
    pub fn message(&self) -> (r: &String)
        ensures
            *self matches StdError::GenericErr { msg } && r@ == msg@,
    {
        match self {
            StdError::GenericErr { msg } => msg,
        }
    }
}

impl PartialEq for StdError {
    fn eq(&self, other: &StdError) -> (r: bool) {
        match (self, other) {
            (StdError::GenericErr { msg: a }, StdError::GenericErr { msg: b }) => *a == *b,
        }
    }
}

impl vstd::std_specs::cmp::PartialEqSpecImpl for StdError {
    open spec fn obeys_eq_spec() -> bool {
        true
    }

    open spec fn eq_spec(&self, other: &StdError) -> bool {
        match (self, other) {
            (StdError::GenericErr { msg: a }, StdError::GenericErr { msg: b }) => a@ == b@,
        }
    }
}

/// The error type of the vesting engine's execute operations.
#[derive(Debug, Clone)]
pub enum ContractError {
    /// An error of the host environment; authorization and resource errors
    /// surface this way, as plain messages.
    Std(StdError),
    /// A grant or schedule validation error.
    Vesting(VestingError),
    /// Amount arithmetic left the 128-bit unsigned range.
    Overflow,
}

impl PartialEq for ContractError {
    fn eq(&self, other: &ContractError) -> (r: bool) {
        match (self, other) {
            (ContractError::Std(a), ContractError::Std(b)) => a == b,
            (ContractError::Vesting(a), ContractError::Vesting(b)) => a == b,
            (ContractError::Overflow, ContractError::Overflow) => true,
            _ => false,
        }
    }
}

impl vstd::std_specs::cmp::PartialEqSpecImpl for ContractError {
    open spec fn obeys_eq_spec() -> bool {
        true
    }

    open spec fn eq_spec(&self, other: &ContractError) -> bool {
        match (self, other) {
            (ContractError::Std(StdError::GenericErr { msg: a }), ContractError::Std(
                StdError::GenericErr { msg: b },
            )) => a@ == b@,
            (ContractError::Vesting(a), ContractError::Vesting(b)) => a == b,
            (ContractError::Overflow, ContractError::Overflow) => true,
            _ => false,
        }
    }
}

} // verus!
