//! Message shapes of the NUSD valuator contract: collateral-denomination
//! management under a single owner.

use vstd::prelude::*;

verus! {

/// The owner's operations on the accepted-collateral set.
#[derive(Debug, Clone, PartialEq, Eq)]
pub enum ExecuteMsg {
    /// Change one denomination in the accepted set to another, in place.
    ChangeDenom { from: String, to: String },
    /// Add a denomination to the accepted set.
    AddDenom { denom: String },
    /// Remove a denomination from the accepted set.
    RemoveDenom { denom: String },
}

/// The migration entry takes no arguments.
#[derive(Debug, Clone, PartialEq, Eq)]
pub struct MigrateMsg {
}

/// Creates the contract: fixes the owner and the initial accepted
/// denominations.
#[derive(Debug, Clone, PartialEq, Eq)]
pub struct InstantiateMsg {
    /// The owner is the only identity that may run `ExecuteMsg`.
    pub owner: String,
    pub accepted_denoms: Vec<String>,
}

} // verus!
