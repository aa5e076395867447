//! Parameters and queries of the host chain's inflation module.

use vstd::prelude::*;

verus! {

/// A decimal coin amount, carried as the chain's decimal string.
#[derive(Debug, Clone, PartialEq, Eq)]
pub struct DecCoin {
    pub denom: String,
    pub amount: String,
}

/// How minted inflation is split between staking rewards, the community
/// pool, and the strategic reserves; each share is a decimal string.
#[derive(Debug, Clone, PartialEq, Eq)]
pub struct InflationDistribution {
    pub staking_rewards: String,
    pub community_pool: String,
    pub strategic_reserves: String,
}

/// Factors of the exponential decay that sets each period's provision:
/// an initial value `a`, a reduction factor `r`, and a long-term floor
/// `c`, each a decimal string.
#[derive(Debug, Clone, PartialEq, Eq)]
pub struct ExponentialCalculation {
    pub a: String,
    pub r: String,
    pub c: String,
}

/// Parameters of the inflation module.
#[derive(Debug, Clone, PartialEq, Eq)]
pub struct Params {
    pub inflation_enabled: bool,
    pub exponential_calculation: Option<ExponentialCalculation>,
    pub inflation_distribution: Option<InflationDistribution>,
    pub epochs_per_period: u64,
}

/// The inflation module's genesis state.
#[derive(Debug, Clone, PartialEq, Eq)]
pub struct GenesisState {
    pub params: Option<Params>,
    /// The count of past periods.
    pub period: u64,
    /// Epochs passed while inflation was disabled.
    pub skipped_epochs: u64,
}

/// Request type of the Period query.
#[derive(Debug, Clone, PartialEq, Eq)]
pub struct QueryPeriodRequest {
}

/// Response type of the Period query.
#[derive(Debug, Clone, PartialEq, Eq)]
pub struct QueryPeriodResponse {
    pub period: u64,
}

/// Request type of the EpochMintProvision query.
#[derive(Debug, Clone, PartialEq, Eq)]
pub struct QueryEpochMintProvisionRequest {
}

/// Response type of the EpochMintProvision query.
#[derive(Debug, Clone, PartialEq, Eq)]
pub struct QueryEpochMintProvisionResponse {
    pub epoch_mint_provision: Option<DecCoin>,
}

/// Request type of the SkippedEpochs query.
#[derive(Debug, Clone, PartialEq, Eq)]
pub struct QuerySkippedEpochsRequest {
}

/// Response type of the SkippedEpochs query.
#[derive(Debug, Clone, PartialEq, Eq)]
pub struct QuerySkippedEpochsResponse {
    pub skipped_epochs: u64,
}

/// Request type of the CirculatingSupply query.
#[derive(Debug, Clone, PartialEq, Eq)]
pub struct QueryCirculatingSupplyRequest {
}

/// Response type of the CirculatingSupply query.
#[derive(Debug, Clone, PartialEq, Eq)]
pub struct QueryCirculatingSupplyResponse {
    pub circulating_supply: Option<DecCoin>,
}

/// Request type of the InflationRate query.
#[derive(Debug, Clone, PartialEq, Eq)]
pub struct QueryInflationRateRequest {
}

/// Response type of the InflationRate query.
#[derive(Debug, Clone, PartialEq, Eq)]
pub struct QueryInflationRateResponse {
    pub inflation_rate: String,
}

/// Request type of the Params query.
#[derive(Debug, Clone, PartialEq, Eq)]
pub struct QueryParamsRequest {
}

/// Response type of the Params query.
#[derive(Debug, Clone, PartialEq, Eq)]
pub struct QueryParamsResponse {
    pub params: Option<Params>,
}

} // verus!
