//! Genesis-transaction state of the host chain's genutil module.

use vstd::prelude::*;

verus! {

/// The raw genesis transactions, each carried as an opaque byte blob.
#[derive(Debug, Clone, PartialEq, Eq)]
pub struct GenesisState {
    pub gen_txs: Vec<Vec<u8>>,
}

} // verus!
