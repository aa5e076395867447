//! Interface-reflection queries of the host chain's base API.

use vstd::prelude::*;

verus! {

/// Request type of the ListAllInterfaces RPC.
#[derive(Debug, Clone, PartialEq, Eq)]
pub struct ListAllInterfacesRequest {
}

/// Response type of the ListAllInterfaces RPC.
#[derive(Debug, Clone, PartialEq, Eq)]
pub struct ListAllInterfacesResponse {
    /// All registered interface names.
    pub interface_names: Vec<String>,
}

/// Request type of the ListImplementations RPC.
#[derive(Debug, Clone, PartialEq, Eq)]
pub struct ListImplementationsRequest {
    /// The interface to query the implementations for.
    pub interface_name: String,
}

/// Response type of the ListImplementations RPC.
#[derive(Debug, Clone, PartialEq, Eq)]
pub struct ListImplementationsResponse {
    pub implementation_message_names: Vec<String>,
}

} // verus!
