//! File-descriptor reflection queries of the host chain.

use vstd::prelude::*;

verus! {

/// Declares `prost_types::FileDescriptorProto` so descriptor values can be
/// carried through; relied on only as an opaque container, with nothing
/// assumed about its contents.
#[verifier::external_type_specification]
#[verifier::external_body]
pub struct ExFileDescriptorProto(prost_types::FileDescriptorProto);

/// Request type of the FileDescriptors query.
#[derive(Debug, Clone, PartialEq, Eq)]
pub struct FileDescriptorsRequest {
}

/// Response type of the FileDescriptors query.
#[derive(Debug, Clone)]
pub struct FileDescriptorsResponse {
    /// The queried file descriptors.
    pub files: Vec<prost_types::FileDescriptorProto>,
}

} // verus!
