//! Errors of frame framing and binding validation.

use vstd::prelude::*;

use crate::binding::{ContractId, WireRevision, WireRouteError};

verus! {

#[allow(inconsistent_fields)]
#[derive(Debug, Clone, Copy, PartialEq, Eq, Structural)]
pub enum FrameError {
    /// The archive encoder refused the frame body.
    ArchiveSerialize,
    /// The archive decoder refused the frame body bytes.
    ArchiveDeserialize,
    /// The frame is shorter than the four byte length prefix.
    ShortLengthPrefix,
    /// The frame payload is shorter than the eight byte short header.
    ShortHeaderTooShort { found: usize },
    /// The length prefix does not match the payload that follows it.
    LengthMismatch { expected: usize, found: usize },
    /// The short header carries a zero contract or zero revision.
    UnboundHeader,
    /// The short header names another contract.
    ContractMismatch { expected: ContractId, found: ContractId },
    /// The short header names the right contract at another revision.
    UnsupportedWireRevision { contract: ContractId, expected: WireRevision, found: WireRevision },
    /// The route cannot be represented in a short header.
    InvalidRoute(WireRouteError),
}

} // verus!
