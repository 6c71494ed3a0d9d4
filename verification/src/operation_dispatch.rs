//! The single wire ingress of generated operation handling: the short
//! header names the operation it carries by route, and an operation is
//! handed to its handler only when that route names it.
//!
//! A channel's operations are numbered in declaration order; operation
//! `k` travels under root `k` and variant zero.

use vstd::prelude::*;

use crate::binding::WireRoute;
use crate::frame::{header_root, header_variant, ShortHeader};

verus! {

#[derive(Debug, Clone, Copy, PartialEq, Eq, Structural)]
pub enum OperationDispatchError {
    UnknownOperationRoot { root: u8 },
    UnknownOperationVariant { root: u8, variant: u8 },
    HeaderRouteMismatch { expected: WireRoute, actual: WireRoute },
    HeaderOperationMismatch { expected: u8, actual: u8 },
}

/// The operation a header names among `operation_count` operations: its
/// root, when the root numbers an operation and the variant is zero.
pub open spec fn operation_kind_of(header: u64, operation_count: nat) -> Option<u8> {
    if header_root(header) < operation_count && header_variant(header) == 0 {
        Some(header_root(header))
    } else {
        None
    }
}

/// The outcome of checking an operation numbered `actual` against the
/// header it arrived under.
pub open spec fn dispatch_outcome(
    header: u64,
    operation_count: nat,
    actual: u8,
    result: Result<(), OperationDispatchError>,
) -> bool {
    let root = header_root(header);
    let variant = header_variant(header);
    if root >= operation_count {
        result == Err::<(), OperationDispatchError>(OperationDispatchError::UnknownOperationRoot { root })
    } else if variant != 0 {
        result == Err::<(), OperationDispatchError>(
            OperationDispatchError::UnknownOperationVariant { root, variant },
        )
    } else if root != actual {
        result == Err::<(), OperationDispatchError>(
            OperationDispatchError::HeaderOperationMismatch { expected: root, actual },
        )
    } else {
        result == Ok::<(), OperationDispatchError>(())
    }
}

/// The operation the header names among `operation_count` operations.
pub fn operation_kind_from_short_header(short_header: ShortHeader, operation_count: usize) -> (kind: Option<u8>)
    ensures
        kind == operation_kind_of(short_header@, operation_count as nat),
{
    let route = short_header.route();
    let root = route.root().value();
    let variant = route.variant().value();
    if (root as usize) < operation_count && variant == 0 {
        Some(root)
    } else {
        None
    }
}

/// Checks that the header an operation arrived under names that
/// operation: refuses a root that numbers no operation, then a nonzero
/// variant, then a root that numbers another operation.
pub fn dispatch_check(short_header: ShortHeader, operation_count: usize, actual_kind: u8) -> (result: Result<(), OperationDispatchError>)
    ensures
        dispatch_outcome(short_header@, operation_count as nat, actual_kind, result),
        result is Ok <==> operation_kind_of(short_header@, operation_count as nat) == Some(actual_kind),
{
    let route = short_header.route();
    let root = route.root().value();
    let variant = route.variant().value();
    if (root as usize) >= operation_count {
        Err(OperationDispatchError::UnknownOperationRoot { root })
    } else if variant != 0 {
        Err(OperationDispatchError::UnknownOperationVariant { root, variant })
    } else if root != actual_kind {
        Err(OperationDispatchError::HeaderOperationMismatch { expected: root, actual: actual_kind })
    } else {
        Ok(())
    }
}

} // verus!
