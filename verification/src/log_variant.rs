//! Projection of a typed value into the 64-bit short-header layout.
//!
//! Byte 0 carries the root enum discriminator; bytes 1 to 7 carry the
//! first seven sized sub-enum discriminators found in positional order.

use vstd::prelude::*;

verus! {

/// Project a typed value into the 64-bit short-header layout.
pub trait LogVariant {
    /// The projection of this value, as a value.
    spec fn spec_log_variant(&self) -> u64;

    /// The projection of this value.
    fn log_variant(&self) -> (projection: u64)
        ensures
            projection == self.spec_log_variant(),
    ;
}

} // verus!
