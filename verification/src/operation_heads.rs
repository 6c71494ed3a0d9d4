//! Request-payload enums expose the record heads of their operations
//! through [`SignalOperationHeads`], so command-line dispatch can route a
//! request before decoding it in full.

use vstd::prelude::*;

use crate::text::{heads_contain, texts_of};

verus! {

pub trait SignalOperationHeads {
    /// The record heads of the operations, in declaration order.
    const HEADS: &'static [&'static str];

    /// Whether `head` is one of the record heads.
    fn contains_head(head: &str) -> (found: bool)
        ensures
            found == texts_of(Self::HEADS@).contains(head@),
    {
        heads_contain(Self::HEADS, head)
    }
}

} // verus!
