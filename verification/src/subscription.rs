//! Subscription identity.
//!
//! Only the opaque `u64`-backed inner token lives here. Each
//! subscribe-bearing channel declares its own typed newtype around
//! [`SubscriptionTokenInner`], so retraction is channel-typed.

use vstd::prelude::*;

verus! {

#[derive(Debug, Clone, Copy, PartialEq, Eq, Hash, Structural)]
pub struct SubscriptionTokenInner {
    value: u64,
}

impl View for SubscriptionTokenInner {
    type V = u64;

    closed spec fn view(&self) -> u64 {
        self.value
    }
}

impl SubscriptionTokenInner {
    /// Two values of this type with the same view are the same value.
    pub proof fn lemma_view_injective(self, other: Self)
        requires
            self@ == other@,
        ensures
            self == other,
    {
    }

    pub fn new(value: u64) -> (token: Self)
        ensures
            token@ == value,
    {
        SubscriptionTokenInner { value }
    }

    pub fn value(self) -> (value: u64)
        ensures
            value == self@,
    {
        self.value
    }
}

} // verus!
