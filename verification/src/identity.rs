//! Frame-bound identity records: a typed slot number and the per-row
//! revision counter used by pre-condition checks. Allocation, lookup,
//! revision bumping and persistence belong to the storage engine.

use std::marker::PhantomData;

use std::cmp::Ordering;

use vstd::prelude::*;
use vstd::std_specs::cmp::PartialOrdSpecImpl;

verus! {

/// A typed slot number: the wire identity of a row in a receiver's typed
/// state.
#[derive(Debug, Copy, PartialEq, Eq, PartialOrd, Ord, Hash)]
pub struct Slot<Payload> {
    number: u64,
    payload: PhantomData<Payload>,
}

impl<Payload> View for Slot<Payload> {
    type V = u64;

    closed spec fn view(&self) -> u64 {
        self.number
    }
}

impl<Payload> Clone for Slot<Payload> {
    fn clone(&self) -> (copy: Self)
        ensures
            copy@ == self@,
    {
        Slot { number: self.number, payload: PhantomData }
    }
}

impl<Payload> Slot<Payload> {
    /// Two slots of one payload type with the same number are the same
    /// slot.
    pub proof fn lemma_view_injective(self, other: Self)
        requires
            self@ == other@,
        ensures
            self == other,
    {
    }

    pub fn new(number: u64) -> (slot: Self)
        ensures
            slot@ == number,
    {
        Slot { number, payload: PhantomData }
    }

    pub fn number(&self) -> (number: u64)
        ensures
            number == self@,
    {
        self.number
    }
}

/// The revision counter of one row.
#[derive(Debug, Clone, Copy, PartialEq, Eq, Ord, Hash, Structural)]
pub struct Revision {
    number: u64,
}

/// Ordered by value.
impl PartialOrd for Revision {
    fn partial_cmp(&self, other: &Self) -> (order: Option<Ordering>) {
        if self.number < other.number {
            Some(Ordering::Less)
        } else if self.number == other.number {
            Some(Ordering::Equal)
        } else {
            Some(Ordering::Greater)
        }
    }
}

impl PartialOrdSpecImpl for Revision {
    open spec fn obeys_partial_cmp_spec() -> bool {
        true
    }

    open spec fn partial_cmp_spec(&self, other: &Self) -> Option<Ordering> {
        if self@ < other@ {
            Some(Ordering::Less)
        } else if self@ == other@ {
            Some(Ordering::Equal)
        } else {
            Some(Ordering::Greater)
        }
    }
}

impl View for Revision {
    type V = u64;

    closed spec fn view(&self) -> u64 {
        self.number
    }
}

impl Revision {
    /// Two values of this type with the same view are the same value.
    pub proof fn lemma_view_injective(self, other: Self)
        requires
            self@ == other@,
        ensures
            self == other,
    {
    }

    pub fn new(number: u64) -> (revision: Self)
        ensures
            revision@ == number,
    {
        Revision { number }
    }

    /// The revision of a freshly written row.
    pub fn initial() -> (revision: Self)
        ensures
            revision@ == 0,
    {
        Revision { number: 0 }
    }

    pub fn number(&self) -> (number: u64)
        ensures
            number == self@,
    {
        self.number
    }
}

} // verus!
