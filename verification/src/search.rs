//! The least and the greatest index that satisfies a predicate.

use vstd::prelude::*;

verus! {

/// The least index below `count` that satisfies `property`, if any.
pub open spec fn first_index(count: nat, property: spec_fn(int) -> bool) -> Option<int>
    decreases count,
{
    if count == 0 {
        None
    } else {
        match first_index((count - 1) as nat, property) {
            Some(index) => Some(index),
            None => if property(count - 1) {
                Some(count - 1)
            } else {
                None
            },
        }
    }
}

/// `index` is the least index below `count` that satisfies `property`.
pub open spec fn is_first_index(count: nat, property: spec_fn(int) -> bool, index: int) -> bool {
    &&& 0 <= index < count
    &&& property(index)
    &&& forall|earlier: int| 0 <= earlier < index ==> !#[trigger] property(earlier)
}

/// No index below `count` satisfies `property`.
pub open spec fn no_index(count: nat, property: spec_fn(int) -> bool) -> bool {
    forall|index: int| 0 <= index < count ==> !#[trigger] property(index)
}

/// [`first_index`] gives the least satisfying index, and nothing exactly
/// when no index satisfies the property.
pub proof fn lemma_first_index(count: nat, property: spec_fn(int) -> bool)
    ensures
        first_index(count, property) is None <==> no_index(count, property),
        first_index(count, property) matches Some(index) ==> is_first_index(count, property, index),
        forall|index: int|
            #![trigger is_first_index(count, property, index)]
            first_index(count, property) == Some(index) <==> is_first_index(count, property, index),
    decreases count,
{
    if count > 0 {
        lemma_first_index((count - 1) as nat, property);
        assert forall|index: int|
            #![trigger is_first_index(count, property, index)]
            first_index(count, property) == Some(index) <==> is_first_index(
                count,
                property,
                index,
            ) by {
            if is_first_index(count, property, index) && index < count - 1 {
                assert(is_first_index((count - 1) as nat, property, index));
            }
            if is_first_index(count, property, index) && index == count - 1 {
                assert(no_index((count - 1) as nat, property));
            }
            match first_index((count - 1) as nat, property) {
                Some(found) => {
                    assert(is_first_index((count - 1) as nat, property, found));
                },
                None => {},
            }
        }
        if no_index(count, property) {
            assert(no_index((count - 1) as nat, property));
        }
        match first_index((count - 1) as nat, property) {
            Some(found) => {
                assert(is_first_index((count - 1) as nat, property, found));
            },
            None => {},
        }
    }
}

/// Having checked every index below `index` without success and found
/// that `index` satisfies the property, it is the first.
pub proof fn lemma_found_first(count: nat, property: spec_fn(int) -> bool, index: int)
    requires
        is_first_index(count, property, index),
    ensures
        first_index(count, property) == Some(index),
{
    lemma_first_index(count, property);
    assert(is_first_index(count, property, index));
}

/// Having checked every index below `count` without success, there is
/// no first index.
pub proof fn lemma_found_none(count: nat, property: spec_fn(int) -> bool)
    requires
        no_index(count, property),
    ensures
        first_index(count, property) is None,
{
    lemma_first_index(count, property);
}

/// The greatest index below `count` that satisfies `property`, if any.
pub open spec fn last_index(count: nat, property: spec_fn(int) -> bool) -> Option<int>
    decreases count,
{
    if count == 0 {
        None
    } else if property(count - 1) {
        Some(count - 1)
    } else {
        last_index((count - 1) as nat, property)
    }
}

/// [`last_index`] gives a satisfying index below `count` with none above
/// it, and nothing exactly when no index satisfies the property.
pub proof fn lemma_last_index(count: nat, property: spec_fn(int) -> bool)
    ensures
        last_index(count, property) is None <==> no_index(count, property),
        last_index(count, property) matches Some(index) ==> {
            &&& 0 <= index < count
            &&& property(index)
            &&& forall|later: int| index < later < count ==> !#[trigger] property(later)
        },
    decreases count,
{
    if count > 0 {
        lemma_last_index((count - 1) as nat, property);
    }
}

/// A first index found among the first `count` indices stays the first
/// when more indices are searched with a property that agrees on those
/// already searched.
pub proof fn lemma_first_index_extends(
    count: nat,
    longer: nat,
    property: spec_fn(int) -> bool,
    extended: spec_fn(int) -> bool,
)
    requires
        count <= longer,
        forall|index: int| 0 <= index < count ==> #[trigger] property(index) == extended(index),
    ensures
        first_index(count, property) matches Some(found) ==> first_index(longer, extended) == Some(found),
{
    lemma_first_index(count, property);
    if let Some(found) = first_index(count, property) {
        assert(property(found));
        assert forall|earlier: int| 0 <= earlier < found implies !#[trigger] extended(earlier) by {
            assert(!property(earlier));
        }
        lemma_found_first(longer, extended, found);
    }
}

} // verus!
