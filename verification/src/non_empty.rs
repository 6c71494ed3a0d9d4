//! A sequence guaranteed non-empty at the type level.

use vstd::prelude::*;

verus! {

/// A sequence guaranteed non-empty: every value has a `head`, and longer
/// sequences extend through `tail`. Construction from an outside sequence
/// refuses the empty one with [`NonEmptyError::Empty`].
#[derive(Debug, Clone, PartialEq, Eq)]
pub struct NonEmpty<Value> {
    head: Value,
    tail: Vec<Value>,
}

impl<Value> View for NonEmpty<Value> {
    /// The head followed by the tail.
    type V = Seq<Value>;

    closed spec fn view(&self) -> Seq<Value> {
        seq![self.head] + self.tail@
    }
}

impl<Value> NonEmpty<Value> {
    /// Every non-empty sequence holds at least one value.
    pub broadcast proof fn lemma_not_empty(values: NonEmpty<Value>)
        ensures
            #[trigger] values@.len() >= 1,
    {
    }

    /// Every non-empty sequence is its head and its tail: one value more
    /// than the tail holds, and so never empty.
    pub proof fn lemma_head_and_tail(values: NonEmpty<Value>)
        ensures
            values@.len() == 1 + values@.drop_first().len(),
            values@.len() >= 1,
            values@ == seq![values@[0]] + values@.drop_first(),
    {
        assert(values@ =~= seq![values@[0]] + values@.drop_first());
    }

    pub fn single(head: Value) -> (values: Self)
        ensures
            values@ == seq![head],
    {
        let values = NonEmpty { head, tail: Vec::new() };
        assert(values@ =~= seq![head]);
        values
    }

    pub fn from_head_and_tail(head: Value, tail: Vec<Value>) -> (values: Self)
        ensures
            values@ == seq![head] + tail@,
    {
        NonEmpty { head, tail }
    }

    /// Takes the values of a vector, refusing an empty one.
    pub fn try_from_vec(values: Vec<Value>) -> (result: Result<Self, NonEmptyError>)
        ensures
            result is Ok <==> values@.len() > 0,
            result matches Ok(non_empty) ==> non_empty@ == values@,
            result matches Err(error) ==> error == NonEmptyError::Empty,
    {
        if values.len() == 0 {
            return Err(NonEmptyError::Empty);
        }
        let mut values = values;
        let ghost given = values@;
        let head = values.remove(0);
        let non_empty = NonEmpty { head, tail: values };
        assert(non_empty@ =~= given);
        Ok(non_empty)
    }

    /// Appends a value at the end.
    pub fn push(&mut self, value: Value)
        ensures
            final(self)@ == old(self)@.push(value),
    {
        self.tail.push(value);
        assert(self@ =~= old(self)@.push(value));
    }

    pub fn head(&self) -> (head: &Value)
        ensures
            *head == self@[0],
    {
        &self.head
    }

    pub fn tail(&self) -> (tail: &[Value])
        ensures
            tail@ == self@.drop_first(),
    {
        assert(self@.drop_first() =~= self.tail@);
        self.tail.as_slice()
    }

    pub fn len(&self) -> (length: usize)
        requires
            self@.len() <= usize::MAX,
        ensures
            length == self@.len(),
    {
        1 + self.tail.len()
    }

    /// Always false: a non-empty sequence is never empty.
    pub fn is_empty(&self) -> (empty: bool)
        ensures
            empty == (self@.len() == 0),
            !empty,
    {
        false
    }

    /// Walks the values in order, head first.
    pub fn iter(&self) -> (iterator: NonEmptyIterator<'_, Value>)
        ensures
            iterator.remaining() == self@,
    {
        let iterator = NonEmptyIterator { items: self, head_taken: false, tail_index: 0 };
        assert(self.tail@.subrange(0, self.tail@.len() as int) =~= self.tail@);
        iterator
    }

    pub fn into_vec(self) -> (values: Vec<Value>)
        ensures
            values@ == self@,
    {
        let ghost whole = self@;
        let mut values: Vec<Value> = Vec::new();
        values.push(self.head);
        let mut tail = self.tail;
        values.append(&mut tail);
        assert(values@ =~= whole);
        values
    }

    pub fn into_head(self) -> (head: Value)
        ensures
            head == self@[0],
    {
        self.head
    }

    pub fn into_head_and_tail(self) -> (parts: (Value, Vec<Value>))
        ensures
            parts.0 == self@[0],
            parts.1@ == self@.drop_first(),
    {
        assert(self@.drop_first() =~= self.tail@);
        (self.head, self.tail)
    }
}

/// A non-empty sequence is its head followed by its tail: taking it apart
/// with [`NonEmpty::into_head_and_tail`] and joining the parts with
/// [`NonEmpty::from_head_and_tail`] gives it back.
pub proof fn lemma_head_and_tail<Value>(values: NonEmpty<Value>)
    ensures
        values@.len() >= 1,
        seq![values@[0]] + values@.drop_first() == values@,
{
    assert(seq![values@[0]] + values@.drop_first() =~= values@);
}

/// Walks the values of a [`NonEmpty`] in order, head first.
pub struct NonEmptyIterator<'value, Value> {
    items: &'value NonEmpty<Value>,
    head_taken: bool,
    tail_index: usize,
}

impl<'value, Value> NonEmptyIterator<'value, Value> {
    #[verifier::type_invariant]
    spec fn well_formed(self) -> bool {
        &&& self.tail_index <= self.items.tail@.len()
        &&& !self.head_taken ==> self.tail_index == 0
    }

    /// The values the iterator has yet to give, in order.
    pub closed spec fn remaining(self) -> Seq<Value> {
        let rest = self.items.tail@.subrange(self.tail_index as int, self.items.tail@.len() as int);
        if self.head_taken {
            rest
        } else {
            seq![self.items.head] + rest
        }
    }

    /// Gives the next value, or nothing once every value was given.
    pub fn next(&mut self) -> (next: Option<&'value Value>)
        ensures
            old(self).remaining().len() == 0 ==> next is None && final(self).remaining()
                == old(self).remaining(),
            old(self).remaining().len() > 0 ==> (next matches Some(value) && *value == old(
                self,
            ).remaining()[0] && final(self).remaining() == old(self).remaining().drop_first()),
    {
        proof {
            use_type_invariant(&*self);
        }
        if !self.head_taken {
            self.head_taken = true;
            let items = self.items;
            assert(self.remaining() =~= old(self).remaining().drop_first());
            return Some(&items.head);
        }
        if self.tail_index < self.items.tail.len() {
            let items = self.items;
            let index = self.tail_index;
            self.tail_index = index + 1;
            assert(self.remaining() =~= old(self).remaining().drop_first());
            return Some(&items.tail[index]);
        }
        None
    }
}

#[derive(Debug, Clone, Copy, PartialEq, Eq, Structural)]
pub enum NonEmptyError {
    /// The sequence to take was empty.
    Empty,
}

} // verus!
