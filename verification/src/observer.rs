//! The live observer subscriptions of one observable channel.
//!
//! Registration mints tokens from one upward, wrapping at the end of the
//! `u64` range; unregistration drops every subscription bearing a token;
//! publishing reaches the subscriptions whose filters admit an event, in
//! registration order. Whether a filter admits an event is the contract's
//! own policy, so publishing takes that answer per subscription.

use vstd::prelude::*;

use crate::subscription::SubscriptionTokenInner;

verus! {

/// The token registration hands out after `token`.
pub open spec fn next_token(token: u64) -> u64 {
    if token == u64::MAX {
        0
    } else {
        (token + 1) as u64
    }
}

/// The tokens of `subscriptions`, in registration order.
pub open spec fn tokens_of<Filter>(subscriptions: Seq<(u64, Filter)>) -> Seq<u64> {
    subscriptions.map_values(|subscription: (u64, Filter)| subscription.0)
}

/// Keeps a subscription unless it bears `token`.
pub open spec fn not_bearing<Filter>(token: u64) -> spec_fn((u64, Filter)) -> bool {
    |subscription: (u64, Filter)| subscription.0 != token
}

/// The tokens of the subscriptions whose filter admits the event, in
/// registration order, where `admitted[i]` answers for `subscriptions[i]`.
pub open spec fn admitted_tokens<Filter>(subscriptions: Seq<(u64, Filter)>, admitted: Seq<bool>) -> Seq<u64>
    decreases subscriptions.len(),
{
    if subscriptions.len() == 0 || admitted.len() == 0 {
        Seq::empty()
    } else {
        let earlier = admitted_tokens(subscriptions.drop_last(), admitted.drop_last());
        if admitted.last() {
            earlier.push(subscriptions.last().0)
        } else {
            earlier
        }
    }
}

/// In-memory state of all live observer subscriptions on a channel.
pub struct ObserverSet<Filter> {
    subscriptions: Vec<(u64, Filter)>,
    next_token_value: u64,
}

impl<Filter> View for ObserverSet<Filter> {
    /// Each live subscription's token and filter, in registration order.
    type V = Seq<(u64, Filter)>;

    closed spec fn view(&self) -> Seq<(u64, Filter)> {
        self.subscriptions@
    }
}

impl<Filter> Default for ObserverSet<Filter> {
    fn default() -> (set: Self)
        ensures
            set@ == Seq::<(u64, Filter)>::empty(),
            set.spec_next_token() == 1,
    {
        ObserverSet { subscriptions: Vec::new(), next_token_value: 1 }
    }
}

impl<Filter> ObserverSet<Filter> {
    /// The token the next registration hands out.
    pub closed spec fn spec_next_token(self) -> u64 {
        self.next_token_value
    }

    /// Every live token lies in the range already handed out, from one up
    /// to below the next token; while this holds, a new token is fresh.
    pub open spec fn tokens_handed_out(self) -> bool {
        forall|index: int|
            0 <= index < self@.len() ==> 1 <= #[trigger] self@[index].0 < self.spec_next_token()
    }

    /// An empty set whose first token is one.
    pub fn new() -> (set: Self)
        ensures
            set@ == Seq::<(u64, Filter)>::empty(),
            set.spec_next_token() == 1,
            set.tokens_handed_out(),
    {
        ObserverSet { subscriptions: Vec::new(), next_token_value: 1 }
    }

    /// Registers an observer with `filter` and returns the token issued.
    pub fn register(&mut self, filter: Filter) -> (token: SubscriptionTokenInner)
        ensures
            token@ == old(self).spec_next_token(),
            final(self)@ == old(self)@.push((token@, filter)),
            final(self).spec_next_token() == next_token(old(self).spec_next_token()),
            old(self).tokens_handed_out() ==> !tokens_of(old(self)@).contains(token@),
            old(self).tokens_handed_out() && 1 <= old(self).spec_next_token() < u64::MAX
                ==> final(self).tokens_handed_out(),
    {
        let ghost before = self@;
        let value = self.next_token_value;
        proof {
            if self.tokens_handed_out() && tokens_of(self@).contains(value) {
                let index = choose|index: int| 0 <= index < self@.len() && tokens_of(self@)[index] == value;
                assert(self@[index].0 < value);
            }
        }
        self.next_token_value = self.next_token_value.wrapping_add(1);
        self.subscriptions.push((value, filter));
        proof {
            if old(self).tokens_handed_out() && 1 <= value < u64::MAX {
                assert forall|index: int| 0 <= index < self@.len() implies 1 <= #[trigger] self@[index].0
                    < self.spec_next_token() by {
                    if index < before.len() {
                        assert(self@[index] == before[index]);
                    }
                }
            }
        }
        SubscriptionTokenInner::new(value)
    }

    /// Removes every subscription bearing `token`; says whether one was
    /// there.
    pub fn unregister(&mut self, token: SubscriptionTokenInner) -> (removed: bool)
        ensures
            final(self)@ == old(self)@.filter(not_bearing(token@)),
            removed == tokens_of(old(self)@).contains(token@),
            final(self).spec_next_token() == old(self).spec_next_token(),
            old(self).tokens_handed_out() ==> final(self).tokens_handed_out(),
    {
        let value = token.value();
        let ghost original = self@;
        let mut removed = false;
        let mut index: usize = 0;
        let ghost mut seen: int = 0;
        while index < self.subscriptions.len()
            invariant
                0 <= seen <= original.len(),
                index as int == original.take(seen).filter(not_bearing(value)).len(),
                self.subscriptions@ == original.take(seen).filter(not_bearing(value)) + original.skip(seen),
                removed == tokens_of(original.take(seen)).contains(value),
                self.next_token_value == old(self).next_token_value,
                original == old(self)@,
                old(self).tokens_handed_out() ==> forall|kept: int|
                    0 <= kept < self.subscriptions@.len() ==> 1 <= #[trigger] self.subscriptions@[kept].0
                        < self.next_token_value,
            decreases original.len() - seen,
        {
            proof {
                assert(original.take(seen + 1).drop_last() =~= original.take(seen));
                assert(original.take(seen + 1).last() == original[seen]);
                reveal(Seq::filter);
                assert(self.subscriptions@[index as int] == original[seen]);
                let longer = tokens_of(original.take(seen + 1));
                let shorter = tokens_of(original.take(seen));
                assert(longer =~= shorter.push(original[seen].0));
                assert(longer.contains(value) == (shorter.contains(value) || original[seen].0 == value)) by {
                    if longer.contains(value) {
                        let at = choose|at: int| 0 <= at < longer.len() && longer[at] == value;
                        if at < shorter.len() {
                            assert(shorter[at] == value);
                        }
                    }
                    if shorter.contains(value) {
                        let at = choose|at: int| 0 <= at < shorter.len() && shorter[at] == value;
                        assert(longer[at] == value);
                    }
                    if original[seen].0 == value {
                        assert(longer[seen] == value);
                    }
                }
            }
            let ghost current = self.subscriptions@;
            if self.subscriptions[index].0 == value {
                self.subscriptions.remove(index);
                removed = true;
                proof {
                    assert forall|kept: int| 0 <= kept < self.subscriptions@.len() implies #[trigger] self.subscriptions@[kept]
                        == current[if kept < index { kept } else { kept + 1 }] by {}

                    assert(self.subscriptions@ =~= original.take(seen + 1).filter(not_bearing(value))
                        + original.skip(seen + 1));
                }
            } else {
                index = index + 1;
                proof {
                    assert(self.subscriptions@ =~= original.take(seen + 1).filter(not_bearing(value))
                        + original.skip(seen + 1));
                }
            }
            proof {
                seen = seen + 1;
            }
        }
        proof {
            assert(original.take(seen) =~= original);
            assert(original.skip(seen) =~= Seq::<(u64, Filter)>::empty());
            assert(self.subscriptions@ =~= original.filter(not_bearing(value)));
        }
        removed
    }

    /// The number of live subscriptions.
    pub fn len(&self) -> (count: usize)
        ensures
            count == self@.len(),
    {
        self.subscriptions.len()
    }

    /// Whether no observer is subscribed.
    pub fn is_empty(&self) -> (empty: bool)
        ensures
            empty == (self@.len() == 0),
    {
        self.subscriptions.len() == 0
    }

    /// The filter of the `index`-th live subscription.
    pub fn filter(&self, index: usize) -> (filter: &Filter)
        requires
            index < self@.len(),
        ensures
            *filter == self@[index as int].1,
    {
        &self.subscriptions[index].1
    }

    /// The tokens to deliver an event to, in registration order: those of
    /// the subscriptions whose filter admits it, where `admitted[i]`
    /// answers for the `i`-th subscription.
    pub fn recipients(&self, admitted: &Vec<bool>) -> (tokens: Vec<SubscriptionTokenInner>)
        requires
            admitted@.len() == self@.len(),
        ensures
            tokens@.map_values(|token: SubscriptionTokenInner| token@) == admitted_tokens(self@, admitted@),
    {
        let mut tokens: Vec<SubscriptionTokenInner> = Vec::new();
        let mut index: usize = 0;
        while index < self.subscriptions.len()
            invariant
                index <= self@.len(),
                admitted@.len() == self@.len(),
                tokens@.map_values(|token: SubscriptionTokenInner| token@) == admitted_tokens(
                    self@.take(index as int),
                    admitted@.take(index as int),
                ),
            decreases self@.len() - index,
        {
            proof {
                assert(self@.take(index + 1).drop_last() =~= self@.take(index as int));
                assert(admitted@.take(index + 1).drop_last() =~= admitted@.take(index as int));
            }
            if admitted[index] {
                tokens.push(SubscriptionTokenInner::new(self.subscriptions[index].0));
            }
            proof {
                assert(tokens@.map_values(|token: SubscriptionTokenInner| token@) =~= admitted_tokens(
                    self@.take(index + 1),
                    admitted@.take(index + 1),
                ));
            }
            index = index + 1;
        }
        proof {
            assert(self@.take(index as int) =~= self@);
            assert(admitted@.take(index as int) =~= admitted@);
        }
        tokens
    }
}

/// A sequence none of whose subscriptions bears `token` loses nothing to
/// the removal of that token.
pub proof fn lemma_filter_keeps_all_not_bearing<Filter>(subscriptions: Seq<(u64, Filter)>, token: u64)
    requires
        !tokens_of(subscriptions).contains(token),
    ensures
        subscriptions.filter(not_bearing(token)) == subscriptions,
    decreases subscriptions.len(),
{
    reveal(Seq::filter);
    if subscriptions.len() > 0 {
        let shorter = subscriptions.drop_last();
        if tokens_of(shorter).contains(token) {
            let at = choose|at: int| 0 <= at < tokens_of(shorter).len() && tokens_of(shorter)[at] == token;
            assert(tokens_of(subscriptions)[at] == token);
        }
        lemma_filter_keeps_all_not_bearing(shorter, token);
        assert(tokens_of(subscriptions)[subscriptions.len() - 1] == subscriptions.last().0);
        assert(shorter.push(subscriptions.last()) =~= subscriptions);
    }
}

/// Unregistering the token a registration handed out undoes that
/// registration, as long as the token was fresh: the set holds the
/// subscriptions it held before.
pub proof fn lemma_unregister_undoes_register<Filter>(
    subscriptions: Seq<(u64, Filter)>,
    token: u64,
    filter: Filter,
)
    requires
        !tokens_of(subscriptions).contains(token),
    ensures
        subscriptions.push((token, filter)).filter(not_bearing(token)) == subscriptions,
        tokens_of(subscriptions.push((token, filter))).contains(token),
{
    reveal(Seq::filter);
    let longer = subscriptions.push((token, filter));
    assert(longer.drop_last() =~= subscriptions);
    lemma_filter_keeps_all_not_bearing(subscriptions, token);
    assert(tokens_of(longer)[subscriptions.len() as int] == token);
}

} // verus!
