//! Shape contracts for the observable-channel publish pipeline.
//!
//! [`ObservableSet`] is the shape of a channel's observer set, which
//! delivers each published event to every subscription whose filter
//! accepts it, in registration order. [`ObservationProjection`] names the
//! step from raw execution facts to the channel's event records.

use vstd::prelude::*;

verus! {

/// Shape contract of a per-channel observer set.
pub trait ObservableSet {
    /// Token type the set issues on registration.
    type Token: Copy;

    /// Record type of the channel's operation event.
    type OperationEvent;

    /// Record type of the channel's effect event.
    type EffectEvent;

    /// Publishes that an inbound contract operation was received; the
    /// `deliver` closure runs once per matching subscription.
    fn publish_operation_received<DeliverObserver>(
        &self,
        event: &Self::OperationEvent,
        deliver: DeliverObserver,
    ) where DeliverObserver: FnMut(Self::Token, &Self::OperationEvent);

    /// Publishes that an effect committed; the `deliver` closure runs once
    /// per matching subscription.
    fn publish_effect_emitted<DeliverObserver>(
        &self,
        event: &Self::EffectEvent,
        deliver: DeliverObserver,
    ) where DeliverObserver: FnMut(Self::Token, &Self::EffectEvent);
}

/// The two publication moments of an observable channel.
#[derive(Debug, Clone, Copy, PartialEq, Eq, Structural)]
pub enum ObservedEventKind {
    /// An inbound contract operation was received, before lowering.
    OperationReceived,
    /// An effect was emitted, after atomic commit.
    EffectEmitted,
}

/// The generated filter of a channel whose observable block declares
/// `filter default;`.
#[derive(Debug, Clone, Copy, PartialEq, Eq, Structural)]
pub enum DefaultObserverFilter {
    /// Admits every event.
    All,
    /// Admits operation-received events only.
    OperationsOnly,
    /// Admits effect-emitted events only.
    EffectsOnly,
}

/// Whether the default filter admits an event of the given kind; the
/// event's record itself is not consulted.
pub open spec fn default_filter_admits_spec(filter: DefaultObserverFilter, event: ObservedEventKind) -> bool {
    match filter {
        DefaultObserverFilter::All => true,
        DefaultObserverFilter::OperationsOnly => event is OperationReceived,
        DefaultObserverFilter::EffectsOnly => event is EffectEmitted,
    }
}

impl DefaultObserverFilter {
    /// Whether this filter admits an event of the given kind.
    pub fn admits(self, event: ObservedEventKind) -> (admitted: bool)
        ensures
            admitted == default_filter_admits_spec(self, event),
    {
        match self {
            DefaultObserverFilter::All => true,
            DefaultObserverFilter::OperationsOnly => match event {
                ObservedEventKind::OperationReceived => true,
                ObservedEventKind::EffectEmitted => false,
            },
            DefaultObserverFilter::EffectsOnly => match event {
                ObservedEventKind::OperationReceived => false,
                ObservedEventKind::EffectEmitted => true,
            },
        }
    }

    /// Whether this filter admits an operation-received event.
    pub fn matches_operation_received(self) -> (admitted: bool)
        ensures
            admitted == default_filter_admits_spec(self, ObservedEventKind::OperationReceived),
    {
        self.admits(ObservedEventKind::OperationReceived)
    }

    /// Whether this filter admits an effect-emitted event.
    pub fn matches_effect_emitted(self) -> (admitted: bool)
        ensures
            admitted == default_filter_admits_spec(self, ObservedEventKind::EffectEmitted),
    {
        self.admits(ObservedEventKind::EffectEmitted)
    }
}

/// Projection from raw execution facts to channel event records.
pub trait ObservationProjection {
    /// The contract's operation enum.
    type Operation;

    /// The executor's execution-fact type.
    type Effect;

    /// Record type of the channel's operation event.
    type OperationEvent;

    /// Record type of the channel's effect event.
    type EffectEvent;

    /// Projects a raw contract operation into the operation event record.
    fn operation_event(&self, operation: &Self::Operation) -> Self::OperationEvent;

    /// Projects a raw effect into the effect event record.
    fn effect_event(&self, effect: &Self::Effect) -> Self::EffectEvent;
}

} // verus!
