//! Exchange and stream-event identity.
//!
//! The handshake establishes an [`ExchangeMode`]. Under the lane-sequence
//! mode each side owns its outbound lane (connector or acceptor, set by
//! connection direction) and mints monotonic [`LaneSequence`] values on
//! it. Replies echo the originating [`ExchangeIdentifier`]; subscription
//! events carry their own [`StreamEventIdentifier`] on the acceptor lane.

use std::cmp::Ordering;

use vstd::prelude::*;
use vstd::std_specs::cmp::{PartialOrdSpec, PartialOrdSpecImpl};

verus! {

/// Connection-instance epoch. A reconnect mints a fresh epoch so stale
/// in-flight replies from a previous connection cannot land on a new one.
#[derive(Debug, Clone, Copy, PartialEq, Eq, Ord, Hash, Structural)]
pub struct SessionEpoch {
    value: u64,
}

/// Ordered by value.
impl PartialOrd for SessionEpoch {
    fn partial_cmp(&self, other: &Self) -> (order: Option<Ordering>) {
        if self.value < other.value {
            Some(Ordering::Less)
        } else if self.value == other.value {
            Some(Ordering::Equal)
        } else {
            Some(Ordering::Greater)
        }
    }
}

impl PartialOrdSpecImpl for SessionEpoch {
    open spec fn obeys_partial_cmp_spec() -> bool {
        true
    }

    open spec fn partial_cmp_spec(&self, other: &Self) -> Option<Ordering> {
        if self@ < other@ {
            Some(Ordering::Less)
        } else if self@ == other@ {
            Some(Ordering::Equal)
        } else {
            Some(Ordering::Greater)
        }
    }
}

impl View for SessionEpoch {
    type V = u64;

    closed spec fn view(&self) -> u64 {
        self.value
    }
}

impl SessionEpoch {
    /// Two values of this type with the same view are the same value.
    pub proof fn lemma_view_injective(self, other: Self)
        requires
            self@ == other@,
        ensures
            self == other,
    {
    }

    pub fn new(value: u64) -> (epoch: Self)
        ensures
            epoch@ == value,
    {
        SessionEpoch { value }
    }

    pub fn value(self) -> (value: u64)
        ensures
            value == self@,
    {
        self.value
    }

    /// The epoch a reconnect mints after this one.
    pub fn next(self) -> (next: Self)
        requires
            self@ < u64::MAX,
        ensures
            next@ == self@ + 1,
    {
        SessionEpoch { value: self.value + 1 }
    }

    /// The epoch after another comes strictly after it, so a reconnect
    /// never reuses the current epoch.
    pub proof fn lemma_next_is_later(self, next: Self)
        requires
            next@ == self@ + 1,
        ensures
            PartialOrdSpec::partial_cmp_spec(&self, &next) == Some(Ordering::Less),
            PartialOrdSpec::partial_cmp_spec(&next, &self) == Some(Ordering::Greater),
            self != next,
    {
    }
}

/// Which endpoint of a connection minted a given frame. Determined by
/// connection direction at open time, not negotiated.
#[derive(Debug, Clone, Copy, PartialEq, Eq, Hash, Structural)]
pub enum ExchangeLane {
    /// The side that opened the connection.
    Connector,
    /// The side that accepted the connection.
    Acceptor,
}

/// Monotonic sequence within a single [`ExchangeLane`].
///
/// The same lane counter serves request/reply exchanges and stream
/// events; identity is told apart by the identifier type that wraps it.
#[derive(Debug, Clone, Copy, PartialEq, Eq, Ord, Hash, Structural)]
pub struct LaneSequence {
    value: u64,
}

/// Ordered by value.
impl PartialOrd for LaneSequence {
    fn partial_cmp(&self, other: &Self) -> (order: Option<Ordering>) {
        if self.value < other.value {
            Some(Ordering::Less)
        } else if self.value == other.value {
            Some(Ordering::Equal)
        } else {
            Some(Ordering::Greater)
        }
    }
}

impl PartialOrdSpecImpl for LaneSequence {
    open spec fn obeys_partial_cmp_spec() -> bool {
        true
    }

    open spec fn partial_cmp_spec(&self, other: &Self) -> Option<Ordering> {
        if self@ < other@ {
            Some(Ordering::Less)
        } else if self@ == other@ {
            Some(Ordering::Equal)
        } else {
            Some(Ordering::Greater)
        }
    }
}

impl View for LaneSequence {
    type V = u64;

    closed spec fn view(&self) -> u64 {
        self.value
    }
}

impl LaneSequence {
    /// Two values of this type with the same view are the same value.
    pub proof fn lemma_view_injective(self, other: Self)
        requires
            self@ == other@,
        ensures
            self == other,
    {
    }

    pub fn new(value: u64) -> (sequence: Self)
        ensures
            sequence@ == value,
    {
        LaneSequence { value }
    }

    /// The first sequence of a lane.
    pub fn first() -> (sequence: Self)
        ensures
            sequence@ == 0,
    {
        LaneSequence { value: 0 }
    }

    pub fn value(self) -> (value: u64)
        ensures
            value == self@,
    {
        self.value
    }

    /// The sequence minted after this one on the same lane.
    pub fn next(self) -> (next: Self)
        requires
            self@ < u64::MAX,
        ensures
            next@ == self@ + 1,
    {
        LaneSequence { value: self.value + 1 }
    }

    /// The sequence after another comes strictly after it: sequences on a
    /// lane only grow.
    pub proof fn lemma_next_is_later(self, next: Self)
        requires
            next@ == self@ + 1,
        ensures
            PartialOrdSpec::partial_cmp_spec(&self, &next) == Some(Ordering::Less),
            PartialOrdSpec::partial_cmp_spec(&next, &self) == Some(Ordering::Greater),
            self != next,
    {
    }
}

/// Identifies a request/reply exchange. The request frame mints it; the
/// reply frame echoes it.
#[derive(Debug, Clone, Copy, PartialEq, Eq, Hash, Structural)]
pub struct ExchangeIdentifier {
    session_epoch: SessionEpoch,
    lane: ExchangeLane,
    sequence: LaneSequence,
}

impl View for ExchangeIdentifier {
    /// Epoch value, lane and sequence value.
    type V = (u64, ExchangeLane, u64);

    closed spec fn view(&self) -> (u64, ExchangeLane, u64) {
        (self.session_epoch@, self.lane, self.sequence@)
    }
}

impl ExchangeIdentifier {
    /// Two values of this type with the same view are the same value.
    pub proof fn lemma_view_injective(self, other: Self)
        requires
            self@ == other@,
        ensures
            self == other,
    {
    }

    pub fn new(session_epoch: SessionEpoch, lane: ExchangeLane, sequence: LaneSequence) -> (identifier: Self)
        ensures
            identifier@ == (session_epoch@, lane, sequence@),
    {
        ExchangeIdentifier { session_epoch, lane, sequence }
    }

    pub fn session_epoch(self) -> (epoch: SessionEpoch)
        ensures
            epoch@ == self@.0,
    {
        self.session_epoch
    }

    pub fn lane(self) -> (lane: ExchangeLane)
        ensures
            lane == self@.1,
    {
        self.lane
    }

    pub fn sequence(self) -> (sequence: LaneSequence)
        ensures
            sequence@ == self@.2,
    {
        self.sequence
    }

    /// Whether two identifiers name the same exchange.
    pub fn same_exchange(self, other: ExchangeIdentifier) -> (same: bool)
        ensures
            same <==> self == other,
    {
        self.session_epoch.value == other.session_epoch.value && match (self.lane, other.lane) {
            (ExchangeLane::Connector, ExchangeLane::Connector) => true,
            (ExchangeLane::Acceptor, ExchangeLane::Acceptor) => true,
            _ => false,
        } && self.sequence.value == other.sequence.value
    }
}

/// Identifies one subscription-event frame's position on the acceptor
/// lane. Publishers own the monotonic counter and pass each successive
/// sequence here.
#[derive(Debug, Clone, Copy, PartialEq, Eq, Hash, Structural)]
pub struct StreamEventIdentifier {
    session_epoch: SessionEpoch,
    sequence: LaneSequence,
}

impl View for StreamEventIdentifier {
    /// Epoch value and sequence value.
    type V = (u64, u64);

    closed spec fn view(&self) -> (u64, u64) {
        (self.session_epoch@, self.sequence@)
    }
}

impl StreamEventIdentifier {
    /// Two values of this type with the same view are the same value.
    pub proof fn lemma_view_injective(self, other: Self)
        requires
            self@ == other@,
        ensures
            self == other,
    {
    }

    /// An event identifier on the acceptor lane.
    pub fn acceptor(session_epoch: SessionEpoch, sequence: LaneSequence) -> (identifier: Self)
        ensures
            identifier@ == (session_epoch@, sequence@),
    {
        StreamEventIdentifier { session_epoch, sequence }
    }

    /// An event identifier on the given lane; events ride only on the
    /// acceptor lane.
    pub fn new(session_epoch: SessionEpoch, lane: ExchangeLane, sequence: LaneSequence) -> (identifier: Self)
        requires
            lane == ExchangeLane::Acceptor,
        ensures
            identifier@ == (session_epoch@, sequence@),
    {
        StreamEventIdentifier { session_epoch, sequence }
    }

    pub fn session_epoch(self) -> (epoch: SessionEpoch)
        ensures
            epoch@ == self@.0,
    {
        self.session_epoch
    }

    /// The lane of every stream event: the acceptor lane.
    pub fn lane(self) -> (lane: ExchangeLane)
        ensures
            lane == ExchangeLane::Acceptor,
    {
        ExchangeLane::Acceptor
    }

    pub fn sequence(self) -> (sequence: LaneSequence)
        ensures
            sequence@ == self@.1,
    {
        self.sequence
    }
}

/// Exchange grammar a handshake establishes for the live connection.
#[derive(Debug, Clone, Copy, PartialEq, Eq, Structural)]
pub enum ExchangeMode {
    LaneSequence { session_epoch: SessionEpoch },
}

/// The handshake-time settlement of the exchange grammar.
#[derive(Debug, Clone, Copy, PartialEq, Eq, Structural)]
pub struct ExchangeHandshake {
    pub exchange_mode: ExchangeMode,
}

impl ExchangeHandshake {
    pub fn lane_sequence(session_epoch: SessionEpoch) -> (handshake: Self)
        ensures
            handshake.exchange_mode == (ExchangeMode::LaneSequence { session_epoch }),
    {
        ExchangeHandshake { exchange_mode: ExchangeMode::LaneSequence { session_epoch } }
    }
}

} // verus!
