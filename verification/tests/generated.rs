use signal_frame::channel::{payload_variant_for_head, stream_witnesses, BlockKind};
use signal_frame::channel_syntax::parse_channel;
use signal_frame::{
    dispatch_check, operation_kind_from_short_header, BoundExchangeFrame, BoundStreamingFrame,
    CommandLineError, ContractBinding, ContractId, DefaultObserverFilter, ExchangeFrameBody,
    ExchangeIdentifier, ExchangeLane, LaneSequence, LogVariant, NonEmpty, ObservedEventKind,
    ObserverSet, OperationDispatchError, Request, RequestPayload, RootCode, SessionEpoch,
    ShortHeader, StreamingFrameBody, SubscriptionTokenInner, VariantCode, WireContract,
    WireRevision, WireRoute, WireRouteError,
};

struct TestContract;

impl WireContract for TestContract {
    fn binding() -> ContractBinding {
        ContractBinding::new(ContractId::new(1), WireRevision::new(1))
    }

    fn spec_binding() -> ContractBinding {
        Self::binding()
    }
}

#[derive(Debug, Clone, PartialEq, Eq)]
enum MessageOperation {
    Submit(String),
    Query(String),
    Oversized,
}

impl LogVariant for MessageOperation {
    fn log_variant(&self) -> u64 {
        match self {
            MessageOperation::Submit(_) => 0,
            MessageOperation::Query(_) => 1,
            MessageOperation::Oversized => 0x1_0000,
        }
    }

    fn spec_log_variant(&self) -> u64 {
        self.log_variant()
    }
}

impl RequestPayload for MessageOperation {}

fn bound_header(root: u8, variant: u8) -> ShortHeader {
    ShortHeader::bound(
        TestContract::binding(),
        WireRoute::new(RootCode::new(root), VariantCode::new(variant)),
    )
}

fn fresh_exchange() -> ExchangeIdentifier {
    ExchangeIdentifier::new(SessionEpoch::new(1), ExchangeLane::Connector, LaneSequence::first())
}

fn tokens(values: &[u64]) -> Vec<SubscriptionTokenInner> {
    values.iter().map(|value| SubscriptionTokenInner::new(*value)).collect()
}

#[test]
fn observer_set_mints_tokens_from_one_in_registration_order() {
    let mut set = ObserverSet::new();
    assert!(set.is_empty());
    assert_eq!(set.register(DefaultObserverFilter::All), SubscriptionTokenInner::new(1));
    assert_eq!(set.register(DefaultObserverFilter::EffectsOnly), SubscriptionTokenInner::new(2));
    assert_eq!(set.register(DefaultObserverFilter::OperationsOnly), SubscriptionTokenInner::new(3));
    assert_eq!(set.len(), 3);
    assert_eq!(*set.filter(1), DefaultObserverFilter::EffectsOnly);
}

#[test]
fn observer_set_unregisters_a_token_once() {
    let mut set = ObserverSet::default();
    let first = set.register(DefaultObserverFilter::All);
    let second = set.register(DefaultObserverFilter::All);
    assert!(set.unregister(first));
    assert!(!set.unregister(first));
    assert_eq!(set.len(), 1);
    assert_eq!(set.register(DefaultObserverFilter::All), SubscriptionTokenInner::new(3));
    assert!(set.unregister(second));
    assert!(!set.unregister(SubscriptionTokenInner::new(99)));
    assert_eq!(set.len(), 1);
}

#[test]
fn observer_set_delivers_to_admitting_filters_in_registration_order() {
    let mut set = ObserverSet::new();
    set.register(DefaultObserverFilter::EffectsOnly);
    set.register(DefaultObserverFilter::All);
    set.register(DefaultObserverFilter::OperationsOnly);
    let admitted: Vec<bool> = (0..set.len())
        .map(|index| set.filter(index).admits(ObservedEventKind::OperationReceived))
        .collect();
    assert_eq!(set.recipients(&admitted), tokens(&[2, 3]));
    let admitted: Vec<bool> = (0..set.len())
        .map(|index| set.filter(index).matches_effect_emitted())
        .collect();
    assert_eq!(set.recipients(&admitted), tokens(&[1, 2]));
}

#[test]
fn default_filter_admits_by_event_role() {
    assert!(DefaultObserverFilter::All.matches_operation_received());
    assert!(DefaultObserverFilter::All.matches_effect_emitted());
    assert!(DefaultObserverFilter::OperationsOnly.matches_operation_received());
    assert!(!DefaultObserverFilter::OperationsOnly.matches_effect_emitted());
    assert!(!DefaultObserverFilter::EffectsOnly.matches_operation_received());
    assert!(DefaultObserverFilter::EffectsOnly.matches_effect_emitted());
}

#[test]
fn operation_kind_comes_from_the_header_route() {
    assert_eq!(operation_kind_from_short_header(bound_header(1, 0), 2), Some(1));
    assert_eq!(operation_kind_from_short_header(bound_header(99, 0), 2), None);
    assert_eq!(operation_kind_from_short_header(bound_header(0, 1), 2), None);
    assert_eq!(operation_kind_from_short_header(bound_header(1, 1), 2), None);
}

#[test]
fn operation_dispatch_accepts_only_the_operation_the_header_names() {
    assert_eq!(dispatch_check(bound_header(0, 0), 2, 0), Ok(()));
    assert_eq!(
        dispatch_check(bound_header(1, 0), 2, 0),
        Err(OperationDispatchError::HeaderOperationMismatch { expected: 1, actual: 0 })
    );
    assert_eq!(
        dispatch_check(bound_header(99, 0), 2, 0),
        Err(OperationDispatchError::UnknownOperationRoot { root: 99 })
    );
    assert_eq!(
        dispatch_check(bound_header(0, 9), 2, 0),
        Err(OperationDispatchError::UnknownOperationVariant { root: 0, variant: 9 })
    );
}

#[test]
fn request_route_follows_the_first_payload() {
    let submit = MessageOperation::Submit("hello".to_string());
    let query = MessageOperation::Query("operator".to_string());
    assert_eq!(
        submit.clone().into_request().route(),
        Ok(WireRoute::new(RootCode::new(0), VariantCode::new(0)))
    );
    assert_eq!(
        Request::from_payloads(NonEmpty::from_head_and_tail(query, vec![submit])).route(),
        Ok(WireRoute::new(RootCode::new(1), VariantCode::new(0)))
    );
    assert_eq!(
        MessageOperation::Oversized.into_request().route(),
        Err(WireRouteError::BitsAboveRoute { value: 0x1_0000 })
    );
}

#[test]
fn request_frames_carry_the_contract_binding_at_the_request_route() {
    let exchange = fresh_exchange();
    let request = MessageOperation::Query("operator".to_string()).into_request();
    let frame = BoundExchangeFrame::<TestContract, MessageOperation, ()>::request_frame(
        exchange,
        request.clone(),
    )
    .expect("routable request");
    assert_eq!(frame.short_header(), bound_header(1, 0));
    assert_eq!(frame.body(), &ExchangeFrameBody::Request { exchange, request: request.clone() });

    let streaming =
        BoundStreamingFrame::<TestContract, MessageOperation, (), ()>::request_frame(exchange, request.clone())
            .expect("routable request");
    assert_eq!(streaming.short_header(), bound_header(1, 0));
    assert_eq!(streaming.body(), &StreamingFrameBody::Request { exchange, request });

    let refused = BoundExchangeFrame::<TestContract, MessageOperation, ()>::request_frame(
        exchange,
        MessageOperation::Oversized.into_request(),
    );
    assert!(matches!(
        refused,
        Err(CommandLineError::InvalidRoute(WireRouteError::BitsAboveRoute { value: 0x1_0000 }))
    ));
}

#[test]
fn stream_witnesses_follow_opens_close_and_belongs() {
    let channel = parse_channel(
        "
        channel Terminal contract TestContract {
            operation Watch(WatchWorker) opens WorkerLifecycle,
            operation Stop(WorkerToken),
            operation Status(StatusQuery),
        }
        reply Reply {
            Opened(WorkerOpened),
            Stopped(WorkerStopped),
        }
        event Event {
            Started(WorkerStarted) belongs WorkerLifecycle,
        }
        stream WorkerLifecycle {
            token WorkerToken;
            opened Opened;
            event Started;
            close Stop;
        }
        ",
    )
    .expect("declaration reads");
    let witnesses = stream_witnesses(&channel);
    assert_eq!(witnesses.opened, vec![Some(0), None, None]);
    assert_eq!(witnesses.closed, vec![None, Some(0), None]);
    assert_eq!(witnesses.belongs, vec![Some(0)]);
}

#[test]
fn payload_heads_decode_to_their_variants() {
    let channel = parse_channel(
        "
        channel Message contract TestContract {
            operation Submit(Submission),
            operation Query(InboxQuery),
        }
        reply Reply {
            Accepted(Receipt),
            NotFound,
        }
        ",
    )
    .expect("declaration reads");
    assert_eq!(payload_variant_for_head(&channel, BlockKind::Request, "Query"), Some(1));
    assert_eq!(payload_variant_for_head(&channel, BlockKind::Request, "Drain"), None);
    assert_eq!(payload_variant_for_head(&channel, BlockKind::Reply, "NotFound"), Some(1));
    assert_eq!(payload_variant_for_head(&channel, BlockKind::Event, "Started"), None);
}

#[test]
fn unregistering_a_fresh_token_undoes_its_registration() {
    let mut set = ObserverSet::new();
    set.register(DefaultObserverFilter::All);
    set.register(DefaultObserverFilter::EffectsOnly);
    let token = set.register(DefaultObserverFilter::OperationsOnly);
    assert!(set.unregister(token));
    assert_eq!(set.len(), 2);
    assert_eq!(*set.filter(0), DefaultObserverFilter::All);
    assert_eq!(*set.filter(1), DefaultObserverFilter::EffectsOnly);
    let admitted = vec![true, true];
    assert_eq!(set.recipients(&admitted), tokens(&[1, 2]));
}
