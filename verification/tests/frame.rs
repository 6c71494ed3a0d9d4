use signal_frame::frame::{encode_frame_archive, length_prefix, strip_length_prefix, strip_short_header};
use signal_frame::{
    short_header_from_archive, short_header_from_length_prefixed, AcceptedOutcome,
    BatchErrorClassification, BatchFailureReason, BoundExchangeFrame, BoundStreamingFrame,
    Caller, CallerIdentity, CommitStatus, ContractBinding, ContractId, ExchangeFrameBody,
    ExchangeIdentifier, ExchangeLane, FrameError, HandshakeRejectionReason, HandshakeReply,
    HandshakeRequest, LaneSequence, NonEmpty,
    OperationFailureReason, ProcessIdentifier, ProtocolVersion, Reply, Request, RequestPayload,
    RetryClassification, Revision, RootCode, SessionEpoch, ShortHeader, Slot,
    StreamEventIdentifier, StreamingFrameBody, SubReply, SubscriptionTokenInner, VariantCode,
    WireContract, WireRevision, WireRoute,
};

struct TestContract;

impl WireContract for TestContract {
    fn binding() -> ContractBinding {
        ContractBinding::new(ContractId::new(1), WireRevision::new(1))
    }

    fn spec_binding() -> ContractBinding {
        Self::binding()
    }
}

fn test_route() -> WireRoute {
    WireRoute::new(RootCode::new(7), VariantCode::new(8))
}

type TestExchangeFrame<RequestPayload, ReplyPayload> =
    BoundExchangeFrame<TestContract, RequestPayload, ReplyPayload>;
type TestStreamingFrame<RequestPayload, ReplyPayload, EventPayload> =
    BoundStreamingFrame<TestContract, RequestPayload, ReplyPayload, EventPayload>;

#[derive(Debug, Clone, PartialEq, Eq)]
struct DomainRequest {
    name: String,
}

impl DomainRequest {
    fn new(name: &str) -> Self {
        Self { name: name.to_string() }
    }
}

impl RequestPayload for DomainRequest {}

#[derive(Debug, Clone, PartialEq, Eq)]
struct DomainReply {
    accepted: bool,
}

impl DomainReply {
    fn accepted() -> Self {
        Self { accepted: true }
    }
}

#[derive(Debug, Clone, PartialEq, Eq)]
struct DomainEvent {
    note: String,
}

#[derive(Debug, Clone, Copy, PartialEq, Eq)]
enum EngineFailure {
    Unavailable,
}

impl BatchErrorClassification for EngineFailure {
    fn batch_failure_reason(&self) -> BatchFailureReason {
        match self {
            Self::Unavailable => BatchFailureReason::EngineUnavailable,
        }
    }

    fn retry_classification(&self) -> RetryClassification {
        match self {
            Self::Unavailable => RetryClassification::Retryable,
        }
    }

    fn commit_status(&self) -> CommitStatus {
        match self {
            Self::Unavailable => CommitStatus::Unknown,
        }
    }
}

fn fresh_exchange() -> ExchangeIdentifier {
    ExchangeIdentifier::new(SessionEpoch::new(1), ExchangeLane::Connector, LaneSequence::first())
}

#[test]
fn request_frame_round_trips_caller_identity() {
    let request = DomainRequest::new("Node").into_request().with_caller(Some(
        Caller::new(ProcessIdentifier::new(7), None, None)
            .with_identity(Some(CallerIdentity::new("designer".to_string()))),
    ));
    let identity = request
        .caller()
        .and_then(Caller::identity)
        .expect("caller identity is carried");
    assert_eq!(identity.as_str(), "designer");
}

#[test]
fn exchange_frame_always_has_the_contract_binding() {
    let frame = TestExchangeFrame::<DomainRequest, DomainReply>::new(
        test_route(),
        ExchangeFrameBody::HandshakeRequest(HandshakeRequest::current()),
    );

    assert_eq!(frame.short_header().binding(), Ok(TestContract::binding()));
}

#[test]
fn exchange_frame_short_header_round_trips_and_is_peekable() {
    let exchange = fresh_exchange();
    let request = DomainRequest::new("Node").into_request();
    let frame = TestExchangeFrame::<DomainRequest, DomainReply>::new(
        test_route(),
        ExchangeFrameBody::Request { exchange, request: request.clone() },
    );
    let short_header = frame.short_header();
    let body_archive = b"archived request";

    let archive = frame.encode(body_archive);
    assert_eq!(short_header_from_archive(&archive).unwrap().validate().unwrap(), short_header);
    assert_eq!(&archive[..8], &short_header.to_le_bytes());

    let bytes = frame.encode_length_prefixed(body_archive).unwrap();
    assert_eq!(short_header_from_length_prefixed(&bytes).unwrap().validate().unwrap(), short_header);
    assert_eq!(&bytes[4..12], &short_header.to_le_bytes());

    let (decoded_header, decoded_body) =
        TestExchangeFrame::<DomainRequest, DomainReply>::decode_length_prefixed(&bytes).unwrap();
    assert_eq!(decoded_header, short_header);
    assert_eq!(decoded_body, &body_archive[..]);
}

#[test]
fn short_header_peek_rejects_short_payload() {
    let bytes = [0, 0, 0, 7, 1, 2, 3, 4, 5, 6, 7];

    let err = short_header_from_length_prefixed(&bytes).expect_err("short header must fail");
    assert!(matches!(err, FrameError::ShortHeaderTooShort { found: 7 }));
}

#[test]
fn request_from_payload_wraps_single_payload() {
    let request = Request::from_payload(DomainRequest::new("Node"));

    assert_eq!(request.payloads().len(), 1);
    assert_eq!(request.payloads().head(), &DomainRequest::new("Node"));
}

#[test]
fn operation_aborted_reply_carries_failed_at_and_per_operation_subreplies() {
    let per_operation = NonEmpty::from_head_and_tail(
        SubReply::<DomainReply>::Invalidated,
        vec![
            SubReply::<DomainReply>::Failed {
                reason: OperationFailureReason::DomainRejection,
                detail: Some(DomainReply::accepted()),
            },
            SubReply::Skipped,
        ],
    );
    let reply = Reply::<DomainReply>::operation_aborted(
        1,
        OperationFailureReason::DomainRejection,
        per_operation,
    );

    match &reply {
        Reply::Accepted { outcome, per_operation } => {
            assert!(matches!(
                outcome,
                AcceptedOutcome::OperationAborted {
                    failed_at: 1,
                    reason: OperationFailureReason::DomainRejection,
                }
            ));
            assert_eq!(per_operation.len(), 3);
        }
        Reply::Rejected { .. } => panic!("expected accepted reply"),
    }
}

#[test]
fn batch_aborted_reply_carries_batch_reason_and_per_operation_subreplies() {
    let per_operation = NonEmpty::from_head_and_tail(
        SubReply::<DomainReply>::Invalidated,
        vec![SubReply::<DomainReply>::Invalidated],
    );
    let reply = Reply::<DomainReply>::batch_aborted(
        BatchFailureReason::EngineRejected,
        RetryClassification::Unknown,
        CommitStatus::NotCommitted,
        per_operation,
    );

    match &reply {
        Reply::Accepted { outcome, per_operation } => {
            assert!(matches!(
                outcome,
                AcceptedOutcome::BatchAborted {
                    reason: BatchFailureReason::EngineRejected,
                    retry: RetryClassification::Unknown,
                    commit: CommitStatus::NotCommitted,
                }
            ));
            assert_eq!(per_operation.len(), 2);
            let mut iterator = per_operation.iter();
            let mut count = 0;
            while let Some(sub_reply) = iterator.next() {
                assert!(matches!(sub_reply, SubReply::Invalidated));
                count += 1;
            }
            assert_eq!(count, 2);
        }
        Reply::Rejected { .. } => panic!("expected accepted reply"),
    }
}

#[test]
fn batch_error_classification_projects_wire_safe_metadata() {
    let failure = EngineFailure::Unavailable;

    assert_eq!(failure.batch_failure_reason(), BatchFailureReason::EngineUnavailable);
    assert_eq!(failure.retry_classification(), RetryClassification::Retryable);
    assert_eq!(failure.commit_status(), CommitStatus::Unknown);
}

#[test]
fn typed_slot_and_revision_round_trip_inside_request_frame() {
    let slot: Slot<DomainRequest> = Slot::new(42);
    let revision = Revision::initial();
    assert_eq!(slot.number(), 42);
    assert_eq!(revision.number(), 0);
}

#[test]
fn length_prefixed_decode_rejects_short_prefix() {
    let err = TestExchangeFrame::<DomainRequest, DomainReply>::decode_length_prefixed(&[0, 0, 0])
        .expect_err("short prefix must fail");

    assert!(matches!(err, FrameError::ShortLengthPrefix));
}

#[test]
fn length_prefixed_decode_rejects_short_payload() {
    let bytes = [0, 0, 0, 4, 1, 2, 3];
    let err = TestExchangeFrame::<DomainRequest, DomainReply>::decode_length_prefixed(&bytes)
        .expect_err("short payload must fail");

    assert!(matches!(err, FrameError::LengthMismatch { expected: 4, found: 3 }));
}

#[test]
fn length_prefixed_decode_rejects_long_payload() {
    let bytes = [0, 0, 0, 2, 1, 2, 3];
    let err = TestExchangeFrame::<DomainRequest, DomainReply>::decode_length_prefixed(&bytes)
        .expect_err("long payload must fail");

    assert!(matches!(err, FrameError::LengthMismatch { expected: 2, found: 3 }));
}

#[test]
fn protocol_version_accepts_same_major_and_not_newer_minor() {
    let local = ProtocolVersion::new(0, 2, 0);

    assert!(local.accepts(ProtocolVersion::new(0, 1, 9)));
    assert!(local.accepts(ProtocolVersion::new(0, 2, 0)));
    assert!(!local.accepts(ProtocolVersion::new(0, 3, 0)));
    assert!(!local.accepts(ProtocolVersion::new(1, 0, 0)));
}

#[test]
fn streaming_frame_short_header_round_trips_and_is_peekable() {
    let event_identifier =
        StreamEventIdentifier::acceptor(SessionEpoch::new(1), LaneSequence::first());
    let frame: TestStreamingFrame<DomainRequest, DomainReply, DomainEvent> =
        TestStreamingFrame::new(
            test_route(),
            StreamingFrameBody::SubscriptionEvent {
                event_identifier,
                token: SubscriptionTokenInner::new(7),
                event: DomainEvent { note: "thought arrived".to_string() },
            },
        );
    let short_header = frame.short_header();
    let body_archive = b"archived event";

    let bytes = frame.encode_length_prefixed(body_archive).unwrap();
    assert_eq!(short_header_from_length_prefixed(&bytes).unwrap().validate().unwrap(), short_header);
    assert_eq!(&bytes[4..12], &short_header.to_le_bytes());

    let (decoded_header, decoded_body) =
        TestStreamingFrame::<DomainRequest, DomainReply, DomainEvent>::decode_length_prefixed(
            &bytes,
        )
        .unwrap();
    assert_eq!(decoded_header, short_header);
    assert_eq!(decoded_body, &body_archive[..]);
    match frame.body() {
        StreamingFrameBody::SubscriptionEvent { event, .. } => {
            assert_eq!(event.note, "thought arrived")
        }
        _ => panic!("expected subscription event"),
    }
}

#[test]
fn length_prefix_is_big_endian_and_strips_back() {
    let framed = length_prefix(vec![0xaa; 258]).unwrap();
    assert_eq!(&framed[..4], &[0, 0, 1, 2]);
    assert_eq!(framed.len(), 262);
    assert_eq!(strip_length_prefix(&framed).unwrap(), &vec![0xaa; 258][..]);
}

#[test]
fn short_header_bytes_are_little_endian() {
    let header = ShortHeader::new(0x0102_0304_0506_0708);
    assert_eq!(header.to_le_bytes(), [8, 7, 6, 5, 4, 3, 2, 1]);
    assert_eq!(ShortHeader::from_le_bytes(header.to_le_bytes()), header);
}

#[test]
fn frame_archive_is_header_then_body() {
    let header = ShortHeader::new(0x1122_3344_5566_7788);
    let archive = encode_frame_archive(header, &[1, 2, 3]);
    assert_eq!(archive, vec![0x88, 0x77, 0x66, 0x55, 0x44, 0x33, 0x22, 0x11, 1, 2, 3]);
    let (peeked, body) = strip_short_header(&archive).unwrap();
    assert_eq!(peeked, header);
    assert_eq!(body, &[1, 2, 3]);
}

/// Frames the body archive of a frame and reads it back, checking that
/// the header and the archive survive and returning the frame's body.
fn exchange_round_trip<RequestPayload, ReplyPayload>(
    frame: TestExchangeFrame<RequestPayload, ReplyPayload>,
    body_archive: &[u8],
) -> ExchangeFrameBody<RequestPayload, ReplyPayload> {
    let bytes = frame.encode_length_prefixed(body_archive).unwrap();
    let (header, body) =
        TestExchangeFrame::<RequestPayload, ReplyPayload>::decode_length_prefixed(&bytes).unwrap();
    assert_eq!(header, frame.short_header());
    assert_eq!(body, body_archive);
    frame.into_body()
}

#[test]
fn request_frame_round_trips() {
    let exchange = fresh_exchange();
    let request = DomainRequest::new("Node").into_request();
    let frame = TestExchangeFrame::<DomainRequest, DomainReply>::new(
        test_route(),
        ExchangeFrameBody::Request { exchange, request: request.clone() },
    );
    match exchange_round_trip(frame, b"request archive") {
        ExchangeFrameBody::Request { exchange: kept_exchange, request: kept_request } => {
            assert_eq!(kept_exchange, exchange);
            assert_eq!(kept_request, request);
            assert_eq!(kept_request.payloads().head(), &DomainRequest::new("Node"));
        }
        _ => panic!("expected request frame"),
    }
}

#[test]
fn handshake_request_frame_round_trips_at_frame_layer() {
    let frame = TestExchangeFrame::<DomainRequest, DomainReply>::new(
        test_route(),
        ExchangeFrameBody::HandshakeRequest(HandshakeRequest::current()),
    );
    match exchange_round_trip(frame, b"handshake archive") {
        ExchangeFrameBody::HandshakeRequest(request) => {
            assert_eq!(request.version(), HandshakeRequest::current().version());
        }
        _ => panic!("expected handshake request frame"),
    }
}

#[test]
fn handshake_rejection_frame_round_trips_at_frame_layer() {
    let local = ProtocolVersion::new(0, 1, 0);
    let peer = ProtocolVersion::new(1, 0, 0);
    assert!(!local.accepts(peer));
    let frame = TestExchangeFrame::<DomainRequest, DomainReply>::new(
        test_route(),
        ExchangeFrameBody::HandshakeReply(HandshakeReply::Rejected(
            HandshakeRejectionReason::IncompatibleVersion { local, peer },
        )),
    );
    match exchange_round_trip(frame, b"rejection archive") {
        ExchangeFrameBody::HandshakeReply(HandshakeReply::Rejected(
            HandshakeRejectionReason::IncompatibleVersion { local, peer },
        )) => {
            assert_eq!(local, ProtocolVersion::new(0, 1, 0));
            assert_eq!(peer, ProtocolVersion::new(1, 0, 0));
        }
        _ => panic!("expected handshake rejection frame"),
    }
}

#[test]
fn reply_frame_round_trips_with_exchange_identifier() {
    let exchange = fresh_exchange();
    let reply = Reply::committed(NonEmpty::single(SubReply::Completed(DomainReply::accepted())));
    let frame = TestExchangeFrame::<DomainRequest, DomainReply>::new(
        test_route(),
        ExchangeFrameBody::Reply { exchange, reply: reply.clone() },
    );
    match exchange_round_trip(frame, b"reply archive") {
        ExchangeFrameBody::Reply { exchange: kept_exchange, reply: kept_reply } => {
            assert_eq!(kept_exchange, exchange);
            assert_eq!(kept_reply, reply);
        }
        _ => panic!("expected reply frame"),
    }
}

fn streaming_round_trip(
    frame: TestStreamingFrame<DomainRequest, DomainReply, DomainEvent>,
    body_archive: &[u8],
) -> StreamingFrameBody<DomainRequest, DomainReply, DomainEvent> {
    let bytes = frame.encode_length_prefixed(body_archive).unwrap();
    let (header, body) =
        TestStreamingFrame::<DomainRequest, DomainReply, DomainEvent>::decode_length_prefixed(&bytes)
            .unwrap();
    assert_eq!(header, frame.short_header());
    assert_eq!(body, body_archive);
    frame.into_body()
}

#[test]
fn streaming_frame_subscription_event_round_trips() {
    let event_identifier =
        StreamEventIdentifier::acceptor(SessionEpoch::new(1), LaneSequence::first());
    let frame = TestStreamingFrame::new(
        test_route(),
        StreamingFrameBody::SubscriptionEvent {
            event_identifier,
            token: SubscriptionTokenInner::new(7),
            event: DomainEvent { note: "thought arrived".to_string() },
        },
    );
    match streaming_round_trip(frame, b"event archive") {
        StreamingFrameBody::SubscriptionEvent { event_identifier: kept_id, token, event } => {
            assert_eq!(kept_id, event_identifier);
            assert_eq!(token, SubscriptionTokenInner::new(7));
            assert_eq!(event.note, "thought arrived");
        }
        _ => panic!("expected subscription event"),
    }
}

#[test]
fn streaming_frame_request_round_trips() {
    let exchange = fresh_exchange();
    let request = DomainRequest::new("Node").into_request();
    let frame = TestStreamingFrame::new(
        test_route(),
        StreamingFrameBody::Request { exchange, request: request.clone() },
    );
    match streaming_round_trip(frame, b"request archive") {
        StreamingFrameBody::Request { exchange: kept_exchange, request: kept_request } => {
            assert_eq!(kept_exchange, exchange);
            assert_eq!(kept_request, request);
        }
        _ => panic!("expected request frame on streaming channel"),
    }
}

#[test]
fn peeked_unbound_header_fails_validation() {
    assert_eq!(ShortHeader::empty().validate(), Err(FrameError::UnboundHeader));
    let only_contract = ShortHeader::new(5);
    assert_eq!(only_contract.validate(), Err(FrameError::UnboundHeader));
    let bound = ShortHeader::new(5 | (3u64 << 32));
    assert_eq!(bound.validate(), Ok(bound));
}
