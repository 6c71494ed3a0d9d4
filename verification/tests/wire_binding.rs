use std::collections::BTreeSet;
use std::mem::size_of;

use signal_frame::{
    BoundExchangeFrame, BoundStreamingFrame, ContractBinding, ContractId, ExchangeFrame,
    ExchangeFrameBody, ExchangeIdentifier, ExchangeLane, FrameError, HandshakeRequest,
    LaneSequence, Request, RootCode, SessionEpoch, ShortHeader, StreamEventIdentifier,
    StreamingFrameBody, SubscriptionTokenInner, VariantCode, WireContract, WireRevision, WireRoute,
};

struct OrdinaryContract;

impl WireContract for OrdinaryContract {
    fn binding() -> ContractBinding {
        ContractBinding::new(ContractId::new(0x1020_3040), WireRevision::new(7))
    }

    fn spec_binding() -> ContractBinding {
        Self::binding()
    }
}

struct OtherContract;

impl WireContract for OtherContract {
    fn binding() -> ContractBinding {
        ContractBinding::new(ContractId::new(0x5060_7080), WireRevision::new(7))
    }

    fn spec_binding() -> ContractBinding {
        Self::binding()
    }
}

struct NewerOrdinaryContract;

impl WireContract for NewerOrdinaryContract {
    fn binding() -> ContractBinding {
        ContractBinding::new(ContractId::new(0x1020_3040), WireRevision::new(8))
    }

    fn spec_binding() -> ContractBinding {
        Self::binding()
    }
}

fn route() -> WireRoute {
    WireRoute::new(RootCode::new(0x91), VariantCode::new(0x2a))
}

fn exchange(sequence: u64) -> ExchangeIdentifier {
    ExchangeIdentifier::new(
        SessionEpoch::new(11),
        ExchangeLane::Connector,
        LaneSequence::new(sequence),
    )
}

fn archive_with_junk_body(header: ShortHeader) -> Vec<u8> {
    let mut bytes = header.to_le_bytes().to_vec();
    bytes.extend_from_slice(b"not an archive");
    bytes
}

#[test]
fn contract_local_route_collision_is_separated_by_contract_identity() {
    let ordinary = ShortHeader::bound(OrdinaryContract::binding(), route());
    let other = ShortHeader::bound(OtherContract::binding(), route());

    assert_eq!(
        ordinary.to_le_bytes(),
        [0x40, 0x30, 0x20, 0x10, 0x07, 0x00, 0x2a, 0x91]
    );
    assert_ne!(ordinary, other);
    assert_eq!(ordinary.route(), other.route());
    assert_ne!(ordinary.binding(), other.binding());
}

#[test]
fn short_header_pack_unpack_is_injective_at_boundaries_and_property_cases() {
    let contracts = [1, u32::MAX, 0x5555_aaaa, 0xaaaa_5555];
    let revisions = [1, u16::MAX, 0x5555, 0xaaaa];
    let roots = [0, u8::MAX, 0x55, 0xaa];
    let variants = [0, u8::MAX, 0x55, 0xaa];
    let mut packed = BTreeSet::new();

    for contract in contracts {
        for revision in revisions {
            for root in roots {
                for variant in variants {
                    let binding = ContractBinding::new(
                        ContractId::new(contract),
                        WireRevision::new(revision),
                    );
                    let route = WireRoute::new(RootCode::new(root), VariantCode::new(variant));
                    let header = ShortHeader::bound(binding, route);
                    assert_eq!(header.binding(), Ok(binding));
                    assert_eq!(header.route(), route);
                    assert!(packed.insert(header.value()));
                }
            }
        }
    }

    let boundary = ShortHeader::bound(
        ContractBinding::new(ContractId::new(u32::MAX), WireRevision::new(u16::MAX)),
        WireRoute::new(RootCode::new(u8::MAX), VariantCode::new(u8::MAX)),
    );
    assert_eq!(boundary.value(), u64::MAX);
}

#[test]
fn zero_is_reserved_and_legacy_unbound_is_explicit() {
    assert!(ContractId::try_new(0).is_err());
    assert!(WireRevision::try_new(0).is_err());

    let unbound = ShortHeader::empty();
    assert_eq!(unbound.binding(), Err(FrameError::UnboundHeader));
    assert_eq!(
        OrdinaryContract::binding().validate_header(unbound),
        Err(FrameError::UnboundHeader)
    );
}

#[test]
fn wrong_contract_rejects_before_archive_decoder_is_invoked() {
    let bytes = archive_with_junk_body(ShortHeader::bound(OtherContract::binding(), route()));

    let error = OrdinaryContract::binding()
        .validate_archive(&bytes)
        .expect_err("wrong contract must reject");

    assert_eq!(
        error,
        FrameError::ContractMismatch {
            expected: OrdinaryContract::binding().contract(),
            found: OtherContract::binding().contract(),
        }
    );
    assert_eq!(
        BoundExchangeFrame::<OrdinaryContract, u32, u32>::decode(&bytes)
            .expect_err("bound frame decode must validate before the body"),
        error
    );
}

#[test]
fn wrong_revision_rejects_before_archive_decoder_is_invoked() {
    let bytes =
        archive_with_junk_body(ShortHeader::bound(NewerOrdinaryContract::binding(), route()));

    let error = OrdinaryContract::binding()
        .validate_archive(&bytes)
        .expect_err("wrong revision must reject");

    assert_eq!(
        error,
        FrameError::UnsupportedWireRevision {
            contract: OrdinaryContract::binding().contract(),
            expected: OrdinaryContract::binding().revision(),
            found: NewerOrdinaryContract::binding().revision(),
        }
    );
    assert_eq!(
        BoundExchangeFrame::<OrdinaryContract, u32, u32>::decode(&bytes)
            .expect_err("bound frame decode must validate before the body"),
        error
    );
}

#[test]
fn bound_exchange_request_reply_and_control_preserve_identity() {
    let request_exchange = exchange(17);
    let request = BoundExchangeFrame::<OrdinaryContract, u32, u32>::new(
        route(),
        ExchangeFrameBody::Request {
            exchange: request_exchange,
            request: Request::from_payload(41),
        },
    );
    assert_eq!(request.short_header().binding(), Ok(OrdinaryContract::binding()));
    let body_archive = [1u8, 2, 3, 4, 5];
    let request_bytes = request.encode_length_prefixed(&body_archive).unwrap();
    let (header, body) =
        BoundExchangeFrame::<OrdinaryContract, u32, u32>::decode_length_prefixed(&request_bytes)
            .unwrap();
    assert_eq!(header, request.short_header());
    assert_eq!(body, &body_archive);
    match request.body() {
        ExchangeFrameBody::Request { exchange, .. } => assert_eq!(*exchange, request_exchange),
        _ => panic!("expected request"),
    }

    let reply = BoundExchangeFrame::<OrdinaryContract, u32, u32>::new(
        route(),
        ExchangeFrameBody::Reply {
            exchange: request_exchange,
            reply: signal_frame::Reply::rejected(signal_frame::RequestRejectionReason::Internal),
        },
    );
    assert_eq!(reply.short_header().binding(), Ok(OrdinaryContract::binding()));

    let control = BoundExchangeFrame::<OrdinaryContract, u32, u32>::new(
        route(),
        ExchangeFrameBody::HandshakeRequest(HandshakeRequest::current()),
    );
    assert_eq!(control.short_header().binding(), Ok(OrdinaryContract::binding()));
}

#[test]
fn binding_changes_only_the_header_not_the_archived_body() {
    let body = ExchangeFrameBody::<u32, u32>::HandshakeRequest(HandshakeRequest::current());
    let unbound = ExchangeFrame::<u32, u32>::new(body.clone());
    let bound = BoundExchangeFrame::<OrdinaryContract, u32, u32>::new(route(), body);
    let body_archive = b"archived handshake";

    let unbound_archive = unbound.encode(body_archive);
    let bound_archive = bound.encode(body_archive);
    assert_ne!(&unbound_archive[..8], &bound_archive[..8]);
    assert_eq!(&unbound_archive[8..], &bound_archive[8..]);
}

#[test]
fn bound_stream_push_preserves_token_epoch_lane_sequence_and_binding() {
    let event_identifier = StreamEventIdentifier::new(
        SessionEpoch::new(23),
        ExchangeLane::Acceptor,
        LaneSequence::new(29),
    );
    let token = SubscriptionTokenInner::new(31);
    let frame = BoundStreamingFrame::<OrdinaryContract, u32, u32, u32>::new(
        route(),
        StreamingFrameBody::SubscriptionEvent {
            event_identifier,
            token,
            event: 37,
        },
    );

    assert_eq!(frame.short_header().binding(), Ok(OrdinaryContract::binding()));
    let body_archive = [9u8, 8, 7];
    let bytes = frame.encode_length_prefixed(&body_archive).unwrap();
    let (header, body) =
        BoundStreamingFrame::<OrdinaryContract, u32, u32, u32>::decode_length_prefixed(&bytes)
            .unwrap();
    assert_eq!(header, frame.short_header());
    assert_eq!(body, &body_archive);
    match frame.into_body() {
        StreamingFrameBody::SubscriptionEvent {
            event_identifier: kept_identifier,
            token: kept_token,
            ..
        } => {
            assert_eq!(kept_identifier, event_identifier);
            assert_eq!(kept_token, token);
        }
        _ => panic!("expected event"),
    }
}

#[test]
fn primitive_and_archived_layouts_are_stable_widths() {
    assert_eq!(size_of::<ContractId>(), 4);
    assert_eq!(size_of::<WireRevision>(), 2);
    assert_eq!(size_of::<RootCode>(), 1);
    assert_eq!(size_of::<VariantCode>(), 1);
    assert_eq!(size_of::<ShortHeader>(), 8);
}

#[test]
fn generated_production_path_has_no_unbound_escape_hatch() {
    let frame = BoundExchangeFrame::<OrdinaryContract, u32, u32>::new(
        route(),
        ExchangeFrameBody::HandshakeRequest(HandshakeRequest::current()),
    );
    assert_eq!(frame.short_header().binding(), Ok(OrdinaryContract::binding()));
    assert_eq!(
        OrdinaryContract::binding().validate_header(ShortHeader::empty()),
        Err(FrameError::UnboundHeader)
    );
}

#[test]
fn a_binding_reads_back_what_it_writes() {
    let binding = OrdinaryContract::binding();
    let frame = ExchangeFrame::<u32, u32>::bound(
        binding,
        route(),
        ExchangeFrameBody::HandshakeRequest(HandshakeRequest::current()),
    );
    let body_archive = b"body bytes";
    let prefixed = frame.encode_length_prefixed(body_archive).unwrap();
    assert_eq!(binding.validate_length_prefixed(&prefixed), Ok(&body_archive[..]));
    assert_eq!(
        OtherContract::binding().validate_length_prefixed(&prefixed),
        Err(FrameError::ContractMismatch {
            expected: OtherContract::binding().contract(),
            found: binding.contract(),
        })
    );
}

#[test]
fn decoding_a_too_short_archive_reports_its_length() {
    assert_eq!(
        BoundExchangeFrame::<OrdinaryContract, u32, u32>::decode(&[1, 2, 3]),
        Err(FrameError::ShortHeaderTooShort { found: 3 })
    );
}
