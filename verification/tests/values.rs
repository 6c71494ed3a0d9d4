use signal_frame::{
    ExchangeHandshake, ExchangeIdentifier, ExchangeLane, LaneSequence, NonEmpty, NonEmptyError,
    ProtocolVersion, Request, RequestBuilder, RequestBuilderError, SessionEpoch,
    signal_frame_protocol_version, HandshakeRequest, ContractId, ProcessIdentifier, Revision,
    RootCode, VariantCode, WireRevision,
};

#[test]
fn version_acceptance_is_reflexive_and_transitive() {
    let versions = [
        ProtocolVersion::new(0, 1, 0),
        ProtocolVersion::new(0, 2, 5),
        ProtocolVersion::new(0, 3, 0),
        ProtocolVersion::new(1, 0, 0),
    ];
    for a in versions {
        assert!(a.accepts(a));
        for b in versions {
            for c in versions {
                if a.accepts(b) && b.accepts(c) {
                    assert!(a.accepts(c));
                }
            }
        }
    }
    assert_eq!(HandshakeRequest::current().version(), signal_frame_protocol_version());
    assert_eq!(signal_frame_protocol_version(), ProtocolVersion::new(0, 1, 0));
}

#[test]
fn non_empty_comes_apart_into_head_and_tail_and_back() {
    let values = NonEmpty::from_head_and_tail(1, vec![2, 3]);
    assert_eq!(values.len(), 3);
    assert!(!values.is_empty());
    assert_eq!(values.head(), &1);
    assert_eq!(values.tail(), &[2, 3]);
    let (head, tail) = values.clone().into_head_and_tail();
    assert_eq!(NonEmpty::from_head_and_tail(head, tail), values);
    assert_eq!(NonEmpty::try_from_vec(values.clone().into_vec()), Ok(values));
    assert_eq!(NonEmpty::<u8>::try_from_vec(Vec::new()), Err(NonEmptyError::Empty));
}

#[test]
fn non_empty_push_and_iteration_keep_order() {
    let mut values = NonEmpty::single('a');
    values.push('b');
    values.push('c');
    let mut iterator = values.iter();
    let mut seen = Vec::new();
    while let Some(value) = iterator.next() {
        seen.push(*value);
    }
    assert_eq!(seen, vec!['a', 'b', 'c']);
    assert_eq!(values.into_head(), 'a');
}

#[test]
fn request_builder_refuses_an_empty_request() {
    assert_eq!(RequestBuilder::<u8>::new().build(), Err(RequestBuilderError::EmptyRequest));
    let request = RequestBuilder::new().with(4u8).with(5u8).build().expect("two payloads");
    assert_eq!(request.payloads().clone().into_vec(), vec![4, 5]);
    assert_eq!(request, Request::from_payloads(NonEmpty::from_head_and_tail(4, vec![5])));
}

#[test]
fn lane_sequences_count_up_from_the_first() {
    let first = LaneSequence::first();
    assert_eq!(first.value(), 0);
    assert_eq!(first.next().value(), 1);
    assert_eq!(SessionEpoch::new(4).next().value(), 5);
    let identifier = ExchangeIdentifier::new(SessionEpoch::new(2), ExchangeLane::Acceptor, first.next());
    assert_eq!(identifier.lane(), ExchangeLane::Acceptor);
    assert_eq!(identifier.sequence(), LaneSequence::new(1));
    let handshake = ExchangeHandshake::lane_sequence(SessionEpoch::new(3));
    assert_eq!(handshake, ExchangeHandshake::lane_sequence(SessionEpoch::new(3)));
}

#[test]
fn white_space_agrees_with_the_standard_library_on_every_character() {
    for code in 0..=0x10ffffu32 {
        if let Some(character) = char::from_u32(code) {
            assert_eq!(
                signal_frame::text::is_whitespace(character),
                character.is_whitespace(),
                "character {code:#x}"
            );
        }
    }
}

#[test]
fn identifiers_are_ordered_by_their_values() {
    assert!(ContractId::new(3) < ContractId::new(5));
    assert!(!(ContractId::new(5) < ContractId::new(3)));
    assert!(WireRevision::new(1) < WireRevision::new(2));
    assert!(RootCode::new(0) < RootCode::new(255));
    assert!(VariantCode::new(9) > VariantCode::new(8));
    assert!(ProcessIdentifier::new(1) < ProcessIdentifier::new(7));
    assert_ne!(ProcessIdentifier::new(7), ProcessIdentifier::new(1));
    assert_eq!(ContractId::new(4).cmp(&ContractId::new(4)), std::cmp::Ordering::Equal);
}

#[test]
fn epochs_and_lane_sequences_only_grow() {
    let epoch = SessionEpoch::new(41);
    assert!(epoch < epoch.next());
    assert_ne!(epoch, epoch.next());
    let first = LaneSequence::first();
    assert_eq!(first.value(), 0);
    assert_eq!(first.next(), LaneSequence::new(1));
    assert!(first < first.next());
    assert!(Revision::new(2) < Revision::new(3));
}

#[test]
fn a_non_empty_sequence_is_its_head_and_tail() {
    let mut values = NonEmpty::single(1u8);
    assert_eq!(values.len(), 1 + values.tail().len());
    values.push(2);
    values.push(3);
    assert_eq!(values.len(), 1 + values.tail().len());
    assert_eq!(values.len(), 3);
    assert!(!values.is_empty());
}
