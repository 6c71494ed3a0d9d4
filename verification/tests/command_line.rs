use signal_frame::command_line::{environment_stem_of, exchange_reply, socket_variables};
use signal_frame::{
    ClientShape, CommandLineDispatch, CommandLineError, CommandLineRouteError,
    CommandLineRouteTable, CommandLineSocket, CommandLineSockets, ExchangeFrameBody,
    ExchangeIdentifier, ExchangeLane, HandshakeRequest, LaneSequence, NonEmpty, Reply,
    RequestHead, RequestInput, RequestRejectionReason, SessionEpoch, SignalOperationHeads,
    SingleArgument, SingleArgumentError, SubReply,
};

struct WorkingOperation;

impl SignalOperationHeads for WorkingOperation {
    const HEADS: &'static [&'static str] = &["Submit", "Query"];
}

struct MetaOperation;

impl SignalOperationHeads for MetaOperation {
    const HEADS: &'static [&'static str] = &["Observe", "Query"];
}

fn arguments(values: &[&str]) -> Vec<String> {
    values.iter().map(|value| value.to_string()).collect()
}

#[test]
fn single_argument_accepts_exactly_one_non_flag_argument() {
    let argument = SingleArgument::from_arguments(arguments(&["spirit", "(Observe)"]))
        .expect("one argument accepted");

    assert_eq!(argument.as_str(), "(Observe)");

    assert!(matches!(
        SingleArgument::from_arguments(arguments(&["spirit"])),
        Err(SingleArgumentError::WrongArgumentCount { found: 0, .. })
    ));
    assert!(matches!(
        SingleArgument::from_arguments(arguments(&["spirit", "--help"])),
        Err(SingleArgumentError::FlagArgument { .. })
    ));
}

#[test]
fn single_argument_counts_every_value_and_names_the_program() {
    assert_eq!(
        SingleArgument::from_arguments(arguments(&["spirit", "(A)", "(B)"])),
        Err(SingleArgumentError::WrongArgumentCount { program: "spirit".to_string(), found: 2 })
    );
    assert_eq!(
        SingleArgument::from_arguments(Vec::new()),
        Err(SingleArgumentError::WrongArgumentCount { program: "signal-cli".to_string(), found: 0 })
    );
    assert_eq!(
        SingleArgument::from_arguments(arguments(&["spirit", "-x"])).map(SingleArgument::into_string),
        Ok("-x".to_string())
    );
}

#[test]
fn request_head_routes_first_payload_in_sequence() {
    let head = RequestHead::from_head("Submit".to_string());

    assert_eq!(
        head.route::<WorkingOperation, MetaOperation>().expect("route"),
        CommandLineSocket::Working
    );
    assert_eq!(WorkingOperation::HEADS, &["Submit", "Query"]);
}

#[test]
fn route_table_refuses_unknown_and_ambiguous_heads() {
    let table = CommandLineRouteTable::new(WorkingOperation::HEADS, MetaOperation::HEADS);
    assert_eq!(table.route_head("Observe"), Ok(CommandLineSocket::Meta));
    assert_eq!(
        table.route_head("Query"),
        Err(CommandLineRouteError::AmbiguousRequestHead { head: "Query".to_string() })
    );
    assert_eq!(
        table.route_head("Missing"),
        Err(CommandLineRouteError::UnknownRequestHead { head: "Missing".to_string() })
    );
    let dispatch = CommandLineDispatch::<WorkingOperation, MetaOperation>::new();
    assert_eq!(dispatch.route_head("Submit"), Ok(CommandLineSocket::Working));

    let error = RequestHead::from_head("Missing".to_string())
        .route::<WorkingOperation, MetaOperation>()
        .unwrap_err();
    assert_eq!(
        error,
        CommandLineError::Route { reason: "unknown request head: Missing".to_string() }
    );
    assert_eq!(error.exit_code(), 64);
}

#[test]
fn command_line_sockets_derive_persona_environment_names_from_binary_name() {
    let (working, meta) = socket_variables("spirit");

    assert_eq!(working, "PERSONA_SPIRIT_SOCKET");
    assert_eq!(meta, "PERSONA_SPIRIT_META_SOCKET");

    let (working, meta) = socket_variables("persona_orchestrate");

    assert_eq!(working, "PERSONA_ORCHESTRATE_SOCKET");
    assert_eq!(meta, "PERSONA_ORCHESTRATE_META_SOCKET");
}

#[test]
fn environment_stem_shouts_and_joins_separators() {
    assert_eq!(environment_stem_of("persona-mind-reader"), "PERSONA_MIND_READER");
    assert_eq!(environment_stem_of("a--b__"), "PERSONA_A_B");
    assert_eq!(environment_stem_of(""), "PERSONA");
}

#[test]
fn missing_sockets_name_their_variables() {
    let sockets = CommandLineSockets::new(
        None,
        Some("/run/meta.sock".to_string()),
        "PERSONA_SPIRIT_SOCKET".to_string(),
        "PERSONA_SPIRIT_META_SOCKET".to_string(),
    );
    assert_eq!(
        sockets.working_socket(),
        Err(CommandLineError::MissingSocket { variable: "PERSONA_SPIRIT_SOCKET".to_string() })
    );
    assert_eq!(sockets.meta_socket(), Ok("/run/meta.sock"));
    let only = CommandLineSockets::working_only("/run/work.sock".to_string());
    assert_eq!(only.working_socket(), Ok("/run/work.sock"));
    assert_eq!(
        only.meta_socket().unwrap_err().exit_code(),
        69
    );
}

#[test]
fn inline_request_text_is_recognised_after_white_space() {
    let inline = RequestInput::new(SingleArgument::from_arguments(arguments(&["spirit", "  (Submit)"])).unwrap());
    assert_eq!(inline.inline_text(), Some("  (Submit)".to_string()));
    let path = RequestInput::new(SingleArgument::from_arguments(arguments(&["spirit", "request.nota"])).unwrap());
    assert_eq!(path.inline_text(), None);
}

fn exchange(sequence: u64) -> ExchangeIdentifier {
    ExchangeIdentifier::new(SessionEpoch::new(0), ExchangeLane::Connector, LaneSequence::new(sequence))
}

#[test]
fn client_shape_rejects_reply_for_a_different_exchange() {
    let expected = ClientShape::<u8, u8>::exchange();
    let wrong = ExchangeIdentifier::new(
        expected.session_epoch(),
        expected.lane(),
        expected.sequence().next(),
    );
    let body = ExchangeFrameBody::<u32, u32>::Reply {
        exchange: wrong,
        reply: Reply::committed(NonEmpty::single(SubReply::Completed(1))),
    };
    let error = exchange_reply(body, expected).unwrap_err();
    assert!(matches!(
        error,
        CommandLineError::ReplyExchangeMismatch { expected, found }
            if expected.sequence().next() == found.sequence()
    ));
    assert_eq!(error.exit_code(), 70);
}

#[test]
fn client_reads_the_reply_of_its_own_exchange_only() {
    let own = exchange(0);
    let reply = Reply::committed(NonEmpty::single(SubReply::Completed(5u32)));
    let body = ExchangeFrameBody::<u32, u32>::Reply { exchange: own, reply: reply.clone() };
    assert_eq!(exchange_reply(body, own), Ok(reply));

    let handshake = ExchangeFrameBody::<u32, u32>::HandshakeRequest(HandshakeRequest::current());
    assert_eq!(
        exchange_reply(handshake, own),
        Err(CommandLineError::UnexpectedFrame { expected: "reply", got: "HandshakeRequest".to_string() })
    );
}

#[test]
fn client_shape_prints_multi_operation_replies_as_sequence() {
    let reply = Reply::committed(NonEmpty::from_head_and_tail(
        SubReply::Completed(true),
        vec![SubReply::Completed(false)],
    ));
    let payloads = ClientShape::<u8, u8>::reply_payloads(reply).expect("payloads");
    assert_eq!(payloads.into_vec(), vec![true, false]);
}

#[test]
fn reply_payloads_refuse_failed_operations_and_rejections() {
    let reply = Reply::committed(NonEmpty::from_head_and_tail(
        SubReply::Completed(1u32),
        vec![SubReply::Skipped, SubReply::Invalidated],
    ));
    assert_eq!(
        ClientShape::<u8, u8>::reply_payloads(reply),
        Err(CommandLineError::UnexpectedFrame {
            expected: "accepted operation reply",
            got: "Skipped".to_string(),
        })
    );
    let rejected = Reply::<u32>::rejected(RequestRejectionReason::Internal);
    assert_eq!(
        ClientShape::<u8, u8>::reply_payloads(rejected),
        Err(CommandLineError::RequestRejected {
            reason: "receiver-internal pre-execution or infrastructure failure".to_string(),
        })
    );
}

#[test]
fn frame_length_refuses_frames_above_the_limit() {
    let client = ClientShape::<u8, u8>::new(CommandLineSockets::working_only("/run/work.sock".to_string()))
        .with_maximum_frame_bytes(300);
    assert_eq!(client.frame_length([0, 0, 1, 44]), Ok(300));
    assert_eq!(
        client.frame_length([0, 0, 1, 45]),
        Err(CommandLineError::FrameTooLarge { found: 301, limit: 300 })
    );
    let default_client = ClientShape::<u8, u8>::new(CommandLineSockets::working_only("/run/work.sock".to_string()));
    assert_eq!(default_client.maximum_frame_bytes(), 8 * 1024 * 1024);
}

struct MessageOperation;

impl SignalOperationHeads for MessageOperation {
    const HEADS: &'static [&'static str] = &["Submit", "Query"];
}

struct MetaMessageOperation;

impl SignalOperationHeads for MetaMessageOperation {
    const HEADS: &'static [&'static str] = &["Configure", "Drain"];
}

#[test]
fn signal_cli_macro_routes_heads_to_working_or_meta_socket() {
    let dispatch = CommandLineDispatch::<MessageOperation, MetaMessageOperation>::new();

    assert_eq!(
        dispatch.route_head("Submit").expect("working head routes"),
        CommandLineSocket::Working
    );
    assert_eq!(dispatch.route_head("Drain").expect("meta head routes"), CommandLineSocket::Meta);
    assert!(matches!(
        dispatch.route_head("Unknown"),
        Err(CommandLineRouteError::UnknownRequestHead { .. })
    ));
    assert_eq!(dispatch.table().working_heads(), &["Submit", "Query"]);
    assert!(MessageOperation::contains_head("Query"));
    assert!(!MessageOperation::contains_head("Drain"));
}
