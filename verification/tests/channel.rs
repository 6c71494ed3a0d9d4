use signal_frame::channel::{
    augment_with_observable, projected_record_head, validate, validate_record_head_uniqueness,
    BlockKind, ChannelSpecError, FilterDecl,
};
use signal_frame::channel_syntax::{
    parse_channel, tokenize, ChannelSyntaxError, Expectation, SyntaxFailure,
};

const MESSAGE: &str = "
    channel Message contract TestContract {
        operation Submit(Submission),
        operation Query(InboxQuery),
    }
    reply Reply {
        Accepted(Receipt),
        Inbox(Inbox),
    }
";

const TERMINAL: &str = "
    channel Terminal contract TestContract {
        operation Watch(WatchWorker) opens WorkerLifecycle,
        operation Stop(WorkerToken),
    }
    reply Reply {
        Opened(WorkerOpened),
        Stopped(WorkerStopped),
    }
    event Event {
        Started(WorkerStarted) belongs WorkerLifecycle,
    }
    stream WorkerLifecycle {
        token WorkerToken;
        opened Opened;
        event Started;
        close Stop;
    }
";

const LEDGER: &str = "
    channel Ledger contract TestContract {
        operation Record(LedgerNote),
    }
    reply Reply {
        Recorded(LedgerAcknowledgement),
    }
    observable {
        filter default;
        operation_event AuditOperationReceived;
        effect_event AuditEffectEmitted;
    }
";

fn failure(text: &str) -> ChannelSyntaxError {
    match parse_channel(text) {
        Ok(channel) => panic!("expected a refusal, read {channel:?}"),
        Err(error) => error,
    }
}

#[test]
fn tokens_are_words_and_single_marks() {
    assert_eq!(
        tokenize("operation First(first::Status),"),
        vec!["operation", "First", "(", "first", ":", ":", "Status", ")", ","]
    );
    assert_eq!(tokenize("  "), Vec::<String>::new());
}

#[test]
fn reads_a_channel_of_operations_and_replies() {
    let channel = parse_channel(MESSAGE).expect("declaration reads");
    assert_eq!(channel.name, "Message");
    assert_eq!(channel.contract, "TestContract");
    assert_eq!(channel.request.name, "MessageOperation");
    assert_eq!(channel.request.variants.len(), 2);
    assert_eq!(channel.request.variants[1].variant_name, "Query");
    assert_eq!(channel.request.variants[1].payload_type, "InboxQuery");
    assert_eq!(channel.reply.name, "Reply");
    assert_eq!(channel.reply.variants[0].payload_type, Some("Receipt".to_string()));
    assert!(channel.event.is_none());
    assert!(channel.streams.is_empty());
    assert!(channel.observable.is_none());
    assert!(!channel.is_streaming());
    assert_eq!(validate(&channel), Ok(()));
}

#[test]
fn reads_streams_events_and_unit_replies() {
    let channel = parse_channel(TERMINAL).expect("declaration reads");
    assert_eq!(channel.request.variants[0].opens, Some("WorkerLifecycle".to_string()));
    let event = channel.event.as_ref().expect("event block");
    assert_eq!(event.variants[0].belongs, Some("WorkerLifecycle".to_string()));
    assert_eq!(channel.streams.len(), 1);
    assert_eq!(channel.streams[0].token, "WorkerToken");
    assert_eq!(channel.streams[0].events, vec!["Started".to_string()]);
    assert_eq!(channel.streams[0].close, "Stop");
    assert_eq!(validate(&channel), Ok(()));

    let unit = parse_channel(
        "channel UnitReply contract TestContract { operation Submit(Submission) } reply Reply { Accepted(Receipt), NotFound }",
    )
    .expect("declaration reads");
    assert_eq!(unit.reply.variants[1].variant_name, "NotFound");
    assert_eq!(unit.reply.variants[1].payload_type, None);
}

#[test]
fn types_keep_paths_and_generic_arguments() {
    let channel = parse_channel(
        "channel Typed contract C { operation Get(std::vec::Vec<(u8, [u16; 2])>) } reply R { Got(Option<u8>) }",
    )
    .expect("declaration reads");
    assert_eq!(channel.request.variants[0].payload_type, "std::vec::Vec<(u8,[u16;2])>");
    assert_eq!(channel.reply.variants[0].payload_type, Some("Option<u8>".to_string()));
}

#[test]
fn reads_an_observable_block_and_augments_it() {
    let channel = parse_channel(LEDGER).expect("declaration reads");
    let observable = channel.observable.as_ref().expect("observable block");
    assert!(matches!(observable.filter, FilterDecl::Default));
    assert_eq!(observable.operation_event, "AuditOperationReceived");
    assert_eq!(validate(&channel), Ok(()));

    let augmented = augment_with_observable(&channel);
    let names: Vec<&str> =
        augmented.request.variants.iter().map(|variant| variant.variant_name.as_str()).collect();
    assert_eq!(names, vec!["Record", "Tap", "Untap"]);
    assert_eq!(augmented.request.variants[1].payload_type, "ObserverFilter");
    assert_eq!(augmented.streams[0].name, "ObserverStream");
    assert!(augmented.observable.is_none());
    assert_eq!(augmented.contract, "TestContract");
}

#[test]
fn channel_macro_rejects_invalid_contract_local_shapes() {
    assert_eq!(
        failure("channel MissingContract { operation Submit(Submission), } reply Reply { Accepted }"),
        ChannelSyntaxError { position: 2, failure: SyntaxFailure::Expected(Expectation::Contract) }
    );
    assert_eq!(
        failure("channel Message contract T { Assert Submit(Submission), } reply R { A(B) }"),
        ChannelSyntaxError { position: 5, failure: SyntaxFailure::Expected(Expectation::Operation) }
    );
    assert_eq!(
        failure("channel L contract T { operation R(N) } reply R { A(B) } observable { filter F; }"),
        ChannelSyntaxError {
            position: 24,
            failure: SyntaxFailure::Expected(Expectation::OperationEvent),
        }
    );
    assert_eq!(
        failure("channel L contract T { operation R(N) } reply R { A(B) } observable { operation_event O; effect_event E; }"),
        ChannelSyntaxError { position: 21, failure: SyntaxFailure::Expected(Expectation::Filter) }
    );
    let duplicate = format!("{LEDGER} observable {{ filter F; operation_event O; effect_event E; }}");
    assert!(matches!(
        failure(&duplicate).failure,
        SyntaxFailure::DuplicateObservable
    ));
    assert_eq!(
        failure("channel L contract T { operation R(N) }"),
        ChannelSyntaxError { position: 1, failure: SyntaxFailure::MissingReply }
    );
    assert!(matches!(
        failure("channel L contract T { operation R(N) } reply R { A(B) } stream S { token K; opened A; close R; }").failure,
        SyntaxFailure::StreamWithoutEvents
    ));
    assert!(matches!(
        failure("channel L contract T { operation R(N) } reply R { A(B) } reply Q { C(D) }").failure,
        SyntaxFailure::DuplicateReply
    ));
    assert_eq!(
        failure("channel L contract T { operation R(N)) } reply R { A(B) }").failure,
        SyntaxFailure::Expected(Expectation::Comma)
    );
}

#[test]
fn validation_rejects_colliding_record_heads_and_broken_streams() {
    let heads = parse_channel(
        "channel StatusChannel contract T { operation First(first::Status), operation Second(second::Status) } reply StatusReply { Accepted(Receipt) }",
    )
    .unwrap();
    assert_eq!(validate(&heads), Ok(()));
    assert_eq!(
        validate_record_head_uniqueness(&heads),
        Err(ChannelSpecError::DuplicateRecordHead { block: BlockKind::Request, variant: 1, prior: 0 })
    );
    assert_eq!(projected_record_head(&"first :: Status".to_string()), "Status");

    let orphan = parse_channel(&TERMINAL.replace("opens WorkerLifecycle", "")).unwrap();
    assert_eq!(validate(&orphan), Err(ChannelSpecError::OrphanStream { stream: 0 }));

    let mismatched_close = parse_channel(&TERMINAL.replace("Stop(WorkerToken)", "Stop(StopPayload)")).unwrap();
    assert_eq!(
        validate(&mismatched_close),
        Err(ChannelSpecError::CloseTokenMismatch { stream: 0, variant: 1 })
    );

    let tapped = parse_channel(&LEDGER.replace("operation Record(LedgerNote)", "operation Tap(LedgerNote)")).unwrap();
    assert_eq!(validate(&tapped), Err(ChannelSpecError::ReservedOperation { variant: 0 }));

    let repeated = parse_channel(
        "channel D contract T { operation Same(A), operation Same(B) } reply R { X(Y) }",
    )
    .unwrap();
    assert_eq!(
        validate(&repeated),
        Err(ChannelSpecError::DuplicateVariant { block: BlockKind::Request, variant: 1 })
    );
}

const OBSERVED_LEDGER: &str = "
    channel Ledger contract TestContract {
        operation Record(LedgerNote),
    }
    reply Reply {
        Recorded(LedgerAcknowledgement),
    }
    observable {
        filter LedgerObserverFilter;
        operation_event OperationReceived;
        effect_event EffectEmitted;
    }
";

#[test]
fn binary_channel_accepts_distinct_reply_variants_with_the_same_payload_type() {
    let channel = parse_channel(
        "channel DuplicatePayload contract DuplicatePayloadContract {
            operation Submit(Command),
        }
        reply Reply {
            Accepted(Snapshot),
            Released(Snapshot),
        }",
    )
    .expect("declaration reads");
    assert_eq!(validate(&channel), Ok(()));
}

#[test]
fn observable_block_injects_macro_mandated_tap_and_untap_operations() {
    let augmented = augment_with_observable(&parse_channel(OBSERVED_LEDGER).unwrap());
    let tap = &augmented.request.variants[1];
    assert_eq!(tap.variant_name, "Tap");
    assert_eq!(tap.payload_type, "LedgerObserverFilter");
    assert_eq!(tap.opens, Some("ObserverStream".to_string()));
    let untap = &augmented.request.variants[2];
    assert_eq!(untap.variant_name, "Untap");
    assert_eq!(untap.payload_type, "ObserverSubscriptionToken");
    assert_eq!(augmented.streams[0].close, "Untap");
    assert_eq!(validate(&augmented), Ok(()));
}

#[test]
fn observable_block_injects_observer_stream_and_event_classes() {
    let augmented = augment_with_observable(&parse_channel(OBSERVED_LEDGER).unwrap());
    let event = augmented.event.as_ref().expect("event block");
    assert_eq!(event.name, "Event");
    let names: Vec<&str> = event.variants.iter().map(|variant| variant.variant_name.as_str()).collect();
    assert_eq!(names, vec!["OperationReceived", "EffectEmitted"]);
    for variant in &event.variants {
        assert_eq!(variant.belongs, Some("ObserverStream".to_string()));
    }
    assert_eq!(augmented.streams[0].events, vec!["OperationReceived".to_string(), "EffectEmitted".to_string()]);
}

#[test]
fn observable_block_injects_reply_variant_with_freshly_minted_token() {
    let augmented = augment_with_observable(&parse_channel(OBSERVED_LEDGER).unwrap());
    let opened = &augmented.reply.variants[1];
    assert_eq!(opened.variant_name, "ObserverSubscriptionOpened");
    assert_eq!(opened.payload_type, Some("ObserverSubscriptionOpened".to_string()));
    assert_eq!(augmented.streams[0].opened, "ObserverSubscriptionOpened");
    assert_eq!(augmented.streams[0].token, "ObserverSubscriptionToken");
}

#[test]
fn observable_allows_domain_observe_operation_alongside_macro_mandated_tap() {
    let channel = parse_channel(&OBSERVED_LEDGER.replace("Record(LedgerNote)", "Observe(Selection)")).unwrap();
    assert_eq!(validate(&channel), Ok(()));
    let augmented = augment_with_observable(&channel);
    let observe = &augmented.request.variants[0];
    assert_eq!(observe.variant_name, "Observe");
    assert_eq!(observe.opens, None);
    assert_eq!(augmented.request.variants[1].opens, Some("ObserverStream".to_string()));
}

#[test]
fn a_validated_declaration_augments_into_a_valid_one() {
    for text in [MESSAGE, TERMINAL, LEDGER, OBSERVED_LEDGER] {
        let channel = parse_channel(text).unwrap();
        assert_eq!(validate(&channel), Ok(()));
        assert_eq!(validate(&augment_with_observable(&channel)), Ok(()));
    }
}
