use featherpd::error::{from_transport_status, to_transport_status, Error, TransportStatus, FAILURE_CODE};

fn status(message: &str) -> TransportStatus {
    TransportStatus { code: 2, message: message.to_string() }
}

fn round_trips(err: Error) {
    let encoded = to_transport_status(err.clone());
    assert_eq!(from_transport_status(encoded), err);
}

#[test]
fn round_trip_every_kind() {
    round_trips(Error::Abort);
    round_trips(Error::Config("invalid listen address".to_string()));
    round_trips(Error::Internal("lock poisoned".to_string()));
    round_trips(Error::Parse("not a number".to_string()));
    round_trips(Error::ReadOnly);
    round_trips(Error::Serialization);
    round_trips(Error::Value("bad key".to_string()));
    round_trips(Error::NotLeader);
}

#[test]
fn round_trip_empty_and_spaced_details() {
    round_trips(Error::Config(String::new()));
    round_trips(Error::Internal(String::new()));
    round_trips(Error::Parse("several words with  double  spaces".to_string()));
    round_trips(Error::Value(" leading and trailing ".to_string()));
}

#[test]
fn encode_uses_the_generic_failure_code() {
    assert_eq!(to_transport_status(Error::Abort).code, FAILURE_CODE);
    assert_eq!(to_transport_status(Error::Value("x".to_string())).code, FAILURE_CODE);
}

#[test]
fn encode_value_bad_key() {
    let st = to_transport_status(Error::Value("bad key".to_string()));
    assert_eq!(st.message, "[Value] bad key");
    assert_eq!(from_transport_status(st), Error::Value("bad key".to_string()));
}

#[test]
fn encode_abort_uses_default_phrase() {
    let st = to_transport_status(Error::Abort);
    assert_eq!(st.message, "[Abort] Operation aborted");
    assert_eq!(from_transport_status(st), Error::Abort);
}

#[test]
fn encode_messages_of_stringless_kinds() {
    assert_eq!(to_transport_status(Error::ReadOnly).message, "[ReadOnly] Read-only transaction");
    assert_eq!(
        to_transport_status(Error::Serialization).message,
        "[Serialization] Serialization failure, retry transaction"
    );
    assert_eq!(to_transport_status(Error::NotLeader).message, "[NotLeader] Not leader");
}

#[test]
fn decode_discards_text_after_a_stringless_tag() {
    assert_eq!(from_transport_status(status("[Abort] anything at all")), Error::Abort);
    assert_eq!(from_transport_status(status("[ReadOnly] extra words")), Error::ReadOnly);
    assert_eq!(from_transport_status(status("[Serialization] x y z")), Error::Serialization);
    assert_eq!(from_transport_status(status("[NotLeader] n")), Error::NotLeader);
}

#[test]
fn decode_tag_without_detail_gives_empty_string() {
    assert_eq!(from_transport_status(status("[Config]")), Error::Config(String::new()));
    assert_eq!(from_transport_status(status("[Internal] ")), Error::Internal(String::new()));
}

#[test]
fn decode_keeps_embedded_double_spaces() {
    assert_eq!(
        from_transport_status(status("[Parse] a  b")),
        Error::Parse("a  b".to_string())
    );
}

#[test]
fn decode_unlabeled_message_falls_back_to_internal() {
    assert_eq!(
        from_transport_status(status("weird unlabeled failure")),
        Error::Internal("Unknown error type: \"weird unlabeled failure\"".to_string())
    );
}

#[test]
fn decode_never_fails_on_arbitrary_messages() {
    for raw in ["", " ", "Abort", "[abort] x", "[Unknown] y", "???", "x [Config] y"] {
        match from_transport_status(status(raw)) {
            Error::Internal(detail) => assert!(detail.contains(raw)),
            other => panic!("expected the Internal fallback, got {:?}", other),
        }
    }
}

#[test]
fn display_strings() {
    assert_eq!(Error::Abort.display_string(), "Operation aborted");
    assert_eq!(Error::Config("c".to_string()).display_string(), "c");
    assert_eq!(Error::Internal("i".to_string()).display_string(), "i");
    assert_eq!(Error::Parse("p".to_string()).display_string(), "p");
    assert_eq!(Error::ReadOnly.display_string(), "Read-only transaction");
    assert_eq!(
        Error::Serialization.display_string(),
        "Serialization failure, retry transaction"
    );
    assert_eq!(Error::Value("v".to_string()).display_string(), "v");
    assert_eq!(Error::NotLeader.display_string(), "Not leader");
}
