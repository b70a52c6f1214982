use widevin::{
    deterministic_uuid, normalize_devin_session_token, parse_possibly_complete_json,
    parse_possibly_complete_json_throttled, parse_streaming_json, store_error, token_from_file_contents,
    DevinError, MemoryTokenSlot,
};

fn empty_object() -> serde_json::Value {
    serde_json::Value::Object(serde_json::Map::new())
}

#[test]
fn json_uuid_and_token_helpers_match_typescript() {
    assert_eq!(parse_streaming_json(None), empty_object());
    assert_eq!(parse_streaming_json(Some("{")), empty_object());
    assert_eq!(parse_streaming_json(Some("null")), serde_json::Value::Null);
    assert_eq!(
        deterministic_uuid("cascade-1\u{0}1\u{0}tool\u{0}call-1"),
        "6225ae28-44b7-53fa-aad2-79b48041b84a"
    );
    assert_eq!(normalize_devin_session_token(Some("raw")), "devin-session-token$raw");
    assert_eq!(
        normalize_devin_session_token(Some("devin-session-token$raw")),
        "devin-session-token$raw"
    );
    assert_eq!(normalize_devin_session_token(Some("")), "");
    assert_eq!(normalize_devin_session_token(None), "");

    let first = parse_possibly_complete_json_throttled("{\"q\":", 0).expect("first non-empty value is parsed");
    assert_eq!(first.attempted_length, 5);
    assert!(first.value.is_none());
    assert!(parse_possibly_complete_json_throttled(
        &format!("{{\"q\":{}", " ".repeat(255)),
        first.attempted_length
    )
    .is_none());
    assert_eq!(
        parse_possibly_complete_json_throttled("😀", 0).expect("unicode parse attempt").attempted_length,
        2
    );
}

#[test]
fn parse_throttle_waits_for_enough_growth() {
    assert!(parse_possibly_complete_json_throttled("", 0).is_none());
    let grown = format!("{{\"q\":{}", " ".repeat(256));
    let attempt = parse_possibly_complete_json_throttled(&grown, 5).expect("grown enough");
    assert_eq!(attempt.attempted_length, 261);
    assert!(attempt.value.is_none());
    assert!(parse_possibly_complete_json_throttled("{}", 300).is_none());
    let parsed = parse_possibly_complete_json_throttled("{\"a\":1}", 0).expect("parsed");
    assert_eq!(parsed.value, parse_possibly_complete_json("{\"a\":1}"));
    assert!(parsed.value.is_some());
}

#[test]
fn uuid_is_stable_and_versioned() {
    let a = deterministic_uuid("cascade-1\u{0}0\u{0}user");
    assert_eq!(a, deterministic_uuid("cascade-1\u{0}0\u{0}user"));
    assert_ne!(a, deterministic_uuid("cascade-1\u{0}0\u{0}developer"));
    assert_eq!(a.len(), 36);
    assert_eq!(&a[14..15], "5");
    assert!(matches!(&a[19..20], "8" | "9" | "a" | "b"));
}

#[test]
fn memory_slot_reads_back_writes_and_clears() {
    let mut slot = MemoryTokenSlot::new(Some("initial".into()));
    assert_eq!(slot.get().as_deref(), Some("initial"));
    slot.set("next".into());
    assert_eq!(slot.get().as_deref(), Some("next"));
    slot.clear();
    assert_eq!(slot.get(), None);
    assert_eq!(MemoryTokenSlot::new(None).get(), None);
}

#[test]
fn token_files_are_trimmed_and_errors_name_the_file() {
    assert_eq!(token_from_file_contents("  secret\n").as_deref(), Some("secret"));
    assert_eq!(token_from_file_contents(" \n\t"), None);
    assert_eq!(token_from_file_contents("secret").as_deref(), Some("secret"));
    assert_eq!(
        store_error("read", "/tmp/token", "denied"),
        DevinError::protocol("failed to read token file /tmp/token: denied".into())
    );
}

#[test]
fn transport_errors_carry_status_zero() {
    assert_eq!(
        DevinError::api_transport("offline".into()),
        DevinError::Api { message: "Devin transport failed: offline".into(), status: 0, body: None }
    );
    assert_eq!(DevinError::protocol("x".into()).message(), "x");
}
