use base64::Engine;
use sha2::{Digest, Sha256};
use widevin::{
    build_devin_auth_url, callback_head_step, callback_redirect_uri, callback_response, create_pkce_pair, parse_callback_request,
    parse_callback_url, request_head_complete, token_exchange_failure, token_exchange_result, token_exchange_url,
    token_request_body, validate_devin_oauth_callback, BuildDevinAuthUrlOptions, CallbackHeadStep, DevinError,
    CALLBACK_READ_CHUNK_BYTES, MAX_CALLBACK_REQUEST_HEAD_BYTES,
};

#[test]
fn pkce_url_and_callback_validation_match_typescript() {
    let pair = create_pkce_pair();
    let challenge = base64::Engine::encode(
        &base64::engine::general_purpose::URL_SAFE_NO_PAD,
        Sha256::digest(pair.verifier.as_bytes()),
    );
    assert_eq!(pair.challenge, challenge);

    let url = build_devin_auth_url(&BuildDevinAuthUrlOptions {
        app_base_url: "https://app.example".into(),
        redirect_uri: "http://127.0.0.1:59653/callback".into(),
        state: "state-1".into(),
        challenge: "challenge-1".into(),
    })
    .expect("auth URL");
    let parsed = url::Url::parse(&url).expect("parse URL");
    assert_eq!(parsed.path(), "/auth/cli/continue");
    assert_eq!(
        parsed
            .query_pairs()
            .find(|(key, _)| key == "code_challenge")
            .map(|(_, value)| value.into_owned())
            .as_deref(),
        Some("challenge-1")
    );

    assert_eq!(
        validate_devin_oauth_callback(
            &parse_callback_url("http://127.0.0.1:59653/callback?state=state-1&code=code-1").expect("callback"),
            "state-1"
        )
        .expect("callback code"),
        "code-1"
    );
    assert!(matches!(
        validate_devin_oauth_callback(
            &parse_callback_url("http://127.0.0.1:59653/callback?state=wrong&code=code-1").expect("callback"),
            "state-1"
        ),
        Err(DevinError::Auth { .. })
    ));
}

#[test]
fn pkce_verifier_encodes_thirty_two_bytes() {
    let pair = create_pkce_pair();
    let bytes = base64::engine::general_purpose::URL_SAFE_NO_PAD.decode(pair.verifier.as_bytes()).expect("base64");
    assert_eq!(bytes.len(), 32);
    assert_eq!(pair.verifier.len(), 43);
    assert_ne!(create_pkce_pair().verifier, pair.verifier);
}

#[test]
fn auth_url_trims_slashes_and_keeps_query_order() {
    let url = build_devin_auth_url(&BuildDevinAuthUrlOptions {
        app_base_url: "https://app.example//".into(),
        redirect_uri: "http://127.0.0.1:59653/callback".into(),
        state: "s 1".into(),
        challenge: "c".into(),
    })
    .expect("auth URL");
    assert_eq!(
        url,
        "https://app.example/auth/cli/continue?redirect_uri=http%3A%2F%2F127.0.0.1%3A59653%2Fcallback&state=s+1&prompt=select_account&code_challenge=c&code_challenge_method=S256"
    );
    let error = build_devin_auth_url(&BuildDevinAuthUrlOptions {
        app_base_url: "not a url".into(),
        ..Default::default()
    })
    .expect_err("invalid base");
    match error {
        DevinError::Auth { message } => assert!(message.starts_with("Invalid Devin app URL: ")),
        other => panic!("unexpected {other:?}"),
    }
    assert_eq!(BuildDevinAuthUrlOptions::default().app_base_url, "https://app.devin.ai");
}

#[test]
fn callback_validation_reports_each_failure() {
    let check = |url: &str| validate_devin_oauth_callback(&parse_callback_url(url).expect("url"), "s");
    let message = |r: Result<String, DevinError>| match r {
        Err(DevinError::Auth { message }) => message,
        other => panic!("unexpected {other:?}"),
    };
    assert_eq!(message(check("http://127.0.0.1/other?state=s&code=c")), "Unexpected Devin OAuth callback path");
    assert_eq!(message(check("http://127.0.0.1/callback?code=c")), "Invalid Devin OAuth callback state");
    assert_eq!(message(check("http://127.0.0.1/callback?state=s&code=")), "Missing Devin OAuth callback code");
    assert_eq!(message(check("http://127.0.0.1/callback?state=s")), "Missing Devin OAuth callback code");
    assert_eq!(check("http://127.0.0.1/callback?state=s&state=t&code=a&code=b").expect("code"), "a");
}

#[test]
fn callback_request_head_is_parsed_and_answered() {
    let head = b"GET /callback?state=s&code=code-1 HTTP/1.1\r\nhost: 127.0.0.1\r\n\r\n";
    assert!(request_head_complete(head));
    assert!(!request_head_complete(b"GET /callback HTTP/1.1\r\n"));
    assert_eq!(parse_callback_request(head, "s").expect("code"), "code-1");
    assert!(matches!(parse_callback_request(b"", "s"), Err(DevinError::Auth { message }) if message == "Invalid Devin OAuth callback request"));
    assert!(matches!(parse_callback_request(b"GET\r\n\r\n", "s"), Err(DevinError::Auth { .. })));
    assert!(matches!(parse_callback_request(head, "other"), Err(DevinError::Auth { message }) if message == "Invalid Devin OAuth callback state"));

    let ok = callback_response(None);
    assert_eq!(
        ok,
        "HTTP/1.1 200 OK\r\ncontent-type: text/plain\r\ncontent-length: 57\r\nconnection: close\r\n\r\nDevin authentication complete. You can close this window."
    );
    let bad = callback_response(Some(&DevinError::auth("nö".into())));
    assert!(bad.starts_with("HTTP/1.1 400 Bad Request\r\n"));
    assert!(bad.contains("content-length: 3\r\n"));
    assert!(bad.ends_with("\r\n\r\nnö"));
    assert_eq!(callback_redirect_uri(59_653), "http://127.0.0.1:59653/callback");
}

#[test]
fn token_exchange_request_and_outcomes() {
    assert_eq!(token_exchange_url("https://api.example/"), "https://api.example/auth/cli/token");
    let body = token_request_body("code-1", "verifier-1").expect("body");
    let parsed: serde_json::Value = serde_json::from_slice(&body).expect("json");
    let expected: serde_json::Value =
        serde_json::from_str(r#"{"code":"code-1","code_verifier":"verifier-1"}"#).expect("expected");
    assert_eq!(parsed, expected);

    assert_eq!(token_exchange_result(200, br#"{"token":"raw-token"}"#).expect("token"), "raw-token");
    let message = |r: Result<String, DevinError>| match r {
        Err(DevinError::Auth { message }) => message,
        other => panic!("unexpected {other:?}"),
    };
    assert_eq!(
        message(token_exchange_result(200, br#"{"token":""}"#)),
        "Devin CLI token exchange returned an empty token"
    );
    assert_eq!(message(token_exchange_result(200, br#"{"other":1}"#)), "Devin CLI token exchange returned an empty token");
    assert!(message(token_exchange_result(200, b"nope")).starts_with("Devin CLI token exchange returned invalid JSON: "));
    assert_eq!(message(token_exchange_result(500, b"busy \n")), "Devin CLI token exchange failed: 500 busy");
    assert_eq!(message(token_exchange_result(404, b"")), "Devin CLI token exchange failed: 404");
    assert_eq!(message(Err(token_exchange_failure("offline"))), "Devin CLI token exchange failed: offline");
}

#[test]
fn callback_head_reading_stops_caps_and_reads_in_chunks() {
    assert!(matches!(callback_head_step(b"GET /callback HTTP/1.1\r\nHost: x\r\n\r\n"), CallbackHeadStep::Complete));
    assert!(matches!(callback_head_step(b""), CallbackHeadStep::Read(n) if n == CALLBACK_READ_CHUNK_BYTES));
    let almost = vec![b'a'; MAX_CALLBACK_REQUEST_HEAD_BYTES - 10];
    assert!(matches!(callback_head_step(&almost), CallbackHeadStep::Read(10)));
    let full = vec![b'a'; MAX_CALLBACK_REQUEST_HEAD_BYTES];
    match callback_head_step(&full) {
        CallbackHeadStep::TooLarge(DevinError::Auth { message }) => {
            assert_eq!(message, "Devin OAuth callback request headers are too large")
        }
        _ => panic!("expected the size cap"),
    }
    let mut ended = vec![b'a'; MAX_CALLBACK_REQUEST_HEAD_BYTES - 4];
    ended.extend_from_slice(b"\r\n\r\n");
    assert!(matches!(callback_head_step(&ended), CallbackHeadStep::Complete));
}

#[test]
fn pkce_verifier_is_unpadded_url_safe_base64() {
    let pair = create_pkce_pair();
    assert_eq!(pair.verifier.len(), 43);
    assert!(pair.verifier.chars().all(|c| c.is_ascii_alphanumeric() || c == '-' || c == '_'));
    let bytes = base64::engine::general_purpose::URL_SAFE_NO_PAD.decode(&pair.verifier).expect("base64");
    assert_eq!(bytes[6] >> 4, 4);
    assert_eq!(bytes[8] >> 6, 2);
    assert_eq!(bytes[22] >> 4, 4);
    assert_eq!(bytes[24] >> 6, 2);
}
