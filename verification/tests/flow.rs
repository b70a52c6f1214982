use widevin::json::{member_of, string_member_of, Json};
use widevin::proto::GetUserJwtResponse;
use widevin::{
    auth_metadata_from_response, auth_request, auth_url, chat_url, decompress_gzip, http_failure, invalid_protobuf,
    is_success_status, missing_chat_body, AuthMetadata, DevinError,
};

#[test]
fn chat_http_failure_after_auth_is_structured() {
    assert!(!is_success_status(429));
    let error = http_failure("Devin chat failed", 429, "Rate Limited", b"nope");
    assert_eq!(
        error,
        DevinError::Api {
            message: "Devin chat failed: 429 Rate Limited".into(),
            status: 429,
            body: Some("nope".into()),
        }
    );
}

#[test]
fn chat_rejects_a_missing_response_body() {
    assert!(is_success_status(200));
    assert_eq!(missing_chat_body(), DevinError::protocol("Devin chat response body is empty".into()));
}

#[test]
fn model_http_and_malformed_payload_errors_are_structured() {
    let error = http_failure("Devin model discovery failed", 500, "Nope", b"nope");
    assert!(matches!(error, DevinError::Api { status: 500, .. }));
    assert_eq!(error.message(), "Devin model discovery failed: 500 Nope");

    assert!(decompress_gzip(&[0xff]).is_err());
    let error = invalid_protobuf("invalid Devin protobuf response", "bad wire type");
    assert_eq!(error, DevinError::protocol("invalid Devin protobuf response: bad wire type".into()));
}

#[test]
fn http_failure_bodies_are_read_lossily() {
    let error = http_failure("Devin auth failed", 503, "", &[b'a', 0xff, b'b']);
    assert_eq!(
        error,
        DevinError::Api { message: "Devin auth failed: 503 ".into(), status: 503, body: Some("a\u{fffd}b".into()) }
    );
    assert!(is_success_status(299));
    assert!(!is_success_status(300));
    assert!(!is_success_status(199));
}

#[test]
fn auth_metadata_reads_jwt_and_custom_server() {
    let request = auth_request("devin-session-token$raw");
    let metadata = request.metadata.expect("metadata");
    assert_eq!(metadata.api_key, "devin-session-token$raw");
    assert_eq!(metadata.user_jwt, "");
    assert_eq!(auth_url("https://server.example"), "https://server.example/exa.auth_pb.AuthService/GetUserJwt");

    let auth = auth_metadata_from_response(GetUserJwtResponse {
        user_jwt: "jwt".into(),
        custom_api_server_url: " https://chat.example// ".into(),
    })
    .expect("metadata");
    assert_eq!(auth, AuthMetadata { user_jwt: "jwt".into(), base_url: Some("https://chat.example".into()) });
    assert_eq!(
        chat_url(&auth, "https://server.example"),
        "https://chat.example/exa.api_server_pb.ApiServerService/GetChatMessage"
    );

    let plain = auth_metadata_from_response(GetUserJwtResponse {
        user_jwt: "jwt".into(),
        custom_api_server_url: "  ".into(),
    })
    .expect("metadata");
    assert_eq!(plain.base_url, None);
    assert_eq!(
        chat_url(&plain, "https://server.example"),
        "https://server.example/exa.api_server_pb.ApiServerService/GetChatMessage"
    );

    assert_eq!(
        auth_metadata_from_response(GetUserJwtResponse { user_jwt: String::new(), custom_api_server_url: String::new() }),
        Err(DevinError::protocol("Devin auth returned an empty user JWT".into()))
    );
}

#[test]
fn successful_chat_bodies_are_required() {
    assert_eq!(widevin::successful_chat_body(Some(7)), Ok(7));
    assert_eq!(
        widevin::successful_chat_body::<u8>(None),
        Err(DevinError::protocol("Devin chat response body is empty".into()))
    );
}

#[test]
fn json_members_are_looked_up_by_name() {
    let inner = Json::Object(vec![("code".into(), Json::String("x".into())), ("n".into(), Json::Null)]);
    let outer = Json::Object(vec![("error".into(), inner), ("list".into(), Json::Array(vec![Json::Bool(true)]))]);
    let error = member_of(&outer, "error").expect("error member");
    assert_eq!(string_member_of(error, "code").as_deref(), Some("x"));
    assert_eq!(string_member_of(error, "n"), None);
    assert_eq!(string_member_of(error, "message"), None);
    assert!(member_of(&outer, "missing").is_none());
    assert!(member_of(&Json::String("error".into()), "error").is_none());
}
