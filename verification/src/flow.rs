//! The decisions around the three HTTP exchanges: user JWT, model list and
//! chat. The exchanges themselves happen at the transport edge.

use vstd::prelude::*;
use crate::constants::{trim_trailing_slashes, DEVIN_AUTH_PATH, DEVIN_CHAT_PATH, DEVIN_MODELS_PATH};
use crate::error::DevinError;
use crate::models::metadata;
use crate::proto::{GetCliModelConfigsRequest, GetUserJwtRequest, GetUserJwtResponse};
use crate::request::metadata_for;
use crate::text::{chars_of, decimal, decimal_chars, push_str, string_from_chars, trim, trim_chars, trim_end_slashes, utf8_lossy, utf8_lossy_string};
use crate::token::{normalize_devin_session_token, normalized_token, opt_str};

verus! {

/// The user JWT and the optional custom chat server of an account.
#[derive(Debug, Clone, PartialEq, Eq)]
pub struct AuthMetadata {
    pub user_jwt: String,
    pub base_url: Option<String>,
}

/// A status in the 2xx range.
pub fn is_success_status(status: u16) -> (r: bool)
    ensures
        r == (200 <= status < 300),
{
    200 <= status && status < 300
}

/// The message of a failed HTTP exchange.
pub open spec fn http_failure_message(context: Seq<char>, status: u16, status_text: Seq<char>) -> Seq<char> {
    context + ": "@ + decimal(status as nat) + " "@ + status_text
}

/// The API error for a non-success response: the status, its text, and the
/// body read as UTF-8 with replacement characters.
pub fn http_failure(context: &str, status: u16, status_text: &str, body: &[u8]) -> (r: DevinError)
    ensures
        r is Api,
        r->Api_message@ == http_failure_message(context@, status, status_text@),
        r->Api_status == status,
        r->Api_body matches Some(b) && b@ == utf8_lossy(body@),
{
    let mut m = chars_of(context);
    push_str(&mut m, ": ");
    let mut d = decimal_chars(status as u64);
    m.append(&mut d);
    push_str(&mut m, " ");
    push_str(&mut m, status_text);
    DevinError::api(string_from_chars(&m), status, Some(utf8_lossy_string(body)))
}

/// The request for the user JWT.
pub fn auth_request(token: &str) -> (r: GetUserJwtRequest)
    ensures
        r.metadata matches Some(m) && metadata_for(m, token@, ""@),
{
    GetUserJwtRequest { metadata: Some(metadata(token, "")) }
}

/// The user-JWT endpoint under a base URL.
pub fn auth_url(base_url: &str) -> (r: String)
    ensures
        r@ == base_url@ + DEVIN_AUTH_PATH@,
{
    let mut m = chars_of(base_url);
    push_str(&mut m, DEVIN_AUTH_PATH);
    string_from_chars(&m)
}

/// The custom chat server a JWT response names, without trailing slashes.
pub open spec fn custom_base_url(url: Seq<char>) -> Option<Seq<char>> {
    if trim(url).len() == 0 {
        None
    } else {
        Some(trim_end_slashes(trim(url)))
    }
}

/// Reads the user JWT and the custom chat server out of a JWT response.
/// An empty JWT is a protocol error.
pub fn auth_metadata_from_response(decoded: GetUserJwtResponse) -> (r: Result<AuthMetadata, DevinError>)
    ensures
        decoded.user_jwt@.len() == 0 <==> r is Err,
        r matches Err(e) ==> e is Protocol && e->Protocol_message@ == "Devin auth returned an empty user JWT"@,
        r matches Ok(a) ==> a.user_jwt@ == decoded.user_jwt@ && crate::json::opt_chars(a.base_url) == custom_base_url(
            decoded.custom_api_server_url@,
        ),
{
    if decoded.user_jwt.as_str().is_empty() {
        return Err(DevinError::protocol(String::from_str("Devin auth returned an empty user JWT")));
    }
    let custom = trim_chars(&chars_of(decoded.custom_api_server_url.as_str()));
    let base_url = if custom.len() == 0 {
        None
    } else {
        Some(trim_trailing_slashes(string_from_chars(&custom).as_str()))
    };
    Ok(AuthMetadata { user_jwt: decoded.user_jwt, base_url })
}

/// The chat endpoint: on the account's custom server when it names one,
/// else on the base URL.
pub fn chat_url(auth: &AuthMetadata, base_url: &str) -> (r: String)
    ensures
        r@ == match auth.base_url {
            Some(b) => b@,
            None => base_url@,
        } + DEVIN_CHAT_PATH@,
{
    let mut m = match &auth.base_url {
        Some(b) => chars_of(b.as_str()),
        None => chars_of(base_url),
    };
    push_str(&mut m, DEVIN_CHAT_PATH);
    string_from_chars(&m)
}

/// The model-list endpoint under a base URL.
pub fn models_url(base_url: &str) -> (r: String)
    ensures
        r@ == trim_end_slashes(base_url@) + DEVIN_MODELS_PATH@,
{
    let mut m = chars_of(trim_trailing_slashes(base_url).as_str());
    push_str(&mut m, DEVIN_MODELS_PATH);
    string_from_chars(&m)
}

/// The model-list request: metadata for the normalized token.
pub fn models_request(token: Option<&str>) -> (r: GetCliModelConfigsRequest)
    ensures
        r.metadata matches Some(m) && metadata_for(m, normalized_token(opt_str(token)), ""@),
{
    let key = normalize_devin_session_token(token);
    GetCliModelConfigsRequest { metadata: Some(metadata(key.as_str(), "")) }
}

/// A successful chat response without a body.
pub fn missing_chat_body() -> (r: DevinError)
    ensures
        r is Protocol,
        r->Protocol_message@ == "Devin chat response body is empty"@,
{
    DevinError::protocol(String::from_str("Devin chat response body is empty"))
}

/// The body of a successful chat response: a response without one is a
/// protocol error.
pub fn successful_chat_body<T>(body: Option<T>) -> (r: Result<T, DevinError>)
    ensures
        match body {
            Some(b) => r matches Ok(x) && x == b,
            None => r matches Err(e) && e is Protocol && e->Protocol_message@ == "Devin chat response body is empty"@,
        },
{
    match body {
        Some(b) => Ok(b),
        None => Err(missing_chat_body()),
    }
}

/// A response payload that is not the expected protobuf message.
pub fn invalid_protobuf(context: &str, detail: &str) -> (r: DevinError)
    ensures
        r is Protocol,
        r->Protocol_message@ == context@ + ": "@ + detail@,
{
    let mut m = chars_of(context);
    push_str(&mut m, ": ");
    push_str(&mut m, detail);
    DevinError::protocol(string_from_chars(&m))
}

} // verus!
