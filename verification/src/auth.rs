//! OAuth (PKCE) login: the pair, the authorization URL, the loopback
//! callback, and the token exchange.

use vstd::prelude::*;
use vstd::utf8::encode_utf8;
use base64::Engine;
use crate::chat::starts_with;
use crate::constants::{
    trim_trailing_slashes, DEVIN_APP_BASE_URL, DEVIN_OAUTH_CALLBACK_PATH, DEVIN_OAUTH_TOKEN_PATH,
};
use crate::error::DevinError;
use crate::json::{
    json_bytes_spec, json_from_bytes, json_of_plain, json_plain, json_to_vec, parse_json_bytes, plain_json, string_member,
    string_member_of, value_of_json, Json, JsonView,
};
use crate::text::{
    chars_equal, chars_of, decimal, decimal_chars, is_white_space, is_white_space_char, push_str,
    string_from_chars, trim, trim_chars, trim_end_slashes, utf8_lossy, utf8_lossy_string,
};
use crate::uuid::{sha256, sha256_spec};

verus! {

/// A PKCE verifier and its S256 challenge.
#[derive(Debug, Clone, PartialEq, Eq)]
pub struct PkcePair {
    pub verifier: String,
    pub challenge: String,
}

/// The character of a 6-bit group in the URL-safe base64 alphabet
/// (`A`-`Z`, `a`-`z`, `0`-`9`, `-`, `_`).
pub open spec fn base64_url_char(n: int) -> char {
    if n < 26 {
        (65 + n) as char
    } else if n < 52 {
        (97 + n - 26) as char
    } else if n < 62 {
        (48 + n - 52) as char
    } else if n == 62 {
        '-'
    } else {
        '_'
    }
}

/// Unpadded URL-safe base64 (RFC 4648, section 5): each three bytes become
/// four characters; a final one or two bytes become two or three.
pub open spec fn base64_url_spec(bytes: Seq<u8>) -> Seq<char>
    decreases bytes.len(),
{
    if bytes.len() == 0 {
        seq![]
    } else if bytes.len() == 1 {
        let a = bytes[0] as int;
        seq![base64_url_char(a / 4), base64_url_char((a % 4) * 16)]
    } else if bytes.len() == 2 {
        let a = bytes[0] as int;
        let b = bytes[1] as int;
        seq![base64_url_char(a / 4), base64_url_char((a % 4) * 16 + b / 16), base64_url_char((b % 16) * 4)]
    } else {
        let a = bytes[0] as int;
        let b = bytes[1] as int;
        let c = bytes[2] as int;
        seq![
            base64_url_char(a / 4),
            base64_url_char((a % 4) * 16 + b / 16),
            base64_url_char((b % 16) * 4 + c / 64),
            base64_url_char(c % 64),
        ] + base64_url_spec(bytes.subrange(3, bytes.len() as int))
    }
}

/// base64's `URL_SAFE_NO_PAD.encode`, whose result is the unpadded URL-safe
/// encoding `base64_url_spec` states.
#[verifier::external_body]
fn base64_url_encode(bytes: &[u8]) -> (r: String)
    ensures
        r@ == base64_url_spec(bytes@),
{
    base64::engine::general_purpose::URL_SAFE_NO_PAD.encode(bytes)
}

/// The 16 bytes of a random (version 4) UUID from the uuid crate. They come
/// from the system's random source; what is stated is their number and the
/// bits `new_v4` fixes: version 4 in byte 6, the RFC 4122 variant in byte 8.
#[verifier::external_body]
fn random_uuid_bytes() -> (r: Vec<u8>)
    ensures
        uuid_v4_bytes(r@),
{
    uuid::Uuid::new_v4().as_bytes().to_vec()
}

/// Sixteen bytes with the version (4) and variant bits of a random UUID.
pub open spec fn uuid_v4_bytes(b: Seq<u8>) -> bool {
    &&& b.len() == 16
    &&& b[6] >> 4 == 4
    &&& b[8] >> 6 == 2
}

/// The S256 challenge of a verifier.
pub open spec fn challenge_of(verifier: Seq<char>) -> Seq<char> {
    base64_url_spec(sha256_spec(encode_utf8(verifier)))
}

/// A fresh PKCE pair: the verifier encodes 32 random bytes (two random
/// UUIDs), the challenge is the encoded SHA-256 digest of the verifier.
pub fn create_pkce_pair() -> (r: PkcePair)
    ensures
        exists|bytes: Seq<u8>|
            uuid_v4_bytes(#[trigger] bytes.subrange(0, 16)) && uuid_v4_bytes(bytes.subrange(16, 32)) && bytes.len() == 32
                && r.verifier@ == base64_url_spec(bytes),
        r.challenge@ == challenge_of(r.verifier@),
{
    let mut bytes = random_uuid_bytes();
    let mut second = random_uuid_bytes();
    let ghost first_view = bytes@;
    let ghost second_view = second@;
    bytes.append(&mut second);
    assert(bytes@.subrange(0, 16) =~= first_view);
    assert(bytes@.subrange(16, 32) =~= second_view);
    let verifier = base64_url_encode(bytes.as_slice());
    let digest = sha256(verifier.as_str().as_bytes());
    let challenge = base64_url_encode(digest.as_slice());
    PkcePair { verifier, challenge }
}

/// The inputs of the authorization URL.
#[derive(Debug, Clone)]
pub struct BuildDevinAuthUrlOptions {
    pub app_base_url: String,
    pub redirect_uri: String,
    pub state: String,
    pub challenge: String,
}

impl Default for BuildDevinAuthUrlOptions {
    fn default() -> (r: Self)
        ensures
            r.app_base_url@ == DEVIN_APP_BASE_URL@,
            r.redirect_uri@.len() == 0,
            r.state@.len() == 0,
            r.challenge@.len() == 0,
    {
        BuildDevinAuthUrlOptions {
            app_base_url: String::from_str(DEVIN_APP_BASE_URL),
            redirect_uri: String::new(),
            state: String::new(),
            challenge: String::new(),
        }
    }
}

/// What the url crate makes of parsing `base` and appending the query
/// pairs, in order, with `form_urlencoded` serialization: the serialized
/// URL, or `None` when `base` is not a valid URL.
pub uninterp spec fn url_with_query_spec(base: Seq<char>, pairs: Seq<(Seq<char>, Seq<char>)>) -> Option<Seq<char>>;

/// The characters of each key/value pair.
pub open spec fn pairs_view(pairs: Seq<(String, String)>) -> Seq<(Seq<char>, Seq<char>)> {
    Seq::new(pairs.len(), |i: int| (pairs[i].0@, pairs[i].1@))
}

/// url's `Url::parse` of `base`, then `query_pairs_mut().extend_pairs`
/// with `pairs`, serialized. The result is named by `url_with_query_spec`;
/// the text of a parse error is url's and is not stated.
#[verifier::external_body]
fn url_with_query(base: &str, pairs: &Vec<(String, String)>) -> (r: Result<String, String>)
    ensures
        r is Ok <==> url_with_query_spec(base@, pairs_view(pairs@)) is Some,
        r matches Ok(s) ==> url_with_query_spec(base@, pairs_view(pairs@)) == Some(s@),
{
    let mut url = url::Url::parse(base).map_err(|error| error.to_string())?;
    url.query_pairs_mut().extend_pairs(pairs.iter());
    Ok(url.into())
}

/// The URL that the authorization flow continues at.
pub open spec fn auth_continue_url(app_base_url: Seq<char>) -> Seq<char> {
    trim_end_slashes(app_base_url) + "/auth/cli/continue"@
}

/// The query of the authorization URL, in order.
pub open spec fn auth_query(o: BuildDevinAuthUrlOptions) -> Seq<(Seq<char>, Seq<char>)> {
    seq![
        ("redirect_uri"@, o.redirect_uri@),
        ("state"@, o.state@),
        ("prompt"@, "select_account"@),
        ("code_challenge"@, o.challenge@),
        ("code_challenge_method"@, "S256"@),
    ]
}

/// `m` starts with `prefix`, followed by details.
pub open spec fn message_with_prefix(m: Seq<char>, prefix: Seq<char>) -> bool {
    starts_with(m, prefix)
}

fn pair(key: &str, value: &String) -> (r: (String, String))
    ensures
        r.0@ == key@,
        r.1@ == value@,
{
    (String::from_str(key), value.clone())
}

fn prefixed_error_text(prefix: &str, detail: &str) -> (r: String)
    ensures
        r@ == prefix@ + detail@,
        message_with_prefix(r@, prefix@),
{
    let mut m: Vec<char> = Vec::new();
    push_str(&mut m, prefix);
    push_str(&mut m, detail);
    assert(m@.subrange(0, prefix@.len() as int) =~= prefix@);
    string_from_chars(&m)
}

/// Builds the Devin CLI continuation URL. Fails with an auth error when
/// `app_base_url` does not make a valid URL.
pub fn build_devin_auth_url(options: &BuildDevinAuthUrlOptions) -> (r: Result<String, DevinError>)
    ensures
        r is Ok <==> url_with_query_spec(auth_continue_url(options.app_base_url@), auth_query(*options)) is Some,
        r matches Ok(s) ==> url_with_query_spec(auth_continue_url(options.app_base_url@), auth_query(*options))
            == Some(s@),
        r matches Err(e) ==> e is Auth && message_with_prefix(e->Auth_message@, "Invalid Devin app URL: "@),
{
    let mut base = chars_of(trim_trailing_slashes(options.app_base_url.as_str()).as_str());
    push_str(&mut base, "/auth/cli/continue");
    let base = string_from_chars(&base);
    let mut pairs: Vec<(String, String)> = Vec::new();
    pairs.push(pair("redirect_uri", &options.redirect_uri));
    pairs.push(pair("state", &options.state));
    pairs.push(pair("prompt", &String::from_str("select_account")));
    pairs.push(pair("code_challenge", &options.challenge));
    pairs.push(pair("code_challenge_method", &String::from_str("S256")));
    assert(pairs_view(pairs@) =~= auth_query(*options));
    match url_with_query(base.as_str(), &pairs) {
        Ok(url) => Ok(url),
        Err(detail) => Err(DevinError::auth(prefixed_error_text("Invalid Devin app URL: ", detail.as_str()))),
    }
}

/// The parts of a URL that the callback check reads: its path and its
/// decoded query pairs, in order.
#[derive(Debug, Clone, PartialEq, Eq)]
pub struct ParsedUrl {
    pub path: String,
    pub query_pairs: Vec<(String, String)>,
}

/// What the url crate's `Url::parse` makes of `text`: the path and the
/// decoded query pairs, or `None` when it is not a valid URL.
pub uninterp spec fn url_parts_spec(text: Seq<char>) -> Option<(Seq<char>, Seq<(Seq<char>, Seq<char>)>)>;

/// Parses a URL with url's `Url::parse` and reads its path and query pairs.
/// The result is named by `url_parts_spec`; the text of a parse error is
/// url's and is not stated.
#[verifier::external_body]
fn parse_url(text: &str) -> (r: Result<ParsedUrl, String>)
    ensures
        r is Ok <==> url_parts_spec(text@) is Some,
        r matches Ok(u) ==> url_parts_spec(text@) == Some((u.path@, pairs_view(u.query_pairs@))),
{
    let url = url::Url::parse(text).map_err(|error| error.to_string())?;
    let query_pairs = url.query_pairs().map(|(key, value)| (key.into_owned(), value.into_owned())).collect();
    Ok(ParsedUrl { path: url.path().to_owned(), query_pairs })
}

/// Parses the URL of a callback; a URL that does not parse is an auth error.
pub fn parse_callback_url(text: &str) -> (r: Result<ParsedUrl, DevinError>)
    ensures
        r is Ok <==> url_parts_spec(text@) is Some,
        r matches Ok(u) ==> url_parts_spec(text@) == Some((u.path@, pairs_view(u.query_pairs@))),
        r matches Err(e) ==> e is Auth && message_with_prefix(e->Auth_message@, "Invalid Devin OAuth callback URL: "@),
{
    match parse_url(text) {
        Ok(u) => Ok(u),
        Err(detail) => Err(DevinError::auth(prefixed_error_text("Invalid Devin OAuth callback URL: ", detail.as_str()))),
    }
}

/// The value of the first query pair with key `name`.
pub open spec fn first_value(pairs: Seq<(Seq<char>, Seq<char>)>, name: Seq<char>) -> Option<Seq<char>>
    decreases pairs.len(),
{
    if pairs.len() == 0 {
        None
    } else if pairs[0].0 == name {
        Some(pairs[0].1)
    } else {
        first_value(pairs.drop_first(), name)
    }
}

fn first_value_exec(pairs: &Vec<(String, String)>, name: &str) -> (r: Option<String>)
    ensures
        match r {
            Some(v) => first_value(pairs_view(pairs@), name@) == Some(v@),
            None => first_value(pairs_view(pairs@), name@) is None,
        },
{
    let n = chars_of(name);
    let mut i: usize = 0;
    assert(pairs_view(pairs@).skip(0) =~= pairs_view(pairs@));
    while i < pairs.len()
        invariant
            n@ == name@,
            i <= pairs@.len(),
            first_value(pairs_view(pairs@), name@) == first_value(pairs_view(pairs@).skip(i as int), name@),
        decreases pairs@.len() - i,
    {
        let ghost rest = pairs_view(pairs@).skip(i as int);
        assert(rest[0] == (pairs@[i as int].0@, pairs@[i as int].1@));
        assert(rest.drop_first() =~= pairs_view(pairs@).skip(i + 1));
        if chars_equal(&chars_of(pairs[i].0.as_str()), &n) {
            return Some(pairs[i].1.clone());
        }
        i = i + 1;
    }
    None
}

/// The code a callback carries: its path is the callback path, its first
/// `state` parameter is `state`, and its first `code` parameter is
/// non-empty. Otherwise the message of the auth error.
pub open spec fn callback_outcome(path: Seq<char>, pairs: Seq<(Seq<char>, Seq<char>)>, state: Seq<char>) -> Result<
    Seq<char>,
    Seq<char>,
> {
    if path != DEVIN_OAUTH_CALLBACK_PATH@ {
        Err("Unexpected Devin OAuth callback path"@)
    } else if first_value(pairs, "state"@) != Some(state) {
        Err("Invalid Devin OAuth callback state"@)
    } else {
        match first_value(pairs, "code"@) {
            Some(code) => if code.len() > 0 {
                Ok(code)
            } else {
                Err("Missing Devin OAuth callback code"@)
            },
            None => Err("Missing Devin OAuth callback code"@),
        }
    }
}

/// `r` is the callback outcome `o`: the code, or an auth error with its
/// message.
pub open spec fn outcome_is(r: Result<String, DevinError>, o: Result<Seq<char>, Seq<char>>) -> bool {
    match o {
        Ok(code) => r matches Ok(c) && c@ == code,
        Err(m) => r matches Err(e) && e is Auth && e->Auth_message@ == m,
    }
}

/// Validates the callback path, state and authorization code.
pub fn validate_devin_oauth_callback(url: &ParsedUrl, state: &str) -> (r: Result<String, DevinError>)
    ensures
        outcome_is(r, callback_outcome(url.path@, pairs_view(url.query_pairs@), state@)),
{
    if !chars_equal(&chars_of(url.path.as_str()), &chars_of(DEVIN_OAUTH_CALLBACK_PATH)) {
        return Err(DevinError::auth(String::from_str("Unexpected Devin OAuth callback path")));
    }
    let state_value = first_value_exec(&url.query_pairs, "state");
    let matches = match &state_value {
        Some(v) => chars_equal(&chars_of(v.as_str()), &chars_of(state)),
        None => false,
    };
    if !matches {
        return Err(DevinError::auth(String::from_str("Invalid Devin OAuth callback state")));
    }
    match first_value_exec(&url.query_pairs, "code") {
        Some(code) => {
            if code.as_str().is_empty() {
                Err(DevinError::auth(String::from_str("Missing Devin OAuth callback code")))
            } else {
                Ok(code)
            }
        },
        None => Err(DevinError::auth(String::from_str("Missing Devin OAuth callback code"))),
    }
}

/// The first line of a text, as `str::lines` yields it: up to the first
/// `\n`, without a `\r` right before it; `None` for empty text.
pub open spec fn first_line(s: Seq<char>) -> Option<Seq<char>> {
    if s.len() == 0 {
        None
    } else {
        match newline_index(s, 0) {
            Some(i) => {
                let line = s.subrange(0, i);
                if line.len() > 0 && line.last() == '\r' {
                    Some(line.drop_last())
                } else {
                    Some(line)
                }
            },
            None => Some(s),
        }
    }
}

/// The position of the first `\n` at or after `i`.
pub open spec fn newline_index(s: Seq<char>, i: int) -> Option<int>
    decreases s.len() - i,
{
    if i < 0 || i >= s.len() {
        None
    } else if s[i] == '\n' {
        Some(i)
    } else {
        newline_index(s, i + 1)
    }
}

/// The first position at or after `i` whose character is not white space.
pub open spec fn skip_white(s: Seq<char>, i: int) -> int
    decreases s.len() - i,
{
    if i < 0 || i >= s.len() || !is_white_space(s[i]) {
        i
    } else {
        skip_white(s, i + 1)
    }
}

/// The first position at or after `i` whose character is white space.
pub open spec fn token_end(s: Seq<char>, i: int) -> int
    decreases s.len() - i,
{
    if i < 0 || i >= s.len() || is_white_space(s[i]) {
        i
    } else {
        token_end(s, i + 1)
    }
}

/// The second white-space-separated token (`split_whitespace().nth(1)`).
pub open spec fn second_token(s: Seq<char>) -> Option<Seq<char>> {
    let a0 = skip_white(s, 0);
    if a0 >= s.len() {
        None
    } else {
        let a1 = skip_white(s, token_end(s, a0));
        if a1 >= s.len() {
            None
        } else {
            Some(s.subrange(a1, token_end(s, a1)))
        }
    }
}

/// The request target of a callback request head.
pub open spec fn callback_target(head: Seq<u8>) -> Option<Seq<char>> {
    match first_line(utf8_lossy(head)) {
        Some(line) => second_token(line),
        None => None,
    }
}

/// The URL the request target is read as.
pub open spec fn callback_url_text(target: Seq<char>) -> Seq<char> {
    "http://127.0.0.1"@ + target
}

proof fn lemma_skip_white_bounds(s: Seq<char>, i: int)
    requires
        0 <= i <= s.len(),
    ensures
        i <= skip_white(s, i) <= s.len(),
        skip_white(s, i) < s.len() ==> !is_white_space(s[skip_white(s, i)]),
    decreases s.len() - i,
{
    if i < s.len() && is_white_space(s[i]) {
        lemma_skip_white_bounds(s, i + 1);
    }
}

proof fn lemma_token_end_bounds(s: Seq<char>, i: int)
    requires
        0 <= i <= s.len(),
    ensures
        i <= token_end(s, i) <= s.len(),
    decreases s.len() - i,
{
    if i < s.len() && !is_white_space(s[i]) {
        lemma_token_end_bounds(s, i + 1);
    }
}

fn skip_white_exec(s: &Vec<char>, i: usize) -> (r: usize)
    requires
        i <= s@.len(),
    ensures
        r == skip_white(s@, i as int),
{
    let mut j = i;
    while j < s.len() && is_white_space_char(s[j])
        invariant
            i <= j <= s@.len(),
            skip_white(s@, i as int) == skip_white(s@, j as int),
        decreases s@.len() - j,
    {
        j = j + 1;
    }
    j
}

fn token_end_exec(s: &Vec<char>, i: usize) -> (r: usize)
    requires
        i <= s@.len(),
    ensures
        r == token_end(s@, i as int),
{
    let mut j = i;
    while j < s.len() && !is_white_space_char(s[j])
        invariant
            i <= j <= s@.len(),
            token_end(s@, i as int) == token_end(s@, j as int),
        decreases s@.len() - j,
    {
        j = j + 1;
    }
    j
}

fn first_line_exec(s: &Vec<char>) -> (r: Option<Vec<char>>)
    ensures
        match r {
            Some(l) => first_line(s@) == Some(l@),
            None => first_line(s@) is None,
        },
{
    if s.len() == 0 {
        return None;
    }
    let mut i: usize = 0;
    while i < s.len() && s[i] != '\n'
        invariant
            i <= s@.len(),
            newline_index(s@, 0) == newline_index(s@, i as int),
        decreases s@.len() - i,
    {
        i = i + 1;
    }
    if i == s.len() {
        return Some(s.clone());
    }
    let mut end = i;
    if end > 0 && s[end - 1] == '\r' {
        end = end - 1;
    }
    let line = vstd::slice::slice_to_vec(vstd::slice::slice_subrange(s.as_slice(), 0, end));
    proof {
        let whole = s@.subrange(0, i as int);
        if end < i {
            assert(line@ =~= whole.drop_last());
        } else {
            assert(line@ =~= whole);
        }
    }
    Some(line)
}

fn second_token_exec(s: &Vec<char>) -> (r: Option<Vec<char>>)
    ensures
        match r {
            Some(t) => second_token(s@) == Some(t@),
            None => second_token(s@) is None,
        },
{
    let a0 = skip_white_exec(s, 0);
    proof {
        lemma_skip_white_bounds(s@, 0);
    }
    if a0 >= s.len() {
        return None;
    }
    let e0 = token_end_exec(s, a0);
    proof {
        lemma_token_end_bounds(s@, a0 as int);
    }
    let a1 = skip_white_exec(s, e0);
    proof {
        lemma_skip_white_bounds(s@, e0 as int);
    }
    if a1 >= s.len() {
        return None;
    }
    let e1 = token_end_exec(s, a1);
    proof {
        lemma_token_end_bounds(s@, a1 as int);
    }
    Some(vstd::slice::slice_to_vec(vstd::slice::slice_subrange(s.as_slice(), a1, e1)))
}

/// Reads the authorization code out of the head of the loopback callback
/// request: the target of its request line, read as a URL on the loopback
/// host, then validated as `validate_devin_oauth_callback` does.
pub fn parse_callback_request(head: &[u8], state: &str) -> (r: Result<String, DevinError>)
    ensures
        match callback_target(head@) {
            None => r matches Err(e) && e is Auth && e->Auth_message@ == "Invalid Devin OAuth callback request"@,
            Some(t) => match url_parts_spec(callback_url_text(t)) {
                None => r matches Err(e) && e is Auth && message_with_prefix(
                    e->Auth_message@,
                    "Invalid Devin OAuth callback URL: "@,
                ),
                Some(parts) => outcome_is(r, callback_outcome(parts.0, parts.1, state@)),
            },
        },
{
    let text = chars_of(utf8_lossy_string(head).as_str());
    assert(text@ == utf8_lossy(head@));
    let target = match first_line_exec(&text) {
        Some(line) => second_token_exec(&line),
        None => None,
    };
    assert(match target {
        Some(t) => callback_target(head@) == Some(t@),
        None => callback_target(head@) is None,
    });
    let target = match target {
        Some(t) => t,
        None => return Err(DevinError::auth(String::from_str("Invalid Devin OAuth callback request"))),
    };
    let mut url_text = chars_of("http://127.0.0.1");
    let mut t = target;
    url_text.append(&mut t);
    match parse_url(string_from_chars(&url_text).as_str()) {
        Ok(url) => validate_devin_oauth_callback(&url, state),
        Err(detail) => Err(
            DevinError::auth(prefixed_error_text("Invalid Devin OAuth callback URL: ", detail.as_str())),
        ),
    }
}

/// The largest callback request head the loopback server reads.
pub const MAX_CALLBACK_REQUEST_HEAD_BYTES: usize = 16384;

/// `\r\n\r\n` starts at position `i`.
pub open spec fn blank_line_at(buf: Seq<u8>, i: int) -> bool {
    0 <= i && i + 4 <= buf.len() && buf[i] == 13 && buf[i + 1] == 10 && buf[i + 2] == 13 && buf[i + 3] == 10
}

/// The bytes hold the blank line that ends a request head.
pub open spec fn head_complete(buf: Seq<u8>) -> bool {
    exists|i: int| blank_line_at(buf, i)
}

/// Whether the received bytes already hold the end of the request head.
pub fn request_head_complete(buf: &[u8]) -> (r: bool)
    ensures
        r == head_complete(buf@),
{
    let n = buf.len();
    if n < 4 {
        return false;
    }
    let mut i: usize = 0;
    while i <= n - 4
        invariant
            n == buf@.len(),
            n >= 4,
            forall|j: int| 0 <= j < i ==> !blank_line_at(buf@, j),
        decreases n - i,
    {
        if buf[i] == 13 && buf[i + 1] == 10 && buf[i + 2] == 13 && buf[i + 3] == 10 {
            assert(blank_line_at(buf@, i as int));
            return true;
        }
        i = i + 1;
    }
    assert forall|j: int| !blank_line_at(buf@, j) by {
        if 0 <= j && j < i {
        }
    }
    false
}

/// The most bytes the loopback server reads at once.
pub const CALLBACK_READ_CHUNK_BYTES: usize = 1024;

/// What the loopback server does next with the request head received so far.
pub enum CallbackHeadStep {
    /// The head is complete: parse it.
    Complete,
    /// The head reached its cap without ending: answer with this error.
    TooLarge(DevinError),
    /// Read at most this many more bytes.
    Read(usize),
}

/// The next step of reading a callback request head: stop once the blank
/// line has arrived, fail once the cap is reached without it, and else read
/// a chunk no larger than what is left under the cap.
pub fn callback_head_step(buffered: &[u8]) -> (r: CallbackHeadStep)
    ensures
        head_complete(buffered@) ==> r is Complete,
        !head_complete(buffered@) && buffered@.len() >= MAX_CALLBACK_REQUEST_HEAD_BYTES ==> (r matches CallbackHeadStep::TooLarge(e)
            && e is Auth && e->Auth_message@ == "Devin OAuth callback request headers are too large"@),
        !head_complete(buffered@) && buffered@.len() < MAX_CALLBACK_REQUEST_HEAD_BYTES ==> (r matches CallbackHeadStep::Read(n)
            && n > 0 && n <= CALLBACK_READ_CHUNK_BYTES && buffered@.len() + n <= MAX_CALLBACK_REQUEST_HEAD_BYTES
            && (n == CALLBACK_READ_CHUNK_BYTES || buffered@.len() + n == MAX_CALLBACK_REQUEST_HEAD_BYTES)),
{
    if request_head_complete(buffered) {
        return CallbackHeadStep::Complete;
    }
    let len = buffered.len();
    if len >= MAX_CALLBACK_REQUEST_HEAD_BYTES {
        return CallbackHeadStep::TooLarge(
            DevinError::auth(String::from_str("Devin OAuth callback request headers are too large")),
        );
    }
    let remaining = MAX_CALLBACK_REQUEST_HEAD_BYTES - len;
    if remaining < CALLBACK_READ_CHUNK_BYTES {
        CallbackHeadStep::Read(remaining)
    } else {
        CallbackHeadStep::Read(CALLBACK_READ_CHUNK_BYTES)
    }
}

/// The response the loopback server sends: `200 OK` with a fixed text, or
/// `400 Bad Request` with the error's message.
pub open spec fn callback_response_text(error: Option<DevinError>) -> Seq<char> {
    let (status, body) = match error {
        None => ("200 OK"@, "Devin authentication complete. You can close this window."@),
        Some(e) => ("400 Bad Request"@, e.message_view()),
    };
    "HTTP/1.1 "@ + status + "\r\ncontent-type: text/plain\r\ncontent-length: "@ + decimal(encode_utf8(body).len())
        + "\r\nconnection: close\r\n\r\n"@ + body
}

/// Writes the callback response for the outcome of the callback check.
pub fn callback_response(error: Option<&DevinError>) -> (r: String)
    ensures
        r@ == callback_response_text(
            match error {
                Some(e) => Some(*e),
                None => None,
            },
        ),
{
    let (status, body) = match error {
        None => (
            String::from_str("200 OK"),
            String::from_str("Devin authentication complete. You can close this window."),
        ),
        Some(e) => (String::from_str("400 Bad Request"), e.message()),
    };
    let length = body.as_str().as_bytes().len();
    let mut out: Vec<char> = Vec::new();
    push_str(&mut out, "HTTP/1.1 ");
    push_str(&mut out, status.as_str());
    push_str(&mut out, "\r\ncontent-type: text/plain\r\ncontent-length: ");
    let mut d = decimal_chars(length as u64);
    out.append(&mut d);
    push_str(&mut out, "\r\nconnection: close\r\n\r\n");
    push_str(&mut out, body.as_str());
    string_from_chars(&out)
}

/// The redirect URI of the loopback callback server on `port`.
pub fn callback_redirect_uri(port: u16) -> (r: String)
    ensures
        r@ == "http://127.0.0.1:"@ + decimal(port as nat) + DEVIN_OAUTH_CALLBACK_PATH@,
{
    let mut out = chars_of("http://127.0.0.1:");
    let mut d = decimal_chars(port as u64);
    out.append(&mut d);
    push_str(&mut out, DEVIN_OAUTH_CALLBACK_PATH);
    string_from_chars(&out)
}

/// The token-exchange endpoint under an auth base URL.
pub fn token_exchange_url(auth_base_url: &str) -> (r: String)
    ensures
        r@ == trim_end_slashes(auth_base_url@) + DEVIN_OAUTH_TOKEN_PATH@,
{
    let mut out = chars_of(trim_trailing_slashes(auth_base_url).as_str());
    push_str(&mut out, DEVIN_OAUTH_TOKEN_PATH);
    string_from_chars(&out)
}

/// The JSON object of the token-exchange request: the code and the PKCE
/// verifier as string members.
pub open spec fn token_request_plain(code: Seq<char>, verifier: Seq<char>) -> JsonView {
    JsonView::Object(seq![("code"@, JsonView::String(code)), ("code_verifier"@, JsonView::String(verifier))])
}

/// The JSON body of the token-exchange request: serde_json's bytes for the
/// object with the members `code` and `code_verifier`.
pub fn token_request_body(code: &str, verifier: &str) -> (r: Result<Vec<u8>, DevinError>)
    ensures
        r is Ok,
        r matches Ok(v) ==> v@ == json_bytes_spec(json_of_plain(token_request_plain(code@, verifier@))),
{
    let code_value = Json::String(String::from_str(code));
    let verifier_value = Json::String(String::from_str(verifier));
    assert(code_value@ == JsonView::String(code@));
    assert(verifier_value@ == JsonView::String(verifier@));
    let mut members: Vec<(String, Json)> = Vec::new();
    members.push((String::from_str("code"), code_value));
    members.push((String::from_str("code_verifier"), verifier_value));
    let object = Json::Object(members);
    assert(object@ == token_request_plain(code@, verifier@)) by {
        if let JsonView::Object(m) = object@ {
            assert(m[0] == ("code"@, JsonView::String(code@)));
            assert(m[1] == ("code_verifier"@, JsonView::String(verifier@)));
            assert(m =~= seq![("code"@, JsonView::String(code@)), ("code_verifier"@, JsonView::String(verifier@))]);
        }
    }
    match json_to_vec(&value_of_json(&object)) {
        Ok(v) => Ok(v),
        Err(detail) => Err(
            DevinError::auth(prefixed_error_text("Failed to encode Devin token request: ", detail.as_str())),
        ),
    }
}

/// A failed token-exchange request or body read.
pub fn token_exchange_failure(detail: &str) -> (r: DevinError)
    ensures
        r is Auth,
        r->Auth_message@ == "Devin CLI token exchange failed: "@ + detail@,
{
    DevinError::auth(prefixed_error_text("Devin CLI token exchange failed: ", detail))
}

/// What a token-exchange response body holds: `None` when it is not JSON;
/// inside, its `token` member when that is a string.
pub open spec fn token_field_spec(body: Seq<u8>) -> Option<Option<Seq<char>>> {
    match json_from_bytes(body) {
        None => None,
        Some(v) => Some(string_member(json_plain(v), "token"@)),
    }
}

/// Reads the `token` member of a token-exchange response body.
fn token_field(body: &[u8]) -> (r: Result<Option<String>, String>)
    ensures
        r is Ok <==> token_field_spec(body@) is Some,
        r matches Ok(t) ==> token_field_spec(body@) == Some(crate::json::opt_chars(t)),
{
    let parsed = parse_json_bytes(body)?;
    Ok(string_member_of(&plain_json(&parsed), "token"))
}

/// A status in the 2xx range.
pub open spec fn success_status(status: u16) -> bool {
    200 <= status < 300
}

/// The outcome of a token exchange: the non-empty token of a successful
/// JSON response, else the auth error's message (for an invalid JSON body,
/// only the message's prefix is stated).
pub open spec fn token_exchange_outcome(status: u16, body: Seq<u8>) -> Result<Seq<char>, Seq<char>> {
    if !success_status(status) {
        Err(trim("Devin CLI token exchange failed: "@ + decimal(status as nat) + " "@ + utf8_lossy(body)))
    } else {
        match token_field_spec(body) {
            None => Err("Devin CLI token exchange returned invalid JSON: "@),
            Some(t) => match t {
                Some(token) => if token.len() > 0 {
                    Ok(token)
                } else {
                    Err("Devin CLI token exchange returned an empty token"@)
                },
                None => Err("Devin CLI token exchange returned an empty token"@),
            },
        }
    }
}

/// Turns the token-exchange response into the raw token.
pub fn token_exchange_result(status: u16, body: &[u8]) -> (r: Result<String, DevinError>)
    ensures
        match token_exchange_outcome(status, body@) {
            Ok(token) => r matches Ok(t) && t@ == token,
            Err(m) => r matches Err(e) && e is Auth && (if success_status(status) && token_field_spec(body@) is None {
                message_with_prefix(e->Auth_message@, m)
            } else {
                e->Auth_message@ == m
            }),
        },
{
    if status < 200 || status >= 300 {
        let mut m = chars_of("Devin CLI token exchange failed: ");
        let mut d = decimal_chars(status as u64);
        m.append(&mut d);
        push_str(&mut m, " ");
        push_str(&mut m, utf8_lossy_string(body).as_str());
        return Err(DevinError::auth(string_from_chars(&trim_chars(&m))));
    }
    match token_field(body) {
        Err(detail) => Err(
            DevinError::auth(prefixed_error_text("Devin CLI token exchange returned invalid JSON: ", detail.as_str())),
        ),
        Ok(Some(token)) => {
            if token.as_str().is_empty() {
                Err(DevinError::auth(String::from_str("Devin CLI token exchange returned an empty token")))
            } else {
                Ok(token)
            }
        },
        Ok(None) => Err(DevinError::auth(String::from_str("Devin CLI token exchange returned an empty token"))),
    }
}

} // verus!
