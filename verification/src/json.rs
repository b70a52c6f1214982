//! JSON helpers for streamed tool-call arguments and Connect trailers.

use vstd::prelude::*;
use vstd::utf8::{encode_utf8, encode_scalar};
use crate::text::{chars_equal, chars_of};

verus! {

/// serde_json's dynamically typed JSON value; opaque here.
#[verifier::external_type_specification]
#[verifier::external_body]
pub struct ExJsonValue(serde_json::Value);

/// `Clone` of serde_json's `Value`, which derives it: the copy is the same value.
pub assume_specification[ <serde_json::Value as Clone>::clone ](v: &serde_json::Value) -> (r: serde_json::Value)
    ensures
        r == *v,
;

/// serde_json's arbitrary-precision-free JSON number; opaque here.
#[verifier::external_type_specification]
#[verifier::external_body]
pub struct ExJsonNumber(serde_json::Number);

/// A JSON value as plain data. Object members keep the order serde_json
/// gives them; numbers stay serde_json's.
#[derive(Debug)]
pub enum Json {
    Null,
    Bool(bool),
    Number(serde_json::Number),
    String(String),
    Array(Vec<Json>),
    Object(Vec<(String, Json)>),
}

/// A JSON value as the specification sees it.
pub enum JsonView {
    Null,
    Bool(bool),
    Number(serde_json::Number),
    String(Seq<char>),
    Array(Seq<JsonView>),
    Object(Seq<(Seq<char>, JsonView)>),
}

impl Json {
    pub open spec fn plain(self) -> JsonView
        decreases self,
    {
        match self {
            Json::Null => JsonView::Null,
            Json::Bool(b) => JsonView::Bool(b),
            Json::Number(n) => JsonView::Number(n),
            Json::String(s) => JsonView::String(s@),
            Json::Array(items) => JsonView::Array(
                Seq::new(items@.len(), |i: int| if 0 <= i < items@.len() { items@[i].plain() } else { JsonView::Null }),
            ),
            Json::Object(members) => JsonView::Object(
                Seq::new(
                    members@.len(),
                    |i: int|
                        if 0 <= i < members@.len() {
                            (members@[i].0@, members@[i].1.plain())
                        } else {
                            (Seq::<char>::empty(), JsonView::Null)
                        },
                ),
            ),
        }
    }
}

impl View for Json {
    type V = JsonView;

    open spec fn view(&self) -> JsonView {
        self.plain()
    }
}

/// The plain form of a serde_json value: the same tree, with each object's
/// members in the map's order.
pub uninterp spec fn json_plain(value: serde_json::Value) -> JsonView;

/// The serde_json value of a plain JSON value: the same tree, each object's
/// members collected into a serde_json map.
pub uninterp spec fn json_of_plain(plain: JsonView) -> serde_json::Value;

/// The bytes `serde_json::to_vec` writes for a value.
pub uninterp spec fn json_bytes_spec(value: serde_json::Value) -> Seq<u8>;

/// What `serde_json::from_slice::<Value>` parses out of `bytes`: `None` when
/// they are not JSON.
pub uninterp spec fn json_from_bytes(bytes: Seq<u8>) -> Option<serde_json::Value>;

/// Converts a serde_json value into plain data, variant by variant; named
/// by `json_plain`.
#[verifier::external_body]
pub(crate) fn plain_json(value: &serde_json::Value) -> (r: Json)
    ensures
        r@ == json_plain(*value),
{
    match value {
        serde_json::Value::Null => Json::Null,
        serde_json::Value::Bool(b) => Json::Bool(*b),
        serde_json::Value::Number(n) => Json::Number(n.clone()),
        serde_json::Value::String(s) => Json::String(s.clone()),
        serde_json::Value::Array(items) => Json::Array(items.iter().map(plain_json).collect()),
        serde_json::Value::Object(map) => Json::Object(map.iter().map(|(k, v)| (k.clone(), plain_json(v))).collect()),
    }
}

/// Converts plain data into a serde_json value, variant by variant; named
/// by `json_of_plain`.
#[verifier::external_body]
pub(crate) fn value_of_json(plain: &Json) -> (r: serde_json::Value)
    ensures
        r == json_of_plain(plain@),
{
    match plain {
        Json::Null => serde_json::Value::Null,
        Json::Bool(b) => serde_json::Value::Bool(*b),
        Json::Number(n) => serde_json::Value::Number(n.clone()),
        Json::String(s) => serde_json::Value::String(s.clone()),
        Json::Array(items) => serde_json::Value::Array(items.iter().map(value_of_json).collect()),
        Json::Object(members) => serde_json::Value::Object(members.iter().map(|(k, v)| (k.clone(), value_of_json(v))).collect()),
    }
}

/// `serde_json::to_vec` of a value, named by `json_bytes_spec`. It
/// succeeds: a `Value`'s map keys are strings and the writer is a `Vec`.
#[verifier::external_body]
pub(crate) fn json_to_vec(value: &serde_json::Value) -> (r: Result<Vec<u8>, String>)
    ensures
        r is Ok,
        r matches Ok(b) ==> b@ == json_bytes_spec(*value),
{
    serde_json::to_vec(value).map_err(|error| error.to_string())
}

/// `serde_json::from_slice::<Value>`, named by `json_from_bytes`; the text
/// of a parse error is serde_json's and is not stated.
#[verifier::external_body]
pub(crate) fn parse_json_bytes(bytes: &[u8]) -> (r: Result<serde_json::Value, String>)
    ensures
        r is Ok <==> json_from_bytes(bytes@) is Some,
        r matches Ok(v) ==> json_from_bytes(bytes@) == Some(v),
{
    serde_json::from_slice(bytes).map_err(|error| error.to_string())
}

/// The value of the first member named `key` of an object; `None` for a
/// value that is not an object or has no such member.
pub open spec fn member(j: JsonView, key: Seq<char>) -> Option<JsonView> {
    match j {
        JsonView::Object(members) => first_member(members, key),
        _ => None,
    }
}

pub open spec fn first_member(members: Seq<(Seq<char>, JsonView)>, key: Seq<char>) -> Option<JsonView>
    decreases members.len(),
{
    if members.len() == 0 {
        None
    } else if members[0].0 == key {
        Some(members[0].1)
    } else {
        first_member(members.drop_first(), key)
    }
}

/// The member named `key` when it is a string.
pub open spec fn string_member(j: JsonView, key: Seq<char>) -> Option<Seq<char>> {
    match member(j, key) {
        Some(JsonView::String(s)) => Some(s),
        _ => None,
    }
}

/// Looks up the first member named `key` of an object.
pub fn member_of<'a>(j: &'a Json, key: &str) -> (r: Option<&'a Json>)
    ensures
        match r {
            Some(m) => member(j@, key@) == Some(m@),
            None => member(j@, key@) is None,
        },
{
    match j {
        Json::Object(members) => {
            let k = chars_of(key);
            let ghost ms = match j@ {
                JsonView::Object(m) => m,
                _ => Seq::<(Seq<char>, JsonView)>::empty(),
            };
            assert(ms.len() == members@.len());
            assert forall|q: int| 0 <= q < members@.len() implies #[trigger] ms[q] == (
                members@[q].0@,
                members@[q].1.plain(),
            ) by {}
            let mut i: usize = 0;
            assert(ms.skip(0) =~= ms);
            while i < members.len()
                invariant
                    k@ == key@,
                    i <= members@.len(),
                    ms.len() == members@.len(),
                    forall|q: int| 0 <= q < members@.len() ==> #[trigger] ms[q] == (members@[q].0@, members@[q].1.plain()),
                    first_member(ms, key@) == first_member(ms.skip(i as int), key@),
                    member(j@, key@) == first_member(ms, key@),
                decreases members@.len() - i,
            {
                let ghost rest = ms.skip(i as int);
                assert(rest[0] == ms[i as int]);
                assert(rest.drop_first() =~= ms.skip(i + 1));
                if chars_equal(&chars_of(members[i].0.as_str()), &k) {
                    assert(ms[i as int] == (members@[i as int].0@, members@[i as int].1.plain()));
                    assert(rest[0].0 == key@);
                    assert(first_member(rest, key@) == Some(rest[0].1));
                    let found = &members[i].1;
                    assert(found@ == members@[i as int].1.plain());
                    return Some(found);
                }
                i = i + 1;
            }
            None
        },
        _ => None,
    }
}

/// Looks up the member named `key` when it is a string.
pub fn string_member_of(j: &Json, key: &str) -> (r: Option<String>)
    ensures
        match r {
            Some(s) => string_member(j@, key@) == Some(s@),
            None => string_member(j@, key@) is None,
        },
{
    match member_of(j, key) {
        Some(Json::String(s)) => Some(s.clone()),
        _ => None,
    }
}

/// Growth, in UTF-16 code units, that a buffer needs before another parse
/// attempt.
pub const STREAMING_JSON_PARSE_MIN_GROWTH: usize = 256;

/// The outcome of a parse attempt on a growing buffer.
#[derive(Debug, PartialEq)]
pub struct ThrottledJsonParse {
    pub value: Option<serde_json::Value>,
    pub attempted_length: usize,
}

/// Whether `serde_json::from_str::<Value>` accepts `text`.
pub uninterp spec fn json_accepts(text: Seq<char>) -> bool;

/// The value `serde_json::from_str::<Value>` parses out of `text`, where it
/// accepts it.
pub uninterp spec fn json_value(text: Seq<char>) -> serde_json::Value;

/// The characters of an optional string.
pub open spec fn opt_chars(o: Option<String>) -> Option<Seq<char>> {
    match o {
        Some(s) => Some(s@),
        None => None,
    }
}

/// Parses `value` with `serde_json::from_str`; `None` when it is not
/// (yet) complete JSON. Whether it parses is named by `json_accepts`, the
/// parsed value by `json_value`.
#[verifier::external_body]
pub fn parse_possibly_complete_json(value: &str) -> (r: Option<serde_json::Value>)
    ensures
        r is Some <==> json_accepts(value@),
        r matches Some(v) ==> v == json_value(value@),
{
    serde_json::from_str(value).ok()
}

/// The compact JSON text serde_json writes for `value` (`Display`).
pub uninterp spec fn json_text_spec(value: serde_json::Value) -> Seq<char>;

/// The compact JSON text of `value` (`Value::to_string`), named by
/// `json_text_spec`.
#[verifier::external_body]
pub(crate) fn json_text(value: &serde_json::Value) -> (r: String)
    ensures
        r@ == json_text_spec(*value),
{
    value.to_string()
}

/// What a parse attempt on `text` gives: its value when serde_json accepts
/// it, else nothing.
pub open spec fn parsed_value(text: Seq<char>) -> Option<serde_json::Value> {
    if json_accepts(text) {
        Some(json_value(text))
    } else {
        None
    }
}

/// The JSON text that `parse_streaming_json` parses: the given text when it
/// is present, non-empty and valid JSON, else the empty object `{}`.
pub open spec fn streaming_json_source(value: Option<Seq<char>>) -> Seq<char> {
    match value {
        Some(v) => if v.len() > 0 && json_accepts(v) {
            v
        } else {
            "{}"@
        },
        None => "{}"@,
    }
}

/// Chooses the text that a final tool-call argument buffer is parsed from.
pub fn streaming_json_text(value: Option<&str>) -> (r: String)
    ensures
        r@ == streaming_json_source(
            match value {
                Some(v) => Some(v@),
                None => None,
            },
        ),
{
    match value {
        Some(v) => {
            if !v.is_empty() && parse_possibly_complete_json(v).is_some() {
                String::from_str(v)
            } else {
                String::from_str("{}")
            }
        },
        None => String::from_str("{}"),
    }
}

/// Parses a final argument buffer: the parsed text when it is present,
/// non-empty and valid, else the empty object.
pub fn parse_streaming_json(value: Option<&str>) -> (r: serde_json::Value)
    ensures
        r == json_value(streaming_json_source(
            match value {
                Some(v) => Some(v@),
                None => None,
            },
        )),
{
    let text = streaming_json_text(value);
    match parse_possibly_complete_json(text.as_str()) {
        Some(v) => v,
        None => empty_json_object(),
    }
}

/// `serde_json::Value::Object` with no member: the value serde_json parses
/// out of the text `{}`.
#[verifier::external_body]
fn empty_json_object() -> (r: serde_json::Value)
    ensures
        r == json_value("{}"@),
{
    serde_json::Value::Object(serde_json::Map::new())
}

/// The number of UTF-16 code units of `s`, as JavaScript's `String.length`
/// counts them.
pub open spec fn utf16_len(s: Seq<char>) -> nat
    decreases s.len(),
{
    if s.len() == 0 {
        0
    } else {
        utf16_units(s[0]) + utf16_len(s.drop_first())
    }
}

/// Code units of one character: two above the Basic Multilingual Plane.
pub open spec fn utf16_units(c: char) -> nat {
    if c as u32 > 0xFFFF {
        2
    } else {
        1
    }
}

proof fn lemma_utf16_len_append(a: Seq<char>, b: Seq<char>)
    ensures
        utf16_len(a + b) == utf16_len(a) + utf16_len(b),
    decreases a.len(),
{
    if a.len() > 0 {
        assert((a + b).drop_first() =~= a.drop_first() + b);
        lemma_utf16_len_append(a.drop_first(), b);
    } else {
        assert(a + b =~= b);
    }
}

proof fn lemma_utf16_le_utf8(s: Seq<char>)
    ensures
        utf16_len(s) <= encode_utf8(s).len(),
    decreases s.len(),
{
    if s.len() > 0 {
        lemma_utf16_le_utf8(s.drop_first());
        let x = s[0] as u32;
        assert(encode_scalar(x).len() >= utf16_units(s[0]));
    }
}

/// Counts UTF-16 code units, as JavaScript's `String.length` does.
pub fn utf16_length(value: &str) -> (r: usize)
    ensures
        r == utf16_len(value@),
{
    let chars = chars_of(value);
    let raw = value.as_bytes();
    let bytes = raw.len();
    assert(raw@ == encode_utf8(value@));
    proof {
        lemma_utf16_le_utf8(value@);
    }
    let mut count: usize = 0;
    let mut i: usize = 0;
    while i < chars.len()
        invariant
            chars@ == value@,
            i <= chars@.len(),
            count == utf16_len(chars@.take(i as int)),
            utf16_len(chars@) <= bytes,
        decreases chars@.len() - i,
    {
        proof {
            let t = chars@.take(i as int + 1);
            assert(t =~= chars@.take(i as int) + seq![chars@[i as int]]);
            lemma_utf16_len_append(chars@.take(i as int), seq![chars@[i as int]]);
            assert(utf16_len(seq![chars@[i as int]]) == utf16_units(chars@[i as int])) by {
                assert(seq![chars@[i as int]].drop_first() =~= Seq::<char>::empty());
                assert(utf16_len(Seq::<char>::empty()) == 0);
            }
            assert(chars@ =~= t + chars@.skip(i as int + 1));
            lemma_utf16_len_append(t, chars@.skip(i as int + 1));
        }
        if chars[i] as u32 > 0xFFFF {
            count = count + 2;
        } else {
            count = count + 1;
        }
        i = i + 1;
    }
    assert(chars@.take(i as int) =~= chars@);
    count
}

/// Whether a buffer of `attempted` units may be parsed again after an
/// attempt at `last` units: the first non-empty buffer always, later ones
/// after growing by at least `STREAMING_JSON_PARSE_MIN_GROWTH` units.
pub open spec fn parse_allowed(attempted: nat, last: nat) -> bool {
    let growth = if attempted >= last {
        attempted - last
    } else {
        0
    };
    attempted > 0 && !(last > 0 && growth < STREAMING_JSON_PARSE_MIN_GROWTH)
}

/// Parses a growing JSON buffer only when it is non-empty and, after an
/// earlier attempt at `last_attempted_length` units, has grown enough.
pub fn parse_possibly_complete_json_throttled(value: &str, last_attempted_length: usize) -> (r: Option<ThrottledJsonParse>)
    ensures
        r is Some <==> parse_allowed(utf16_len(value@), last_attempted_length as nat),
        r matches Some(p) ==> p.attempted_length == utf16_len(value@) && p.value == parsed_value(value@),
{
    let attempted_length = utf16_length(value);
    let growth = attempted_length.saturating_sub(last_attempted_length);
    let should_throttle = last_attempted_length > 0 && growth < STREAMING_JSON_PARSE_MIN_GROWTH;
    if attempted_length > 0 && !should_throttle {
        Some(ThrottledJsonParse { value: parse_possibly_complete_json(value), attempted_length })
    } else {
        None
    }
}

/// The first non-empty buffer is always parsed; after an attempt, the next
/// one waits until the buffer has grown by `STREAMING_JSON_PARSE_MIN_GROWTH`
/// units.
pub proof fn parse_throttle_schedule(attempted: nat, last: nat)
    ensures
        last == 0 ==> (parse_allowed(attempted, last) <==> attempted > 0),
        last > 0 ==> (parse_allowed(attempted, last) <==> attempted >= last + STREAMING_JSON_PARSE_MIN_GROWTH),
{
}

} // verus!
