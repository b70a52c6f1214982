//! Chat streaming: what each decoded response message turns into.

use vstd::prelude::*;
use vstd::slice::{slice_subrange, slice_to_vec};
use indexmap::IndexMap;
use crate::connect::trailer_error_message;
use crate::error::DevinError;
use crate::index_map::{slot_entries, slot_index, slot_map_get, slot_map_insert, slot_map_new, slot_insert, lemma_slot_index};
use crate::json::{json_value, opt_chars, parse_allowed, parsed_value, streaming_json_source, parse_possibly_complete_json_throttled, parse_streaming_json, utf16_len};
use crate::proto::{stop_reason_of, ChatToolCall, GetChatMessageResponse, StopReason};
use crate::text::{chars_of, string_from_chars};
use crate::types::{DevinStopReason, DevinStreamEvent};

verus! {

/// The accumulated state of one streamed tool call.
#[derive(Debug)]
pub struct StreamingToolCallState {
    pub name: String,
    pub arguments_json: String,
    pub last_parse_attempt_length: usize,
}

/// A tool call's state as the specification sees it.
pub struct ToolCallSpec {
    pub name: Seq<char>,
    pub arguments_json: Seq<char>,
    pub last_parse_attempt_length: nat,
}

impl View for StreamingToolCallState {
    type V = ToolCallSpec;

    open spec fn view(&self) -> ToolCallSpec {
        ToolCallSpec {
            name: self.name@,
            arguments_json: self.arguments_json@,
            last_parse_attempt_length: self.last_parse_attempt_length as nat,
        }
    }
}

/// `s` begins with `p`.
pub open spec fn starts_with(s: Seq<char>, p: Seq<char>) -> bool {
    p.len() <= s.len() && s.subrange(0, p.len() as int) == p
}

/// The argument buffer after an update: an update that repeats the buffer
/// as its prefix is cumulative and replaces it; any other is appended.
pub open spec fn accumulated_arguments(previous: Seq<char>, incoming: Seq<char>) -> Seq<char> {
    if starts_with(incoming, previous) {
        incoming
    } else {
        previous + incoming
    }
}

/// The outcome of one tool-call update: the next state, the raw delta, and
/// the parsed argument snapshot that comes with it, if any.
pub struct AdvanceSpec {
    pub state: ToolCallSpec,
    pub delta: Seq<char>,
    pub parsed: Option<serde_json::Value>,
}

/// One tool-call update applied to the previous state of that call.
pub open spec fn advance_spec(previous: Option<ToolCallSpec>, call: ChatToolCall) -> AdvanceSpec {
    let previous_json = match previous {
        Some(p) => p.arguments_json,
        None => Seq::<char>::empty(),
    };
    let previous_last = match previous {
        Some(p) => p.last_parse_attempt_length,
        None => 0,
    };
    let arguments = accumulated_arguments(previous_json, call.arguments_json@);
    let attempted = parse_allowed(utf16_len(arguments), previous_last);
    AdvanceSpec {
        state: ToolCallSpec {
            name: if call.name@.len() == 0 {
                match previous {
                    Some(p) => p.name,
                    None => Seq::<char>::empty(),
                }
            } else {
                call.name@
            },
            arguments_json: arguments,
            last_parse_attempt_length: if attempted {
                utf16_len(arguments)
            } else {
                previous_last
            },
        },
        delta: arguments.subrange(previous_json.len() as int, arguments.len() as int),
        parsed: if attempted {
            parsed_value(arguments)
        } else {
            None
        },
    }
}

pub open spec fn opt_state(previous: Option<&StreamingToolCallState>) -> Option<ToolCallSpec> {
    match previous {
        Some(p) => Some(p@),
        None => None,
    }
}

/// Whether `s` begins with `p`.
pub fn starts_with_chars(s: &Vec<char>, p: &Vec<char>) -> (r: bool)
    ensures
        r == starts_with(s@, p@),
{
    if p.len() > s.len() {
        return false;
    }
    let mut i: usize = 0;
    while i < p.len()
        invariant
            p@.len() <= s@.len(),
            i <= p@.len(),
            forall|j: int| 0 <= j < i ==> s@[j] == p@[j],
        decreases p@.len() - i,
    {
        if s[i] != p[i] {
            assert(s@.subrange(0, p@.len() as int)[i as int] != p@[i as int]);
            return false;
        }
        i = i + 1;
    }
    assert(s@.subrange(0, p@.len() as int) =~= p@);
    true
}

/// Applies one streamed tool-call update to the previous state of that
/// call: accumulates its arguments, keeps the last non-empty name, and
/// attempts a throttled parse. Returns the next state, the raw argument
/// delta, and the parsed snapshot when one was attempted and succeeded.
pub fn advance_streaming_tool_call(previous: Option<&StreamingToolCallState>, call: &ChatToolCall) -> (r: (
    StreamingToolCallState,
    String,
    Option<serde_json::Value>,
))
    ensures
        r.0@ == advance_spec(opt_state(previous), *call).state,
        r.1@ == advance_spec(opt_state(previous), *call).delta,
        r.2 == advance_spec(opt_state(previous), *call).parsed,
{
    let previous_json: Vec<char> = match previous {
        Some(p) => chars_of(p.arguments_json.as_str()),
        None => Vec::new(),
    };
    let previous_last: usize = match previous {
        Some(p) => p.last_parse_attempt_length,
        None => 0,
    };
    let incoming = chars_of(call.arguments_json.as_str());
    let arguments: Vec<char> = if starts_with_chars(&incoming, &previous_json) {
        incoming
    } else {
        let mut a = previous_json.clone();
        assert(a@ =~= previous_json@);
        let mut b = incoming;
        a.append(&mut b);
        a
    };
    assert(arguments@.subrange(0, previous_json@.len() as int) =~= previous_json@);
    let arguments_json = string_from_chars(&arguments);
    let parsed = parse_possibly_complete_json_throttled(arguments_json.as_str(), previous_last);
    let name = if call.name.as_str().is_empty() {
        match previous {
            Some(p) => p.name.clone(),
            None => String::new(),
        }
    } else {
        call.name.clone()
    };
    let last_parse_attempt_length = match &parsed {
        Some(p) => p.attempted_length,
        None => previous_last,
    };
    let delta_chars = slice_to_vec(slice_subrange(arguments.as_slice(), previous_json.len(), arguments.len()));
    let delta = string_from_chars(&delta_chars);
    let value = match parsed {
        Some(p) => p.value,
        None => None,
    };
    (StreamingToolCallState { name, arguments_json, last_parse_attempt_length }, delta, value)
}

/// Each delta extends the accumulated arguments: the previous buffer
/// followed by the delta is the new buffer, so the deltas of a tool call,
/// joined, are its final arguments.
pub proof fn delta_extends_arguments(previous: Option<ToolCallSpec>, call: ChatToolCall)
    ensures
        ({
            let a = advance_spec(previous, call);
            let previous_json = match previous {
                Some(p) => p.arguments_json,
                None => Seq::<char>::empty(),
            };
            previous_json + a.delta == a.state.arguments_json
        }),
{
    let previous_json = match previous {
        Some(p) => p.arguments_json,
        None => Seq::<char>::empty(),
    };
    let args = accumulated_arguments(previous_json, call.arguments_json@);
    assert(args.subrange(0, previous_json.len() as int) =~= previous_json);
    assert(previous_json + args.subrange(previous_json.len() as int, args.len() as int) =~= args);
}

/// An event as the specification sees it. A tool-call delta carries its
/// parsed snapshot, if any; an end carries the final parse of the buffer.
pub enum EventSpec {
    TextDelta(Seq<char>),
    ThinkingDelta(Seq<char>, Option<Seq<char>>),
    ToolCallStart(Seq<char>, Seq<char>),
    ToolCallDelta(Seq<char>, Seq<char>, Option<serde_json::Value>),
    ToolCallEnd(Seq<char>, Seq<char>, serde_json::Value),
    Usage(u64, u64, u64, u64),
    Done(DevinStopReason),
}

/// An event agrees with its specification.
pub open spec fn event_matches(e: DevinStreamEvent, s: EventSpec) -> bool {
    match s {
        EventSpec::TextDelta(d) => e matches DevinStreamEvent::TextDelta { delta } && delta@ == d,
        EventSpec::ThinkingDelta(d, sig) => e matches DevinStreamEvent::ThinkingDelta { delta, signature }
            && delta@ == d && opt_chars(signature) == sig,
        EventSpec::ToolCallStart(i, n) => e matches DevinStreamEvent::ToolCallStart { id, name } && id@ == i
            && name@ == n,
        EventSpec::ToolCallDelta(i, d, p) => e matches DevinStreamEvent::ToolCallDelta { id, delta, arguments }
            && id@ == i && delta@ == d && arguments == p,
        EventSpec::ToolCallEnd(i, n, a) => e matches DevinStreamEvent::ToolCallEnd { id, name, arguments } && id@ == i
            && name@ == n && arguments == a,
        EventSpec::Usage(a, b, c, d) => e matches DevinStreamEvent::Usage {
            input_tokens,
            output_tokens,
            cache_read_tokens,
            cache_write_tokens,
        } && input_tokens == a && output_tokens == b && cache_read_tokens == c && cache_write_tokens == d,
        EventSpec::Done(r) => e matches DevinStreamEvent::Done { reason } && reason == r,
    }
}

/// Each event agrees with the specified one at its position.
pub open spec fn events_match(es: Seq<DevinStreamEvent>, ss: Seq<EventSpec>) -> bool {
    &&& es.len() == ss.len()
    &&& forall|i: int| 0 <= i < es.len() ==> event_matches(#[trigger] es[i], ss[i])
}

/// The decision state of a chat stream as the specification sees it: the
/// tool calls in first-seen order, the call that id-less updates continue,
/// whether any tool call was seen, and the latest known stop reason.
pub struct ChatStreamView {
    pub tool_calls: Seq<(Seq<char>, ToolCallSpec)>,
    pub active: Option<Seq<char>>,
    pub saw_tool_call: bool,
    pub latest_stop_reason: StopReason,
}

/// The tool calls as key/position entries.
pub open spec fn position_entries(calls: Seq<(Seq<char>, ToolCallSpec)>) -> Seq<(Seq<char>, usize)> {
    Seq::new(calls.len(), |i: int| (calls[i].0, i as usize))
}

/// The position of the tool call with id `id`.
pub open spec fn tool_index(calls: Seq<(Seq<char>, ToolCallSpec)>, id: Seq<char>) -> Option<int> {
    slot_index(position_entries(calls), id)
}

/// One tool-call update of a response message.
pub open spec fn apply_call(v: ChatStreamView, call: ChatToolCall) -> (ChatStreamView, Seq<EventSpec>) {
    let target = if call.id@.len() == 0 {
        v.active
    } else {
        Some(call.id@)
    };
    match target {
        None => (v, seq![]),
        Some(id) => {
            let index = tool_index(v.tool_calls, id);
            let previous = match index {
                Some(i) => Some(v.tool_calls[i].1),
                None => None,
            };
            let a = advance_spec(previous, call);
            let calls = match index {
                Some(i) => v.tool_calls.update(i, (id, a.state)),
                None => v.tool_calls.push((id, a.state)),
            };
            let start = match index {
                Some(_) => Seq::<EventSpec>::empty(),
                None => seq![EventSpec::ToolCallStart(id, a.state.name)],
            };
            (
                ChatStreamView {
                    tool_calls: calls,
                    active: Some(id),
                    saw_tool_call: true,
                    latest_stop_reason: v.latest_stop_reason,
                },
                start + seq![EventSpec::ToolCallDelta(id, a.delta, a.parsed)],
            )
        },
    }
}

/// The tool-call updates of a response message, in order.
pub open spec fn apply_calls(v: ChatStreamView, calls: Seq<ChatToolCall>) -> (ChatStreamView, Seq<EventSpec>)
    decreases calls.len(),
{
    if calls.len() == 0 {
        (v, seq![])
    } else {
        let first = apply_call(v, calls[0]);
        let rest = apply_calls(first.0, calls.drop_first());
        (rest.0, first.1 + rest.1)
    }
}

/// The thinking and text events that open a response message's events.
pub open spec fn leading_events(m: GetChatMessageResponse) -> Seq<EventSpec> {
    let thinking = if m.delta_thinking@.len() > 0 {
        seq![
            EventSpec::ThinkingDelta(
                m.delta_thinking@,
                if m.delta_signature@.len() > 0 {
                    Some(m.delta_signature@)
                } else {
                    None
                },
            ),
        ]
    } else {
        Seq::<EventSpec>::empty()
    };
    let text = if m.delta_text@.len() > 0 {
        seq![EventSpec::TextDelta(m.delta_text@)]
    } else {
        Seq::<EventSpec>::empty()
    };
    thinking + text
}

/// The stop reason after a message: a known, specified reason replaces the
/// previous one.
pub open spec fn next_stop_reason(previous: StopReason, wire: i32) -> StopReason {
    match stop_reason_of(wire) {
        Some(r) => if r != StopReason::Unspecified {
            r
        } else {
            previous
        },
        None => previous,
    }
}

/// One response message: thinking, text, tool-call updates and usage.
pub open spec fn apply_message(v: ChatStreamView, m: GetChatMessageResponse) -> (ChatStreamView, Seq<EventSpec>) {
    let calls = apply_calls(v, m.delta_tool_calls@);
    let usage = match m.usage {
        Some(u) => seq![
            EventSpec::Usage(u.input_tokens, u.output_tokens, u.cache_read_tokens, u.cache_write_tokens),
        ],
        None => Seq::<EventSpec>::empty(),
    };
    (
        ChatStreamView {
            latest_stop_reason: next_stop_reason(calls.0.latest_stop_reason, m.stop_reason),
            ..calls.0
        },
        leading_events(m) + calls.1 + usage,
    )
}

/// Why the stream finished: tool use whenever a tool call was seen, else
/// length when the model hit its token limit, else a plain stop.
pub open spec fn done_reason(v: ChatStreamView) -> DevinStopReason {
    if v.saw_tool_call {
        DevinStopReason::ToolUse
    } else if v.latest_stop_reason == StopReason::MaxTokens {
        DevinStopReason::Length
    } else {
        DevinStopReason::Stop
    }
}

/// The arguments a tool call ends with: the final buffer parsed, or the
/// empty object when it is empty or not valid JSON.
pub open spec fn final_arguments(buffer: Seq<char>) -> serde_json::Value {
    json_value(streaming_json_source(Some(buffer)))
}

/// The end event of a tool call.
pub open spec fn end_event(c: (Seq<char>, ToolCallSpec)) -> EventSpec {
    EventSpec::ToolCallEnd(c.0, c.1.name, final_arguments(c.1.arguments_json))
}

/// The closing events: one end per tool call in first-seen order, then done.
pub open spec fn finish_events(v: ChatStreamView) -> Seq<EventSpec> {
    Seq::new(v.tool_calls.len(), |i: int| end_event(v.tool_calls[i])).push(
        EventSpec::Done(done_reason(v)),
    )
}

/// A tool call, once started, keeps its place: the calls already seen come
/// first, with the same ids, after any further updates. So every started
/// tool call is ended once, in first-seen order.
pub proof fn tool_calls_keep_their_place(v: ChatStreamView, calls: Seq<ChatToolCall>)
    ensures
        ({
            let after = apply_calls(v, calls).0;
            &&& v.tool_calls.len() <= after.tool_calls.len()
            &&& forall|i: int| 0 <= i < v.tool_calls.len() ==> after.tool_calls[i].0 == v.tool_calls[i].0
        }),
    decreases calls.len(),
{
    if calls.len() > 0 {
        let first = apply_call(v, calls[0]);
        tool_calls_keep_their_place(first.0, calls.drop_first());
        let call = calls[0];
        let target = if call.id@.len() == 0 {
            v.active
        } else {
            Some(call.id@)
        };
        if let Some(id) = target {
            if let Some(i) = tool_index(v.tool_calls, id) {
                lemma_slot_index(position_entries(v.tool_calls), id);
                assert(position_entries(v.tool_calls)[i].0 == v.tool_calls[i].0);
            }
        }
    }
}

/// The ids of the tool calls an event list starts, in order.
pub open spec fn started_ids(es: Seq<EventSpec>) -> Seq<Seq<char>>
    decreases es.len(),
{
    if es.len() == 0 {
        seq![]
    } else {
        started_ids(es.drop_last()) + match es.last() {
            EventSpec::ToolCallStart(id, _) => seq![id],
            _ => Seq::<Seq<char>>::empty(),
        }
    }
}

/// The ids of the tool calls an event list ends, in order.
pub open spec fn ended_ids(es: Seq<EventSpec>) -> Seq<Seq<char>>
    decreases es.len(),
{
    if es.len() == 0 {
        seq![]
    } else {
        ended_ids(es.drop_last()) + match es.last() {
            EventSpec::ToolCallEnd(id, _, _) => seq![id],
            _ => Seq::<Seq<char>>::empty(),
        }
    }
}

/// The ids of the tool calls, in first-seen order.
pub open spec fn call_ids(calls: Seq<(Seq<char>, ToolCallSpec)>) -> Seq<Seq<char>> {
    Seq::new(calls.len(), |i: int| calls[i].0)
}

/// No id occurs twice.
pub open spec fn ids_distinct(ids: Seq<Seq<char>>) -> bool {
    forall|i: int, j: int| 0 <= i < j < ids.len() ==> ids[i] != ids[j]
}

/// Response messages applied in order, with their events.
pub open spec fn apply_messages(v: ChatStreamView, ms: Seq<GetChatMessageResponse>) -> (ChatStreamView, Seq<EventSpec>)
    decreases ms.len(),
{
    if ms.len() == 0 {
        (v, seq![])
    } else {
        let first = apply_message(v, ms[0]);
        let rest = apply_messages(first.0, ms.drop_first());
        (rest.0, first.1 + rest.1)
    }
}

/// The view of a stream before its first message.
pub open spec fn initial_view() -> ChatStreamView {
    ChatStreamView { tool_calls: seq![], active: None, saw_tool_call: false, latest_stop_reason: StopReason::Unspecified }
}

proof fn lemma_started_append(a: Seq<EventSpec>, b: Seq<EventSpec>)
    ensures
        started_ids(a + b) == started_ids(a) + started_ids(b),
    decreases b.len(),
{
    if b.len() == 0 {
        assert(a + b =~= a);
        assert(started_ids(a) + seq![] =~= started_ids(a));
    } else {
        assert((a + b).drop_last() =~= a + b.drop_last());
        assert((a + b).last() == b.last());
        lemma_started_append(a, b.drop_last());
        let tail = match b.last() {
            EventSpec::ToolCallStart(id, _) => seq![id],
            _ => Seq::<Seq<char>>::empty(),
        };
        assert(started_ids(a) + started_ids(b.drop_last()) + tail =~= started_ids(a) + (started_ids(b.drop_last())
            + tail));
    }
}

proof fn lemma_no_starts(es: Seq<EventSpec>)
    requires
        forall|i: int| 0 <= i < es.len() ==> !(es[i] is ToolCallStart),
    ensures
        started_ids(es) == Seq::<Seq<char>>::empty(),
    decreases es.len(),
{
    if es.len() > 0 {
        lemma_no_starts(es.drop_last());
    }
}

/// One update adds to the calls exactly the calls it starts, and keeps
/// their ids distinct.
proof fn lemma_call_starts(v: ChatStreamView, call: ChatToolCall)
    requires
        ids_distinct(call_ids(v.tool_calls)),
    ensures
        call_ids(apply_call(v, call).0.tool_calls) == call_ids(v.tool_calls) + started_ids(apply_call(v, call).1),
        ids_distinct(call_ids(apply_call(v, call).0.tool_calls)),
{
    let r = apply_call(v, call);
    let target = if call.id@.len() == 0 {
        v.active
    } else {
        Some(call.id@)
    };
    match target {
        None => {
            assert(call_ids(v.tool_calls) + seq![] =~= call_ids(v.tool_calls));
        },
        Some(id) => {
            lemma_slot_index(position_entries(v.tool_calls), id);
            let a = advance_spec(
                match tool_index(v.tool_calls, id) {
                    Some(i) => Some(v.tool_calls[i].1),
                    None => None,
                },
                call,
            );
            let delta = seq![EventSpec::ToolCallDelta(id, a.delta, a.parsed)];
            lemma_no_starts(delta);
            match tool_index(v.tool_calls, id) {
                Some(i) => {
                    assert(position_entries(v.tool_calls)[i].0 == v.tool_calls[i].0);
                    assert(r.1 =~= Seq::<EventSpec>::empty() + delta);
                    assert(Seq::<EventSpec>::empty() + delta =~= delta);
                    assert(call_ids(r.0.tool_calls) =~= call_ids(v.tool_calls));
                    assert(call_ids(v.tool_calls) + seq![] =~= call_ids(v.tool_calls));
                },
                None => {
                    let start = seq![EventSpec::ToolCallStart(id, a.state.name)];
                    assert(r.1 == start + delta);
                    assert(started_ids(start) == seq![id]) by {
                        assert(start.drop_last() =~= Seq::<EventSpec>::empty());
                        assert(started_ids(Seq::<EventSpec>::empty()) == Seq::<Seq<char>>::empty());
                        assert(Seq::<Seq<char>>::empty() + seq![id] =~= seq![id]);
                    }
                    lemma_started_append(start, delta);
                    assert(seq![id] + Seq::<Seq<char>>::empty() =~= seq![id]);
                    assert(call_ids(r.0.tool_calls) =~= call_ids(v.tool_calls).push(id));
                    assert forall|j: int| 0 <= j < v.tool_calls.len() implies call_ids(v.tool_calls)[j] != id by {
                        assert(position_entries(v.tool_calls)[j].0 == v.tool_calls[j].0);
                    }
                },
            }
        },
    }
}

proof fn lemma_calls_starts(v: ChatStreamView, calls: Seq<ChatToolCall>)
    requires
        ids_distinct(call_ids(v.tool_calls)),
    ensures
        call_ids(apply_calls(v, calls).0.tool_calls) == call_ids(v.tool_calls) + started_ids(apply_calls(v, calls).1),
        ids_distinct(call_ids(apply_calls(v, calls).0.tool_calls)),
    decreases calls.len(),
{
    if calls.len() == 0 {
        assert(call_ids(v.tool_calls) + seq![] =~= call_ids(v.tool_calls));
    } else {
        let first = apply_call(v, calls[0]);
        lemma_call_starts(v, calls[0]);
        lemma_calls_starts(first.0, calls.drop_first());
        let rest = apply_calls(first.0, calls.drop_first());
        lemma_started_append(first.1, rest.1);
        assert(call_ids(v.tool_calls) + started_ids(first.1) + started_ids(rest.1) =~= call_ids(v.tool_calls) + (
        started_ids(first.1) + started_ids(rest.1)));
    }
}

proof fn lemma_message_starts(v: ChatStreamView, m: GetChatMessageResponse)
    requires
        ids_distinct(call_ids(v.tool_calls)),
    ensures
        call_ids(apply_message(v, m).0.tool_calls) == call_ids(v.tool_calls) + started_ids(apply_message(v, m).1),
        ids_distinct(call_ids(apply_message(v, m).0.tool_calls)),
{
    let calls = apply_calls(v, m.delta_tool_calls@);
    lemma_calls_starts(v, m.delta_tool_calls@);
    let usage = match m.usage {
        Some(u) => seq![
            EventSpec::Usage(u.input_tokens, u.output_tokens, u.cache_read_tokens, u.cache_write_tokens),
        ],
        None => Seq::<EventSpec>::empty(),
    };
    lemma_no_starts(leading_events(m));
    lemma_no_starts(usage);
    lemma_started_append(leading_events(m), calls.1);
    lemma_started_append(leading_events(m) + calls.1, usage);
    assert(Seq::<Seq<char>>::empty() + started_ids(calls.1) + Seq::<Seq<char>>::empty() =~= started_ids(calls.1));
    assert(call_ids(apply_message(v, m).0.tool_calls) == call_ids(calls.0.tool_calls));
}

proof fn lemma_messages_starts(v: ChatStreamView, ms: Seq<GetChatMessageResponse>)
    requires
        ids_distinct(call_ids(v.tool_calls)),
    ensures
        call_ids(apply_messages(v, ms).0.tool_calls) == call_ids(v.tool_calls) + started_ids(apply_messages(v, ms).1),
        ids_distinct(call_ids(apply_messages(v, ms).0.tool_calls)),
    decreases ms.len(),
{
    if ms.len() == 0 {
        assert(call_ids(v.tool_calls) + seq![] =~= call_ids(v.tool_calls));
    } else {
        let first = apply_message(v, ms[0]);
        lemma_message_starts(v, ms[0]);
        lemma_messages_starts(first.0, ms.drop_first());
        let rest = apply_messages(first.0, ms.drop_first());
        lemma_started_append(first.1, rest.1);
        assert(call_ids(v.tool_calls) + started_ids(first.1) + started_ids(rest.1) =~= call_ids(v.tool_calls) + (
        started_ids(first.1) + started_ids(rest.1)));
    }
}

proof fn lemma_finish_ends(v: ChatStreamView)
    ensures
        ended_ids(finish_events(v)) == call_ids(v.tool_calls),
{
    let n = v.tool_calls.len() as int;
    let f = |i: int| end_event(v.tool_calls[i]);
    let ends = Seq::new(n as nat, f);
    assert(finish_events(v).drop_last() =~= ends);
    lemma_ends_prefix(v, n);
}

proof fn lemma_ends_prefix(v: ChatStreamView, k: int)
    requires
        0 <= k <= v.tool_calls.len(),
    ensures
        ended_ids(
            Seq::new(k as nat, |i: int| end_event(v.tool_calls[i])),
        ) == call_ids(v.tool_calls).take(k),
    decreases k,
{
    let ends = Seq::new(k as nat, |i: int| end_event(v.tool_calls[i]));
    if k == 0 {
        assert(call_ids(v.tool_calls).take(0) =~= Seq::<Seq<char>>::empty());
    } else {
        lemma_ends_prefix(v, k - 1);
        assert(ends.drop_last() =~= Seq::new(
            (k - 1) as nat,
            |i: int| end_event(v.tool_calls[i]),
        ));
        assert(call_ids(v.tool_calls).take(k) =~= call_ids(v.tool_calls).take(k - 1).push(v.tool_calls[k - 1].0));
    }
}

/// Every tool call that a stream starts is ended exactly once, in the order
/// the calls started: over any sequence of response messages from the
/// start of a stream, the ids of the `ToolCallStart` events are distinct
/// and are the ids of the closing `ToolCallEnd` events, in the same order.
pub proof fn tool_calls_start_and_end_once(ms: Seq<GetChatMessageResponse>)
    ensures
        ({
            let r = apply_messages(initial_view(), ms);
            &&& started_ids(r.1) == ended_ids(finish_events(r.0))
            &&& ids_distinct(started_ids(r.1))
        }),
{
    let init = initial_view();
    assert(call_ids(init.tool_calls) =~= Seq::<Seq<char>>::empty());
    lemma_messages_starts(init, ms);
    let r = apply_messages(init, ms);
    assert(Seq::<Seq<char>>::empty() + started_ids(r.1) =~= started_ids(r.1));
    lemma_finish_ends(r.0);
}

/// A response message's events come in a fixed order: its thinking delta
/// first (with the signature when one is given), then its text delta, then
/// its tool-call events, and its usage last. Empty thinking or text gives
/// no event, and no other thinking or text event appears.
pub proof fn message_events_in_order(v: ChatStreamView, m: GetChatMessageResponse)
    ensures
        ({
            let es = apply_message(v, m).1;
            let lead = (if m.delta_thinking@.len() > 0 { 1int } else { 0int }) + (if m.delta_text@.len() > 0 {
                1int
            } else {
                0int
            });
            &&& m.delta_thinking@.len() > 0 ==> es[0] == EventSpec::ThinkingDelta(
                m.delta_thinking@,
                if m.delta_signature@.len() > 0 {
                    Some(m.delta_signature@)
                } else {
                    None
                },
            )
            &&& m.delta_text@.len() > 0 ==> es[lead - 1] == EventSpec::TextDelta(m.delta_text@)
            &&& m.usage matches Some(u) ==> es.last() == EventSpec::Usage(
                u.input_tokens,
                u.output_tokens,
                u.cache_read_tokens,
                u.cache_write_tokens,
            )
            &&& es.len() == lead + apply_calls(v, m.delta_tool_calls@).1.len() + (if m.usage is Some {
                1int
            } else {
                0int
            })
            &&& forall|k: int|
                lead <= k < es.len() ==> !(#[trigger] es[k] is ThinkingDelta) && !(es[k] is TextDelta)
        }),
{
    let calls = apply_calls(v, m.delta_tool_calls@);
    lemma_call_events_kinds(v, m.delta_tool_calls@);
}

/// Tool-call updates produce only tool-call start and delta events.
proof fn lemma_call_events_kinds(v: ChatStreamView, calls: Seq<ChatToolCall>)
    ensures
        forall|k: int|
            0 <= k < apply_calls(v, calls).1.len() ==> (#[trigger] apply_calls(v, calls).1[k] is ToolCallStart)
                || (apply_calls(v, calls).1[k] is ToolCallDelta),
    decreases calls.len(),
{
    if calls.len() > 0 {
        let first = apply_call(v, calls[0]);
        lemma_call_events_kinds(first.0, calls.drop_first());
        let rest = apply_calls(first.0, calls.drop_first());
        assert(forall|k: int| 0 <= k < first.1.len() ==> (#[trigger] first.1[k] is ToolCallStart) || (first.1[k] is ToolCallDelta));
        assert forall|k: int| 0 <= k < apply_calls(v, calls).1.len() implies (#[trigger] apply_calls(v, calls).1[k] is ToolCallStart)
            || (apply_calls(v, calls).1[k] is ToolCallDelta) by {
            if k < first.1.len() {
                assert(apply_calls(v, calls).1[k] == first.1[k]);
            } else {
                assert(apply_calls(v, calls).1[k] == rest.1[k - first.1.len()]);
            }
        }
    }
}

/// The state of a chat stream between response messages.
pub struct ChatStreamState {
    slots: IndexMap<String, usize>,
    calls: Vec<(String, StreamingToolCallState)>,
    active_tool_call_id: Option<String>,
    saw_tool_call: bool,
    latest_stop_reason: StopReason,
}

impl ChatStreamState {
    pub closed spec fn view(self) -> ChatStreamView {
        ChatStreamView {
            tool_calls: Seq::new(self.calls@.len(), |i: int| (self.calls@[i].0@, self.calls@[i].1@)),
            active: opt_chars(self.active_tool_call_id),
            saw_tool_call: self.saw_tool_call,
            latest_stop_reason: self.latest_stop_reason,
        }
    }

    /// The id index agrees with the tool calls, whose ids are distinct.
    pub closed spec fn wf(self) -> bool {
        &&& slot_entries(self.slots) == position_entries(self.view().tool_calls)
        &&& forall|i: int, j: int|
            0 <= i < j < self.calls@.len() ==> self.calls@[i].0@ != self.calls@[j].0@
    }

    /// A stream before its first message.
    pub fn new() -> (r: Self)
        ensures
            r.wf(),
            r.view() == (ChatStreamView {
                tool_calls: seq![],
                active: None,
                saw_tool_call: false,
                latest_stop_reason: StopReason::Unspecified,
            }),
    {
        let r = ChatStreamState {
            slots: slot_map_new(),
            calls: Vec::new(),
            active_tool_call_id: None,
            saw_tool_call: false,
            latest_stop_reason: StopReason::Unspecified,
        };
        assert(r.view().tool_calls =~= seq![]);
        assert(position_entries(r.view().tool_calls) =~= Seq::<(Seq<char>, usize)>::empty());
        r
    }

    /// The ids of the tool calls seen so far are distinct.
    pub proof fn lemma_distinct_ids(self)
        requires
            self.wf(),
        ensures
            forall|i: int, j: int|
                0 <= i < j < self.view().tool_calls.len() ==> self.view().tool_calls[i].0
                    != self.view().tool_calls[j].0,
    {
    }

    fn apply_tool_call(&mut self, call: &ChatToolCall, out: &mut Vec<DevinStreamEvent>)
        requires
            old(self).wf(),
        ensures
            final(self).wf(),
            final(self).view() == apply_call(old(self).view(), *call).0,
            final(out)@.len() == old(out)@.len() + apply_call(old(self).view(), *call).1.len(),
            forall|i: int| 0 <= i < old(out)@.len() ==> final(out)@[i] == old(out)@[i],
            events_match(
                final(out)@.subrange(old(out)@.len() as int, final(out)@.len() as int),
                apply_call(old(self).view(), *call).1,
            ),
    {
        let ghost v0 = self.view();
        let id: String = if call.id.as_str().is_empty() {
            match &self.active_tool_call_id {
                Some(a) => a.clone(),
                None => {
                    assert(out@.subrange(out@.len() as int, out@.len() as int) =~= Seq::<DevinStreamEvent>::empty());
                    return;
                },
            }
        } else {
            call.id.clone()
        };
        let ghost key = id@;
        let index = slot_map_get(&self.slots, id.as_str());
        proof {
            lemma_slot_index(position_entries(v0.tool_calls), key);
        }
        let ghost spec_index = tool_index(v0.tool_calls, key);
        let count = self.calls.len();
        proof {
            assert(slot_entries(self.slots) == position_entries(v0.tool_calls));
            if let Some(j) = spec_index {
                assert(0 <= j < count);
                assert(position_entries(v0.tool_calls)[j].1 == j as usize);
                assert(index == Some(j as usize));
            }
        }
        assert(match index {
            Some(i) => spec_index == Some(i as int),
            None => spec_index is None,
        });
        let ghost previous_spec = match spec_index {
            Some(i) => Some(v0.tool_calls[i].1),
            None => None,
        };
        let (state, delta, arguments) = match index {
            Some(i) => advance_streaming_tool_call(Some(&self.calls[i].1), call),
            None => advance_streaming_tool_call(None, call),
        };
        let ghost a = advance_spec(previous_spec, *call);
        let start_name = state.name.clone();
        let ghost out_len = out@.len();
        match index {
            Some(i) => {
                self.calls.set(i, (id.clone(), state));
            },
            None => {
                let position = self.calls.len();
                slot_map_insert(&mut self.slots, id.clone(), position);
                self.calls.push((id.clone(), state));
                out.push(DevinStreamEvent::ToolCallStart { id: id.clone(), name: start_name });
            },
        }
        out.push(DevinStreamEvent::ToolCallDelta { id: id.clone(), delta, arguments });
        self.active_tool_call_id = Some(id);
        self.saw_tool_call = true;
        proof {
            let v1 = self.view();
            let expected = apply_call(v0, *call).0;
            assert(v1.tool_calls =~= expected.tool_calls);
            assert(v1 == expected);
            assert(position_entries(v1.tool_calls) =~= slot_entries(self.slots)) by {
                match index {
                    Some(i) => {
                        assert(position_entries(v1.tool_calls) =~= position_entries(v0.tool_calls));
                    },
                    None => {
                        assert(slot_insert(position_entries(v0.tool_calls), key, v0.tool_calls.len() as usize)
                            =~= position_entries(v1.tool_calls));
                    },
                }
            }
            assert forall|p: int, q: int| 0 <= p < q < self.calls@.len() implies self.calls@[p].0@
                != self.calls@[q].0@ by {
                assert(self.calls@[p].0@ == v1.tool_calls[p].0);
                assert(self.calls@[q].0@ == v1.tool_calls[q].0);
                if index is None && q == v0.tool_calls.len() {
                    assert(position_entries(v0.tool_calls)[p].0 == v0.tool_calls[p].0);
                }
            }
            let produced = out@.subrange(out_len as int, out@.len() as int);
            let specified = apply_call(v0, *call).1;
            assert forall|k: int| 0 <= k < produced.len() implies event_matches(
                #[trigger] produced[k],
                specified[k],
            ) by {}
        }
    }

    /// Applies one decoded response message and returns its events, in
    /// order: thinking, text, tool-call start/delta pairs, usage.
    pub fn apply_response(&mut self, message: &GetChatMessageResponse) -> (r: Vec<DevinStreamEvent>)
        requires
            old(self).wf(),
        ensures
            final(self).wf(),
            final(self).view() == apply_message(old(self).view(), *message).0,
            events_match(r@, apply_message(old(self).view(), *message).1),
    {
        let ghost v0 = self.view();
        let mut out: Vec<DevinStreamEvent> = Vec::new();
        if !message.delta_thinking.as_str().is_empty() {
            let signature = if message.delta_signature.as_str().is_empty() {
                None
            } else {
                Some(message.delta_signature.clone())
            };
            out.push(DevinStreamEvent::ThinkingDelta { delta: message.delta_thinking.clone(), signature });
        }
        if !message.delta_text.as_str().is_empty() {
            out.push(DevinStreamEvent::TextDelta { delta: message.delta_text.clone() });
        }
        let ghost lead = leading_events(*message);
        assert(events_match(out@, lead));
        let calls = &message.delta_tool_calls;
        let ghost total = apply_calls(v0, calls@);
        let ghost mut produced: Seq<EventSpec> = lead;
        let mut i: usize = 0;
        assert(calls@.skip(0) =~= calls@);
        assert(Seq::<EventSpec>::empty() + total.1 =~= total.1);
        while i < calls.len()
            invariant
                self.wf(),
                i <= calls@.len(),
                total == apply_calls(v0, calls@),
                apply_calls(self.view(), calls@.skip(i as int)).0 == total.0,
                produced + apply_calls(self.view(), calls@.skip(i as int)).1 == lead + total.1,
                events_match(out@, produced),
            decreases calls@.len() - i,
        {
            let ghost before = self.view();
            let ghost out_before = out@;
            let ghost rest = calls@.skip(i as int);
            assert(rest[0] == calls@[i as int]);
            assert(rest.drop_first() =~= calls@.skip(i as int + 1));
            self.apply_tool_call(&calls[i], &mut out);
            proof {
                let step = apply_call(before, calls@[i as int]);
                let tail = apply_calls(step.0, calls@.skip(i as int + 1));
                assert(apply_calls(before, rest) == (tail.0, step.1 + tail.1));
                assert(produced + (step.1 + tail.1) =~= (produced + step.1) + tail.1);
                let new_out = out@;
                assert forall|k: int| 0 <= k < new_out.len() implies event_matches(
                    #[trigger] new_out[k],
                    (produced + step.1)[k],
                ) by {
                    if k < out_before.len() {
                    } else {
                        let q = k - out_before.len();
                        assert(new_out.subrange(out_before.len() as int, new_out.len() as int)[q] == new_out[k]);
                    }
                }
                produced = produced + step.1;
            }
            i = i + 1;
        }
        assert(calls@.skip(i as int) =~= Seq::<ChatToolCall>::empty());
        assert(produced =~= lead + total.1);
        if let Some(reason) = StopReason::from_i32(message.stop_reason) {
            if reason != StopReason::Unspecified {
                self.latest_stop_reason = reason;
            }
        }
        if let Some(usage) = &message.usage {
            out.push(DevinStreamEvent::Usage {
                input_tokens: usage.input_tokens,
                output_tokens: usage.output_tokens,
                cache_read_tokens: usage.cache_read_tokens,
                cache_write_tokens: usage.cache_write_tokens,
            });
        }
        proof {
            let v1 = self.view();
            assert(v1 == apply_message(v0, *message).0);
        }
        out
    }

    /// The closing events of the stream: one `ToolCallEnd` per tool call in
    /// first-seen order, with its final arguments parsed (an unparseable
    /// buffer gives `{}`), then `Done`.
    pub fn finish(&self) -> (r: Vec<DevinStreamEvent>)
        requires
            self.wf(),
        ensures
            events_match(r@, finish_events(self.view())),
    {
        let mut out: Vec<DevinStreamEvent> = Vec::new();
        let mut i: usize = 0;
        let ghost expected = finish_events(self.view());
        while i < self.calls.len()
            invariant
                i <= self.calls@.len(),
                expected == finish_events(self.view()),
                out@.len() == i,
                forall|k: int| 0 <= k < i ==> event_matches(#[trigger] out@[k], expected[k]),
            decreases self.calls@.len() - i,
        {
            let (id, state) = &self.calls[i];
            let arguments = parse_streaming_json(Some(state.arguments_json.as_str()));
            out.push(DevinStreamEvent::ToolCallEnd { id: id.clone(), name: state.name.clone(), arguments });
            i = i + 1;
        }
        let reason = if self.saw_tool_call {
            DevinStopReason::ToolUse
        } else if self.latest_stop_reason == StopReason::MaxTokens {
            DevinStopReason::Length
        } else {
            DevinStopReason::Stop
        };
        out.push(DevinStreamEvent::Done { reason });
        out
    }
}

/// The verdict on an end-of-stream trailer: an error when it reports one.
pub fn check_trailer(payload: &[u8]) -> (r: Result<(), DevinError>)
    ensures
        r is Err <==> trailer_error_message(payload@) is Some,
        r matches Err(e) ==> e is Protocol && Some(e->Protocol_message@) == trailer_error_message(payload@),
{
    match crate::connect::read_connect_trailer_error(payload) {
        Some(message) => Err(DevinError::protocol(message)),
        None => Ok(()),
    }
}

} // verus!
