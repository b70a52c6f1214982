//! Conversation messages as chat prompts.

use vstd::prelude::*;
use crate::json::{json_text, json_text_spec};
use crate::proto::{ChatMessagePrompt, ChatMessageSource, ChatToolCall, ImageData};
use crate::text::{chars_of, decimal, decimal_chars, push_str, string_from_chars};
use crate::types::{DevinAssistantContentPart, DevinContentPart, DevinMessage};
use crate::uuid::{deterministic_uuid, deterministic_uuid_spec};

verus! {

/// The text parts of user, developer or tool content, concatenated.
pub open spec fn content_text(parts: Seq<DevinContentPart>) -> Seq<char>
    decreases parts.len(),
{
    if parts.len() == 0 {
        seq![]
    } else {
        content_text(parts.drop_last()) + match parts.last() {
            DevinContentPart::Text { text } => text@,
            DevinContentPart::Image { .. } => Seq::<char>::empty(),
        }
    }
}

/// The image parts, as (base64 data, MIME type), in order.
pub open spec fn content_images(parts: Seq<DevinContentPart>) -> Seq<(Seq<char>, Seq<char>)>
    decreases parts.len(),
{
    if parts.len() == 0 {
        seq![]
    } else {
        let rest = content_images(parts.drop_last());
        match parts.last() {
            DevinContentPart::Image { data, mime_type } => rest.push((data@, mime_type@)),
            DevinContentPart::Text { .. } => rest,
        }
    }
}

/// The images of a prompt agree with the specified ones.
pub open spec fn images_match(images: Seq<ImageData>, s: Seq<(Seq<char>, Seq<char>)>) -> bool {
    &&& images.len() == s.len()
    &&& forall|i: int| 0 <= i < images.len() ==> (#[trigger] images[i]).base64_data@ == s[i].0
        && images[i].mime_type@ == s[i].1
}

/// The text parts of assistant content, concatenated.
pub open spec fn assistant_text(parts: Seq<DevinAssistantContentPart>) -> Seq<char>
    decreases parts.len(),
{
    if parts.len() == 0 {
        seq![]
    } else {
        assistant_text(parts.drop_last()) + match parts.last() {
            DevinAssistantContentPart::Text { text } => text@,
            _ => Seq::<char>::empty(),
        }
    }
}

/// The thinking parts of assistant content, concatenated.
pub open spec fn assistant_thinking(parts: Seq<DevinAssistantContentPart>) -> Seq<char>
    decreases parts.len(),
{
    if parts.len() == 0 {
        seq![]
    } else {
        assistant_thinking(parts.drop_last()) + match parts.last() {
            DevinAssistantContentPart::Thinking { thinking, .. } => thinking@,
            _ => Seq::<char>::empty(),
        }
    }
}

/// The first non-empty signature among the thinking parts, or empty.
pub open spec fn assistant_signature(parts: Seq<DevinAssistantContentPart>) -> Seq<char>
    decreases parts.len(),
{
    if parts.len() == 0 {
        seq![]
    } else {
        let before = assistant_signature(parts.drop_last());
        if before.len() > 0 {
            before
        } else {
            match parts.last() {
                DevinAssistantContentPart::Thinking { thinking_signature, .. } => match thinking_signature {
                    Some(s) => s@,
                    None => Seq::<char>::empty(),
                },
                _ => before,
            }
        }
    }
}

/// The tool calls of assistant content, as (id, name, arguments), in order.
pub open spec fn assistant_calls(parts: Seq<DevinAssistantContentPart>) -> Seq<(Seq<char>, Seq<char>, serde_json::Value)>
    decreases parts.len(),
{
    if parts.len() == 0 {
        seq![]
    } else {
        let rest = assistant_calls(parts.drop_last());
        match parts.last() {
            DevinAssistantContentPart::ToolCall { id, name, arguments } => rest.push((id@, name@, arguments)),
            _ => rest,
        }
    }
}

/// The tool calls of a prompt agree with the specified ids and names, and
/// their argument texts are serde_json's compact text of the arguments.
pub open spec fn calls_match(calls: Seq<ChatToolCall>, s: Seq<(Seq<char>, Seq<char>, serde_json::Value)>) -> bool {
    &&& calls.len() == s.len()
    &&& forall|i: int| 0 <= i < calls.len() ==> (#[trigger] calls[i]).id@ == s[i].0 && calls[i].name@ == s[i].1
        && calls[i].arguments_json@ == json_text_spec(s[i].2)
}

/// The text a message id is derived from.
pub open spec fn uuid_seed(cascade_id: Seq<char>, index: nat, tail: Seq<char>) -> Seq<char> {
    cascade_id + seq!['\0'] + decimal(index) + seq!['\0'] + tail
}

/// The fields that a prompt of the given kind leaves empty are empty.
pub open spec fn no_tool_fields(p: ChatMessagePrompt) -> bool {
    &&& p.tool_call_id@.len() == 0
    &&& !p.tool_result_is_error
}

pub open spec fn no_assistant_fields(p: ChatMessagePrompt) -> bool {
    &&& p.tool_calls@.len() == 0
    &&& p.thinking@.len() == 0
    &&& p.signature@.len() == 0
    &&& p.signature_type@.len() == 0
}

/// `p` is the prompt for message `m` at position `index` of a conversation.
pub open spec fn prompt_matches(p: ChatMessagePrompt, m: DevinMessage, index: nat, cascade_id: Seq<char>) -> bool {
    match m {
        DevinMessage::User { content } => {
            &&& p.message_id@ == deterministic_uuid_spec(uuid_seed(cascade_id, index, "user"@))
            &&& p.source == ChatMessageSource::User.number()
            &&& p.prompt@ == content_text(content@)
            &&& images_match(p.images@, content_images(content@))
            &&& no_tool_fields(p)
            &&& no_assistant_fields(p)
        },
        DevinMessage::Developer { content } => {
            &&& p.message_id@ == deterministic_uuid_spec(uuid_seed(cascade_id, index, "developer"@))
            &&& p.source == ChatMessageSource::User.number()
            &&& p.prompt@ == content_text(content@)
            &&& images_match(p.images@, content_images(content@))
            &&& no_tool_fields(p)
            &&& no_assistant_fields(p)
        },
        DevinMessage::Assistant { content, response_id } => {
            &&& p.message_id@ == match response_id {
                Some(r) => r@,
                None => "bot-"@ + deterministic_uuid_spec(uuid_seed(cascade_id, index, "assistant"@)),
            }
            &&& p.source == ChatMessageSource::System.number()
            &&& p.prompt@ == assistant_text(content@)
            &&& p.thinking@ == assistant_thinking(content@)
            &&& p.signature@ == assistant_signature(content@)
            &&& p.signature_type@.len() == 0
            &&& calls_match(p.tool_calls@, assistant_calls(content@))
            &&& p.images@.len() == 0
            &&& no_tool_fields(p)
        },
        DevinMessage::Tool { tool_call_id, content, is_error } => {
            &&& p.message_id@ == deterministic_uuid_spec(
                uuid_seed(cascade_id, index, "tool"@ + seq!['\0'] + tool_call_id@),
            )
            &&& p.source == ChatMessageSource::Tool.number()
            &&& p.tool_call_id@ == tool_call_id@
            &&& p.tool_result_is_error == is_error
            &&& p.prompt@ == content_text(content@)
            &&& images_match(p.images@, content_images(content@))
            &&& no_assistant_fields(p)
        },
    }
}

/// Concatenates the text parts and collects the image parts.
pub fn normalize_content(content: &Vec<DevinContentPart>) -> (r: (String, Vec<ImageData>))
    ensures
        r.0@ == content_text(content@),
        images_match(r.1@, content_images(content@)),
{
    let mut text: Vec<char> = Vec::new();
    let mut images: Vec<ImageData> = Vec::new();
    let mut i: usize = 0;
    while i < content.len()
        invariant
            i <= content@.len(),
            text@ == content_text(content@.take(i as int)),
            images_match(images@, content_images(content@.take(i as int))),
        decreases content@.len() - i,
    {
        assert(content@.take(i + 1).drop_last() =~= content@.take(i as int));
        assert(content@.take(i + 1).last() == content@[i as int]);
        match &content[i] {
            DevinContentPart::Text { text: part } => {
                push_str(&mut text, part.as_str());
            },
            DevinContentPart::Image { data, mime_type } => {
                images.push(ImageData { base64_data: data.clone(), mime_type: mime_type.clone() });
            },
        }
        i = i + 1;
    }
    assert(content@.take(i as int) =~= content@);
    (string_from_chars(&text), images)
}

/// The parts of assistant content, normalized.
pub struct NormalizedAssistant {
    pub text: String,
    pub thinking: String,
    pub signature: String,
    pub tool_calls: Vec<ChatToolCall>,
}

/// Concatenates text and thinking, keeps the first non-empty signature and
/// turns tool calls into wire tool calls with serde_json's compact text of
/// their arguments.
pub fn normalize_assistant_content(content: &Vec<DevinAssistantContentPart>) -> (r: NormalizedAssistant)
    ensures
        r.text@ == assistant_text(content@),
        r.thinking@ == assistant_thinking(content@),
        r.signature@ == assistant_signature(content@),
        calls_match(r.tool_calls@, assistant_calls(content@)),
{
    let mut text: Vec<char> = Vec::new();
    let mut thinking: Vec<char> = Vec::new();
    let mut signature: String = String::new();
    let mut tool_calls: Vec<ChatToolCall> = Vec::new();
    let mut i: usize = 0;
    while i < content.len()
        invariant
            i <= content@.len(),
            text@ == assistant_text(content@.take(i as int)),
            thinking@ == assistant_thinking(content@.take(i as int)),
            signature@ == assistant_signature(content@.take(i as int)),
            calls_match(tool_calls@, assistant_calls(content@.take(i as int))),
        decreases content@.len() - i,
    {
        assert(content@.take(i + 1).drop_last() =~= content@.take(i as int));
        assert(content@.take(i + 1).last() == content@[i as int]);
        match &content[i] {
            DevinAssistantContentPart::Text { text: part } => {
                push_str(&mut text, part.as_str());
            },
            DevinAssistantContentPart::Thinking { thinking: part, thinking_signature } => {
                push_str(&mut thinking, part.as_str());
                if signature.as_str().is_empty() {
                    signature = match thinking_signature {
                        Some(s) => s.clone(),
                        None => String::new(),
                    };
                }
            },
            DevinAssistantContentPart::ToolCall { id, name, arguments } => {
                tool_calls.push(ChatToolCall { id: id.clone(), name: name.clone(), arguments_json: json_text(arguments) });
            },
        }
        i = i + 1;
    }
    assert(content@.take(i as int) =~= content@);
    NormalizedAssistant {
        text: string_from_chars(&text),
        thinking: string_from_chars(&thinking),
        signature,
        tool_calls,
    }
}

/// The message id derived from a cascade id, a position and a tail.
fn seeded_uuid(cascade_id: &str, index: usize, tail: &Vec<char>) -> (r: String)
    ensures
        r@ == deterministic_uuid_spec(uuid_seed(cascade_id@, index as nat, tail@)),
{
    let mut seed: Vec<char> = Vec::new();
    push_str(&mut seed, cascade_id);
    seed.push('\0');
    let mut d = decimal_chars(index as u64);
    seed.append(&mut d);
    seed.push('\0');
    let mut t = tail.clone();
    assert(t@ =~= tail@);
    seed.append(&mut t);
    assert(seed@ =~= uuid_seed(cascade_id@, index as nat, tail@));
    deterministic_uuid(string_from_chars(&seed).as_str())
}

fn message_prompt(message: &DevinMessage, index: usize, cascade_id: &str) -> (p: ChatMessagePrompt)
    ensures
        prompt_matches(p, *message, index as nat, cascade_id@),
{
    match message {
        DevinMessage::User { content } => {
            let (prompt, images) = normalize_content(content);
            ChatMessagePrompt {
                message_id: seeded_uuid(cascade_id, index, &chars_of("user")),
                source: ChatMessageSource::User.as_i32(),
                prompt,
                tool_calls: Vec::new(),
                tool_call_id: String::new(),
                tool_result_is_error: false,
                images,
                thinking: String::new(),
                signature: String::new(),
                signature_type: String::new(),
            }
        },
        DevinMessage::Developer { content } => {
            let (prompt, images) = normalize_content(content);
            ChatMessagePrompt {
                message_id: seeded_uuid(cascade_id, index, &chars_of("developer")),
                source: ChatMessageSource::User.as_i32(),
                prompt,
                tool_calls: Vec::new(),
                tool_call_id: String::new(),
                tool_result_is_error: false,
                images,
                thinking: String::new(),
                signature: String::new(),
                signature_type: String::new(),
            }
        },
        DevinMessage::Assistant { content, response_id } => {
            let normalized = normalize_assistant_content(content);
            let message_id = match response_id {
                Some(r) => r.clone(),
                None => {
                    let id = seeded_uuid(cascade_id, index, &chars_of("assistant"));
                    let mut m: Vec<char> = Vec::new();
                    push_str(&mut m, "bot-");
                    push_str(&mut m, id.as_str());
                    assert(m@ =~= "bot-"@ + id@);
                    string_from_chars(&m)
                },
            };
            ChatMessagePrompt {
                message_id,
                source: ChatMessageSource::System.as_i32(),
                prompt: normalized.text,
                tool_calls: normalized.tool_calls,
                tool_call_id: String::new(),
                tool_result_is_error: false,
                images: Vec::new(),
                thinking: normalized.thinking,
                signature: normalized.signature,
                signature_type: String::new(),
            }
        },
        DevinMessage::Tool { tool_call_id, content, is_error } => {
            let (prompt, images) = normalize_content(content);
            let mut tail = chars_of("tool");
            tail.push('\0');
            push_str(&mut tail, tool_call_id.as_str());
            assert(tail@ =~= "tool"@ + seq!['\0'] + tool_call_id@);
            ChatMessagePrompt {
                message_id: seeded_uuid(cascade_id, index, &tail),
                source: ChatMessageSource::Tool.as_i32(),
                prompt,
                tool_calls: Vec::new(),
                tool_call_id: tool_call_id.clone(),
                tool_result_is_error: *is_error,
                images,
                thinking: String::new(),
                signature: String::new(),
                signature_type: String::new(),
            }
        },
    }
}

/// One prompt per message, in order, with ids that are stable for the
/// same cascade id, position and message kind.
pub fn build_chat_message_prompts(messages: &Vec<DevinMessage>, cascade_id: &str) -> (r: Vec<ChatMessagePrompt>)
    ensures
        r@.len() == messages@.len(),
        forall|i: int| 0 <= i < r@.len() ==> prompt_matches(#[trigger] r@[i], messages@[i], i as nat, cascade_id@),
{
    let mut out: Vec<ChatMessagePrompt> = Vec::new();
    let mut i: usize = 0;
    while i < messages.len()
        invariant
            i <= messages@.len(),
            out@.len() == i,
            forall|k: int| 0 <= k < i ==> prompt_matches(#[trigger] out@[k], messages@[k], k as nat, cascade_id@),
        decreases messages@.len() - i,
    {
        out.push(message_prompt(&messages[i], i, cascade_id));
        i = i + 1;
    }
    out
}

/// The source of a prompt tells who wrote the message: user and developer
/// messages are sent as the user (1), assistant messages as the system (2),
/// and tool results as the tool (4), with the tool call they answer and
/// their error flag. No other message gets the tool source, and tool
/// results are never sent as the user.
pub proof fn prompt_sources_follow_roles(p: ChatMessagePrompt, m: DevinMessage, index: nat, cascade_id: Seq<char>)
    requires
        prompt_matches(p, m, index, cascade_id),
    ensures
        (m is User || m is Developer) ==> p.source == 1,
        m is Assistant ==> p.source == 2,
        m is Tool ==> p.source == 4,
        (p.source == 4) == (m is Tool),
        m matches DevinMessage::Tool { tool_call_id, is_error, .. } ==> p.tool_call_id@ == tool_call_id@
            && p.tool_result_is_error == is_error,
        !(m is Tool) ==> p.tool_call_id@.len() == 0 && !p.tool_result_is_error,
{
}

} // verus!
