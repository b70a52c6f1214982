//! The chat request that opens a streamed completion.

use vstd::prelude::*;
use crate::constants::{DEVIN_DEFAULT_BASE_URL, DEVIN_DEFAULT_STOP_PATTERNS};
use crate::json::{json_text, json_text_spec};
use crate::models::metadata;
use crate::prompts::{build_chat_message_prompts, prompt_matches};
use crate::proto::chat_tool_choice::Choice;
use crate::proto::{
    CacheControlType, ChatMessageRequestType, ChatToolChoice, ChatToolDefinition, CompletionConfiguration,
    ConversationalPlannerMode, GetChatMessageRequest, Metadata, PromptCacheOptions,
};
use crate::text::{push_str, string_from_chars};
use crate::types::{DevinChatRequest, DevinMessage, DevinTool};
use crate::constants::{DEVIN_EXTENSION_VERSION, DEVIN_IDE_VERSION};

verus! {

/// The chat options the request is built from. Transport, id generation and
/// the floating-point sampling options are supplied at the transport edge.
pub struct StreamDevinChatOptions {
    pub token: Option<String>,
    pub base_url: String,
    pub model: String,
    pub messages: Vec<DevinMessage>,
    pub system_prompt: Vec<String>,
    pub tools: Vec<DevinTool>,
    pub conversation_id: Option<String>,
    pub session_id: Option<String>,
    pub max_tokens: Option<u64>,
    pub stop_sequences: Vec<String>,
}

impl Default for StreamDevinChatOptions {
    fn default() -> (r: Self)
        ensures
            r.token is None,
            r.base_url@ == DEVIN_DEFAULT_BASE_URL@,
            r.model@.len() == 0,
            r.messages@.len() == 0,
            r.system_prompt@.len() == 0,
            r.tools@.len() == 0,
            r.conversation_id is None,
            r.session_id is None,
            r.max_tokens is None,
            r.stop_sequences@.len() == 0,
    {
        StreamDevinChatOptions {
            token: None,
            base_url: String::from_str(DEVIN_DEFAULT_BASE_URL),
            model: String::new(),
            messages: Vec::new(),
            system_prompt: Vec::new(),
            tools: Vec::new(),
            conversation_id: None,
            session_id: None,
            max_tokens: None,
            stop_sequences: Vec::new(),
        }
    }
}

impl StreamDevinChatOptions {
    /// The chat options of a request, with the token and base URL the
    /// caller resolved.
    pub fn from_request(request: DevinChatRequest, token: Option<String>, base_url: String) -> (r: Self)
        ensures
            r.token == token,
            r.base_url == base_url,
            r.model == request.model,
            r.messages == request.messages,
            r.system_prompt == request.system_prompt,
            r.tools == request.tools,
            r.conversation_id == request.conversation_id,
            r.session_id == request.session_id,
            r.max_tokens == request.max_tokens,
            r.stop_sequences == request.stop_sequences,
    {
        StreamDevinChatOptions {
            token,
            base_url,
            model: request.model,
            messages: request.messages,
            system_prompt: request.system_prompt,
            tools: request.tools,
            conversation_id: request.conversation_id,
            session_id: request.session_id,
            max_tokens: request.max_tokens,
            stop_sequences: request.stop_sequences,
        }
    }
}

/// The parts joined with `sep` between each two of them.
pub open spec fn join(parts: Seq<Seq<char>>, sep: Seq<char>) -> Seq<char>
    decreases parts.len(),
{
    if parts.len() == 0 {
        seq![]
    } else if parts.len() == 1 {
        parts[0]
    } else {
        join(parts.drop_last(), sep) + sep + parts.last()
    }
}

/// The characters of each string.
pub open spec fn strings_view(v: Seq<String>) -> Seq<Seq<char>> {
    Seq::new(v.len(), |i: int| v[i]@)
}

/// The stop patterns every request carries before the caller's own.
pub open spec fn default_stop_patterns() -> Seq<Seq<char>> {
    Seq::new(DEVIN_DEFAULT_STOP_PATTERNS@.len(), |i: int| DEVIN_DEFAULT_STOP_PATTERNS@[i]@)
}

/// Request metadata for the given API key and JWT.
pub open spec fn metadata_for(m: Metadata, api_key: Seq<char>, user_jwt: Seq<char>) -> bool {
    &&& m.api_key@ == api_key
    &&& m.user_jwt@ == user_jwt
    &&& m.ide_name@ == "windsurf"@
    &&& m.ide_version@ == DEVIN_IDE_VERSION@
    &&& m.extension_name@ == "windsurf"@
    &&& m.extension_version@ == DEVIN_EXTENSION_VERSION@
    &&& m.locale@ == "en"@
}

/// Tool definitions agree with the tools: name, description, strictness,
/// and serde_json's compact text of the input schema.
pub open spec fn tools_match(defs: Seq<ChatToolDefinition>, tools: Seq<DevinTool>) -> bool {
    &&& defs.len() == tools.len()
    &&& forall|i: int| 0 <= i < defs.len() ==> (#[trigger] defs[i]).name@ == tools[i].name@ && defs[i].description@
        == tools[i].description@ && defs[i].strict == tools[i].strict && defs[i].json_schema_string@
        == json_text_spec(tools[i].input_schema)
}

/// Joins strings with a separator.
pub fn join_strings(parts: &Vec<String>, sep: &str) -> (r: String)
    ensures
        r@ == join(strings_view(parts@), sep@),
{
    let mut out: Vec<char> = Vec::new();
    let mut i: usize = 0;
    while i < parts.len()
        invariant
            i <= parts@.len(),
            out@ == join(strings_view(parts@.take(i as int)), sep@),
        decreases parts@.len() - i,
    {
        let ghost before = strings_view(parts@.take(i as int));
        let ghost after = strings_view(parts@.take(i + 1));
        assert(after.drop_last() =~= before);
        assert(after.last() == parts@[i as int]@);
        if i > 0 {
            push_str(&mut out, sep);
        } else {
            assert(before.len() == 0);
        }
        push_str(&mut out, parts[i].as_str());
        i = i + 1;
    }
    assert(parts@.take(i as int) =~= parts@);
    string_from_chars(&out)
}

/// Builds the chat request: metadata for the token and JWT, the system
/// prompt joined by blank lines, one prompt per message, the model, fixed
/// request options, and the stop patterns. The cascade id is the
/// conversation id, else the session id, else a fresh id from `uuid`; the
/// execution id is always a fresh one.
pub fn build_chat_request<F: Fn() -> String>(
    options: &StreamDevinChatOptions,
    token: &str,
    user_jwt: &str,
    uuid: &F,
) -> (r: GetChatMessageRequest)
    requires
        call_requires(*uuid, ()),
    ensures
        r.metadata matches Some(m) && metadata_for(m, token@, user_jwt@),
        r.prompt@ == join(strings_view(options.system_prompt@), "\n\n"@),
        match options.conversation_id {
            Some(c) => r.cascade_id@ == c@,
            None => match options.session_id {
                Some(s) => r.cascade_id@ == s@,
                None => call_ensures(*uuid, (), r.cascade_id),
            },
        },
        call_ensures(*uuid, (), r.execution_id),
        r.chat_message_prompts@.len() == options.messages@.len(),
        forall|i: int| 0 <= i < r.chat_message_prompts@.len() ==> prompt_matches(
            #[trigger] r.chat_message_prompts@[i],
            options.messages@[i],
            i as nat,
            r.cascade_id@,
        ),
        r.chat_model_uid@ == options.model@,
        r.request_type == 5,
        r.planner_mode == 1,
        r.tool_choice matches Some(tc) && tc.choice matches Some(Choice::OptionName(n)) && n@ == "auto"@,
        r.system_prompt_cache_options matches Some(c) && c.cache_type == 1,
        r.disable_parallel_tool_calls,
        r.configuration matches Some(c) && c.num_completions == 1 && c.max_newlines == 200 && c.top_k == 50,
        r.configuration matches Some(c) && c.max_tokens == match options.max_tokens {
            Some(m) => m,
            None => 64000,
        },
        r.configuration matches Some(c) && strings_view(c.stop_patterns@) == default_stop_patterns()
            + strings_view(options.stop_sequences@),
        tools_match(r.tools@, options.tools@),
{
    let cascade_id = match &options.conversation_id {
        Some(c) => c.clone(),
        None => match &options.session_id {
            Some(s) => s.clone(),
            None => uuid(),
        },
    };
    let mut stop_patterns: Vec<String> = Vec::new();
    let mut k: usize = 0;
    while k < DEVIN_DEFAULT_STOP_PATTERNS.len()
        invariant
            k <= DEVIN_DEFAULT_STOP_PATTERNS@.len(),
            strings_view(stop_patterns@) == default_stop_patterns().take(k as int),
        decreases DEVIN_DEFAULT_STOP_PATTERNS@.len() - k,
    {
        let ghost before = stop_patterns@;
        stop_patterns.push(String::from_str(DEVIN_DEFAULT_STOP_PATTERNS[k]));
        assert(strings_view(stop_patterns@) =~= strings_view(before).push(DEVIN_DEFAULT_STOP_PATTERNS@[k as int]@));
        assert(default_stop_patterns().take(k + 1) =~= default_stop_patterns().take(k as int).push(
            DEVIN_DEFAULT_STOP_PATTERNS@[k as int]@,
        ));
        k = k + 1;
    }
    assert(default_stop_patterns().take(k as int) =~= default_stop_patterns());
    let mut i: usize = 0;
    while i < options.stop_sequences.len()
        invariant
            i <= options.stop_sequences@.len(),
            strings_view(stop_patterns@) == default_stop_patterns() + strings_view(options.stop_sequences@.take(i as int)),
        decreases options.stop_sequences@.len() - i,
    {
        let ghost old_patterns = stop_patterns@;
        let next = options.stop_sequences[i].clone();
        assert(next@ == options.stop_sequences@[i as int]@);
        stop_patterns.push(next);
        assert(strings_view(stop_patterns@) =~= strings_view(old_patterns).push(next@));
        assert(strings_view(options.stop_sequences@.take(i + 1)) =~= strings_view(options.stop_sequences@.take(i as int)).push(
            options.stop_sequences@[i as int]@,
        ));
        assert(strings_view(stop_patterns@) =~= default_stop_patterns() + strings_view(options.stop_sequences@.take(i + 1)));
        i = i + 1;
    }
    assert(options.stop_sequences@.take(i as int) =~= options.stop_sequences@);
    let mut tools: Vec<ChatToolDefinition> = Vec::new();
    let mut j: usize = 0;
    while j < options.tools.len()
        invariant
            j <= options.tools@.len(),
            tools_match(tools@, options.tools@.take(j as int)),
        decreases options.tools@.len() - j,
    {
        let tool = &options.tools[j];
        tools.push(ChatToolDefinition {
            name: tool.name.clone(),
            description: tool.description.clone(),
            json_schema_string: json_text(&tool.input_schema),
            strict: tool.strict,
        });
        j = j + 1;
    }
    assert(options.tools@.take(j as int) =~= options.tools@);
    let prompts = build_chat_message_prompts(&options.messages, cascade_id.as_str());
    let execution_id = uuid();
    GetChatMessageRequest {
        metadata: Some(metadata(token, user_jwt)),
        prompt: join_strings(&options.system_prompt, "\n\n"),
        chat_message_prompts: prompts,
        chat_model_uid: options.model.clone(),
        request_type: ChatMessageRequestType::Cascade.as_i32(),
        configuration: Some(CompletionConfiguration {
            num_completions: 1,
            max_tokens: match options.max_tokens {
                Some(m) => m,
                None => 64000,
            },
            max_newlines: 200,
            top_k: 50,
            stop_patterns,
        }),
        tools,
        disable_parallel_tool_calls: true,
        tool_choice: Some(ChatToolChoice { choice: Some(Choice::OptionName(String::from_str("auto"))) }),
        system_prompt_cache_options: Some(PromptCacheOptions { cache_type: CacheControlType::Ephemeral.as_i32() }),
        cascade_id,
        planner_mode: ConversationalPlannerMode::Default.as_i32(),
        execution_id,
    }
}

/// Each tool definition of a request carries its tool unchanged: the same
/// name, the same description, the same strictness, and serde_json's text of
/// its input schema, one definition per tool and in the tools' order.
pub proof fn tool_definitions_carry_their_tools(defs: Seq<ChatToolDefinition>, tools: Seq<DevinTool>, i: int)
    requires
        tools_match(defs, tools),
        0 <= i < tools.len(),
    ensures
        defs.len() == tools.len(),
        defs[i].name@ == tools[i].name@,
        defs[i].description@ == tools[i].description@,
        defs[i].strict == tools[i].strict,
        defs[i].json_schema_string@ == json_text_spec(tools[i].input_schema),
{
    assert(defs[i].name@ == tools[i].name@);
}

} // verus!
