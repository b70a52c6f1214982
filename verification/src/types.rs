//! Public request, model and event types.

use vstd::prelude::*;

verus! {

/// Input modalities a model accepts.
#[derive(Debug, Clone, Copy, PartialEq, Eq, Structural)]
pub enum DevinInput {
    Text,
    Image,
}

/// A normalized, enabled model.
#[derive(Debug, Clone, PartialEq, Eq)]
pub struct DevinModel {
    pub id: String,
    pub name: String,
    pub provider: &'static str,
    pub base_url: String,
    pub input: Vec<DevinInput>,
    pub supports_tools: bool,
    pub reasoning: bool,
    pub context_window: i32,
    pub max_tokens: i32,
}

/// User, developer and tool content.
#[derive(Debug, Clone, PartialEq, Eq)]
pub enum DevinContentPart {
    Text { text: String },
    Image { data: String, mime_type: String },
}

/// Assistant content.
#[derive(Debug, Clone, PartialEq)]
pub enum DevinAssistantContentPart {
    Text { text: String },
    Thinking { thinking: String, thinking_signature: Option<String> },
    ToolCall { id: String, name: String, arguments: serde_json::Value },
}

/// One conversation message.
#[derive(Debug, Clone, PartialEq)]
pub enum DevinMessage {
    User { content: Vec<DevinContentPart> },
    Developer { content: Vec<DevinContentPart> },
    Assistant { content: Vec<DevinAssistantContentPart>, response_id: Option<String> },
    Tool { tool_call_id: String, content: Vec<DevinContentPart>, is_error: bool },
}

/// A tool the model may call.
#[derive(Debug, Clone, PartialEq)]
pub struct DevinTool {
    pub name: String,
    pub description: String,
    pub input_schema: serde_json::Value,
    pub strict: bool,
}

/// A chat request. The floating-point sampling options (temperature and
/// top-p) are carried at the transport edge.
#[derive(Debug, Clone, PartialEq)]
pub struct DevinChatRequest {
    pub model: String,
    pub messages: Vec<DevinMessage>,
    pub system_prompt: Vec<String>,
    pub tools: Vec<DevinTool>,
    pub conversation_id: Option<String>,
    pub session_id: Option<String>,
    pub max_tokens: Option<u64>,
    pub stop_sequences: Vec<String>,
}

impl Default for DevinChatRequest {
    fn default() -> (r: Self)
        ensures
            r.model@.len() == 0,
            r.messages@.len() == 0,
            r.system_prompt@.len() == 0,
            r.tools@.len() == 0,
            r.conversation_id is None,
            r.session_id is None,
            r.max_tokens is None,
            r.stop_sequences@.len() == 0,
    {
        DevinChatRequest {
            model: String::new(),
            messages: Vec::new(),
            system_prompt: Vec::new(),
            tools: Vec::new(),
            conversation_id: None,
            session_id: None,
            max_tokens: None,
            stop_sequences: Vec::new(),
        }
    }
}

/// Why a chat stream finished.
#[derive(Debug, Clone, Copy, PartialEq, Eq, Structural)]
pub enum DevinStopReason {
    Stop,
    Length,
    ToolUse,
}

/// One event of a chat stream.
#[derive(Debug, Clone, PartialEq)]
pub enum DevinStreamEvent {
    TextDelta { delta: String },
    ThinkingDelta { delta: String, signature: Option<String> },
    ToolCallStart { id: String, name: String },
    ToolCallDelta { id: String, delta: String, arguments: Option<serde_json::Value> },
    ToolCallEnd { id: String, name: String, arguments: serde_json::Value },
    Usage { input_tokens: u64, output_tokens: u64, cache_read_tokens: u64, cache_write_tokens: u64 },
    Done { reason: DevinStopReason },
}

} // verus!
