//! The wire messages this crate exchanges, as plain data. Only the fields
//! the crate uses are represented; protobuf encoding and decoding happen at
//! the transport edge.

pub mod chat_tool_choice;

use vstd::prelude::*;

verus! {

/// Client identification sent with every request.
#[derive(Debug, Clone, PartialEq, Eq)]
pub struct Metadata {
    pub ide_name: String,
    pub ide_version: String,
    pub extension_name: String,
    pub extension_version: String,
    pub api_key: String,
    pub locale: String,
    pub user_jwt: String,
}

#[derive(Debug, Clone, PartialEq, Eq)]
pub struct GetUserJwtRequest {
    pub metadata: Option<Metadata>,
}

#[derive(Debug, Clone, PartialEq, Eq)]
pub struct GetUserJwtResponse {
    pub user_jwt: String,
    pub custom_api_server_url: String,
}

#[derive(Debug, Clone, PartialEq, Eq)]
pub struct GetCliModelConfigsRequest {
    pub metadata: Option<Metadata>,
}

#[derive(Debug, Clone, PartialEq, Eq)]
pub struct GetCliModelConfigsResponse {
    pub client_model_configs: Vec<ClientModelConfig>,
}

#[derive(Debug, Clone, PartialEq, Eq)]
pub struct ClientModelConfig {
    pub label: String,
    pub model_uid: String,
    pub disabled: bool,
    pub supports_images: bool,
    pub max_tokens: i32,
    pub model_info: Option<ModelInfo>,
}

#[derive(Debug, Clone, PartialEq, Eq)]
pub struct ModelInfo {
    pub model_features: Option<ModelFeatures>,
}

#[derive(Debug, Clone, Copy, PartialEq, Eq)]
pub struct ModelFeatures {
    pub supports_thinking: bool,
}

#[derive(Debug, Clone, PartialEq, Eq)]
pub struct ImageData {
    pub base64_data: String,
    pub mime_type: String,
}

#[derive(Debug, Clone, PartialEq, Eq)]
pub struct ChatToolCall {
    pub id: String,
    pub name: String,
    pub arguments_json: String,
}

#[derive(Debug, Clone, PartialEq, Eq)]
pub struct ChatMessagePrompt {
    pub message_id: String,
    pub source: i32,
    pub prompt: String,
    pub tool_calls: Vec<ChatToolCall>,
    pub tool_call_id: String,
    pub tool_result_is_error: bool,
    pub images: Vec<ImageData>,
    pub thinking: String,
    pub signature: String,
    pub signature_type: String,
}

#[derive(Debug, Clone, Copy, PartialEq, Eq)]
pub struct PromptCacheOptions {
    pub cache_type: i32,
}

#[derive(Debug, Clone, PartialEq, Eq)]
pub struct ChatToolDefinition {
    pub name: String,
    pub description: String,
    pub json_schema_string: String,
    pub strict: bool,
}

#[derive(Debug, Clone, PartialEq, Eq)]
pub struct ChatToolChoice {
    pub choice: Option<chat_tool_choice::Choice>,
}

/// Sampling configuration. The floating-point fields (temperature, first
/// temperature, top-p, FIM end-of-text threshold) are set at the transport
/// edge.
#[derive(Debug, Clone, PartialEq, Eq)]
pub struct CompletionConfiguration {
    pub num_completions: u64,
    pub max_tokens: u64,
    pub max_newlines: u64,
    pub top_k: u64,
    pub stop_patterns: Vec<String>,
}

#[derive(Debug, Clone, PartialEq, Eq)]
pub struct GetChatMessageRequest {
    pub metadata: Option<Metadata>,
    pub prompt: String,
    pub chat_message_prompts: Vec<ChatMessagePrompt>,
    pub chat_model_uid: String,
    pub request_type: i32,
    pub configuration: Option<CompletionConfiguration>,
    pub tools: Vec<ChatToolDefinition>,
    pub disable_parallel_tool_calls: bool,
    pub tool_choice: Option<ChatToolChoice>,
    pub system_prompt_cache_options: Option<PromptCacheOptions>,
    pub cascade_id: String,
    pub planner_mode: i32,
    pub execution_id: String,
}

#[derive(Debug, Clone, PartialEq, Eq)]
pub struct GetChatMessageResponse {
    pub delta_text: String,
    pub stop_reason: i32,
    pub delta_tool_calls: Vec<ChatToolCall>,
    pub usage: Option<ModelUsageStats>,
    pub delta_thinking: String,
    pub delta_signature: String,
}

#[derive(Debug, Clone, Copy, PartialEq, Eq)]
pub struct ModelUsageStats {
    pub input_tokens: u64,
    pub output_tokens: u64,
    pub cache_write_tokens: u64,
    pub cache_read_tokens: u64,
}

#[derive(Debug, Clone, Copy, PartialEq, Eq, Structural)]
pub enum ChatMessageRequestType {
    Unspecified,
    Cascade,
}

impl ChatMessageRequestType {
    /// The wire number of the value.
    pub fn as_i32(self) -> (r: i32)
        ensures
            r == (match self {
                ChatMessageRequestType::Unspecified => 0i32,
                ChatMessageRequestType::Cascade => 5i32,
            }),
    {
        match self {
            ChatMessageRequestType::Unspecified => 0,
            ChatMessageRequestType::Cascade => 5,
        }
    }
}

#[derive(Debug, Clone, Copy, PartialEq, Eq, Structural)]
pub enum ChatMessageSource {
    Unspecified,
    User,
    System,
    Tool,
}

impl ChatMessageSource {
    /// The wire number of the value.
    pub open spec fn number(self) -> i32 {
        match self {
            ChatMessageSource::Unspecified => 0i32,
            ChatMessageSource::User => 1i32,
            ChatMessageSource::System => 2i32,
            ChatMessageSource::Tool => 4i32,
        }
    }

    pub fn as_i32(self) -> (r: i32)
        ensures
            r == self.number(),
    {
        match self {
            ChatMessageSource::Unspecified => 0,
            ChatMessageSource::User => 1,
            ChatMessageSource::System => 2,
            ChatMessageSource::Tool => 4,
        }
    }
}

#[derive(Debug, Clone, Copy, PartialEq, Eq, Structural)]
pub enum ConversationalPlannerMode {
    Unspecified,
    Default,
}

impl ConversationalPlannerMode {
    pub fn as_i32(self) -> (r: i32)
        ensures
            r == (match self {
                ConversationalPlannerMode::Unspecified => 0i32,
                ConversationalPlannerMode::Default => 1i32,
            }),
    {
        match self {
            ConversationalPlannerMode::Unspecified => 0,
            ConversationalPlannerMode::Default => 1,
        }
    }
}

#[derive(Debug, Clone, Copy, PartialEq, Eq, Structural)]
pub enum CacheControlType {
    Unspecified,
    Ephemeral,
}

impl CacheControlType {
    pub fn as_i32(self) -> (r: i32)
        ensures
            r == (match self {
                CacheControlType::Unspecified => 0i32,
                CacheControlType::Ephemeral => 1i32,
            }),
    {
        match self {
            CacheControlType::Unspecified => 0,
            CacheControlType::Ephemeral => 1,
        }
    }
}

/// Why the model stopped generating.
#[derive(Debug, Clone, Copy, PartialEq, Eq, Structural)]
pub enum StopReason {
    Unspecified,
    Incomplete,
    StopPattern,
    MaxTokens,
    MinLogProb,
    MaxNewlines,
    ExitScope,
    NonfiniteLogitOrProb,
    FirstNonWhitespaceLine,
    Partial,
    FunctionCall,
    ContentFilter,
    NonInsertion,
    Error,
}

/// The stop reason with wire number `v`, if any.
pub open spec fn stop_reason_of(v: i32) -> Option<StopReason> {
    if v == 0 {
        Some(StopReason::Unspecified)
    } else if v == 1 {
        Some(StopReason::Incomplete)
    } else if v == 2 {
        Some(StopReason::StopPattern)
    } else if v == 3 {
        Some(StopReason::MaxTokens)
    } else if v == 4 {
        Some(StopReason::MinLogProb)
    } else if v == 5 {
        Some(StopReason::MaxNewlines)
    } else if v == 6 {
        Some(StopReason::ExitScope)
    } else if v == 7 {
        Some(StopReason::NonfiniteLogitOrProb)
    } else if v == 8 {
        Some(StopReason::FirstNonWhitespaceLine)
    } else if v == 9 {
        Some(StopReason::Partial)
    } else if v == 10 {
        Some(StopReason::FunctionCall)
    } else if v == 11 {
        Some(StopReason::ContentFilter)
    } else if v == 12 {
        Some(StopReason::NonInsertion)
    } else if v == 13 {
        Some(StopReason::Error)
    } else {
        None
    }
}

impl StopReason {
    /// Decodes a wire number; `None` for numbers the schema does not know.
    pub fn from_i32(v: i32) -> (r: Option<StopReason>)
        ensures
            r == stop_reason_of(v),
    {
        match v {
            0 => Some(StopReason::Unspecified),
            1 => Some(StopReason::Incomplete),
            2 => Some(StopReason::StopPattern),
            3 => Some(StopReason::MaxTokens),
            4 => Some(StopReason::MinLogProb),
            5 => Some(StopReason::MaxNewlines),
            6 => Some(StopReason::ExitScope),
            7 => Some(StopReason::NonfiniteLogitOrProb),
            8 => Some(StopReason::FirstNonWhitespaceLine),
            9 => Some(StopReason::Partial),
            10 => Some(StopReason::FunctionCall),
            11 => Some(StopReason::ContentFilter),
            12 => Some(StopReason::NonInsertion),
            13 => Some(StopReason::Error),
            _ => None,
        }
    }

    /// The wire number of the value.
    pub fn as_i32(self) -> (r: i32)
        ensures
            stop_reason_of(r) == Some(self),
    {
        match self {
            StopReason::Unspecified => 0,
            StopReason::Incomplete => 1,
            StopReason::StopPattern => 2,
            StopReason::MaxTokens => 3,
            StopReason::MinLogProb => 4,
            StopReason::MaxNewlines => 5,
            StopReason::ExitScope => 6,
            StopReason::NonfiniteLogitOrProb => 7,
            StopReason::FirstNonWhitespaceLine => 8,
            StopReason::Partial => 9,
            StopReason::FunctionCall => 10,
            StopReason::ContentFilter => 11,
            StopReason::NonInsertion => 12,
            StopReason::Error => 13,
        }
    }
}

} // verus!
