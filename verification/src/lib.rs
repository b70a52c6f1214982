//! Verified core of the Devin/Cascade client: Connect framing, chat stream
//! decisions, request building, model normalization, OAuth callback checks
//! and token helpers.

pub mod auth;
pub mod chat;
pub mod connect;
pub mod constants;
pub mod error;
pub mod flow;
pub mod index_map;
pub mod json;
pub mod models;
pub mod order;
pub mod prompts;
pub mod proto;
pub mod request;
pub mod text;
pub mod token;
pub mod types;
pub mod uuid;

pub use auth::{
    build_devin_auth_url, callback_head_step, callback_redirect_uri, callback_response, create_pkce_pair, parse_callback_request,
    parse_callback_url, request_head_complete, token_exchange_failure, token_exchange_result, token_exchange_url,
    token_request_body, validate_devin_oauth_callback, BuildDevinAuthUrlOptions, CallbackHeadStep, ParsedUrl, PkcePair, CALLBACK_READ_CHUNK_BYTES,
    MAX_CALLBACK_REQUEST_HEAD_BYTES,
};
pub use chat::{advance_streaming_tool_call, check_trailer, ChatStreamState, StreamingToolCallState};
pub use connect::{
    decode_connect_frames, decompress_gzip, encode_connect_frame, read_connect_trailer_error, ConnectFrame,
    ConnectFrameDecoder, CONNECT_COMPRESSED_FLAG, CONNECT_END_STREAM_FLAG, MAX_CONNECT_FRAME_PAYLOAD,
};
pub use constants::{
    trim_trailing_slashes, DEVIN_APP_BASE_URL, DEVIN_AUTH_BASE_URL, DEVIN_AUTH_PATH, DEVIN_CHAT_PATH,
    DEVIN_DEFAULT_BASE_URL, DEVIN_DEFAULT_STOP_PATTERNS, DEVIN_EXTENSION_VERSION, DEVIN_IDE_VERSION,
    DEVIN_MODELS_PATH, DEVIN_OAUTH_CALLBACK_PATH, DEVIN_OAUTH_CALLBACK_PORT, DEVIN_OAUTH_TOKEN_PATH,
    DEVIN_SESSION_TOKEN_PREFIX,
};
pub use error::DevinError;
pub use flow::{
    auth_metadata_from_response, auth_request, auth_url, chat_url, http_failure, invalid_protobuf,
    is_success_status, missing_chat_body, successful_chat_body, models_request, models_url, AuthMetadata,
};
pub use json::{
    parse_possibly_complete_json, parse_possibly_complete_json_throttled, parse_streaming_json,
    ThrottledJsonParse, STREAMING_JSON_PARSE_MIN_GROWTH,
};
pub use models::{contains_ascii_word_phrase, is_ascii_word, metadata, normalize_models, supports_thinking};
pub use prompts::{build_chat_message_prompts, normalize_assistant_content, normalize_content};
pub use request::{build_chat_request, join_strings, StreamDevinChatOptions};
pub use token::{normalize_devin_session_token, store_error, token_from_file_contents, MemoryTokenSlot};
pub use types::{
    DevinAssistantContentPart, DevinChatRequest, DevinContentPart, DevinInput, DevinMessage, DevinModel,
    DevinStopReason, DevinStreamEvent, DevinTool,
};
pub use uuid::deterministic_uuid;
