use widevin::proto::{ChatToolCall, GetChatMessageResponse, ModelUsageStats, StopReason};
use widevin::{
    build_chat_message_prompts, build_chat_request, check_trailer, encode_connect_frame, ChatStreamState,
    DevinAssistantContentPart, DevinContentPart, DevinMessage, DevinStopReason, DevinStreamEvent, DevinTool,
    StreamDevinChatOptions,
};

fn json(text: &str) -> serde_json::Value {
    serde_json::from_str(text).expect("json")
}

fn response(calls: Vec<ChatToolCall>) -> GetChatMessageResponse {
    GetChatMessageResponse {
        delta_text: String::new(),
        stop_reason: 0,
        delta_tool_calls: calls,
        usage: None,
        delta_thinking: String::new(),
        delta_signature: String::new(),
    }
}

fn call(id: &str, name: &str, arguments_json: &str) -> ChatToolCall {
    ChatToolCall { id: id.into(), name: name.into(), arguments_json: arguments_json.into() }
}

fn run(messages: &[GetChatMessageResponse]) -> Vec<DevinStreamEvent> {
    let mut state = ChatStreamState::new();
    let mut events = Vec::new();
    for message in messages {
        events.extend(state.apply_response(message));
    }
    events.extend(state.finish());
    events
}

#[test]
fn tool_arguments_accumulate_incremental_and_cumulative_updates_per_id() {
    let cumulative = (0..260).map(|index| format!("{{}}{}", " ".repeat(index))).collect::<Vec<_>>();
    let calls = [
        vec![call("call-a", "first", &cumulative[0]), call("call-b", "second", r#"{"id":"b"}"#)],
        cumulative.iter().skip(1).map(|arguments_json| call("call-a", "", arguments_json)).collect(),
    ]
    .concat();
    let events = run(&[response(calls)]);
    let first_deltas = events
        .iter()
        .filter_map(|event| match event {
            DevinStreamEvent::ToolCallDelta { id, delta, arguments } if id == "call-a" => Some((delta, arguments)),
            _ => None,
        })
        .collect::<Vec<_>>();
    assert_eq!(
        first_deltas.iter().map(|(delta, _)| delta.as_str()).collect::<String>(),
        *cumulative.last().expect("last cumulative value")
    );
    assert_eq!(
        first_deltas
            .iter()
            .enumerate()
            .filter_map(|(index, (_, arguments))| arguments.as_ref().map(|_| index))
            .collect::<Vec<_>>(),
        vec![0, 256]
    );
    assert!(events.iter().any(|event| {
        matches!(
            event,
            DevinStreamEvent::ToolCallDelta { id, arguments: Some(arguments), .. }
                if id == "call-b" && arguments == &json(r#"{"id":"b"}"#)
        )
    }));
    assert!(events.iter().any(|event| {
        matches!(
            event,
            DevinStreamEvent::ToolCallEnd { id, arguments, .. } if id == "call-a" && arguments == &json("{}")
        )
    }));
}

#[test]
fn chat_stream_matches_text_thinking_tools_usage_and_done_behavior() {
    let messages = vec![
        GetChatMessageResponse { delta_thinking: "think".into(), ..response(vec![]) },
        GetChatMessageResponse { delta_text: "hi".into(), ..response(vec![]) },
        response(vec![call("call-1", "search", "{\"q\"")]),
        GetChatMessageResponse {
            usage: Some(ModelUsageStats { input_tokens: 2, output_tokens: 3, cache_read_tokens: 4, cache_write_tokens: 5 }),
            ..response(vec![call("call-1", "", "{\"q\":\"x\"}")])
        },
    ];
    assert_eq!(check_trailer(b"{}"), Ok(()));
    let events = run(&messages);
    assert_eq!(
        events,
        vec![
            DevinStreamEvent::ThinkingDelta { delta: "think".into(), signature: None },
            DevinStreamEvent::TextDelta { delta: "hi".into() },
            DevinStreamEvent::ToolCallStart { id: "call-1".into(), name: "search".into() },
            DevinStreamEvent::ToolCallDelta { id: "call-1".into(), delta: "{\"q\"".into(), arguments: None },
            DevinStreamEvent::ToolCallDelta { id: "call-1".into(), delta: ":\"x\"}".into(), arguments: None },
            DevinStreamEvent::Usage { input_tokens: 2, output_tokens: 3, cache_read_tokens: 4, cache_write_tokens: 5 },
            DevinStreamEvent::ToolCallEnd { id: "call-1".into(), name: "search".into(), arguments: json(r#"{"q":"x"}"#) },
            DevinStreamEvent::Done { reason: DevinStopReason::ToolUse },
        ]
    );
    let request_frame = encode_connect_frame(b"request", true, false).expect("frame");
    assert_eq!(request_frame[0], 1);
}

#[test]
fn stop_reasons_and_id_less_updates() {
    let stop = |reason: i32| GetChatMessageResponse { stop_reason: reason, ..response(vec![]) };
    assert_eq!(run(&[stop(StopReason::MaxTokens.as_i32())]), vec![DevinStreamEvent::Done { reason: DevinStopReason::Length }]);
    assert_eq!(run(&[stop(3), stop(0), stop(99)]), vec![DevinStreamEvent::Done { reason: DevinStopReason::Length }]);
    assert_eq!(run(&[stop(3), stop(2)]), vec![DevinStreamEvent::Done { reason: DevinStopReason::Stop }]);
    assert_eq!(run(&[]), vec![DevinStreamEvent::Done { reason: DevinStopReason::Stop }]);

    let events = run(&[response(vec![call("", "ignored", "x"), call("c", "n", "{\"a\""), call("", "", ":1}")])]);
    assert_eq!(
        events,
        vec![
            DevinStreamEvent::ToolCallStart { id: "c".into(), name: "n".into() },
            DevinStreamEvent::ToolCallDelta { id: "c".into(), delta: "{\"a\"".into(), arguments: None },
            DevinStreamEvent::ToolCallDelta { id: "c".into(), delta: ":1}".into(), arguments: None },
            DevinStreamEvent::ToolCallEnd { id: "c".into(), name: "n".into(), arguments: json(r#"{"a":1}"#) },
            DevinStreamEvent::Done { reason: DevinStopReason::ToolUse },
        ]
    );
    let signed = GetChatMessageResponse { delta_thinking: "t".into(), delta_signature: "sig".into(), ..response(vec![]) };
    assert_eq!(run(&[signed])[0], DevinStreamEvent::ThinkingDelta { delta: "t".into(), signature: Some("sig".into()) });
}

#[test]
fn assistant_and_tool_prompts_have_stable_ids_and_fields() {
    let prompts = build_chat_message_prompts(
        &vec![
            DevinMessage::Assistant {
                response_id: Some("assistant-1".into()),
                content: vec![DevinAssistantContentPart::ToolCall {
                    id: "call-1".into(),
                    name: "search".into(),
                    arguments: json(r#"{"q":"x"}"#),
                }],
            },
            DevinMessage::Tool {
                tool_call_id: "call-1".into(),
                content: vec![DevinContentPart::Text { text: "result".into() }],
                is_error: true,
            },
        ],
        "cascade-1",
    );
    assert_eq!(prompts[0].message_id, "assistant-1");
    assert_eq!(prompts[0].tool_calls[0].arguments_json, "{\"q\":\"x\"}");
    assert_eq!(prompts[1].tool_call_id, "call-1");
    assert!(prompts[1].tool_result_is_error);
    assert_eq!(prompts[1].message_id, "6225ae28-44b7-53fa-aad2-79b48041b84a");
}

#[test]
fn user_and_assistant_prompts_combine_their_parts() {
    let prompts = build_chat_message_prompts(
        &vec![
            DevinMessage::User {
                content: vec![
                    DevinContentPart::Text { text: "a".into() },
                    DevinContentPart::Image { data: "AAA".into(), mime_type: "image/png".into() },
                    DevinContentPart::Text { text: "b".into() },
                ],
            },
            DevinMessage::Assistant {
                response_id: None,
                content: vec![
                    DevinAssistantContentPart::Thinking { thinking: "t1".into(), thinking_signature: None },
                    DevinAssistantContentPart::Text { text: "x".into() },
                    DevinAssistantContentPart::Thinking { thinking: "t2".into(), thinking_signature: Some("s2".into()) },
                    DevinAssistantContentPart::Thinking { thinking: "t3".into(), thinking_signature: Some("s3".into()) },
                ],
            },
        ],
        "cascade-1",
    );
    assert_eq!(prompts[0].prompt, "ab");
    assert_eq!(prompts[0].images.len(), 1);
    assert_eq!(prompts[0].images[0].base64_data, "AAA");
    assert_eq!(prompts[0].source, 1);
    assert_eq!(prompts[1].source, 2);
    assert_eq!(prompts[1].prompt, "x");
    assert_eq!(prompts[1].thinking, "t1t2t3");
    assert_eq!(prompts[1].signature, "s2");
    assert!(prompts[1].message_id.starts_with("bot-"));
    assert_eq!(prompts[1].message_id.len(), 40);
}

#[test]
fn chat_request_defaults_and_ids() {
    let options = StreamDevinChatOptions {
        model: "model-a".into(),
        system_prompt: vec!["one".into(), "two".into()],
        stop_sequences: vec!["STOP".into()],
        tools: vec![DevinTool {
            name: "search".into(),
            description: "find".into(),
            input_schema: json(r#"{"type":"object"}"#),
            strict: true,
        }],
        ..Default::default()
    };
    let request = build_chat_request(&options, "devin-session-token$raw", "jwt-1", &|| "uuid-1".to_string());
    assert_eq!(request.cascade_id, "uuid-1");
    assert_eq!(request.execution_id, "uuid-1");
    assert_eq!(request.prompt, "one\n\ntwo");
    assert_eq!(request.chat_model_uid, "model-a");
    assert_eq!(request.request_type, 5);
    assert_eq!(request.planner_mode, 1);
    assert!(request.disable_parallel_tool_calls);
    let configuration = request.configuration.expect("configuration");
    assert_eq!(configuration.max_tokens, 64_000);
    assert_eq!(
        configuration.stop_patterns,
        vec!["<|user|>", "<|bot|>", "<|context_request|>", "<|endoftext|>", "<|end_of_turn|>", "STOP"]
    );
    assert_eq!(request.tools[0].json_schema_string, r#"{"type":"object"}"#);
    let metadata = request.metadata.expect("metadata");
    assert_eq!(metadata.api_key, "devin-session-token$raw");
    assert_eq!(metadata.user_jwt, "jwt-1");

    let with_session = StreamDevinChatOptions { session_id: Some("session".into()), max_tokens: Some(10), ..options };
    let request = build_chat_request(&with_session, "", "", &|| "fresh".to_string());
    assert_eq!(request.cascade_id, "session");
    assert_eq!(request.execution_id, "fresh");
    assert_eq!(request.configuration.expect("configuration").max_tokens, 10);
}

#[test]
fn started_tool_calls_end_once_in_start_order() {
    let events = run(&[
        response(vec![call("b", "second", "{"), call("a", "first", "{")]),
        response(vec![call("b", "", "}"), call("", "", ""), call("c", "third", "[]")]),
        response(vec![call("a", "", "}")]),
    ]);
    let started = events
        .iter()
        .filter_map(|e| match e {
            DevinStreamEvent::ToolCallStart { id, .. } => Some(id.clone()),
            _ => None,
        })
        .collect::<Vec<_>>();
    let ended = events
        .iter()
        .filter_map(|e| match e {
            DevinStreamEvent::ToolCallEnd { id, .. } => Some(id.clone()),
            _ => None,
        })
        .collect::<Vec<_>>();
    assert_eq!(started, vec!["b".to_string(), "a".to_string(), "c".to_string()]);
    assert_eq!(ended, started);
}
