use granite::groq::{
    finish_reason_of, GroqChoice, GroqFinishReason, GroqFunctionCall, GroqRequest,
    GroqResponse, GroqResponseMessage, GroqStreamChoice, GroqStreamChunk, GroqStreamDelta,
    GroqToolCall,
};
use granite::message::{
    ChatRequest, ChatResponse, FinishReason, Message, ProviderError, Role, ToolCall,
    ToolDefinition,
};
use granite::stream::groq_event_data;

fn json(text: &str) -> serde_json::Value {
    serde_json::from_str(text).unwrap()
}

fn user_msg(text: &str) -> Message {
    Message {
        role: Role::User,
        content: Some(text.to_string()),
        tool_calls: vec![],
        tool_call_id: None,
    }
}

fn stream_chunk(content: Option<&str>, finish: Option<GroqFinishReason>) -> GroqStreamChunk {
    GroqStreamChunk {
        choices: vec![GroqStreamChoice {
            delta: GroqStreamDelta { content: content.map(|c| c.to_string()), tool_calls: vec![] },
            finish_reason: finish,
        }],
    }
}

#[test]
fn request_omits_empty_tools_and_tool_calls() {
    let req = ChatRequest {
        messages: vec![user_msg("hi")],
        tools: vec![],
        model: "llama-3.3-70b-versatile".to_string(),
    };
    let body = GroqRequest::from_chat_request(&req, false);

    assert!(body.tools.is_empty(), "empty tools should be omitted");
    let msg = &body.messages[0];
    assert!(msg.tool_calls.is_empty(), "empty tool_calls should be omitted");
    assert!(msg.tool_call_id.is_none());
    assert_eq!(msg.content.as_deref(), Some("hi"));
    assert!(!body.stream);
}

#[test]
fn groq_test_request_carries_tool_definitions_and_stream_flag() {
    let req = ChatRequest {
        messages: vec![user_msg("hi")],
        tools: vec![ToolDefinition {
            name: "bash".to_string(),
            description: "run a shell command".to_string(),
            parameters: json(r#"{"type": "object", "properties": {}}"#),
        }],
        model: "llama-3.3-70b-versatile".to_string(),
    };
    let body = GroqRequest::from_chat_request(&req, true);

    assert!(body.stream);
    assert_eq!(body.tools[0].kind, "function");
    assert_eq!(body.tools[0].function.name, "bash");
    assert_eq!(body.model, "llama-3.3-70b-versatile");
}

#[test]
fn tool_call_arguments_round_trip_through_json_string() {
    let tc = ToolCall {
        id: "call_1".to_string(),
        name: "bash".to_string(),
        arguments: json(r#"{"cmd": "ls"}"#),
        provider_metadata: None,
    };
    let wire = GroqToolCall::from_tool_call(&tc);
    assert_eq!(wire.function.arguments, r#"{"cmd":"ls"}"#);

    let back = wire.into_tool_call();
    assert_eq!(back, tc);
}

#[test]
fn tool_call_arguments_survive_malformed_json() {
    let wire = GroqToolCall {
        id: "call_2".to_string(),
        kind: "function".to_string(),
        function: GroqFunctionCall {
            name: "bash".to_string(),
            arguments: "not json".to_string(),
        },
    };
    let tc = wire.into_tool_call();
    assert_eq!(tc.arguments, serde_json::Value::String("not json".to_string()));
}

#[test]
fn response_parses_into_chat_response() {
    let mut parsed = GroqResponse {
        choices: vec![GroqChoice {
            message: GroqResponseMessage {
                role: Role::Assistant,
                content: Some("hello".to_string()),
                tool_calls: vec![],
            },
            finish_reason: GroqFinishReason::Stop,
        }],
    };
    let choice = parsed.choices.remove(0);
    let resp = ChatResponse {
        message: choice.message.into_message(),
        finish_reason: finish_reason_of(choice.finish_reason),
    };
    assert_eq!(resp.message.content.as_deref(), Some("hello"));
    assert_eq!(resp.finish_reason, FinishReason::Stop);
}

#[test]
fn groq_test_sse_event_parses_content_delta() {
    let event = b"data: {\"choices\":[{\"delta\":{\"content\":\"hi\"},\"finish_reason\":null}]}\n\n";
    let payload = groq_event_data(event).expect("should yield an item");
    let doc = json(&payload);
    assert_eq!(doc["choices"][0]["delta"]["content"], "hi");
    assert!(doc["choices"][0]["finish_reason"].is_null());
    let parsed = stream_chunk(Some("hi"), None).into_stream_chunk();
    assert_eq!(parsed.delta.as_deref(), Some("hi"));
    assert!(parsed.finish_reason.is_none());
}

#[test]
fn sse_done_marker_yields_no_item() {
    let event = b"data: [DONE]\n\n";
    assert!(groq_event_data(event).is_none());
}

#[test]
fn groq_test_sse_event_reports_finish_reason() {
    let event = b"data: {\"choices\":[{\"delta\":{},\"finish_reason\":\"stop\"}]}\n\n";
    let payload = groq_event_data(event).expect("should yield an item");
    assert_eq!(json(&payload)["choices"][0]["finish_reason"], "stop");
    let parsed = stream_chunk(None, Some(GroqFinishReason::Stop)).into_stream_chunk();
    assert_eq!(parsed.finish_reason, Some(FinishReason::Stop));
}

#[test]
fn response_without_choices_is_parse_error() {
    let err = GroqResponse { choices: vec![] }.into_chat_response().unwrap_err();
    assert!(matches!(err, ProviderError::Parse(ref m) if m == "no choices in response"));
}

#[test]
fn tool_calls_finish_reason_maps_through() {
    assert_eq!(finish_reason_of(GroqFinishReason::ToolCalls), FinishReason::ToolCalls);
    assert_eq!(finish_reason_of(GroqFinishReason::Length), FinishReason::Length);
}

#[test]
fn groq_event_without_data_line_yields_no_item() {
    assert!(groq_event_data(b": keep-alive\n\n").is_none());
    assert_eq!(groq_event_data(b"data:{}\n\n"), Some("{}".to_string()));
}
