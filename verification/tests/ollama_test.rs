use granite::message::{ChatRequest, FinishReason, Message, Role, ToolCall, ToolDefinition};
use granite::ollama::{
    OllamaChatChunk, OllamaFunctionCall, OllamaRequest, OllamaResponseMessage, OllamaToolCall,
};
use granite::stream::{ndjson_line_data, take_line};

fn json(text: &str) -> serde_json::Value {
    serde_json::from_str(text).unwrap()
}

fn chat_req() -> ChatRequest {
    ChatRequest {
        messages: vec![user_msg("hi")],
        tools: vec![],
        model: "llama3.1".to_string(),
    }
}

fn user_msg(text: &str) -> Message {
    Message {
        role: Role::User,
        content: Some(text.to_string()),
        tool_calls: vec![],
        tool_call_id: None,
    }
}

fn chunk(content: Option<&str>, calls: Vec<OllamaToolCall>, done: bool, reason: Option<&str>) -> OllamaChatChunk {
    OllamaChatChunk {
        message: Some(OllamaResponseMessage {
            role: Role::Assistant,
            content: content.map(|c| c.to_string()),
            tool_calls: calls,
        }),
        done,
        done_reason: reason.map(|r| r.to_string()),
    }
}

#[test]
fn request_omits_empty_tools() {
    let req = chat_req();
    let body = OllamaRequest::from_chat_request(&req, false);

    assert!(body.tools.is_empty(), "empty tools should be omitted");
    let msg = &body.messages[0];
    assert!(msg.tool_calls.is_empty(), "empty tool_calls should be omitted");
    assert_eq!(msg.content.as_deref(), Some("hi"));
    assert!(!body.stream);
}

#[test]
fn ollama_test_request_carries_tool_definitions_and_stream_flag() {
    let req = ChatRequest {
        messages: vec![user_msg("hi")],
        tools: vec![ToolDefinition {
            name: "bash".to_string(),
            description: "run a shell command".to_string(),
            parameters: json(r#"{"type": "object", "properties": {}}"#),
        }],
        model: "llama3.1".to_string(),
    };
    let body = OllamaRequest::from_chat_request(&req, true);

    assert!(body.stream);
    assert_eq!(body.tools[0].kind, "function");
    assert_eq!(body.tools[0].function.name, "bash");
}

#[test]
fn tool_call_arguments_round_trip_as_json_value() {
    let tc = ToolCall {
        id: "call_1".to_string(),
        name: "bash".to_string(),
        arguments: json(r#"{"cmd": "ls"}"#),
        provider_metadata: None,
    };
    let wire = OllamaToolCall::from_tool_call(&tc);
    assert_eq!(wire.function.arguments, json(r#"{"cmd": "ls"}"#));

    let back = wire.into_tool_call();
    assert_eq!(back, tc);
}

#[test]
fn response_without_tool_calls_maps_to_stop() {
    let parsed = chunk(Some("hello"), vec![], true, Some("stop"));
    let resp = parsed.into_chat_response();
    assert_eq!(resp.message.content.as_deref(), Some("hello"));
    assert_eq!(resp.finish_reason, FinishReason::Stop);
}

#[test]
fn response_with_tool_calls_maps_to_tool_calls_finish_reason() {
    let call = OllamaToolCall {
        id: None,
        function: OllamaFunctionCall { name: "bash".to_string(), arguments: json(r#"{"cmd": "ls"}"#) },
    };
    let parsed = chunk(None, vec![call], true, None);
    let resp = parsed.into_chat_response();
    assert_eq!(resp.finish_reason, FinishReason::ToolCalls);
    assert_eq!(resp.message.tool_calls[0].name, "bash");
}

#[test]
fn ndjson_line_not_done_yields_no_finish_reason() {
    let line = br#"{"message":{"role":"assistant","content":"he"},"done":false}
"#;
    let data = ndjson_line_data(line).expect("should yield an item");
    let doc = json(&data);
    assert_eq!(doc["message"]["content"], "he");
    assert_eq!(doc["done"], false);
    let parsed = chunk(Some("he"), vec![], false, None).into_stream_chunk();
    assert_eq!(parsed.delta.as_deref(), Some("he"));
    assert!(parsed.finish_reason.is_none());
}

#[test]
fn ndjson_final_line_reports_finish_reason() {
    let line = br#"{"message":{"role":"assistant","content":""},"done":true,"done_reason":"stop"}
"#;
    let data = ndjson_line_data(line).expect("should yield an item");
    let doc = json(&data);
    assert_eq!(doc["done"], true);
    assert_eq!(doc["done_reason"], "stop");
    let parsed = chunk(Some(""), vec![], true, Some("stop")).into_stream_chunk();
    assert_eq!(parsed.finish_reason, Some(FinishReason::Stop));
}

#[test]
fn blank_ndjson_line_yields_no_item() {
    assert!(ndjson_line_data(b"   \n").is_none());
    assert!(ndjson_line_data(b"").is_none());
}

#[test]
fn length_done_reason_maps_to_length() {
    let c = chunk(Some("cut"), vec![], true, Some("length"));
    assert_eq!(c.finish_reason(), Some(FinishReason::Length));
    assert_eq!(c.into_chat_response().finish_reason, FinishReason::Length);
}

#[test]
fn missing_tool_call_id_becomes_empty() {
    let call = OllamaToolCall {
        id: None,
        function: OllamaFunctionCall { name: "bash".to_string(), arguments: json("{}") },
    };
    let tc = call.into_tool_call();
    assert_eq!(tc.id, "");
    assert!(tc.provider_metadata.is_none());
}

#[test]
fn take_line_on_empty_buffer_yields_nothing() {
    let mut buf: Vec<u8> = Vec::new();
    assert!(take_line(&mut buf).is_none());
    assert!(buf.is_empty());
}
