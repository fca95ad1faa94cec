use granite::gemini::{
    GeminiCandidate, GeminiContent, GeminiFinishReason, GeminiFunctionCall, GeminiPart,
    GeminiRequest, GeminiResponse,
};
use granite::message::{ChatRequest, FinishReason, Message, Role, ToolCall, ToolDefinition};
use granite::stream::gemini_event_data;

fn json(text: &str) -> serde_json::Value {
    serde_json::from_str(text).unwrap()
}

fn req_with_system_and_user() -> ChatRequest {
    ChatRequest {
        model: "gemini-1.5-flash".to_string(),
        tools: vec![],
        messages: vec![
            Message {
                role: Role::System,
                content: Some("be terse".to_string()),
                tool_calls: vec![],
                tool_call_id: None,
            },
            Message {
                role: Role::User,
                content: Some("hi".to_string()),
                tool_calls: vec![],
                tool_call_id: None,
            },
        ],
    }
}

fn candidate(parts: Vec<GeminiPart>, finish: Option<GeminiFinishReason>) -> GeminiCandidate {
    GeminiCandidate {
        content: GeminiContent { role: Some("model".to_string()), parts },
        finish_reason: finish,
    }
}

#[test]
fn system_message_routes_to_system_instruction() {
    let body = GeminiRequest::from_chat_request(&req_with_system_and_user());

    let sys = body.system_instruction.expect("system_instruction present");
    assert!(matches!(&sys.parts[0], GeminiPart::Text { text } if text == "be terse"));

    assert_eq!(body.contents.len(), 1);
    assert_eq!(body.contents[0].role.as_deref(), Some("user"));
}

#[test]
fn assistant_role_maps_to_model() {
    let req = ChatRequest {
        model: "gemini-1.5-flash".to_string(),
        tools: vec![],
        messages: vec![Message {
            role: Role::Assistant,
            content: Some("hello".to_string()),
            tool_calls: vec![],
            tool_call_id: None,
        }],
    };

    let body = GeminiRequest::from_chat_request(&req);
    assert_eq!(body.contents[0].role.as_deref(), Some("model"));
}

#[test]
fn assistant_tool_calls_become_function_call_parts() {
    let req = ChatRequest {
        model: "gemini-1.5-flash".to_string(),
        tools: vec![],
        messages: vec![Message {
            role: Role::Assistant,
            content: None,
            tool_calls: vec![ToolCall {
                id: "call_1".to_string(),
                name: "get_weather".to_string(),
                arguments: json(r#"{"city": "Paris"}"#),
                provider_metadata: None,
            }],
            tool_call_id: None,
        }],
    };

    let body = GeminiRequest::from_chat_request(&req);
    match &body.contents[0].parts[0] {
        GeminiPart::FunctionCall { function_call, .. } => {
            assert_eq!(function_call.name, "get_weather");
            assert_eq!(function_call.args, json(r#"{"city": "Paris"}"#));
        }
        other => panic!("expected FunctionCall part, got {other:?}"),
    }
}

#[test]
fn tool_call_thought_signature_round_trips_through_provider_metadata() {
    let parsed = GeminiResponse {
        candidates: vec![candidate(
            vec![GeminiPart::FunctionCall {
                function_call: GeminiFunctionCall { name: "get_weather".to_string(), args: json("{}") },
                thought_signature: Some("sig123".to_string()),
            }],
            Some(GeminiFinishReason::Stop),
        )],
    };
    let response = parsed.candidates.into_iter().next().unwrap().into_chat_response();
    let tc = &response.message.tool_calls[0];
    assert_eq!(tc.provider_metadata.as_deref(), Some("sig123"));

    let req = ChatRequest {
        model: "gemini-3.6-flash".to_string(),
        tools: vec![],
        messages: vec![Message {
            role: Role::Assistant,
            content: None,
            tool_calls: vec![tc.clone()],
            tool_call_id: None,
        }],
    };
    let body = GeminiRequest::from_chat_request(&req);
    match &body.contents[0].parts[0] {
        GeminiPart::FunctionCall { thought_signature, .. } => {
            assert_eq!(thought_signature.as_deref(), Some("sig123"));
        }
        other => panic!("expected FunctionCall part, got {other:?}"),
    }
}

#[test]
fn tool_result_becomes_function_response_keyed_by_call_id() {
    let req = ChatRequest {
        model: "gemini-1.5-flash".to_string(),
        tools: vec![],
        messages: vec![Message {
            role: Role::Tool,
            content: Some("sunny".to_string()),
            tool_calls: vec![],
            tool_call_id: Some("call_1".to_string()),
        }],
    };

    let body = GeminiRequest::from_chat_request(&req);
    assert_eq!(body.contents[0].role.as_deref(), Some("user"));
    match &body.contents[0].parts[0] {
        GeminiPart::FunctionResponse { function_response } => {
            assert_eq!(function_response.name, "call_1");
            assert_eq!(function_response.content.as_deref(), Some("sunny"));
        }
        other => panic!("expected FunctionResponse part, got {other:?}"),
    }
}

#[test]
fn tool_definitions_become_function_declarations() {
    let req = ChatRequest {
        model: "gemini-1.5-flash".to_string(),
        tools: vec![ToolDefinition {
            name: "get_weather".to_string(),
            description: "gets weather".to_string(),
            parameters: json(r#"{"type": "object"}"#),
        }],
        messages: vec![],
    };

    let body = GeminiRequest::from_chat_request(&req);
    assert_eq!(body.tools.len(), 1);
    assert_eq!(body.tools[0].function_declarations[0].name, "get_weather");
}

#[test]
fn response_with_text_only_parses_into_chat_response() {
    let parsed = GeminiResponse {
        candidates: vec![candidate(
            vec![GeminiPart::Text { text: "hi there".to_string() }],
            Some(GeminiFinishReason::Stop),
        )],
    };
    let response = parsed.candidates.into_iter().next().unwrap().into_chat_response();

    assert_eq!(response.message.content, Some("hi there".to_string()));
    assert!(response.message.tool_calls.is_empty());
    assert_eq!(response.finish_reason, FinishReason::Stop);
}

#[test]
fn response_with_function_call_reports_tool_calls_finish_reason() {
    let parsed = GeminiResponse {
        candidates: vec![candidate(
            vec![GeminiPart::FunctionCall {
                function_call: GeminiFunctionCall {
                    name: "get_weather".to_string(),
                    args: json(r#"{"city": "Paris"}"#),
                },
                thought_signature: None,
            }],
            Some(GeminiFinishReason::Stop),
        )],
    };
    let response = parsed.candidates.into_iter().next().unwrap().into_chat_response();

    assert_eq!(response.finish_reason, FinishReason::ToolCalls);
    assert_eq!(response.message.tool_calls.len(), 1);
    assert_eq!(response.message.tool_calls[0].name, "get_weather");
    assert_eq!(response.message.tool_calls[0].arguments, json(r#"{"city": "Paris"}"#));
}

#[test]
fn max_tokens_finish_reason_maps_to_length() {
    let parsed = GeminiResponse {
        candidates: vec![candidate(
            vec![GeminiPart::Text { text: "cut off".to_string() }],
            Some(GeminiFinishReason::MaxTokens),
        )],
    };
    let response = parsed.candidates.into_iter().next().unwrap().into_chat_response();

    assert_eq!(response.finish_reason, FinishReason::Length);
}

#[test]
fn gemini_test_sse_event_parses_content_delta() {
    let event = b"data: {\"candidates\":[{\"content\":{\"role\":\"model\",\"parts\":[{\"text\":\"hi\"}]}}]}\n\n";
    let payload = gemini_event_data(event).expect("event carries data");
    let doc = json(&payload);
    let text = doc["candidates"][0]["content"]["parts"][0]["text"].as_str().unwrap();
    assert!(doc["candidates"][0].get("finishReason").is_none());
    let parsed = GeminiResponse {
        candidates: vec![candidate(vec![GeminiPart::Text { text: text.to_string() }], None)],
    };
    let chunk = parsed.into_stream_chunk();
    assert_eq!(chunk.delta, Some("hi".to_string()));
    assert_eq!(chunk.finish_reason, None);
}

#[test]
fn gemini_test_sse_event_reports_finish_reason() {
    let event = b"data: {\"candidates\":[{\"content\":{\"role\":\"model\",\"parts\":[]},\"finishReason\":\"STOP\"}]}\n\n";
    let payload = gemini_event_data(event).expect("event carries data");
    let doc = json(&payload);
    assert_eq!(doc["candidates"][0]["finishReason"], "STOP");
    let parsed = GeminiResponse {
        candidates: vec![candidate(vec![], Some(GeminiFinishReason::Stop))],
    };
    let chunk = parsed.into_stream_chunk();
    assert_eq!(chunk.finish_reason, Some(FinishReason::Stop));
}

#[test]
fn sse_event_with_blank_data_yields_no_item() {
    let event = b"\n\n";
    assert!(gemini_event_data(event).is_none());
}

#[test]
fn gemini_event_data_skips_blank_payload() {
    assert!(gemini_event_data(b"data:   \n\n").is_none());
    assert_eq!(gemini_event_data(b"event: x\ndata: {}\n\n"), Some("{}".to_string()));
}

#[test]
fn response_without_candidate_parts_has_no_content() {
    let parsed = GeminiResponse { candidates: vec![] };
    let chunk = parsed.into_stream_chunk();
    assert!(chunk.delta.is_none());
    assert!(chunk.tool_call_delta.is_none());
    assert!(chunk.finish_reason.is_none());
}

#[test]
fn safety_finish_reason_maps_to_stop() {
    let c = candidate(vec![GeminiPart::Text { text: "x".to_string() }], Some(GeminiFinishReason::Safety));
    assert_eq!(c.into_chat_response().finish_reason, FinishReason::Stop);
}

#[test]
fn stream_chunk_carries_first_tool_call_and_tool_calls_finish() {
    let parsed = GeminiResponse {
        candidates: vec![candidate(
            vec![
                GeminiPart::Text { text: "checking".to_string() },
                GeminiPart::FunctionCall {
                    function_call: GeminiFunctionCall {
                        name: "get_weather".to_string(),
                        args: json(r#"{"city": "Paris"}"#),
                    },
                    thought_signature: Some("sig".to_string()),
                },
                GeminiPart::FunctionCall {
                    function_call: GeminiFunctionCall { name: "get_time".to_string(), args: json("{}") },
                    thought_signature: None,
                },
            ],
            Some(GeminiFinishReason::Stop),
        )],
    };
    let chunk = parsed.into_stream_chunk();
    assert_eq!(chunk.delta, Some("checking".to_string()));
    let call = chunk.tool_call_delta.expect("first tool call is carried");
    assert_eq!(call.name, "get_weather");
    assert_eq!(call.arguments, json(r#"{"city": "Paris"}"#));
    assert_eq!(call.provider_metadata, Some("sig".to_string()));
    assert_eq!(chunk.finish_reason, Some(FinishReason::ToolCalls));
}
