use granite::agent::{AgentCore, AgentError, AgentStep, RetryDelay, MAX_PROVIDER_RETRIES};
use granite::message::{ChatResponse, FinishReason, Message, ProviderError, Role, ToolCall};
use granite::tools::{ToolError, ToolOutput};

fn json(text: &str) -> serde_json::Value {
    serde_json::from_str(text).unwrap()
}

fn assistant_text(text: &str) -> ChatResponse {
    ChatResponse {
        message: Message {
            role: Role::Assistant,
            content: Some(text.to_string()),
            tool_calls: vec![],
            tool_call_id: None,
        },
        finish_reason: FinishReason::Stop,
    }
}

fn assistant_tool_call(id: &str, name: &str, args: serde_json::Value) -> ChatResponse {
    ChatResponse {
        message: Message {
            role: Role::Assistant,
            content: None,
            tool_calls: vec![ToolCall {
                id: id.to_string(),
                name: name.to_string(),
                arguments: args,
                provider_metadata: None,
            }],
            tool_call_id: None,
        },
        finish_reason: FinishReason::ToolCalls,
    }
}

/// The `echo` tool: answers with its `text` argument.
fn echo(args: &serde_json::Value) -> Result<ToolOutput, ToolError> {
    match args.get("text").and_then(|v| v.as_str()) {
        Some(text) => Ok(ToolOutput { content: format!("echoed: {text}") }),
        None => Err(ToolError::InvalidArgs("missing 'text'".to_string())),
    }
}

/// Drives a run to its end: scripted provider replies, the `echo` tool, and
/// a confirmation hook that always answers `hook` when there is one.
fn run(
    core: &mut AgentCore,
    input: &str,
    replies: Vec<Result<ChatResponse, ProviderError>>,
    hook: Option<bool>,
) -> (Result<String, AgentError>, Vec<RetryDelay>) {
    let mut replies = replies;
    let mut delays = Vec::new();
    let mut step = core.start(input.to_string());
    loop {
        step = match step {
            AgentStep::CallProvider => {
                assert!(!replies.is_empty(), "provider called more times than scripted");
                core.on_provider_reply(replies.remove(0))
            }
            AgentStep::Retry(d) => {
                delays.push(d);
                assert!(!replies.is_empty(), "provider called more times than scripted");
                core.on_provider_reply(replies.remove(0))
            }
            AgentStep::Confirm(_) => core.on_confirmation(hook.expect("a hook is set")),
            AgentStep::Execute(indices) => {
                let last = core.context().messages().last().unwrap().clone();
                let results = indices.iter().map(|&i| echo(&last.tool_calls[i].arguments)).collect();
                core.on_tool_results(results)
            }
            AgentStep::Finished(r) => return (r, delays),
        };
    }
}

fn agent_with_echo(hook: bool) -> AgentCore {
    let mut core = AgentCore::new("test-model".to_string(), true);
    core.register_tool("echo".to_string());
    core.set_has_confirm_hook(hook);
    core
}

fn first_tool_message(core: &AgentCore) -> Message {
    core.context()
        .messages()
        .iter()
        .find(|m| m.role == Role::Tool)
        .expect("tool result message pushed to context")
        .clone()
}

#[test]
fn single_turn_no_tool_call_returns_content() {
    let mut core = AgentCore::new("test-model".to_string(), true);
    let (answer, _) = run(&mut core, "hello", vec![Ok(assistant_text("hi there"))], None);
    assert_eq!(answer.unwrap(), "hi there");
}

#[test]
fn run_without_provider_returns_no_provider_error() {
    let mut core = AgentCore::new("test-model".to_string(), false);
    let (err, _) = run(&mut core, "hello", vec![], None);
    assert!(matches!(err.unwrap_err(), AgentError::NoProvider));
    assert!(!core.has_provider());
    assert!(core.context().is_empty());
}

#[test]
fn set_provider_lets_run_succeed_afterwards() {
    let mut core = AgentCore::new("test-model".to_string(), false);
    assert!(!core.has_provider());
    core.set_has_provider(true);
    assert!(core.has_provider());
    let (answer, _) = run(&mut core, "hello", vec![Ok(assistant_text("hi there"))], None);
    assert_eq!(answer.unwrap(), "hi there");
}

#[test]
fn tool_call_round_trip_then_final_answer() {
    let mut core = agent_with_echo(false);
    let (answer, _) = run(
        &mut core,
        "go",
        vec![Ok(assistant_tool_call("call_1", "echo", json(r#"{"text": "ping"}"#))), Ok(assistant_text("done"))],
        None,
    );
    assert_eq!(answer.unwrap(), "done");
    let tool_msg = first_tool_message(&core);
    assert_eq!(tool_msg.content.as_deref(), Some("echoed: ping"));
    assert_eq!(tool_msg.tool_call_id.as_deref(), Some("call_1"));
}

#[test]
fn unknown_tool_call_reports_error_in_context_and_continues() {
    let mut core = AgentCore::new("test-model".to_string(), true);
    let (answer, _) = run(
        &mut core,
        "go",
        vec![Ok(assistant_tool_call("call_1", "nope", json("{}"))), Ok(assistant_text("recovered"))],
        None,
    );
    assert_eq!(answer.unwrap(), "recovered");
    let tool_msg = first_tool_message(&core);
    assert_eq!(tool_msg.content.as_deref(), Some("error: tool not found: nope"));
}

#[test]
fn rate_limited_retries_then_succeeds() {
    let mut core = AgentCore::new("test-model".to_string(), true);
    let (answer, delays) = run(
        &mut core,
        "go",
        vec![
            Err(ProviderError::RateLimited { retry_after: Some(std::time::Duration::from_millis(1)) }),
            Ok(assistant_text("ok")),
        ],
        None,
    );
    assert_eq!(answer.unwrap(), "ok");
    assert!(matches!(delays[..], [RetryDelay::Given(d)] if d == std::time::Duration::from_millis(1)));
}

#[test]
fn auth_error_aborts_immediately() {
    let mut core = AgentCore::new("test-model".to_string(), true);
    let (err, delays) = run(&mut core, "go", vec![Err(ProviderError::Auth)], None);
    assert!(matches!(err.unwrap_err(), AgentError::Provider(ProviderError::Auth)));
    assert!(delays.is_empty());
}

#[test]
fn confirm_hook_denial_short_circuits_tool_execution() {
    let mut core = agent_with_echo(true);
    let (answer, _) = run(
        &mut core,
        "go",
        vec![Ok(assistant_tool_call("call_1", "echo", json(r#"{"text": "ping"}"#))), Ok(assistant_text("done"))],
        Some(false),
    );
    assert_eq!(answer.unwrap(), "done");
    let tool_msg = first_tool_message(&core);
    assert!(tool_msg.content.as_deref().unwrap().contains("rejected by user"));
}

#[test]
fn confirm_hook_approval_lets_tool_execute() {
    let mut core = agent_with_echo(true);
    let (answer, _) = run(
        &mut core,
        "go",
        vec![Ok(assistant_tool_call("call_1", "echo", json(r#"{"text": "ping"}"#))), Ok(assistant_text("done"))],
        Some(true),
    );
    answer.unwrap();
    let tool_msg = first_tool_message(&core);
    assert_eq!(tool_msg.content.as_deref(), Some("echoed: ping"));
}

#[test]
fn no_confirm_hook_is_fail_open() {
    let mut core = agent_with_echo(false);
    let (answer, _) = run(
        &mut core,
        "go",
        vec![Ok(assistant_tool_call("call_1", "echo", json(r#"{"text": "ping"}"#))), Ok(assistant_text("done"))],
        None,
    );
    answer.unwrap();
    let tool_msg = first_tool_message(&core);
    assert_eq!(tool_msg.content.as_deref(), Some("echoed: ping"));
}

#[test]
fn max_iterations_reached_when_tool_calls_never_stop() {
    let mut core = agent_with_echo(false);
    core.set_max_iterations(3);
    let replies = (0..3).map(|_| Ok(assistant_tool_call("call_x", "echo", json(r#"{"text": "x"}"#)))).collect();
    let (err, _) = run(&mut core, "go", replies, None);
    assert!(matches!(err.unwrap_err(), AgentError::MaxIterationsReached(3)));
    let last = core.context().messages().last().unwrap();
    assert_eq!(last.role, Role::Tool);
    assert_eq!(last.content.as_deref(), Some("error: max iterations reached before tool could run"));
    assert_eq!(last.tool_call_id.as_deref(), Some("call_x"));
}

#[test]
fn network_errors_retry_with_growing_delay_then_give_up() {
    let mut core = AgentCore::new("test-model".to_string(), true);
    let replies = (0..=MAX_PROVIDER_RETRIES).map(|_| Err(ProviderError::Network("down".to_string()))).collect();
    let (err, delays) = run(&mut core, "go", replies, None);
    assert!(matches!(err.unwrap_err(), AgentError::Provider(ProviderError::Network(ref m)) if m == "down"));
    let millis: Vec<u64> = delays
        .iter()
        .map(|d| match d {
            RetryDelay::Millis(m) => *m,
            RetryDelay::Given(_) => panic!("no wait was given"),
        })
        .collect();
    assert_eq!(millis, vec![500, 1000, 1500]);
}

#[test]
fn rate_limit_without_wait_retries_after_a_second() {
    let mut core = AgentCore::new("test-model".to_string(), true);
    let (answer, delays) = run(
        &mut core,
        "go",
        vec![Err(ProviderError::RateLimited { retry_after: None }), Ok(assistant_text("ok"))],
        None,
    );
    assert_eq!(answer.unwrap(), "ok");
    assert!(matches!(delays[..], [RetryDelay::Millis(1000)]));
}

#[test]
fn zero_iteration_budget_ends_at_once() {
    let mut core = AgentCore::new("test-model".to_string(), true);
    core.set_max_iterations(0);
    let (err, _) = run(&mut core, "go", vec![], None);
    assert!(matches!(err.unwrap_err(), AgentError::MaxIterationsReached(0)));
    assert_eq!(core.context().len(), 1);
}

#[test]
fn user_message_and_answer_are_recorded() {
    let mut core = AgentCore::new("test-model".to_string(), true);
    let (answer, _) = run(&mut core, "hello", vec![Ok(assistant_text("hi"))], None);
    assert_eq!(answer.unwrap(), "hi");
    let messages = core.context().messages();
    assert_eq!(messages.len(), 2);
    assert_eq!(messages[0].role, Role::User);
    assert_eq!(messages[0].content.as_deref(), Some("hello"));
    assert_eq!(messages[1].role, Role::Assistant);
}

#[test]
fn failing_tool_is_reported_as_error_reply() {
    let mut core = agent_with_echo(false);
    let (answer, _) = run(
        &mut core,
        "go",
        vec![Ok(assistant_tool_call("call_1", "echo", json("{}"))), Ok(assistant_text("done"))],
        None,
    );
    assert_eq!(answer.unwrap(), "done");
    let tool_msg = first_tool_message(&core);
    assert_eq!(tool_msg.content.as_deref(), Some("error: invalid arguments: missing 'text'"));
}

#[test]
fn agent_error_messages() {
    assert_eq!(AgentError::NoProvider.message(), "no API key configured for this provider");
    assert_eq!(
        AgentError::MaxIterationsReached(10).message(),
        "max iterations (10) reached without a final answer"
    );
    assert_eq!(AgentError::Provider(ProviderError::Auth).message(), "provider error: authentication failed");
    assert_eq!(
        AgentError::Tool(ToolError::Denied("no".to_string())).message(),
        "tool error: denied: no"
    );
}

#[test]
fn model_can_be_changed() {
    let mut core = AgentCore::new("a".to_string(), true);
    assert_eq!(core.model(), "a");
    core.set_model("b".to_string());
    assert_eq!(core.model(), "b");
}

#[test]
fn refused_and_missing_calls_are_answered_before_executed_ones() {
    let mut core = agent_with_echo(false);
    let two_calls = ChatResponse {
        message: Message {
            role: Role::Assistant,
            content: None,
            tool_calls: vec![
                ToolCall {
                    id: "call_a".to_string(),
                    name: "echo".to_string(),
                    arguments: json(r#"{"text": "a"}"#),
                    provider_metadata: None,
                },
                ToolCall {
                    id: "call_b".to_string(),
                    name: "nope".to_string(),
                    arguments: json("{}"),
                    provider_metadata: None,
                },
            ],
            tool_call_id: None,
        },
        finish_reason: FinishReason::ToolCalls,
    };
    let (answer, _) = run(&mut core, "go", vec![Ok(two_calls), Ok(assistant_text("done"))], None);
    assert_eq!(answer.unwrap(), "done");
    let replies: Vec<(String, String)> = core
        .context()
        .messages()
        .iter()
        .filter(|m| m.role == Role::Tool)
        .map(|m| (m.tool_call_id.clone().unwrap(), m.content.clone().unwrap()))
        .collect();
    assert_eq!(
        replies,
        vec![
            ("call_b".to_string(), "error: tool not found: nope".to_string()),
            ("call_a".to_string(), "echoed: a".to_string()),
        ]
    );
}

#[test]
fn earlier_messages_are_kept_as_the_conversation_grows() {
    let mut core = agent_with_echo(false);
    let (first, _) = run(&mut core, "one", vec![Ok(assistant_text("a"))], None);
    assert_eq!(first.unwrap(), "a");
    let before: Vec<Option<String>> = core.context().messages().iter().map(|m| m.content.clone()).collect();
    let (second, _) = run(
        &mut core,
        "two",
        vec![Ok(assistant_tool_call("call_1", "echo", json(r#"{"text": "x"}"#))), Ok(assistant_text("b"))],
        None,
    );
    assert_eq!(second.unwrap(), "b");
    let after: Vec<Option<String>> = core.context().messages().iter().map(|m| m.content.clone()).collect();
    assert_eq!(&after[..before.len()], &before[..]);
    assert_eq!(after.len(), before.len() + 4);
}

#[test]
fn every_call_of_every_assistant_message_is_answered_right_after_it() {
    let mut core = agent_with_echo(true);
    let two = |a: &str, b: &str| ChatResponse {
        message: Message {
            role: Role::Assistant,
            content: None,
            tool_calls: vec![
                ToolCall { id: a.to_string(), name: "echo".to_string(), arguments: json(r#"{"text": "x"}"#), provider_metadata: None },
                ToolCall { id: b.to_string(), name: "nope".to_string(), arguments: json("{}"), provider_metadata: None },
            ],
            tool_call_id: None,
        },
        finish_reason: FinishReason::ToolCalls,
    };
    let (answer, _) = run(
        &mut core,
        "go",
        vec![Ok(two("c1", "c2")), Ok(two("c3", "c4")), Ok(assistant_text("done"))],
        Some(true),
    );
    assert_eq!(answer.unwrap(), "done");
    let ms = core.context().messages();
    for (i, m) in ms.iter().enumerate() {
        if m.role != Role::Assistant {
            continue;
        }
        let n = m.tool_calls.len();
        let mut ids: Vec<&str> = ms[i + 1..=i + n].iter().map(|r| r.tool_call_id.as_deref().unwrap()).collect();
        ids.sort();
        let mut want: Vec<&str> = m.tool_calls.iter().map(|c| c.id.as_str()).collect();
        want.sort();
        assert_eq!(ids, want);
        assert!(ms[i + 1..=i + n].iter().all(|r| r.role == Role::Tool));
    }
    let replies = ms.iter().filter(|m| m.role == Role::Tool).count();
    let calls: usize = ms.iter().filter(|m| m.role == Role::Assistant).map(|m| m.tool_calls.len()).sum();
    assert_eq!(replies, calls);
}
