//! The provider-neutral conversation model: roles, messages, tool calls,
//! requests and responses exchanged with a language model.
use vstd::prelude::*;

verus! {

/// A JSON document, carried through the library untouched.
#[verifier::external_type_specification]
#[verifier::external_body]
pub struct ExJsonValue(serde_json::Value);

/// `serde_json::Value::clone` (derived by serde_json): the copy is the same
/// JSON document as the one cloned.
pub assume_specification[ <serde_json::Value as Clone>::clone ](v: &serde_json::Value) -> (r:
    serde_json::Value)
    ensures
        r == *v,
;

/// Who authored a message.
#[derive(Debug, Clone, Copy, PartialEq, Eq, Structural)]
pub enum Role {
    System,
    User,
    Assistant,
    Tool,
}

/// A model's request to run one tool.
#[derive(Debug, Clone, PartialEq)]
pub struct ToolCall {
    pub id: String,
    pub name: String,
    pub arguments: serde_json::Value,
    /// Opaque data a provider needs echoed back with the call (e.g. a
    /// signature); `None` for providers that need nothing.
    pub provider_metadata: Option<String>,
}

/// One turn of a conversation.
#[derive(Debug, Clone)]
pub struct Message {
    pub role: Role,
    pub content: Option<String>,
    pub tool_calls: Vec<ToolCall>,
    /// Set only on `Role::Tool` replies: the call being answered.
    pub tool_call_id: Option<String>,
}

/// A tool advertised to the model.
#[derive(Debug, Clone)]
pub struct ToolDefinition {
    pub name: String,
    pub description: String,
    pub parameters: serde_json::Value,
}

/// What is sent to a provider for one completion.
#[derive(Debug, Clone)]
pub struct ChatRequest {
    pub messages: Vec<Message>,
    pub tools: Vec<ToolDefinition>,
    pub model: String,
}

/// Why the model stopped generating.
#[derive(Debug, Clone, Copy, PartialEq, Eq, Structural)]
pub enum FinishReason {
    Stop,
    ToolCalls,
    Length,
}

/// A complete (non-streamed) completion.
#[derive(Debug, Clone)]
pub struct ChatResponse {
    pub message: Message,
    pub finish_reason: FinishReason,
}

/// One increment of a streamed completion.
#[derive(Debug, Clone)]
pub struct StreamChunk {
    pub delta: Option<String>,
    pub tool_call_delta: Option<ToolCall>,
    pub finish_reason: Option<FinishReason>,
}

/// Failures reported by a provider, kept apart so the agent can decide
/// whether to retry.
#[derive(Debug)]
pub enum ProviderError {
    RateLimited { retry_after: Option<std::time::Duration> },
    Auth,
    Network(String),
    Parse(String),
    Other(String),
}

/// The text a user sees for a provider error.
pub open spec fn provider_error_text(e: ProviderError) -> Seq<char> {
    match e {
        ProviderError::RateLimited { .. } => "rate limited by provider"@,
        ProviderError::Auth => "authentication failed"@,
        ProviderError::Network(m) => "network error: "@ + m@,
        ProviderError::Parse(m) => "failed to parse provider response: "@ + m@,
        ProviderError::Other(m) => m@,
    }
}

/// A message whose view is `role`, `content`, no tool calls and no call id.
pub open spec fn is_plain_message(m: Message, role: Role, content: Seq<char>) -> bool {
    &&& m.role == role
    &&& m.content is Some
    &&& m.content->0@ == content
    &&& m.tool_calls@.len() == 0
    &&& m.tool_call_id is None
}

/// A `Role::Tool` message answering call `id` with `content`.
pub open spec fn is_tool_reply(m: Message, id: Seq<char>, content: Seq<char>) -> bool {
    &&& m.role == Role::Tool
    &&& m.content is Some
    &&& m.content->0@ == content
    &&& m.tool_calls@.len() == 0
    &&& m.tool_call_id is Some
    &&& m.tool_call_id->0@ == id
}

impl ProviderError {
    /// The text a user sees for this error.
    pub fn message(&self) -> (r: String)
        ensures
            r@ == provider_error_text(*self),
    {
        let mut s = String::new();
        match self {
            ProviderError::RateLimited { .. } => {
                crate::text::push_str(&mut s, "rate limited by provider");
            },
            ProviderError::Auth => {
                crate::text::push_str(&mut s, "authentication failed");
            },
            ProviderError::Network(m) => {
                crate::text::push_str(&mut s, "network error: ");
                crate::text::push_str(&mut s, m.as_str());
            },
            ProviderError::Parse(m) => {
                crate::text::push_str(&mut s, "failed to parse provider response: ");
                crate::text::push_str(&mut s, m.as_str());
            },
            ProviderError::Other(m) => {
                crate::text::push_str(&mut s, m.as_str());
            },
        }
        s
    }
}

impl Message {
    /// A message with the given role and text, no tool calls and no call id.
    pub fn text(role: Role, content: String) -> (m: Message)
        ensures
            is_plain_message(m, role, content@),
    {
        Message { role, content: Some(content), tool_calls: Vec::new(), tool_call_id: None }
    }

    /// A tool reply answering call `id` with `content`.
    pub fn tool_reply(id: String, content: String) -> (m: Message)
        ensures
            is_tool_reply(m, id@, content@),
    {
        Message {
            role: Role::Tool,
            content: Some(content),
            tool_calls: Vec::new(),
            tool_call_id: Some(id),
        }
    }
}

} // verus!
