//! The Groq (OpenAI-compatible) wire format: request bodies, responses and
//! stream chunks.
use vstd::prelude::*;
use crate::gemini::opt_view;
use crate::message::{
    ChatRequest, ChatResponse, FinishReason, Message, ProviderError, Role, StreamChunk, ToolCall,
    ToolDefinition,
};
use crate::ollama::tool_call_view;
use crate::text::push_str;

verus! {

/// The error type of `serde_json::from_str`.
#[verifier::external_type_specification]
#[verifier::external_body]
pub struct ExJsonError(serde_json::Error);

/// Whether `serde_json::from_str::<serde_json::Value>` accepts `text`.
pub uninterp spec fn json_parses(text: Seq<char>) -> bool;

/// The document `serde_json::from_str::<serde_json::Value>` reads from `text`.
pub uninterp spec fn json_document(text: Seq<char>) -> serde_json::Value;

/// The compact JSON text of a document, as `serde_json::Value`'s `Display`
/// writes it.
pub uninterp spec fn json_text_of(v: serde_json::Value) -> Seq<char>;

/// The JSON string document holding the characters `s`.
pub uninterp spec fn json_string_of(s: Seq<char>) -> serde_json::Value;

/// Serializes a JSON document with `serde_json::Value`'s `Display` (the
/// compact JSON text); the text is named `json_text_of(v)`. That
/// `serde_json::from_str` reads the text back as the same document is not
/// stated: it fails beyond its nesting limit, and by default it may parse a
/// float back one unit off in the last place.
#[verifier::external_body]
fn json_text(v: &serde_json::Value) -> (r: String)
    ensures
        r@ == json_text_of(*v),
{
    v.to_string()
}

/// Parses JSON text with `serde_json::from_str`: it succeeds exactly when
/// `json_parses(text)`, and the document read is named `json_document(text)`.
#[verifier::external_body]
fn json_parse(text: &str) -> (r: Result<serde_json::Value, serde_json::Error>)
    ensures
        r is Ok <==> json_parses(text@),
        r matches Ok(v) ==> v == json_document(text@),
{
    serde_json::from_str(text)
}

/// The JSON string holding `s` (`serde_json::Value::String`), named
/// `json_string_of(s)`.
#[verifier::external_body]
fn json_string(s: String) -> (r: serde_json::Value)
    ensures
        r == json_string_of(s@),
{
    serde_json::Value::String(s)
}

/// The arguments a wire call's JSON text stands for: the document it holds,
/// or, when it holds none, the JSON string of the text itself.
pub open spec fn arguments_from_text(text: Seq<char>) -> serde_json::Value {
    if json_parses(text) {
        json_document(text)
    } else {
        json_string_of(text)
    }
}

/// A function call on the wire; its arguments travel as JSON text.
#[derive(Debug, Clone)]
pub struct GroqFunctionCall {
    pub name: String,
    pub arguments: String,
}

/// A tool call on the wire; its kind is `function`.
#[derive(Debug, Clone)]
pub struct GroqToolCall {
    pub id: String,
    pub kind: String,
    pub function: GroqFunctionCall,
}

/// A message of a request.
#[derive(Debug, Clone)]
pub struct GroqMessage {
    pub role: Role,
    pub content: Option<String>,
    pub tool_calls: Vec<GroqToolCall>,
    pub tool_call_id: Option<String>,
}

/// A function the model may call.
#[derive(Debug, Clone)]
pub struct GroqFunctionDef {
    pub name: String,
    pub description: String,
    pub parameters: serde_json::Value,
}

/// A tool offered with a request; its kind is `function`.
#[derive(Debug, Clone)]
pub struct GroqTool {
    pub kind: String,
    pub function: GroqFunctionDef,
}

/// A `/chat/completions` request body.
#[derive(Debug, Clone)]
pub struct GroqRequest {
    pub model: String,
    pub messages: Vec<GroqMessage>,
    pub tools: Vec<GroqTool>,
    pub stream: bool,
}

/// Why the model stopped, on the wire.
#[derive(Debug, Clone, Copy, PartialEq, Eq, Structural)]
pub enum GroqFinishReason {
    Stop,
    ToolCalls,
    Length,
    Other,
}

/// The message of a response choice.
#[derive(Debug, Clone)]
pub struct GroqResponseMessage {
    pub role: Role,
    pub content: Option<String>,
    pub tool_calls: Vec<GroqToolCall>,
}

/// One choice of a response.
#[derive(Debug, Clone)]
pub struct GroqChoice {
    pub message: GroqResponseMessage,
    pub finish_reason: GroqFinishReason,
}

/// A `/chat/completions` response body.
#[derive(Debug, Clone)]
pub struct GroqResponse {
    pub choices: Vec<GroqChoice>,
}

/// A streamed fragment of a function call.
#[derive(Debug, Clone)]
pub struct GroqFunctionCallDelta {
    pub name: Option<String>,
    pub arguments: String,
}

/// A streamed fragment of a tool call.
#[derive(Debug, Clone)]
pub struct GroqToolCallDelta {
    pub id: Option<String>,
    pub function: GroqFunctionCallDelta,
}

/// The increment of a streamed choice.
#[derive(Debug, Clone)]
pub struct GroqStreamDelta {
    pub content: Option<String>,
    pub tool_calls: Vec<GroqToolCallDelta>,
}

/// One streamed choice.
#[derive(Debug, Clone)]
pub struct GroqStreamChoice {
    pub delta: GroqStreamDelta,
    pub finish_reason: Option<GroqFinishReason>,
}

/// One server-sent chunk of a streamed response.
#[derive(Debug, Clone)]
pub struct GroqStreamChunk {
    pub choices: Vec<GroqStreamChoice>,
}

/// What the wire's finish reason means here: unknown reasons count as the
/// model running out of room.
pub open spec fn finish_from_groq(r: GroqFinishReason) -> FinishReason {
    match r {
        GroqFinishReason::Stop => FinishReason::Stop,
        GroqFinishReason::ToolCalls => FinishReason::ToolCalls,
        _ => FinishReason::Length,
    }
}

/// What the wire's finish reason means here.
pub fn finish_reason_of(r: GroqFinishReason) -> (f: FinishReason)
    ensures
        f == finish_from_groq(r),
{
    match r {
        GroqFinishReason::Stop => FinishReason::Stop,
        GroqFinishReason::ToolCalls => FinishReason::ToolCalls,
        GroqFinishReason::Length | GroqFinishReason::Other => FinishReason::Length,
    }
}

/// The id and name of a wire tool call, and whether its kind is `function`.
pub open spec fn wire_call_names(c: GroqToolCall) -> (Seq<char>, Seq<char>, Seq<char>, Seq<char>) {
    (c.id@, c.kind@, c.function.name@, c.function.arguments@)
}

/// The id and name a tool call takes on the wire, with kind `function`.
pub open spec fn call_names_to_wire(tc: ToolCall) -> (Seq<char>, Seq<char>, Seq<char>, Seq<char>) {
    (tc.id@, "function"@, tc.name@, json_text_of(tc.arguments))
}

/// The id, name, arguments and provider data of a tool call.
pub open spec fn call_meaning(tc: ToolCall) -> (Seq<char>, Seq<char>, serde_json::Value, Option<Seq<char>>) {
    (tc.id@, tc.name@, tc.arguments, opt_view(tc.provider_metadata))
}

/// The tool call a wire call stands for: its id and name, the arguments its
/// JSON text holds, and no provider data.
pub open spec fn wire_call_meaning(c: GroqToolCall) -> (Seq<char>, Seq<char>, serde_json::Value, Option<Seq<char>>) {
    (c.id@, c.function.name@, arguments_from_text(c.function.arguments@), None)
}

/// The tool calls read from a Groq reply are the wire calls in order, each
/// keeping the id Groq gave it (so a tool reply can name it), its function's
/// name, the arguments its JSON text holds, and no provider data.
pub proof fn law_read_calls_keep_wire_ids(ts: Seq<ToolCall>, ws: Seq<GroqToolCall>)
    requires
        ts.map_values(|tc: ToolCall| call_meaning(tc)) == ws.map_values(|c: GroqToolCall| wire_call_meaning(c)),
    ensures
        ts.len() == ws.len(),
        forall|i: int|
            0 <= i < ts.len() ==> {
                &&& #[trigger] ts[i].id@ == ws[i].id@
                &&& ts[i].name@ == ws[i].function.name@
                &&& ts[i].arguments == arguments_from_text(ws[i].function.arguments@)
                &&& ts[i].provider_metadata is None
            },
{
    assert(ts.map_values(|tc: ToolCall| call_meaning(tc)).len() == ts.len());
    assert forall|i: int| 0 <= i < ts.len() implies {
        &&& #[trigger] ts[i].id@ == ws[i].id@
        &&& ts[i].name@ == ws[i].function.name@
        &&& ts[i].arguments == arguments_from_text(ws[i].function.arguments@)
        &&& ts[i].provider_metadata is None
    } by {
        assert(ts.map_values(|tc: ToolCall| call_meaning(tc))[i] == call_meaning(ts[i]));
        assert(ws.map_values(|c: GroqToolCall| wire_call_meaning(c))[i] == wire_call_meaning(ws[i]));
    }
}

/// The wire calls sent to Groq are the tool calls in order, each with its
/// id, kind `function`, its name and its arguments as JSON text.
pub proof fn law_sent_calls_keep_ids(ws: Seq<GroqToolCall>, ts: Seq<ToolCall>)
    requires
        ws.map_values(|c: GroqToolCall| wire_call_names(c)) == ts.map_values(|tc: ToolCall| call_names_to_wire(tc)),
    ensures
        ws.len() == ts.len(),
        forall|i: int|
            #![trigger ws[i]]
            0 <= i < ws.len() ==> ws[i].id@ == ts[i].id@ && ws[i].kind@ == "function"@
                && ws[i].function.name@ == ts[i].name@ && ws[i].function.arguments@ == json_text_of(
                ts[i].arguments,
            ),
{
    assert(ws.map_values(|c: GroqToolCall| wire_call_names(c)).len() == ws.len());
    assert(ts.map_values(|tc: ToolCall| call_names_to_wire(tc)).len() == ts.len());
    assert forall|i: int| #![trigger ws[i]] 0 <= i < ws.len() implies ws[i].id@ == ts[i].id@ && ws[i].kind@
        == "function"@ && ws[i].function.name@ == ts[i].name@ && ws[i].function.arguments@
        == json_text_of(ts[i].arguments) by {
        assert(ws.map_values(|c: GroqToolCall| wire_call_names(c))[i] == wire_call_names(ws[i]));
        assert(ts.map_values(|tc: ToolCall| call_names_to_wire(tc))[i] == call_names_to_wire(ts[i]));
    }
}

impl GroqToolCall {
    /// The wire form of a tool call: its arguments as JSON text.
    pub fn from_tool_call(tc: &ToolCall) -> (r: Self)
        ensures
            wire_call_names(r) == call_names_to_wire(*tc),
    {
        let mut kind = String::new();
        push_str(&mut kind, "function");
        GroqToolCall {
            id: tc.id.clone(),
            kind,
            function: GroqFunctionCall { name: tc.name.clone(), arguments: json_text(&tc.arguments) },
        }
    }

    /// The tool call a wire call stands for. Arguments that are not JSON are
    /// kept as a JSON string holding their text.
    pub fn into_tool_call(self) -> (r: ToolCall)
        ensures
            r.id@ == self.id@,
            r.name@ == self.function.name@,
            r.arguments == arguments_from_text(self.function.arguments@),
            r.provider_metadata is None,
    {
        let arguments = parse_arguments(self.function.arguments);
        ToolCall { id: self.id, name: self.function.name, arguments, provider_metadata: None }
    }
}

/// Tool-call arguments: the JSON document `text` holds, or, when it holds
/// none, the JSON string of `text` itself.
fn parse_arguments(text: String) -> (r: serde_json::Value)
    ensures
        r == arguments_from_text(text@),
{
    match json_parse(text.as_str()) {
        Ok(v) => v,
        Err(_) => json_string(text),
    }
}

impl GroqMessage {
    /// The wire form of a message.
    pub fn from_message(msg: &Message) -> (r: Self)
        ensures
            r.role == msg.role,
            opt_view(r.content) == opt_view(msg.content),
            opt_view(r.tool_call_id) == opt_view(msg.tool_call_id),
            r.tool_calls@.map_values(|c: GroqToolCall| wire_call_names(c)) == msg.tool_calls@.map_values(
                |tc: ToolCall| call_names_to_wire(tc),
            ),
    {
        let mut calls: Vec<GroqToolCall> = Vec::new();
        let mut k: usize = 0;
        while k < msg.tool_calls.len()
            invariant
                k <= msg.tool_calls@.len(),
                calls@.map_values(|c: GroqToolCall| wire_call_names(c)) == msg.tool_calls@.take(
                    k as int,
                ).map_values(|tc: ToolCall| call_names_to_wire(tc)),
            decreases msg.tool_calls.len() - k,
        {
            let ghost c0 = calls@;
            calls.push(GroqToolCall::from_tool_call(&msg.tool_calls[k]));
            proof {
                let ts = msg.tool_calls@;
                assert(ts.take(k + 1) == ts.take(k as int).push(ts[k as int]));
                assert(calls@.map_values(|c: GroqToolCall| wire_call_names(c)) =~= c0.map_values(
                    |c: GroqToolCall| wire_call_names(c),
                ).push(call_names_to_wire(ts[k as int])));
                assert(ts.take(k + 1).map_values(|tc: ToolCall| call_names_to_wire(tc)) =~= ts.take(
                    k as int,
                ).map_values(|tc: ToolCall| call_names_to_wire(tc)).push(call_names_to_wire(ts[k as int])));
            }
            k = k + 1;
        }
        assert(msg.tool_calls@.take(msg.tool_calls@.len() as int) == msg.tool_calls@);
        GroqMessage {
            role: msg.role,
            content: match &msg.content {
                Some(c) => Some(c.clone()),
                None => None,
            },
            tool_calls: calls,
            tool_call_id: match &msg.tool_call_id {
                Some(c) => Some(c.clone()),
                None => None,
            },
        }
    }
}

/// The abstract value of a wire tool definition.
pub open spec fn groq_tool_view(t: GroqTool) -> (Seq<char>, Seq<char>, Seq<char>, serde_json::Value) {
    (t.kind@, t.function.name@, t.function.description@, t.function.parameters)
}

/// The wire form of a tool definition.
pub open spec fn definition_to_groq(d: ToolDefinition) -> (Seq<char>, Seq<char>, Seq<char>, serde_json::Value) {
    ("function"@, d.name@, d.description@, d.parameters)
}

impl GroqTool {
    /// The wire form of a tool definition.
    pub fn from_definition(def: &ToolDefinition) -> (r: Self)
        ensures
            groq_tool_view(r) == definition_to_groq(*def),
    {
        let mut kind = String::new();
        push_str(&mut kind, "function");
        GroqTool {
            kind,
            function: GroqFunctionDef {
                name: def.name.clone(),
                description: def.description.clone(),
                parameters: def.parameters.clone(),
            },
        }
    }
}

/// The role, content and call id of a wire message.
pub open spec fn groq_message_view(m: GroqMessage) -> (Role, Option<Seq<char>>, Option<Seq<char>>, Seq<(Seq<char>, Seq<char>, Seq<char>, Seq<char>)>) {
    (m.role, opt_view(m.content), opt_view(m.tool_call_id), m.tool_calls@.map_values(|c: GroqToolCall| wire_call_names(c)))
}

/// The wire form of a message.
pub open spec fn message_to_groq(m: Message) -> (Role, Option<Seq<char>>, Option<Seq<char>>, Seq<(Seq<char>, Seq<char>, Seq<char>, Seq<char>)>) {
    (m.role, opt_view(m.content), opt_view(m.tool_call_id), m.tool_calls@.map_values(|tc: ToolCall| call_names_to_wire(tc)))
}

/// Every message goes into a Groq request with its own role, content and
/// call id, whatever its role (a tool reply carries its result and names the
/// call it answers), and with its tool calls in order, each with its id and
/// name.
pub proof fn law_sent_messages_keep_fields(ws: Seq<GroqMessage>, ms: Seq<Message>)
    requires
        ws.map_values(|m: GroqMessage| groq_message_view(m)) == ms.map_values(|m: Message| message_to_groq(m)),
    ensures
        ws.len() == ms.len(),
        forall|i: int|
            #![trigger ws[i]]
            0 <= i < ws.len() ==> ws[i].role == ms[i].role && opt_view(ws[i].content) == opt_view(ms[i].content)
                && opt_view(ws[i].tool_call_id) == opt_view(ms[i].tool_call_id) && ws[i].tool_calls@.len()
                == ms[i].tool_calls@.len() && (forall|j: int|
                #![trigger ws[i].tool_calls@[j]]
                0 <= j < ws[i].tool_calls@.len() ==> ws[i].tool_calls@[j].id@ == ms[i].tool_calls@[j].id@
                    && ws[i].tool_calls@[j].function.name@ == ms[i].tool_calls@[j].name@),
{
    assert(ws.map_values(|m: GroqMessage| groq_message_view(m)).len() == ws.len());
    assert(ms.map_values(|m: Message| message_to_groq(m)).len() == ms.len());
    assert forall|i: int| #![trigger ws[i]] 0 <= i < ws.len() implies ws[i].role == ms[i].role && opt_view(
        ws[i].content,
    ) == opt_view(ms[i].content) && opt_view(ws[i].tool_call_id) == opt_view(ms[i].tool_call_id)
        && ws[i].tool_calls@.len() == ms[i].tool_calls@.len() && (forall|j: int|
        #![trigger ws[i].tool_calls@[j]]
        0 <= j < ws[i].tool_calls@.len() ==> ws[i].tool_calls@[j].id@ == ms[i].tool_calls@[j].id@
            && ws[i].tool_calls@[j].function.name@ == ms[i].tool_calls@[j].name@) by {
        assert(ws.map_values(|m: GroqMessage| groq_message_view(m))[i] == groq_message_view(ws[i]));
        assert(ms.map_values(|m: Message| message_to_groq(m))[i] == message_to_groq(ms[i]));
        law_sent_calls_keep_ids(ws[i].tool_calls@, ms[i].tool_calls@);
    }
}

/// Every tool goes into a Groq request as a `function` with the tool's
/// name, description and parameters, in order.
pub proof fn law_offered_tools_keep_definitions(ws: Seq<GroqTool>, ds: Seq<ToolDefinition>)
    requires
        ws.map_values(|t: GroqTool| groq_tool_view(t)) == ds.map_values(|d: ToolDefinition| definition_to_groq(d)),
    ensures
        ws.len() == ds.len(),
        forall|i: int|
            #![trigger ws[i]]
            0 <= i < ws.len() ==> ws[i].kind@ == "function"@ && ws[i].function.name@ == ds[i].name@
                && ws[i].function.description@ == ds[i].description@ && ws[i].function.parameters
                == ds[i].parameters,
{
    assert(ws.map_values(|t: GroqTool| groq_tool_view(t)).len() == ws.len());
    assert(ds.map_values(|d: ToolDefinition| definition_to_groq(d)).len() == ds.len());
    assert forall|i: int| #![trigger ws[i]] 0 <= i < ws.len() implies ws[i].kind@ == "function"@
        && ws[i].function.name@ == ds[i].name@ && ws[i].function.description@ == ds[i].description@
        && ws[i].function.parameters == ds[i].parameters by {
        assert(ws.map_values(|t: GroqTool| groq_tool_view(t))[i] == groq_tool_view(ws[i]));
        assert(ds.map_values(|d: ToolDefinition| definition_to_groq(d))[i] == definition_to_groq(ds[i]));
    }
}

impl GroqRequest {
    /// The request body for `req`: the model, every message and every tool in
    /// order, and whether to stream.
    pub fn from_chat_request(req: &ChatRequest, stream: bool) -> (r: Self)
        ensures
            r.model@ == req.model@,
            r.stream == stream,
            r.messages@.map_values(|m: GroqMessage| groq_message_view(m)) == req.messages@.map_values(
                |m: Message| message_to_groq(m),
            ),
            r.tools@.map_values(|t: GroqTool| groq_tool_view(t)) == req.tools@.map_values(
                |d: ToolDefinition| definition_to_groq(d),
            ),
    {
        let mut messages: Vec<GroqMessage> = Vec::new();
        let mut k: usize = 0;
        while k < req.messages.len()
            invariant
                k <= req.messages@.len(),
                messages@.map_values(|m: GroqMessage| groq_message_view(m)) == req.messages@.take(
                    k as int,
                ).map_values(|m: Message| message_to_groq(m)),
            decreases req.messages.len() - k,
        {
            let ghost m0 = messages@;
            messages.push(GroqMessage::from_message(&req.messages[k]));
            proof {
                let ms = req.messages@;
                assert(ms.take(k + 1) == ms.take(k as int).push(ms[k as int]));
                assert(messages@.map_values(|m: GroqMessage| groq_message_view(m)) =~= m0.map_values(
                    |m: GroqMessage| groq_message_view(m),
                ).push(message_to_groq(ms[k as int])));
                assert(ms.take(k + 1).map_values(|m: Message| message_to_groq(m)) =~= ms.take(
                    k as int,
                ).map_values(|m: Message| message_to_groq(m)).push(message_to_groq(ms[k as int])));
            }
            k = k + 1;
        }
        assert(req.messages@.take(req.messages@.len() as int) == req.messages@);
        let mut tools: Vec<GroqTool> = Vec::new();
        let mut j: usize = 0;
        while j < req.tools.len()
            invariant
                j <= req.tools@.len(),
                tools@.map_values(|t: GroqTool| groq_tool_view(t)) == req.tools@.take(
                    j as int,
                ).map_values(|d: ToolDefinition| definition_to_groq(d)),
            decreases req.tools.len() - j,
        {
            let ghost t0 = tools@;
            tools.push(GroqTool::from_definition(&req.tools[j]));
            proof {
                let ts = req.tools@;
                assert(ts.take(j + 1) == ts.take(j as int).push(ts[j as int]));
                assert(tools@.map_values(|t: GroqTool| groq_tool_view(t)) =~= t0.map_values(
                    |t: GroqTool| groq_tool_view(t),
                ).push(definition_to_groq(ts[j as int])));
                assert(ts.take(j + 1).map_values(|d: ToolDefinition| definition_to_groq(d)) =~= ts.take(
                    j as int,
                ).map_values(|d: ToolDefinition| definition_to_groq(d)).push(definition_to_groq(ts[j as int])));
            }
            j = j + 1;
        }
        assert(req.tools@.take(req.tools@.len() as int) == req.tools@);
        GroqRequest { model: req.model.clone(), messages, tools, stream }
    }
}

/// The tool calls that wire calls stand for, in order.
fn calls_from_wire(calls: Vec<GroqToolCall>) -> (r: Vec<ToolCall>)
    ensures
        r@.map_values(|tc: ToolCall| call_meaning(tc)) == calls@.map_values(
            |c: GroqToolCall| wire_call_meaning(c),
        ),
{
    let ghost orig = calls@;
    let mut rest = calls;
    let mut r: Vec<ToolCall> = Vec::new();
    while rest.len() > 0
        invariant
            r@.len() + rest@.len() == orig.len(),
            rest@ == orig.skip(r@.len() as int),
            r@.map_values(|tc: ToolCall| call_meaning(tc)) == orig.take(r@.len() as int).map_values(
                |c: GroqToolCall| wire_call_meaning(c),
            ),
        decreases rest.len(),
    {
        let ghost k = r@.len() as int;
        let ghost r0 = r@;
        let c = rest.remove(0);
        assert(c == orig[k]);
        r.push(c.into_tool_call());
        proof {
            assert(orig.take(k + 1) == orig.take(k).push(orig[k]));
            assert(rest@ =~= orig.skip(k + 1));
            assert(r@.map_values(|tc: ToolCall| call_meaning(tc)) =~= r0.map_values(
                |tc: ToolCall| call_meaning(tc),
            ).push(wire_call_meaning(orig[k])));
            assert(orig.take(k + 1).map_values(|c: GroqToolCall| wire_call_meaning(c)) =~= orig.take(
                k,
            ).map_values(|c: GroqToolCall| wire_call_meaning(c)).push(wire_call_meaning(orig[k])));
        }
    }
    assert(orig.take(orig.len() as int) == orig);
    r
}

impl GroqResponseMessage {
    /// The message a response choice carries (never a tool reply).
    pub fn into_message(self) -> (r: Message)
        ensures
            r.role == self.role,
            opt_view(r.content) == opt_view(self.content),
            r.tool_call_id is None,
            r.tool_calls@.map_values(|tc: ToolCall| call_meaning(tc)) == self.tool_calls@.map_values(
                |c: GroqToolCall| wire_call_meaning(c),
            ),
    {
        Message {
            role: self.role,
            content: self.content,
            tool_calls: calls_from_wire(self.tool_calls),
            tool_call_id: None,
        }
    }
}

impl GroqResponse {
    /// The response the first choice makes; a response without choices is a
    /// parse error.
    pub fn into_chat_response(self) -> (r: Result<ChatResponse, ProviderError>)
        ensures
            self.choices@.len() == 0 ==> (r matches Err(ProviderError::Parse(m)) && m@
                == "no choices in response"@),
            self.choices@.len() > 0 ==> (r matches Ok(resp) && resp.finish_reason == finish_from_groq(
                self.choices@[0].finish_reason,
            ) && resp.message.role == self.choices@[0].message.role && opt_view(resp.message.content)
                == opt_view(self.choices@[0].message.content) && resp.message.tool_call_id is None
                && resp.message.tool_calls@.map_values(|tc: ToolCall| call_meaning(tc))
                == self.choices@[0].message.tool_calls@.map_values(
                |c: GroqToolCall| wire_call_meaning(c),
            )),
    {
        let mut me = self;
        if me.choices.len() == 0 {
            let mut m = String::new();
            push_str(&mut m, "no choices in response");
            return Err(ProviderError::Parse(m));
        }
        let choice = me.choices.remove(0);
        let finish_reason = finish_reason_of(choice.finish_reason);
        Ok(ChatResponse { message: choice.message.into_message(), finish_reason })
    }
}

impl GroqStreamChunk {
    /// The chunk as a stream increment, from its first choice: the text, the
    /// first tool-call fragment (missing id and name become empty) and the
    /// finish reason; an empty increment when there is no choice.
    pub fn into_stream_chunk(self) -> (r: StreamChunk)
        ensures
            self.choices@.len() == 0 ==> r.delta is None && r.tool_call_delta is None
                && r.finish_reason is None,
            self.choices@.len() > 0 ==> {
                let c = self.choices@[0];
                &&& opt_view(r.delta) == opt_view(c.delta.content)
                &&& r.finish_reason == match c.finish_reason {
                    Some(f) => Some(finish_from_groq(f)),
                    None => None,
                }
                &&& c.delta.tool_calls@.len() == 0 ==> r.tool_call_delta is None
                &&& c.delta.tool_calls@.len() > 0 ==> (r.tool_call_delta matches Some(tc) && tc.id@
                    == match c.delta.tool_calls@[0].id {
                    Some(i) => i@,
                    None => Seq::empty(),
                } && tc.name@ == match c.delta.tool_calls@[0].function.name {
                    Some(n) => n@,
                    None => Seq::empty(),
} && tc.arguments == arguments_from_text(c.delta.tool_calls@[0].function.arguments@)
                    && tc.provider_metadata is None)
            },
    {
        let mut me = self;
        if me.choices.len() == 0 {
            return StreamChunk { delta: None, tool_call_delta: None, finish_reason: None };
        }
        let choice = me.choices.remove(0);
        let GroqStreamChoice { delta, finish_reason } = choice;
        let GroqStreamDelta { content, tool_calls } = delta;
        let mut tool_calls = tool_calls;
        let tool_call_delta = if tool_calls.len() > 0 {
            let tc = tool_calls.remove(0);
            let id = match tc.id {
                Some(i) => i,
                None => String::new(),
            };
            let name = match tc.function.name {
                Some(n) => n,
                None => String::new(),
            };
            Some(
                ToolCall {
                    id,
                    name,
                    arguments: parse_arguments(tc.function.arguments),
                    provider_metadata: None,
                },
            )
        } else {
            None
        };
        let finish = match finish_reason {
            Some(f) => Some(finish_reason_of(f)),
            None => None,
        };
        StreamChunk { delta: content, tool_call_delta, finish_reason: finish }
    }
}

} // verus!
