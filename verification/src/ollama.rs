//! The Ollama wire format: request bodies and the chunks of `/api/chat`.
use vstd::prelude::*;
use crate::message::{
    ChatRequest, ChatResponse, FinishReason, Message, Role, StreamChunk, ToolCall, ToolDefinition,
};
use crate::gemini::opt_view;
use crate::text::{push_str, str_eq};

verus! {

/// A function call on the wire.
#[derive(Debug, Clone)]
pub struct OllamaFunctionCall {
    pub name: String,
    pub arguments: serde_json::Value,
}

/// A tool call on the wire; Ollama may leave out the id.
#[derive(Debug, Clone)]
pub struct OllamaToolCall {
    pub id: Option<String>,
    pub function: OllamaFunctionCall,
}

/// A message of a request.
#[derive(Debug, Clone)]
pub struct OllamaMessage {
    pub role: Role,
    pub content: Option<String>,
    pub tool_calls: Vec<OllamaToolCall>,
}

/// A function the model may call.
#[derive(Debug, Clone)]
pub struct OllamaFunctionDef {
    pub name: String,
    pub description: String,
    pub parameters: serde_json::Value,
}

/// A tool offered with a request; its kind is always `function`.
#[derive(Debug, Clone)]
pub struct OllamaTool {
    pub kind: String,
    pub function: OllamaFunctionDef,
}

/// A `/api/chat` request body.
#[derive(Debug, Clone)]
pub struct OllamaRequest {
    pub model: String,
    pub messages: Vec<OllamaMessage>,
    pub tools: Vec<OllamaTool>,
    pub stream: bool,
}

/// The message of a reply chunk.
#[derive(Debug, Clone)]
pub struct OllamaResponseMessage {
    pub role: Role,
    pub content: Option<String>,
    pub tool_calls: Vec<OllamaToolCall>,
}

/// One chunk of a `/api/chat` reply (the whole reply when not streaming).
#[derive(Debug, Clone)]
pub struct OllamaChatChunk {
    pub message: Option<OllamaResponseMessage>,
    pub done: bool,
    pub done_reason: Option<String>,
}

/// The abstract value of a wire tool call.
pub open spec fn wire_call_view(c: OllamaToolCall) -> (Option<Seq<char>>, Seq<char>, serde_json::Value) {
    (opt_view(c.id), c.function.name@, c.function.arguments)
}

/// The wire form of a tool call.
pub open spec fn call_to_wire(tc: ToolCall) -> (Option<Seq<char>>, Seq<char>, serde_json::Value) {
    (Some(tc.id@), tc.name@, tc.arguments)
}

/// The abstract value of a tool call, as read back from the wire.
pub open spec fn call_from_wire(c: OllamaToolCall) -> (Seq<char>, Seq<char>, serde_json::Value, Option<Seq<char>>) {
    (
        match c.id {
            Some(i) => i@,
            None => Seq::empty(),
        },
        c.function.name@,
        c.function.arguments,
        None,
    )
}

/// The abstract value of a tool call.
pub open spec fn tool_call_view(tc: ToolCall) -> (Seq<char>, Seq<char>, serde_json::Value, Option<Seq<char>>) {
    (tc.id@, tc.name@, tc.arguments, opt_view(tc.provider_metadata))
}

/// When a chunk finishes the reply, and why: not before `done`; a reply
/// asking for tools finishes with `ToolCalls`; `length` means the model ran
/// out of tokens; anything else is a stop.
pub open spec fn ollama_finish(c: OllamaChatChunk) -> Option<FinishReason> {
    if !c.done {
        None
    } else if c.message matches Some(m) && m.tool_calls@.len() > 0 {
        Some(FinishReason::ToolCalls)
    } else if c.done_reason matches Some(r) && r@ == "length"@ {
        Some(FinishReason::Length)
    } else {
        Some(FinishReason::Stop)
    }
}

impl OllamaToolCall {
    /// The wire form of a tool call. Read back, it is the same call
    /// (provider data aside, which Ollama does not carry).
    pub fn from_tool_call(tc: &ToolCall) -> (r: Self)
        ensures
            wire_call_view(r) == call_to_wire(*tc),
            tc.provider_metadata is None ==> call_from_wire(r) == tool_call_view(*tc),
    {
        OllamaToolCall {
            id: Some(tc.id.clone()),
            function: OllamaFunctionCall { name: tc.name.clone(), arguments: tc.arguments.clone() },
        }
    }

    /// The tool call a wire call stands for; a missing id becomes empty.
    pub fn into_tool_call(self) -> (r: ToolCall)
        ensures
            tool_call_view(r) == call_from_wire(self),
    {
        let id = match self.id {
            Some(i) => i,
            None => String::new(),
        };
        ToolCall {
            id,
            name: self.function.name,
            arguments: self.function.arguments,
            provider_metadata: None,
        }
    }
}

/// The wire forms of `calls`, in order.
fn calls_to_wire(calls: &Vec<ToolCall>) -> (r: Vec<OllamaToolCall>)
    ensures
        r@.map_values(|c: OllamaToolCall| wire_call_view(c)) == calls@.map_values(
            |tc: ToolCall| call_to_wire(tc),
        ),
{
    let mut r: Vec<OllamaToolCall> = Vec::new();
    let mut k: usize = 0;
    while k < calls.len()
        invariant
            k <= calls@.len(),
            r@.map_values(|c: OllamaToolCall| wire_call_view(c)) == calls@.take(k as int).map_values(
                |tc: ToolCall| call_to_wire(tc),
            ),
        decreases calls.len() - k,
    {
        let ghost r0 = r@;
        r.push(OllamaToolCall::from_tool_call(&calls[k]));
        proof {
            assert(calls@.take(k + 1) == calls@.take(k as int).push(calls@[k as int]));
            assert(r@.map_values(|c: OllamaToolCall| wire_call_view(c)) =~= r0.map_values(
                |c: OllamaToolCall| wire_call_view(c),
            ).push(call_to_wire(calls@[k as int])));
            assert(calls@.take(k + 1).map_values(|tc: ToolCall| call_to_wire(tc)) =~= calls@.take(
                k as int,
            ).map_values(|tc: ToolCall| call_to_wire(tc)).push(call_to_wire(calls@[k as int])));
        }
        k = k + 1;
    }
    assert(calls@.take(calls@.len() as int) == calls@);
    r
}

/// The tool calls that wire calls stand for, in order.
fn calls_from_wire(calls: Vec<OllamaToolCall>) -> (r: Vec<ToolCall>)
    ensures
        r@.map_values(|tc: ToolCall| tool_call_view(tc)) == calls@.map_values(
            |c: OllamaToolCall| call_from_wire(c),
        ),
{
    let ghost orig = calls@;
    let mut rest = calls;
    let mut r: Vec<ToolCall> = Vec::new();
    while rest.len() > 0
        invariant
            r@.len() + rest@.len() == orig.len(),
            rest@ == orig.skip(r@.len() as int),
            r@.map_values(|tc: ToolCall| tool_call_view(tc)) == orig.take(r@.len() as int).map_values(
                |c: OllamaToolCall| call_from_wire(c),
            ),
        decreases rest.len(),
    {
        let ghost k = r@.len() as int;
        let ghost r0 = r@;
        let c = rest.remove(0);
        assert(c == orig[k]);
        r.push(c.into_tool_call());
        proof {
            assert(orig.take(k + 1) == orig.take(k).push(orig[k]));
            assert(rest@ =~= orig.skip(k + 1));
            assert(r@.map_values(|tc: ToolCall| tool_call_view(tc)) =~= r0.map_values(
                |tc: ToolCall| tool_call_view(tc),
            ).push(call_from_wire(orig[k])));
            assert(orig.take(k + 1).map_values(|c: OllamaToolCall| call_from_wire(c)) =~= orig.take(
                k,
            ).map_values(|c: OllamaToolCall| call_from_wire(c)).push(call_from_wire(orig[k])));
        }
    }
    assert(orig.take(orig.len() as int) == orig);
    r
}

impl OllamaMessage {
    /// The wire form of a message (the call id of a tool reply is not sent).
    pub fn from_message(msg: &Message) -> (r: Self)
        ensures
            r.role == msg.role,
            opt_view(r.content) == opt_view(msg.content),
            r.tool_calls@.map_values(|c: OllamaToolCall| wire_call_view(c)) == msg.tool_calls@.map_values(
                |tc: ToolCall| call_to_wire(tc),
            ),
    {
        OllamaMessage {
            role: msg.role,
            content: match &msg.content {
                Some(c) => Some(c.clone()),
                None => None,
            },
            tool_calls: calls_to_wire(&msg.tool_calls),
        }
    }
}

/// The abstract value of a wire tool definition.
pub open spec fn wire_tool_view(t: OllamaTool) -> (Seq<char>, Seq<char>, Seq<char>, serde_json::Value) {
    (t.kind@, t.function.name@, t.function.description@, t.function.parameters)
}

/// The wire form of a tool definition.
pub open spec fn tool_to_wire(d: ToolDefinition) -> (Seq<char>, Seq<char>, Seq<char>, serde_json::Value) {
    ("function"@, d.name@, d.description@, d.parameters)
}

impl OllamaTool {
    /// The wire form of a tool definition.
    pub fn from_definition(def: &ToolDefinition) -> (r: Self)
        ensures
            wire_tool_view(r) == tool_to_wire(*def),
    {
        let mut kind = String::new();
        push_str(&mut kind, "function");
        OllamaTool {
            kind,
            function: OllamaFunctionDef {
                name: def.name.clone(),
                description: def.description.clone(),
                parameters: def.parameters.clone(),
            },
        }
    }
}

/// The abstract value of a wire message.
pub open spec fn wire_message_view(m: OllamaMessage) -> (Role, Option<Seq<char>>, Seq<(Option<Seq<char>>, Seq<char>, serde_json::Value)>) {
    (m.role, opt_view(m.content), m.tool_calls@.map_values(|c: OllamaToolCall| wire_call_view(c)))
}

/// The wire form of a message.
pub open spec fn message_to_wire(m: Message) -> (Role, Option<Seq<char>>, Seq<(Option<Seq<char>>, Seq<char>, serde_json::Value)>) {
    (m.role, opt_view(m.content), m.tool_calls@.map_values(|tc: ToolCall| call_to_wire(tc)))
}

/// Every message goes into an Ollama request with its own role and content,
/// whatever its role (a tool reply carries its result), and with its tool
/// calls in order, each with its id, name and arguments.
pub proof fn law_sent_messages_keep_role_and_content(ws: Seq<OllamaMessage>, ms: Seq<Message>)
    requires
        ws.map_values(|m: OllamaMessage| wire_message_view(m)) == ms.map_values(|m: Message| message_to_wire(m)),
    ensures
        ws.len() == ms.len(),
        forall|i: int|
            0 <= i < ws.len() ==> {
                &&& #[trigger] ws[i].role == ms[i].role
                &&& opt_view(ws[i].content) == opt_view(ms[i].content)
                &&& ws[i].tool_calls@.len() == ms[i].tool_calls@.len()
                &&& forall|j: int|
                    0 <= j < ws[i].tool_calls@.len() ==> {
                        &&& opt_view(#[trigger] ws[i].tool_calls@[j].id) == Some(ms[i].tool_calls@[j].id@)
                        &&& ws[i].tool_calls@[j].function.name@ == ms[i].tool_calls@[j].name@
                        &&& ws[i].tool_calls@[j].function.arguments == ms[i].tool_calls@[j].arguments
                    }
            },
{
    assert(ws.map_values(|m: OllamaMessage| wire_message_view(m)).len() == ws.len());
    assert forall|i: int| 0 <= i < ws.len() implies {
        &&& #[trigger] ws[i].role == ms[i].role
        &&& opt_view(ws[i].content) == opt_view(ms[i].content)
        &&& ws[i].tool_calls@.len() == ms[i].tool_calls@.len()
        &&& forall|j: int|
            0 <= j < ws[i].tool_calls@.len() ==> {
                &&& opt_view(#[trigger] ws[i].tool_calls@[j].id) == Some(ms[i].tool_calls@[j].id@)
                &&& ws[i].tool_calls@[j].function.name@ == ms[i].tool_calls@[j].name@
                &&& ws[i].tool_calls@[j].function.arguments == ms[i].tool_calls@[j].arguments
            }
    } by {
        assert(ws.map_values(|m: OllamaMessage| wire_message_view(m))[i] == wire_message_view(ws[i]));
        assert(ms.map_values(|m: Message| message_to_wire(m))[i] == message_to_wire(ms[i]));
        let wc = ws[i].tool_calls@.map_values(|c: OllamaToolCall| wire_call_view(c));
        let mc = ms[i].tool_calls@.map_values(|tc: ToolCall| call_to_wire(tc));
        assert(wc == mc);
        assert(wc.len() == ws[i].tool_calls@.len());
        assert forall|j: int| 0 <= j < ws[i].tool_calls@.len() implies {
            &&& opt_view(#[trigger] ws[i].tool_calls@[j].id) == Some(ms[i].tool_calls@[j].id@)
            &&& ws[i].tool_calls@[j].function.name@ == ms[i].tool_calls@[j].name@
            &&& ws[i].tool_calls@[j].function.arguments == ms[i].tool_calls@[j].arguments
        } by {
            assert(wc[j] == wire_call_view(ws[i].tool_calls@[j]));
            assert(mc[j] == call_to_wire(ms[i].tool_calls@[j]));
        }
    }
}

/// Every tool goes into an Ollama request as a `function` with the tool's
/// name, description and parameters, in order.
pub proof fn law_offered_tools_keep_definitions(ws: Seq<OllamaTool>, ds: Seq<ToolDefinition>)
    requires
        ws.map_values(|t: OllamaTool| wire_tool_view(t)) == ds.map_values(|d: ToolDefinition| tool_to_wire(d)),
    ensures
        ws.len() == ds.len(),
        forall|i: int|
            #![trigger ws[i]]
            0 <= i < ws.len() ==> ws[i].kind@ == "function"@ && ws[i].function.name@ == ds[i].name@
                && ws[i].function.description@ == ds[i].description@ && ws[i].function.parameters
                == ds[i].parameters,
{
    assert(ws.map_values(|t: OllamaTool| wire_tool_view(t)).len() == ws.len());
    assert(ds.map_values(|d: ToolDefinition| tool_to_wire(d)).len() == ds.len());
    assert forall|i: int| #![trigger ws[i]] 0 <= i < ws.len() implies ws[i].kind@ == "function"@
        && ws[i].function.name@ == ds[i].name@ && ws[i].function.description@ == ds[i].description@
        && ws[i].function.parameters == ds[i].parameters by {
        assert(ws.map_values(|t: OllamaTool| wire_tool_view(t))[i] == wire_tool_view(ws[i]));
        assert(ds.map_values(|d: ToolDefinition| tool_to_wire(d))[i] == tool_to_wire(ds[i]));
    }
}

/// The tool calls read from an Ollama reply are the wire calls in order,
/// each with the id Ollama gave (empty when it gave none), its function's
/// name and arguments, and no provider data.
pub proof fn law_read_calls_keep_wire_fields(ts: Seq<ToolCall>, ws: Seq<OllamaToolCall>)
    requires
        ts.map_values(|tc: ToolCall| tool_call_view(tc)) == ws.map_values(|c: OllamaToolCall| call_from_wire(c)),
    ensures
        ts.len() == ws.len(),
        forall|i: int|
            #![trigger ts[i]]
            0 <= i < ts.len() ==> (ws[i].id matches Some(id) ==> ts[i].id@ == id@) && (ws[i].id is None
                ==> ts[i].id@.len() == 0) && ts[i].name@ == ws[i].function.name@ && ts[i].arguments
                == ws[i].function.arguments && ts[i].provider_metadata is None,
{
    assert(ts.map_values(|tc: ToolCall| tool_call_view(tc)).len() == ts.len());
    assert(ws.map_values(|c: OllamaToolCall| call_from_wire(c)).len() == ws.len());
    assert forall|i: int| #![trigger ts[i]] 0 <= i < ts.len() implies (ws[i].id matches Some(id) ==> ts[i].id@
        == id@) && (ws[i].id is None ==> ts[i].id@.len() == 0) && ts[i].name@ == ws[i].function.name@
        && ts[i].arguments == ws[i].function.arguments && ts[i].provider_metadata is None by {
        assert(ts.map_values(|tc: ToolCall| tool_call_view(tc))[i] == tool_call_view(ts[i]));
        assert(ws.map_values(|c: OllamaToolCall| call_from_wire(c))[i] == call_from_wire(ws[i]));
    }
}

/// A tool call sent to Ollama and read back is the same call, provider data
/// aside: same id, name and arguments.
pub proof fn law_call_round_trip(tc: ToolCall, w: OllamaToolCall, back: ToolCall)
    requires
        wire_call_view(w) == call_to_wire(tc),
        tool_call_view(back) == call_from_wire(w),
    ensures
        back.id@ == tc.id@,
        back.name@ == tc.name@,
        back.arguments == tc.arguments,
{
}

impl OllamaRequest {
    /// The request body for `req`: the model, every message and every tool in
    /// order, and whether to stream.
    pub fn from_chat_request(req: &ChatRequest, stream: bool) -> (r: Self)
        ensures
            r.model@ == req.model@,
            r.stream == stream,
            r.messages@.map_values(|m: OllamaMessage| wire_message_view(m)) == req.messages@.map_values(
                |m: Message| message_to_wire(m),
            ),
            r.tools@.map_values(|t: OllamaTool| wire_tool_view(t)) == req.tools@.map_values(
                |d: ToolDefinition| tool_to_wire(d),
            ),
    {
        let mut messages: Vec<OllamaMessage> = Vec::new();
        let mut k: usize = 0;
        while k < req.messages.len()
            invariant
                k <= req.messages@.len(),
                messages@.map_values(|m: OllamaMessage| wire_message_view(m)) == req.messages@.take(
                    k as int,
                ).map_values(|m: Message| message_to_wire(m)),
            decreases req.messages.len() - k,
        {
            let ghost m0 = messages@;
            messages.push(OllamaMessage::from_message(&req.messages[k]));
            proof {
                let ms = req.messages@;
                assert(ms.take(k + 1) == ms.take(k as int).push(ms[k as int]));
                assert(messages@.map_values(|m: OllamaMessage| wire_message_view(m)) =~= m0.map_values(
                    |m: OllamaMessage| wire_message_view(m),
                ).push(message_to_wire(ms[k as int])));
                assert(ms.take(k + 1).map_values(|m: Message| message_to_wire(m)) =~= ms.take(
                    k as int,
                ).map_values(|m: Message| message_to_wire(m)).push(message_to_wire(ms[k as int])));
            }
            k = k + 1;
        }
        assert(req.messages@.take(req.messages@.len() as int) == req.messages@);
        let mut tools: Vec<OllamaTool> = Vec::new();
        let mut j: usize = 0;
        while j < req.tools.len()
            invariant
                j <= req.tools@.len(),
                tools@.map_values(|t: OllamaTool| wire_tool_view(t)) == req.tools@.take(
                    j as int,
                ).map_values(|d: ToolDefinition| tool_to_wire(d)),
            decreases req.tools.len() - j,
        {
            let ghost t0 = tools@;
            tools.push(OllamaTool::from_definition(&req.tools[j]));
            proof {
                let ts = req.tools@;
                assert(ts.take(j + 1) == ts.take(j as int).push(ts[j as int]));
                assert(tools@.map_values(|t: OllamaTool| wire_tool_view(t)) =~= t0.map_values(
                    |t: OllamaTool| wire_tool_view(t),
                ).push(tool_to_wire(ts[j as int])));
                assert(ts.take(j + 1).map_values(|d: ToolDefinition| tool_to_wire(d)) =~= ts.take(
                    j as int,
                ).map_values(|d: ToolDefinition| tool_to_wire(d)).push(tool_to_wire(ts[j as int])));
            }
            j = j + 1;
        }
        assert(req.tools@.take(req.tools@.len() as int) == req.tools@);
        OllamaRequest { model: req.model.clone(), messages, tools, stream }
    }
}

impl OllamaChatChunk {
    /// When this chunk finishes the reply, and why, as [`ollama_finish`] states.
    pub fn finish_reason(&self) -> (r: Option<FinishReason>)
        ensures
            r == ollama_finish(*self),
    {
        if !self.done {
            return None;
        }
        let has_tool_calls = match &self.message {
            Some(m) => m.tool_calls.len() > 0,
            None => false,
        };
        if has_tool_calls {
            return Some(FinishReason::ToolCalls);
        }
        match &self.done_reason {
            Some(r) => {
                if str_eq(r.as_str(), "length") {
                    Some(FinishReason::Length)
                } else {
                    Some(FinishReason::Stop)
                }
            },
            None => Some(FinishReason::Stop),
        }
    }

    /// The chunk as a complete response; a chunk without a message gives an
    /// empty assistant message, and a chunk that does not finish counts as a
    /// stop.
    pub fn into_chat_response(self) -> (r: ChatResponse)
        ensures
            r.finish_reason == match ollama_finish(self) {
                Some(f) => f,
                None => FinishReason::Stop,
            },
            r.message.tool_call_id is None,
            match self.message {
                Some(m) => {
                    &&& r.message.role == m.role
                    &&& opt_view(r.message.content) == opt_view(m.content)
                    &&& r.message.tool_calls@.map_values(|tc: ToolCall| tool_call_view(tc))
                        == m.tool_calls@.map_values(|c: OllamaToolCall| call_from_wire(c))
                },
                None => {
                    &&& r.message.role == Role::Assistant
                    &&& r.message.content is None
                    &&& r.message.tool_calls@.len() == 0
                },
            },
    {
        let finish = self.finish_reason();
        let finish_reason = match finish {
            Some(f) => f,
            None => FinishReason::Stop,
        };
        let message = match self.message {
            Some(m) => Message {
                role: m.role,
                content: m.content,
                tool_calls: calls_from_wire(m.tool_calls),
                tool_call_id: None,
            },
            None => Message {
                role: Role::Assistant,
                content: None,
                tool_calls: Vec::new(),
                tool_call_id: None,
            },
        };
        ChatResponse { message, finish_reason }
    }

    /// The chunk as a stream increment: its text, its first tool call, and
    /// the finish reason when it finishes the reply.
    pub fn into_stream_chunk(self) -> (r: StreamChunk)
        ensures
            r.finish_reason == ollama_finish(self),
            match self.message {
                Some(m) => {
                    &&& opt_view(r.delta) == opt_view(m.content)
                    &&& m.tool_calls@.len() == 0 ==> r.tool_call_delta is None
                    &&& m.tool_calls@.len() > 0 ==> (r.tool_call_delta matches Some(tc)
                        && tool_call_view(tc) == call_from_wire(m.tool_calls@[0]))
                },
                None => r.delta is None && r.tool_call_delta is None,
            },
    {
        let finish_reason = self.finish_reason();
        match self.message {
            Some(m) => {
                let mut calls = m.tool_calls;
                let tool_call_delta = if calls.len() > 0 {
                    Some(calls.remove(0).into_tool_call())
                } else {
                    None
                };
                StreamChunk { delta: m.content, tool_call_delta, finish_reason }
            },
            None => StreamChunk { delta: None, tool_call_delta: None, finish_reason },
        }
    }
}

} // verus!
