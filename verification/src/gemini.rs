//! The Gemini wire format: how a chat request is laid out for Gemini and how
//! its candidates become responses and stream chunks.
use vstd::prelude::*;
use crate::message::{
    ChatRequest, ChatResponse, FinishReason, Message, ProviderError, Role, StreamChunk, ToolCall,
    ToolDefinition,
};
use crate::text::push_str;
use crate::agent::reply_consistent;

verus! {

/// A call of a function, as the model asks for it.
#[derive(Debug, Clone)]
pub struct GeminiFunctionCall {
    pub name: String,
    pub args: serde_json::Value,
}

/// The answer to a function call; on the wire its response is
/// `{"content": content}`.
#[derive(Debug, Clone)]
pub struct GeminiFunctionResponse {
    pub name: String,
    pub content: Option<String>,
}

/// One part of a content.
#[derive(Debug, Clone)]
pub enum GeminiPart {
    Text { text: String },
    FunctionCall { function_call: GeminiFunctionCall, thought_signature: Option<String> },
    FunctionResponse { function_response: GeminiFunctionResponse },
}

/// A turn of the conversation.
#[derive(Debug, Clone)]
pub struct GeminiContent {
    pub role: Option<String>,
    pub parts: Vec<GeminiPart>,
}

/// A function the model may call.
#[derive(Debug, Clone)]
pub struct GeminiFunctionDecl {
    pub name: String,
    pub description: String,
    pub parameters: serde_json::Value,
}

/// The tools offered with a request.
#[derive(Debug, Clone)]
pub struct GeminiTool {
    pub function_declarations: Vec<GeminiFunctionDecl>,
}

/// A `generateContent` request body.
#[derive(Debug, Clone)]
pub struct GeminiRequest {
    pub contents: Vec<GeminiContent>,
    pub system_instruction: Option<GeminiContent>,
    pub tools: Vec<GeminiTool>,
}

/// Why Gemini stopped.
#[derive(Debug, Clone, Copy, PartialEq, Eq, Structural)]
pub enum GeminiFinishReason {
    Stop,
    MaxTokens,
    Safety,
    Recitation,
    Other,
}

/// One candidate completion.
#[derive(Debug, Clone)]
pub struct GeminiCandidate {
    pub content: GeminiContent,
    pub finish_reason: Option<GeminiFinishReason>,
}

/// A `generateContent` response body (or one streamed chunk of it).
#[derive(Debug, Clone)]
pub struct GeminiResponse {
    pub candidates: Vec<GeminiCandidate>,
}

/// The abstract value of a part.
pub enum PartView {
    Text(Seq<char>),
    Call { name: Seq<char>, args: serde_json::Value, signature: Option<Seq<char>> },
    Response { name: Seq<char>, content: Option<Seq<char>> },
}

/// The abstract value of a content.
pub struct ContentView {
    pub role: Option<Seq<char>>,
    pub parts: Seq<PartView>,
}

/// The characters of an optional string.
pub open spec fn opt_view(o: Option<String>) -> Option<Seq<char>> {
    match o {
        Some(s) => Some(s@),
        None => None,
    }
}

/// The abstract value of a part.
pub open spec fn part_view(p: GeminiPart) -> PartView {
    match p {
        GeminiPart::Text { text } => PartView::Text(text@),
        GeminiPart::FunctionCall { function_call, thought_signature } => PartView::Call {
            name: function_call.name@,
            args: function_call.args,
            signature: opt_view(thought_signature),
        },
        GeminiPart::FunctionResponse { function_response } => PartView::Response {
            name: function_response.name@,
            content: opt_view(function_response.content),
        },
    }
}

/// The abstract value of a content.
pub open spec fn content_view(c: GeminiContent) -> ContentView {
    ContentView { role: opt_view(c.role), parts: c.parts@.map_values(|p: GeminiPart| part_view(p)) }
}

/// The role a message takes in Gemini: the model's turns are `model`, tool
/// results are sent back as `user` turns.
pub open spec fn gemini_role(r: Role) -> Seq<char> {
    match r {
        Role::Assistant => "model"@,
        _ => "user"@,
    }
}

/// The function-call part for a tool call.
pub open spec fn call_part(tc: ToolCall) -> PartView {
    PartView::Call {
        name: tc.name@,
        args: tc.arguments,
        signature: opt_view(tc.provider_metadata),
    }
}

/// The parts a (non-system) message becomes. A tool result becomes a
/// function response named by the call id (the message does not carry the
/// function's name); any other message becomes its text, if any, followed by
/// one function call per tool call.
pub open spec fn message_parts(m: Message) -> Seq<PartView> {
    if m.role == Role::Tool {
        match m.tool_call_id {
            Some(id) => seq![PartView::Response { name: id@, content: opt_view(m.content) }],
            None => Seq::empty(),
        }
    } else {
        (match m.content {
            Some(c) => seq![PartView::Text(c@)],
            None => Seq::empty(),
        }) + m.tool_calls@.map_values(|tc: ToolCall| call_part(tc))
    }
}

/// A message other than a tool reply or a system message goes to Gemini as
/// its text part, when it has text, followed by one function-call part per
/// tool call, in call order, each carrying the call's name, arguments and
/// signature; a tool reply goes as one function response named by its call
/// id and carrying its content.
pub proof fn law_message_parts_carry_every_call(m: Message, r: GeminiContent)
    requires
        m.role != Role::System,
        content_view(r) == (ContentView { role: Some(gemini_role(m.role)), parts: message_parts(m) }),
    ensures
        m.role != Role::Tool ==> {
            let off: int = if m.content is Some { 1 } else { 0 };
            &&& r.parts@.len() == off + m.tool_calls@.len()
            &&& (m.content matches Some(c) ==> r.parts@[0] matches GeminiPart::Text { text } && text@ == c@)
            &&& forall|j: int|
                0 <= j < m.tool_calls@.len() ==> (#[trigger] r.parts@[off + j] matches GeminiPart::FunctionCall {
                    function_call,
                    thought_signature,
                } && function_call.name@ == m.tool_calls@[j].name@ && function_call.args
                    == m.tool_calls@[j].arguments && opt_view(thought_signature) == opt_view(
                    m.tool_calls@[j].provider_metadata,
                ))
        },
        (m.role == Role::Tool && m.tool_call_id is Some) ==> {
            &&& r.parts@.len() == 1
            &&& r.parts@[0] matches GeminiPart::FunctionResponse { function_response }
            &&& function_response.name@ == m.tool_call_id->0@
            &&& opt_view(function_response.content) == opt_view(m.content)
        },
{
    let views = r.parts@.map_values(|p: GeminiPart| part_view(p));
    assert(views == message_parts(m));
    if m.role != Role::Tool {
        let off: int = if m.content is Some { 1 } else { 0 };
        assert forall|j: int| 0 <= j < m.tool_calls@.len() implies (#[trigger] r.parts@[off + j] matches GeminiPart::FunctionCall {
            function_call,
            thought_signature,
        } && function_call.name@ == m.tool_calls@[j].name@ && function_call.args
            == m.tool_calls@[j].arguments && opt_view(thought_signature) == opt_view(
            m.tool_calls@[j].provider_metadata,
        )) by {
            assert(views[off + j] == part_view(r.parts@[off + j]));
            assert(message_parts(m)[off + j] == call_part(m.tool_calls@[j]));
        }
        if m.content is Some {
            assert(views[0] == part_view(r.parts@[0]));
        }
    } else if m.tool_call_id is Some {
        assert(views[0] == part_view(r.parts@[0]));
    }
}

/// The contents the first `k` messages become: system messages are left out.
pub open spec fn expected_contents(msgs: Seq<Message>, k: int) -> Seq<ContentView>
    decreases k,
{
    if k <= 0 {
        Seq::empty()
    } else {
        expected_contents(msgs, k - 1) + if msgs[k - 1].role == Role::System {
            Seq::<ContentView>::empty()
        } else {
            seq![
                ContentView {
                    role: Some(gemini_role(msgs[k - 1].role)),
                    parts: message_parts(msgs[k - 1]),
                },
            ]
        }
    }
}

/// The system instruction's parts from the first `k` messages: the text of
/// each system message that has one.
pub open spec fn system_parts(msgs: Seq<Message>, k: int) -> Seq<PartView>
    decreases k,
{
    if k <= 0 {
        Seq::empty()
    } else {
        system_parts(msgs, k - 1) + if msgs[k - 1].role == Role::System && msgs[k - 1].content is Some {
            seq![PartView::Text(msgs[k - 1].content->0@)]
        } else {
            Seq::<PartView>::empty()
        }
    }
}

/// The abstract value of a function declaration.
pub open spec fn decl_view(d: GeminiFunctionDecl) -> (Seq<char>, Seq<char>, serde_json::Value) {
    (d.name@, d.description@, d.parameters)
}

/// The abstract value of a tool definition.
pub open spec fn definition_view(d: ToolDefinition) -> (Seq<char>, Seq<char>, serde_json::Value) {
    (d.name@, d.description@, d.parameters)
}

/// What Gemini's finish reason means here: running out of tokens is
/// `Length`; every other reason counts as a stop.
pub open spec fn finish_from_gemini(r: GeminiFinishReason) -> FinishReason {
    match r {
        GeminiFinishReason::MaxTokens => FinishReason::Length,
        _ => FinishReason::Stop,
    }
}

/// What Gemini's finish reason means here.
pub fn finish_reason_of(r: GeminiFinishReason) -> (f: FinishReason)
    ensures
        f == finish_from_gemini(r),
{
    match r {
        GeminiFinishReason::Stop => FinishReason::Stop,
        GeminiFinishReason::MaxTokens => FinishReason::Length,
        GeminiFinishReason::Safety | GeminiFinishReason::Recitation | GeminiFinishReason::Other => {
            FinishReason::Stop
        },
    }
}

/// An optional string, copied.
fn copy_opt(o: &Option<String>) -> (r: Option<String>)
    ensures
        opt_view(r) == opt_view(*o),
{
    match o {
        Some(s) => Some(s.clone()),
        None => None,
    }
}

impl GeminiFunctionDecl {
    /// The declaration of a tool.
    pub fn from_definition(def: &ToolDefinition) -> (r: Self)
        ensures
            decl_view(r) == definition_view(*def),
    {
        GeminiFunctionDecl {
            name: def.name.clone(),
            description: def.description.clone(),
            parameters: def.parameters.clone(),
        }
    }
}

impl GeminiContent {
    /// The content a non-system message becomes.
    pub fn from_message(msg: &Message) -> (r: Self)
        requires
            msg.role != Role::System,
        ensures
            content_view(r) == (ContentView {
                role: Some(gemini_role(msg.role)),
                parts: message_parts(*msg),
            }),
    {
        let mut role = String::new();
        match msg.role {
            Role::Assistant => push_str(&mut role, "model"),
            _ => push_str(&mut role, "user"),
        }
        let mut parts: Vec<GeminiPart> = Vec::new();
        if msg.role == Role::Tool {
            if let Some(id) = &msg.tool_call_id {
                parts.push(
                    GeminiPart::FunctionResponse {
                        function_response: GeminiFunctionResponse {
                            name: id.clone(),
                            content: copy_opt(&msg.content),
                        },
                    },
                );
            }
            proof {
                assert(parts@.map_values(|p: GeminiPart| part_view(p)) =~= message_parts(*msg));
            }
        } else {
            if let Some(text) = &msg.content {
                parts.push(GeminiPart::Text { text: text.clone() });
            }
            let ghost head = parts@.map_values(|p: GeminiPart| part_view(p));
            assert(head =~= match msg.content {
                Some(c) => seq![PartView::Text(c@)],
                None => Seq::<PartView>::empty(),
            });
            let ghost calls = msg.tool_calls@;
            let mut k: usize = 0;
            while k < msg.tool_calls.len()
                invariant
                    k <= calls.len(),
                    calls == msg.tool_calls@,
                    parts@.map_values(|p: GeminiPart| part_view(p)) == head + calls.take(
                        k as int,
                    ).map_values(|tc: ToolCall| call_part(tc)),
                decreases msg.tool_calls.len() - k,
            {
                let tc = &msg.tool_calls[k];
                let ghost before = parts@;
                parts.push(
                    GeminiPart::FunctionCall {
                        function_call: GeminiFunctionCall {
                            name: tc.name.clone(),
                            args: tc.arguments.clone(),
                        },
                        thought_signature: copy_opt(&tc.provider_metadata),
                    },
                );
                proof {
                    assert(calls.take(k + 1) == calls.take(k as int).push(calls[k as int]));
                    assert(calls.take(k + 1).map_values(|tc: ToolCall| call_part(tc)) =~= calls.take(
                        k as int,
                    ).map_values(|tc: ToolCall| call_part(tc)).push(call_part(calls[k as int])));
                    assert(parts@.map_values(|p: GeminiPart| part_view(p)) =~= before.map_values(
                        |p: GeminiPart| part_view(p),
                    ).push(call_part(calls[k as int])));
                }
                k = k + 1;
            }
            proof {
                assert(calls.take(calls.len() as int) == calls);
                assert(parts@.map_values(|p: GeminiPart| part_view(p)) =~= message_parts(*msg));
            }
        }
        let r = GeminiContent { role: Some(role), parts };
        assert(content_view(r).parts == message_parts(*msg));
        assert(content_view(r).role == Some(gemini_role(msg.role)));
        r
    }
}

impl GeminiRequest {
    /// The request body for `req`: system messages are gathered into the
    /// system instruction, the others become contents in order, and the
    /// tools, if any, are offered as one set of function declarations.
    pub fn from_chat_request(req: &ChatRequest) -> (r: Self)
        ensures
            r.contents@.map_values(|c: GeminiContent| content_view(c)) == expected_contents(
                req.messages@,
                req.messages@.len() as int,
            ),
            system_parts(req.messages@, req.messages@.len() as int).len() == 0
                ==> r.system_instruction is None,
            system_parts(req.messages@, req.messages@.len() as int).len() > 0
                ==> (r.system_instruction matches Some(c) && content_view(c) == (ContentView {
                role: None,
                parts: system_parts(req.messages@, req.messages@.len() as int),
            })),
            req.tools@.len() == 0 ==> r.tools@.len() == 0,
            req.tools@.len() > 0 ==> (r.tools@.len() == 1 && r.tools@[0].function_declarations@.map_values(
                |d: GeminiFunctionDecl| decl_view(d),
            ) == req.tools@.map_values(|d: ToolDefinition| definition_view(d))),
    {
        let msgs = &req.messages;
        let mut system: Vec<GeminiPart> = Vec::new();
        let mut contents: Vec<GeminiContent> = Vec::new();
        let mut k: usize = 0;
        while k < msgs.len()
            invariant
                k <= msgs@.len(),
                contents@.map_values(|c: GeminiContent| content_view(c)) == expected_contents(
                    msgs@,
                    k as int,
                ),
                system@.map_values(|p: GeminiPart| part_view(p)) == system_parts(msgs@, k as int),
            decreases msgs.len() - k,
        {
            let msg = &msgs[k];
            let ghost c0 = contents@;
            let ghost s0 = system@;
            if msg.role == Role::System {
                if let Some(text) = &msg.content {
                    system.push(GeminiPart::Text { text: text.clone() });
                }
                proof {
                    assert(system@.map_values(|p: GeminiPart| part_view(p)) =~= system_parts(
                        msgs@,
                        k + 1,
                    ));
                    assert(contents@.map_values(|c: GeminiContent| content_view(c))
                        =~= expected_contents(msgs@, k + 1));
                }
            } else {
                contents.push(GeminiContent::from_message(msg));
                proof {
                    assert(system@.map_values(|p: GeminiPart| part_view(p)) =~= system_parts(
                        msgs@,
                        k + 1,
                    ));
                    assert(contents@.map_values(|c: GeminiContent| content_view(c))
                        =~= expected_contents(msgs@, k + 1));
                }
            }
            k = k + 1;
        }
        let system_instruction = if system.len() == 0 {
            None
        } else {
            Some(GeminiContent { role: None, parts: system })
        };
        let mut tools: Vec<GeminiTool> = Vec::new();
        if req.tools.len() > 0 {
            let mut decls: Vec<GeminiFunctionDecl> = Vec::new();
            let mut j: usize = 0;
            while j < req.tools.len()
                invariant
                    j <= req.tools@.len(),
                    decls@.map_values(|d: GeminiFunctionDecl| decl_view(d)) == req.tools@.take(
                        j as int,
                    ).map_values(|d: ToolDefinition| definition_view(d)),
                decreases req.tools.len() - j,
            {
                let ghost d0 = decls@;
                decls.push(GeminiFunctionDecl::from_definition(&req.tools[j]));
                proof {
                    assert(req.tools@.take(j + 1) == req.tools@.take(j as int).push(req.tools@[j as int]));
                    assert(decls@.map_values(|d: GeminiFunctionDecl| decl_view(d)) =~= d0.map_values(
                        |d: GeminiFunctionDecl| decl_view(d),
                    ).push(definition_view(req.tools@[j as int])));
                    assert(req.tools@.take(j + 1).map_values(|d: ToolDefinition| definition_view(d))
                        =~= req.tools@.take(j as int).map_values(|d: ToolDefinition| definition_view(d)).push(
                        definition_view(req.tools@[j as int]),
                    ));
                    assert(decls@.map_values(|d: GeminiFunctionDecl| decl_view(d)) =~= req.tools@.take(
                        j + 1,
                    ).map_values(|d: ToolDefinition| definition_view(d)));
                }
                j = j + 1;
            }
            assert(req.tools@.take(req.tools@.len() as int) == req.tools@);
            tools.push(GeminiTool { function_declarations: decls });
        }
        GeminiRequest { contents, system_instruction, tools }
    }
}

/// Appending a message leaves what the earlier messages become as it was.
proof fn lemma_contents_prefix(msgs: Seq<Message>, m: Message, k: int)
    requires
        0 <= k <= msgs.len(),
    ensures
        expected_contents(msgs.push(m), k) == expected_contents(msgs, k),
        system_parts(msgs.push(m), k) == system_parts(msgs, k),
    decreases k,
{
    if k > 0 {
        lemma_contents_prefix(msgs, m, k - 1);
        assert(msgs.push(m)[k - 1] == msgs[k - 1]);
    }
}

/// The conversation goes to Gemini message by message, in order: a system
/// message adds no content but its text, if any, to the system instruction;
/// any other message adds one content, with role `model` for the assistant
/// and `user` otherwise, holding the message's parts, and leaves the system
/// instruction as it was.
pub proof fn law_messages_become_contents_in_order(msgs: Seq<Message>, m: Message)
    ensures
        expected_contents(Seq::<Message>::empty(), 0).len() == 0,
        system_parts(Seq::<Message>::empty(), 0).len() == 0,
        m.role == Role::System ==> {
            &&& expected_contents(msgs.push(m), msgs.len() + 1int) == expected_contents(msgs, msgs.len() as int)
            &&& system_parts(msgs.push(m), msgs.len() + 1int) == system_parts(msgs, msgs.len() as int) + match m.content {
                Some(c) => seq![PartView::Text(c@)],
                None => Seq::<PartView>::empty(),
            }
        },
        m.role != Role::System ==> {
            &&& expected_contents(msgs.push(m), msgs.len() + 1int) == expected_contents(msgs, msgs.len() as int).push(
                ContentView {
                    role: Some(if m.role == Role::Assistant { "model"@ } else { "user"@ }),
                    parts: message_parts(m),
                },
            )
            &&& system_parts(msgs.push(m), msgs.len() + 1int) == system_parts(msgs, msgs.len() as int)
        },
{
    lemma_contents_prefix(msgs, m, msgs.len() as int);
    let ms = msgs.push(m);
    assert(ms[msgs.len() as int] == m);
    if m.role == Role::System {
        assert(expected_contents(ms, msgs.len() + 1int) =~= expected_contents(msgs, msgs.len() as int));
        if m.content is None {
            assert(system_parts(ms, msgs.len() + 1int) =~= system_parts(msgs, msgs.len() as int));
        }
    } else {
        assert(system_parts(ms, msgs.len() + 1int) =~= system_parts(msgs, msgs.len() as int));
    }
}

/// Every tool is declared to Gemini with its name, description and
/// parameters, in order.
pub proof fn law_declarations_keep_definitions(ds: Seq<GeminiFunctionDecl>, ts: Seq<ToolDefinition>)
    requires
        ds.map_values(|d: GeminiFunctionDecl| decl_view(d)) == ts.map_values(|d: ToolDefinition| definition_view(d)),
    ensures
        ds.len() == ts.len(),
        forall|i: int|
            #![trigger ds[i]]
            0 <= i < ds.len() ==> ds[i].name@ == ts[i].name@ && ds[i].description@ == ts[i].description@
                && ds[i].parameters == ts[i].parameters,
{
    assert(ds.map_values(|d: GeminiFunctionDecl| decl_view(d)).len() == ds.len());
    assert(ts.map_values(|d: ToolDefinition| definition_view(d)).len() == ts.len());
    assert forall|i: int| #![trigger ds[i]] 0 <= i < ds.len() implies ds[i].name@ == ts[i].name@
        && ds[i].description@ == ts[i].description@ && ds[i].parameters == ts[i].parameters by {
        assert(ds.map_values(|d: GeminiFunctionDecl| decl_view(d))[i] == decl_view(ds[i]));
        assert(ts.map_values(|d: ToolDefinition| definition_view(d))[i] == definition_view(ts[i]));
    }
}

/// The text of the first `k` parts: the text parts, joined.
pub open spec fn joined_text(ps: Seq<GeminiPart>, k: int) -> Seq<char>
    decreases k,
{
    if k <= 0 {
        Seq::empty()
    } else {
        joined_text(ps, k - 1) + match ps[k - 1] {
            GeminiPart::Text { text } => text@,
            _ => Seq::empty(),
        }
    }
}

/// The abstract value of a tool call: id, name, arguments and metadata.
pub open spec fn call_view(tc: ToolCall) -> (Seq<char>, Seq<char>, serde_json::Value, Option<Seq<char>>) {
    (tc.id@, tc.name@, tc.arguments, opt_view(tc.provider_metadata))
}

/// The tool calls asked for by the first `k` parts. Gemini gives calls no
/// id, so a call's id is its function's name.
pub open spec fn calls_in(ps: Seq<GeminiPart>, k: int) -> Seq<
    (Seq<char>, Seq<char>, serde_json::Value, Option<Seq<char>>),
>
    decreases k,
{
    if k <= 0 {
        Seq::empty()
    } else {
        calls_in(ps, k - 1) + match ps[k - 1] {
            GeminiPart::FunctionCall { function_call, thought_signature } => seq![
                (
                    function_call.name@,
                    function_call.name@,
                    function_call.args,
                    opt_view(thought_signature),
                ),
            ],
            _ => Seq::empty(),
        }
    }
}

/// The text of parts is the texts of their text parts joined in order: a
/// text part appends its text, any other part adds nothing, and no part
/// means no text.
pub proof fn law_text_parts_join_in_order(ps: Seq<GeminiPart>, p: GeminiPart)
    ensures
        joined_text(Seq::<GeminiPart>::empty(), 0) == Seq::<char>::empty(),
        joined_text(ps.push(p), ps.len() + 1int) == joined_text(ps, ps.len() as int) + match p {
            GeminiPart::Text { text } => text@,
            _ => Seq::<char>::empty(),
        },
{
    lemma_joined_prefix(ps, p, ps.len() as int);
}

/// Appending a part leaves the text of the earlier parts as it was.
proof fn lemma_joined_prefix(ps: Seq<GeminiPart>, p: GeminiPart, k: int)
    requires
        0 <= k <= ps.len(),
    ensures
        joined_text(ps.push(p), k) == joined_text(ps, k),
        calls_in(ps.push(p), k) == calls_in(ps, k),
    decreases k,
{
    if k > 0 {
        lemma_joined_prefix(ps, p, k - 1);
        assert(ps.push(p)[k - 1] == ps[k - 1]);
    }
}

/// The tool calls of parts are their function calls in order: a function
/// call appends a call whose id and name are the function's name, with its
/// arguments and signature; any other part adds none.
pub proof fn law_call_parts_in_order(ps: Seq<GeminiPart>, p: GeminiPart)
    ensures
        calls_in(Seq::<GeminiPart>::empty(), 0).len() == 0,
        calls_in(ps.push(p), ps.len() + 1int) == calls_in(ps, ps.len() as int) + match p {
            GeminiPart::FunctionCall { function_call, thought_signature } => seq![
                (function_call.name@, function_call.name@, function_call.args, opt_view(thought_signature)),
            ],
            _ => Seq::empty(),
        },
{
    lemma_joined_prefix(ps, p, ps.len() as int);
}

/// The text of a candidate, `None` when it is empty.
pub open spec fn candidate_text(c: GeminiCandidate) -> Option<Seq<char>> {
    let t = joined_text(c.content.parts@, c.content.parts@.len() as int);
    if t.len() == 0 {
        None
    } else {
        Some(t)
    }
}

/// The tool calls of a candidate.
pub open spec fn candidate_calls(c: GeminiCandidate) -> Seq<
    (Seq<char>, Seq<char>, serde_json::Value, Option<Seq<char>>),
> {
    calls_in(c.content.parts@, c.content.parts@.len() as int)
}

/// Whether `r` is the response the candidate `c` makes: an assistant message
/// with the candidate's text and tool calls; when the model asked for tool
/// calls the finish reason is `ToolCalls`, otherwise Gemini's reason (a stop
/// when it gave none).
pub open spec fn candidate_response(c: GeminiCandidate, r: ChatResponse) -> bool {
    &&& r.message.role == Role::Assistant
    &&& opt_view(r.message.content) == candidate_text(c)
    &&& r.message.tool_calls@.map_values(|tc: ToolCall| call_view(tc)) == candidate_calls(c)
    &&& r.message.tool_call_id is None
    &&& r.finish_reason == (if candidate_calls(c).len() > 0 {
        FinishReason::ToolCalls
    } else {
        match c.finish_reason {
            Some(f) => finish_from_gemini(f),
            None => FinishReason::Stop,
        }
    })
}

/// Whether `r` is the stream increment the candidate `c` makes: its text,
/// its first tool call (none when it asks for no tool), and `ToolCalls` as
/// finish reason when it asks for tools, otherwise Gemini's reason, if any.
pub open spec fn candidate_chunk(c: GeminiCandidate, r: StreamChunk) -> bool {
    &&& opt_view(r.delta) == candidate_text(c)
    &&& (candidate_calls(c).len() == 0 ==> r.tool_call_delta is None)
    &&& (candidate_calls(c).len() > 0 ==> (r.tool_call_delta matches Some(tc) && call_view(tc)
        == candidate_calls(c)[0]))
    &&& r.finish_reason == (if candidate_calls(c).len() > 0 {
        Some(FinishReason::ToolCalls)
    } else {
        match c.finish_reason {
            Some(f) => Some(finish_from_gemini(f)),
            None => None,
        }
    })
}

/// A response read from a Gemini candidate is one the agent can act on: an
/// assistant message whose finish reason says `ToolCalls` exactly when it
/// asks for tools, and which carries as many tool calls as the candidate
/// has function-call parts.
pub proof fn law_candidate_response_is_consistent(c: GeminiCandidate, r: ChatResponse)
    requires
        candidate_response(c, r),
    ensures
        reply_consistent(Ok::<ChatResponse, ProviderError>(r)),
        r.message.tool_calls@.len() == candidate_calls(c).len(),
{
    assert(r.message.tool_calls@.map_values(|tc: ToolCall| call_view(tc)).len() == r.message.tool_calls@.len());
}

/// The content of a response read from a candidate is the text of all its
/// text parts joined in order, and is missing only when that text is empty.
pub proof fn law_candidate_content_is_joined_text(c: GeminiCandidate, r: ChatResponse)
    requires
        candidate_response(c, r),
    ensures
        r.message.content is None <==> joined_text(c.content.parts@, c.content.parts@.len() as int).len() == 0,
        r.message.content matches Some(t) ==> t@ == joined_text(c.content.parts@, c.content.parts@.len() as int),
{
}

impl GeminiCandidate {
    /// The candidate's text (`None` when empty) and tool calls.
    pub fn into_parts(self) -> (r: (Option<String>, Vec<ToolCall>))
        ensures
            opt_view(r.0) == candidate_text(self),
            r.1@.map_values(|tc: ToolCall| call_view(tc)) == candidate_calls(self),
    {
        let ps = &self.content.parts;
        let mut text = String::new();
        let mut calls: Vec<ToolCall> = Vec::new();
        let mut k: usize = 0;
        while k < ps.len()
            invariant
                k <= ps@.len(),
                text@ == joined_text(ps@, k as int),
                calls@.map_values(|tc: ToolCall| call_view(tc)) == calls_in(ps@, k as int),
            decreases ps.len() - k,
        {
            let ghost c0 = calls@;
            match &ps[k] {
                GeminiPart::Text { text: t } => {
                    push_str(&mut text, t.as_str());
                    assert(calls@.map_values(|tc: ToolCall| call_view(tc)) =~= calls_in(ps@, k + 1));
                },
                GeminiPart::FunctionCall { function_call, thought_signature } => {
                    calls.push(
                        ToolCall {
                            id: function_call.name.clone(),
                            name: function_call.name.clone(),
                            arguments: function_call.args.clone(),
                            provider_metadata: copy_opt(thought_signature),
                        },
                    );
                    assert(text@ =~= joined_text(ps@, k + 1));
                    assert(calls@.map_values(|tc: ToolCall| call_view(tc)) =~= calls_in(ps@, k + 1));
                },
                GeminiPart::FunctionResponse { .. } => {
                    assert(text@ =~= joined_text(ps@, k + 1));
                    assert(calls@.map_values(|tc: ToolCall| call_view(tc)) =~= calls_in(ps@, k + 1));
                },
            }
            k = k + 1;
        }
        if text.as_str().is_empty() {
            (None, calls)
        } else {
            (Some(text), calls)
        }
    }

    /// The candidate as a complete response: an assistant message; when the
    /// model asked for tool calls the finish reason is `ToolCalls`, otherwise
    /// Gemini's reason (a stop when it gave none).
    pub fn into_chat_response(self) -> (r: ChatResponse)
        ensures
            r.message.role == Role::Assistant,
            opt_view(r.message.content) == candidate_text(self),
            r.message.tool_calls@.map_values(|tc: ToolCall| call_view(tc)) == candidate_calls(self),
            r.message.tool_call_id is None,
            r.finish_reason == (if candidate_calls(self).len() > 0 {
                FinishReason::ToolCalls
            } else {
                match self.finish_reason {
                    Some(f) => finish_from_gemini(f),
                    None => FinishReason::Stop,
                }
            }),
    {
        let raw = self.finish_reason;
        let ghost me = self;
        let (content, tool_calls) = self.into_parts();
        assert(tool_calls@.len() == candidate_calls(me).len());
        let finish_reason = if tool_calls.len() > 0 {
            FinishReason::ToolCalls
        } else {
            match raw {
                Some(f) => finish_reason_of(f),
                None => FinishReason::Stop,
            }
        };
        ChatResponse {
            message: Message { role: Role::Assistant, content, tool_calls, tool_call_id: None },
            finish_reason,
        }
    }

    /// The candidate as a stream increment: its text, its first tool call,
    /// and `ToolCalls` as finish reason when it asks for tools, otherwise
    /// Gemini's reason, if any.
    pub fn into_stream_chunk(self) -> (r: StreamChunk)
        ensures
            candidate_chunk(self, r),
    {
        let raw = self.finish_reason;
        let ghost me = self;
        let (delta, mut tool_calls) = self.into_parts();
        let ghost tcs = tool_calls@;
        assert(tcs.map_values(|tc: ToolCall| call_view(tc)).len() == tcs.len());
        let finish_reason = if tool_calls.len() > 0 {
            Some(FinishReason::ToolCalls)
        } else {
            match raw {
                Some(f) => Some(finish_reason_of(f)),
                None => None,
            }
        };
        let tool_call_delta = if tool_calls.len() == 0 {
            None
        } else {
            let first = tool_calls.remove(0);
            assert(tcs.map_values(|tc: ToolCall| call_view(tc))[0] == call_view(tcs[0]));
            Some(first)
        };
        StreamChunk { delta, tool_call_delta, finish_reason }
    }
}

impl GeminiResponse {
    /// The response the first candidate makes; a response without
    /// candidates is a parse error.
    pub fn into_chat_response(self) -> (r: Result<ChatResponse, ProviderError>)
        ensures
            self.candidates@.len() == 0 ==> (r matches Err(ProviderError::Parse(m)) && m@
                == "no candidates in response"@),
            self.candidates@.len() > 0 ==> (r matches Ok(resp) && candidate_response(
                self.candidates@[0],
                resp,
            )),
    {
        let mut me = self;
        if me.candidates.len() == 0 {
            let mut m = String::new();
            push_str(&mut m, "no candidates in response");
            return Err(ProviderError::Parse(m));
        }
        let first = me.candidates.remove(0);
        Ok(first.into_chat_response())
    }

    /// The stream increment of the first candidate; an empty increment when
    /// there is none.
    pub fn into_stream_chunk(self) -> (r: StreamChunk)
        ensures
            self.candidates@.len() == 0 ==> r.delta is None && r.tool_call_delta is None
                && r.finish_reason is None,
            self.candidates@.len() > 0 ==> candidate_chunk(self.candidates@[0], r),
    {
        let mut me = self;
        if me.candidates.len() == 0 {
            return StreamChunk { delta: None, tool_call_delta: None, finish_reason: None };
        }
        let first = me.candidates.remove(0);
        first.into_stream_chunk()
    }
}

} // verus!
