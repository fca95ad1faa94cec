//! The decisions of the ReAct loop, as a state machine.
//!
//! The driver owns the provider, the tools and the confirmation hook. It
//! starts a run with [`AgentCore::start`], performs the [`AgentStep`] it is
//! handed (call the provider, wait and call again, ask the user, run tools)
//! and reports what came back through the matching `on_*` method, until it
//! is handed [`AgentStep::Finished`].
use vstd::prelude::*;
use vstd::set_lib::{lemma_int_range, lemma_len_subset, lemma_map_size_bound, set_int_range};
use crate::context::ConversationContext;
use crate::message::{
    is_plain_message, is_tool_reply, provider_error_text, ChatResponse, FinishReason, Message,
    ProviderError, Role, ToolCall,
};
use crate::text::{decimal, push_decimal, push_str};
use crate::tools::{describes_tool_error, ToolError, ToolOutput};

verus! {

/// How many times a failing provider call is retried before giving up.
pub const MAX_PROVIDER_RETRIES: usize = 3;

/// The iteration budget of a fresh agent.
pub const DEFAULT_MAX_ITERATIONS: usize = 10;

/// Why a run ended without an answer.
#[derive(Debug)]
pub enum AgentError {
    Provider(ProviderError),
    Tool(ToolError),
    MaxIterationsReached(usize),
    NoProvider,
}

/// Whether `t` is the text a user sees for the error `e`.
pub open spec fn describes_agent_error(e: AgentError, t: Seq<char>) -> bool {
    match e {
        AgentError::Provider(p) => t == "provider error: "@ + provider_error_text(p),
        AgentError::Tool(te) => exists|u: Seq<char>|
            #![trigger describes_tool_error(te, u)]
            t == "tool error: "@ + u && describes_tool_error(te, u),
        AgentError::MaxIterationsReached(n) => t == "max iterations ("@ + decimal(n as nat)
            + ") reached without a final answer"@,
        AgentError::NoProvider => t == "no API key configured for this provider"@,
    }
}

impl AgentError {
    /// The text a user sees for this error.
    pub fn message(&self) -> (r: String)
        ensures
            describes_agent_error(*self, r@),
    {
        let mut s = String::new();
        match self {
            AgentError::Provider(p) => {
                push_str(&mut s, "provider error: ");
                let m = p.message();
                push_str(&mut s, m.as_str());
            },
            AgentError::Tool(t) => {
                push_str(&mut s, "tool error: ");
                let m = t.message();
                push_str(&mut s, m.as_str());
                assert(describes_tool_error(*t, m@));
            },
            AgentError::MaxIterationsReached(n) => {
                push_str(&mut s, "max iterations (");
                push_decimal(&mut s, *n as u64);
                push_str(&mut s, ") reached without a final answer");
            },
            AgentError::NoProvider => {
                push_str(&mut s, "no API key configured for this provider");
            },
        }
        s
    }
}

/// How long to wait before calling the provider again.
#[derive(Debug)]
pub enum RetryDelay {
    /// The wait the provider asked for.
    Given(std::time::Duration),
    Millis(u64),
}

/// What the driver must do next.
#[derive(Debug)]
pub enum AgentStep {
    /// Send the context, the tool definitions and the model to the provider
    /// and report the reply with [`AgentCore::on_provider_reply`].
    CallProvider,
    /// Wait, then call the provider again with the same request.
    Retry(RetryDelay),
    /// Ask the confirmation hook about the tool call at this index of the last
    /// message, and report with [`AgentCore::on_confirmation`].
    Confirm(usize),
    /// Run the tool calls at these indices of the last message and report
    /// their results, in this order, with [`AgentCore::on_tool_results`].
    Execute(Vec<usize>),
    /// The run is over.
    Finished(Result<String, AgentError>),
}

/// What became of one tool call of the current iteration.
#[derive(Debug, Clone, Copy, PartialEq, Eq, Structural)]
pub enum CallStatus {
    Pending,
    Missing,
    Denied,
    Approved,
}

/// Where a run stands.
#[derive(Debug, Clone, Copy, PartialEq, Eq, Structural)]
pub enum Phase {
    Idle,
    AwaitingReply,
    AwaitingConfirm,
    AwaitingResults,
}

/// The abstract state of an agent.
pub struct AgentCoreView {
    pub context: Seq<Message>,
    pub model: Seq<char>,
    pub max_iterations: nat,
    pub tool_names: Seq<Seq<char>>,
    pub has_provider: bool,
    pub has_confirm_hook: bool,
    pub phase: Phase,
    pub iteration: nat,
    pub attempts: nat,
    pub call_ids: Seq<Seq<char>>,
    pub call_names: Seq<Seq<char>>,
    pub statuses: Seq<CallStatus>,
    pub cursor: nat,
}

/// The state an agent keeps across the steps of a run.
pub struct AgentCore {
    context: ConversationContext,
    model: String,
    max_iterations: usize,
    tool_names: Vec<String>,
    has_provider: bool,
    has_confirm_hook: bool,
    phase: Phase,
    iteration: usize,
    attempts: usize,
    call_ids: Vec<String>,
    call_names: Vec<String>,
    statuses: Vec<CallStatus>,
    cursor: usize,
}

/// The text of the reply given to each tool call left unanswered when the
/// iteration budget runs out.
pub open spec fn budget_reply_text() -> Seq<char> {
    "error: max iterations reached before tool could run"@
}

/// The text of the reply to a call of a tool that is not registered.
pub open spec fn missing_reply_text(name: Seq<char>) -> Seq<char> {
    "error: tool not found: "@ + name
}

/// The text of the reply to a call the user refused.
pub open spec fn denied_reply_text() -> Seq<char> {
    "error: denied: rejected by user"@
}

/// Whether `t` is the reply text for the tool result `r`.
pub open spec fn reply_text_for(r: Result<ToolOutput, ToolError>, t: Seq<char>) -> bool {
    match r {
        Ok(o) => t == o.content@,
        Err(e) => exists|u: Seq<char>|
            #![trigger describes_tool_error(e, u)]
            t == "error: "@ + u && describes_tool_error(e, u),
    }
}

/// The status a call gets without asking the user.
pub open spec fn auto_status(tools: Seq<Seq<char>>, name: Seq<char>) -> CallStatus {
    if tools.contains(name) {
        CallStatus::Approved
    } else {
        CallStatus::Missing
    }
}

/// The first call at or after `from` that must be put to the user, or the
/// number of calls when none is left.
pub open spec fn next_to_confirm(
    names: Seq<Seq<char>>,
    tools: Seq<Seq<char>>,
    hook: bool,
    from: int,
) -> int
    decreases names.len() - from,
{
    if from >= names.len() {
        names.len() as int
    } else if hook && tools.contains(names[from]) {
        from
    } else {
        next_to_confirm(names, tools, hook, from + 1)
    }
}

/// The indices, in order, of the approved calls among the first `k`.
pub open spec fn approved_upto(st: Seq<CallStatus>, k: int) -> Seq<int>
    decreases k,
{
    if k <= 0 {
        Seq::empty()
    } else {
        approved_upto(st, k - 1) + if st[k - 1] == CallStatus::Approved {
            seq![k - 1]
        } else {
            Seq::empty()
        }
    }
}

/// The replies, as (call id, text), to the missing and refused calls among
/// the first `k`, in call order.
pub open spec fn unresolved_upto(
    ids: Seq<Seq<char>>,
    names: Seq<Seq<char>>,
    st: Seq<CallStatus>,
    k: int,
) -> Seq<(Seq<char>, Seq<char>)>
    decreases k,
{
    if k <= 0 {
        Seq::empty()
    } else {
        unresolved_upto(ids, names, st, k - 1) + match st[k - 1] {
            CallStatus::Missing => seq![(ids[k - 1], missing_reply_text(names[k - 1]))],
            CallStatus::Denied => seq![(ids[k - 1], denied_reply_text())],
            _ => Seq::empty(),
        }
    }
}

/// Whether the tool calls of `m` have the ids and names `ids` and `names`.
pub open spec fn calls_are(m: Message, ids: Seq<Seq<char>>, names: Seq<Seq<char>>) -> bool {
    &&& m.tool_calls@.len() == ids.len()
    &&& m.tool_calls@.len() == names.len()
    &&& forall|k: int|
        0 <= k < ids.len() ==> #[trigger] m.tool_calls@[k].id@ == ids[k]
            && m.tool_calls@[k].name@ == names[k]
}

/// `ctx` is `base` followed by the tool replies `replies`.
pub open spec fn extends_with_replies(
    ctx: Seq<Message>,
    base: Seq<Message>,
    replies: Seq<(Seq<char>, Seq<char>)>,
) -> bool {
    &&& ctx.len() == base.len() + replies.len()
    &&& forall|i: int| 0 <= i < base.len() ==> ctx[i] == base[i]
    &&& forall|i: int|
        0 <= i < replies.len() ==> is_tool_reply(
            #[trigger] ctx[base.len() + i],
            replies[i].0,
            replies[i].1,
        )
}

/// `a` and `b` agree on everything but the conversation and the run.
pub open spec fn same_setup(a: AgentCoreView, b: AgentCoreView) -> bool {
    &&& a.model == b.model
    &&& a.max_iterations == b.max_iterations
    &&& a.tool_names == b.tool_names
    &&& a.has_provider == b.has_provider
    &&& a.has_confirm_hook == b.has_confirm_hook
}

/// `m` is a tool reply to call `id` carrying the result `r`.
pub open spec fn is_result_reply(m: Message, id: Seq<char>, r: Result<ToolOutput, ToolError>) -> bool {
    &&& m.role == Role::Tool
    &&& m.content is Some
    &&& reply_text_for(r, m.content->0@)
    &&& m.tool_calls@.len() == 0
    &&& m.tool_call_id is Some
    &&& m.tool_call_id->0@ == id
}

/// The ids of the tool calls of `m`.
pub open spec fn call_ids_of(m: Message) -> Seq<Seq<char>> {
    m.tool_calls@.map_values(|c: ToolCall| c.id@)
}

/// The tool names of the tool calls of `m`.
pub open spec fn call_names_of(m: Message) -> Seq<Seq<char>> {
    m.tool_calls@.map_values(|c: ToolCall| c.name@)
}

/// Whether `d` is the wait before retry number `attempt` after the error `e`.
pub open spec fn retry_delay_for(e: ProviderError, attempt: nat, d: RetryDelay) -> bool {
    match e {
        ProviderError::RateLimited { retry_after } => match retry_after {
            Some(x) => d == RetryDelay::Given(x),
            None => d == RetryDelay::Millis(1000),
        },
        _ => d == RetryDelay::Millis((500 * attempt) as u64),
    }
}

/// What resolving the calls from `pre.cursor` on does, and the step it ends in:
/// calls of unknown tools are missing; known ones are approved when no hook is
/// set, and otherwise the first of them is put to the user. Once every call is
/// resolved, the approved ones are handed out to run; when there are none,
/// the replies are recorded and the provider is called again.
pub open spec fn advanced(pre: AgentCoreView, post: AgentCoreView, step: AgentStep) -> bool {
    let n = pre.statuses.len() as int;
    let c = next_to_confirm(pre.call_names, pre.tool_names, pre.has_confirm_hook, pre.cursor as int);
    &&& same_setup(post, pre)
    &&& post.call_ids == pre.call_ids
    &&& post.call_names == pre.call_names
    &&& statuses_resolved_to(pre, post.statuses, c)
    &&& c < n ==> {
        &&& step matches AgentStep::Confirm(i) && i == c
        &&& post.phase == Phase::AwaitingConfirm
        &&& post.cursor == c
        &&& post.context == pre.context
        &&& post.iteration == pre.iteration
        &&& post.attempts == pre.attempts
    }
    &&& (c == n && approved_upto(post.statuses, n).len() > 0) ==> {
        &&& step matches AgentStep::Execute(v) && v@.map_values(|i: usize| i as int)
            == approved_upto(post.statuses, n)
        &&& post.phase == Phase::AwaitingResults
        &&& post.cursor == n
        &&& post.context == pre.context
        &&& post.iteration == pre.iteration
        &&& post.attempts == pre.attempts
    }
    &&& (c == n && approved_upto(post.statuses, n).len() == 0) ==> {
        &&& step is CallProvider
        &&& post.phase == Phase::AwaitingReply
        &&& post.iteration == pre.iteration + 1
        &&& post.attempts == 0
        &&& extends_with_replies(
            post.context,
            pre.context,
            unresolved_upto(pre.call_ids, pre.call_names, post.statuses, n),
        )
    }
}

/// The text of a message, or the empty text when it has none.
pub open spec fn content_text(m: Message) -> Seq<char> {
    match m.content {
        Some(c) => c@,
        None => Seq::empty(),
    }
}

/// The replies given to the calls of `m` when the iteration budget is spent.
pub open spec fn budget_replies(m: Message) -> Seq<(Seq<char>, Seq<char>)> {
    call_ids_of(m).map_values(|id: Seq<char>| (id, budget_reply_text()))
}

/// The state in which the calls of the assistant message `m`, just appended
/// to the context of `v`, start to be resolved.
pub open spec fn resolution_start(v: AgentCoreView, m: Message) -> AgentCoreView {
    AgentCoreView {
        context: v.context.push(m),
        call_ids: call_ids_of(m),
        call_names: call_names_of(m),
        statuses: Seq::new(m.tool_calls@.len(), |_k: int| CallStatus::Pending),
        cursor: 0,
        ..v
    }
}

/// `st` holds the statuses of `pre` with the calls from `pre.cursor` up to
/// `c` resolved without asking the user, and the calls from `c` on pending.
pub open spec fn statuses_resolved_to(pre: AgentCoreView, st: Seq<CallStatus>, c: int) -> bool {
    &&& st.len() == pre.statuses.len()
    &&& forall|k: int| 0 <= k < pre.cursor ==> st[k] == pre.statuses[k]
    &&& forall|k: int|
        pre.cursor <= k < c ==> st[k] == auto_status(pre.tool_names, pre.call_names[k])
    &&& forall|k: int| c <= k < st.len() ==> st[k] == CallStatus::Pending
}

/// The calls from `v.cursor` on are still to be resolved, those before are not.
pub open spec fn resolving(v: AgentCoreView) -> bool {
    &&& v.call_ids.len() == v.statuses.len()
    &&& v.call_names.len() == v.statuses.len()
    &&& v.cursor <= v.statuses.len()
    &&& v.iteration + 1 < v.max_iterations
    &&& v.attempts <= MAX_PROVIDER_RETRIES
    &&& v.context.len() > 0
    &&& calls_are(v.context.last(), v.call_ids, v.call_names)
    &&& forall|k: int| 0 <= k < v.cursor ==> v.statuses[k] != CallStatus::Pending
    &&& forall|k: int| v.cursor <= k < v.statuses.len() ==> v.statuses[k] == CallStatus::Pending
}

proof fn lemma_next_to_confirm_bounds(names: Seq<Seq<char>>, tools: Seq<Seq<char>>, hook: bool, from: int)
    requires
        0 <= from <= names.len(),
    ensures
        from <= next_to_confirm(names, tools, hook, from) <= names.len(),
    decreases names.len() - from,
{
    if from < names.len() {
        lemma_next_to_confirm_bounds(names, tools, hook, from + 1);
    }
}

/// The conversation only grows: resolving the calls of an iteration keeps
/// every earlier message as it was.
pub proof fn law_context_only_grows(pre: AgentCoreView, post: AgentCoreView, step: AgentStep)
    requires
        resolving(pre),
        advanced(pre, post, step),
    ensures
        pre.context.len() <= post.context.len(),
        post.context.take(pre.context.len() as int) == pre.context,
{
    let n = pre.statuses.len() as int;
    let c = next_to_confirm(pre.call_names, pre.tool_names, pre.has_confirm_hook, pre.cursor as int);
    lemma_next_to_confirm_bounds(pre.call_names, pre.tool_names, pre.has_confirm_hook, pre.cursor as int);
    if c == n && approved_upto(post.statuses, n).len() == 0 {
        assert(post.context.take(pre.context.len() as int) =~= pre.context);
    } else {
        assert(post.context == pre.context);
        assert(post.context.take(pre.context.len() as int) =~= pre.context);
    }
}

/// Whether `r` is a tool reply to the call `id`.
pub open spec fn answers(r: Message, id: Seq<char>) -> bool {
    &&& r.role == Role::Tool
    &&& r.tool_call_id is Some
    &&& r.tool_call_id->0@ == id
}

/// Whether `r` is a tool reply to one of the calls of `m`.
pub open spec fn replies_to(r: Message, m: Message) -> bool {
    exists|k: int| 0 <= k < m.tool_calls@.len() && #[trigger] answers(r, m.tool_calls@[k].id@)
}

/// Whether the tool calls of the message at `i` are answered right after it:
/// as many tool replies as it has calls follow it, each answers one of its
/// calls, and each of its calls is answered by one of them.
pub open spec fn answered_at(ctx: Seq<Message>, i: int) -> bool {
    let n = ctx[i].tool_calls@.len() as int;
    &&& i + n < ctx.len()
    &&& forall|q: int| i < q <= i + n ==> #[trigger] replies_to(ctx[q], ctx[i])
    &&& forall|k: int|
        #![trigger ctx[i].tool_calls@[k]]
        0 <= k < n ==> exists|q: int| i < q <= i + n && #[trigger] answers(ctx[q], ctx[i].tool_calls@[k].id@)
}

/// Whether `m` is a tool reply.
pub open spec fn is_tool(m: Message) -> bool {
    m.role == Role::Tool
}

/// Whether the message at `q` stands among the replies right after the
/// assistant message at `j`.
pub open spec fn in_replies_of(ctx: Seq<Message>, j: int, q: int) -> bool {
    &&& 0 <= j < q
    &&& ctx[j].role == Role::Assistant
    &&& q <= j + ctx[j].tool_calls@.len()
}

/// Whether every assistant message of the conversation has its tool calls
/// answered right after it, and every tool reply stands among the replies
/// right after an assistant message. A fresh agent starts so, and every step
/// keeps it (`new`, `start`, `on_provider_reply` for an assistant reply that
/// asks for tools exactly when its finish reason says so, `on_confirmation`,
/// `on_tool_results`), but for the calls of the last message while they are
/// being resolved or run: over a whole run, no call is left without a reply
/// and no reply answers anything but a call of the message before it
/// ([`law_one_reply_per_call`] adds that with distinct call ids each call
/// has exactly one reply before the next assistant message).
pub open spec fn calls_answered(ctx: Seq<Message>) -> bool {
    &&& forall|i: int| 0 <= i < ctx.len() && ctx[i].role == Role::Assistant ==> #[trigger] answered_at(ctx, i)
    &&& forall|q: int| 0 <= q < ctx.len() && #[trigger] is_tool(ctx[q]) ==> exists|j: int| in_replies_of(ctx, j, q)
}

/// The calls of every assistant message are answered, but for those of the
/// last message while its calls are being resolved or run.
pub open spec fn run_answered(v: AgentCoreView) -> bool {
    if v.phase == Phase::AwaitingConfirm || v.phase == Phase::AwaitingResults {
        &&& v.context.len() > 0
        &&& v.context.last().role == Role::Assistant
        &&& calls_answered(v.context.drop_last())
    } else {
        calls_answered(v.context)
    }
}

/// A provider reply that is an assistant message and asks for tools exactly
/// when it says so by its finish reason (errors are always consistent).
pub open spec fn reply_consistent(reply: Result<ChatResponse, ProviderError>) -> bool {
    reply matches Ok(resp) ==> {
        &&& resp.message.role == Role::Assistant
        &&& (resp.finish_reason == FinishReason::ToolCalls) == (resp.message.tool_calls@.len() > 0)
    }
}

proof fn lemma_answered_prefix(a: Seq<Message>, ctx: Seq<Message>)
    requires
        a.len() <= ctx.len(),
        forall|i: int| 0 <= i < a.len() ==> ctx[i] == a[i],
        calls_answered(a),
    ensures
        forall|i: int|
            0 <= i < a.len() && ctx[i].role == Role::Assistant ==> #[trigger] answered_at(ctx, i),
        forall|q: int| 0 <= q < a.len() && #[trigger] is_tool(ctx[q]) ==> exists|j: int| in_replies_of(ctx, j, q),
{
    assert forall|q: int| 0 <= q < a.len() && #[trigger] is_tool(ctx[q]) implies exists|j: int|
        in_replies_of(ctx, j, q) by {
        assert(is_tool(a[q]));
        let j = choose|j: int| in_replies_of(a, j, q);
        assert(in_replies_of(ctx, j, q));
    }
    assert forall|i: int| 0 <= i < a.len() && ctx[i].role == Role::Assistant implies #[trigger] answered_at(
        ctx,
        i,
    ) by {
        assert(answered_at(a, i));
        let n = a[i].tool_calls@.len() as int;
        assert forall|q: int| i < q <= i + n implies #[trigger] replies_to(ctx[q], ctx[i]) by {
            assert(ctx[q] == a[q]);
            assert(replies_to(a[q], a[i]));
        }
        assert forall|k: int|
            #![trigger ctx[i].tool_calls@[k]]
            0 <= k < n implies exists|q: int|
            i < q <= i + n && #[trigger] answers(ctx[q], ctx[i].tool_calls@[k].id@) by {
            assert(a[i].tool_calls@[k] == ctx[i].tool_calls@[k]);
            let q = choose|q: int| i < q <= i + n && #[trigger] answers(a[q], a[i].tool_calls@[k].id@);
            assert(ctx[q] == a[q]);
            assert(answers(ctx[q], ctx[i].tool_calls@[k].id@));
        }
    }
}

/// Appending a message without tool calls keeps every call answered.
proof fn lemma_answered_push_plain(ctx: Seq<Message>, m: Message)
    requires
        calls_answered(ctx),
        m.tool_calls@.len() == 0,
        m.role != Role::Tool,
    ensures
        calls_answered(ctx.push(m)),
{
    let c2 = ctx.push(m);
    lemma_answered_prefix(ctx, c2);
    assert(!is_tool(c2[ctx.len() as int]));
    assert forall|i: int| 0 <= i < c2.len() && c2[i].role == Role::Assistant implies #[trigger] answered_at(
        c2,
        i,
    ) by {
        if i == ctx.len() {
            assert(c2[i] == m);
        }
    }
}

/// Appending the message `m` and then replies, one per call of `m`, that
/// answer its calls (`reply_ids[j]` is the call the reply `j` answers) keeps
/// every call answered.
proof fn lemma_answered_with_replies(base: Seq<Message>, ctx: Seq<Message>, reply_ids: Seq<Seq<char>>)
    requires
        calls_answered(base),
        ctx.len() == base.len() + 1 + reply_ids.len(),
        forall|i: int| 0 <= i < base.len() ==> ctx[i] == base[i],
        reply_ids.len() == ctx[base.len() as int].tool_calls@.len(),
        ctx[base.len() as int].role == Role::Assistant,
        forall|j: int| 0 <= j < reply_ids.len() ==> answers(#[trigger] ctx[base.len() + 1 + j], reply_ids[j]),
        forall|j: int|
            0 <= j < reply_ids.len() ==> is_call_id(
                call_ids_of(ctx[base.len() as int]),
                reply_ids.len() as int,
                #[trigger] reply_ids[j],
            ),
        forall|k: int|
            0 <= k < reply_ids.len() ==> is_call_id(
                reply_ids,
                reply_ids.len() as int,
                #[trigger] ctx[base.len() as int].tool_calls@[k].id@,
            ),
    ensures
        calls_answered(ctx),
{
    lemma_answered_prefix(base, ctx);
    let b = base.len() as int;
    let n = reply_ids.len() as int;
    assert forall|q: int| 0 <= q < ctx.len() && #[trigger] is_tool(ctx[q]) implies exists|j: int|
        in_replies_of(ctx, j, q) by {
        if q > b {
            assert(in_replies_of(ctx, b, q));
        }
    }
    assert forall|i: int| 0 <= i < ctx.len() && ctx[i].role == Role::Assistant implies #[trigger] answered_at(
        ctx,
        i,
    ) by {
        if i == b {
            assert forall|q: int| i < q <= i + n implies #[trigger] replies_to(ctx[q], ctx[i]) by {
                let j = q - b - 1;
                assert(answers(ctx[b + 1 + j], reply_ids[j]));
                assert(is_call_id(call_ids_of(ctx[b]), n, reply_ids[j]));
                let k = choose|k: int| 0 <= k < n && #[trigger] call_ids_of(ctx[b])[k] == reply_ids[j];
                assert(answers(ctx[q], ctx[i].tool_calls@[k].id@));
            }
            assert forall|k: int|
                #![trigger ctx[i].tool_calls@[k]]
                0 <= k < n implies exists|q: int|
                i < q <= i + n && #[trigger] answers(ctx[q], ctx[i].tool_calls@[k].id@) by {
                assert(is_call_id(reply_ids, n, ctx[b].tool_calls@[k].id@));
                let j = choose|j: int| 0 <= j < n && #[trigger] reply_ids[j] == ctx[b].tool_calls@[k].id@;
                assert(answers(ctx[b + 1 + j], reply_ids[j]));
                assert(answers(ctx[b + 1 + j], ctx[i].tool_calls@[k].id@));
            }
        } else if i > b {
            assert(answers(ctx[b + 1 + (i - b - 1)], reply_ids[i - b - 1]));
        }
    }
}

/// The index of the call of `m` that the reply `r` answers.
spec fn answered_call(m: Message, r: Message) -> int {
    choose|k: int| 0 <= k < m.tool_calls@.len() && answers(r, m.tool_calls@[k].id@)
}

/// Within the replies right after an assistant message whose call ids are
/// distinct, no two replies answer the same call: the replies are as many as
/// the calls and together answer all of them.
proof fn lemma_block_unique(ctx: Seq<Message>, i: int, k: int, q1: int, q2: int)
    requires
        0 <= i < ctx.len(),
        answered_at(ctx, i),
        call_ids_of(ctx[i]).no_duplicates(),
        0 <= k < ctx[i].tool_calls@.len(),
        i < q1 <= i + ctx[i].tool_calls@.len(),
        i < q2 <= i + ctx[i].tool_calls@.len(),
        answers(ctx[q1], ctx[i].tool_calls@[k].id@),
        answers(ctx[q2], ctx[i].tool_calls@[k].id@),
    ensures
        q1 == q2,
{
    if q1 != q2 {
        let m = ctx[i];
        let n = m.tool_calls@.len() as int;
        let ids = call_ids_of(m);
        let f = |q: int| answered_call(m, ctx[q]);
        let d = set_int_range(i + 1, i + n + 1).remove(q2);
        lemma_int_range(i + 1, i + n + 1);
        lemma_map_size_bound(d, d.map(f), f);
        lemma_int_range(0, n);
        assert forall|c: int| #[trigger] set_int_range(0, n).contains(c) implies d.map(f).contains(c) by {
            assert(ctx[i].tool_calls@[c] == m.tool_calls@[c]);
            let q = choose|q: int| i < q <= i + n && #[trigger] answers(ctx[q], ctx[i].tool_calls@[c].id@);
            let qq = if c == k { q1 } else { q };
            assert(answers(ctx[qq], m.tool_calls@[c].id@));
            if qq == q2 {
                assert(ids[c] == ids[k]);
            }
            assert(d.contains(qq));
            assert(replies_to(ctx[qq], m));
            let c2 = f(qq);
            assert(0 <= c2 < n && answers(ctx[qq], m.tool_calls@[c2].id@));
            if c2 != c {
                assert(ids[c2] == ids[c]);
            }
            assert(d.map(f).contains(f(qq)));
        }
        lemma_len_subset(set_int_range(0, n), d.map(f));
        assert(false);
    }
}

/// With distinct call ids, each tool call of an assistant message has
/// exactly one reply before the next assistant message: one among the
/// replies right after the message, and none later before the next
/// assistant message.
pub proof fn law_one_reply_per_call(ctx: Seq<Message>, i: int, k: int)
    requires
        calls_answered(ctx),
        0 <= i < ctx.len(),
        ctx[i].role == Role::Assistant,
        call_ids_of(ctx[i]).no_duplicates(),
        0 <= k < ctx[i].tool_calls@.len(),
    ensures
        i + ctx[i].tool_calls@.len() < ctx.len(),
        exists|q: int|
            i < q <= i + ctx[i].tool_calls@.len() && #[trigger] answers(ctx[q], ctx[i].tool_calls@[k].id@),
        forall|q1: int, q2: int|
            i < q1 <= i + ctx[i].tool_calls@.len() && i < q2 <= i + ctx[i].tool_calls@.len()
                && #[trigger] answers(ctx[q1], ctx[i].tool_calls@[k].id@) && #[trigger] answers(
                ctx[q2],
                ctx[i].tool_calls@[k].id@,
            ) ==> q1 == q2,
        forall|q: int|
            i < q < ctx.len() && #[trigger] answers(ctx[q], ctx[i].tool_calls@[k].id@) && (forall|p: int|
                i < p <= q ==> ctx[p].role != Role::Assistant) ==> q <= i + ctx[i].tool_calls@.len(),
{
    assert(answered_at(ctx, i));
    assert forall|q: int|
        i < q < ctx.len() && #[trigger] answers(ctx[q], ctx[i].tool_calls@[k].id@) && (forall|p: int|
            i < p <= q ==> ctx[p].role != Role::Assistant) implies q <= i + ctx[i].tool_calls@.len() by {
        assert(is_tool(ctx[q]));
        let j = choose|j: int| in_replies_of(ctx, j, q);
        if j > i {
            assert(ctx[j].role != Role::Assistant);
        } else if j < i {
            assert(answered_at(ctx, j));
            if i <= j + ctx[j].tool_calls@.len() {
                assert(replies_to(ctx[i], ctx[j]));
                let c = choose|c: int| 0 <= c < ctx[j].tool_calls@.len() && #[trigger] answers(
                    ctx[i],
                    ctx[j].tool_calls@[c].id@,
                );
            }
        }
    }
    assert(ctx[i].tool_calls@[k] == ctx[i].tool_calls@[k]);
    assert forall|q1: int, q2: int|
        i < q1 <= i + ctx[i].tool_calls@.len() && i < q2 <= i + ctx[i].tool_calls@.len()
            && #[trigger] answers(ctx[q1], ctx[i].tool_calls@[k].id@) && #[trigger] answers(
            ctx[q2],
            ctx[i].tool_calls@[k].id@,
        ) implies q1 == q2 by {
        lemma_block_unique(ctx, i, k, q1, q2);
    }
}

/// Whether `x` is one of the first `n` call ids.
pub open spec fn is_call_id(ids: Seq<Seq<char>>, n: int, x: Seq<char>) -> bool {
    exists|k: int| 0 <= k < n && #[trigger] ids[k] == x
}

/// Every recorded reply answers one of the calls.
proof fn lemma_unresolved_ids(ids: Seq<Seq<char>>, names: Seq<Seq<char>>, st: Seq<CallStatus>, n: int)
    requires
        0 <= n <= st.len(),
        ids.len() == st.len(),
        names.len() == st.len(),
    ensures
        forall|i: int|
            0 <= i < unresolved_upto(ids, names, st, n).len() ==> is_call_id(
                ids,
                n,
                #[trigger] unresolved_upto(ids, names, st, n)[i].0,
            ),
    decreases n,
{
    if n > 0 {
        lemma_unresolved_ids(ids, names, st, n - 1);
        let u0 = unresolved_upto(ids, names, st, n - 1);
        let u1 = unresolved_upto(ids, names, st, n);
        let tail: Seq<(Seq<char>, Seq<char>)> = match st[n - 1] {
            CallStatus::Missing => seq![(ids[n - 1], missing_reply_text(names[n - 1]))],
            CallStatus::Denied => seq![(ids[n - 1], denied_reply_text())],
            _ => Seq::empty(),
        };
        assert(u1 == u0 + tail);
        assert forall|i: int| 0 <= i < u1.len() implies is_call_id(ids, n, #[trigger] u1[i].0) by {
            if i < u0.len() {
                assert(u1[i] == u0[i]);
                assert(is_call_id(ids, n - 1, u0[i].0));
                let k = choose|k: int| 0 <= k < n - 1 && #[trigger] ids[k] == u0[i].0;
                assert(ids[k] == u1[i].0);
            } else {
                assert(u1[i] == tail[i - u0.len()]);
                assert(ids[n - 1] == u1[i].0);
            }
        }
    }
}

/// Every approved index is one of the calls.
proof fn lemma_approved_bounds(st: Seq<CallStatus>, n: int)
    requires
        0 <= n <= st.len(),
    ensures
        forall|j: int| 0 <= j < approved_upto(st, n).len() ==> 0 <= #[trigger] approved_upto(st, n)[j] < n,
    decreases n,
{
    if n > 0 {
        lemma_approved_bounds(st, n - 1);
        let a0 = approved_upto(st, n - 1);
        let a1 = approved_upto(st, n);
        assert forall|j: int| 0 <= j < a1.len() implies 0 <= #[trigger] a1[j] < n by {
            if j < a0.len() {
                assert(a1[j] == a0[j]);
            }
        }
    }
}

/// Replies appended after the message `m` (the last of `base`), one per
/// call of `m` in call order, keep every call answered.
proof fn lemma_replies_in_order(base: Seq<Message>, ctx: Seq<Message>, replies: Seq<(Seq<char>, Seq<char>)>)
    requires
        base.len() > 0,
        base.last().role == Role::Assistant,
        calls_answered(base.drop_last()),
        extends_with_replies(ctx, base, replies),
        replies.len() == base.last().tool_calls@.len(),
        forall|j: int| 0 <= j < replies.len() ==> #[trigger] replies[j].0 == base.last().tool_calls@[j].id@,
    ensures
        calls_answered(ctx),
{
    let b = base.drop_last();
    let ids = replies.map_values(|r: (Seq<char>, Seq<char>)| r.0);
    assert forall|j: int| 0 <= j < ids.len() implies answers(#[trigger] ctx[b.len() + 1 + j], ids[j]) by {
        assert(is_tool_reply(ctx[base.len() + j], replies[j].0, replies[j].1));
    }
    assert forall|j: int| 0 <= j < ids.len() implies is_call_id(
        call_ids_of(ctx[b.len() as int]),
        ids.len() as int,
        #[trigger] ids[j],
    ) by {
        assert(ctx[b.len() as int] == base.last());
        assert(ids[j] == replies[j].0);
        assert(call_ids_of(ctx[b.len() as int])[j] == ids[j]);
    }
    assert forall|k: int| 0 <= k < ids.len() implies is_call_id(
        ids,
        ids.len() as int,
        #[trigger] ctx[b.len() as int].tool_calls@[k].id@,
    ) by {
        assert(ctx[b.len() as int] == base.last());
        assert(ids[k] == replies[k].0);
    }
    assert(ctx[b.len() as int] == base.last());
    lemma_answered_with_replies(b, ctx, ids);
}

/// Resolving the calls of an iteration keeps every call answered, but for
/// those of the last message while they are being resolved or run.
proof fn lemma_advanced_answered(pre: AgentCoreView, post: AgentCoreView, step: AgentStep)
    requires
        resolving(pre),
        advanced(pre, post, step),
        pre.context.last().role == Role::Assistant,
        calls_answered(pre.context.drop_last()),
    ensures
        run_answered(post),
{
    let n = pre.statuses.len() as int;
    let c = next_to_confirm(pre.call_names, pre.tool_names, pre.has_confirm_hook, pre.cursor as int);
    lemma_next_to_confirm_bounds(pre.call_names, pre.tool_names, pre.has_confirm_hook, pre.cursor as int);
    if c == n && approved_upto(post.statuses, n).len() == 0 {
        let st = post.statuses;
        assert forall|k: int| 0 <= k < st.len() implies st[k] != CallStatus::Pending by {
            if k >= pre.cursor {
                assert(st[k] == auto_status(pre.tool_names, pre.call_names[k]));
            }
        }
        law_every_call_answered(pre.call_ids, pre.call_names, st);
        let u = unresolved_upto(pre.call_ids, pre.call_names, st, n);
        lemma_unresolved_ids(pre.call_ids, pre.call_names, st, n);
        let m = pre.context.last();
        let b = pre.context.drop_last();
        let ids = u.map_values(|r: (Seq<char>, Seq<char>)| r.0);
        let ctx = post.context;
        assert forall|j: int| 0 <= j < ids.len() implies answers(#[trigger] ctx[b.len() + 1 + j], ids[j]) by {
            assert(is_tool_reply(ctx[pre.context.len() + j], u[j].0, u[j].1));
        }
        assert forall|j: int| 0 <= j < ids.len() implies is_call_id(
            call_ids_of(ctx[b.len() as int]),
            ids.len() as int,
            #[trigger] ids[j],
        ) by {
            assert(ctx[b.len() as int] == m);
            assert(is_call_id(pre.call_ids, n, u[j].0));
            let k = choose|k: int| 0 <= k < n && #[trigger] pre.call_ids[k] == u[j].0;
            assert(m.tool_calls@[k].id@ == pre.call_ids[k]);
            assert(call_ids_of(ctx[b.len() as int])[k] == ids[j]);
        }
        assert forall|k: int| 0 <= k < ids.len() implies is_call_id(
            ids,
            ids.len() as int,
            #[trigger] ctx[b.len() as int].tool_calls@[k].id@,
        ) by {
            assert(ctx[b.len() as int] == m);
            if st[k] == CallStatus::Approved {
                assert(approved_upto(st, n).contains(k));
            }
            let j = choose|j: int| 0 <= j < u.len() && #[trigger] u[j].0 == pre.call_ids[k];
            assert(ids[j] == u[j].0);
            assert(m.tool_calls@[k].id@ == pre.call_ids[k]);
        }
        assert forall|i: int| 0 <= i < b.len() implies ctx[i] == b[i] by {
            assert(ctx[i] == pre.context[i]);
        }
        lemma_answered_with_replies(b, ctx, ids);
    } else {
        assert(post.context == pre.context);
    }
}

/// The replies recorded and handed back at the end of an iteration answer
/// every call of the iteration's message.
proof fn lemma_results_answered(v: AgentCoreView, ctx: Seq<Message>, rlen: int)
    requires
        core_wf(v),
        v.phase == Phase::AwaitingResults,
        run_answered(v),
        rlen == approved_upto(v.statuses, v.statuses.len() as int).len(),
        ({
            let n = v.statuses.len() as int;
            let u = unresolved_upto(v.call_ids, v.call_names, v.statuses, n);
            let a = approved_upto(v.statuses, n);
            &&& ctx.len() == v.context.len() + u.len() + rlen
            &&& extends_with_replies(ctx.subrange(0, (v.context.len() + u.len()) as int), v.context, u)
            &&& forall|j: int|
                0 <= j < rlen ==> 0 <= a[j] < n && answers(
                    #[trigger] ctx[v.context.len() + u.len() + j],
                    v.call_ids[a[j]],
                )
        }),
    ensures
        calls_answered(ctx),
{
    let n = v.statuses.len() as int;
    let st = v.statuses;
    let u = unresolved_upto(v.call_ids, v.call_names, st, n);
    let a = approved_upto(st, n);
    law_every_call_answered(v.call_ids, v.call_names, st);
    lemma_unresolved_ids(v.call_ids, v.call_names, st, n);
    lemma_approved_bounds(st, n);
    let m = v.context.last();
    let b = v.context.drop_last();
    let pre = ctx.subrange(0, (v.context.len() + u.len()) as int);
    let ids = u.map_values(|r: (Seq<char>, Seq<char>)| r.0) + a.map_values(|k: int| v.call_ids[k]);
    assert(ids.len() == n);
    assert forall|j: int| 0 <= j < ids.len() implies answers(#[trigger] ctx[b.len() + 1 + j], ids[j]) by {
        if j < u.len() {
            assert(is_tool_reply(pre[v.context.len() + j], u[j].0, u[j].1));
            assert(pre[v.context.len() + j] == ctx[v.context.len() + j]);
        } else {
            assert(answers(ctx[v.context.len() + u.len() + (j - u.len())], v.call_ids[a[j - u.len()]]));
        }
    }
    assert forall|j: int| 0 <= j < ids.len() implies is_call_id(
        call_ids_of(ctx[b.len() as int]),
        ids.len() as int,
        #[trigger] ids[j],
    ) by {
        assert(ctx[b.len() as int] == pre[b.len() as int]);
        assert(pre[b.len() as int] == m);
        if j < u.len() {
            assert(is_call_id(v.call_ids, n, u[j].0));
            let k = choose|k: int| 0 <= k < n && #[trigger] v.call_ids[k] == u[j].0;
            assert(m.tool_calls@[k].id@ == v.call_ids[k]);
            assert(call_ids_of(ctx[b.len() as int])[k] == ids[j]);
        } else {
            let k = a[j - u.len()];
            assert(0 <= k < n);
            assert(m.tool_calls@[k].id@ == v.call_ids[k]);
            assert(call_ids_of(ctx[b.len() as int])[k] == ids[j]);
        }
    }
    assert forall|k: int| 0 <= k < ids.len() implies is_call_id(
        ids,
        ids.len() as int,
        #[trigger] ctx[b.len() as int].tool_calls@[k].id@,
    ) by {
        assert(ctx[b.len() as int] == pre[b.len() as int]);
        assert(pre[b.len() as int] == m);
        assert(m.tool_calls@[k].id@ == v.call_ids[k]);
        if st[k] == CallStatus::Approved {
            assert(a.contains(k));
            let j = choose|j: int| 0 <= j < a.len() && a[j] == k;
            assert(ids[u.len() + j] == v.call_ids[k]);
        } else {
            let j = choose|j: int| 0 <= j < u.len() && #[trigger] u[j].0 == v.call_ids[k];
            assert(ids[j] == u[j].0);
        }
    }
    assert forall|i: int| 0 <= i < b.len() implies ctx[i] == b[i] by {
        assert(ctx[i] == pre[i]);
        assert(pre[i] == v.context[i]);
    }
    lemma_answered_with_replies(b, ctx, ids);
}

/// Once every call of an iteration is resolved, each call gets exactly one
/// reply: the missing and refused calls one each among the recorded replies,
/// the approved calls one each among the results handed back; so there are as
/// many replies as calls, and no call is left dangling.
pub proof fn law_every_call_answered(
    ids: Seq<Seq<char>>,
    names: Seq<Seq<char>>,
    st: Seq<CallStatus>,
)
    requires
        ids.len() == st.len(),
        names.len() == st.len(),
        forall|k: int| 0 <= k < st.len() ==> st[k] != CallStatus::Pending,
    ensures
        unresolved_upto(ids, names, st, st.len() as int).len() + approved_upto(
            st,
            st.len() as int,
        ).len() == st.len(),
        forall|k: int|
            0 <= k < st.len() && st[k] == CallStatus::Approved ==> approved_upto(
                st,
                st.len() as int,
            ).contains(k),
        forall|k: int|
            0 <= k < st.len() && st[k] != CallStatus::Approved ==> exists|i: int|
                0 <= i < unresolved_upto(ids, names, st, st.len() as int).len()
                    && #[trigger] unresolved_upto(ids, names, st, st.len() as int)[i].0 == ids[k],
{
    lemma_answers_upto(ids, names, st, st.len() as int);
}

/// [`law_every_call_answered`] for the first `n` calls.
proof fn lemma_answers_upto(ids: Seq<Seq<char>>, names: Seq<Seq<char>>, st: Seq<CallStatus>, n: int)
    requires
        ids.len() == st.len(),
        names.len() == st.len(),
        0 <= n <= st.len(),
        forall|k: int| 0 <= k < st.len() ==> st[k] != CallStatus::Pending,
    ensures
        unresolved_upto(ids, names, st, n).len() + approved_upto(st, n).len() == n,
        forall|k: int| 0 <= k < n && st[k] == CallStatus::Approved ==> approved_upto(st, n).contains(k),
        forall|k: int|
            0 <= k < n && st[k] != CallStatus::Approved ==> exists|i: int|
                0 <= i < unresolved_upto(ids, names, st, n).len()
                    && #[trigger] unresolved_upto(ids, names, st, n)[i].0 == ids[k],
    decreases n,
{
    if n > 0 {
        lemma_answers_upto(ids, names, st, n - 1);
        let u0 = unresolved_upto(ids, names, st, n - 1);
        let a0 = approved_upto(st, n - 1);
        let u1 = unresolved_upto(ids, names, st, n);
        let a1 = approved_upto(st, n);
        assert forall|k: int| 0 <= k < n && st[k] == CallStatus::Approved implies a1.contains(k) by {
            if k < n - 1 {
                let j = choose|j: int| 0 <= j < a0.len() && a0[j] == k;
                assert(a1[j] == k);
            } else {
                assert(a1[a1.len() - 1] == k);
            }
        }
        assert forall|k: int| 0 <= k < n && st[k] != CallStatus::Approved implies exists|i: int|
            0 <= i < u1.len() && #[trigger] u1[i].0 == ids[k] by {
            if k < n - 1 {
                let i = choose|i: int| 0 <= i < u0.len() && #[trigger] u0[i].0 == ids[k];
                assert(u1[i] == u0[i]);
            } else {
                assert(u1[u1.len() - 1].0 == ids[k]);
            }
        }
    }
}

/// With a confirmation hook, the next call put to the user is the first call
/// of a registered tool at or after `from`: every call of a registered tool
/// is asked about in turn, and only the calls before it, all of unknown
/// tools, are resolved without asking.
pub proof fn law_hook_asks_each_registered_call(names: Seq<Seq<char>>, tools: Seq<Seq<char>>, from: int)
    requires
        0 <= from <= names.len(),
    ensures
        from <= next_to_confirm(names, tools, true, from) <= names.len(),
        forall|k: int|
            from <= k < next_to_confirm(names, tools, true, from) ==> !tools.contains(#[trigger] names[k]),
        next_to_confirm(names, tools, true, from) < names.len() ==> tools.contains(
            names[next_to_confirm(names, tools, true, from)],
        ),
    decreases names.len() - from,
{
    if from < names.len() {
        law_hook_asks_each_registered_call(names, tools, from + 1);
    }
}

/// With a confirmation hook, resolving calls approves none of them on its
/// own: every call from the cursor on ends missing (an unknown tool) or
/// still pending, so a call is approved only by the user's answer to it.
pub proof fn law_hook_approves_nothing_unasked(pre: AgentCoreView, post: AgentCoreView, step: AgentStep)
    requires
        resolving(pre),
        pre.has_confirm_hook,
        advanced(pre, post, step),
    ensures
        forall|k: int|
            pre.cursor <= k < post.statuses.len() ==> #[trigger] post.statuses[k] != CallStatus::Approved,
{
    law_hook_asks_each_registered_call(pre.call_names, pre.tool_names, pre.cursor as int);
    let c = next_to_confirm(pre.call_names, pre.tool_names, true, pre.cursor as int);
    assert forall|k: int| pre.cursor <= k < post.statuses.len() implies #[trigger] post.statuses[k]
        != CallStatus::Approved by {
        if k < c {
            assert(!pre.tool_names.contains(pre.call_names[k]));
        }
    }
}

/// The calls handed out to run are exactly the approved ones, each once, in
/// call order.
pub proof fn law_approved_in_call_order(st: Seq<CallStatus>, n: int)
    requires
        0 <= n <= st.len(),
    ensures
        forall|j: int|
            0 <= j < approved_upto(st, n).len() ==> 0 <= #[trigger] approved_upto(st, n)[j] < n
                && st[approved_upto(st, n)[j]] == CallStatus::Approved,
        forall|j1: int, j2: int|
            0 <= j1 < j2 < approved_upto(st, n).len() ==> #[trigger] approved_upto(st, n)[j1]
                < #[trigger] approved_upto(st, n)[j2],
        forall|k: int| 0 <= k < n && st[k] == CallStatus::Approved ==> #[trigger] approved_upto(st, n).contains(k),
    decreases n,
{
    if n > 0 {
        law_approved_in_call_order(st, n - 1);
        let a0 = approved_upto(st, n - 1);
        let a1 = approved_upto(st, n);
        assert forall|j: int| 0 <= j < a1.len() implies 0 <= #[trigger] a1[j] < n && st[a1[j]]
            == CallStatus::Approved by {
            if j < a0.len() {
                assert(a1[j] == a0[j]);
            }
        }
        assert forall|j1: int, j2: int| 0 <= j1 < j2 < a1.len() implies #[trigger] a1[j1] < #[trigger] a1[j2] by {
            assert(a1[j1] == a0[j1]);
            if j2 < a0.len() {
                assert(a1[j2] == a0[j2]);
            }
        }
        assert forall|k: int| 0 <= k < n && st[k] == CallStatus::Approved implies #[trigger] a1.contains(k) by {
            if k < n - 1 {
                assert(a0.contains(k));
                let j = choose|j: int| 0 <= j < a0.len() && a0[j] == k;
                assert(a1[j] == k);
            } else {
                assert(a1[a1.len() - 1] == k);
            }
        }
    }
}

/// Whether `e` is the reply recorded for the call `k` without running it: a
/// call of an unknown tool is answered that the tool was not found, a
/// refused call that it was denied.
pub open spec fn recorded_reply_for(
    ids: Seq<Seq<char>>,
    names: Seq<Seq<char>>,
    st: Seq<CallStatus>,
    k: int,
    e: (Seq<char>, Seq<char>),
) -> bool {
    ||| st[k] == CallStatus::Missing && e == (ids[k], "error: tool not found: "@ + names[k])
    ||| st[k] == CallStatus::Denied && e == (ids[k], "error: denied: rejected by user"@)
}

/// Whether `ks` are the calls, in order, that the replies `u` answer: the
/// reply `i` is the one recorded for the call `ks[i]`, and every missing or
/// refused call among the first `n` is one of them.
pub open spec fn replies_follow_calls(
    ids: Seq<Seq<char>>,
    names: Seq<Seq<char>>,
    st: Seq<CallStatus>,
    n: int,
    u: Seq<(Seq<char>, Seq<char>)>,
    ks: Seq<int>,
) -> bool {
    &&& ks.len() == u.len()
    &&& forall|i: int| 0 <= i < ks.len() ==> 0 <= #[trigger] ks[i] < n && recorded_reply_for(ids, names, st, ks[i], u[i])
    &&& forall|i1: int, i2: int| 0 <= i1 < i2 < ks.len() ==> #[trigger] ks[i1] < #[trigger] ks[i2]
    &&& forall|k: int|
        0 <= k < n && (st[k] == CallStatus::Missing || st[k] == CallStatus::Denied) ==> #[trigger] ks.contains(k)
}

/// The replies recorded without running a tool answer exactly the missing and
/// refused calls, one each and in call order, with the reply text each
/// deserves.
pub proof fn law_unresolved_in_call_order(ids: Seq<Seq<char>>, names: Seq<Seq<char>>, st: Seq<CallStatus>, n: int)
    requires
        0 <= n <= st.len(),
        ids.len() == st.len(),
        names.len() == st.len(),
    ensures
        exists|ks: Seq<int>| #[trigger] replies_follow_calls(ids, names, st, n, unresolved_upto(ids, names, st, n), ks),
    decreases n,
{
    let u = unresolved_upto(ids, names, st, n);
    if n == 0 {
        let ks = Seq::<int>::empty();
        assert(replies_follow_calls(ids, names, st, n, u, ks));
    } else {
        law_unresolved_in_call_order(ids, names, st, n - 1);
        let u0 = unresolved_upto(ids, names, st, n - 1);
        let k0 = choose|ks: Seq<int>| #[trigger] replies_follow_calls(ids, names, st, n - 1, u0, ks);
        let unresolved = st[n - 1] == CallStatus::Missing || st[n - 1] == CallStatus::Denied;
        let ks = if unresolved { k0.push(n - 1) } else { k0 };
        assert(ks.len() == u.len());
        assert forall|i: int| 0 <= i < ks.len() implies 0 <= #[trigger] ks[i] < n && recorded_reply_for(
            ids,
            names,
            st,
            ks[i],
            u[i],
        ) by {
            if i < k0.len() {
                assert(ks[i] == k0[i]);
                assert(u[i] == u0[i]);
            }
        }
        assert forall|i1: int, i2: int| 0 <= i1 < i2 < ks.len() implies #[trigger] ks[i1] < #[trigger] ks[i2] by {
            assert(ks[i1] == k0[i1]);
            if i2 < k0.len() {
                assert(ks[i2] == k0[i2]);
            }
        }
        assert forall|k: int|
            0 <= k < n && (st[k] == CallStatus::Missing || st[k] == CallStatus::Denied) implies #[trigger] ks.contains(
            k,
        ) by {
            if k < n - 1 {
                assert(k0.contains(k));
                let j = choose|j: int| 0 <= j < k0.len() && k0[j] == k;
                assert(ks[j] == k);
            } else {
                assert(ks[ks.len() - 1] == k);
            }
        }
        assert(replies_follow_calls(ids, names, st, n, u, ks));
    }
}

/// Each failed provider call is retried after a wait that grows by half a
/// second with each attempt, starting at half a second; when the provider
/// is rate limiting, it waits as long as the provider asked, or a second
/// when it did not say.
pub proof fn law_retry_waits(e: ProviderError, attempt: nat, d1: RetryDelay, d2: RetryDelay)
    requires
        attempt + 1 <= MAX_PROVIDER_RETRIES,
        retry_delay_for(e, attempt, d1),
        retry_delay_for(e, attempt + 1, d2),
    ensures
        !(e is RateLimited) ==> (d1 matches RetryDelay::Millis(a) && d2 matches RetryDelay::Millis(b) && a
            == 500 * attempt && b == a + 500),
        e matches ProviderError::RateLimited { retry_after: Some(x) } ==> d1 == RetryDelay::Given(x) && d2
            == RetryDelay::Given(x),
        e matches ProviderError::RateLimited { retry_after: None } ==> d1 == RetryDelay::Millis(1000) && d2
            == RetryDelay::Millis(1000),
{
}

/// When the iteration budget runs out, every call of the last reply is
/// answered, one reply each and in call order, that the budget ran out
/// before it could run.
pub proof fn law_budget_answers_every_call(m: Message)
    ensures
        budget_replies(m).len() == m.tool_calls@.len(),
        forall|i: int|
            0 <= i < m.tool_calls@.len() ==> #[trigger] budget_replies(m)[i] == (
                m.tool_calls@[i].id@,
                "error: max iterations reached before tool could run"@,
            ),
{
    assert(call_ids_of(m).len() == m.tool_calls@.len());
    assert forall|i: int| 0 <= i < m.tool_calls@.len() implies #[trigger] budget_replies(m)[i] == (
        m.tool_calls@[i].id@,
        "error: max iterations reached before tool could run"@,
    ) by {
        assert(call_ids_of(m)[i] == m.tool_calls@[i].id@);
    }
}

/// The provider is asked again only within the iteration budget: resolving
/// an iteration's calls either waits for the user or the tools, keeping the
/// conversation and the iteration, or asks the provider again, spending one
/// iteration, which stays below the budget.
pub proof fn law_each_round_spends_an_iteration(pre: AgentCoreView, post: AgentCoreView, step: AgentStep)
    requires
        resolving(pre),
        advanced(pre, post, step),
    ensures
        step is CallProvider ==> post.iteration == pre.iteration + 1 && post.iteration < post.max_iterations,
        !(step is CallProvider) ==> post.iteration == pre.iteration && post.context == pre.context,
        step is CallProvider || step is Confirm || step is Execute,
{
    lemma_next_to_confirm_bounds(pre.call_names, pre.tool_names, pre.has_confirm_hook, pre.cursor as int);
}

/// Without a confirmation hook nobody is asked: resolution never stops at a
/// call, so every call of a registered tool is approved and every other call
/// is missing (fail-open).
pub proof fn law_no_hook_asks_nobody(names: Seq<Seq<char>>, tools: Seq<Seq<char>>, from: int)
    requires
        0 <= from <= names.len(),
    ensures
        next_to_confirm(names, tools, false, from) == names.len(),
    decreases names.len() - from,
{
    if from < names.len() {
        law_no_hook_asks_nobody(names, tools, from + 1);
    }
}

impl View for AgentCore {
    type V = AgentCoreView;

    closed spec fn view(&self) -> AgentCoreView {
        AgentCoreView {
            context: self.context@,
            model: self.model@,
            max_iterations: self.max_iterations as nat,
            tool_names: self.tool_names@.map_values(|s: String| s@),
            has_provider: self.has_provider,
            has_confirm_hook: self.has_confirm_hook,
            phase: self.phase,
            iteration: self.iteration as nat,
            attempts: self.attempts as nat,
            call_ids: self.call_ids@.map_values(|s: String| s@),
            call_names: self.call_names@.map_values(|s: String| s@),
            statuses: self.statuses@,
            cursor: self.cursor as nat,
        }
    }
}

/// The internal consistency of an agent's state.
pub open spec fn core_wf(v: AgentCoreView) -> bool {
    &&& v.call_ids.len() == v.statuses.len()
    &&& v.call_names.len() == v.statuses.len()
    &&& v.cursor <= v.statuses.len()
    &&& v.phase != Phase::Idle ==> v.iteration < v.max_iterations
    &&& v.attempts <= MAX_PROVIDER_RETRIES
    &&& (v.phase == Phase::AwaitingConfirm || v.phase == Phase::AwaitingResults) ==> {
        &&& v.iteration + 1 < v.max_iterations
        &&& v.context.len() > 0
        &&& calls_are(v.context.last(), v.call_ids, v.call_names)
        &&& forall|k: int| 0 <= k < v.cursor ==> v.statuses[k] != CallStatus::Pending
        &&& forall|k: int| v.cursor <= k < v.statuses.len() ==> v.statuses[k] == CallStatus::Pending
    }
    &&& v.phase == Phase::AwaitingConfirm ==> {
        &&& v.cursor < v.statuses.len()
        &&& v.has_confirm_hook
        &&& v.tool_names.contains(v.call_names[v.cursor as int])
    }
    &&& v.phase == Phase::AwaitingResults ==> v.cursor == v.statuses.len()
}

impl AgentCore {
    /// Whether the state is internally consistent.
    pub open spec fn wf(&self) -> bool {
        core_wf(self@)
    }

    /// A fresh agent: empty context, the default iteration budget, no tools
    /// and no confirmation hook.
    pub fn new(model: String, has_provider: bool) -> (r: Self)
        ensures
            r.wf(),
            r@.context == Seq::<Message>::empty(),
            r@.model == model@,
            r@.max_iterations == DEFAULT_MAX_ITERATIONS,
            r@.tool_names == Seq::<Seq<char>>::empty(),
            r@.has_provider == has_provider,
            !r@.has_confirm_hook,
            r@.phase == Phase::Idle,
            run_answered(r@),
    {
        let r = AgentCore {
            context: ConversationContext::new(),
            model,
            max_iterations: DEFAULT_MAX_ITERATIONS,
            tool_names: Vec::new(),
            has_provider,
            has_confirm_hook: false,
            phase: Phase::Idle,
            iteration: 0,
            attempts: 0,
            call_ids: Vec::new(),
            call_names: Vec::new(),
            statuses: Vec::new(),
            cursor: 0,
        };
        assert(r@.tool_names =~= Seq::<Seq<char>>::empty());
        assert(r@.call_ids =~= Seq::<Seq<char>>::empty());
        assert(r@.call_names =~= Seq::<Seq<char>>::empty());
        r
    }

    /// The conversation so far.
    pub fn context(&self) -> (r: &ConversationContext)
        ensures
            r@ == self@.context,
    {
        &self.context
    }

    /// The model requests are made for.
    pub fn model(&self) -> (r: &str)
        ensures
            r@ == self@.model,
    {
        self.model.as_str()
    }

    /// Whether a provider is set.
    pub fn has_provider(&self) -> (r: bool)
        ensures
            r == self@.has_provider,
    {
        self.has_provider
    }

    /// Records whether a provider is set.
    pub fn set_has_provider(&mut self, present: bool)
        requires
            old(self).wf(),
        ensures
            final(self).wf(),
            final(self)@ == (AgentCoreView { has_provider: present, ..old(self)@ }),
    {
        self.has_provider = present;
    }

    /// Records whether a confirmation hook is set.
    pub fn set_has_confirm_hook(&mut self, present: bool)
        requires
            old(self).wf(),
            old(self)@.phase != Phase::AwaitingConfirm,
        ensures
            final(self).wf(),
            final(self)@ == (AgentCoreView { has_confirm_hook: present, ..old(self)@ }),
    {
        self.has_confirm_hook = present;
    }

    /// Uses `model` for later requests.
    pub fn set_model(&mut self, model: String)
        requires
            old(self).wf(),
        ensures
            final(self).wf(),
            final(self)@ == (AgentCoreView { model: model@, ..old(self)@ }),
    {
        self.model = model;
    }

    /// Sets the iteration budget of later runs.
    pub fn set_max_iterations(&mut self, max_iterations: usize)
        requires
            old(self).wf(),
            old(self)@.phase == Phase::Idle,
        ensures
            final(self).wf(),
            final(self)@ == (AgentCoreView { max_iterations: max_iterations as nat, ..old(self)@ }),
    {
        self.max_iterations = max_iterations;
    }

    /// Registers a tool name (a name registered twice is held once).
    pub fn register_tool(&mut self, name: String)
        requires
            old(self).wf(),
            old(self)@.phase == Phase::Idle,
        ensures
            final(self).wf(),
            final(self)@.tool_names.to_set() == old(self)@.tool_names.to_set().insert(name@),
            final(self)@ == (AgentCoreView { tool_names: final(self)@.tool_names, ..old(self)@ }),
    {
        if !self.knows_tool(name.as_str()) {
            let ghost before = self.tool_names@;
            self.tool_names.push(name);
            proof {
                assert(self.tool_names@.map_values(|s: String| s@) =~= before.map_values(
                    |s: String| s@,
                ).push(name@));
                before.map_values(|s: String| s@).lemma_push_to_set_commute(name@);
                assert(before.map_values(|s: String| s@).push(name@).to_set() =~= before.map_values(
                    |s: String| s@,
                ).to_set().insert(name@));
            }
        } else {
            proof {
                assert(self@.tool_names.to_set() =~= self@.tool_names.to_set().insert(name@));
            }
        }
    }

    /// Whether a tool of this name is registered.
    fn knows_tool(&self, name: &str) -> (r: bool)
        ensures
            r == self@.tool_names.contains(name@),
    {
        let mut i: usize = 0;
        while i < self.tool_names.len()
            invariant
                i <= self.tool_names@.len(),
                forall|j: int| 0 <= j < i ==> self.tool_names@[j]@ != name@,
            decreases self.tool_names.len() - i,
        {
            if crate::text::str_eq(self.tool_names[i].as_str(), name) {
                assert(self@.tool_names[i as int] == name@);
                return true;
            }
            i = i + 1;
        }
        proof {
            if self@.tool_names.contains(name@) {
                let j = choose|j: int|
                    0 <= j < self@.tool_names.len() && self@.tool_names[j] == name@;
                assert(self.tool_names@[j]@ == name@);
            }
        }
        false
    }

    /// Starts a run on the user's `input`.
    pub fn start(&mut self, input: String) -> (step: AgentStep)
        requires
            old(self).wf(),
        ensures
            final(self).wf(),
            same_setup(final(self)@, old(self)@),
            !old(self)@.has_provider ==> {
                &&& step matches AgentStep::Finished(Err(AgentError::NoProvider))
                &&& final(self)@.context == old(self)@.context
                &&& final(self)@.phase == Phase::Idle
            },
            old(self)@.has_provider ==> {
                &&& final(self)@.context.len() == old(self)@.context.len() + 1
                &&& final(self)@.context.drop_last() == old(self)@.context
                &&& is_plain_message(final(self)@.context.last(), Role::User, input@)
                &&& old(self)@.max_iterations == 0 ==> {
                    &&& step matches AgentStep::Finished(Err(AgentError::MaxIterationsReached(n)))
                    &&& n == 0
                    &&& final(self)@.phase == Phase::Idle
                }
                &&& old(self)@.max_iterations > 0 ==> {
                    &&& step is CallProvider
                    &&& final(self)@.phase == Phase::AwaitingReply
                    &&& final(self)@.iteration == 0
                    &&& final(self)@.attempts == 0
                }
            },
            (old(self)@.phase == Phase::Idle || old(self)@.phase == Phase::AwaitingReply) && run_answered(
                old(self)@,
            ) ==> run_answered(final(self)@),
    {
        self.phase = Phase::Idle;
        self.attempts = 0;
        self.iteration = 0;
        self.cursor = 0;
        self.call_ids = Vec::new();
        self.call_names = Vec::new();
        self.statuses = Vec::new();
        proof {
            assert(self@.call_ids =~= Seq::<Seq<char>>::empty());
            assert(self@.call_names =~= Seq::<Seq<char>>::empty());
        }
        if !self.has_provider {
            return AgentStep::Finished(Err(AgentError::NoProvider));
        }
        let ghost before = self@.context;
        self.context.push(Message::text(Role::User, input));
        assert(self@.context.drop_last() =~= before);
        proof {
            if run_answered(old(self)@) && (old(self)@.phase == Phase::Idle || old(self)@.phase
                == Phase::AwaitingReply) {
                assert(self@.context =~= before.push(self@.context.last()));
                lemma_answered_push_plain(before, self@.context.last());
            }
        }
        if self.max_iterations == 0 {
            return AgentStep::Finished(Err(AgentError::MaxIterationsReached(0)));
        }
        self.phase = Phase::AwaitingReply;
        AgentStep::CallProvider
    }

    /// The indices of the approved calls, in order.
    fn approved_indices(&self) -> (v: Vec<usize>)
        ensures
            v@.map_values(|i: usize| i as int) == approved_upto(
                self@.statuses,
                self@.statuses.len() as int,
            ),
            forall|j: int| 0 <= j < v@.len() ==> v@[j] < self@.statuses.len(),
    {
        let mut v: Vec<usize> = Vec::new();
        let mut k: usize = 0;
        while k < self.statuses.len()
            invariant
                k <= self.statuses@.len(),
                v@.map_values(|i: usize| i as int) == approved_upto(self@.statuses, k as int),
                forall|j: int| 0 <= j < v@.len() ==> v@[j] < k,
            decreases self.statuses.len() - k,
        {
            let ghost before = v@;
            if self.statuses[k] == CallStatus::Approved {
                v.push(k);
                assert(v@.map_values(|i: usize| i as int) =~= before.map_values(|i: usize| i as int)
                    + seq![k as int]);
            } else {
                assert(v@.map_values(|i: usize| i as int) =~= before.map_values(|i: usize| i as int)
                    + Seq::<int>::empty());
            }
            k = k + 1;
        }
        v
    }

    /// Records the replies to the missing and refused calls, in call order.
    fn push_unresolved(&mut self)
        requires
            old(self)@.call_ids.len() == old(self)@.statuses.len(),
            old(self)@.call_names.len() == old(self)@.statuses.len(),
        ensures
            final(self)@ == (AgentCoreView { context: final(self)@.context, ..old(self)@ }),
            extends_with_replies(
                final(self)@.context,
                old(self)@.context,
                unresolved_upto(
                    old(self)@.call_ids,
                    old(self)@.call_names,
                    old(self)@.statuses,
                    old(self)@.statuses.len() as int,
                ),
            ),
    {
        let ghost base = self@.context;
        let ghost ids = self@.call_ids;
        let ghost names = self@.call_names;
        let ghost st = self@.statuses;
        let mut k: usize = 0;
        while k < self.statuses.len()
            invariant
                k <= self.statuses@.len(),
                self@ == (AgentCoreView { context: self@.context, ..old(self)@ }),
                ids == self@.call_ids,
                names == self@.call_names,
                st == self@.statuses,
                ids.len() == st.len(),
                names.len() == st.len(),
                base == old(self)@.context,
                extends_with_replies(self@.context, base, unresolved_upto(ids, names, st, k as int)),
            decreases self.statuses.len() - k,
        {
            let ghost ctx = self@.context;
            let ghost u = unresolved_upto(ids, names, st, k as int);
            match self.statuses[k] {
                CallStatus::Missing => {
                    let mut text = String::new();
                    push_str(&mut text, "error: tool not found: ");
                    push_str(&mut text, self.call_names[k].as_str());
                    let id = self.call_ids[k].clone();
                    assert(id@ == ids[k as int]);
                    self.context.push(Message::tool_reply(id, text));
                    proof {
                        let u2 = unresolved_upto(ids, names, st, k + 1);
                        assert(u2 == u + seq![(ids[k as int], missing_reply_text(names[k as int]))]);
                        assert forall|i: int| 0 <= i < u2.len() implies is_tool_reply(
                            #[trigger] self@.context[base.len() + i],
                            u2[i].0,
                            u2[i].1,
                        ) by {
                            if i < u.len() {
                                assert(self@.context[base.len() + i] == ctx[base.len() + i]);
                            }
                        }
                    }
                },
                CallStatus::Denied => {
                    let mut text = String::new();
                    push_str(&mut text, "error: denied: rejected by user");
                    let id = self.call_ids[k].clone();
                    assert(id@ == ids[k as int]);
                    self.context.push(Message::tool_reply(id, text));
                    proof {
                        let u2 = unresolved_upto(ids, names, st, k + 1);
                        assert(u2 == u + seq![(ids[k as int], denied_reply_text())]);
                        assert forall|i: int| 0 <= i < u2.len() implies is_tool_reply(
                            #[trigger] self@.context[base.len() + i],
                            u2[i].0,
                            u2[i].1,
                        ) by {
                            if i < u.len() {
                                assert(self@.context[base.len() + i] == ctx[base.len() + i]);
                            }
                        }
                    }
                },
                _ => {
                    assert(unresolved_upto(ids, names, st, k + 1) =~= u);
                },
            }
            k = k + 1;
        }
    }

    /// Records the replies carrying the results of the approved calls, in
    /// the order the calls were approved.
    fn push_results(&mut self, results: Vec<Result<ToolOutput, ToolError>>, approved: &Vec<usize>)
        requires
            results@.len() == approved@.len(),
            old(self)@.call_ids.len() == old(self)@.statuses.len(),
            forall|j: int| 0 <= j < approved@.len() ==> approved@[j] < old(self)@.statuses.len(),
        ensures
            final(self)@ == (AgentCoreView { context: final(self)@.context, ..old(self)@ }),
            final(self)@.context.len() == old(self)@.context.len() + results@.len(),
            forall|i: int|
                0 <= i < old(self)@.context.len() ==> final(self)@.context[i] == old(self)@.context[i],
            forall|j: int|
                0 <= j < results@.len() ==> is_result_reply(
                    #[trigger] final(self)@.context[old(self)@.context.len() + j],
                    old(self)@.call_ids[approved@[j] as int],
                    results@[j],
                ),
    {
        let ghost base = self@.context;
        let ghost ids = self@.call_ids;
        let mut j: usize = 0;
        while j < results.len()
            invariant
                j <= results@.len(),
                results@.len() == approved@.len(),
                self@ == (AgentCoreView { context: self@.context, ..old(self)@ }),
                ids == self@.call_ids,
                ids.len() == old(self)@.statuses.len(),
                forall|i: int| 0 <= i < approved@.len() ==> approved@[i] < ids.len(),
                base == old(self)@.context,
                self@.context.len() == base.len() + j,
                forall|i: int| 0 <= i < base.len() ==> self@.context[i] == base[i],
                forall|i: int|
                    0 <= i < j ==> is_result_reply(
                        #[trigger] self@.context[base.len() + i],
                        ids[approved@[i] as int],
                        results@[i],
                    ),
            decreases results.len() - j,
        {
            let ghost ctx = self@.context;
            let text = match &results[j] {
                Ok(output) => output.content.clone(),
                Err(e) => {
                    let mut t = String::new();
                    push_str(&mut t, "error: ");
                    let m = e.message();
                    push_str(&mut t, m.as_str());
                    assert(describes_tool_error(*e, m@));
                    t
                },
            };
            let id = self.call_ids[approved[j]].clone();
            self.context.push(Message::tool_reply(id, text));
            proof {
                assert forall|i: int| 0 <= i < j + 1 implies is_result_reply(
                    #[trigger] self@.context[base.len() + i],
                    ids[approved@[i] as int],
                    results@[i],
                ) by {
                    if i < j {
                        assert(self@.context[base.len() + i] == ctx[base.len() + i]);
                    }
                }
            }
            j = j + 1;
        }
    }

    /// Resolves the calls from the cursor on, as [`advanced`] states.
    fn advance(&mut self) -> (step: AgentStep)
        requires
            resolving(old(self)@),
        ensures
            final(self).wf(),
            advanced(old(self)@, final(self)@, step),
    {
        let ghost pre = self@;
        let ghost c = next_to_confirm(
            pre.call_names,
            pre.tool_names,
            pre.has_confirm_hook,
            pre.cursor as int,
        );
        let mut asking = false;
        while !asking && self.cursor < self.statuses.len()
            invariant
                resolving(self@),
                same_setup(self@, pre),
                self@.context == pre.context,
                self@.call_ids == pre.call_ids,
                self@.call_names == pre.call_names,
                self@.iteration == pre.iteration,
                self@.attempts == pre.attempts,
                self@.phase == pre.phase,
                self@.statuses.len() == pre.statuses.len(),
                pre.cursor <= self@.cursor,
                next_to_confirm(pre.call_names, pre.tool_names, pre.has_confirm_hook, self@.cursor as int) == c,
                asking ==> c == self@.cursor && self@.cursor < self@.statuses.len()
                    && self@.has_confirm_hook && self@.tool_names.contains(
                    self@.call_names[self@.cursor as int],
                ),
                forall|k: int| 0 <= k < pre.cursor ==> self@.statuses[k] == pre.statuses[k],
                forall|k: int|
                    pre.cursor <= k < self@.cursor ==> self@.statuses[k] == auto_status(
                        pre.tool_names,
                        pre.call_names[k],
                    ),
            decreases self.statuses.len() - self.cursor, if asking { 0int } else { 1int },
        {
            let i = self.cursor;
            let known = self.knows_tool(self.call_names[i].as_str());
            if known && self.has_confirm_hook {
                asking = true;
            } else {
                if known {
                    self.statuses.set(i, CallStatus::Approved);
                } else {
                    self.statuses.set(i, CallStatus::Missing);
                }
                self.cursor = i + 1;
            }
        }
        if asking {
            self.phase = Phase::AwaitingConfirm;
            return AgentStep::Confirm(self.cursor);
        }
        let approved = self.approved_indices();
        if approved.len() > 0 {
            self.phase = Phase::AwaitingResults;
            return AgentStep::Execute(approved);
        }
        assert(next_to_confirm(
            pre.call_names,
            pre.tool_names,
            pre.has_confirm_hook,
            self.cursor as int,
        ) == self.cursor as int);
        let ghost mid = self@;
        let step = self.finish_iteration(Vec::new(), &approved);
        proof {
            let n = mid.statuses.len() as int;
            let u = unresolved_upto(mid.call_ids, mid.call_names, mid.statuses, n);
            assert(self@.context.subrange(0, (mid.context.len() + u.len()) as int) =~= self@.context);
        }
        step
    }

    /// Records the replies of a fully resolved iteration and moves on to the
    /// next one.
    fn finish_iteration(
        &mut self,
        results: Vec<Result<ToolOutput, ToolError>>,
        approved: &Vec<usize>,
    ) -> (step: AgentStep)
        requires
            old(self)@.call_ids.len() == old(self)@.statuses.len(),
            old(self)@.call_names.len() == old(self)@.statuses.len(),
            old(self)@.cursor == old(self)@.statuses.len(),
            old(self)@.iteration + 1 < old(self)@.max_iterations,
            results@.len() == approved@.len(),
            forall|j: int| 0 <= j < approved@.len() ==> approved@[j] < old(self)@.statuses.len(),
        ensures
            final(self).wf(),
            step is CallProvider,
            final(self)@ == (AgentCoreView {
                context: final(self)@.context,
                phase: Phase::AwaitingReply,
                iteration: old(self)@.iteration + 1,
                attempts: 0,
                ..old(self)@
            }),
            ({
                let u = unresolved_upto(
                    old(self)@.call_ids,
                    old(self)@.call_names,
                    old(self)@.statuses,
                    old(self)@.statuses.len() as int,
                );
                let base = old(self)@.context;
                &&& final(self)@.context.len() == base.len() + u.len() + results@.len()
                &&& extends_with_replies(
                    final(self)@.context.subrange(0, (base.len() + u.len()) as int),
                    base,
                    u,
                )
                &&& forall|j: int|
                    0 <= j < results@.len() ==> is_result_reply(
                        #[trigger] final(self)@.context[base.len() + u.len() + j],
                        old(self)@.call_ids[approved@[j] as int],
                        results@[j],
                    )
            }),
    {
        let ghost base = self@.context;
        self.push_unresolved();
        let ghost mid = self@.context;
        self.push_results(results, approved);
        proof {
            let u = unresolved_upto(
                old(self)@.call_ids,
                old(self)@.call_names,
                old(self)@.statuses,
                old(self)@.statuses.len() as int,
            );
            let sub = self@.context.subrange(0, (base.len() + u.len()) as int);
            assert(sub =~= mid);
        }
        self.iteration = self.iteration + 1;
        self.attempts = 0;
        self.phase = Phase::AwaitingReply;
        AgentStep::CallProvider
    }

    /// The ids and the names of `calls`.
    fn ids_and_names(calls: &Vec<ToolCall>) -> (r: (Vec<String>, Vec<String>))
        ensures
            r.0@.map_values(|s: String| s@) == calls@.map_values(|c: ToolCall| c.id@),
            r.1@.map_values(|s: String| s@) == calls@.map_values(|c: ToolCall| c.name@),
    {
        let mut ids: Vec<String> = Vec::new();
        let mut names: Vec<String> = Vec::new();
        let mut k: usize = 0;
        while k < calls.len()
            invariant
                k <= calls@.len(),
                ids@.map_values(|s: String| s@) == calls@.take(k as int).map_values(
                    |c: ToolCall| c.id@,
                ),
                names@.map_values(|s: String| s@) == calls@.take(k as int).map_values(
                    |c: ToolCall| c.name@,
                ),
            decreases calls.len() - k,
        {
            let ghost i0 = ids@;
            let ghost n0 = names@;
            ids.push(calls[k].id.clone());
            names.push(calls[k].name.clone());
            proof {
                assert(calls@.take(k + 1) == calls@.take(k as int).push(calls@[k as int]));
                assert(ids@.map_values(|s: String| s@) =~= i0.map_values(|s: String| s@).push(
                    calls@[k as int].id@,
                ));
                assert(names@.map_values(|s: String| s@) =~= n0.map_values(|s: String| s@).push(
                    calls@[k as int].name@,
                ));
                assert(calls@.take(k + 1).map_values(|c: ToolCall| c.id@) =~= calls@.take(
                    k as int,
                ).map_values(|c: ToolCall| c.id@).push(calls@[k as int].id@));
                assert(calls@.take(k + 1).map_values(|c: ToolCall| c.name@) =~= calls@.take(
                    k as int,
                ).map_values(|c: ToolCall| c.name@).push(calls@[k as int].name@));
            }
            k = k + 1;
        }
        assert(calls@.take(calls@.len() as int) == calls@);
        (ids, names)
    }

    /// Answers every call id of `ids`, in order, with the budget reply.
    fn push_budget_replies(&mut self, ids: &Vec<String>)
        ensures
            final(self)@ == (AgentCoreView { context: final(self)@.context, ..old(self)@ }),
            extends_with_replies(
                final(self)@.context,
                old(self)@.context,
                ids@.map_values(|s: String| (s@, budget_reply_text())),
            ),
    {
        let ghost base = self@.context;
        let mut k: usize = 0;
        while k < ids.len()
            invariant
                k <= ids@.len(),
                base == old(self)@.context,
                self@ == (AgentCoreView { context: self@.context, ..old(self)@ }),
                extends_with_replies(
                    self@.context,
                    base,
                    ids@.take(k as int).map_values(|s: String| (s@, budget_reply_text())),
                ),
            decreases ids.len() - k,
        {
            let ghost ctx = self@.context;
            let mut text = String::new();
            push_str(&mut text, "error: max iterations reached before tool could run");
            self.context.push(Message::tool_reply(ids[k].clone(), text));
            proof {
                let r0 = ids@.take(k as int).map_values(|s: String| (s@, budget_reply_text()));
                let r1 = ids@.take(k + 1).map_values(|s: String| (s@, budget_reply_text()));
                assert(ids@.take(k + 1) == ids@.take(k as int).push(ids@[k as int]));
                assert(r1 =~= r0.push((ids@[k as int]@, budget_reply_text())));
                assert forall|i: int| 0 <= i < r1.len() implies is_tool_reply(
                    #[trigger] self@.context[base.len() + i],
                    r1[i].0,
                    r1[i].1,
                ) by {
                    if i < r0.len() {
                        assert(self@.context[base.len() + i] == ctx[base.len() + i]);
                    }
                }
            }
            k = k + 1;
        }
        assert(ids@.take(ids@.len() as int) == ids@);
    }

    /// Takes in what the provider answered.
    pub fn on_provider_reply(&mut self, reply: Result<ChatResponse, ProviderError>) -> (step:
        AgentStep)
        requires
            old(self).wf(),
            old(self)@.phase == Phase::AwaitingReply,
        ensures
            reply_consistent(reply) && run_answered(old(self)@) ==> run_answered(final(self)@),
            final(self).wf(),
            same_setup(final(self)@, old(self)@),
            (match reply {
                Err(ProviderError::Auth) => {
                    &&& step matches AgentStep::Finished(
                        Err(AgentError::Provider(ProviderError::Auth)),
                    )
                    &&& final(self)@.context == old(self)@.context
                    &&& final(self)@.phase == Phase::Idle
                },
                Err(e) => {
                    &&& final(self)@.context == old(self)@.context
                    &&& old(self)@.attempts + 1 > MAX_PROVIDER_RETRIES ==> {
                        &&& step == AgentStep::Finished(Err(AgentError::Provider(e)))
                        &&& final(self)@.phase == Phase::Idle
                    }
                    &&& old(self)@.attempts + 1 <= MAX_PROVIDER_RETRIES ==> {
                        &&& step matches AgentStep::Retry(d) && retry_delay_for(
                            e,
                            old(self)@.attempts + 1,
                            d,
                        )
                        &&& final(self)@.phase == Phase::AwaitingReply
                        &&& final(self)@.attempts == old(self)@.attempts + 1
                        &&& final(self)@.iteration == old(self)@.iteration
                    }
                },
                Ok(resp) => {
                    &&& resp.finish_reason != FinishReason::ToolCalls ==> {
                        &&& step matches AgentStep::Finished(Ok(s)) && s@ == content_text(
                            resp.message,
                        )
                        &&& final(self)@.context == old(self)@.context.push(resp.message)
                        &&& final(self)@.phase == Phase::Idle
                    }
                    &&& (resp.finish_reason == FinishReason::ToolCalls && old(self)@.iteration + 1
                        == old(self)@.max_iterations) ==> {
                        &&& step matches AgentStep::Finished(
                            Err(AgentError::MaxIterationsReached(n)),
                        ) && n == old(self)@.max_iterations
                        &&& final(self)@.phase == Phase::Idle
                        &&& extends_with_replies(
                            final(self)@.context,
                            old(self)@.context.push(resp.message),
                            budget_replies(resp.message),
                        )
                    }
                    &&& (resp.finish_reason == FinishReason::ToolCalls && old(self)@.iteration + 1
                        < old(self)@.max_iterations) ==> advanced(
                        resolution_start(old(self)@, resp.message),
                        final(self)@,
                        step,
                    )
                },
            }),
    {
        match reply {
            Err(e) => {
                if let ProviderError::Auth = e {
                    self.phase = Phase::Idle;
                    return AgentStep::Finished(Err(AgentError::Provider(e)));
                }
                let attempt = self.attempts + 1;
                if attempt > MAX_PROVIDER_RETRIES {
                    self.phase = Phase::Idle;
                    return AgentStep::Finished(Err(AgentError::Provider(e)));
                }
                self.attempts = attempt;
                let delay = match &e {
                    ProviderError::RateLimited { retry_after } => match retry_after {
                        Some(d) => RetryDelay::Given(*d),
                        None => RetryDelay::Millis(1000),
                    },
                    _ => RetryDelay::Millis(500 * (attempt as u64)),
                };
                AgentStep::Retry(delay)
            },
            Ok(resp) => {
                let ChatResponse { message, finish_reason } = resp;
                if finish_reason != FinishReason::ToolCalls {
                    let content = match &message.content {
                        Some(c) => c.clone(),
                        None => String::new(),
                    };
                    let ghost m0 = message;
                    let ghost before = self@.context;
                    self.context.push(message);
                    proof {
                        if reply_consistent(reply) && run_answered(old(self)@) {
                            lemma_answered_push_plain(before, m0);
                        }
                    }
                    self.phase = Phase::Idle;
                    return AgentStep::Finished(Ok(content));
                }
                let (ids, names) = Self::ids_and_names(&message.tool_calls);
                let ghost m = message;
                self.context.push(message);
                if self.iteration + 1 == self.max_iterations {
                    let ghost with_m = self@.context;
                    self.push_budget_replies(&ids);
                    proof {
                        assert(ids@.map_values(|s: String| (s@, budget_reply_text())) =~= budget_replies(m));
                        if reply_consistent(reply) && run_answered(old(self)@) {
                            let replies = ids@.map_values(|s: String| (s@, budget_reply_text()));
                            assert(with_m.drop_last() =~= old(self)@.context);
                            assert(with_m.last() == m);
                            assert forall|j: int| 0 <= j < replies.len() implies #[trigger] replies[j].0
                                == with_m.last().tool_calls@[j].id@ by {
                                assert(ids@.map_values(|s: String| s@)[j] == ids@[j]@);
                            }
                            lemma_replies_in_order(with_m, self@.context, replies);
                        }
                    }
                    self.phase = Phase::Idle;
                    return AgentStep::Finished(Err(AgentError::MaxIterationsReached(self.max_iterations)));
                }
                let n = ids.len();
                let mut statuses: Vec<CallStatus> = Vec::new();
                let mut k: usize = 0;
                while k < n
                    invariant
                        k <= n,
                        statuses@ == Seq::new(k as nat, |_k: int| CallStatus::Pending),
                    decreases n - k,
                {
                    statuses.push(CallStatus::Pending);
                    assert(statuses@ =~= Seq::new((k + 1) as nat, |_k: int| CallStatus::Pending));
                    k = k + 1;
                }
                self.call_ids = ids;
                self.call_names = names;
                self.statuses = statuses;
                self.cursor = 0;
                proof {
                    let start = resolution_start(old(self)@, m);
                    assert(self@.call_ids =~= start.call_ids);
                    assert(self@.call_names =~= start.call_names);
                    assert(self@.statuses =~= start.statuses);
                    assert(self@.context =~= start.context);
                    assert(self@ == start);
                    assert(calls_are(self@.context.last(), self@.call_ids, self@.call_names));
                }
                let ghost pre = self@;
                let step = self.advance();
                proof {
                    if reply_consistent(reply) && run_answered(old(self)@) {
                        assert(pre.context.drop_last() =~= old(self)@.context);
                        lemma_advanced_answered(pre, self@, step);
                    }
                }
                step
            },
        }
    }

    /// Takes in the user's answer about the call at the cursor.
    pub fn on_confirmation(&mut self, allowed: bool) -> (step: AgentStep)
        requires
            old(self).wf(),
            old(self)@.phase == Phase::AwaitingConfirm,
        ensures
            run_answered(old(self)@) ==> run_answered(final(self)@),
            final(self).wf(),
            advanced(
                AgentCoreView {
                    statuses: old(self)@.statuses.update(
                        old(self)@.cursor as int,
                        if allowed {
                            CallStatus::Approved
                        } else {
                            CallStatus::Denied
                        },
                    ),
                    cursor: old(self)@.cursor + 1,
                    ..old(self)@
                },
                final(self)@,
                step,
            ),
    {
        let c = self.cursor;
        assert(self@.cursor < self@.statuses.len());
        assert(c < self.statuses.len());
        if allowed {
            self.statuses.set(c, CallStatus::Approved);
        } else {
            self.statuses.set(c, CallStatus::Denied);
        }
        self.cursor = c + 1;
        let ghost pre = self@;
        let step = self.advance();
        proof {
            if run_answered(old(self)@) {
                lemma_advanced_answered(pre, self@, step);
            }
        }
        step
    }

    /// Takes in the results of the approved calls, in the order they were
    /// handed out, and moves on to the next iteration.
    pub fn on_tool_results(&mut self, results: Vec<Result<ToolOutput, ToolError>>) -> (step:
        AgentStep)
        requires
            old(self).wf(),
            old(self)@.phase == Phase::AwaitingResults,
            results@.len() == approved_upto(
                old(self)@.statuses,
                old(self)@.statuses.len() as int,
            ).len(),
        ensures
            run_answered(old(self)@) ==> run_answered(final(self)@),
            final(self).wf(),
            step is CallProvider,
            final(self)@ == (AgentCoreView {
                context: final(self)@.context,
                phase: Phase::AwaitingReply,
                iteration: old(self)@.iteration + 1,
                attempts: 0,
                ..old(self)@
            }),
            ({
                let n = old(self)@.statuses.len() as int;
                let u = unresolved_upto(
                    old(self)@.call_ids,
                    old(self)@.call_names,
                    old(self)@.statuses,
                    n,
                );
                let a = approved_upto(old(self)@.statuses, n);
                let base = old(self)@.context;
                &&& final(self)@.context.len() == base.len() + u.len() + results@.len()
                &&& extends_with_replies(
                    final(self)@.context.subrange(0, (base.len() + u.len()) as int),
                    base,
                    u,
                )
                &&& forall|j: int|
                    0 <= j < results@.len() ==> is_result_reply(
                        #[trigger] final(self)@.context[base.len() + u.len() + j],
                        old(self)@.call_ids[a[j]],
                        results@[j],
                    )
            }),
    {
        let approved = self.approved_indices();
        proof {
            let a = approved_upto(self@.statuses, self@.statuses.len() as int);
            assert(approved@.map_values(|i: usize| i as int) == a);
            assert forall|j: int| 0 <= j < approved@.len() implies approved@[j] as int == a[j] by {
                assert(approved@.map_values(|i: usize| i as int)[j] == approved@[j] as int);
            }
        }
        let ghost rs = results@;
        let step = self.finish_iteration(results, &approved);
        proof {
            if run_answered(old(self)@) {
                let n = old(self)@.statuses.len() as int;
                let u = unresolved_upto(old(self)@.call_ids, old(self)@.call_names, old(self)@.statuses, n);
                let a = approved_upto(old(self)@.statuses, n);
                lemma_approved_bounds(old(self)@.statuses, n);
                assert forall|j: int| 0 <= j < rs.len() implies 0 <= a[j] < n && answers(
                    #[trigger] self@.context[old(self)@.context.len() + u.len() + j],
                    old(self)@.call_ids[a[j]],
                ) by {
                    assert(is_result_reply(
                        self@.context[old(self)@.context.len() + u.len() + j],
                        old(self)@.call_ids[approved@[j] as int],
                        rs[j],
                    ));
                }
                lemma_results_answered(old(self)@, self@.context, rs.len() as int);
            }
        }
        step
    }
}

} // verus!
