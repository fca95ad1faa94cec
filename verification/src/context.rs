//! The conversation history an agent sends to its provider.
use vstd::prelude::*;
use crate::message::Message;

verus! {

/// An append-only (until cleared) buffer of messages, oldest first.
#[derive(Debug, Clone)]
pub struct ConversationContext {
    messages: Vec<Message>,
}

impl View for ConversationContext {
    type V = Seq<Message>;

    closed spec fn view(&self) -> Seq<Message> {
        self.messages@
    }
}

impl ConversationContext {
    /// An empty history.
    pub fn new() -> (c: Self)
        ensures
            c@ == Seq::<Message>::empty(),
    {
        ConversationContext { messages: Vec::new() }
    }

    /// Appends `message` after every message already held.
    pub fn push(&mut self, message: Message)
        ensures
            final(self)@ == old(self)@.push(message),
    {
        self.messages.push(message);
    }

    /// The held messages, oldest first.
    pub fn messages(&self) -> (r: &[Message])
        ensures
            r@ == self@,
    {
        self.messages.as_slice()
    }

    /// How many messages are held.
    pub fn len(&self) -> (n: usize)
        ensures
            n == self@.len(),
    {
        self.messages.len()
    }

    /// Whether no message is held.
    pub fn is_empty(&self) -> (b: bool)
        ensures
            b == (self@.len() == 0),
    {
        self.messages.len() == 0
    }

    /// Drops every message.
    pub fn clear(&mut self)
        ensures
            final(self)@ == Seq::<Message>::empty(),
    {
        self.messages.clear();
    }
}

impl Default for ConversationContext {
    fn default() -> (c: Self)
        ensures
            c@ == Seq::<Message>::empty(),
    {
        Self::new()
    }
}

/// Pushing appends at the end: the message pushed last is the last one held,
/// and every earlier message keeps its place.
pub proof fn law_push_appends(before: ConversationContext, after: ConversationContext, m: Message)
    requires
        after@ == before@.push(m),
    ensures
        after@.len() == before@.len() + 1,
        after@.last() == m,
        forall|i: int| 0 <= i < before@.len() ==> after@[i] == before@[i],
{
}

/// A change made to a conversation: a `push` of a message, or a `clear`.
pub enum ContextChange {
    Push(Message),
    Clear,
}

/// The history after `c`, as the `ensures` of `push` and `clear` state it.
pub open spec fn after_change(v: Seq<Message>, c: ContextChange) -> Seq<Message> {
    match c {
        ContextChange::Push(m) => v.push(m),
        ContextChange::Clear => Seq::empty(),
    }
}

/// The messages pushed since the last `clear` among `changes`, in order.
pub open spec fn pushed_since_clear(changes: Seq<ContextChange>) -> Seq<Message>
    decreases changes.len(),
{
    if changes.len() == 0 {
        Seq::empty()
    } else {
        match changes.last() {
            ContextChange::Push(m) => pushed_since_clear(changes.drop_last()).push(m),
            ContextChange::Clear => Seq::empty(),
        }
    }
}

/// Over any sequence of `push` and `clear` calls on a fresh history (from
/// `new` or `default`), the history holds exactly the messages pushed since
/// the last `clear`, in call order. `states[k]` is the history after the
/// first `k` calls; reading calls (`messages`, `len`, `is_empty`) change
/// nothing and may stand anywhere between them.
pub proof fn law_history_is_pushes_since_clear(changes: Seq<ContextChange>, states: Seq<Seq<Message>>)
    requires
        states.len() == changes.len() + 1,
        states[0] == Seq::<Message>::empty(),
        forall|k: int| 0 <= k < changes.len() ==> #[trigger] states[k + 1] == after_change(states[k], changes[k]),
    ensures
        states.last() == pushed_since_clear(changes),
    decreases changes.len(),
{
    if changes.len() > 0 {
        let n = changes.len() - 1;
        law_history_is_pushes_since_clear(changes.drop_last(), states.drop_last());
        assert(states[n + 1] == after_change(states[n], changes[n]));
        assert(changes.drop_last().len() == n);
    }
}

} // verus!
