//! The decisions of the interactive chat screen: editing the prompt,
//! recalling earlier prompts, scrolling, and what Enter does.
//!
//! The terminal driver turns each key press into a [`Key`], hands it to
//! [`ChatState::on_key`], and performs the [`LoopAction`] it gets back:
//! redraw, quit, run an agent turn, or switch provider or model.
use vstd::prelude::*;
use crate::args::{provider_name, Provider};
use crate::commands::{
    parse_command, BuiltinCommand, CommandOutcome, CommandOutcomeView, CommandRegistry,
    SlashCommand,
};
use crate::text::{chars_of, push_str, string_of, trim, trimmed};

verus! {

/// Lines scrolled by the arrow keys.
pub const SCROLL_STEP: u16 = 1;

/// Lines scrolled by Page Up and Page Down.
pub const PAGE_SCROLL_STEP: u16 = 10;

/// A key press, as far as the chat screen tells keys apart.
#[derive(Debug, Clone, Copy, PartialEq, Eq, Structural)]
pub enum Key {
    Esc,
    /// Ctrl+C.
    Interrupt,
    PageUp,
    PageDown,
    Up,
    Down,
    Enter,
    Backspace,
    Char(char),
    Other,
}

/// Who a history entry is from.
#[derive(Debug, Clone, Copy, PartialEq, Eq, Structural)]
pub enum Speaker {
    User,
    Agent,
    Error,
    Info,
}

/// One entry of the conversation shown on screen.
#[derive(Debug, Clone)]
pub struct HistoryEntry {
    pub speaker: Speaker,
    pub text: String,
}

/// How an agent turn ended.
#[derive(Debug, Clone)]
pub enum TurnOutcome {
    Answer(String),
    Error(String),
    Cancelled,
}

/// What the driver must do after a key press.
#[derive(Debug)]
pub enum LoopAction {
    /// Redraw the screen and wait for the next key.
    Redraw,
    /// Leave the chat loop.
    Quit,
    /// Run one agent turn on this prompt, then report with
    /// [`ChatState::finish_turn`].
    RunTurn(String),
    /// Use this provider from now on.
    SwitchProvider(Provider),
    /// Use this model from now on.
    SwitchModel(String),
}

/// How a switch of provider asked for with `/provider` turned out.
#[derive(Debug)]
pub enum ProviderSwitch {
    /// The provider is now in use.
    Switched(Provider),
    /// No API key was found for `wanted`; `kept` stays in use.
    NoKey { wanted: Provider, kept: Provider },
    /// The switch failed, for this reason.
    Failed(String),
}

/// The history entry that reports a provider switch.
pub open spec fn switch_entry(outcome: ProviderSwitch) -> (Speaker, Seq<char>) {
    match outcome {
        ProviderSwitch::Switched(p) => (Speaker::Info, "provider: "@ + provider_name(p)),
        ProviderSwitch::NoKey { wanted, kept } => (
            Speaker::Error,
            "no API key found for "@ + provider_name(wanted) + "; staying with "@ + provider_name(kept),
        ),
        ProviderSwitch::Failed(m) => (Speaker::Error, m@),
    }
}

/// The state of the chat screen.
pub struct ChatState {
    history: Vec<HistoryEntry>,
    input: String,
    status: Option<String>,
    scroll_up: u16,
    prompt_history: Vec<String>,
    recall_index: Option<usize>,
}

/// The abstract value of a [`ChatState`].
pub struct ChatView {
    pub history: Seq<(Speaker, Seq<char>)>,
    pub input: Seq<char>,
    pub status: Option<Seq<char>>,
    pub scroll_up: u16,
    pub prompt_history: Seq<Seq<char>>,
    pub recall: Option<nat>,
}

impl View for ChatState {
    type V = ChatView;

    closed spec fn view(&self) -> ChatView {
        ChatView {
            history: self.history@.map_values(|e: HistoryEntry| (e.speaker, e.text@)),
            input: self.input@,
            status: match self.status {
                Some(s) => Some(s@),
                None => None,
            },
            scroll_up: self.scroll_up,
            prompt_history: self.prompt_history@.map_values(|s: String| s@),
            recall: match self.recall_index {
                Some(i) => Some(i as nat),
                None => None,
            },
        }
    }
}

/// A recalled prompt is always one of the earlier prompts.
pub open spec fn chat_wf(v: ChatView) -> bool {
    v.recall matches Some(i) ==> i < v.prompt_history.len()
}

/// `a + b`, or the largest `u16` when that overflows.
pub open spec fn sat_add(a: u16, b: u16) -> u16 {
    if a + b > u16::MAX {
        u16::MAX
    } else {
        (a + b) as u16
    }
}

/// `a - b`, or zero when that underflows.
pub open spec fn sat_sub(a: u16, b: u16) -> u16 {
    if a < b {
        0
    } else {
        (a - b) as u16
    }
}

/// What the registry does with `line`, as a view.
pub open spec fn dispatched(reg: CommandRegistry<BuiltinCommand>, line: Seq<char>) -> Option<
    CommandOutcomeView,
> {
    match parse_command(line) {
        None => None,
        Some((name, args)) => match reg.command_for(name) {
            None => None,
            Some(c) => Some(c.spec_execute(args)),
        },
    }
}

/// The text shown for a line that names no command.
pub open spec fn unknown_command_text(line: Seq<char>) -> Seq<char> {
    "unknown command: "@ + line
}

/// The status shown while a turn runs.
pub open spec fn thinking_text() -> Seq<char> {
    "thinking..."@
}

/// What pressing `key` in state `pre` leads to, and the action asked for.
pub open spec fn key_effect(
    reg: CommandRegistry<BuiltinCommand>,
    pre: ChatView,
    key: Key,
    post: ChatView,
    act: LoopAction,
) -> bool {
    match key {
        Key::Esc | Key::Interrupt => act is Quit && post == pre,
        Key::PageUp => act is Redraw && post == (ChatView {
            scroll_up: sat_add(pre.scroll_up, PAGE_SCROLL_STEP),
            ..pre
        }),
        Key::PageDown => act is Redraw && post == (ChatView {
            scroll_up: sat_sub(pre.scroll_up, PAGE_SCROLL_STEP),
            ..pre
        }),
        Key::Up => act is Redraw && if pre.input.len() == 0 && pre.prompt_history.len() > 0 {
            let next = match pre.recall {
                Some(i) => if i == 0 {
                    0
                } else {
                    (i - 1) as nat
                },
                None => (pre.prompt_history.len() - 1) as nat,
            };
            post == (ChatView {
                recall: Some(next),
                input: pre.prompt_history[next as int],
                ..pre
            })
        } else {
            post == (ChatView { scroll_up: sat_add(pre.scroll_up, SCROLL_STEP), ..pre })
        },
        Key::Down => act is Redraw && match pre.recall {
            Some(i) => if i + 1 < pre.prompt_history.len() {
                post == (ChatView {
                    recall: Some(i + 1),
                    input: pre.prompt_history[(i + 1) as int],
                    ..pre
                })
            } else {
                post == (ChatView { recall: None, input: Seq::empty(), ..pre })
            },
            None => post == (ChatView { scroll_up: sat_sub(pre.scroll_up, SCROLL_STEP), ..pre }),
        },
        Key::Backspace => act is Redraw && post == (ChatView {
            input: if pre.input.len() == 0 {
                pre.input
            } else {
                pre.input.drop_last()
            },
            recall: None,
            ..pre
        }),
        Key::Char(c) => act is Redraw && post == (ChatView {
            input: pre.input.push(c),
            recall: None,
            ..pre
        }),
        Key::Other => act is Redraw && post == pre,
        Key::Enter => enter_effect(reg, pre, post, act),
    }
}

/// What Enter does: the trimmed prompt is sent to the agent, or run as a
/// slash command when it starts with `/`; an empty prompt does nothing.
pub open spec fn enter_effect(
    reg: CommandRegistry<BuiltinCommand>,
    pre: ChatView,
    post: ChatView,
    act: LoopAction,
) -> bool {
    let line = trim(pre.input);
    let cleared = ChatView { input: Seq::empty(), recall: None, ..pre };
    if line.len() == 0 {
        act is Redraw && post == cleared
    } else if line[0] == '/' {
        match dispatched(reg, line) {
            None => act is Redraw && post == (ChatView {
                history: pre.history.push((Speaker::Error, unknown_command_text(line))),
                scroll_up: 0,
                ..cleared
            }),
            Some(CommandOutcomeView::Exit) => act is Quit && post == cleared,
            Some(CommandOutcomeView::Handled) => act is Redraw && post == cleared,
            Some(CommandOutcomeView::Info(t)) => act is Redraw && post == (ChatView {
                history: pre.history.push((Speaker::Info, t)),
                scroll_up: 0,
                ..cleared
            }),
            Some(CommandOutcomeView::SwitchProvider(p)) => (act matches LoopAction::SwitchProvider(
                q,
            ) && q == p) && post == cleared,
            Some(CommandOutcomeView::SwitchModel(m)) => (act matches LoopAction::SwitchModel(n)
                && n@ == m) && post == cleared,
        }
    } else {
        (act matches LoopAction::RunTurn(s) && s@ == line) && post == (ChatView {
            prompt_history: pre.prompt_history.push(line),
            history: pre.history.push((Speaker::User, line)),
            status: Some(thinking_text()),
            scroll_up: 0,
            ..cleared
        })
    }
}

impl ChatState {
    /// Whether the state is internally consistent.
    pub open spec fn wf(&self) -> bool {
        chat_wf(self@)
    }

    /// An empty screen.
    pub fn new() -> (r: Self)
        ensures
            r.wf(),
            r@.history == Seq::<(Speaker, Seq<char>)>::empty(),
            r@.input == Seq::<char>::empty(),
            r@.status is None,
            r@.scroll_up == 0,
            r@.prompt_history == Seq::<Seq<char>>::empty(),
            r@.recall is None,
    {
        let r = ChatState {
            history: Vec::new(),
            input: String::new(),
            status: None,
            scroll_up: 0,
            prompt_history: Vec::new(),
            recall_index: None,
        };
        assert(r@.history =~= Seq::<(Speaker, Seq<char>)>::empty());
        assert(r@.prompt_history =~= Seq::<Seq<char>>::empty());
        r
    }

    /// The entries shown in the history panel, oldest first.
    pub fn history(&self) -> (r: &[HistoryEntry])
        ensures
            r@.map_values(|e: HistoryEntry| (e.speaker, e.text@)) == self@.history,
    {
        self.history.as_slice()
    }

    /// The text of the prompt line.
    pub fn input(&self) -> (r: &str)
        ensures
            r@ == self@.input,
    {
        self.input.as_str()
    }

    /// The status shown in place of the prompt's title, if any.
    pub fn status(&self) -> (r: Option<&str>)
        ensures
            match self@.status {
                Some(s) => r matches Some(x) && x@ == s,
                None => r is None,
            },
    {
        match &self.status {
            Some(s) => Some(s.as_str()),
            None => None,
        }
    }

    /// Lines scrolled up from the bottom of the history panel.
    pub fn scroll_up(&self) -> (r: u16)
        ensures
            r == self@.scroll_up,
    {
        self.scroll_up
    }

    /// Adds an entry to the history panel and scrolls back to the bottom.
    pub fn push_entry(&mut self, speaker: Speaker, text: String)
        requires
            old(self).wf(),
        ensures
            final(self).wf(),
            final(self)@ == (ChatView {
                history: old(self)@.history.push((speaker, text@)),
                scroll_up: 0,
                ..old(self)@
            }),
    {
        let ghost h0 = self.history@;
        self.history.push(HistoryEntry { speaker, text });
        self.scroll_up = 0;
        assert(self.history@.map_values(|e: HistoryEntry| (e.speaker, e.text@)) =~= h0.map_values(
            |e: HistoryEntry| (e.speaker, e.text@),
        ).push((speaker, text@)));
    }

    /// Records how a turn ended and clears the status.
    pub fn finish_turn(&mut self, outcome: TurnOutcome)
        requires
            old(self).wf(),
        ensures
            final(self).wf(),
            final(self)@ == (ChatView {
                history: old(self)@.history.push(
                    match outcome {
                        TurnOutcome::Answer(a) => (Speaker::Agent, a@),
                        TurnOutcome::Error(e) => (Speaker::Error, e@),
                        TurnOutcome::Cancelled => (Speaker::Error, "cancelled"@),
                    },
                ),
                status: None,
                scroll_up: 0,
                ..old(self)@
            }),
    {
        match outcome {
            TurnOutcome::Answer(a) => self.push_entry(Speaker::Agent, a),
            TurnOutcome::Error(e) => self.push_entry(Speaker::Error, e),
            TurnOutcome::Cancelled => {
                let mut s = String::new();
                push_str(&mut s, "cancelled");
                self.push_entry(Speaker::Error, s);
            },
        }
        self.status = None;
    }

    /// Reports in the history how a switch of provider turned out.
    pub fn report_provider_switch(&mut self, outcome: ProviderSwitch)
        requires
            old(self).wf(),
        ensures
            final(self).wf(),
            final(self)@ == (ChatView {
                history: old(self)@.history.push(switch_entry(outcome)),
                scroll_up: 0,
                ..old(self)@
            }),
    {
        let mut t = String::new();
        match outcome {
            ProviderSwitch::Switched(p) => {
                push_str(&mut t, "provider: ");
                push_str(&mut t, p.name());
                self.push_entry(Speaker::Info, t);
            },
            ProviderSwitch::NoKey { wanted, kept } => {
                push_str(&mut t, "no API key found for ");
                push_str(&mut t, wanted.name());
                push_str(&mut t, "; staying with ");
                push_str(&mut t, kept.name());
                self.push_entry(Speaker::Error, t);
            },
            ProviderSwitch::Failed(m) => self.push_entry(Speaker::Error, m),
        }
    }

    /// Reports in the history that `model` is now in use.
    pub fn report_model_switch(&mut self, model: &str)
        requires
            old(self).wf(),
        ensures
            final(self).wf(),
            final(self)@ == (ChatView {
                history: old(self)@.history.push((Speaker::Info, "model: "@ + model@)),
                scroll_up: 0,
                ..old(self)@
            }),
    {
        let mut t = String::new();
        push_str(&mut t, "model: ");
        push_str(&mut t, model);
        self.push_entry(Speaker::Info, t);
    }

    /// Handles one key press.
    pub fn on_key(&mut self, key: Key, registry: &CommandRegistry<BuiltinCommand>) -> (act:
        LoopAction)
        requires
            old(self).wf(),
            registry.wf(),
        ensures
            final(self).wf(),
            key_effect(*registry, old(self)@, key, final(self)@, act),
    {
        match key {
            Key::Esc | Key::Interrupt => LoopAction::Quit,
            Key::PageUp => {
                self.scroll_up = self.scroll_up.saturating_add(PAGE_SCROLL_STEP);
                LoopAction::Redraw
            },
            Key::PageDown => {
                self.scroll_up = self.scroll_up.saturating_sub(PAGE_SCROLL_STEP);
                LoopAction::Redraw
            },
            Key::Up => {
                if self.input.as_str().is_empty() && self.prompt_history.len() > 0 {
                    let next = match self.recall_index {
                        Some(i) => i.saturating_sub(1),
                        None => self.prompt_history.len() - 1,
                    };
                    self.recall_index = Some(next);
                    self.input = self.prompt_history[next].clone();
                    proof {
                        assert(self@.prompt_history[next as int] == self.prompt_history@[next as int]@);
                    }
                } else {
                    self.scroll_up = self.scroll_up.saturating_add(SCROLL_STEP);
                }
                LoopAction::Redraw
            },
            Key::Down => {
                match self.recall_index {
                    Some(current) => {
                        assert(self@.recall == Some(current as nat));
                        assert(current < self.prompt_history.len());
                        if current + 1 < self.prompt_history.len() {
                            self.recall_index = Some(current + 1);
                            self.input = self.prompt_history[current + 1].clone();
                            proof {
                                assert(self@.prompt_history[current + 1] == self.prompt_history@[current + 1]@);
                            }
                        } else {
                            self.recall_index = None;
                            self.input = String::new();
                        }
                    },
                    None => {
                        self.scroll_up = self.scroll_up.saturating_sub(SCROLL_STEP);
                    },
                }
                LoopAction::Redraw
            },
            Key::Backspace => {
                let v = chars_of(self.input.as_str());
                if v.len() > 0 {
                    self.input = string_of(v.as_slice(), 0, v.len() - 1);
                    assert(self.input@ =~= v@.drop_last());
                }
                self.recall_index = None;
                LoopAction::Redraw
            },
            Key::Char(c) => {
                crate::text::push_char(&mut self.input, c);
                self.recall_index = None;
                LoopAction::Redraw
            },
            Key::Other => LoopAction::Redraw,
            Key::Enter => self.on_enter(registry),
        }
    }

    /// Handles Enter, as [`enter_effect`] states.
    fn on_enter(&mut self, registry: &CommandRegistry<BuiltinCommand>) -> (act: LoopAction)
        requires
            old(self).wf(),
            registry.wf(),
        ensures
            final(self).wf(),
            enter_effect(*registry, old(self)@, final(self)@, act),
    {
        let line = trimmed(self.input.as_str());
        self.input = String::new();
        self.recall_index = None;
        let v = chars_of(line.as_str());
        if v.len() == 0 {
            return LoopAction::Redraw;
        }
        if v[0] == '/' {
            match registry.dispatch(line.as_str()) {
                None => {
                    let mut t = String::new();
                    push_str(&mut t, "unknown command: ");
                    push_str(&mut t, line.as_str());
                    self.push_entry(Speaker::Error, t);
                    LoopAction::Redraw
                },
                Some(CommandOutcome::Exit) => LoopAction::Quit,
                Some(CommandOutcome::Handled) => LoopAction::Redraw,
                Some(CommandOutcome::Info(t)) => {
                    self.push_entry(Speaker::Info, t);
                    LoopAction::Redraw
                },
                Some(CommandOutcome::SwitchProvider(p)) => LoopAction::SwitchProvider(p),
                Some(CommandOutcome::SwitchModel(m)) => LoopAction::SwitchModel(m),
            }
        } else {
            let ghost ph0 = self.prompt_history@;
            let ghost h0 = self.history@;
            self.prompt_history.push(line.clone());
            self.history.push(HistoryEntry { speaker: Speaker::User, text: line.clone() });
            let mut status = String::new();
            push_str(&mut status, "thinking...");
            self.status = Some(status);
            self.scroll_up = 0;
            proof {
                assert(self@.prompt_history =~= ph0.map_values(|s: String| s@).push(line@));
                assert(self@.history =~= h0.map_values(|e: HistoryEntry| (e.speaker, e.text@)).push(
                    (Speaker::User, line@),
                ));
            }
            LoopAction::RunTurn(line)
        }
    }
}

/// Recalling goes back in order: with an empty prompt and no prompt being
/// recalled, Up shows the latest prompt, and Down from the latest prompt
/// leaves recall with an empty prompt again.
pub proof fn law_recall_round_trip(
    reg: CommandRegistry<BuiltinCommand>,
    s0: ChatView,
    s1: ChatView,
    a1: LoopAction,
    s2: ChatView,
    a2: LoopAction,
)
    requires
        chat_wf(s0),
        s0.input.len() == 0,
        s0.recall is None,
        s0.prompt_history.len() > 0,
        key_effect(reg, s0, Key::Up, s1, a1),
        key_effect(reg, s1, Key::Down, s2, a2),
    ensures
        s1.input == s0.prompt_history.last(),
        s2.input.len() == 0,
        s2.recall is None,
        s2.prompt_history == s0.prompt_history,
        s2.history == s0.history,
{
}

/// Typing a character and then Backspace leaves the prompt as it was, and
/// changes nothing else but leaving recall.
pub proof fn law_backspace_undoes_typing(
    reg: CommandRegistry<BuiltinCommand>,
    s0: ChatView,
    c: char,
    s1: ChatView,
    a1: LoopAction,
    s2: ChatView,
    a2: LoopAction,
)
    requires
        key_effect(reg, s0, Key::Char(c), s1, a1),
        key_effect(reg, s1, Key::Backspace, s2, a2),
    ensures
        s2.input == s0.input,
        s2.history == s0.history,
        s2.prompt_history == s0.prompt_history,
        s2.scroll_up == s0.scroll_up,
        s2.recall is None,
{
    assert(s0.input.push(c).drop_last() =~= s0.input);
}

/// Page Up and then Page Down come back to where the view was, as long as
/// Page Up did not hit the limit of the scroll offset; scrolling touches
/// nothing but the offset.
pub proof fn law_page_up_then_down_returns(
    reg: CommandRegistry<BuiltinCommand>,
    s0: ChatView,
    s1: ChatView,
    a1: LoopAction,
    s2: ChatView,
    a2: LoopAction,
)
    requires
        s0.scroll_up + PAGE_SCROLL_STEP <= u16::MAX,
        key_effect(reg, s0, Key::PageUp, s1, a1),
        key_effect(reg, s1, Key::PageDown, s2, a2),
    ensures
        s1.scroll_up == s0.scroll_up + PAGE_SCROLL_STEP,
        s2 == s0,
{
}

/// A prompt sent with Enter becomes the latest prompt to recall: Up on the
/// emptied prompt line brings it back.
pub proof fn law_sent_prompt_is_recalled_first(
    reg: CommandRegistry<BuiltinCommand>,
    s0: ChatView,
    s1: ChatView,
    a1: LoopAction,
    s2: ChatView,
    a2: LoopAction,
)
    requires
        chat_wf(s0),
        trim(s0.input).len() > 0,
        trim(s0.input)[0] != '/',
        key_effect(reg, s0, Key::Enter, s1, a1),
        key_effect(reg, s1, Key::Up, s2, a2),
    ensures
        a1 matches LoopAction::RunTurn(p) && p@ == trim(s0.input),
        s2.input == trim(s0.input),
        s2.recall == Some((s2.prompt_history.len() - 1) as nat),
{
}

} // verus!
