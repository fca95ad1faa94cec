//! Slash commands typed at the interactive prompt (`/exit`, `/model ...`).
use vstd::prelude::*;
use crate::args::{law_provider_name_round_trip, provider_name, provider_named, Provider};
use crate::text::{law_trim_removes_only_surrounding_ws, is_whitespace, is_ws, push_str, trim, trim_start, trimmed, chars_of};

verus! {

/// What a command handler gets to work with.
pub struct CommandContext<'a> {
    /// The text after the command's name, surrounding whitespace removed.
    pub args: &'a str,
}

/// What a command asks of the running chat loop.
#[derive(Debug)]
pub enum CommandOutcome {
    /// Handled in place; nothing more to do.
    Handled,
    /// Leave the chat loop.
    Exit,
    /// Show this text to the user.
    Info(String),
    /// Use this provider from now on.
    SwitchProvider(Provider),
    /// Use this model from now on.
    SwitchModel(String),
}

/// The abstract value of a [`CommandOutcome`].
pub enum CommandOutcomeView {
    Handled,
    Exit,
    Info(Seq<char>),
    SwitchProvider(Provider),
    SwitchModel(Seq<char>),
}

impl View for CommandOutcome {
    type V = CommandOutcomeView;

    open spec fn view(&self) -> CommandOutcomeView {
        match self {
            CommandOutcome::Handled => CommandOutcomeView::Handled,
            CommandOutcome::Exit => CommandOutcomeView::Exit,
            CommandOutcome::Info(t) => CommandOutcomeView::Info(t@),
            CommandOutcome::SwitchProvider(p) => CommandOutcomeView::SwitchProvider(*p),
            CommandOutcome::SwitchModel(m) => CommandOutcomeView::SwitchModel(m@),
        }
    }
}

/// A command of the chat loop.
pub trait SlashCommand {
    /// The canonical name, without the leading `/`.
    spec fn spec_name(&self) -> Seq<char>;

    /// Further names that run this same command.
    spec fn spec_aliases(&self) -> Seq<Seq<char>>;

    /// What running the command with `args` asks for.
    spec fn spec_execute(&self, args: Seq<char>) -> CommandOutcomeView;

    /// The canonical name, without the leading `/`, e.g. `exit`.
    fn name(&self) -> (r: String)
        ensures
            r@ == self.spec_name(),
    ;

    /// Additional names that resolve to this same command, e.g. `quit`.
    fn aliases(&self) -> (r: Vec<String>)
        ensures
            r@.map_values(|a: String| a@) == self.spec_aliases(),
    ;

    /// Runs the command.
    fn execute(&self, ctx: CommandContext<'_>) -> (r: CommandOutcome)
        ensures
            r@ == self.spec_execute(ctx.args@),
    ;
}

/// Index of the first whitespace character of `s` at or after `from`, or the
/// length of `s` when there is none.
pub open spec fn first_ws(s: Seq<char>, from: int) -> int
    decreases s.len() - from,
{
    if from >= s.len() {
        s.len() as int
    } else if is_ws(s[from]) {
        from
    } else {
        first_ws(s, from + 1)
    }
}

/// `"/name rest of line"` split into the name (without the slash) and the
/// rest, surrounding whitespace removed; `None` when the line does not start with
/// a slash. The name ends at the first whitespace character, which belongs to
/// neither part.
pub open spec fn parse_command(line: Seq<char>) -> Option<(Seq<char>, Seq<char>)> {
    if line.len() > 0 && line[0] == '/' {
        let rest = line.drop_first();
        let j = first_ws(rest, 0);
        if j < rest.len() {
            Some((rest.take(j), trim(rest.skip(j + 1))))
        } else {
            Some((rest, Seq::empty()))
        }
    } else {
        None
    }
}

/// Index facts about [`first_ws`]: it lies between `from` and the length,
/// no whitespace comes before it, and it is whitespace when inside.
proof fn lemma_first_ws(s: Seq<char>, from: int)
    requires
        0 <= from <= s.len(),
    ensures
        from <= first_ws(s, from) <= s.len(),
        forall|i: int| from <= i < first_ws(s, from) ==> !is_ws(#[trigger] s[i]),
        first_ws(s, from) < s.len() ==> is_ws(s[first_ws(s, from)]),
    decreases s.len() - from,
{
    if from < s.len() && !is_ws(s[from]) {
        lemma_first_ws(s, from + 1);
    }
}

/// A command line is a slash, the command's name (no whitespace in it), and,
/// after the first whitespace character, the arguments with the whitespace
/// around them removed and nothing else: the arguments are the stretch
/// `line[a..b]`, only whitespace stands between the name and `a` and from
/// `b` on, and they neither start nor end with whitespace. A line without a
/// leading slash is no command.
pub proof fn law_parse_splits_name_and_args(line: Seq<char>)
    ensures
        (line.len() == 0 || line[0] != '/') ==> parse_command(line) is None,
        parse_command(line) matches Some((name, args)) ==> {
            &&& line[0] == '/'
            &&& name == line.subrange(1, name.len() + 1int)
            &&& forall|i: int| 0 <= i < name.len() ==> !is_ws(#[trigger] name[i])
            &&& name.len() + 1 < line.len() ==> is_ws(line[name.len() + 1int])
            &&& exists|a: int, b: int|
                {
                    &&& name.len() + 1 <= a <= b <= line.len()
                    &&& #[trigger] line.subrange(a, b) == args
                    &&& forall|i: int| name.len() + 1 <= i < a ==> is_ws(#[trigger] line[i])
                    &&& forall|i: int| b <= i < line.len() ==> is_ws(#[trigger] line[i])
                }
            &&& args.len() > 0 ==> !is_ws(args[0]) && !is_ws(args.last())
        },
{
    if line.len() > 0 && line[0] == '/' {
        let rest = line.drop_first();
        lemma_first_ws(rest, 0);
        let j = first_ws(rest, 0);
        if j < rest.len() {
            let tail = rest.skip(j + 1);
            let ab = law_trim_removes_only_surrounding_ws(tail);
            let name = rest.take(j);
            let args = trim(tail);
            assert(name =~= line.subrange(1, name.len() + 1int));
            assert forall|i: int| 0 <= i < name.len() implies !is_ws(#[trigger] name[i]) by {
                assert(name[i] == rest[i]);
            }
            let a = ab.0 + j + 2;
            let b = ab.1 + j + 2;
            assert(line.subrange(a, b) =~= tail.subrange(ab.0, ab.1));
            assert forall|i: int| name.len() + 1 <= i < a implies is_ws(#[trigger] line[i]) by {
                if i > j + 1 {
                    assert(line[i] == tail[i - j - 2]);
                } else {
                    assert(line[i] == rest[j]);
                }
            }
            assert forall|i: int| b <= i < line.len() implies is_ws(#[trigger] line[i]) by {
                assert(line[i] == tail[i - j - 2]);
            }
            assert(line[name.len() + 1int] == rest[j]);
        } else {
            assert(rest =~= line.subrange(1, rest.len() + 1int));
            assert(line.subrange(line.len() as int, line.len() as int) =~= Seq::<char>::empty());
        }
    }
}

/// The registry of the commands of the chat loop, by name and alias.
pub struct CommandRegistry<C> {
    commands: Vec<C>,
    names: Vec<String>,
    targets: Vec<usize>,
}

impl<C> CommandRegistry<C> {
    /// The internal consistency of the registry: every name is held once and
    /// points at a command.
    pub closed spec fn wf(&self) -> bool {
        &&& self.names@.len() == self.targets@.len()
        &&& forall|i: int| 0 <= i < self.targets@.len() ==> self.targets@[i] < self.commands@.len()
        &&& forall|i: int, j: int|
            0 <= i < j < self.names@.len() ==> self.names@[i]@ != self.names@[j]@
    }

    /// The command that `name` runs, if any.
    pub closed spec fn command_for(&self, name: Seq<char>) -> Option<C> {
        if exists|i: int| 0 <= i < self.names@.len() && self.names@[i]@ == name {
            let i = choose|i: int| 0 <= i < self.names@.len() && self.names@[i]@ == name;
            Some(self.commands@[self.targets@[i] as int])
        } else {
            None
        }
    }

    /// An empty registry.
    pub fn new() -> (r: Self)
        ensures
            r.wf(),
            forall|name: Seq<char>| r.command_for(name) is None,
    {
        CommandRegistry { commands: Vec::new(), names: Vec::new(), targets: Vec::new() }
    }

    /// Index of `name` among the registered names.
    fn position(&self, name: &str) -> (r: Option<usize>)
        requires
            self.wf(),
        ensures
            match r {
                Some(i) => i < self.names@.len() && self.names@[i as int]@ == name@,
                None => forall|i: int| 0 <= i < self.names@.len() ==> self.names@[i]@ != name@,
            },
    {
        let mut i: usize = 0;
        while i < self.names.len()
            invariant
                i <= self.names@.len(),
                forall|j: int| 0 <= j < i ==> self.names@[j]@ != name@,
            decreases self.names.len() - i,
        {
            if crate::text::str_eq(self.names[i].as_str(), name) {
                return Some(i);
            }
            i = i + 1;
        }
        None
    }

    /// Makes `name` run the command at `target`.
    fn bind(&mut self, name: String, target: usize)
        requires
            old(self).wf(),
            target < old(self).commands@.len(),
        ensures
            final(self).wf(),
            final(self).commands@ == old(self).commands@,
            final(self).command_for(name@) == Some(old(self).commands@[target as int]),
            forall|other: Seq<char>|
                other != name@ ==> final(self).command_for(other) == old(self).command_for(other),
    {
        match self.position(name.as_str()) {
            Some(i) => {
                self.targets.set(i, target);
                proof {
                    assert forall|other: Seq<char>| other != name@ implies self.command_for(other)
                        == old(self).command_for(other) by {
                        if exists|k: int| 0 <= k < self.names@.len() && self.names@[k]@ == other {
                            let k = choose|k: int| 0 <= k < self.names@.len() && self.names@[k]@ == other;
                            assert(k != i);
                        }
                    }
                    assert(self.names@[i as int]@ == name@);
                }
            },
            None => {
                let ghost n = name@;
                self.names.push(name);
                self.targets.push(target);
                proof {
                    let last = self.names@.len() - 1;
                    assert(self.names@[last]@ == n);
                    assert forall|other: Seq<char>| other != n implies self.command_for(other)
                        == old(self).command_for(other) by {
                        if exists|k: int| 0 <= k < self.names@.len() && self.names@[k]@ == other {
                            let k = choose|k: int| 0 <= k < self.names@.len() && self.names@[k]@ == other;
                            assert(k != last);
                            assert(old(self).names@[k]@ == other);
                        }
                        if exists|k: int| 0 <= k < old(self).names@.len() && old(self).names@[k]@ == other {
                            let k = choose|k: int| 0 <= k < old(self).names@.len() && old(self).names@[k]@ == other;
                            assert(self.names@[k]@ == other);
                        }
                    }
                    assert forall|k: int| 0 <= k < self.names@.len() && self.names@[k]@ == n implies k
                        == last by {
                        if k != last {
                            assert(old(self).names@[k]@ == n);
                        }
                    }
                }
            },
        }
    }

}

impl<C: SlashCommand> CommandRegistry<C> {
    /// Registers `command` under its name and each of its aliases; a name
    /// registered before now runs `command`.
    pub fn register(&mut self, command: C)
        requires
            old(self).wf(),
        ensures
            final(self).wf(),
            final(self).command_for(command.spec_name()) == Some(command),
            forall|i: int|
                0 <= i < command.spec_aliases().len() ==> final(self).command_for(
                    #[trigger] command.spec_aliases()[i],
                ) == Some(command),
            forall|other: Seq<char>|
                other != command.spec_name() && !command.spec_aliases().contains(other)
                    ==> final(self).command_for(other) == old(self).command_for(other),
    {
        let name = command.name();
        let aliases = command.aliases();
        let ghost cmd = command;
        let target = self.commands.len();
        self.commands.push(command);
        proof {
            assert forall|other: Seq<char>| true implies self.command_for(other) == old(self).command_for(other) by {
                if exists|k: int| 0 <= k < self.names@.len() && self.names@[k]@ == other {
                    let k = choose|k: int| 0 <= k < self.names@.len() && self.names@[k]@ == other;
                    assert(self.commands@[self.targets@[k] as int] == old(self).commands@[self.targets@[k] as int]);
                }
            }
        }
        let ghost mid = *self;
        let ghost n = name@;
        self.bind(name, target);
        let mut k: usize = 0;
        while k < aliases.len()
            invariant
                self.wf(),
                target < self.commands@.len(),
                self.commands@[target as int] == cmd,
                k <= aliases@.len(),
                aliases@.map_values(|a: String| a@) == cmd.spec_aliases(),
                n == cmd.spec_name(),
                k == 0 ==> self.command_for(n) == Some(cmd),
                k > 0 ==> !cmd.spec_aliases().take(k as int).contains(n) ==> self.command_for(n) == Some(cmd),
                cmd.spec_aliases().take(k as int).contains(n) ==> self.command_for(n) == Some(cmd),
                forall|i: int| 0 <= i < k ==> self.command_for(#[trigger] cmd.spec_aliases()[i]) == Some(cmd),
                forall|other: Seq<char>|
                    other != n && !cmd.spec_aliases().take(k as int).contains(other)
                        ==> self.command_for(other) == old(self).command_for(other),
            decreases aliases.len() - k,
        {
            let ghost alias = aliases@[k as int]@;
            assert(aliases@.map_values(|a: String| a@)[k as int] == alias);
            let ghost before = *self;
            self.bind(aliases[k].clone(), target);
            proof {
                assert(cmd.spec_aliases().take(k + 1) =~= cmd.spec_aliases().take(k as int).push(alias));
                assert forall|i: int| 0 <= i < k + 1 implies self.command_for(#[trigger] cmd.spec_aliases()[i]) == Some(cmd) by {
                    if cmd.spec_aliases()[i] != alias {
                        assert(before.command_for(cmd.spec_aliases()[i]) == Some(cmd));
                    }
                }
                assert forall|other: Seq<char>|
                    other != n && !cmd.spec_aliases().take(k + 1).contains(other)
                        implies self.command_for(other) == old(self).command_for(other) by {
                    assert(cmd.spec_aliases().take(k + 1)[k as int] == alias);
                    assert(other != alias);
                    assert(!cmd.spec_aliases().take(k as int).contains(other)) by {
                        if cmd.spec_aliases().take(k as int).contains(other) {
                            let w = choose|w: int| 0 <= w < k && cmd.spec_aliases().take(k as int)[w] == other;
                            assert(cmd.spec_aliases().take(k + 1)[w] == other);
                        }
                    }
                }
            }
            k = k + 1;
        }
        proof {
            assert(cmd.spec_aliases().take(aliases@.len() as int) =~= cmd.spec_aliases());
        }
    }

    /// Looks up and runs the command named by `line`. `None` if `line` is not
    /// a registered slash command.
    pub fn dispatch(&self, line: &str) -> (r: Option<CommandOutcome>)
        requires
            self.wf(),
        ensures
            match parse_command(line@) {
                None => r is None,
                Some((name, args)) => match self.command_for(name) {
                    None => r is None,
                    Some(c) => r matches Some(o) && o@ == c.spec_execute(args),
                },
            },
    {
        let (name, args) = match split_command(line) {
            Some(p) => p,
            None => return None,
        };
        match self.position(name) {
            Some(i) => {
                proof {
                    let j = choose|j: int| 0 <= j < self.names@.len() && self.names@[j]@ == name@;
                    assert(j == i as int);
                }
                let c = &self.commands[self.targets[i]];
                Some(c.execute(CommandContext { args }))
            },
            None => None,
        }
    }
}

/// Splits `"/name rest of line"` into (name without the slash, rest with
/// its surrounding whitespace removed); `None` if `line` does not start with
/// '/'.
pub fn split_command(line: &str) -> (r: Option<(&str, &str)>)
    ensures
        match r {
            Some((name, args)) => parse_command(line@) == Some((name@, args@)),
            None => parse_command(line@) is None,
        },
{
    let v = chars_of(line);
    if v.len() == 0 || v[0] != '/' {
        return None;
    }
    let ghost rest = line@.drop_first();
    let mut j: usize = 1;
    while j < v.len() && !is_whitespace(v[j])
        invariant
            1 <= j <= v@.len(),
            v@ == line@,
            rest == v@.drop_first(),
            first_ws(rest, 0) == first_ws(rest, j - 1),
        decreases v.len() - j,
    {
        j = j + 1;
    }
    if j == v.len() {
        let name = line.substring_char(1, j);
        proof {
            assert(name@ =~= rest);
        }
        return Some((name, line.substring_char(j, j)));
    }
    let name = line.substring_char(1, j);
    let k = crate::text::skip_whitespace(v.as_slice(), j + 1);
    let e = crate::text::trailing_whitespace_start(v.as_slice(), k, v.len());
    let args = line.substring_char(k, e);
    proof {
        assert(name@ =~= rest.take(j - 1));
        assert(rest.skip(j as int) =~= v@.subrange(j + 1, v@.len() as int));
        assert(args@ =~= v@.subrange(k as int, e as int));
    }
    Some((name, args))
}

impl CommandRegistry<BuiltinCommand> {
    /// Splits `"/name rest of line"` into (name without the slash, rest with
    /// its surrounding whitespace removed); `None` if `line` does not start with
    /// '/'.
    pub fn parse(line: &str) -> (r: Option<(&str, &str)>)
        ensures
            match r {
                Some((name, args)) => parse_command(line@) == Some((name@, args@)),
                None => parse_command(line@) is None,
            },
    {
        split_command(line)
    }
}

/// `/exit` and `/quit` both leave the chat loop.
pub struct ExitCommand;

/// `/provider <name>` switches to the named provider.
pub struct ProviderCommand;

/// `/model <name>` switches to the named model.
pub struct ModelCommand;

/// The text shown for `/provider` without a name.
pub open spec fn provider_usage_text() -> Seq<char> {
    "usage: /provider <groq|gemini|ollama|mistral>"@
}

/// The text shown for `/model` without a name.
pub open spec fn model_usage_text() -> Seq<char> {
    "usage: /model <name>"@
}

/// What `/provider` does with its arguments.
pub open spec fn provider_outcome(args: Seq<char>) -> CommandOutcomeView {
    let name = trim(args);
    if name.len() == 0 {
        CommandOutcomeView::Info(provider_usage_text())
    } else {
        match provider_named(name) {
            Some(p) => CommandOutcomeView::SwitchProvider(p),
            None => CommandOutcomeView::Info("unknown provider: "@ + name),
        }
    }
}

/// `/provider` followed by a provider's own name switches to that provider.
pub proof fn law_provider_command_switches_by_name(p: Provider)
    ensures
        provider_outcome(provider_name(p)) == CommandOutcomeView::SwitchProvider(p),
{
    law_provider_name_round_trip(p);
    reveal_strlit("groq");
    reveal_strlit("gemini");
    reveal_strlit("ollama");
    reveal_strlit("mistral");
    let n = provider_name(p);
    assert(!is_ws(n[0]));
    assert(trim_start(n) == n);
    assert(!is_ws(n.last()));
    assert(trim(n) == n);
}

/// What `/model` does with its arguments.
pub open spec fn model_outcome(args: Seq<char>) -> CommandOutcomeView {
    let name = trim(args);
    if name.len() == 0 {
        CommandOutcomeView::Info(model_usage_text())
    } else {
        CommandOutcomeView::SwitchModel(name)
    }
}

impl SlashCommand for ExitCommand {
    open spec fn spec_name(&self) -> Seq<char> {
        "exit"@
    }

    open spec fn spec_aliases(&self) -> Seq<Seq<char>> {
        seq!["quit"@]
    }

    open spec fn spec_execute(&self, args: Seq<char>) -> CommandOutcomeView {
        CommandOutcomeView::Exit
    }

    fn name(&self) -> (r: String) {
        let mut s = String::new();
        push_str(&mut s, "exit");
        s
    }

    fn aliases(&self) -> (r: Vec<String>) {
        let mut s = String::new();
        push_str(&mut s, "quit");
        let mut v = Vec::new();
        v.push(s);
        assert(v@.map_values(|a: String| a@) =~= seq!["quit"@]);
        v
    }

    fn execute(&self, ctx: CommandContext<'_>) -> (r: CommandOutcome) {
        CommandOutcome::Exit
    }
}

impl SlashCommand for ProviderCommand {
    open spec fn spec_name(&self) -> Seq<char> {
        "provider"@
    }

    open spec fn spec_aliases(&self) -> Seq<Seq<char>> {
        Seq::empty()
    }

    open spec fn spec_execute(&self, args: Seq<char>) -> CommandOutcomeView {
        provider_outcome(args)
    }

    fn name(&self) -> (r: String) {
        let mut s = String::new();
        push_str(&mut s, "provider");
        s
    }

    fn aliases(&self) -> (r: Vec<String>) {
        let v: Vec<String> = Vec::new();
        assert(v@.map_values(|a: String| a@) =~= Seq::<Seq<char>>::empty());
        v
    }

    fn execute(&self, ctx: CommandContext<'_>) -> (r: CommandOutcome) {
        let name = trimmed(ctx.args);
        if name.as_str().is_empty() {
            let mut s = String::new();
            push_str(&mut s, "usage: /provider <groq|gemini|ollama|mistral>");
            return CommandOutcome::Info(s);
        }
        match Provider::from_name(name.as_str()) {
            Some(p) => CommandOutcome::SwitchProvider(p),
            None => {
                let mut s = String::new();
                push_str(&mut s, "unknown provider: ");
                push_str(&mut s, name.as_str());
                CommandOutcome::Info(s)
            },
        }
    }
}

impl SlashCommand for ModelCommand {
    open spec fn spec_name(&self) -> Seq<char> {
        "model"@
    }

    open spec fn spec_aliases(&self) -> Seq<Seq<char>> {
        Seq::empty()
    }

    open spec fn spec_execute(&self, args: Seq<char>) -> CommandOutcomeView {
        model_outcome(args)
    }

    fn name(&self) -> (r: String) {
        let mut s = String::new();
        push_str(&mut s, "model");
        s
    }

    fn aliases(&self) -> (r: Vec<String>) {
        let v: Vec<String> = Vec::new();
        assert(v@.map_values(|a: String| a@) =~= Seq::<Seq<char>>::empty());
        v
    }

    fn execute(&self, ctx: CommandContext<'_>) -> (r: CommandOutcome) {
        let name = trimmed(ctx.args);
        if name.as_str().is_empty() {
            let mut s = String::new();
            push_str(&mut s, "usage: /model <name>");
            return CommandOutcome::Info(s);
        }
        CommandOutcome::SwitchModel(name)
    }
}

/// The commands the chat loop starts with.
pub enum BuiltinCommand {
    Exit(ExitCommand),
    Provider(ProviderCommand),
    Model(ModelCommand),
}

impl SlashCommand for BuiltinCommand {
    open spec fn spec_name(&self) -> Seq<char> {
        match self {
            BuiltinCommand::Exit(c) => c.spec_name(),
            BuiltinCommand::Provider(c) => c.spec_name(),
            BuiltinCommand::Model(c) => c.spec_name(),
        }
    }

    open spec fn spec_aliases(&self) -> Seq<Seq<char>> {
        match self {
            BuiltinCommand::Exit(c) => c.spec_aliases(),
            BuiltinCommand::Provider(c) => c.spec_aliases(),
            BuiltinCommand::Model(c) => c.spec_aliases(),
        }
    }

    open spec fn spec_execute(&self, args: Seq<char>) -> CommandOutcomeView {
        match self {
            BuiltinCommand::Exit(c) => c.spec_execute(args),
            BuiltinCommand::Provider(c) => c.spec_execute(args),
            BuiltinCommand::Model(c) => c.spec_execute(args),
        }
    }

    fn name(&self) -> (r: String) {
        match self {
            BuiltinCommand::Exit(c) => c.name(),
            BuiltinCommand::Provider(c) => c.name(),
            BuiltinCommand::Model(c) => c.name(),
        }
    }

    fn aliases(&self) -> (r: Vec<String>) {
        match self {
            BuiltinCommand::Exit(c) => c.aliases(),
            BuiltinCommand::Provider(c) => c.aliases(),
            BuiltinCommand::Model(c) => c.aliases(),
        }
    }

    fn execute(&self, ctx: CommandContext<'_>) -> (r: CommandOutcome) {
        match self {
            BuiltinCommand::Exit(c) => c.execute(ctx),
            BuiltinCommand::Provider(c) => c.execute(ctx),
            BuiltinCommand::Model(c) => c.execute(ctx),
        }
    }
}

/// The registry of the chat loop: `/exit` (alias `/quit`), `/provider` and
/// `/model`.
pub fn default_registry() -> (r: CommandRegistry<BuiltinCommand>)
    ensures
        r.wf(),
        r.command_for("exit"@) == Some(BuiltinCommand::Exit(ExitCommand)),
        r.command_for("quit"@) == Some(BuiltinCommand::Exit(ExitCommand)),
        r.command_for("provider"@) == Some(BuiltinCommand::Provider(ProviderCommand)),
        r.command_for("model"@) == Some(BuiltinCommand::Model(ModelCommand)),
        forall|name: Seq<char>|
            name != "exit"@ && name != "quit"@ && name != "provider"@ && name != "model"@
                ==> r.command_for(name) is None,
{
    let mut registry = CommandRegistry::new();
    registry.register(BuiltinCommand::Exit(ExitCommand));
    registry.register(BuiltinCommand::Provider(ProviderCommand));
    registry.register(BuiltinCommand::Model(ModelCommand));
    proof {
        reveal_strlit("exit");
        reveal_strlit("quit");
        reveal_strlit("provider");
        reveal_strlit("model");
        assert("quit"@ != "provider"@) by {
            assert("quit"@.len() != "provider"@.len());
        }
        assert("quit"@ != "model"@) by {
            assert("quit"@.len() != "model"@.len());
        }
        assert("exit"@ != "provider"@) by {
            assert("exit"@.len() != "provider"@.len());
        }
        assert("exit"@ != "model"@) by {
            assert("exit"@.len() != "model"@.len());
        }
        assert("exit"@ != "quit"@) by {
            assert("exit"@[0] != "quit"@[0]);
        }
        assert("provider"@ != "model"@) by {
            assert("provider"@.len() != "model"@.len());
        }
        assert(seq!["quit"@][0] == "quit"@);
        assert(!Seq::<Seq<char>>::empty().contains("exit"@));
        assert(!Seq::<Seq<char>>::empty().contains("quit"@));
    }
    registry
}

impl<C> Default for CommandRegistry<C> {
    fn default() -> (r: Self)
        ensures
            r.wf(),
            forall|name: Seq<char>| r.command_for(name) is None,
    {
        Self::new()
    }
}

} // verus!
