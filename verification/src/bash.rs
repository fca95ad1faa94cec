//! The rules that decide whether a shell command may run, and how risky it is.
use vstd::prelude::*;
use crate::text::push_str;
use crate::tools::{ToolError, ToolRisk};

verus! {

/// The error type of `regex::Regex::new`.
#[verifier::external_type_specification]
#[verifier::external_body]
pub struct ExRegexError(regex::Error);

/// Whether `regex::Regex::new` accepts `pattern`.
pub uninterp spec fn regex_compiles(pattern: Seq<char>) -> bool;

/// Whether the regex compiled from `pattern` matches somewhere in `haystack`.
pub uninterp spec fn regex_finds(pattern: Seq<char>, haystack: Seq<char>) -> bool;

/// Compiles `pattern` with `regex::Regex::new` and, when that succeeds,
/// reports what `Regex::is_match` says of `haystack`.
///
/// The contract only names the two results: compilation succeeds exactly
/// when `regex_compiles(pattern)`, and the match is `regex_finds(pattern,
/// haystack)`; both depend on nothing but these arguments.
#[verifier::external_body]
fn regex_search(pattern: &str, haystack: &str) -> (r: Result<bool, regex::Error>)
    ensures
        r is Ok <==> regex_compiles(pattern@),
        r matches Ok(b) ==> b == regex_finds(pattern@, haystack@),
{
    match regex::Regex::new(pattern) {
        Ok(re) => Ok(re.is_match(haystack)),
        Err(e) => Err(e),
    }
}

/// The regex every pattern of a policy is compiled as: case-insensitive.
pub open spec fn case_insensitive(p: Seq<char>) -> Seq<char> {
    "(?i)"@ + p
}

/// Whether pattern `p` of a policy matches the command `cmd`.
pub open spec fn pattern_hits(p: Seq<char>, cmd: Seq<char>) -> bool {
    regex_compiles(case_insensitive(p)) && regex_finds(case_insensitive(p), cmd)
}

/// Whether some pattern of `ps` matches `cmd`.
pub open spec fn any_hits(ps: Seq<Seq<char>>, cmd: Seq<char>) -> bool {
    exists|i: int| 0 <= i < ps.len() && #[trigger] pattern_hits(ps[i], cmd)
}

/// A command is hit by a list of patterns exactly when one of them matches
/// it, wherever it stands in the list, so adding patterns to a list never
/// lets through a command the list caught: a command caught by the default
/// deny list, or by added deny patterns, is caught by the extended list.
pub proof fn law_added_patterns_only_catch_more(ps: Seq<Seq<char>>, extra: Seq<Seq<char>>, cmd: Seq<char>)
    ensures
        forall|i: int| 0 <= i < ps.len() && #[trigger] pattern_hits(ps[i], cmd) ==> any_hits(ps, cmd),
        !any_hits(ps, cmd) ==> forall|i: int| 0 <= i < ps.len() ==> !#[trigger] pattern_hits(ps[i], cmd),
        any_hits(ps, cmd) ==> any_hits(ps + extra, cmd),
        any_hits(extra, cmd) ==> any_hits(ps + extra, cmd),
        any_hits(ps + extra, cmd) ==> any_hits(ps, cmd) || any_hits(extra, cmd),
{
    if any_hits(ps, cmd) {
        let i = choose|i: int| 0 <= i < ps.len() && #[trigger] pattern_hits(ps[i], cmd);
        assert((ps + extra)[i] == ps[i]);
    }
    if any_hits(extra, cmd) {
        let i = choose|i: int| 0 <= i < extra.len() && #[trigger] pattern_hits(extra[i], cmd);
        assert((ps + extra)[ps.len() + i] == extra[i]);
    }
    if any_hits(ps + extra, cmd) {
        let i = choose|i: int| 0 <= i < (ps + extra).len() && #[trigger] pattern_hits((ps + extra)[i], cmd);
        if i < ps.len() {
            assert((ps + extra)[i] == ps[i]);
        } else {
            assert((ps + extra)[i] == extra[i - ps.len()]);
        }
    }
}

/// Whether `cmd` refers to a parent directory: a `..` path component.
pub open spec fn has_parent_component(cmd: Seq<char>) -> bool {
    exists|i: int|
        0 <= i && i + 1 < cmd.len() && #[trigger] cmd[i] == '.' && cmd[i + 1] == '.'
            && (i == 0 || is_path_break(cmd[i - 1])) && (i + 2 == cmd.len() || is_path_break(
            cmd[i + 2],
        ))
}

/// Characters that end a path component.
pub open spec fn is_path_break(c: char) -> bool {
    c == '/' || crate::text::is_ws(c) || c == ';' || c == '&' || c == '|' || c == '\'' || c
        == '"' || c == '=' || c == '(' || c == ')'
}

/// The text of the refusal of a command that matches deny pattern `p`.
pub open spec fn deny_text(p: Seq<char>) -> Seq<char> {
    "command matches deny-list pattern: "@ + case_insensitive(p)
}

/// The text of the refusal of a command that matches no allow pattern.
pub open spec fn not_allowed_text() -> Seq<char> {
    "command does not match any allow-list pattern"@
}

/// The text of the refusal of a command that leaves the sandbox.
pub open spec fn sandbox_text() -> Seq<char> {
    "command refers to a parent directory outside the sandbox"@
}

/// A pattern that did not compile.
#[derive(Debug, Clone)]
pub struct InvalidPattern {
    pub pattern: String,
}

/// Which commands may run: none that matches a deny pattern; when allow
/// patterns are set, only those that match one; in a sandbox, none that
/// refers to a parent directory.
#[derive(Debug, Clone)]
pub struct CommandPolicy {
    deny_patterns: Vec<String>,
    allow_patterns: Vec<String>,
    sandboxed: bool,
}

/// The abstract value of a [`CommandPolicy`].
pub struct CommandPolicyView {
    pub deny: Seq<Seq<char>>,
    pub allow: Seq<Seq<char>>,
    pub sandboxed: bool,
}

impl View for CommandPolicy {
    type V = CommandPolicyView;

    closed spec fn view(&self) -> CommandPolicyView {
        CommandPolicyView {
            deny: self.deny_patterns@.map_values(|s: String| s@),
            allow: self.allow_patterns@.map_values(|s: String| s@),
            sandboxed: self.sandboxed,
        }
    }
}

/// The patterns that are always denied, grouped by kind.
pub open spec fn default_deny_patterns() -> Seq<Seq<char>> {
    seq![
        // filesystem destruction
        r"rm\s+(-\w*r\w*f\w*|-\w*f\w*r\w*)\s+/(\s|$|\*)"@,
        r"rm\s+(-\w*r\w*f\w*|-\w*f\w*r\w*)\s+~"@,
        r":\(\)\s*\{\s*:\s*\|\s*:\s*&?\s*\}\s*;\s*:"@,
        r"mkfs(\.\w+)?\s"@,
        r"dd\s+if="@,
        r">\s*/dev/sd\w*"@,
        // system/privilege
        r"\bshutdown\b"@,
        r"\breboot\b"@,
        r"\bpoweroff\b"@,
        r"chmod\s+-R\s+777\s+/"@,
        r"chown\s+-R\s+.*\s+/(\s|$)"@,
        // network exfil / remote exec
        r"(curl|wget)\s+.*\|\s*(sh|bash)\b"@,
        r"/dev/tcp/"@,
        // git destructive
        r"git\s+push\s+.*--force"@,
        r"git\s+reset\s+--hard"@,
        r"git\s+clean\s+-\w*f\w*d\w*"@,
        // db destructive
        r"\bDROP\s+TABLE\b"@,
        r"\bTRUNCATE\s+TABLE\b"@,
    ]
}

/// The patterns that make a command dangerous rather than merely mutating.
pub open spec fn destructive_patterns() -> Seq<Seq<char>> {
    seq![
        r"\brm\b"@,
        r"\bsudo\b"@,
        r"\bdd\b"@,
        r"\bmkfs"@,
        r"\bchmod\b"@,
        r"\bchown\b"@,
        r"\b(kill|pkill|killall)\b"@,
        r"\b(shutdown|reboot|poweroff)\b"@,
        r"\bgit\s+(push|reset|clean)\b"@,
        r">\s*/dev/"@,
        r"\b(DROP|TRUNCATE)\s+TABLE\b"@,
    ]
}

/// A vector holding `ps`, built one literal at a time.
fn strings(ps: &[&str]) -> (r: Vec<String>)
    ensures
        r@.map_values(|s: String| s@) == ps@.map_values(|p: &str| p@),
{
    let mut r: Vec<String> = Vec::new();
    let mut k: usize = 0;
    while k < ps.len()
        invariant
            k <= ps@.len(),
            r@.map_values(|s: String| s@) == ps@.take(k as int).map_values(|p: &str| p@),
        decreases ps.len() - k,
    {
        let ghost before = r@;
        r.push(ps[k].to_owned());
        proof {
            assert(ps@.take(k + 1) == ps@.take(k as int).push(ps@[k as int]));
            assert(r@.map_values(|s: String| s@) =~= before.map_values(|s: String| s@).push(ps@[k as int]@));
            assert(ps@.take(k + 1).map_values(|p: &str| p@) =~= ps@.take(k as int).map_values(
                |p: &str| p@,
            ).push(ps@[k as int]@));
        }
        k = k + 1;
    }
    assert(ps@.take(ps@.len() as int) == ps@);
    r
}

/// Whether pattern `p` matches `cmd`, as [`pattern_hits`] states.
fn hits(p: &str, cmd: &str) -> (r: bool)
    ensures
        r == pattern_hits(p@, cmd@),
{
    let mut full = String::new();
    push_str(&mut full, "(?i)");
    push_str(&mut full, p);
    match regex_search(full.as_str(), cmd) {
        Ok(b) => b,
        Err(_) => false,
    }
}

/// The first pattern of `ps` that matches `cmd`, by index.
fn first_hit(ps: &Vec<String>, cmd: &str) -> (r: Option<usize>)
    ensures
        match r {
            Some(i) => i < ps@.len() && pattern_hits(ps@[i as int]@, cmd@) && forall|j: int|
                0 <= j < i ==> !pattern_hits(#[trigger] ps@[j]@, cmd@),
            None => forall|j: int| 0 <= j < ps@.len() ==> !pattern_hits(#[trigger] ps@[j]@, cmd@),
        },
{
    let mut i: usize = 0;
    while i < ps.len()
        invariant
            i <= ps@.len(),
            forall|j: int| 0 <= j < i ==> !pattern_hits(#[trigger] ps@[j]@, cmd@),
        decreases ps.len() - i,
    {
        if hits(ps[i].as_str(), cmd) {
            return Some(i);
        }
        i = i + 1;
    }
    None
}

/// Whether the `..` at `i` of `v` is a whole path component.
fn parent_component_at(v: &Vec<char>, i: usize) -> (r: bool)
    requires
        i + 1 < v@.len(),
    ensures
        r == (v@[i as int] == '.' && v@[i + 1] == '.' && (i == 0 || is_path_break(v@[i - 1])) && (i
            + 2 == v@.len() || is_path_break(v@[i + 2]))),
{
    assert(i + 1 < v.len());
    let before = i == 0 || path_break(v[i - 1]);
    let after = i + 2 == v.len() || path_break(v[i + 2]);
    v[i] == '.' && v[i + 1] == '.' && before && after
}

/// Whether `c` ends a path component.
fn path_break(c: char) -> (r: bool)
    ensures
        r == is_path_break(c),
{
    c == '/' || crate::text::is_whitespace(c) || c == ';' || c == '&' || c == '|' || c == '\''
        || c == '"' || c == '=' || c == '(' || c == ')'
}

/// Whether `cmd` refers to a parent directory.
pub fn refers_to_parent(cmd: &str) -> (r: bool)
    ensures
        r == has_parent_component(cmd@),
{
    let v = crate::text::chars_of(cmd);
    let mut i: usize = 0;
    while i < v.len() && i + 1 < v.len()
        invariant
            i <= v@.len(),
            v@ == cmd@,
            forall|j: int|
                0 <= j < i && j + 1 < v@.len() ==> !(#[trigger] v@[j] == '.' && v@[j + 1] == '.' && (j
                    == 0 || is_path_break(v@[j - 1])) && (j + 2 == v@.len() || is_path_break(
                    v@[j + 2],
                ))),
        decreases v.len() - i,
    {
        if parent_component_at(&v, i) {
            return true;
        }
        i = i + 1;
    }
    proof {
        assert forall|j: int|
            0 <= j && j + 1 < cmd@.len() && #[trigger] cmd@[j] == '.' && cmd@[j + 1] == '.' implies !((
            j == 0 || is_path_break(cmd@[j - 1])) && (j + 2 == cmd@.len() || is_path_break(
            cmd@[j + 2],
        ))) by {
            assert(j < i);
        }
    }
    false
}

/// The verdict on a command, from which deny patterns and which allow
/// patterns match it and whether it refers to a parent directory.
///
/// The first matching deny pattern (by index into `deny`) wins; then, when
/// allow patterns are set (`allow_hit` is `Some`), one of them must match;
/// then a sandboxed command must not refer to a parent directory.
pub fn judge_command(
    deny: &Vec<String>,
    first_deny_hit: Option<usize>,
    allow_hit: Option<bool>,
    leaves_sandbox: bool,
) -> (r: Result<(), ToolError>)
    requires
        first_deny_hit matches Some(i) ==> i < deny@.len(),
    ensures
        match first_deny_hit {
            Some(i) => r matches Err(ToolError::Denied(m)) && m@ == deny_text(deny@[i as int]@),
            None => match allow_hit {
                Some(false) => r matches Err(ToolError::Denied(m)) && m@ == not_allowed_text(),
                _ => if leaves_sandbox {
                    r matches Err(ToolError::Denied(m)) && m@ == sandbox_text()
                } else {
                    r is Ok
                },
            },
        },
{
    match first_deny_hit {
        Some(i) => {
            let mut m = String::new();
            push_str(&mut m, "command matches deny-list pattern: ");
            push_str(&mut m, "(?i)");
            push_str(&mut m, deny[i].as_str());
            proof {
                assert(m@ =~= deny_text(deny@[i as int]@));
            }
            Err(ToolError::Denied(m))
        },
        None => {
            if let Some(false) = allow_hit {
                let mut m = String::new();
                push_str(&mut m, "command does not match any allow-list pattern");
                return Err(ToolError::Denied(m));
            }
            if leaves_sandbox {
                let mut m = String::new();
                push_str(&mut m, "command refers to a parent directory outside the sandbox");
                return Err(ToolError::Denied(m));
            }
            Ok(())
        },
    }
}

/// The index of the first of `patterns` that does not compile as a
/// case-insensitive regular expression, if any.
fn first_invalid(patterns: &[&str]) -> (r: Option<usize>)
    ensures
        match r {
            Some(i) => i < patterns@.len() && !regex_compiles(case_insensitive(patterns@[i as int]@))
                && forall|j: int|
                0 <= j < i ==> regex_compiles(case_insensitive(#[trigger] patterns@[j]@)),
            None => forall|j: int|
                0 <= j < patterns@.len() ==> regex_compiles(
                    case_insensitive(#[trigger] patterns@[j]@),
                ),
        },
{
    let mut i: usize = 0;
    while i < patterns.len()
        invariant
            i <= patterns@.len(),
            forall|j: int| 0 <= j < i ==> regex_compiles(case_insensitive(#[trigger] patterns@[j]@)),
        decreases patterns.len() - i,
    {
        let mut full = String::new();
        push_str(&mut full, "(?i)");
        push_str(&mut full, patterns[i]);
        if regex_search(full.as_str(), "").is_err() {
            return Some(i);
        }
        i = i + 1;
    }
    None
}

impl CommandPolicy {
    /// The default policy: the built-in deny patterns, no allow patterns, no
    /// sandbox.
    pub fn new() -> (r: Self)
        ensures
            r@.deny == default_deny_patterns(),
            r@.allow == Seq::<Seq<char>>::empty(),
            !r@.sandboxed,
    {
        let deny = strings(
            &[
                r"rm\s+(-\w*r\w*f\w*|-\w*f\w*r\w*)\s+/(\s|$|\*)",
                r"rm\s+(-\w*r\w*f\w*|-\w*f\w*r\w*)\s+~",
                r":\(\)\s*\{\s*:\s*\|\s*:\s*&?\s*\}\s*;\s*:",
                r"mkfs(\.\w+)?\s",
                r"dd\s+if=",
                r">\s*/dev/sd\w*",
                r"\bshutdown\b",
                r"\breboot\b",
                r"\bpoweroff\b",
                r"chmod\s+-R\s+777\s+/",
                r"chown\s+-R\s+.*\s+/(\s|$)",
                r"(curl|wget)\s+.*\|\s*(sh|bash)\b",
                r"/dev/tcp/",
                r"git\s+push\s+.*--force",
                r"git\s+reset\s+--hard",
                r"git\s+clean\s+-\w*f\w*d\w*",
                r"\bDROP\s+TABLE\b",
                r"\bTRUNCATE\s+TABLE\b",
            ],
        );
        let allow: Vec<String> = Vec::new();
        let r = CommandPolicy { deny_patterns: deny, allow_patterns: allow, sandboxed: false };
        assert(r@.deny =~= default_deny_patterns());
        assert(r@.allow =~= Seq::<Seq<char>>::empty());
        r
    }

    /// Adds deny patterns (case-insensitive regexes) to those already set;
    /// refused, naming the pattern, when one does not compile.
    pub fn with_deny_patterns(self, patterns: &[&str]) -> (r: Result<Self, InvalidPattern>)
        ensures
            (forall|j: int|
                0 <= j < patterns@.len() ==> regex_compiles(
                    case_insensitive(#[trigger] patterns@[j]@),
                )) <==> r is Ok,
            r matches Ok(p) ==> p@.deny == self@.deny + patterns@.map_values(|q: &str| q@)
                && p@.allow == self@.allow && p@.sandboxed == self@.sandboxed,
            r matches Err(e) ==> exists|j: int|
                0 <= j < patterns@.len() && e.pattern@ == patterns@[j]@ && !regex_compiles(
                    case_insensitive(#[trigger] patterns@[j]@),
                ),
    {
        match first_invalid(patterns) {
            Some(i) => Err(InvalidPattern { pattern: patterns[i].to_owned() }),
            None => {
                let mut me = self;
                let extra = strings(patterns);
                let ghost d0 = me.deny_patterns@;
                let mut extra = extra;
                me.deny_patterns.append(&mut extra);
                proof {
                    assert(me.deny_patterns@.map_values(|s: String| s@) =~= d0.map_values(
                        |s: String| s@,
                    ) + patterns@.map_values(|q: &str| q@));
                }
                Ok(me)
            },
        }
    }

    /// Restricts execution to commands matching at least one allow pattern;
    /// deny patterns still apply. Refused, naming the pattern, when one does
    /// not compile.
    pub fn with_allow_patterns(self, patterns: &[&str]) -> (r: Result<Self, InvalidPattern>)
        ensures
            (forall|j: int|
                0 <= j < patterns@.len() ==> regex_compiles(
                    case_insensitive(#[trigger] patterns@[j]@),
                )) <==> r is Ok,
            r matches Ok(p) ==> p@.allow == self@.allow + patterns@.map_values(|q: &str| q@)
                && p@.deny == self@.deny && p@.sandboxed == self@.sandboxed,
            r matches Err(e) ==> exists|j: int|
                0 <= j < patterns@.len() && e.pattern@ == patterns@[j]@ && !regex_compiles(
                    case_insensitive(#[trigger] patterns@[j]@),
                ),
    {
        match first_invalid(patterns) {
            Some(i) => Err(InvalidPattern { pattern: patterns[i].to_owned() }),
            None => {
                let mut me = self;
                let extra = strings(patterns);
                let ghost a0 = me.allow_patterns@;
                let mut extra = extra;
                me.allow_patterns.append(&mut extra);
                proof {
                    assert(me.allow_patterns@.map_values(|s: String| s@) =~= a0.map_values(
                        |s: String| s@,
                    ) + patterns@.map_values(|q: &str| q@));
                }
                Ok(me)
            },
        }
    }

    /// The same policy, confined to a sandbox directory or not.
    pub fn sandboxed(self, on: bool) -> (r: Self)
        ensures
            r@ == (CommandPolicyView { sandboxed: on, ..self@ }),
    {
        CommandPolicy { sandboxed: on, ..self }
    }

    /// Whether `cmd` may run under this policy, and why not: a refusal by
    /// the deny list names the first deny pattern that matches.
    pub fn check(&self, cmd: &str) -> (r: Result<(), ToolError>)
        ensures
            any_hits(self@.deny, cmd@) ==> exists|i: int|
                0 <= i < self@.deny.len() && #[trigger] pattern_hits(self@.deny[i], cmd@) && (forall|q: int|
                    0 <= q < i ==> !pattern_hits(#[trigger] self@.deny[q], cmd@)) && (r matches Err(
                    ToolError::Denied(m),
                ) && m@ == deny_text(self@.deny[i])),
            !any_hits(self@.deny, cmd@) && self@.allow.len() > 0 && !any_hits(self@.allow, cmd@)
                ==> (r matches Err(ToolError::Denied(m)) && m@ == not_allowed_text()),
            !any_hits(self@.deny, cmd@) && (self@.allow.len() == 0 || any_hits(self@.allow, cmd@))
                ==> if self@.sandboxed && has_parent_component(cmd@) {
                r matches Err(ToolError::Denied(m)) && m@ == sandbox_text()
            } else {
                r is Ok
            },
    {
        let deny_hit = first_hit(&self.deny_patterns, cmd);
        let allow_hit = if self.allow_patterns.len() == 0 {
            None
        } else {
            Some(first_hit(&self.allow_patterns, cmd).is_some())
        };
        let leaves = self.sandboxed && refers_to_parent(cmd);
        let r = judge_command(&self.deny_patterns, deny_hit, allow_hit, leaves);
        proof {
            match deny_hit {
                Some(i) => {
                    assert(self@.deny[i as int] == self.deny_patterns@[i as int]@);
                    assert(pattern_hits(self@.deny[i as int], cmd@));
                    assert forall|q: int| 0 <= q < i implies !pattern_hits(#[trigger] self@.deny[q], cmd@) by {
                        assert(self@.deny[q] == self.deny_patterns@[q]@);
                    }
                },
                None => {
                    assert forall|i: int| 0 <= i < self@.deny.len() implies !#[trigger] pattern_hits(
                        self@.deny[i],
                        cmd@,
                    ) by {
                        assert(self@.deny[i] == self.deny_patterns@[i]@);
                    }
                },
            }
            if self.allow_patterns@.len() > 0 {
                if any_hits(self@.allow, cmd@) {
                    let i = choose|i: int| 0 <= i < self@.allow.len() && #[trigger] pattern_hits(self@.allow[i], cmd@);
                    assert(self@.allow[i] == self.allow_patterns@[i]@);
                } else {
                    assert forall|i: int| 0 <= i < self.allow_patterns@.len() implies !#[trigger] pattern_hits(
                        self.allow_patterns@[i]@,
                        cmd@,
                    ) by {
                        assert(self@.allow[i] == self.allow_patterns@[i]@);
                    }
                }
            }
        }
        r
    }
}

/// How risky running `cmd` is: dangerous when it matches a destructive
/// pattern, mutating otherwise (any shell command may change something).
pub fn command_risk(cmd: &str) -> (r: ToolRisk)
    ensures
        r == (if any_hits(destructive_patterns(), cmd@) {
            ToolRisk::Dangerous
        } else {
            ToolRisk::Mutating
        }),
{
    let ps = strings(
        &[
            r"\brm\b",
            r"\bsudo\b",
            r"\bdd\b",
            r"\bmkfs",
            r"\bchmod\b",
            r"\bchown\b",
            r"\b(kill|pkill|killall)\b",
            r"\b(shutdown|reboot|poweroff)\b",
            r"\bgit\s+(push|reset|clean)\b",
            r">\s*/dev/",
            r"\b(DROP|TRUNCATE)\s+TABLE\b",
        ],
    );
    assert(ps@.map_values(|s: String| s@) =~= destructive_patterns());
    match first_hit(&ps, cmd) {
        Some(i) => {
            assert(destructive_patterns()[i as int] == ps@[i as int]@);
            ToolRisk::Dangerous
        },
        None => {
            assert forall|i: int| 0 <= i < destructive_patterns().len() implies !#[trigger] pattern_hits(
                destructive_patterns()[i],
                cmd@,
            ) by {
                assert(destructive_patterns()[i] == ps@[i]@);
            }
            ToolRisk::Mutating
        },
    }
}

} // verus!
