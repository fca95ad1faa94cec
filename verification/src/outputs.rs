//! The texts the built-in tools hand back to the agent, and the labels the
//! confirmation prompt shows for them.
use vstd::prelude::*;
use crate::stream::{decode_lossy, lossy_text};
use crate::text::{chars_of, decimal, push_char, push_decimal, push_signed_decimal, push_str, signed_decimal};
use crate::tools::ToolRisk;

verus! {

/// The word shown for a risk level.
pub open spec fn risk_name(r: ToolRisk) -> Seq<char> {
    match r {
        ToolRisk::Safe => "safe"@,
        ToolRisk::Mutating => "mutating"@,
        ToolRisk::Dangerous => "dangerous"@,
    }
}

/// The word shown for a risk level.
pub fn risk_label(risk: ToolRisk) -> (r: &'static str)
    ensures
        r@ == risk_name(risk),
{
    match risk {
        ToolRisk::Safe => "safe",
        ToolRisk::Mutating => "mutating",
        ToolRisk::Dangerous => "dangerous",
    }
}

/// What stands in a description for a path argument that is missing.
pub open spec fn shown_path(path: Option<&str>) -> Seq<char> {
    match path {
        Some(p) => p@,
        None => "<invalid args>"@,
    }
}

/// How a call of `read_file` or `list_dir` is described: its path.
pub fn describe_path(path: Option<&str>) -> (r: String)
    ensures
        r@ == shown_path(path),
{
    let mut s = String::new();
    match path {
        Some(p) => push_str(&mut s, p),
        None => push_str(&mut s, "<invalid args>"),
    }
    s
}

/// The description of a `write_file` call: the size and path of the write and
/// the content in a fenced block.
pub open spec fn write_description(path: Option<&str>, content: Option<&str>) -> Seq<char> {
    let c = match content {
        Some(c) => c@,
        None => Seq::<char>::empty(),
    };
    let n: nat = match content {
        Some(c) => c.len() as nat,
        None => 0,
    };
    "write "@ + decimal(n) + " bytes to "@ + shown_path(path) + ":\n```\n"@ + c + "\n```"@
}

/// How a call of `write_file` is described before it runs.
pub fn describe_write(path: Option<&str>, content: Option<&str>) -> (r: String)
    ensures
        r@ == write_description(path, content),
{
    let mut s = String::new();
    push_str(&mut s, "write ");
    match content {
        Some(c) => {
            let n: usize = c.len();
            push_decimal(&mut s, n as u64);
        },
        None => push_decimal(&mut s, 0),
    }
    push_str(&mut s, " bytes to ");
    match path {
        Some(p) => push_str(&mut s, p),
        None => push_str(&mut s, "<invalid args>"),
    }
    push_str(&mut s, ":\n```\n");
    match content {
        Some(c) => push_str(&mut s, c),
        None => {},
    }
    push_str(&mut s, "\n```");
    s
}

/// What `write_file` reports after writing `len` bytes to `path`.
pub fn write_report(len: usize, path: &str) -> (r: String)
    ensures
        r@ == "wrote "@ + decimal(len as nat) + " bytes to "@ + path@,
{
    let mut s = String::new();
    push_str(&mut s, "wrote ");
    push_decimal(&mut s, len as u64);
    push_str(&mut s, " bytes to ");
    push_str(&mut s, path);
    s
}

/// The report of a finished shell command: its exit code (`-1` when it has
/// none, as when a signal ended it) and both output streams, each read as
/// UTF-8 with invalid sequences replaced.
pub open spec fn command_report_text(exit_code: Option<i32>, stdout: Seq<u8>, stderr: Seq<u8>) -> Seq<
    char,
> {
    let code: int = match exit_code {
        Some(c) => c as int,
        None => -1,
    };
    "exit code: "@ + signed_decimal(code) + "\nstdout:\n"@ + lossy_text(stdout) + "\nstderr:\n"@
        + lossy_text(stderr)
}

/// What the `bash` tool reports for a finished command.
pub fn command_report(exit_code: Option<i32>, stdout: &[u8], stderr: &[u8]) -> (r: String)
    ensures
        r@ == command_report_text(exit_code, stdout@, stderr@),
{
    let code: i64 = match exit_code {
        Some(c) => c as i64,
        None => -1,
    };
    let mut s = String::new();
    push_str(&mut s, "exit code: ");
    push_signed_decimal(&mut s, code);
    push_str(&mut s, "\nstdout:\n");
    let out = decode_lossy(stdout);
    push_str(&mut s, out.as_str());
    push_str(&mut s, "\nstderr:\n");
    let err = decode_lossy(stderr);
    push_str(&mut s, err.as_str());
    s
}

/// Whether `a[i..]` comes before or equals `b[i..]` in dictionary order of
/// characters.
pub open spec fn lex_le_from(a: Seq<char>, b: Seq<char>, i: int) -> bool
    decreases a.len() - i,
{
    if i < 0 || i >= a.len() {
        true
    } else if i >= b.len() {
        false
    } else if a[i] != b[i] {
        a[i] < b[i]
    } else {
        lex_le_from(a, b, i + 1)
    }
}

/// Whether `a` comes before or equals `b` in dictionary order of characters
/// (the order of `String`'s `<`, which compares UTF-8 bytes).
pub open spec fn lex_le(a: Seq<char>, b: Seq<char>) -> bool {
    lex_le_from(a, b, 0)
}

/// Whether the names are in dictionary order.
pub open spec fn sorted_names(s: Seq<Seq<char>>) -> bool {
    forall|i: int, j: int| 0 <= i < j < s.len() ==> lex_le(#[trigger] s[i], #[trigger] s[j])
}

/// The characters of each string.
pub open spec fn names_view(s: Seq<String>) -> Seq<Seq<char>> {
    s.map_values(|x: String| x@)
}

/// The names, one per line.
pub open spec fn join_lines(s: Seq<Seq<char>>) -> Seq<char>
    decreases s.len(),
{
    if s.len() == 0 {
        Seq::<char>::empty()
    } else if s.len() == 1 {
        s[0]
    } else {
        join_lines(s.drop_last()) + seq!['\n'] + s.last()
    }
}

/// The names, one per line: a single name is its own line, and joining two
/// runs of names puts a line break between their joined texts.
pub proof fn law_join_lines_splits_at_breaks(a: Seq<Seq<char>>, b: Seq<Seq<char>>, x: Seq<char>)
    ensures
        join_lines(seq![x]) == x,
        a.len() > 0 && b.len() > 0 ==> join_lines(a + b) == join_lines(a) + seq!['\n'] + join_lines(b),
    decreases b.len(),
{
    if a.len() > 0 && b.len() > 0 {
        if b.len() == 1 {
            assert((a + b).drop_last() =~= a);
            assert((a + b).last() == b[0]);
        } else {
            law_join_lines_splits_at_breaks(a, b.drop_last(), x);
            assert((a + b).drop_last() =~= a + b.drop_last());
            assert((a + b).last() == b.last());
            assert(join_lines(b) == join_lines(b.drop_last()) + seq!['\n'] + b.last());
            assert(join_lines(a + b) =~= join_lines(a) + seq!['\n'] + join_lines(b));
        }
    }
}

proof fn lemma_lex_total(a: Seq<char>, b: Seq<char>, i: int)
    requires
        0 <= i,
    ensures
        lex_le_from(a, b, i) || lex_le_from(b, a, i),
    decreases a.len() - i,
{
    if i < a.len() && i < b.len() && a[i] == b[i] {
        lemma_lex_total(a, b, i + 1);
    }
}

proof fn lemma_lex_trans(a: Seq<char>, b: Seq<char>, c: Seq<char>, i: int)
    requires
        0 <= i,
        lex_le_from(a, b, i),
        lex_le_from(b, c, i),
    ensures
        lex_le_from(a, c, i),
    decreases a.len() - i,
{
    if i < a.len() && i < b.len() && i < c.len() && a[i] == b[i] && b[i] == c[i] {
        lemma_lex_trans(a, b, c, i + 1);
    }
}

proof fn lemma_lex_antisym(a: Seq<char>, b: Seq<char>, i: int)
    requires
        0 <= i <= a.len(),
        i <= b.len(),
        forall|j: int| 0 <= j < i ==> a[j] == b[j],
        lex_le_from(a, b, i),
        lex_le_from(b, a, i),
    ensures
        a == b,
    decreases a.len() - i,
{
    if i == a.len() && i == b.len() {
        assert(a =~= b);
    } else if i < a.len() && i < b.len() {
        lemma_lex_antisym(a, b, i + 1);
    }
}

proof fn lemma_lex_refl(a: Seq<char>, i: int)
    requires
        0 <= i,
    ensures
        lex_le_from(a, a, i),
    decreases a.len() - i,
{
    if i < a.len() {
        lemma_lex_refl(a, i + 1);
    }
}

proof fn lemma_lex_prefix(a: Seq<char>, b: Seq<char>, i: int)
    requires
        0 <= i,
    ensures
        lex_le_from(a, a + b, i),
    decreases a.len() - i,
{
    if i < a.len() {
        assert((a + b)[i] == a[i]);
        lemma_lex_prefix(a, b, i + 1);
    }
}

/// Dictionary order orders names and nothing else: every name comes before
/// or equals itself, two names that come before each other are the same, a
/// name comes before everything that extends it, and at the first
/// character where two names differ the smaller character comes first.
pub proof fn law_dictionary_order(a: Seq<char>, b: Seq<char>, c: char, d: char)
    ensures
        lex_le(a, a),
        lex_le(a, b) && lex_le(b, a) ==> a == b,
        lex_le(a, a + b),
        c < d ==> lex_le(a.push(c) + b, a.push(d)) && !lex_le(a.push(d), a.push(c) + b),
{
    lemma_lex_refl(a, 0);
    if lex_le(a, b) && lex_le(b, a) {
        lemma_lex_antisym(a, b, 0);
    }
    lemma_lex_prefix(a, b, 0);
    if c < d {
        let x = a.push(c) + b;
        let y = a.push(d);
        lemma_lex_same_prefix(x, y, a.len() as int);
    }
}

/// Names that agree before `k` compare as they do from `k` on.
proof fn lemma_lex_same_prefix(x: Seq<char>, y: Seq<char>, k: int)
    requires
        0 <= k < x.len(),
        k < y.len(),
        forall|j: int| 0 <= j < k ==> x[j] == y[j],
        x[k] < y[k],
    ensures
        lex_le_from(x, y, 0),
        !lex_le_from(y, x, 0),
{
    lemma_lex_from_first_difference(x, y, k, 0);
}

proof fn lemma_lex_from_first_difference(x: Seq<char>, y: Seq<char>, k: int, i: int)
    requires
        0 <= i <= k < x.len(),
        k < y.len(),
        forall|j: int| 0 <= j < k ==> x[j] == y[j],
        x[k] < y[k],
    ensures
        lex_le_from(x, y, i),
        !lex_le_from(y, x, i),
    decreases k - i,
{
    if i < k {
        lemma_lex_from_first_difference(x, y, k, i + 1);
    }
}

/// Dictionary order is total and transitive.
pub proof fn lemma_lex_order(a: Seq<char>, b: Seq<char>, c: Seq<char>)
    ensures
        lex_le(a, b) || lex_le(b, a),
        lex_le(a, b) && lex_le(b, c) ==> lex_le(a, c),
{
    lemma_lex_total(a, b, 0);
    if lex_le(a, b) && lex_le(b, c) {
        lemma_lex_trans(a, b, c, 0);
    }
}

/// Whether `a` comes before or equals `b` in dictionary order.
pub fn name_le(a: &str, b: &str) -> (r: bool)
    ensures
        r == lex_le(a@, b@),
{
    let va = chars_of(a);
    let vb = chars_of(b);
    let mut i: usize = 0;
    while i < va.len() && i < vb.len() && va[i] == vb[i]
        invariant
            i <= va@.len(),
            i <= vb@.len(),
            va@ == a@,
            vb@ == b@,
            lex_le_from(a@, b@, 0) == lex_le_from(a@, b@, i as int),
        decreases va.len() - i,
    {
        i = i + 1;
    }
    if i >= va.len() {
        true
    } else if i >= vb.len() {
        false
    } else {
        va[i] < vb[i]
    }
}

/// Where `x` goes in the sorted `out`: after every name that does not come
/// after it.
fn insertion_point(out: &Vec<String>, x: &String) -> (p: usize)
    requires
        sorted_names(names_view(out@)),
    ensures
        p <= out@.len(),
        forall|i: int| 0 <= i < p ==> lex_le(#[trigger] out@[i]@, x@),
        forall|i: int| p <= i < out@.len() ==> lex_le(x@, #[trigger] out@[i]@),
{
    let mut p: usize = 0;
    while p < out.len() && name_le(out[p].as_str(), x.as_str())
        invariant
            p <= out@.len(),
            forall|i: int| 0 <= i < p ==> lex_le(#[trigger] out@[i]@, x@),
        decreases out.len() - p,
    {
        p = p + 1;
    }
    proof {
        if p < out@.len() {
            lemma_lex_order(out@[p as int]@, x@, x@);
            assert forall|i: int| p <= i < out@.len() implies lex_le(x@, #[trigger] out@[i]@) by {
                if i > p {
                    assert(names_view(out@)[p as int] == out@[p as int]@);
                    assert(names_view(out@)[i] == out@[i]@);
                    lemma_lex_order(x@, out@[p as int]@, out@[i]@);
                }
            }
        }
    }
    p
}

/// The names in dictionary order.
pub fn sort_names(names: Vec<String>) -> (r: Vec<String>)
    ensures
        sorted_names(names_view(r@)),
        names_view(r@).to_multiset() == names_view(names@).to_multiset(),
{
    broadcast use vstd::seq_lib::group_to_multiset_ensures;
    broadcast use vstd::multiset::group_multiset_axioms;

    let mut out: Vec<String> = Vec::new();
    let mut rest = names;
    proof {
        assert(names_view(out@) =~= Seq::<Seq<char>>::empty());
        assert(names_view(out@).to_multiset().add(names_view(rest@).to_multiset())
            =~= names_view(names@).to_multiset());
    }
    while rest.len() > 0
        invariant
            sorted_names(names_view(out@)),
            names_view(out@).to_multiset().add(names_view(rest@).to_multiset())
                == names_view(names@).to_multiset(),
        decreases rest.len(),
    {
        let ghost rest0 = rest@;
        let ghost out0 = out@;
        let x = rest.pop().unwrap();
        let p = insertion_point(&out, &x);
        out.insert(p, x);
        proof {
            assert(rest0 =~= rest@.push(x));
            assert(names_view(rest0) =~= names_view(rest@).push(x@));
            assert(names_view(out@) =~= names_view(out0).insert(p as int, x@));
            vstd::seq_lib::to_multiset_insert(names_view(out0), p as int, x@);
            vstd::seq_lib::to_multiset_build(names_view(rest@), x@);
            assert(names_view(out@).to_multiset() == names_view(out0).to_multiset().insert(x@));
            assert(names_view(rest0).to_multiset() == names_view(rest@).to_multiset().insert(x@));
            assert(names_view(out@).to_multiset().add(names_view(rest@).to_multiset())
                =~= names_view(out0).to_multiset().add(names_view(rest0).to_multiset()));
            assert forall|i: int, j: int| 0 <= i < j < names_view(out@).len() implies lex_le(
                #[trigger] names_view(out@)[i],
                #[trigger] names_view(out@)[j],
            ) by {
                let s0 = names_view(out0);
                if j < p {
                    assert(names_view(out@)[i] == s0[i]);
                    assert(names_view(out@)[j] == s0[j]);
                } else if j == p {
                    assert(names_view(out@)[i] == out0[i]@);
                } else if i == p {
                    assert(names_view(out@)[j] == out0[j - 1]@);
                } else if i < p {
                    assert(names_view(out@)[i] == s0[i]);
                    assert(names_view(out@)[j] == s0[j - 1]);
                } else {
                    assert(names_view(out@)[i] == s0[i - 1]);
                    assert(names_view(out@)[j] == s0[j - 1]);
                }
            }
        }
    }
    proof {
        assert(names_view(rest@) =~= Seq::<Seq<char>>::empty());
        assert(names_view(out@).to_multiset().add(names_view(rest@).to_multiset())
            =~= names_view(out@).to_multiset());
    }
    out
}

/// The names joined with newlines.
pub fn join_names(names: &[String]) -> (r: String)
    ensures
        r@ == join_lines(names_view(names@)),
{
    let mut s = String::new();
    let mut i: usize = 0;
    while i < names.len()
        invariant
            i <= names@.len(),
            s@ == join_lines(names_view(names@).subrange(0, i as int)),
        decreases names.len() - i,
    {
        let ghost prefix = names_view(names@).subrange(0, i as int);
        if i > 0 {
            push_char(&mut s, '\n');
        }
        push_str(&mut s, names[i].as_str());
        proof {
            let next = names_view(names@).subrange(0, i + 1);
            assert(next.drop_last() =~= prefix);
            assert(next.last() == names@[i as int]@);
            if i == 0 {
                assert(next.len() == 1);
                assert(s@ =~= next[0]);
            } else {
                assert(s@ =~= join_lines(prefix) + seq!['\n'] + next.last());
            }
        }
        i = i + 1;
    }
    proof {
        assert(names_view(names@).subrange(0, names@.len() as int) =~= names_view(names@));
    }
    s
}

/// What `list_dir` reports for the entries of a directory: their names in
/// dictionary order, one per line.
pub fn listing(names: Vec<String>) -> (r: String)
    ensures
        exists|t: Seq<Seq<char>>|
            {
                &&& sorted_names(t)
                &&& t.to_multiset() == names_view(names@).to_multiset()
                &&& r@ == #[trigger] join_lines(t)
            },
{
    let sorted = sort_names(names);
    let r = join_names(sorted.as_slice());
    assert(r@ == join_lines(names_view(sorted@)));
    r
}

} // verus!
