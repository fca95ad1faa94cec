//! Line counts and scroll positions of the chat screen and of the
//! confirmation box.
use vstd::prelude::*;
use crate::chat::{HistoryEntry, Speaker};
use crate::text::chars_of;
use crate::stream::{first_newline, lemma_first_newline_bounds, lines_from};
use crate::tools::ConfirmRequest;

verus! {

/// The number of lines `tui_markdown` renders `text` into.
pub uninterp spec fn markdown_line_count(text: Seq<char>) -> nat;

/// Renders `text` as markdown and counts the lines.
///
/// Calls `tui_markdown::from_str` and takes the length of the `lines` of the
/// `Text` it returns; that number is named `markdown_line_count(text)`.
#[verifier::external_body]
fn markdown_lines_len(text: &str) -> (n: usize)
    ensures
        n == markdown_line_count(text@),
{
    tui_markdown::from_str(text).lines.len()
}

/// The number of `\n` in `s`.
pub open spec fn newline_count(s: Seq<char>) -> nat
    decreases s.len(),
{
    if s.len() == 0 {
        0
    } else {
        newline_count(s.drop_last()) + if s.last() == '\n' {
            1nat
        } else {
            0nat
        }
    }
}

/// The number of lines `str::lines` yields for `s`: one per `\n`, and one
/// more for a last line without a line break.
pub open spec fn text_line_count(s: Seq<char>) -> nat {
    if s.len() == 0 {
        0
    } else if s.last() == '\n' {
        newline_count(s)
    } else {
        newline_count(s) + 1
    }
}

/// The newlines of two texts put together are those of each.
proof fn lemma_newlines_concat(a: Seq<char>, b: Seq<char>)
    ensures
        newline_count(a + b) == newline_count(a) + newline_count(b),
    decreases b.len(),
{
    if b.len() == 0 {
        assert(a + b =~= a);
    } else {
        lemma_newlines_concat(a, b.drop_last());
        assert((a + b).drop_last() =~= a + b.drop_last());
        assert((a + b).last() == b.last());
    }
}

/// A stretch without `\n` holds no newline.
proof fn lemma_no_newlines(s: Seq<char>)
    requires
        forall|i: int| 0 <= i < s.len() ==> s[i] != '\n',
    ensures
        newline_count(s) == 0,
    decreases s.len(),
{
    if s.len() > 0 {
        lemma_no_newlines(s.drop_last());
    }
}

/// Counting the lines of a text agrees with splitting it into lines: the
/// count is the number of lines `lines_from` yields, from any position on.
proof fn lemma_count_matches_split(s: Seq<char>, from: int)
    requires
        0 <= from <= s.len(),
    ensures
        lines_from(s, from).len() == text_line_count(s.subrange(from, s.len() as int)),
    decreases s.len() - from,
{
    let t = s.subrange(from, s.len() as int);
    if from == s.len() {
        assert(t.len() == 0);
    } else {
        lemma_first_newline_bounds(s, from);
        let e = first_newline(s, from);
        assert forall|i: int| from <= i < e implies s[i] != '\n' by {
            lemma_first_newline_before(s, from, i);
        }
        let head = s.subrange(from, e);
        lemma_no_newlines(head);
        if e == s.len() {
            assert(t =~= head);
            assert(t.last() == s[s.len() - 1]);
            assert(lines_from(s, from).len() == 1);
        } else {
            assert(lines_from(s, from).len() == 1 + lines_from(s, e + 1).len());
            lemma_count_matches_split(s, e + 1);
            let rest = s.subrange(e + 1, s.len() as int);
            assert(t =~= head + seq!['\n'] + rest);
            lemma_newlines_concat(head + seq!['\n'], rest);
            lemma_newlines_concat(head, seq!['\n']);
            assert(seq!['\n'].drop_last() =~= Seq::<char>::empty());
            let nl = seq!['\n'];
            assert(nl.last() == '\n');
            assert(newline_count(nl.drop_last()) == 0);
            assert(newline_count(nl) == 1);
            assert(newline_count(head + seq!['\n']) == 1);
            assert(newline_count(t) == newline_count(head + seq!['\n']) + newline_count(rest));
            assert(newline_count(t) == 1 + newline_count(rest));
            if rest.len() > 0 {
                assert(t.last() == rest.last());
            } else {
                assert(t.last() == '\n');
                assert(lines_from(s, e + 1).len() == 0);
            }
        }
    }
}

/// No `\n` stands before the first one.
proof fn lemma_first_newline_before(s: Seq<char>, from: int, i: int)
    requires
        0 <= from <= i < first_newline(s, from),
        first_newline(s, from) <= s.len(),
    ensures
        s[i] != '\n',
    decreases i - from,
{
    if from < i {
        assert(s[from] != '\n');
        lemma_first_newline_before(s, from + 1, i);
    } else {
        assert(s[from] != '\n');
    }
}

/// The lines of text the history panel counts are the lines the text splits
/// into, as `str::lines` gives them.
pub proof fn law_line_count_is_split_length(s: Seq<char>)
    ensures
        text_line_count(s) == lines_from(s, 0).len(),
{
    lemma_count_matches_split(s, 0);
    assert(s.subrange(0, s.len() as int) =~= s);
}

/// The lines of plain text in `s`, as `str::lines` splits it.
pub fn text_lines(s: &str) -> (n: usize)
    ensures
        n == text_line_count(s@),
{
    let v = chars_of(s);
    let mut count: usize = 0;
    let mut i: usize = 0;
    while i < v.len()
        invariant
            i <= v@.len(),
            v@ == s@,
            count <= i,
            i > 0 && v@[i - 1] != '\n' ==> count < i,
            count == newline_count(v@.subrange(0, i as int)),
        decreases v.len() - i,
    {
        proof {
            assert(v@.subrange(0, i + 1).drop_last() =~= v@.subrange(0, i as int));
        }
        if v[i] == '\n' {
            count = count + 1;
        }
        i = i + 1;
    }
    proof {
        assert(v@.subrange(0, v@.len() as int) =~= v@);
    }
    if v.len() == 0 || v[v.len() - 1] == '\n' {
        count
    } else {
        count + 1
    }
}

/// The lines an entry takes in the history panel: a header naming the
/// speaker, the text (rendered as markdown for the agent, as plain lines for
/// everyone else), and a blank line.
pub open spec fn entry_lines(speaker: Speaker, text: Seq<char>) -> nat {
    2 + match speaker {
        Speaker::Agent => markdown_line_count(text),
        _ => text_line_count(text),
    }
}

/// The lines of the whole history panel.
pub open spec fn history_lines(h: Seq<(Speaker, Seq<char>)>) -> nat
    decreases h.len(),
{
    if h.len() == 0 {
        0
    } else {
        history_lines(h.drop_last()) + entry_lines(h.last().0, h.last().1)
    }
}

/// The history panel's lines add up entry by entry: the panel of two runs
/// of entries is as long as the two panels together, and each entry takes
/// at least a header and a blank line.
pub proof fn law_history_lines_add_up(h1: Seq<(Speaker, Seq<char>)>, h2: Seq<(Speaker, Seq<char>)>)
    ensures
        history_lines(h1 + h2) == history_lines(h1) + history_lines(h2),
        history_lines(h1) >= 2 * h1.len(),
    decreases h2.len(),
{
    if h2.len() == 0 {
        assert(h1 + h2 =~= h1);
        lemma_history_at_least_two(h1);
    } else {
        law_history_lines_add_up(h1, h2.drop_last());
        assert((h1 + h2).drop_last() =~= h1 + h2.drop_last());
        assert((h1 + h2).last() == h2.last());
    }
}

proof fn lemma_history_at_least_two(h: Seq<(Speaker, Seq<char>)>)
    ensures
        history_lines(h) >= 2 * h.len(),
    decreases h.len(),
{
    if h.len() > 0 {
        lemma_history_at_least_two(h.drop_last());
    }
}

/// `n`, or the largest `usize` when it does not fit.
pub open spec fn cap(n: nat) -> usize {
    if n > usize::MAX {
        usize::MAX
    } else {
        n as usize
    }
}

/// The lines one entry takes in the history panel.
pub fn entry_line_count(entry: &HistoryEntry) -> (n: usize)
    ensures
        n == cap(entry_lines(entry.speaker, entry.text@)),
{
    let body = match entry.speaker {
        Speaker::Agent => markdown_lines_len(entry.text.as_str()),
        _ => text_lines(entry.text.as_str()),
    };
    body.saturating_add(2)
}

/// The lines of the history panel, at most the largest `usize`.
pub fn history_line_count(history: &[HistoryEntry]) -> (n: usize)
    ensures
        n == cap(history_lines(history@.map_values(|e: HistoryEntry| (e.speaker, e.text@)))),
{
    let ghost h = history@.map_values(|e: HistoryEntry| (e.speaker, e.text@));
    let mut total: usize = 0;
    let mut i: usize = 0;
    while i < history.len()
        invariant
            i <= history@.len(),
            h == history@.map_values(|e: HistoryEntry| (e.speaker, e.text@)),
            total == cap(history_lines(h.subrange(0, i as int))),
        decreases history.len() - i,
    {
        let e = entry_line_count(&history[i]);
        proof {
            let next = h.subrange(0, i + 1);
            assert(next.drop_last() =~= h.subrange(0, i as int));
            assert(next.last() == (history@[i as int].speaker, history@[i as int].text@));
        }
        total = total.saturating_add(e);
        i = i + 1;
    }
    proof {
        assert(h.subrange(0, history@.len() as int) =~= h);
    }
    total
}

/// The first line of the history panel on screen: the panel follows its
/// bottom, `scroll_up` lines higher. The bottom position is taken modulo
/// 2^16, as a `u16` holds it.
pub open spec fn scroll_position(total: usize, inner_height: usize, scroll_up: u16) -> u16 {
    let bottom: u16 = (if total > inner_height {
        total - inner_height
    } else {
        0
    }) as u16;
    if bottom < scroll_up {
        0
    } else {
        (bottom - scroll_up) as u16
    }
}

/// Scrolling follows the bottom of the panel and moves one line per step:
/// with no scrolling the last rows are on screen (when the panel's bottom
/// fits in a `u16`), and scrolling up one line more moves the view up one
/// line, until it stops at the top.
pub proof fn law_scroll_moves_line_by_line(total: usize, inner_height: usize, scroll_up: u16)
    requires
        scroll_up < u16::MAX,
    ensures
        total <= inner_height ==> scroll_position(total, inner_height, scroll_up) == 0,
        inner_height < total && total - inner_height <= u16::MAX ==> scroll_position(total, inner_height, 0)
            == total - inner_height,
        scroll_position(total, inner_height, scroll_up) > 0 ==> scroll_position(
            total,
            inner_height,
            (scroll_up + 1) as u16,
        ) == scroll_position(total, inner_height, scroll_up) - 1,
        scroll_position(total, inner_height, scroll_up) == 0 ==> scroll_position(
            total,
            inner_height,
            (scroll_up + 1) as u16,
        ) == 0,
{
}

/// The first line of the history panel that is on screen, for a panel of
/// `total` lines shown in `inner_height` rows.
pub fn history_scroll(total: usize, inner_height: usize, scroll_up: u16) -> (r: u16)
    ensures
        r == scroll_position(total, inner_height, scroll_up),
{
    let bottom: u16 = total.saturating_sub(inner_height) as u16;
    bottom.saturating_sub(scroll_up)
}

/// The rows the confirmation box needs: a line for the risk, the rendered
/// markdown of the detail, a line of choices, and two borders, but no more
/// than `max_height`. The line count is held in a `u16`, so it is taken
/// modulo 2^16.
pub open spec fn confirm_rows(detail: Seq<char>, max_height: u16) -> u16 {
    let content = ((markdown_line_count(detail) + 2) as u16) + 2;
    if content < max_height {
        content as u16
    } else {
        max_height
    }
}

/// Whether the box's height can be added up in a `u16`.
pub open spec fn confirm_rows_fit(detail: Seq<char>) -> bool {
    ((markdown_line_count(detail) + 2) as u16) + 2 <= u16::MAX
}

/// The height of the confirmation box for `request` in an area of the given
/// width (the markdown renderer does not wrap, so the width does not change
/// the count).
pub fn height(request: &ConfirmRequest, area_width: u16, max_height: u16) -> (r: u16)
    requires
        confirm_rows_fit(request.detail@),
    ensures
        r == confirm_rows(request.detail@, max_height),
{
    let md = markdown_lines_len(request.detail.as_str());
    let content_lines: u16 = (md as u128 + 2) as u16;
    let rows = content_lines + 2;
    if rows < max_height {
        rows
    } else {
        max_height
    }
}

/// The height of the confirmation box, or `None` when its line count does
/// not fit the sum in a `u16`.
pub fn checked_height(request: &ConfirmRequest, area_width: u16, max_height: u16) -> (r: Option<
    u16,
>)
    ensures
        confirm_rows_fit(request.detail@) ==> r == Some(confirm_rows(request.detail@, max_height)),
        !confirm_rows_fit(request.detail@) ==> r is None,
{
    let md = markdown_lines_len(request.detail.as_str());
    let content_lines: u16 = (md as u128 + 2) as u16;
    if content_lines > u16::MAX - 2 {
        None
    } else {
        Some(height(request, area_width, max_height))
    }
}

/// The confirmation box never takes more rows than it is allowed, and a
/// larger allowance never gives it fewer; the area's width does not enter
/// the count (`height` is `confirm_rows` of the detail and the allowance
/// alone).
pub proof fn law_confirm_rows_capped(detail: Seq<char>, m1: u16, m2: u16)
    requires
        m1 <= m2,
    ensures
        confirm_rows(detail, m1) <= m1,
        confirm_rows(detail, m1) <= confirm_rows(detail, m2),
{
}

} // verus!
