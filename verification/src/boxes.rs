//! Boxed blocks of styled text, as the chat screen frames tool calls and
//! their output: a border on the left, a header with an optional title, and
//! a background filled out to the width of the screen.
//!
//! Lines are plain values here; `C` is the terminal library's color type.
use vstd::prelude::*;
use crate::text::{push_repeated, push_str, repeat_char};

verus! {

/// The indentation in front of every line of a box.
pub const PAD: &'static str = "    ";

/// The columns left free at the right of a box.
pub const RIGHT_MARGIN: usize = 3;

/// The style of a run of text: colors and the modifier bits it adds and
/// removes.
#[derive(Debug, Clone, Copy, PartialEq, Eq)]
pub struct TextStyle<C> {
    pub fg: Option<C>,
    pub bg: Option<C>,
    pub add_modifier: u16,
    pub sub_modifier: u16,
}

/// A run of text in one style.
#[derive(Debug, Clone)]
pub struct StyledSpan<C> {
    pub text: String,
    pub style: TextStyle<C>,
}

/// A line of styled text.
#[derive(Debug, Clone)]
pub struct StyledLine<C> {
    pub spans: Vec<StyledSpan<C>>,
}

/// How a box looks.
#[derive(Debug, Clone)]
pub struct BoxStyle<C> {
    pub border_color: C,
    pub bg: C,
    pub title: Option<String>,
}

/// The number of columns the terminal library gives to `text`.
pub uninterp spec fn text_width(text: Seq<char>) -> nat;

/// The display width of `text`.
///
/// Calls `ratatui::text::Span::width` on a span holding `text`, which sums
/// the Unicode widths of its characters; the width is named
/// `text_width(text)`. Of its value the contract states one fact: a run of
/// ASCII spaces is as wide as it is long, one column per space.
#[verifier::external_body]
fn span_width(text: &str) -> (n: usize)
    ensures
        n == text_width(text@),
        (forall|i: int| 0 <= i < text@.len() ==> text@[i] == ' ') ==> n == text@.len(),
{
    ratatui::text::Span::raw(text).width()
}

/// The style that changes nothing.
pub open spec fn plain_style<C>() -> TextStyle<C> {
    TextStyle { fg: None, bg: None, add_modifier: 0, sub_modifier: 0 }
}

/// The style of a box's border.
pub open spec fn border_style<C>(s: BoxStyle<C>) -> TextStyle<C> {
    TextStyle { fg: Some(s.border_color), bg: Some(s.bg), add_modifier: 0, sub_modifier: 0 }
}

/// `style` with its background set to `bg`.
pub open spec fn with_bg<C>(style: TextStyle<C>, bg: C) -> TextStyle<C> {
    TextStyle { bg: Some(bg), ..style }
}

/// A span as text and style.
pub open spec fn span_view<C>(s: StyledSpan<C>) -> (Seq<char>, TextStyle<C>) {
    (s.text@, s.style)
}

/// A line as its spans' texts and styles.
pub open spec fn line_view<C>(l: StyledLine<C>) -> Seq<(Seq<char>, TextStyle<C>)> {
    l.spans@.map_values(|s: StyledSpan<C>| span_view(s))
}

/// The columns the spans take.
pub open spec fn spans_width<C>(s: Seq<(Seq<char>, TextStyle<C>)>) -> nat
    decreases s.len(),
{
    if s.len() == 0 {
        0
    } else {
        spans_width(s.drop_last()) + text_width(s.last().0)
    }
}

/// The columns a box of `width` fills: the width less the right margin.
pub open spec fn box_target(width: nat) -> nat {
    if width >= RIGHT_MARGIN {
        (width - RIGHT_MARGIN) as nat
    } else {
        0
    }
}

/// The columns a line of `filled` columns takes once filled out in a box of
/// `width`: the box's target when it was narrower, its own width otherwise.
pub open spec fn filled_width(filled: nat, width: nat) -> nat {
    if filled < box_target(width) {
        box_target(width)
    } else {
        filled
    }
}

/// The spans filled out with spaces on the background `bg` up to the box's
/// width less the right margin.
pub open spec fn padded<C>(s: Seq<(Seq<char>, TextStyle<C>)>, width: nat, bg: C) -> Seq<
    (Seq<char>, TextStyle<C>),
> {
    let target = box_target(width);
    let filled = spans_width(s);
    if filled < target {
        s.push((repeat_char(' ', (target - filled) as nat), with_bg(plain_style(), bg)))
    } else {
        s
    }
}

/// The text of a box's top border.
pub open spec fn header_text(title: Option<String>) -> Seq<char> {
    match title {
        Some(t) => "┌─ "@ + t@ + " ─"@,
        None => "┌─"@,
    }
}

/// The spans of a body line inside the box: the indentation, the left
/// border, and the line's own spans on the box's background.
pub open spec fn boxed_body<C>(l: Seq<(Seq<char>, TextStyle<C>)>, s: BoxStyle<C>) -> Seq<
    (Seq<char>, TextStyle<C>),
> {
    seq![(PAD@, plain_style()), ("│ "@, border_style(s))] + l.map_values(
        |p: (Seq<char>, TextStyle<C>)| (p.0, with_bg(p.1, s.bg)),
    )
}

/// A span of `text` in `style`.
fn span<C: Copy>(text: &str, style: TextStyle<C>) -> (r: StyledSpan<C>)
    ensures
        span_view(r) == (text@, style),
{
    let mut t = String::new();
    push_str(&mut t, text);
    StyledSpan { text: t, style }
}

/// The columns a line takes, at most the largest `usize`.
fn line_width<C>(line: &StyledLine<C>) -> (n: usize)
    ensures
        n as nat == if spans_width(line_view(*line)) > usize::MAX {
            usize::MAX as nat
        } else {
            spans_width(line_view(*line))
        },
{
    let ghost v = line_view(*line);
    let mut total: usize = 0;
    let mut i: usize = 0;
    while i < line.spans.len()
        invariant
            i <= line.spans@.len(),
            v == line_view(*line),
            total as nat == if spans_width(v.take(i as int)) > usize::MAX {
                usize::MAX as nat
            } else {
                spans_width(v.take(i as int))
            },
        decreases line.spans.len() - i,
    {
        let w = span_width(line.spans[i].text.as_str());
        proof {
            assert(v.take(i + 1).drop_last() =~= v.take(i as int));
            assert(v.take(i + 1).last() == span_view(line.spans@[i as int]));
        }
        total = total.saturating_add(w);
        i = i + 1;
    }
    assert(v.take(line.spans@.len() as int) =~= v);
    total
}

/// Fills `line` out with background up to `width` less the right margin.
pub fn pad_bg<C: Copy>(line: StyledLine<C>, width: usize, bg: C) -> (r: StyledLine<C>)
    ensures
        line_view(r) == padded(line_view(line), width as nat, bg),
        spans_width(line_view(r)) == filled_width(spans_width(line_view(line)), width as nat),
{
    let target = width.saturating_sub(RIGHT_MARGIN);
    let filled = line_width(&line);
    let mut line = line;
    if filled < target {
        let ghost v0 = line_view(line);
        let mut fill = String::new();
        push_repeated(&mut fill, ' ', target - filled);
        let fill_width = span_width(fill.as_str());
        assert(fill_width == target - filled);
        proof {
            let x = (repeat_char(' ', (target - filled) as nat), with_bg(plain_style(), bg));
            assert(v0.push(x).drop_last() =~= v0);
        }
        line.spans.push(
            StyledSpan {
                text: fill,
                style: TextStyle { fg: None, bg: Some(bg), add_modifier: 0, sub_modifier: 0 },
            },
        );
        assert(line_view(line) =~= v0.push(
            (repeat_char(' ', (target - filled) as nat), with_bg(plain_style(), bg)),
        ));
    }
    line
}

/// A box around `body`: a top border with the title, each body line behind
/// a left border, a bottom border, and a blank line; every line but the
/// blank one filled out with the box's background.
pub fn render_box<C: Copy>(body: Vec<StyledLine<C>>, style: &BoxStyle<C>, width: usize) -> (r: Vec<
    StyledLine<C>,
>)
    ensures
        r@.len() == body@.len() + 3,
        line_view(r@[0]) == padded(
            seq![(PAD@, plain_style()), (header_text(style.title), border_style(*style))],
            width as nat,
            style.bg,
        ),
        spans_width(line_view(r@[0])) == filled_width(
            spans_width(seq![(PAD@, plain_style()), (header_text(style.title), border_style(*style))]),
            width as nat,
        ),
        forall|i: int|
            0 <= i < body@.len() ==> line_view(#[trigger] r@[i + 1]) == padded(
                boxed_body(line_view(body@[i]), *style),
                width as nat,
                style.bg,
            ) && spans_width(line_view(r@[i + 1])) == filled_width(
                spans_width(boxed_body(line_view(body@[i]), *style)),
                width as nat,
            ),
        line_view(r@[body@.len() as int + 1]) == padded(
            seq![(PAD@, plain_style()), ("└─"@, border_style(*style))],
            width as nat,
            style.bg,
        ),
        spans_width(line_view(r@[body@.len() as int + 1])) == filled_width(
            spans_width(seq![(PAD@, plain_style()), ("└─"@, border_style(*style))]),
            width as nat,
        ),
        r@[body@.len() as int + 2].spans@.len() == 0,
{
    let border = TextStyle { fg: Some(style.border_color), bg: Some(style.bg), add_modifier: 0, sub_modifier: 0 };
    let plain = TextStyle { fg: None, bg: None, add_modifier: 0, sub_modifier: 0 };
    let mut header = String::new();
    match &style.title {
        Some(t) => {
            push_str(&mut header, "┌─ ");
            push_str(&mut header, t.as_str());
            push_str(&mut header, " ─");
        },
        None => push_str(&mut header, "┌─"),
    }
    let mut lines: Vec<StyledLine<C>> = Vec::new();
    let top = StyledLine { spans: vec![span(PAD, plain), StyledSpan { text: header, style: border }] };
    assert(line_view(top) =~= seq![(PAD@, plain_style()), (header_text(style.title), border_style(*style))]);
    lines.push(pad_bg(top, width, style.bg));

    let mut i: usize = 0;
    while i < body.len()
        invariant
            i <= body@.len(),
            lines@.len() == i + 1,
            border == border_style(*style),
            plain == plain_style::<C>(),
            line_view(lines@[0]) == padded(
                seq![(PAD@, plain_style()), (header_text(style.title), border_style(*style))],
                width as nat,
                style.bg,
            ),
            spans_width(line_view(lines@[0])) == filled_width(
                spans_width(seq![(PAD@, plain_style()), (header_text(style.title), border_style(*style))]),
                width as nat,
            ),
            forall|k: int|
                0 <= k < i ==> line_view(#[trigger] lines@[k + 1]) == padded(
                    boxed_body(line_view(body@[k]), *style),
                    width as nat,
                    style.bg,
                ) && spans_width(line_view(lines@[k + 1])) == filled_width(
                    spans_width(boxed_body(line_view(body@[k]), *style)),
                    width as nat,
                ),
        decreases body.len() - i,
    {
        let src = &body[i];
        let mut spans: Vec<StyledSpan<C>> = vec![span(PAD, plain), span("│ ", border)];
        let ghost head = line_view(StyledLine { spans: spans });
        let mut j: usize = 0;
        while j < src.spans.len()
            invariant
                j <= src.spans@.len(),
                src == &body@[i as int],
                spans@.map_values(|s: StyledSpan<C>| span_view(s)) == head + line_view(*src).take(
                    j as int,
                ).map_values(|p: (Seq<char>, TextStyle<C>)| (p.0, with_bg(p.1, style.bg))),
            decreases src.spans.len() - j,
        {
            let s = &src.spans[j];
            let ghost before = spans@;
            spans.push(StyledSpan { text: s.text.clone(), style: TextStyle { bg: Some(style.bg), ..s.style } });
            proof {
                let lv = line_view(*src);
                assert(lv.take(j + 1) =~= lv.take(j as int).push(lv[j as int]));
                assert(spans@.map_values(|s: StyledSpan<C>| span_view(s)) =~= before.map_values(
                    |s: StyledSpan<C>| span_view(s),
                ).push((lv[j as int].0, with_bg(lv[j as int].1, style.bg))));
                assert(lv.take(j + 1).map_values(|p: (Seq<char>, TextStyle<C>)| (p.0, with_bg(p.1, style.bg)))
                    =~= lv.take(j as int).map_values(
                    |p: (Seq<char>, TextStyle<C>)| (p.0, with_bg(p.1, style.bg)),
                ).push((lv[j as int].0, with_bg(lv[j as int].1, style.bg))));
            }
            j = j + 1;
        }
        let line = StyledLine { spans };
        proof {
            let lv = line_view(*src);
            assert(lv.take(src.spans@.len() as int) =~= lv);
            assert(head =~= seq![(PAD@, plain_style()), ("│ "@, border_style(*style))]);
            assert(line_view(line) =~= boxed_body(line_view(body@[i as int]), *style));
        }
        let ghost l0 = lines@;
        lines.push(pad_bg(line, width, style.bg));
        proof {
            assert forall|k: int| 0 <= k < i + 1 implies line_view(#[trigger] lines@[k + 1]) == padded(
                boxed_body(line_view(body@[k]), *style),
                width as nat,
                style.bg,
            ) && spans_width(line_view(lines@[k + 1])) == filled_width(
                spans_width(boxed_body(line_view(body@[k]), *style)),
                width as nat,
            ) by {
                if k < i {
                    assert(lines@[k + 1] == l0[k + 1]);
                }
            }
        }
        i = i + 1;
    }
    let bottom = StyledLine { spans: vec![span(PAD, plain), span("└─", border)] };
    assert(line_view(bottom) =~= seq![(PAD@, plain_style()), ("└─"@, border_style(*style))]);
    lines.push(pad_bg(bottom, width, style.bg));
    lines.push(StyledLine { spans: Vec::new() });
    lines
}

} // verus!
