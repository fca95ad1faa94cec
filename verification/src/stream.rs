//! Framing of streamed provider replies: server-sent events (Groq, Gemini)
//! and newline-delimited JSON (Ollama).
use vstd::prelude::*;
use vstd::utf8::{decode_utf8, valid_utf8};
use crate::text::{chars_of, skip_whitespace_in, string_of, trailing_whitespace_start, trim};

verus! {

/// Whether an event ends at `p` in `b`: a blank line, `\n\n`, starts there.
pub open spec fn blank_line_at(b: Seq<u8>, p: int) -> bool {
    &&& 0 <= p
    &&& p + 1 < b.len()
    &&& b[p] == 10
    &&& b[p + 1] == 10
}

/// Whether a line ends at `p` in `b`.
pub open spec fn newline_at(b: Seq<u8>, p: int) -> bool {
    &&& 0 <= p < b.len()
    &&& b[p] == 10
}

/// Pulls one complete server-sent event (everything up to and including the
/// first `\n\n`) out of the front of `buf`, if one is there; otherwise `buf`
/// is left as it is.
pub fn take_event(buf: &mut Vec<u8>) -> (r: Option<Vec<u8>>)
    ensures
        match r {
            Some(event) => exists|p: int|
                #![trigger blank_line_at(old(buf)@, p)]
                blank_line_at(old(buf)@, p) && (forall|q: int| 0 <= q < p ==> !blank_line_at(old(buf)@, q))
                    && event@ == old(buf)@.take(p + 2) && final(buf)@ == old(buf)@.skip(p + 2),
            None => {
                &&& forall|q: int| !blank_line_at(old(buf)@, q)
                &&& final(buf)@ == old(buf)@
            },
        },
        r matches Some(event) ==> event@ + final(buf)@ == old(buf)@,
{
    let n = buf.len();
    let mut p: usize = 0;
    while p < n && p + 1 < n
        invariant
            p <= n,
            n == buf@.len(),
            buf@ == old(buf)@,
            forall|q: int| 0 <= q < p ==> !blank_line_at(old(buf)@, q),
        decreases n - p,
    {
        if buf[p] == 10u8 && buf[p + 1] == 10u8 {
            assert(blank_line_at(old(buf)@, p as int));
            let mut head = buf.split_off(p + 2);
            std::mem::swap(buf, &mut head);
            assert(head@ =~= old(buf)@.take(p + 2));
            assert(buf@ =~= old(buf)@.skip(p + 2));
            assert(head@ + buf@ =~= old(buf)@);
            return Some(head);
        }
        p = p + 1;
    }
    assert forall|q: int| !blank_line_at(old(buf)@, q) by {
        if 0 <= q && q + 1 < n {
            assert(q < p || q + 1 >= n);
        }
    }
    None
}

/// Pulls one complete line (up to and including the first `\n`) out of the
/// front of `buf`, if one is there; otherwise `buf` is left as it is.
pub fn take_line(buf: &mut Vec<u8>) -> (r: Option<Vec<u8>>)
    ensures
        match r {
            Some(line) => exists|p: int|
                #![trigger newline_at(old(buf)@, p)]
                newline_at(old(buf)@, p) && (forall|q: int| 0 <= q < p ==> !newline_at(old(buf)@, q))
                    && line@ == old(buf)@.take(p + 1) && final(buf)@ == old(buf)@.skip(p + 1),
            None => {
                &&& forall|q: int| !newline_at(old(buf)@, q)
                &&& final(buf)@ == old(buf)@
            },
        },
        r matches Some(line) ==> line@ + final(buf)@ == old(buf)@,
{
    let n = buf.len();
    let mut p: usize = 0;
    while p < n
        invariant
            n == buf@.len(),
            buf@ == old(buf)@,
            forall|q: int| 0 <= q < p ==> !newline_at(old(buf)@, q),
        decreases n - p,
    {
        if buf[p] == 10u8 {
            assert(newline_at(old(buf)@, p as int));
            let mut head = buf.split_off(p + 1);
            std::mem::swap(buf, &mut head);
            assert(head@ =~= old(buf)@.take(p + 1));
            assert(buf@ =~= old(buf)@.skip(p + 1));
            assert(head@ + buf@ =~= old(buf)@);
            return Some(head);
        }
        p = p + 1;
    }
    None
}

/// The text `String::from_utf8_lossy` makes of `bytes`.
pub uninterp spec fn lossy_text(bytes: Seq<u8>) -> Seq<char>;

/// Decodes `bytes` as UTF-8, replacing invalid sequences.
///
/// Calls `String::from_utf8_lossy`; its result is named `lossy_text(bytes)`,
/// and, as std documents, valid UTF-8 decodes to its own characters.
#[verifier::external_body]
pub(crate) fn decode_lossy(bytes: &[u8]) -> (r: String)
    ensures
        r@ == lossy_text(bytes@),
        valid_utf8(bytes@) ==> r@ == decode_utf8(bytes@),
{
    String::from_utf8_lossy(bytes).into_owned()
}

/// Index of the first `\n` of `s` at or after `from`, or the length of `s`.
pub open spec fn first_newline(s: Seq<char>, from: int) -> int
    decreases s.len() - from,
{
    if from >= s.len() {
        s.len() as int
    } else if s[from] == '\n' {
        from
    } else {
        first_newline(s, from + 1)
    }
}

/// `first_newline` never goes back nor past the end.
pub proof fn lemma_first_newline_bounds(s: Seq<char>, from: int)
    requires
        0 <= from,
    ensures
        from <= s.len() ==> from <= first_newline(s, from) <= s.len(),
        from > s.len() ==> first_newline(s, from) == s.len(),
        first_newline(s, from) < s.len() ==> s[first_newline(s, from)] == '\n',
    decreases s.len() - from,
{
    if from < s.len() && s[from] != '\n' {
        lemma_first_newline_bounds(s, from + 1);
    }
}

/// The lines of `s` from index `from` on, as `str::lines` gives them: split
/// at each `\n`, a `\r` right before that `\n` dropped, no empty line after a
/// final `\n`.
pub open spec fn lines_from(s: Seq<char>, from: int) -> Seq<Seq<char>>
    decreases s.len() - from,
{
    if from < 0 || from >= s.len() {
        Seq::empty()
    } else {
        let e = first_newline(s, from);
        if e < from {
            Seq::empty()
        } else {
                let line = if e < s.len() && e > from && s[e - 1] == '\r' {
                s.subrange(from, e - 1)
            } else {
                s.subrange(from, e)
            };
            if e >= s.len() {
                seq![line]
            } else {
                seq![line] + lines_from(s, e + 1)
            }
        }
    }
}

/// The payload of a `data:` line (after `data: ` or `data:`), if it is one.
pub open spec fn data_payload(line: Seq<char>) -> Option<Seq<char>> {
    if line.len() >= 6 && line.take(6) == "data: "@ {
        Some(line.skip(6))
    } else if line.len() >= 5 && line.take(5) == "data:"@ {
        Some(line.skip(5))
    } else {
        None
    }
}

/// The payload an event carries: the first `data:` line's payload, trimmed.
/// With `skip_blank`, blank payloads are passed over; without it, the
/// `[DONE]` marker ends the stream and carries nothing.
pub open spec fn event_payload(lines: Seq<Seq<char>>, skip_blank: bool) -> Option<Seq<char>>
    decreases lines.len(),
{
    if lines.len() == 0 {
        None
    } else {
        match data_payload(lines[0]) {
            None => event_payload(lines.drop_first(), skip_blank),
            Some(d) => {
                let t = trim(d);
                if skip_blank {
                    if t.len() == 0 {
                        event_payload(lines.drop_first(), skip_blank)
                    } else {
                        Some(t)
                    }
                } else if t == "[DONE]"@ {
                    None
                } else {
                    Some(t)
                }
            },
        }
    }
}

/// Index of the first `\n` of `v` at or after `from`.
fn find_newline(v: &Vec<char>, from: usize) -> (e: usize)
    requires
        from <= v@.len(),
    ensures
        e == first_newline(v@, from as int),
        from <= e <= v@.len(),
{
    let mut e = from;
    while e < v.len() && v[e] != '\n'
        invariant
            from <= e <= v@.len(),
            first_newline(v@, from as int) == first_newline(v@, e as int),
        decreases v.len() - e,
    {
        e = e + 1;
    }
    e
}

/// Whether `v[from..to]` starts with the characters of `prefix`.
fn starts_with_at(v: &Vec<char>, from: usize, to: usize, prefix: &str) -> (r: bool)
    requires
        from <= to <= v@.len(),
    ensures
        r == (to - from >= prefix@.len() && v@.subrange(from as int, to as int).take(
            prefix@.len() as int,
        ) == prefix@),
{
    let p = chars_of(prefix);
    if to - from < p.len() {
        return false;
    }
    let mut i: usize = 0;
    while i < p.len()
        invariant
            i <= p@.len(),
            p@ == prefix@,
            to - from >= p@.len(),
            from <= to <= v@.len(),
            forall|j: int| 0 <= j < i ==> v@[from + j] == p@[j],
        decreases p.len() - i,
    {
        if v[from + i] != p[i] {
            assert(v@.subrange(from as int, to as int).take(p@.len() as int)[i as int] != p@[i as int]);
            return false;
        }
        i = i + 1;
    }
    assert(v@.subrange(from as int, to as int).take(p@.len() as int) =~= p@);
    true
}

/// The payload that `text`, an event's text, carries, as [`event_payload`]
/// states.
fn payload_of_text(text: &str, skip_blank: bool) -> (r: Option<String>)
    ensures
        match event_payload(lines_from(text@, 0), skip_blank) {
            Some(t) => r matches Some(x) && x@ == t,
            None => r is None,
        },
{
    let v = chars_of(text);
    let mut from: usize = 0;
    while from < v.len()
        invariant
            v@ == text@,
            from <= v@.len(),
            event_payload(lines_from(v@, 0), skip_blank) == event_payload(
                lines_from(v@, from as int),
                skip_blank,
            ),
        decreases v.len() - from,
    {
        let e = find_newline(&v, from);
        proof {
            lemma_first_newline_bounds(v@, from as int);
        }
        let end = if e < v.len() && e > from && v[e - 1] == '\r' {
            e - 1
        } else {
            e
        };
        let ghost line = v@.subrange(from as int, end as int);
        let ghost rest = lines_from(v@, e + 1);
        proof {
            if e >= v@.len() {
                assert(rest =~= Seq::<Seq<char>>::empty());
                assert(seq![line] + rest =~= seq![line]);
            }
            assert(lines_from(v@, from as int) == seq![line] + rest);
            assert((seq![line] + rest)[0] == line);
            assert((seq![line] + rest).drop_first() =~= rest);
        }
        proof {
            reveal_strlit("data: ");
            reveal_strlit("data:");
        }
        let start: Option<usize> = if starts_with_at(&v, from, end, "data: ") {
            Some(from + 6)
        } else if starts_with_at(&v, from, end, "data:") {
            Some(from + 5)
        } else {
            None
        };
        match start {
            Some(s) => {
                let a = skip_whitespace_in(v.as_slice(), s, end);
                let b = trailing_whitespace_start(v.as_slice(), a, end);
                proof {
                    let d = line.skip((s - from) as int);
                    assert(data_payload(line) == Some(d));
                    assert(d =~= v@.subrange(s as int, end as int));
                }
                let t = string_of(v.as_slice(), a, b);
                if skip_blank {
                    if a < b {
                        return Some(t);
                    }
                } else {
                    let done = crate::text::str_eq(t.as_str(), "[DONE]");
                    if done {
                        return None;
                    }
                    return Some(t);
                }
            },
            None => {},
        }
        if e == v.len() {
            proof {
                assert(lines_from(v@, e + 1) =~= Seq::<Seq<char>>::empty());
            }
            return None;
        }
        from = e + 1;
    }
    None
}

/// The payload of a server-sent event of the Groq stream: `None` for an
/// event without data and for the `[DONE]` marker.
pub fn groq_event_data(event: &[u8]) -> (r: Option<String>)
    ensures
        match event_payload(lines_from(lossy_text(event@), 0), false) {
            Some(t) => r matches Some(x) && x@ == t,
            None => r is None,
        },
{
    let text = decode_lossy(event);
    payload_of_text(text.as_str(), false)
}

/// The payload of a server-sent event of the Gemini stream: `None` for an
/// event without (non-blank) data.
pub fn gemini_event_data(event: &[u8]) -> (r: Option<String>)
    ensures
        match event_payload(lines_from(lossy_text(event@), 0), true) {
            Some(t) => r matches Some(x) && x@ == t,
            None => r is None,
        },
{
    let text = decode_lossy(event);
    payload_of_text(text.as_str(), true)
}

/// The JSON text of one line of the Ollama stream: `None` for a blank line.
pub fn ndjson_line_data(line: &[u8]) -> (r: Option<String>)
    ensures
        trim(lossy_text(line@)).len() == 0 ==> r is None,
        trim(lossy_text(line@)).len() > 0 ==> (r matches Some(x) && x@ == trim(lossy_text(line@))),
{
    let text = decode_lossy(line);
    let t = crate::text::trimmed(text.as_str());
    if t.as_str().is_empty() {
        None
    } else {
        Some(t)
    }
}

} // verus!
