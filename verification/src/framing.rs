//! Cutting a streamed body into frames, chunk by chunk: lines of
//! newline-delimited JSON, or server-sent events ending in a blank line.
//! Where the body is cut into chunks does not change the frames.
use vstd::prelude::*;
use crate::stream::{blank_line_at, newline_at, take_event, take_line};

verus! {

/// Whether a frame ends at `p`: a blank line for events, a line break for
/// lines.
pub open spec fn delim_at(b: Seq<u8>, p: int, events: bool) -> bool {
    if events {
        blank_line_at(b, p)
    } else {
        newline_at(b, p)
    }
}

/// The bytes of the delimiter.
pub open spec fn delim_len(events: bool) -> int {
    if events {
        2
    } else {
        1
    }
}

/// The first delimiter at or after `i`, or the length of `b` when none.
pub open spec fn first_delim(b: Seq<u8>, i: int, events: bool) -> int
    decreases b.len() - i,
{
    if i < 0 || i >= b.len() {
        b.len() as int
    } else if delim_at(b, i, events) {
        i
    } else {
        first_delim(b, i + 1, events)
    }
}

/// The complete frames of `b`, in order, each with its delimiter.
pub open spec fn frames_of(b: Seq<u8>, events: bool) -> Seq<Seq<u8>>
    decreases b.len(),
{
    let p = first_delim(b, 0, events);
    if 0 <= p < b.len() && delim_at(b, p, events) {
        let e = p + delim_len(events);
        seq![b.take(e)] + frames_of(b.skip(e), events)
    } else {
        Seq::empty()
    }
}

/// What follows the last complete frame of `b`.
pub open spec fn rest_after(b: Seq<u8>, events: bool) -> Seq<u8>
    decreases b.len(),
{
    let p = first_delim(b, 0, events);
    if 0 <= p < b.len() && delim_at(b, p, events) {
        rest_after(b.skip(p + delim_len(events)), events)
    } else {
        b
    }
}

/// The chunks, one after the other.
pub open spec fn concat_chunks(cs: Seq<Seq<u8>>) -> Seq<u8>
    decreases cs.len(),
{
    if cs.len() == 0 {
        Seq::empty()
    } else {
        concat_chunks(cs.drop_last()) + cs.last()
    }
}

/// What a fresh [`FrameBuffer`] holds after being fed the chunks `cs`.
pub open spec fn fed_rest(cs: Seq<Seq<u8>>, events: bool) -> Seq<u8>
    decreases cs.len(),
{
    if cs.len() == 0 {
        Seq::empty()
    } else {
        rest_after(fed_rest(cs.drop_last(), events) + cs.last(), events)
    }
}

/// The frames a fresh [`FrameBuffer`] hands out, in order, when fed the
/// chunks `cs` one by one.
pub open spec fn fed_frames(cs: Seq<Seq<u8>>, events: bool) -> Seq<Seq<u8>>
    decreases cs.len(),
{
    if cs.len() == 0 {
        Seq::empty()
    } else {
        fed_frames(cs.drop_last(), events) + frames_of(
            fed_rest(cs.drop_last(), events) + cs.last(),
            events,
        )
    }
}

proof fn lemma_first_delim_is(b: Seq<u8>, i: int, p: int, events: bool)
    requires
        0 <= i <= p,
        delim_at(b, p, events),
        forall|q: int| i <= q < p ==> !delim_at(b, q, events),
    ensures
        first_delim(b, i, events) == p,
    decreases p - i,
{
    if i < p {
        lemma_first_delim_is(b, i + 1, p, events);
    }
}

proof fn lemma_no_delim(b: Seq<u8>, i: int, events: bool)
    requires
        0 <= i,
        forall|q: int| !delim_at(b, q, events),
    ensures
        first_delim(b, i, events) == b.len(),
    decreases b.len() - i,
{
    if i < b.len() {
        lemma_no_delim(b, i + 1, events);
    }
}

proof fn lemma_first_delim_bounds(b: Seq<u8>, i: int, events: bool)
    requires
        0 <= i <= b.len(),
    ensures
        i <= first_delim(b, i, events) <= b.len(),
    decreases b.len() - i,
{
    if i < b.len() {
        lemma_first_delim_bounds(b, i + 1, events);
    }
}

/// A delimiter found within `a` is still the first one of `a + c`.
proof fn lemma_first_delim_prefix(a: Seq<u8>, c: Seq<u8>, i: int, events: bool)
    requires
        0 <= i,
        first_delim(a, i, events) < a.len(),
    ensures
        first_delim(a + c, i, events) == first_delim(a, i, events),
        delim_at(a, first_delim(a, i, events), events),
    decreases a.len() - i,
{
    let ac = a + c;
    if i < a.len() {
        if delim_at(a, i, events) {
            assert(ac[i] == a[i]);
            if events {
                assert(ac[i + 1] == a[i + 1]);
            }
            assert(delim_at(ac, i, events));
        } else {
            lemma_first_delim_prefix(a, c, i + 1, events);
            lemma_first_delim_bounds(a, i + 1, events);
            let p = first_delim(a, i + 1, events);
            assert(delim_at(a, p, events));
            assert(i < p);
            assert(ac[i] == a[i]);
            if events {
                assert(ac[i + 1] == a[i + 1]);
            }
            assert(!delim_at(ac, i, events));
        }
    }
}

/// Appending to a buffer leaves its complete frames as they were; the new
/// frames come from what followed them, with the appended bytes.
pub proof fn lemma_frames_append(a: Seq<u8>, c: Seq<u8>, events: bool)
    ensures
        frames_of(a + c, events) == frames_of(a, events) + frames_of(rest_after(a, events) + c, events),
        rest_after(a + c, events) == rest_after(rest_after(a, events) + c, events),
    decreases a.len(),
{
    let p = first_delim(a, 0, events);
    if 0 <= p < a.len() && delim_at(a, p, events) {
        lemma_first_delim_prefix(a, c, 0, events);
        let e = p + delim_len(events);
        let ac = a + c;
        assert(ac.take(e) =~= a.take(e));
        assert(ac.skip(e) =~= a.skip(e) + c);
        assert(delim_at(ac, p, events)) by {
            assert(ac[p] == a[p]);
            if events {
                assert(ac[p + 1] == a[p + 1]);
            }
        }
        lemma_frames_append(a.skip(e), c, events);
        assert(frames_of(ac, events) == seq![ac.take(e)] + frames_of(ac.skip(e), events));
        assert(frames_of(a, events) == seq![a.take(e)] + frames_of(a.skip(e), events));
        assert(frames_of(ac, events) =~= frames_of(a, events) + frames_of(
            rest_after(a, events) + c,
            events,
        ));
    } else {
        assert(frames_of(a, events) =~= Seq::<Seq<u8>>::empty());
        assert(frames_of(a + c, events) =~= frames_of(a, events) + frames_of(a + c, events));
    }
}

/// Where a body is cut into chunks does not change what comes out of it: the
/// frames handed out while feeding the chunks are the complete frames of the
/// whole body, and what is left over is what follows its last frame.
pub proof fn law_framing_ignores_chunking(cs: Seq<Seq<u8>>, events: bool)
    ensures
        fed_frames(cs, events) == frames_of(concat_chunks(cs), events),
        fed_rest(cs, events) == rest_after(concat_chunks(cs), events),
    decreases cs.len(),
{
    if cs.len() == 0 {
        assert(first_delim(Seq::<u8>::empty(), 0, events) == 0);
    } else {
        law_framing_ignores_chunking(cs.drop_last(), events);
        lemma_frames_append(concat_chunks(cs.drop_last()), cs.last(), events);
    }
}

/// Takes the first complete frame out of the front of `buf`, if any.
fn take_frame(buf: &mut Vec<u8>, events: bool) -> (r: Option<Vec<u8>>)
    ensures
        match r {
            Some(f) => {
                &&& frames_of(old(buf)@, events) == seq![f@] + frames_of(final(buf)@, events)
                &&& rest_after(old(buf)@, events) == rest_after(final(buf)@, events)
                &&& final(buf)@.len() < old(buf)@.len()
            },
            None => {
                &&& frames_of(old(buf)@, events) == Seq::<Seq<u8>>::empty()
                &&& rest_after(old(buf)@, events) == old(buf)@
                &&& final(buf)@ == old(buf)@
            },
        },
{
    let ghost before = buf@;
    let taken = if events {
        take_event(buf)
    } else {
        take_line(buf)
    };
    proof {
        match &taken {
            Some(f) => {
                let p = if events {
                    choose|p: int|
                        #![trigger blank_line_at(before, p)]
                        blank_line_at(before, p) && (forall|q: int| 0 <= q < p ==> !blank_line_at(before, q))
                            && f@ == before.take(p + 2) && buf@ == before.skip(p + 2)
                } else {
                    choose|p: int|
                        #![trigger newline_at(before, p)]
                        newline_at(before, p) && (forall|q: int| 0 <= q < p ==> !newline_at(before, q))
                            && f@ == before.take(p + 1) && buf@ == before.skip(p + 1)
                };
                assert(delim_at(before, p, events));
                assert forall|q: int| 0 <= q < p implies !delim_at(before, q, events) by {}
                lemma_first_delim_is(before, 0, p, events);
            },
            None => {
                assert forall|q: int| !delim_at(before, q, events) by {}
                lemma_no_delim(before, 0, events);
            },
        }
    }
    taken
}

/// A buffer of streamed bytes that hands out complete frames as they arrive.
pub struct FrameBuffer {
    buf: Vec<u8>,
    events: bool,
}

impl View for FrameBuffer {
    type V = Seq<u8>;

    closed spec fn view(&self) -> Seq<u8> {
        self.buf@
    }
}

impl FrameBuffer {
    /// Whether the frames are server-sent events (otherwise lines).
    pub closed spec fn frames_events(&self) -> bool {
        self.events
    }

    /// An empty buffer for newline-delimited lines.
    pub fn lines() -> (r: Self)
        ensures
            r@ == Seq::<u8>::empty(),
            !r.frames_events(),
    {
        FrameBuffer { buf: Vec::new(), events: false }
    }

    /// An empty buffer for server-sent events.
    pub fn events() -> (r: Self)
        ensures
            r@ == Seq::<u8>::empty(),
            r.frames_events(),
    {
        FrameBuffer { buf: Vec::new(), events: true }
    }

    /// Takes in `chunk` and hands out every frame now complete, in order;
    /// keeps what follows them.
    pub fn feed(&mut self, chunk: &[u8]) -> (out: Vec<Vec<u8>>)
        ensures
            final(self).frames_events() == old(self).frames_events(),
            out@.map_values(|f: Vec<u8>| f@) == frames_of(
                old(self)@ + chunk@,
                old(self).frames_events(),
            ),
            final(self)@ == rest_after(old(self)@ + chunk@, old(self).frames_events()),
    {
        let ghost events = self.events;
        let ghost total = self.buf@ + chunk@;
        self.buf.extend_from_slice(chunk);
        assert(self.buf@ =~= total);
        let mut out: Vec<Vec<u8>> = Vec::new();
        loop
            invariant
                self.events == events,
                out@.map_values(|f: Vec<u8>| f@) + frames_of(self.buf@, events) == frames_of(
                    total,
                    events,
                ),
                rest_after(self.buf@, events) == rest_after(total, events),
            ensures
                self.events == events,
                out@.map_values(|f: Vec<u8>| f@) == frames_of(total, events),
                self.buf@ == rest_after(total, events),
            decreases self.buf@.len(),
        {
            let ghost before = self.buf@;
            match take_frame(&mut self.buf, self.events) {
                Some(frame) => {
                    let ghost o0 = out@;
                    out.push(frame);
                    proof {
                        assert(out@.map_values(|f: Vec<u8>| f@) =~= o0.map_values(|f: Vec<u8>| f@).push(
                            frame@,
                        ));
                        assert(out@.map_values(|f: Vec<u8>| f@) + frames_of(self.buf@, events) =~= o0.map_values(
                            |f: Vec<u8>| f@,
                        ) + frames_of(before, events));
                    }
                },
                None => {
                    proof {
                        assert(out@.map_values(|f: Vec<u8>| f@) =~= out@.map_values(|f: Vec<u8>| f@)
                            + frames_of(before, events));
                    }
                    break;
                },
            }
        }
        out
    }

    /// What is left after the last complete frame.
    pub fn rest(self) -> (r: Vec<u8>)
        ensures
            r@ == self@,
    {
        self.buf
    }
}

} // verus!
