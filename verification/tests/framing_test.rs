use granite::framing::FrameBuffer;

fn feed_all(mut frames: FrameBuffer, chunks: &[&[u8]]) -> (Vec<Vec<u8>>, Vec<u8>) {
    let mut out = Vec::new();
    for c in chunks {
        out.extend(frames.feed(c));
    }
    (out, frames.rest())
}

#[test]
fn lines_are_the_same_for_every_chunking() {
    let body: &[u8] = b"{\"a\":1}\n{\"b\":2}\n{\"c\":";
    let whole = feed_all(FrameBuffer::lines(), &[body]);
    assert_eq!(whole.0, vec![b"{\"a\":1}\n".to_vec(), b"{\"b\":2}\n".to_vec()]);
    assert_eq!(whole.1, b"{\"c\":".to_vec());
    for cut in 0..=body.len() {
        let (a, b) = body.split_at(cut);
        assert_eq!(feed_all(FrameBuffer::lines(), &[a, b]), whole, "cut at {cut}");
    }
    let bytes: Vec<&[u8]> = body.chunks(1).collect();
    assert_eq!(feed_all(FrameBuffer::lines(), &bytes), whole);
}

#[test]
fn events_are_the_same_for_every_chunking() {
    let body: &[u8] = b"data: one\n\ndata: two\n\ndata: par";
    let whole = feed_all(FrameBuffer::events(), &[body]);
    assert_eq!(whole.0, vec![b"data: one\n\n".to_vec(), b"data: two\n\n".to_vec()]);
    assert_eq!(whole.1, b"data: par".to_vec());
    for cut in 0..=body.len() {
        let (a, b) = body.split_at(cut);
        assert_eq!(feed_all(FrameBuffer::events(), &[a, b]), whole, "cut at {cut}");
    }
}

#[test]
fn empty_feed_hands_out_nothing() {
    let (frames, rest) = feed_all(FrameBuffer::lines(), &[b"", b"abc"]);
    assert!(frames.is_empty());
    assert_eq!(rest, b"abc".to_vec());
}
