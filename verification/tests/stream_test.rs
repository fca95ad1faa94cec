use granite::stream::{take_event, take_line};

#[test]
fn gemini_test_take_event_splits_on_double_newline_and_buffers_partial() {
    let mut buf = b"data: {\"a\":1}\n\ndata: partial".to_vec();
    let event = take_event(&mut buf).unwrap();
    assert_eq!(event, b"data: {\"a\":1}\n\n");
    assert_eq!(buf, b"data: partial");
    assert!(take_event(&mut buf).is_none());
}

#[test]
fn groq_test_take_event_splits_on_double_newline_and_buffers_partial() {
    let mut buf = b"data: {\"choices\":[]}\n\ndata: partial".to_vec();
    let event = take_event(&mut buf).expect("first event available");
    assert_eq!(event, b"data: {\"choices\":[]}\n\n");
    assert_eq!(buf, b"data: partial");
    assert!(take_event(&mut buf).is_none());
}

#[test]
fn take_line_splits_on_newline_and_buffers_partial() {
    let mut buf = b"{\"done\":false}\n{\"partial".to_vec();
    let line = take_line(&mut buf).expect("first line available");
    assert_eq!(line, b"{\"done\":false}\n");
    assert_eq!(buf, b"{\"partial");
    assert!(take_line(&mut buf).is_none());
}
