use cello::streaming::{
    sse_comment, sse_event, sse_headers, sse_keepalive, sse_retry, strip_newlines, ChunkedBody, FileBody,
    SseEvent, SseStream, StreamError, StreamItem,
};

#[test]
fn test_stream_item() {
    let item = StreamItem::data(vec![1, 2, 3]);
    assert!(!item.is_end());
    assert!(!item.is_error());

    let end = StreamItem::end();
    assert!(end.is_end());

    let error = StreamItem::error("test error");
    assert!(error.is_error());
}

#[test]
fn test_sse_formatting() {
    let event = sse_event(Some("message"), "Hello, World!", Some("1"));
    assert!(event.contains("event: message\n"));
    assert!(event.contains("id: 1\n"));
    assert!(event.contains("data: Hello, World!\n"));
    assert!(event.ends_with("\n\n"));

    let retry = sse_retry(3000);
    assert_eq!(retry, "retry: 3000\n\n");

    let comment = sse_comment("keepalive");
    assert_eq!(comment, ": keepalive\n\n");
}

#[test]
fn test_file_body() {
    let temp_str = "/tmp/test.txt";
    let body = FileBody::new(temp_str)
        .offset(100)
        .length(500)
        .content_type("text/plain");

    assert_eq!(body.offset, 100);
    assert_eq!(body.length, Some(500));
    assert_eq!(body.content_type, "text/plain");
}

#[test]
fn test_sse_event_simple() {
    let event = SseEvent::from_data("Hello, World!");
    let sse_str = event.to_sse_string();
    assert!(sse_str.contains("data: Hello, World!"));
    assert!(sse_str.ends_with("\n\n"));
}

#[test]
fn test_sse_event_with_type() {
    let event = SseEvent::from_event("message", "Test data");
    let sse_str = event.to_sse_string();
    assert!(sse_str.contains("event: message"));
    assert!(sse_str.contains("data: Test data"));
}

#[test]
fn test_sse_event_full() {
    let event = SseEvent::new("data", Some("update"), Some("123"), Some(3000));
    let sse_str = event.to_sse_string();
    assert!(sse_str.contains("id: 123"));
    assert!(sse_str.contains("event: update"));
    assert!(sse_str.contains("retry: 3000"));
    assert!(sse_str.contains("data: data"));
}

#[test]
fn test_sse_event_multiline() {
    let event = SseEvent::from_data("Line 1\nLine 2\nLine 3");
    let sse_str = event.to_sse_string();
    assert!(sse_str.contains("data: Line 1\n"));
    assert!(sse_str.contains("data: Line 2\n"));
    assert!(sse_str.contains("data: Line 3\n"));
}

#[test]
fn test_sse_stream() {
    let mut stream = SseStream::new();
    stream.add_data("event1");
    stream.add_event("update", "event2");

    assert_eq!(stream.len(), 2);
    assert!(!stream.is_empty());
}

#[test]
fn test_sse_field_injection_is_stripped() {
    let event = SseEvent::new("payload", Some("evt\ndata: injected"), Some("1\nevent: x"), None);
    let sse_str = event.to_sse_string();
    assert!(sse_str.contains("id: 1event: x\n"));
    assert!(sse_str.contains("event: evtdata: injected\n"));
    assert!(sse_str.contains("data: payload\n"));
    assert_eq!(
        sse_str.lines().filter(|l| l.starts_with("data:")).count(),
        1
    );
}

#[test]
fn test_strip_newlines() {
    assert_eq!(strip_newlines("a\r\nb"), "ab");
    assert_eq!(strip_newlines("clean"), "clean");
}

#[test]
fn sse_lines_follow_str_lines() {
    assert_eq!(sse_event(None, "a\r\nb\n", None), "data: a\ndata: b\n\n");
    assert_eq!(sse_event(None, "", None), "\n");
    assert_eq!(sse_event(None, "\n", None), "data: \n\n");
    assert_eq!(sse_keepalive().to_sse_string(), "\n");
    assert_eq!(sse_headers()[0], ("Content-Type", "text/event-stream"));
}

#[test]
fn chunked_body_is_fifo_and_closes() {
    let mut body = ChunkedBody::new();
    body.write(vec![1]);
    body.write_text("hi");
    body.finish();
    body.write(vec![9]);
    assert!(body.has_chunks());
    assert_eq!(body.next_chunk(), Some(vec![1]));
    assert_eq!(body.next_chunk(), Some(b"hi".to_vec()));
    assert_eq!(body.next_chunk(), None);
    assert!(body.is_complete());
}

#[test]
fn file_body_length_and_mime() {
    let f = FileBody::new("/x/page.html").offset(10).length(100);
    assert_eq!(f.content_type, "text/html");
    assert_eq!(f.content_length_of(50), 40);
    assert_eq!(f.content_length_of(500), 100);
    assert_eq!(f.content_length_of(5), 0);
    assert_eq!(StreamError::Closed.to_string(), "Stream closed");
}
