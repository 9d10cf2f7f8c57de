use motif::provider::{line_events, stream_end_event};
use motif::types::{FinishReason, StreamEvent};

#[test]
fn reasoning_and_content_come_in_order() {
    let line = br#"data: {"choices":[{"delta":{"reasoning_content":"hmm","content":"hi"},"finish_reason":null}]}"#;
    let (events, done) = line_events(line);
    assert!(!done);
    assert_eq!(events.len(), 2);
    assert!(matches!(&events[0], StreamEvent::Thinking(t) if t == "hmm"));
    assert!(matches!(&events[1], StreamEvent::Content(t) if t == "hi"));
}

#[test]
fn finish_reason_ends_the_stream() {
    let line = br#"data: {"choices":[{"delta":{"content":""},"finish_reason":"tool_calls"}]}"#;
    let (events, done) = line_events(line);
    assert!(done);
    assert_eq!(events.len(), 1);
    assert!(matches!(&events[0], StreamEvent::Finish(FinishReason::ToolCalls)));
    let (events, done) = line_events(br#"data: {"choices":[{"delta":{},"finish_reason":"eos"}]}"#);
    assert!(done);
    assert!(matches!(&events[..], [StreamEvent::Finish(FinishReason::Stop)]));
}

#[test]
fn done_marker_and_quiet_lines() {
    let (events, done) = line_events(b"data: [DONE]");
    assert!(done);
    assert!(matches!(&events[..], [StreamEvent::Finish(FinishReason::Stop)]));
    let quiet_lines: [&[u8]; 5] = [b"", b": ping", b"event: x", b"data: not json", b"data: {\"choices\":[]}"];
    for quiet in quiet_lines {
        let (events, done) = line_events(quiet);
        assert!(events.is_empty());
        assert!(!done);
    }
}

#[test]
fn stream_end_events() {
    assert!(matches!(stream_end_event(false), StreamEvent::Finish(FinishReason::Stop)));
    assert!(matches!(stream_end_event(true), StreamEvent::Finish(FinishReason::Custom(s)) if s == "stream_error"));
}
