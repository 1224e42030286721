use radio_slate::infrastructure::{BufferedSink, OutputSink};

#[test]
fn buffered_sink_captures_emitted_lines() {
    let mut sink = BufferedSink::new();
    sink.emit("first").unwrap();
    sink.emit("second").unwrap();
    assert_eq!(sink.lines, vec!["first", "second"]);
}

#[test]
fn buffered_sink_flush_is_infallible() {
    let mut sink = BufferedSink::new();
    assert!(sink.flush().is_ok());
}

#[test]
fn buffered_sink_starts_empty() {
    let sink = BufferedSink::new();
    assert!(sink.lines.is_empty());
}
