use nexus_engine::diagnostics::summary::{clip, summarize_chunk};

#[test]
fn summarizes_stream_events_by_kind() {
    assert_eq!(summarize_chunk(r#"{"type":"step_start"}"#).unwrap(), "step_start");
    assert_eq!(
        summarize_chunk(r#"{"type":"step_finish","part":{"reason":"stop","tokens":{"total":42}}}"#).unwrap(),
        "step_finish (stop) 42 tokens"
    );
    assert_eq!(summarize_chunk(r#"{"type":"step_finish"}"#).unwrap(), "step_finish");
    assert_eq!(summarize_chunk(r#"{"type":"text","part":{"text":"hello"}}"#).unwrap(), "text: hello");
    assert_eq!(summarize_chunk(r#"{"type":"text"}"#).unwrap(), "text");
    assert_eq!(
        summarize_chunk(r#"{"type":"tool_use","part":{"tool":"bash","state":{"status":"done"}}}"#).unwrap(),
        "tool: bash (done)"
    );
    assert_eq!(summarize_chunk(r#"{"type":"tool_use"}"#).unwrap(), "tool: unknown");
    assert_eq!(summarize_chunk(r#"{"type":"other"}"#).unwrap(), "event: other");
    assert_eq!(summarize_chunk(r#"{"x":1}"#).unwrap(), "event: data");
}

#[test]
fn plain_lines_are_trimmed_and_clipped() {
    assert_eq!(summarize_chunk("  plain output  ").unwrap(), "plain output");
    let long = "x".repeat(250);
    assert_eq!(summarize_chunk(&long).unwrap(), format!("{}...", "x".repeat(200)));
}

#[test]
fn clipping_counts_bytes_and_refuses_to_cut_a_character() {
    assert_eq!(clip("abc", 3).unwrap(), "abc");
    assert_eq!(clip("abcd", 3).unwrap(), "abc...");
    assert_eq!(clip("aé", 2), None);
    assert_eq!(clip("aéb", 3).unwrap(), "aé...");
    let text = format!("{}é", "x".repeat(199));
    assert!(summarize_chunk(&format!("{text}zz")).is_none());
}
