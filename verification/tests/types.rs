use nexus_engine::nodeshell::types::{
    strip_surrogates, NodeContext, NodeMetadata, NodeOutcome, NodeOutput, SpawnError,
};

/// A lone surrogate cannot be encoded in a Rust `String`: decoding its
/// three-byte form fails, which yields the empty string.
fn surrogate_str(code: u16) -> String {
    assert!((0xD800..=0xDFFF).contains(&code));
    let c = code as u32;
    let b = [
        0xEDu8,
        (0x80 | ((c >> 6) & 0x3F)) as u8,
        (0x80 | (c & 0x3F)) as u8,
    ];
    String::from_utf8(b.to_vec()).unwrap_or_default()
}

fn lookup<'a, V>(entries: &'a [(String, V)], key: &str) -> &'a V {
    &entries.iter().find(|(k, _)| k == key).expect("key present").1
}

#[test]
fn strip_surrogates_removes_lone_surrogate() {
    let mut s = format!("hello{}world", surrogate_str(0xD800));
    strip_surrogates(&mut s);
    assert_eq!(s, "helloworld");
}

#[test]
fn strip_surrogates_preserves_valid_unicode() {
    let mut s = String::from("caf\u{00E9}\u{4E2D}");
    let expected = s.clone();
    strip_surrogates(&mut s);
    assert_eq!(s, expected);
}

#[test]
fn strip_surrogates_handles_multiple_surrogates() {
    let mut s = format!("a{}b{}c", surrogate_str(0xDC00), surrogate_str(0xDFFF));
    strip_surrogates(&mut s);
    assert_eq!(s, "abc");
}

#[test]
fn sanitize_node_context_cleans_all_fields() {
    let mut ctx = NodeContext {
        inputs: vec![("k".to_string(), format!("v{}al", surrogate_str(0xD800)))],
        extensions: vec![("e".to_string(), format!("x{}y", surrogate_str(0xDFFF)))],
        metadata: NodeMetadata { run_count: 1, timed_out: false },
        upstream: vec![(
            "u".to_string(),
            NodeOutput {
                route: format!("r{}", surrogate_str(0xDC00)),
                content: format!("c{}", surrogate_str(0xD800)),
            },
        )],
    };
    ctx.sanitize_surrogates();
    assert_eq!(lookup(&ctx.inputs, "k"), "val");
    assert_eq!(lookup(&ctx.extensions, "e"), "xy");
    assert_eq!(lookup(&ctx.upstream, "u").route, "r");
    assert_eq!(lookup(&ctx.upstream, "u").content, "c");
}

#[test]
fn default_context_is_first_run() {
    let ctx = NodeContext::default();
    assert!(ctx.inputs.is_empty());
    assert!(ctx.extensions.is_empty());
    assert!(ctx.upstream.is_empty());
    assert_eq!(ctx.metadata.run_count, 1);
    assert!(!ctx.metadata.timed_out);
}

#[test]
fn routed_outcome_records_route_as_reason() {
    let o = NodeOutcome::routed(NodeOutput { route: "done".to_string(), content: "x".to_string() }, 0);
    assert_eq!(o.exit_code, 0);
    assert_eq!(o.exit_reason.as_deref(), Some("done"));
    assert!(!o.timed_out());
}

#[test]
fn kill_exit_code_marks_outcome_timed_out() {
    let o = NodeOutcome::routed(NodeOutput { route: "timeout".to_string(), content: String::new() }, -9);
    assert!(o.timed_out());
    let empty = NodeOutcome::routed(NodeOutput { route: String::new(), content: String::new() }, 1);
    assert_eq!(empty.exit_reason, None);
    assert!(!empty.timed_out());
}

#[test]
fn spawn_error_display_text() {
    let e = SpawnError::with_message("boom".to_string());
    assert_eq!(e.message, "boom");
    assert_eq!(e.display_text(), "spawn error: boom");
}
