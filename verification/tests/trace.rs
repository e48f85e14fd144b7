use nexus_engine::diagnostics::trace::TraceId;

#[test]
fn test_trace_id_display() {
    let id = TraceId::new(42);
    let s = id.display_text();
    assert!(s.starts_with("trace-"));
    assert_eq!(s.len(), 22);
    assert_eq!(s, "trace-000000000000002a");
}

#[test]
fn trace_id_keeps_value() {
    assert_eq!(TraceId::new(7).get(), 7);
    assert_eq!(TraceId::new(u64::MAX).display_text(), "trace-ffffffffffffffff");
}
