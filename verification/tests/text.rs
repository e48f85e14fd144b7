use nexus_engine::diagnostics::event::NodeLifecycleEvent;
use nexus_engine::nodeshell::types::SpawnError;
use nexus_engine::runtime::events::{NodeEvent, RuntimeError};
use nexus_engine::text::{bool_string, decimal_string, signed_decimal_string, to_chars, trim_chars};

#[test]
fn number_formatting() {
    assert_eq!(decimal_string(0), "0");
    assert_eq!(decimal_string(1234567890), "1234567890");
    assert_eq!(decimal_string(u64::MAX), u64::MAX.to_string());
    assert_eq!(signed_decimal_string(-42), "-42");
    assert_eq!(signed_decimal_string(i32::MIN), i32::MIN.to_string());
    assert_eq!(signed_decimal_string(7), "7");
    assert_eq!(bool_string(true), "true");
    assert_eq!(bool_string(false), "false");
}

#[test]
fn trimming_matches_str_trim() {
    for s in ["  a b  ", "\t\nx\u{3000}", "", "   ", "no-trim"] {
        let t: String = trim_chars(&to_chars(s)).into_iter().collect();
        assert_eq!(t, s.trim());
    }
}

#[test]
fn runtime_error_from_spawn_error() {
    let e: RuntimeError = SpawnError::with_message("no such file".to_string()).into();
    assert_eq!(e.display_text(), "spawn error: no such file");
}

#[test]
fn lifecycle_events_wrap_into_node_events() {
    let ev = NodeEvent::Lifecycle(NodeLifecycleEvent::Failed {
        node_id: "n1".into(),
        exit_reason: "crash".into(),
        retry_count: 2,
    });
    match ev {
        NodeEvent::Lifecycle(NodeLifecycleEvent::Failed { retry_count, .. }) => assert_eq!(retry_count, 2),
        _ => panic!("unexpected event"),
    }
}
