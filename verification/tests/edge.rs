use nexus_engine::graph::edge::{EdgeDef, EdgeState, Strategy};
use nexus_engine::model::predecessor::EventType;

#[test]
fn test_edge_state_defaults() {
    let state = EdgeState::default();
    assert_eq!(state.event_count, 0, "default event_count must be 0");
}

#[test]
fn test_edge_state_can_populate() {
    let mut state = EdgeState::default();
    assert_eq!(state.event_count, 0);
    state.event_count = 5;
    assert_eq!(state.event_count, 5);
}

#[test]
fn test_edge_def_with_strategies() {
    let a = 0usize;
    let b = 1usize;
    let edge_all = EdgeDef {
        from: a,
        to: b,
        event_type: EventType::Complete,
        exit_reason: None,
        threshold: 1,
        strategy: Strategy::All,
    };
    assert_eq!(edge_all.strategy, Strategy::All);
    let edge_any = EdgeDef {
        from: a,
        to: b,
        event_type: EventType::Failed,
        exit_reason: Some("crash".into()),
        threshold: 3,
        strategy: Strategy::Any,
    };
    assert_eq!(edge_any.strategy, Strategy::Any);
    assert_eq!(edge_any.exit_reason.as_deref(), Some("crash"));
    assert_eq!(edge_any.threshold, 3);
    assert_eq!(EdgeState::new().event_count, 0);
}
