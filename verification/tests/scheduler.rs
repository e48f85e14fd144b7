use std::collections::HashMap;

use nexus_engine::graph::edge::{EdgeDef, Strategy};
use nexus_engine::graph::graph_def::{GraphDef, NodeData, NodeParams, NodeTransfer};
use nexus_engine::graph::scheduler::{NodeResult, NodeStatus, Scheduler};
use nexus_engine::model::predecessor::EventType;
use petgraph::stable_graph::StableGraph;
use petgraph::Directed;

fn node(id: &str) -> NodeData {
    NodeData {
        id: id.into(),
        providers: vec![],
        process_timeout_secs: 10,
        route_policy: None,
        max_retries: None,
        scripts_dir: None,
    }
}

fn e(from: usize, to: usize, exit_reason: Option<&str>, threshold: u64, strategy: Strategy) -> EdgeDef {
    EdgeDef {
        from,
        to,
        event_type: EventType::Complete,
        exit_reason: exit_reason.map(|s| s.to_string()),
        threshold,
        strategy,
    }
}

/// A graph over nodes `ids` (indices 0..n) whose transfers list, for each
/// node, the indices of the edges leaving it.
fn build(ids: &[&str], edges: Vec<EdgeDef>, entries: Vec<usize>) -> GraphDef {
    let mut graph: StableGraph<NodeData, (), Directed, u32> = StableGraph::default();
    let mut index = Vec::new();
    for id in ids {
        let i = graph.add_node(node(id)).index();
        index.push((id.to_string(), i));
    }
    let mut transfers = HashMap::new();
    let mut params = HashMap::new();
    for i in 0..ids.len() {
        let out: Vec<usize> = edges.iter().enumerate().filter(|(_, ed)| ed.from == i).map(|(k, _)| k).collect();
        transfers.insert(i, NodeTransfer { from: i, out_edge_indices: out });
        params.insert(i, NodeParams { process_timeout_secs: 10 });
    }
    GraphDef::from_components(graph, index, edges, transfers, params, entries).expect("test graph should be valid")
}

fn build_chain_graph() -> GraphDef {
    build(&["A", "B"], vec![e(0, 1, None, 1, Strategy::All)], vec![0])
}

fn build_fan_in_graph() -> GraphDef {
    build(&["A", "B", "C"], vec![e(0, 2, None, 1, Strategy::All), e(1, 2, None, 1, Strategy::All)], vec![0, 1])
}

fn build_fan_out_graph() -> GraphDef {
    build(&["A", "B", "C"], vec![e(0, 1, None, 1, Strategy::All), e(0, 2, None, 1, Strategy::All)], vec![0])
}

fn build_exit_reason_branch_graph() -> GraphDef {
    build(
        &["A", "B", "C"],
        vec![e(0, 1, Some("ok"), 1, Strategy::Any), e(0, 2, Some("review"), 1, Strategy::Any)],
        vec![0],
    )
}

fn build_directed_cycle_graph() -> GraphDef {
    build(&["A", "B"], vec![e(0, 1, None, 1, Strategy::Any), e(1, 0, None, 1, Strategy::Any)], vec![0])
}

#[test]
fn test_handle_event_simple_chain() {
    let mut scheduler = Scheduler::new(build_chain_graph());
    let a_idx = scheduler.graph().node_index("A").expect("A should exist");
    let ready = scheduler.handle_event(a_idx, EventType::Complete, None);
    assert_eq!(ready.len(), 1, "A completing should trigger edge to B");
    let b_idx = scheduler.graph().node_index("B").expect("B should exist");
    assert_eq!(ready[0], b_idx, "edge should target B");
    assert!(scheduler.state().edge_states[0].event_count >= 1);
}

#[test]
fn test_event_type_mismatch() {
    let mut scheduler = Scheduler::new(build_chain_graph());
    let a_idx = scheduler.graph().node_index("A").expect("A should exist");
    let ready = scheduler.handle_event(a_idx, EventType::Failed, None);
    assert!(ready.is_empty(), "Failed event should not trigger a Complete edge");
}

#[test]
fn test_strategy_any() {
    let graph_def = build(&["A", "B", "C"], vec![e(0, 2, None, 1, Strategy::Any), e(1, 2, None, 1, Strategy::Any)], vec![0, 1]);
    let mut scheduler = Scheduler::new(graph_def);
    let ready = scheduler.handle_event(0, EventType::Complete, None);
    assert_eq!(ready.len(), 1, "A completing should trigger its edge to C");
    assert_eq!(ready[0], 2, "edge should target C");
    let ready2 = scheduler.handle_event(1, EventType::Complete, None);
    assert_eq!(ready2.len(), 1, "B's separate edge should also fire");
    assert_eq!(ready2[0], 2, "B's edge should also target C");
}

#[test]
fn test_fan_in_triggers_separate_edges() {
    let mut scheduler = Scheduler::new(build_fan_in_graph());
    let a_idx = scheduler.graph().node_index("A").expect("A should exist");
    let b_idx = scheduler.graph().node_index("B").expect("B should exist");
    let c_idx = scheduler.graph().node_index("C").expect("C should exist");
    let ready = scheduler.handle_event(a_idx, EventType::Complete, None);
    assert!(ready.is_empty(), "A alone should not trigger C with All strategy");
    let ready = scheduler.handle_event(b_idx, EventType::Complete, None);
    assert_eq!(ready.len(), 1, "Both A and B complete → C ready");
    assert_eq!(ready[0], c_idx, "C should be the ready node");
}

#[test]
fn test_threshold_greater_than_one() {
    let graph_def = build(&["A", "B"], vec![e(0, 1, None, 3, Strategy::Any)], vec![0]);
    let mut scheduler = Scheduler::new(graph_def);
    for i in 0..2 {
        let ready = scheduler.handle_event(0, EventType::Complete, None);
        assert!(ready.is_empty(), "event {} should not trigger threshold=3 edge", i + 1);
    }
    let ready = scheduler.handle_event(0, EventType::Complete, None);
    assert_eq!(ready.len(), 1, "third event should trigger edge");
    assert_eq!(ready[0], 1, "edge should target B");
}

#[test]
fn test_exit_reason_filter() {
    let graph_def = build(&["A", "B"], vec![e(0, 1, Some("ok"), 1, Strategy::All)], vec![0]);
    let mut scheduler = Scheduler::new(graph_def);
    let ready = scheduler.handle_event(0, EventType::Complete, Some("wrong"));
    assert!(ready.is_empty(), "wrong exit reason should not trigger edge");
    let ready = scheduler.handle_event(0, EventType::Complete, Some("ok"));
    assert_eq!(ready.len(), 1, "correct exit reason should trigger edge");
    assert_eq!(ready[0], 1);
}

#[test]
fn test_exit_reason_branch_to_b() {
    let mut scheduler = Scheduler::new(build_exit_reason_branch_graph());
    let a = scheduler.graph().node_index("A").expect("A exists");
    let b = scheduler.graph().node_index("B").expect("B exists");
    let ready = scheduler.handle_event(a, EventType::Complete, Some("ok"));
    assert_eq!(ready.len(), 1, "exit_reason 'ok' should trigger exactly one downstream");
    assert_eq!(ready[0], b, "'ok' should route to B");
}

#[test]
fn test_exit_reason_branch_to_c() {
    let mut scheduler = Scheduler::new(build_exit_reason_branch_graph());
    let a = scheduler.graph().node_index("A").expect("A exists");
    let c = scheduler.graph().node_index("C").expect("C exists");
    let ready = scheduler.handle_event(a, EventType::Complete, Some("review"));
    assert_eq!(ready.len(), 1, "exit_reason 'review' should trigger exactly one downstream");
    assert_eq!(ready[0], c, "'review' should route to C");
}

#[test]
fn test_exit_reason_branch_no_match() {
    let mut scheduler = Scheduler::new(build_exit_reason_branch_graph());
    let a = scheduler.graph().node_index("A").expect("A exists");
    let ready = scheduler.handle_event(a, EventType::Complete, Some("unknown"));
    assert!(ready.is_empty(), "no edge matches exit_reason 'unknown'");
}

#[test]
fn test_retry_node() {
    let mut scheduler = Scheduler::new(build_chain_graph());
    let a_idx = scheduler.graph().node_index("A").expect("A should exist");
    assert_eq!(scheduler.state().retry_counts[&a_idx], 0);
    let could_retry = scheduler.retry_node(a_idx, 3);
    assert!(could_retry, "first retry should succeed");
    assert_eq!(scheduler.state().retry_counts[&a_idx], 1);
    assert_eq!(scheduler.state().states[&a_idx].status, NodeStatus::Pending, "retry should reset status to Pending");
    scheduler.retry_node(a_idx, 3);
    scheduler.retry_node(a_idx, 3);
    let could_retry = scheduler.retry_node(a_idx, 3);
    assert!(!could_retry, "retry should fail after max_retries=3 retries exhausted");
}

#[test]
fn test_retry_node_resets_edge_state() {
    let mut scheduler = Scheduler::new(build_chain_graph());
    let a = scheduler.graph().node_index("A").expect("A exists");
    let b = scheduler.graph().node_index("B").expect("B exists");
    let ready = scheduler.handle_event(a, EventType::Complete, None);
    assert_eq!(ready.len(), 1, "A should trigger B");
    assert_eq!(ready[0], b, "should target B");
    assert_eq!(scheduler.state().edge_states[0].event_count, 1, "edge event_count should be 1 after first fire");
    assert!(scheduler.retry_node(a, 3), "retry should succeed");
    assert_eq!(scheduler.state().edge_states[0].event_count, 0, "edge event_count should be cleared after retry");
    assert_eq!(scheduler.state().states[&a].status, NodeStatus::Pending, "retried node should be Pending");
    let ready2 = scheduler.handle_event(a, EventType::Complete, None);
    assert_eq!(ready2.len(), 1, "retried A should re-trigger B");
    assert_eq!(ready2[0], b, "retried A should re-trigger B");
}

#[test]
fn test_already_triggered_edge_does_not_fire_again() {
    let mut scheduler = Scheduler::new(build_fan_in_graph());
    let a = scheduler.graph().node_index("A").expect("A should exist");
    let b = scheduler.graph().node_index("B").expect("B should exist");
    let r1 = scheduler.handle_event(a, EventType::Complete, None);
    assert!(r1.is_empty(), "A alone should not trigger C with All strategy");
    let r2 = scheduler.handle_event(b, EventType::Complete, None);
    assert_eq!(r2.len(), 1, "B completes → C ready");
    let r3 = scheduler.handle_event(b, EventType::Complete, None);
    assert!(r3.is_empty(), "B alone should not trigger C — A hasn't completed this round");
}

#[test]
fn test_enqueue_dequeue() {
    let mut scheduler = Scheduler::new(build_chain_graph());
    let a = scheduler.graph().node_index("A").expect("A should exist");
    let b = scheduler.graph().node_index("B").expect("B should exist");
    assert_eq!(scheduler.dequeue(), None, "queue should start empty");
    scheduler.enqueue(a);
    scheduler.enqueue(b);
    assert_eq!(scheduler.dequeue(), Some(a));
    assert_eq!(scheduler.dequeue(), Some(b));
    assert_eq!(scheduler.dequeue(), None, "queue should be empty after dequeue");
}

#[test]
fn test_enqueue_entries() {
    let mut scheduler = Scheduler::new(build_chain_graph());
    let a = scheduler.graph().node_index("A").expect("A should exist");
    scheduler.enqueue(a);
    assert_eq!(scheduler.dequeue(), Some(a));
    assert_eq!(scheduler.dequeue(), None);
}

#[test]
fn test_is_converged() {
    let mut scheduler = Scheduler::new(build_chain_graph());
    assert!(!scheduler.is_converged(), "graph with pending nodes should not be converged");
    let a = scheduler.graph().node_index("A").expect("A should exist");
    let b = scheduler.graph().node_index("B").expect("B should exist");
    scheduler.state_mut().states.get_mut(&a).unwrap().status = NodeStatus::Completed;
    scheduler.state_mut().states.get_mut(&b).unwrap().status = NodeStatus::Completed;
    assert!(scheduler.is_converged(), "graph with all nodes completed should be converged");
}

#[test]
fn test_not_converged_with_ready_queue() {
    let mut scheduler = Scheduler::new(build_chain_graph());
    let a = scheduler.graph().node_index("A").expect("A should exist");
    scheduler.enqueue(a);
    assert!(!scheduler.is_converged());
}

#[test]
fn test_node_result_is_terminal() {
    assert!(!NodeResult::Unset.is_terminal());
    assert!(NodeResult::Completed.is_terminal());
    assert!(NodeResult::Failed("err".into()).is_terminal());
    assert!(NodeResult::TimedOut.is_terminal());
}

#[test]
fn test_handle_event_sets_node_state() {
    let mut scheduler = Scheduler::new(build_chain_graph());
    let a = scheduler.graph().node_index("A").expect("A should exist");
    let b = scheduler.graph().node_index("B").expect("B should exist");
    let _ready = scheduler.handle_event(a, EventType::Failed, Some("crash"));
    assert_eq!(scheduler.state().states[&a].status, NodeStatus::Failed, "A should be marked as Failed");
    let _ready = scheduler.handle_event(b, EventType::Complete, None);
    assert_eq!(scheduler.state().states[&b].status, NodeStatus::Completed, "B should be marked as Completed");
}

#[test]
fn test_handle_event_timeout() {
    let mut scheduler = Scheduler::new(build_chain_graph());
    let a = scheduler.graph().node_index("A").expect("A should exist");
    let _ready = scheduler.handle_event(a, EventType::Timeout, None);
    assert_eq!(scheduler.state().states[&a].status, NodeStatus::TimedOut, "A should be marked as TimedOut");
}

#[test]
fn test_empty_graph_scheduler() {
    let graph_def = GraphDef::from_components(StableGraph::default(), vec![], vec![], HashMap::new(), HashMap::new(), vec![])
        .expect("empty graph should be valid");
    let mut scheduler = Scheduler::new(graph_def);
    assert_eq!(scheduler.dequeue(), None, "empty graph should have no ready nodes");
    assert!(scheduler.is_converged(), "empty graph should be converged");
    scheduler.enqueue(0);
}

#[test]
fn test_fan_in_all_waits_for_all_upstreams() {
    let mut scheduler = Scheduler::new(build_fan_in_graph());
    let a = scheduler.graph().node_index("A").expect("A exists");
    let b = scheduler.graph().node_index("B").expect("B exists");
    let c = scheduler.graph().node_index("C").expect("C exists");
    let ready = scheduler.handle_event(a, EventType::Complete, None);
    assert!(ready.is_empty(), "All: A alone should NOT trigger C");
    assert!(!scheduler.has_ready(), "no nodes should be ready");
    let ready = scheduler.handle_event(b, EventType::Complete, None);
    assert_eq!(ready.len(), 1, "All: both A and B complete → C ready");
    assert_eq!(ready[0], c, "C should be the ready node");
    let pending = scheduler.state().fan_in_pending.get(&c).copied().unwrap_or(0);
    assert_eq!(pending, 2, "fan_in_pending for C should be reset to 2 for next round");
}

#[test]
fn test_fan_in_all_round_resets() {
    let mut scheduler = Scheduler::new(build_fan_in_graph());
    let a = scheduler.graph().node_index("A").expect("A exists");
    let b = scheduler.graph().node_index("B").expect("B exists");
    scheduler.handle_event(a, EventType::Complete, None);
    scheduler.handle_event(b, EventType::Complete, None);
    assert_eq!(scheduler.dequeue_all().len(), 1, "C should be ready once (round 1)");
    scheduler.handle_event(a, EventType::Complete, None);
    scheduler.handle_event(b, EventType::Complete, None);
    assert_eq!(scheduler.dequeue_all().len(), 1, "C should be ready again (round 2)");
}

#[test]
fn test_fan_out_triggers_multiple_edges() {
    let mut scheduler = Scheduler::new(build_fan_out_graph());
    let a = scheduler.graph().node_index("A").expect("A should exist");
    let ready = scheduler.handle_event(a, EventType::Complete, None);
    assert_eq!(ready.len(), 2, "fan-out A should trigger both B and C");
}

#[test]
fn test_directed_cycle_fires_multiple_rounds() {
    let mut scheduler = Scheduler::new(build_directed_cycle_graph());
    let a = scheduler.graph().node_index("A").expect("A should exist");
    let b = scheduler.graph().node_index("B").expect("B should exist");
    let r1 = scheduler.handle_event(a, EventType::Complete, None);
    assert_eq!(r1.len(), 1, "A→B should fire in round 1");
    assert_eq!(r1[0], b, "should target B");
    let r2 = scheduler.handle_event(b, EventType::Complete, None);
    assert_eq!(r2.len(), 1, "B→A should fire in round 2");
    assert_eq!(r2[0], a, "should target A");
    let r3 = scheduler.handle_event(a, EventType::Complete, None);
    assert_eq!(r3.len(), 1, "A→B should fire again in round 3");
    assert_eq!(r3[0], b, "should target B again");
}

#[test]
fn test_same_edge_fires_on_every_complete() {
    let mut scheduler = Scheduler::new(build_chain_graph());
    let a = scheduler.graph().node_index("A").expect("A should exist");
    let b = scheduler.graph().node_index("B").expect("B should exist");
    for i in 1..=5 {
        let ready = scheduler.handle_event(a, EventType::Complete, None);
        assert_eq!(ready.len(), 1, "event {i}: A→B should fire");
        assert_eq!(ready[0], b, "should trigger B");
    }
}

#[test]
fn test_fan_in_all_two_rounds() {
    let mut scheduler = Scheduler::new(build_fan_in_graph());
    let a = scheduler.graph().node_index("A").expect("A exists");
    let b = scheduler.graph().node_index("B").expect("B exists");
    let c = scheduler.graph().node_index("C").expect("C exists");
    assert!(scheduler.handle_event(a, EventType::Complete, None).is_empty(), "A alone should not trigger C");
    let r1b = scheduler.handle_event(b, EventType::Complete, None);
    assert_eq!(r1b.len(), 1, "both A+B → C ready (round 1)");
    assert_eq!(r1b[0], c, "C should be ready");
    let _ = scheduler.dequeue_all();
    assert!(scheduler.handle_event(a, EventType::Complete, None).is_empty(), "A alone should not trigger C (round 2)");
    let r2b = scheduler.handle_event(b, EventType::Complete, None);
    assert_eq!(r2b.len(), 1, "both A+B → C ready (round 2)");
    assert_eq!(r2b[0], c, "C should be ready again");
}

#[test]
fn skip_marks_every_pending_node() {
    let mut scheduler = Scheduler::new(build_chain_graph());
    scheduler.set_node_status(0, NodeStatus::Completed);
    scheduler.mark_pending_nodes_skipped();
    assert_eq!(scheduler.state().states[&0].status, NodeStatus::Completed);
    assert_eq!(scheduler.state().states[&1].status, NodeStatus::Skipped);
    assert!(scheduler.is_converged());
}

#[test]
fn per_node_counters() {
    let mut scheduler = Scheduler::new(build_chain_graph());
    assert_eq!(scheduler.node_run_count(0), 0);
    scheduler.set_node_run_count(0, 4);
    assert_eq!(scheduler.node_run_count(0), 4);
    assert!(!scheduler.was_last_timed_out(0));
    scheduler.mark_last_timed_out(0);
    assert!(scheduler.was_last_timed_out(0));
    scheduler.add_cumulative_runtime(0, 5);
    scheduler.add_cumulative_runtime(0, 7);
    assert_eq!(scheduler.cumulative_runtime_secs(0), 12);
    assert_eq!(scheduler.node_max_retries(0, 3), 3);
    scheduler.set_node_status(1, NodeStatus::Running);
    assert!(scheduler.is_node_running(1));
    assert_eq!(scheduler.running_count(), 1);
}

#[test]
fn retry_enqueues_the_node_for_re_execution() {
    let mut scheduler = Scheduler::new(build_chain_graph());
    let a = scheduler.graph().node_index("A").expect("A exists");
    assert_eq!(scheduler.dequeue(), None);
    assert!(scheduler.retry_node(a, 3));
    assert_eq!(scheduler.dequeue(), Some(a), "the retried node waits on the ready queue");
    assert_eq!(scheduler.dequeue(), None);
}

#[test]
fn failure_event_records_reason_and_counter_of_emitter_only() {
    let mut scheduler = Scheduler::new(build_chain_graph());
    let a = scheduler.graph().node_index("A").expect("A exists");
    let b = scheduler.graph().node_index("B").expect("B exists");
    let ready = scheduler.handle_event(a, EventType::Failed, Some("crash"));
    assert!(ready.is_empty());
    assert_eq!(scheduler.state().states[&a].status, NodeStatus::Failed);
    assert_eq!(scheduler.state().states[&a].result, NodeResult::Failed("crash".to_string()));
    assert_eq!(scheduler.state().counters[&a].failed, 1);
    assert_eq!(scheduler.state().counters[&a].complete, 0);
    assert_eq!(scheduler.state().states[&b].status, NodeStatus::Pending);
    assert_eq!(scheduler.state().counters[&b].failed, 0);
    scheduler.handle_event(a, EventType::Failed, None);
    assert_eq!(scheduler.state().states[&a].result, NodeResult::Failed("failed".to_string()));
    scheduler.handle_event(a, EventType::Timeout, None);
    assert_eq!(scheduler.state().states[&a].status, NodeStatus::TimedOut);
    assert_eq!(scheduler.state().states[&a].result, NodeResult::TimedOut);
    assert_eq!(scheduler.state().counters[&a].timeout, 1);
}
