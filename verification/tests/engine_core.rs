use nexus_engine::graph::builder::Builder;
use nexus_engine::graph::scheduler::NodeStatus;
use nexus_engine::model::error::ValidationError;
use nexus_engine::model::predecessor::{DataFlowDef, EventType, SchedulingEdgeDef, TriggerExpr};
use nexus_engine::model::provider::ProviderDef;
use nexus_engine::model::workflow::{EngineConfig, NodeDef, RoutePolicyDef, WorkflowDef};
use nexus_engine::nodeshell::types::{NodeOutcome, NodeOutput, SpawnError};
use nexus_engine::runtime::engine_core::{EngineCore, ReadyAction};

fn node(id: &str) -> NodeDef {
    NodeDef {
        id: id.into(),
        providers: vec![ProviderDef::Subprocess { command: "echo".into() }],
        process_timeout_secs: 10,
        returns: vec![],
        max_retries: None,
        route_policy: None,
        scripts_dir: None,
    }
}

fn edge(from: &str, to: &str, trigger: TriggerExpr) -> SchedulingEdgeDef {
    SchedulingEdgeDef { from: from.into(), to: to.into(), trigger, event: EventType::Complete, exit_reason: None, threshold: 1 }
}

fn chain_workflow() -> WorkflowDef {
    WorkflowDef {
        nodes: vec![node("A"), node("B")],
        edges: vec![edge("A", "B", TriggerExpr::All)],
        dataflows: vec![DataFlowDef { from: "A".into(), to: "B".into(), alias: None }],
        scripts_dir: Some("wf/scripts".into()),
    }
}

fn config() -> EngineConfig {
    EngineConfig::new(None, 3600, 3)
}

fn ok_outcome(route: &str, content: &str) -> NodeOutcome {
    NodeOutcome::routed(NodeOutput { route: route.into(), content: content.into() }, 0)
}

#[test]
fn builder_reports_duplicate_ids() {
    let def = WorkflowDef { nodes: vec![node("X"), node("X")], edges: vec![], dataflows: vec![], scripts_dir: None };
    let errs = Builder::build(&def).unwrap_err();
    assert_eq!(errs, vec![ValidationError::DuplicateNodeId { node_id: "X".into() }]);
    assert!(EngineCore::new(&def, config()).is_err(), "duplicate node ID should fail");
}

#[test]
fn builder_reports_unknown_edge_endpoint() {
    let def = WorkflowDef {
        nodes: vec![node("A")],
        edges: vec![edge("A", "Z", TriggerExpr::Any)],
        dataflows: vec![],
        scripts_dir: None,
    };
    let errs = Builder::build(&def).unwrap_err();
    assert_eq!(errs, vec![ValidationError::InvalidPredecessor { node_id: "Z".into(), predecessor_id: "A".into() }]);
}

#[test]
fn builder_assembles_graph() {
    let g = Builder::build(&chain_workflow()).expect("chain builds");
    assert!(g.invariants_hold());
    assert_eq!(g.node_count(), 2);
    assert_eq!(g.edge_count(), 1);
    assert_eq!(g.entry_nodes(), &vec![0usize]);
    assert_eq!(g.node_index("B"), Some(1));
    assert_eq!(g.transfers()[&0].out_edge_indices, vec![0usize]);
    assert!(g.transfers()[&1].out_edge_indices.is_empty());
    assert_eq!(g.node_params(1).unwrap().process_timeout_secs, 10);
}

#[test]
fn empty_workflow_builds_and_converges() {
    let def = WorkflowDef { nodes: vec![], edges: vec![], dataflows: vec![], scripts_dir: None };
    let core = EngineCore::new(&def, config()).expect("empty workflow should be valid");
    assert!(core.is_converged());
    assert!(core.entry_nodes().is_empty());
}

#[test]
fn ready_node_launches_with_context() {
    let mut core = EngineCore::new(&chain_workflow(), config()).expect("valid workflow");
    assert_eq!(core.entry_nodes(), vec![0usize]);
    assert_eq!(core.node_name(1), "B");
    match core.on_node_ready(0) {
        ReadyAction::Launch(plan) => {
            assert_eq!(plan.timeout_secs, 10);
            assert_eq!(plan.context.metadata.run_count, 1);
            assert!(!plan.context.metadata.timed_out);
            assert_eq!(plan.workflow_scripts_dir.as_deref(), Some("wf/scripts"));
            assert_eq!(plan.provider, Some(ProviderDef::Subprocess { command: "echo".into() }));
        },
        other => panic!("expected a launch, got {other:?}"),
    }
    assert!(core.scheduler().is_node_running(0));
    assert!(matches!(core.on_node_ready(0), ReadyAction::AlreadyRunning));
    assert_eq!(core.running_count(), 1);
}

#[test]
fn completion_routes_output_downstream() {
    let mut core = EngineCore::new(&chain_workflow(), config()).expect("valid workflow");
    let _ = core.on_node_ready(0);
    let rec = core.record_outcome(0, ok_outcome("ok", "payload"), Some(2));
    assert_eq!(rec.event, EventType::Complete);
    assert_eq!(rec.ready, vec![1usize]);
    assert_eq!(rec.retry_count, 0);
    assert_eq!(core.scheduler().state().states[&0].status, NodeStatus::Completed);
    assert_eq!(core.scheduler().cumulative_runtime_secs(0), 2);
    match core.on_node_ready(1) {
        ReadyAction::Launch(plan) => {
            assert_eq!(plan.context.inputs, vec![("A".to_string(), "payload".to_string())]);
            assert_eq!(plan.context.upstream[0].1.route, "ok");
        },
        other => panic!("expected a launch, got {other:?}"),
    }
    let rec = core.record_outcome(1, ok_outcome("done", ""), None);
    assert!(rec.ready.is_empty());
    assert!(core.is_converged());
}

#[test]
fn failure_does_not_trigger_complete_edge() {
    let mut core = EngineCore::new(&chain_workflow(), config()).expect("valid workflow");
    let _ = core.on_node_ready(0);
    let o = NodeOutcome::routed(NodeOutput { route: "failed".into(), content: String::new() }, 1);
    let rec = core.record_outcome(0, o, None);
    assert_eq!(rec.event, EventType::Failed);
    assert!(rec.ready.is_empty());
    assert_eq!(core.scheduler().state().states[&0].status, NodeStatus::Failed);
}

#[test]
fn timeout_is_retried_then_recorded() {
    let mut core = EngineCore::new(&chain_workflow(), EngineConfig::new(None, 3600, 1)).expect("valid workflow");
    let _ = core.on_node_ready(0);
    let timed_out: Result<NodeOutcome, SpawnError> =
        Ok(NodeOutcome { output: NodeOutput { route: String::new(), content: String::new() }, exit_code: -9, exit_reason: None });
    assert!(core.retry_decision(0, &timed_out), "first timeout is retried");
    assert_eq!(core.scheduler().state().states[&0].status, NodeStatus::Pending);
    assert!(!core.retry_decision(0, &timed_out), "retries exhausted");
    let completed: Result<NodeOutcome, SpawnError> = Ok(ok_outcome("ok", ""));
    assert!(!core.retry_decision(0, &completed), "a completion is never retried");
    let rec = core.record_outcome(0, timed_out.unwrap(), None);
    assert_eq!(rec.event, EventType::Timeout);
    assert_eq!(rec.retry_count, 1);
    assert!(core.scheduler().was_last_timed_out(0));
}

#[test]
fn max_runs_policy_skips_node() {
    let mut n = node("A");
    n.route_policy = Some(RoutePolicyDef::MaxRuns { max: 2, then_route: "stop".into() });
    let def = WorkflowDef { nodes: vec![n], edges: vec![], dataflows: vec![], scripts_dir: None };
    let mut core = EngineCore::new(&def, config()).expect("valid workflow");
    assert!(matches!(core.on_node_ready(0), ReadyAction::Launch(_)));
    let _ = core.record_outcome(0, ok_outcome("again", ""), None);
    match core.on_node_ready(0) {
        ReadyAction::Skip(o) => {
            assert_eq!(o.output.route, "stop");
            assert_eq!(o.exit_code, 0);
            assert_eq!(o.exit_reason.as_deref(), Some("stop"));
        },
        other => panic!("expected a skip, got {other:?}"),
    }
}

#[test]
fn spawn_failure_stops_a_stuck_run() {
    let mut core = EngineCore::new(&chain_workflow(), config()).expect("valid workflow");
    let _ = core.on_node_ready(0);
    let (ready, stuck) = core.record_spawn_failure(0);
    assert!(ready.is_empty());
    assert!(stuck);
    assert_eq!(core.scheduler().state().states[&0].status, NodeStatus::Failed);
    assert_eq!(core.scheduler().state().states[&1].status, NodeStatus::Skipped);
    assert!(core.is_converged());
}

#[test]
fn watchdog_counts_quiet_periods() {
    let mut core = EngineCore::new(&chain_workflow(), config()).expect("valid workflow");
    assert_eq!(core.watchdog(0), Some(1));
    assert_eq!(core.watchdog(1), Some(2));
    assert_eq!(core.watchdog(2), None);
    assert_eq!(core.scheduler().state().states[&0].status, NodeStatus::Skipped);
    assert!(core.is_converged());
    assert_eq!(core.watchdog(0), None);

    let mut busy = EngineCore::new(&chain_workflow(), config()).expect("valid workflow");
    let _ = busy.on_node_ready(0);
    assert_eq!(busy.watchdog(2), Some(0), "a running node resets the count");
}

#[test]
fn cancel_skips_pending_nodes() {
    let mut core = EngineCore::new(&chain_workflow(), config()).expect("valid workflow");
    let _ = core.on_node_ready(0);
    core.cancel();
    assert_eq!(core.scheduler().state().states[&0].status, NodeStatus::Running);
    assert_eq!(core.scheduler().state().states[&1].status, NodeStatus::Skipped);
    assert!(core.room_for_event(0));
    assert_eq!(core.config().default_node_timeout_secs, 3600);
}

#[test]
fn retried_node_is_queued_again_and_snapshot_shows_state() {
    let mut core = EngineCore::new(&chain_workflow(), EngineConfig::new(None, 3600, 1)).expect("valid workflow");
    let _ = core.on_node_ready(0);
    let timed_out: Result<NodeOutcome, SpawnError> =
        Ok(NodeOutcome { output: NodeOutput { route: String::new(), content: String::new() }, exit_code: -9, exit_reason: None });
    assert!(core.retry_decision(0, &timed_out));
    assert_eq!(core.take_ready(), vec![0usize], "a retry puts the node back on the ready queue");
    assert!(core.take_ready().is_empty(), "taking the queue empties it");
    let snap = core.snapshot(42);
    assert_eq!(snap.elapsed_secs, 42);
    assert_eq!(snap.nodes.len(), 2);
    assert_eq!(snap.nodes[0].node_id, "A");
    assert_eq!(snap.nodes[0].status, NodeStatus::Pending);
    assert_eq!(snap.nodes[0].run_count, 1);
    assert_eq!(snap.nodes[0].retry_count, 1);
    assert_eq!(snap.nodes[1].node_id, "B");
    assert_eq!(snap.nodes[1].run_count, 0);
    assert_eq!(snap.running_count, core.running_count());
}
