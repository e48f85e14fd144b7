use std::collections::{HashMap, VecDeque};

use nexus_engine::graph::edge::{EdgeDef, EdgeState, Strategy};
use nexus_engine::graph::graph_def::{GraphDef, NodeData, NodeParams, NodeTransfer};
use nexus_engine::model::predecessor::EventType;
use petgraph::stable_graph::StableGraph;
use petgraph::Directed;

type Slots = StableGraph<NodeData, (), Directed, u32>;

fn node(id: &str) -> NodeData {
    NodeData {
        id: id.into(),
        providers: vec![],
        process_timeout_secs: 10,
        route_policy: None,
        max_retries: None,
        scripts_dir: None,
    }
}

fn edge(from: usize, to: usize, event_type: EventType, threshold: u64, strategy: Strategy) -> EdgeDef {
    EdgeDef { from, to, event_type, exit_reason: None, threshold, strategy }
}

fn make_valid_graph_data() -> (
    Slots,
    Vec<(String, usize)>,
    Vec<EdgeDef>,
    HashMap<usize, NodeTransfer>,
    HashMap<usize, NodeParams>,
    Vec<usize>,
) {
    let mut graph: Slots = StableGraph::default();
    let a = graph.add_node(node("A")).index();
    let b = graph.add_node(node("B")).index();
    let index = vec![("A".to_string(), a), ("B".to_string(), b)];
    let edges = vec![edge(a, b, EventType::Complete, 1, Strategy::All)];
    let mut transfers = HashMap::new();
    transfers.insert(a, NodeTransfer { from: a, out_edge_indices: vec![0] });
    transfers.insert(b, NodeTransfer { from: b, out_edge_indices: vec![] });
    let params = HashMap::from([
        (a, NodeParams { process_timeout_secs: 10 }),
        (b, NodeParams { process_timeout_secs: 10 }),
    ]);
    let entries = vec![a];
    (graph, index, edges, transfers, params, entries)
}

#[test]
fn test_valid_graph_passes_invariants() {
    let (g, i, e, t, p, en) = make_valid_graph_data();
    let def = GraphDef::from_components(g, i, e, t, p, en).expect("valid graph should pass invariants");
    assert!(def.invariants_hold());
    assert_eq!(def.node_count(), 2);
}

#[test]
fn test_invariant_1_invalid_entry_index() {
    let (mut graph, i, e, t, p, _) = make_valid_graph_data();
    let node_c = graph.add_node(node("C")).index();
    let mut p2 = p.clone();
    p2.insert(node_c, NodeParams { process_timeout_secs: 10 });
    let mut t2 = t.clone();
    t2.insert(node_c, NodeTransfer { from: node_c, out_edge_indices: vec![] });

    let valid_entries = vec![node_c];
    let def = GraphDef::from_components(graph.clone(), i.clone(), e.clone(), t2, p2, valid_entries)
        .expect("valid graph with 3 nodes should pass");
    assert!(def.invariants_hold());

    let invalid_entries = vec![999usize];
    let result = GraphDef::from_components(graph, i, e, t, p, invalid_entries);
    assert!(result.is_err(), "invalid entry index should fail invariants");
}

#[test]
fn test_invariant_3_params_missing_node() {
    let (g, i, e, t, p, en) = make_valid_graph_data();
    let mut missing_params = p;
    missing_params.remove(&en[0]);
    let result = GraphDef::from_components(g, i, e, t, missing_params, en);
    assert!(result.is_err(), "missing params should fail invariant #3");
}

#[test]
fn test_invariant_4_transfers_missing_node() {
    let (g, i, e, t, p, en) = make_valid_graph_data();
    let mut missing_transfers = t;
    missing_transfers.remove(&en[0]);
    let result = GraphDef::from_components(g, i, e, missing_transfers, p, en);
    assert!(result.is_err(), "missing transfers should fail invariant #4");
}

#[test]
fn test_empty_graph_passes_invariants() {
    let def = GraphDef::from_components(StableGraph::default(), vec![], vec![], HashMap::new(), HashMap::new(), vec![])
        .expect("empty graph should pass invariants");
    assert!(def.invariants_hold());
    assert_eq!(def.node_count(), 0);
}

#[test]
fn test_node_lookup() {
    let (g, i, e, t, p, en) = make_valid_graph_data();
    let def = GraphDef::from_components(g, i, e, t, p, en).expect("valid graph should pass invariants");
    let idx = def.node_index("A");
    assert!(idx.is_some(), "A should exist in index");
    let weight = def.node_weight(idx.expect("A should be found"));
    assert!(weight.is_some());
    assert_eq!(weight.expect("weight should exist").id, "A");
    assert_eq!(def.node_index("Z"), None);
    assert!(def.node_weight(7).is_none());
}

#[test]
fn test_invariant_5_edge_not_in_transfer() {
    let (g, i, _e, t, p, en) = make_valid_graph_data();
    let edges = vec![
        edge(0, 1, EventType::Complete, 1, Strategy::All),
        edge(0, 1, EventType::Failed, 1, Strategy::All),
    ];
    let result = GraphDef::from_components(g, i, edges, t, p, en);
    assert!(result.is_err(), "edge not in any transfer should fail invariant #5");
}

#[test]
fn invariant_2_edge_out_of_bounds() {
    let (g, i, _e, t, p, en) = make_valid_graph_data();
    let edges = vec![edge(0, 5, EventType::Complete, 1, Strategy::All)];
    let err = GraphDef::from_components(g, i, edges, t, p, en).unwrap_err();
    assert_eq!(err.message(), "build invariant failure: invariant 2: edge to index out of bounds");
}

#[test]
fn test_accessors() {
    let (g, i, e, t, p, en) = make_valid_graph_data();
    let def = GraphDef::from_components(g, i, e, t, p, en).expect("valid graph should pass invariants");

    assert_eq!(def.node_count(), 2);
    assert_eq!(def.edge_count(), 1);
    assert_eq!(def.entry_nodes().len(), 1);
    assert_eq!(def.entry_nodes()[0], def.node_index("A").expect("A should exist"));

    let all_indices: Vec<usize> = def.node_indices();
    assert_eq!(all_indices.len(), 2);

    let params_a = def.node_params(def.node_index("A").expect("A should exist"));
    assert!(params_a.is_some());
    assert_eq!(params_a.expect("params for A should exist").process_timeout_secs, 10);

    let params_b = def.node_params(def.node_index("B").expect("B should exist"));
    assert!(params_b.is_some());
    assert_eq!(params_b.expect("params for B should exist").process_timeout_secs, 10);

    assert_eq!(def.transfers().len(), 2);
    assert_eq!(def.edges().len(), 1);
    assert_eq!(def.index_entries(), vec![("A".to_string(), 0), ("B".to_string(), 1)]);
}

fn chain_transfer() -> (NodeTransfer, Vec<EdgeDef>, Vec<EdgeState>) {
    let transfer = NodeTransfer { from: 0, out_edge_indices: vec![0] };
    let edges = vec![edge(0, 1, EventType::Complete, 1, Strategy::All)];
    (transfer, edges, vec![EdgeState::default()])
}

#[test]
fn test_transfer_evaluate_chain() {
    let (transfer, edges, mut edge_states) = chain_transfer();
    let mut fan_in_pending: HashMap<usize, usize> = HashMap::new();
    let mut ready_queue: VecDeque<usize> = VecDeque::new();
    let ready = transfer.evaluate(&edges, &mut edge_states, EventType::Complete, None, &mut fan_in_pending, &mut ready_queue);
    assert_eq!(ready.len(), 1, "chain: A Complete should trigger B");
    assert_eq!(ready[0], 1, "chain: should target B");
    assert_eq!(edge_states[0].event_count, 1, "chain: event_count should be 1");
}

#[test]
fn test_transfer_evaluate_event_mismatch() {
    let (transfer, edges, mut edge_states) = chain_transfer();
    let mut fan_in_pending: HashMap<usize, usize> = HashMap::new();
    let mut ready_queue: VecDeque<usize> = VecDeque::new();
    let ready = transfer.evaluate(&edges, &mut edge_states, EventType::Failed, None, &mut fan_in_pending, &mut ready_queue);
    assert!(ready.is_empty(), "Failed event should not trigger Complete edge");
    assert_eq!(edge_states[0].event_count, 0, "no match → no event_count increment");
}

#[test]
fn test_transfer_evaluate_exit_reason_filter() {
    let transfer = NodeTransfer { from: 0, out_edge_indices: vec![0] };
    let edges = vec![EdgeDef {
        from: 0,
        to: 1,
        event_type: EventType::Complete,
        exit_reason: Some("ok".into()),
        threshold: 1,
        strategy: Strategy::All,
    }];
    let mut edge_states = vec![EdgeState::default()];
    let mut fan_in_pending: HashMap<usize, usize> = HashMap::new();
    let mut ready_queue: VecDeque<usize> = VecDeque::new();
    let r1 = transfer.evaluate(&edges, &mut edge_states, EventType::Complete, Some("wrong"), &mut fan_in_pending, &mut ready_queue);
    assert!(r1.is_empty(), "wrong exit_reason should not trigger");

    let mut edge_states2 = vec![EdgeState::default()];
    let mut ready_queue2: VecDeque<usize> = VecDeque::new();
    let r2 = transfer.evaluate(&edges, &mut edge_states2, EventType::Complete, Some("ok"), &mut fan_in_pending, &mut ready_queue2);
    assert_eq!(r2.len(), 1, "correct exit_reason should trigger");
    assert_eq!(r2[0], 1);
}

#[test]
fn test_transfer_evaluate_threshold() {
    let transfer = NodeTransfer { from: 0, out_edge_indices: vec![0] };
    let edges = vec![edge(0, 1, EventType::Complete, 3, Strategy::Any)];
    let mut fan_in_pending: HashMap<usize, usize> = HashMap::new();

    let mut es1 = vec![EdgeState::default()];
    let mut rq1: VecDeque<usize> = VecDeque::new();
    let r1 = transfer.evaluate(&edges, &mut es1, EventType::Complete, None, &mut fan_in_pending, &mut rq1);
    assert!(r1.is_empty(), "2 of 3 should not trigger");
    assert_eq!(es1[0].event_count, 1, "first event counted");

    let mut es2 = vec![EdgeState { event_count: 1 }];
    let mut rq2: VecDeque<usize> = VecDeque::new();
    let r2 = transfer.evaluate(&edges, &mut es2, EventType::Complete, None, &mut fan_in_pending, &mut rq2);
    assert!(r2.is_empty(), "2 of 3 should not trigger");
    assert_eq!(es2[0].event_count, 2);

    let mut es3 = vec![EdgeState { event_count: 2 }];
    let mut rq3: VecDeque<usize> = VecDeque::new();
    let r3 = transfer.evaluate(&edges, &mut es3, EventType::Complete, None, &mut fan_in_pending, &mut rq3);
    assert_eq!(r3.len(), 1, "3rd event should trigger threshold=3");
    assert_eq!(r3[0], 1);
}

#[test]
fn test_transfer_evaluate_fan_in_all() {
    let (a, b, c) = (0usize, 1usize, 2usize);
    let transfer_a = NodeTransfer { from: a, out_edge_indices: vec![0] };
    let transfer_b = NodeTransfer { from: b, out_edge_indices: vec![1] };
    let edges = vec![
        edge(a, c, EventType::Complete, 1, Strategy::All),
        edge(b, c, EventType::Complete, 1, Strategy::All),
    ];
    let mut fan_in_pending: HashMap<usize, usize> = HashMap::new();
    fan_in_pending.insert(c, 2);

    let mut edge_states = vec![EdgeState::default(), EdgeState::default()];
    let mut ready_queue: VecDeque<usize> = VecDeque::new();
    let r1 = transfer_a.evaluate(&edges, &mut edge_states, EventType::Complete, None, &mut fan_in_pending, &mut ready_queue);
    assert!(r1.is_empty(), "A alone should not trigger C with All");
    assert_eq!(fan_in_pending[&c], 1, "fan_in_pending[C] should drop to 1");

    let r2 = transfer_b.evaluate(&edges, &mut edge_states, EventType::Complete, None, &mut fan_in_pending, &mut ready_queue);
    assert_eq!(r2.len(), 1, "both complete → C ready");
    assert_eq!(r2[0], c, "C should be ready");
    assert_eq!(fan_in_pending[&c], 2, "fan_in_pending[C] reset to 2");
    assert_eq!(ready_queue.len(), 1, "C pushed to ready_queue once (B's evaluate)");
}

#[test]
fn test_transfer_evaluate_fan_out() {
    let (a, b, c) = (0usize, 1usize, 2usize);
    let transfer = NodeTransfer { from: a, out_edge_indices: vec![0, 1] };
    let edges = vec![
        edge(a, b, EventType::Complete, 1, Strategy::Any),
        edge(a, c, EventType::Complete, 1, Strategy::Any),
    ];
    let mut edge_states = vec![EdgeState::default(), EdgeState::default()];
    let mut fan_in_pending: HashMap<usize, usize> = HashMap::new();
    let mut ready_queue: VecDeque<usize> = VecDeque::new();
    let ready = transfer.evaluate(&edges, &mut edge_states, EventType::Complete, None, &mut fan_in_pending, &mut ready_queue);
    assert_eq!(ready.len(), 2, "fan-out should trigger both B and C");
    assert!(ready.contains(&b), "B should be in ready set");
    assert!(ready.contains(&c), "C should be in ready set");
    assert_eq!(ready_queue.len(), 2, "ready_queue should have both B and C");
}

#[test]
fn test_transfer_evaluate_cycle_fires_repeatedly() {
    let (a, b) = (0usize, 1usize);
    let transfer_a = NodeTransfer { from: a, out_edge_indices: vec![0] };
    let transfer_b = NodeTransfer { from: b, out_edge_indices: vec![1] };
    let edges = vec![
        edge(a, b, EventType::Complete, 1, Strategy::Any),
        edge(b, a, EventType::Complete, 1, Strategy::Any),
    ];
    let mut edge_states = vec![EdgeState::default(), EdgeState::default()];
    let mut fan_in_pending: HashMap<usize, usize> = HashMap::new();
    let mut ready_queue: VecDeque<usize> = VecDeque::new();

    let r1 = transfer_a.evaluate(&edges, &mut edge_states, EventType::Complete, None, &mut fan_in_pending, &mut ready_queue);
    assert_eq!(r1, vec![b], "A→B round 1");
    let r2 = transfer_b.evaluate(&edges, &mut edge_states, EventType::Complete, None, &mut fan_in_pending, &mut ready_queue);
    assert_eq!(r2, vec![a], "B→A round 2");
    let r3 = transfer_a.evaluate(&edges, &mut edge_states, EventType::Complete, None, &mut fan_in_pending, &mut ready_queue);
    assert_eq!(r3, vec![b], "A→B round 3");
}

#[test]
fn evaluate_touches_only_outgoing_edges_and_extends_queue() {
    let transfer = NodeTransfer { from: 0, out_edge_indices: vec![0, 2] };
    let edges = vec![
        edge(0, 1, EventType::Complete, 1, Strategy::Any),
        edge(1, 2, EventType::Complete, 1, Strategy::Any),
        edge(0, 2, EventType::Failed, 1, Strategy::Any),
    ];
    let mut edge_states = vec![EdgeState::default(), EdgeState { event_count: 5 }, EdgeState::default()];
    let mut fan_in_pending: HashMap<usize, usize> = HashMap::new();
    let mut ready_queue: VecDeque<usize> = VecDeque::from(vec![7usize]);
    let ready = transfer.evaluate(&edges, &mut edge_states, EventType::Complete, None, &mut fan_in_pending, &mut ready_queue);
    assert_eq!(ready, vec![1usize]);
    assert_eq!(edge_states[0].event_count, 1, "matching outgoing edge counts the event");
    assert_eq!(edge_states[1].event_count, 5, "edge of another node is untouched");
    assert_eq!(edge_states[2].event_count, 0, "non-matching outgoing edge is untouched");
    assert_eq!(ready_queue, VecDeque::from(vec![7usize, 1]));
}
