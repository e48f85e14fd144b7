//! The graph scheduler: per-node run-time state, event handling through the
//! nodes' transfer functions, the ready queue, retries and convergence.

use vstd::prelude::*;

use std::collections::{HashMap, VecDeque};

use crate::graph::edge::{EdgeDef, EdgeState, Strategy};
use crate::graph::graph_def::{
    count_all_edges_to, count_all_edges_to_exec, reason_view, transfer_fold, GraphDef, NodeData,
    NodeTransfer,
};
use crate::model::predecessor::EventType;
use crate::text::{copy_string, push_str_chars};

verus! {

broadcast use vstd::std_specs::hash::group_hash_axioms;

/// Status of a single node during execution.
#[derive(Debug, Clone, Copy, PartialEq, Eq, Hash, Structural)]
pub enum NodeStatus {
    /// Not started yet.
    Pending,
    /// Currently executing.
    Running,
    /// Completed successfully.
    Completed,
    /// Failed.
    Failed,
    /// Timed out.
    TimedOut,
    /// Bypassed (pending when the run stopped).
    Skipped,
}

/// The result of executing a single node.
#[derive(Debug, Clone, PartialEq, Eq)]
pub enum NodeResult {
    /// No result yet.
    Unset,
    /// Completed successfully.
    Completed,
    /// Failed with the given reason.
    Failed(String),
    /// Timed out.
    TimedOut,
}

/// Whether a result is terminal (completed, failed or timed out).
pub open spec fn result_is_terminal(r: NodeResult) -> bool {
    r is Completed || r is Failed || r is TimedOut
}

impl NodeResult {
    /// Returns `true` if the node is in a terminal state.
    pub fn is_terminal(&self) -> (b: bool)
        ensures
            b == result_is_terminal(*self),
    {
        match self {
            NodeResult::Completed | NodeResult::Failed(_) | NodeResult::TimedOut => true,
            NodeResult::Unset => false,
        }
    }

    /// An equal copy of this result.
    pub fn copy(&self) -> (r: Self)
        ensures
            r == *self,
    {
        match self {
            NodeResult::Unset => NodeResult::Unset,
            NodeResult::Completed => NodeResult::Completed,
            NodeResult::Failed(s) => NodeResult::Failed(s.clone()),
            NodeResult::TimedOut => NodeResult::TimedOut,
        }
    }
}

/// Run-time state of a single node.
#[derive(Debug, Clone, PartialEq, Eq)]
pub struct NodeState {
    /// Current status.
    pub status: NodeStatus,
    /// Result produced so far.
    pub result: NodeResult,
}

impl Default for NodeState {
    fn default() -> (s: Self)
        ensures
            s.status == NodeStatus::Pending,
            s.result == NodeResult::Unset,
    {
        NodeState { status: NodeStatus::Pending, result: NodeResult::Unset }
    }
}

/// Per-event-type counters of a node.
#[derive(Debug, Clone, Copy, PartialEq, Eq, Default)]
pub struct NodeCounters {
    /// Times the node completed.
    pub complete: u64,
    /// Times the node failed.
    pub failed: u64,
    /// Times the node timed out.
    pub timeout: u64,
}

/// Aggregate run-time state of a graph execution.
#[derive(Debug, Clone)]
pub struct RuntimeState {
    /// Per-node execution states.
    pub states: HashMap<usize, NodeState>,
    /// Per-node event counters.
    pub counters: HashMap<usize, NodeCounters>,
    /// Per-node retry counts.
    pub retry_counts: HashMap<usize, u64>,
    /// Per-node run counts (every `NodeReady` counts a run).
    pub run_counts: HashMap<usize, u64>,
    /// Per-edge threshold counters, parallel to the graph's edges.
    pub edge_states: Vec<EdgeState>,
    /// Nodes ready to execute.
    pub ready_queue: VecDeque<usize>,
    /// Per target: how many of its `All` edges have not fired this round.
    pub fan_in_pending: HashMap<usize, usize>,
    /// Whether the node's most recent (not retried) run timed out.
    pub last_timed_out: HashMap<usize, bool>,
    /// Per-node cumulative execution time in seconds.
    pub cumulative_runtime: HashMap<usize, u64>,
}

/// The pending `All` count of every target of an `All` edge.
pub open spec fn initial_fan_in(edges: Seq<EdgeDef>) -> Map<usize, usize> {
    Map::new(
        |k: usize| count_all_edges_to(edges, k) > 0,
        |k: usize| count_all_edges_to(edges, k) as usize,
    )
}

/// The status a node takes on an event.
pub open spec fn status_of_event(event: EventType) -> NodeStatus {
    match event {
        EventType::Complete => NodeStatus::Completed,
        EventType::Failed => NodeStatus::Failed,
        EventType::Timeout => NodeStatus::TimedOut,
    }
}

/// The counters of a node after an event.
pub open spec fn counters_after_event(c: NodeCounters, event: EventType) -> NodeCounters {
    match event {
        EventType::Complete => NodeCounters { complete: (c.complete + 1) as u64, ..c },
        EventType::Failed => NodeCounters { failed: (c.failed + 1) as u64, ..c },
        EventType::Timeout => NodeCounters { timeout: (c.timeout + 1) as u64, ..c },
    }
}

/// Whether a node status is terminal for convergence.
pub open spec fn status_is_settled(s: NodeStatus) -> bool {
    s == NodeStatus::Completed || s == NodeStatus::Failed || s == NodeStatus::TimedOut
        || s == NodeStatus::Skipped
}

/// The state of a scheduler that has not run anything: every node
/// `Pending` with no result, zero counters, retry and run counts, no
/// recorded timeout or run time, one zero counter per edge, an empty ready
/// queue, and for every target of `All` edges the number of those edges as
/// its pending count.
pub open spec fn fresh_state(st: RuntimeState, graph: GraphDef) -> bool {
    &&& st.states@ == Map::new(
        |k: usize| k < graph.spec_node_count(),
        |k: usize| NodeState { status: NodeStatus::Pending, result: NodeResult::Unset },
    )
    &&& st.counters@ == Map::new(
        |k: usize| k < graph.spec_node_count(),
        |k: usize| NodeCounters { complete: 0, failed: 0, timeout: 0 },
    )
    &&& st.retry_counts@ == Map::new(|k: usize| k < graph.spec_node_count(), |k: usize| 0u64)
    &&& st.run_counts@ == Map::new(|k: usize| k < graph.spec_node_count(), |k: usize| 0u64)
    &&& st.last_timed_out@ == Map::new(|k: usize| k < graph.spec_node_count(), |k: usize| false)
    &&& st.cumulative_runtime@ == Map::new(|k: usize| k < graph.spec_node_count(), |k: usize| 0u64)
    &&& st.edge_states@ == Seq::new(graph.spec_edges().len(), |i: int| EdgeState { event_count: 0 })
    &&& st.ready_queue@ == Seq::<usize>::empty()
    &&& st.fan_in_pending@ == initial_fan_in(graph.spec_edges())
}

/// The graph scheduler: nodes emit events (complete, failed, timeout);
/// events run through the emitting node's transfer function, and targets
/// whose edges fire are put on the ready queue.
#[derive(Debug)]
pub struct Scheduler {
    graph: GraphDef,
    state: RuntimeState,
}

impl Scheduler {
    /// The static graph definition.
    pub closed spec fn spec_graph(&self) -> GraphDef {
        self.graph
    }

    /// The run-time state.
    pub closed spec fn spec_state(&self) -> RuntimeState {
        self.state
    }

    /// The node's outgoing edge indices are all valid edge indices, and the
    /// edge counters are parallel to the edges.
    pub open spec fn edges_consistent(&self) -> bool {
        &&& self.spec_state().edge_states@.len() == self.spec_graph().spec_edges().len()
        &&& forall|n: usize, k: int|
            #![trigger self.spec_graph().spec_transfers()[n].out_edge_indices@[k]]
            self.spec_graph().spec_transfers().contains_key(n) && 0 <= k
                < self.spec_graph().spec_transfers()[n].out_edge_indices@.len()
                ==> self.spec_graph().spec_transfers()[n].out_edge_indices@[k]
                < self.spec_graph().spec_edges().len()
    }

    /// Create a scheduler for a graph: every node `Pending` with no result,
    /// zero counters, retry and run counts, no recorded timeout or run time,
    /// one zero counter per edge, an empty ready queue, and for every target
    /// of `All` edges the number of those edges as its pending count.
    pub fn new(graph: GraphDef) -> (s: Self)
        ensures
            s.spec_graph() == graph,
            fresh_state(s.spec_state(), graph),
    {
        let n = graph.node_count();
        let mut states: HashMap<usize, NodeState> = HashMap::new();
        let mut counters: HashMap<usize, NodeCounters> = HashMap::new();
        let mut retry_counts: HashMap<usize, u64> = HashMap::new();
        let mut run_counts: HashMap<usize, u64> = HashMap::new();
        let mut last_timed_out: HashMap<usize, bool> = HashMap::new();
        let mut cumulative_runtime: HashMap<usize, u64> = HashMap::new();
        for idx in 0..n
            invariant
                states@ == Map::new(|k: usize| k < idx, |k: usize| NodeState { status: NodeStatus::Pending, result: NodeResult::Unset }),
                counters@ == Map::new(|k: usize| k < idx, |k: usize| NodeCounters { complete: 0, failed: 0, timeout: 0 }),
                retry_counts@ == Map::new(|k: usize| k < idx, |k: usize| 0u64),
                run_counts@ == Map::new(|k: usize| k < idx, |k: usize| 0u64),
                last_timed_out@ == Map::new(|k: usize| k < idx, |k: usize| false),
                cumulative_runtime@ == Map::new(|k: usize| k < idx, |k: usize| 0u64),
        {
            states.insert(idx, NodeState { status: NodeStatus::Pending, result: NodeResult::Unset });
            counters.insert(idx, NodeCounters { complete: 0, failed: 0, timeout: 0 });
            retry_counts.insert(idx, 0);
            run_counts.insert(idx, 0);
            last_timed_out.insert(idx, false);
            cumulative_runtime.insert(idx, 0);
            proof {
                assert(states@ =~= Map::new(|k: usize| k < idx + 1, |k: usize| NodeState { status: NodeStatus::Pending, result: NodeResult::Unset }));
                assert(counters@ =~= Map::new(|k: usize| k < idx + 1, |k: usize| NodeCounters { complete: 0, failed: 0, timeout: 0 }));
                assert(retry_counts@ =~= Map::new(|k: usize| k < idx + 1, |k: usize| 0u64));
                assert(run_counts@ =~= Map::new(|k: usize| k < idx + 1, |k: usize| 0u64));
                assert(last_timed_out@ =~= Map::new(|k: usize| k < idx + 1, |k: usize| false));
                assert(cumulative_runtime@ =~= Map::new(|k: usize| k < idx + 1, |k: usize| 0u64));
            }
        }
        let m = graph.edge_count();
        let mut edge_states: Vec<EdgeState> = Vec::new();
        for i in 0..m
            invariant
                edge_states@ == Seq::new(i as nat, |j: int| EdgeState { event_count: 0 }),
        {
            edge_states.push(EdgeState { event_count: 0 });
            proof {
                assert(edge_states@ =~= Seq::new((i + 1) as nat, |j: int| EdgeState { event_count: 0 }));
            }
        }
        let edges = graph.edges();
        let mut fan_in_pending: HashMap<usize, usize> = HashMap::new();
        for i in 0..edges.len()
            invariant
                fan_in_pending@ == initial_fan_in(edges@.take(i as int)),
                edges@ == graph.spec_edges(),
        {
            let edge = &edges[i];
            proof {
                assert(edges@.take(i + 1).drop_last() == edges@.take(i as int));
                lemma_count_all_edges_le(edges@.take(i as int), edge.to);
            }
            if edge.strategy == Strategy::All {
                let to = edge.to;
                let cur: usize = match fan_in_pending.get(&to) {
                    Some(p) => *p,
                    None => 0,
                };
                fan_in_pending.insert(to, cur + 1);
            }
            proof {
                assert(fan_in_pending@ =~= initial_fan_in(edges@.take(i + 1)));
            }
        }
        proof {
            assert(edges@.take(edges@.len() as int) == edges@);
        }
        Scheduler {
            graph,
            state: RuntimeState {
                states,
                counters,
                retry_counts,
                run_counts,
                edge_states,
                ready_queue: VecDeque::new(),
                fan_in_pending,
                last_timed_out,
                cumulative_runtime,
            },
        }
    }

    /// Record an event in the emitting node's status, result and counters.
    fn apply_event_to_node_state(&mut self, node: usize, event: EventType, exit_reason: Option<&str>)
        requires
            old(self).spec_state().counters@.contains_key(node) ==> counters_below_max(
                old(self).spec_state().counters@[node],
            ),
        ensures
            final(self).spec_graph() == old(self).spec_graph(),
            bookkeeping(old(self).spec_state(), final(self).spec_state(), node, event, reason_view(exit_reason)),
            final(self).spec_state().edge_states == old(self).spec_state().edge_states,
            final(self).spec_state().ready_queue == old(self).spec_state().ready_queue,
            final(self).spec_state().fan_in_pending == old(self).spec_state().fan_in_pending,
            same_run_bookkeeping(old(self).spec_state(), final(self).spec_state()),
    {
        match self.state.states.get(&node) {
            Some(ns) => {
                let new_state = match event {
                    EventType::Complete => NodeState {
                        status: NodeStatus::Completed,
                        result: match &ns.result {
                            NodeResult::Unset => NodeResult::Completed,
                            other => other.copy(),
                        },
                    },
                    EventType::Failed => {
                        let mut text = String::new();
                        match exit_reason {
                            Some(r) => push_str_chars(&mut text, r),
                            None => push_str_chars(&mut text, "failed"),
                        }
                        proof {
                            assert(Seq::<char>::empty() + "failed"@ == "failed"@);
                            if exit_reason is Some {
                                assert(Seq::<char>::empty() + exit_reason->0@ == exit_reason->0@);
                            }
                        }
                        NodeState { status: NodeStatus::Failed, result: NodeResult::Failed(text) }
                    },
                    EventType::Timeout => NodeState { status: NodeStatus::TimedOut, result: NodeResult::TimedOut },
                };
                let ghost dom0 = self.state.states@.dom();
                self.state.states.insert(node, new_state);
                assert(self.state.states@.dom() =~= dom0);
            },
            None => {},
        }
        match self.state.counters.get(&node) {
            Some(c) => {
                let c2 = match event {
                    EventType::Complete => NodeCounters { complete: c.complete + 1, ..*c },
                    EventType::Failed => NodeCounters { failed: c.failed + 1, ..*c },
                    EventType::Timeout => NodeCounters { timeout: c.timeout + 1, ..*c },
                };
                self.state.counters.insert(node, c2);
            },
            None => {},
        }
    }

    /// Handle an event emitted by `node`: record it in the node's status,
    /// result and counters, then run the node's transfer function f_v
    /// ([`NodeTransfer::evaluate`]), which enqueues and returns the targets
    /// whose edges fire.  A node without a transfer triggers nothing.
    pub fn handle_event(&mut self, node: usize, event: EventType, exit_reason: Option<&str>) -> (ready: Vec<usize>)
        requires
            old(self).edges_consistent(),
            old(self).spec_state().counters@.contains_key(node) ==> counters_below_max(
                old(self).spec_state().counters@[node],
            ),
            old(self).spec_graph().spec_transfers().contains_key(node) ==> room_for_transfer(
                old(self).spec_state().edge_states@,
                old(self).spec_graph().spec_transfers()[node].out_edge_indices@,
            ),
        ensures
            final(self).spec_graph() == old(self).spec_graph(),
            final(self).edges_consistent(),
            event_handled(old(self).spec_state(), final(self).spec_state(), old(self).spec_graph(), node, event, reason_view(exit_reason), ready@),
    {
        self.apply_event_to_node_state(node, event, exit_reason);
        match self.graph.transfers().get(&node) {
            None => Vec::new(),
            Some(transfer) => {
                proof {
                    assert forall|k: int| 0 <= k < transfer.out_edge_indices@.len() implies #[trigger] transfer.out_edge_indices@[k]
                        < self.graph.spec_edges().len() by {
                        assert(self.spec_graph().spec_transfers()[node].out_edge_indices@[k] < self.spec_graph().spec_edges().len());
                    }
                }
                let ghost es0 = self.state.edge_states@;
                let ghost fp0 = self.state.fan_in_pending@;
                let ghost rq0 = self.state.ready_queue@;
                let r = transfer.evaluate(
                    self.graph.edges(),
                    &mut self.state.edge_states,
                    event,
                    exit_reason,
                    &mut self.state.fan_in_pending,
                    &mut self.state.ready_queue,
                );
                proof {
                    crate::graph::graph_def::lemma_count_growth(
                        self.graph.spec_edges(),
                        transfer.out_edge_indices@,
                        event,
                        reason_view(exit_reason),
                        (es0, fp0, rq0, Seq::empty()),
                        0,
                    );
                }
                r
            },
        }
    }
}

impl Scheduler {
    /// Dequeue the next node ready for execution (None when the queue is empty).
    pub fn dequeue(&mut self) -> (r: Option<usize>)
        ensures
            final(self).spec_graph() == old(self).spec_graph(),
            match r {
                Some(x) => old(self).spec_state().ready_queue@.len() > 0
                    && x == old(self).spec_state().ready_queue@[0]
                    && final(self).spec_state().ready_queue@ == old(self).spec_state().ready_queue@.drop_first(),
                None => old(self).spec_state().ready_queue@.len() == 0
                    && final(self).spec_state().ready_queue@ == old(self).spec_state().ready_queue@,
            },
            final(self).spec_state() == (RuntimeState { ready_queue: final(self).spec_state().ready_queue, ..old(self).spec_state() }),
    {
        let r = self.state.ready_queue.pop_front();
        proof {
            if r is Some {
                assert(self.state.ready_queue@ =~= old(self).spec_state().ready_queue@.drop_first());
            }
        }
        r
    }

    /// Drain every ready node from the queue, in queue order.
    pub fn dequeue_all(&mut self) -> (v: Vec<usize>)
        ensures
            final(self).spec_graph() == old(self).spec_graph(),
            v@ == old(self).spec_state().ready_queue@,
            final(self).spec_state().ready_queue@ == Seq::<usize>::empty(),
            final(self).spec_state() == (RuntimeState { ready_queue: final(self).spec_state().ready_queue, ..old(self).spec_state() }),
    {
        let mut v: Vec<usize> = Vec::new();
        let ghost q0 = self.state.ready_queue@;
        loop
            invariant
                v@ + self.state.ready_queue@ == q0,
                self.graph == old(self).spec_graph(),
                self.state == (RuntimeState { ready_queue: self.state.ready_queue, ..old(self).spec_state() }),
                q0 == old(self).spec_state().ready_queue@,
            decreases self.state.ready_queue@.len(),
        {
            match self.state.ready_queue.pop_front() {
                Some(x) => {
                    proof {
                        assert(v@.push(x) + self.state.ready_queue@ =~= q0);
                    }
                    v.push(x);
                },
                None => {
                    assert(v@ =~= q0);
                    return v;
                },
            }
        }
    }

    /// Whether the ready queue is non-empty.
    pub fn has_ready(&self) -> (b: bool)
        ensures
            b == (self.spec_state().ready_queue@.len() > 0),
    {
        self.state.ready_queue.len() > 0
    }

    /// Put a node on the ready queue (its run count is not touched).
    pub fn enqueue(&mut self, node: usize)
        ensures
            final(self).spec_graph() == old(self).spec_graph(),
            final(self).spec_state().ready_queue@ == old(self).spec_state().ready_queue@.push(node),
            final(self).spec_state() == (RuntimeState { ready_queue: final(self).spec_state().ready_queue, ..old(self).spec_state() }),
    {
        self.state.ready_queue.push_back(node);
    }

    /// Retry a node: when it has a retry count below `max_retries`, count
    /// the retry, reset its state to `Pending` with no result, reset the
    /// counters of its outgoing edges, enqueue it for re-execution, and
    /// return true; otherwise change nothing and return false.
    /// Pending `All` counts are not restored.
    pub fn retry_node(&mut self, node: usize, max_retries: u64) -> (b: bool)
        requires
            old(self).edges_consistent(),
        ensures
            final(self).spec_graph() == old(self).spec_graph(),
            final(self).edges_consistent(),
            b == (old(self).spec_state().retry_counts@.contains_key(node)
                && old(self).spec_state().retry_counts@[node] < max_retries),
            !b ==> final(self).spec_state() == old(self).spec_state(),
            b ==> retried(old(self).spec_state(), final(self).spec_state(), old(self).spec_graph(), node),
    {
        let count = match self.state.retry_counts.get(&node) {
            Some(c) => *c,
            None => return false,
        };
        if count >= max_retries {
            return false;
        }
        self.state.retry_counts.insert(node, count + 1);
        if self.state.states.contains_key(&node) {
            self.state.states.insert(node, NodeState { status: NodeStatus::Pending, result: NodeResult::Unset });
        }
        match self.graph.transfers().get(&node) {
            Some(transfer) => {
                let ghost es0 = self.state.edge_states@;
                let ghost stx = self.state;
                let mut k: usize = 0;
                while k < transfer.out_edge_indices.len()
                    invariant
                        k <= transfer.out_edge_indices@.len(),
                        self.graph == old(self).spec_graph(),
                        self.graph.spec_transfers().contains_key(node),
                        *transfer == self.graph.spec_transfers()[node],
                        self.state == (RuntimeState { edge_states: self.state.edge_states, ..stx }),
                        self.state.edge_states@.len() == es0.len(),
                        es0.len() == self.graph.spec_edges().len(),
                        forall|e: int| 0 <= e < es0.len() ==> #[trigger] self.state.edge_states@[e] == (
                            if transfer.out_edge_indices@.take(k as int).contains(e as usize) {
                                EdgeState { event_count: 0 }
                            } else {
                                es0[e]
                            }),
                    decreases transfer.out_edge_indices@.len() - k,
                {
                    let e = transfer.out_edge_indices[k];
                    proof {
                        assert(transfer.out_edge_indices@.take(k + 1) == transfer.out_edge_indices@.take(k as int).push(e));
                        crate::text::lemma_take_push_contains(transfer.out_edge_indices@, k as int);
                    }
                    if e < self.state.edge_states.len() {
                        self.state.edge_states.set(e, EdgeState { event_count: 0 });
                    }
                    k = k + 1;
                }
                proof {
                    assert(transfer.out_edge_indices@.take(k as int) == transfer.out_edge_indices@);
                }
            },
            None => {},
        }
        self.state.ready_queue.push_back(node);
        true
    }

    /// Mark every node that is still `Pending` as `Skipped`.
    pub fn mark_pending_nodes_skipped(&mut self)
        ensures
            final(self).spec_graph() == old(self).spec_graph(),
            final(self).spec_state().states@.dom() == old(self).spec_state().states@.dom(),
            forall|k: usize| #[trigger] old(self).spec_state().states@.contains_key(k) ==> final(self).spec_state().states@[k] == (
                if old(self).spec_state().states@[k].status == NodeStatus::Pending {
                    NodeState { status: NodeStatus::Skipped, ..old(self).spec_state().states@[k] }
                } else {
                    old(self).spec_state().states@[k]
                }),
            final(self).spec_state() == (RuntimeState { states: final(self).spec_state().states, ..old(self).spec_state() }),
    {
        let mut keys: Vec<usize> = Vec::new();
        for k in it: self.state.states.keys()
            invariant
                keys@ == it.seq().take(it.index() as int).unref(),
                it.seq().unref().to_set() == self.state.states@.dom(),
                it.seq().unref().no_duplicates(),
                keys@.len() == it.seq().len() ==> keys@.to_set() == self.state.states@.dom(),
        {
            keys.push(*k);
            proof {
                assert(it.seq().take(it.seq().len() as int) =~= it.seq());
                assert(keys@ =~= it.seq().take(it.index() + 1).unref());
            }
        }
        let ghost st0 = self.state.states@;
        let mut i: usize = 0;
        while i < keys.len()
            invariant
                i <= keys@.len(),
                keys@.to_set() == st0.dom(),
                self.graph == old(self).spec_graph(),
                st0 == old(self).spec_state().states@,
                self.state == (RuntimeState { states: self.state.states, ..old(self).spec_state() }),
                self.state.states@.dom() == st0.dom(),
                forall|k: usize| #[trigger] st0.contains_key(k) ==> self.state.states@[k] == (
                    if keys@.take(i as int).contains(k) && st0[k].status == NodeStatus::Pending {
                        NodeState { status: NodeStatus::Skipped, ..st0[k] }
                    } else {
                        st0[k]
                    }),
            decreases keys@.len() - i,
        {
            let k = keys[i];
            proof {
                assert(keys@.take(i + 1) == keys@.take(i as int).push(k));
                assert(keys@.to_set().contains(k));
                crate::text::lemma_take_push_contains(keys@, i as int);
            }
            let next = match self.state.states.get(&k) {
                Some(ns) => if ns.status == NodeStatus::Pending {
                    Some(NodeState { status: NodeStatus::Skipped, result: ns.result.copy() })
                } else {
                    None
                },
                None => None,
            };
            match next {
                Some(ns) => {
                    let ghost dom0 = self.state.states@.dom();
                    self.state.states.insert(k, ns);
                    assert(self.state.states@.dom() =~= dom0);
                },
                None => {},
            }
            i = i + 1;
        }
        proof {
            assert(keys@.take(keys@.len() as int) == keys@);
            assert forall|k: usize| #[trigger] st0.contains_key(k) implies keys@.contains(k) by {
                assert(keys@.to_set().contains(k));
            }
        }
    }
}

/// The nodes currently running.
pub open spec fn running_nodes(states: Map<usize, NodeState>) -> Set<usize> {
    states.dom().filter(|k: usize| states[k].status == NodeStatus::Running)
}

impl Scheduler {
    /// The keys of the node-state map, each once.
    fn state_keys(&self) -> (v: Vec<usize>)
        ensures
            v@.to_set() == self.spec_state().states@.dom(),
            v@.no_duplicates(),
    {
        let mut keys: Vec<usize> = Vec::new();
        for k in it: self.state.states.keys()
            invariant
                keys@ == it.seq().take(it.index() as int).unref(),
                it.seq().unref().to_set() == self.state.states@.dom(),
                it.seq().unref().no_duplicates(),
                keys@.len() == it.seq().len() ==> keys@.to_set() == self.state.states@.dom()
                    && keys@.no_duplicates(),
        {
            keys.push(*k);
            proof {
                assert(it.seq().take(it.seq().len() as int) =~= it.seq());
                assert(keys@ =~= it.seq().take(it.index() + 1).unref());
            }
        }
        keys
    }

    /// Whether the execution has converged: the ready queue is empty and
    /// every node is completed, failed, timed out or skipped.
    pub fn is_converged(&self) -> (b: bool)
        ensures
            b == (self.spec_state().ready_queue@.len() == 0 && forall|k: usize|
                #[trigger] self.spec_state().states@.contains_key(k) ==> status_is_settled(
                    self.spec_state().states@[k].status,
                )),
    {
        if self.state.ready_queue.len() > 0 {
            return false;
        }
        let keys = self.state_keys();
        let mut i: usize = 0;
        while i < keys.len()
            invariant
                i <= keys@.len(),
                keys@.to_set() == self.state.states@.dom(),
                forall|j: int| 0 <= j < i ==> status_is_settled(#[trigger] self.state.states@[keys@[j]].status),
            decreases keys@.len() - i,
        {
            let k = keys[i];
            proof {
                assert(keys@.to_set().contains(k));
            }
            match self.state.states.get(&k) {
                Some(ns) => {
                    match ns.status {
                        NodeStatus::Pending | NodeStatus::Running => return false,
                        _ => {},
                    }
                },
                None => {},
            }
            i = i + 1;
        }
        proof {
            assert forall|k: usize| #[trigger] self.state.states@.contains_key(k) implies status_is_settled(self.state.states@[k].status) by {
                assert(keys@.to_set().contains(k));
                let j = choose|j: int| 0 <= j < keys@.len() && keys@[j] == k;
            }
        }
        true
    }

    /// The number of nodes currently running.
    pub fn running_count(&self) -> (n: usize)
        ensures
            n == running_nodes(self.spec_state().states@).len(),
    {
        let keys = self.state_keys();
        let ghost states = self.state.states@;
        let ghost p = |k: usize| states[k].status == NodeStatus::Running;
        let mut n: usize = 0;
        let mut i: usize = 0;
        proof {
            assert(keys@.take(0).to_set().filter(p) =~= Set::<usize>::empty());
        }
        while i < keys.len()
            invariant
                i <= keys@.len(),
                keys@.to_set() == states.dom(),
                keys@.no_duplicates(),
                states == self.state.states@,
                p == (|k: usize| states[k].status == NodeStatus::Running),
                n == keys@.take(i as int).to_set().filter(p).len(),
                n <= i,
            decreases keys@.len() - i,
        {
            let k = keys[i];
            proof {
                assert(keys@.take(i + 1).to_set() =~= keys@.take(i as int).to_set().insert(k)) by {
                    crate::text::lemma_take_push_contains(keys@, i as int);
                }
                assert(!keys@.take(i as int).to_set().contains(k)) by {
                    if keys@.take(i as int).contains(k) {
                        let j = choose|j: int| 0 <= j < i && #[trigger] keys@.take(i as int)[j] == k;
                        assert(keys@[j] == keys@[i as int]);
                    }
                }
                assert(keys@.to_set().contains(k));
                if p(k) {
                    assert(keys@.take(i + 1).to_set().filter(p) =~= keys@.take(i as int).to_set().filter(p).insert(k));
                } else {
                    assert(keys@.take(i + 1).to_set().filter(p) =~= keys@.take(i as int).to_set().filter(p));
                }
            }
            let running = match self.state.states.get(&k) {
                Some(ns) => ns.status == NodeStatus::Running,
                None => false,
            };
            if running {
                n = n + 1;
            }
            i = i + 1;
        }
        proof {
            assert(keys@.take(keys@.len() as int) == keys@);
            assert(keys@.to_set().filter(p) =~= running_nodes(states));
        }
        n
    }

    /// The static graph definition.
    pub fn graph(&self) -> (g: &GraphDef)
        ensures
            *g == self.spec_graph(),
    {
        &self.graph
    }

    /// The run-time state.
    pub fn state(&self) -> (s: &RuntimeState)
        ensures
            *s == self.spec_state(),
    {
        &self.state
    }

    /// Mutable access to the run-time state.
    pub fn state_mut(&mut self) -> (s: &mut RuntimeState)
        ensures
            *s == old(self).spec_state(),
            final(self).spec_graph() == old(self).spec_graph(),
            final(self).spec_state() == *final(s),
    {
        &mut self.state
    }

    /// Whether an event of `node` can be counted: its counters, and the
    /// counters of its outgoing edges, have room for one more event.
    pub fn room_for_event(&self, node: usize) -> (b: bool)
        requires
            self.edges_consistent(),
        ensures
            b == ((self.spec_state().counters@.contains_key(node) ==> counters_below_max(self.spec_state().counters@[node]))
                && (self.spec_graph().spec_transfers().contains_key(node) ==> room_for_transfer(
                    self.spec_state().edge_states@,
                    self.spec_graph().spec_transfers()[node].out_edge_indices@,
                ))),
    {
        match self.state.counters.get(&node) {
            Some(c) => {
                if !(c.complete < u64::MAX && c.failed < u64::MAX && c.timeout < u64::MAX) {
                    return false;
                }
            },
            None => {},
        }
        match self.graph.transfers().get(&node) {
            Some(t) => {
                let n = t.out_edge_indices.len();
                let mut k: usize = 0;
                while k < n
                    invariant
                        k <= n == t.out_edge_indices@.len(),
                        self.edges_consistent(),
                        self.spec_graph().spec_transfers().contains_key(node),
                        *t == self.spec_graph().spec_transfers()[node],
                        forall|j: int| 0 <= j < k ==> self.spec_state().edge_states@[#[trigger] t.out_edge_indices@[j] as int].event_count + n <= u64::MAX,
                    decreases n - k,
                {
                    let e = t.out_edge_indices[k];
                    assert(self.spec_graph().spec_transfers()[node].out_edge_indices@[k as int] < self.spec_graph().spec_edges().len());
                    let c = self.state.edge_states[e].event_count;
                    if c > u64::MAX - (n as u64) {
                        return false;
                    }
                    k = k + 1;
                }
                true
            },
            None => true,
        }
    }

    /// How many times `node` has run (0 when unknown).
    pub fn node_run_count(&self, node: usize) -> (c: u64)
        ensures
            c == (if self.spec_state().run_counts@.contains_key(node) { self.spec_state().run_counts@[node] } else { 0 }),
    {
        match self.state.run_counts.get(&node) {
            Some(c) => *c,
            None => 0,
        }
    }

    /// Record the run count of `node`.
    pub fn set_node_run_count(&mut self, node: usize, count: u64)
        ensures
            final(self).spec_graph() == old(self).spec_graph(),
            final(self).spec_state() == (RuntimeState { run_counts: final(self).spec_state().run_counts, ..old(self).spec_state() }),
            final(self).spec_state().run_counts@ == old(self).spec_state().run_counts@.insert(node, count),
    {
        self.state.run_counts.insert(node, count);
    }

    /// How many times `node` has been retried (0 when unknown).
    pub fn node_retry_count(&self, node: usize) -> (c: u64)
        ensures
            c == (if self.spec_state().retry_counts@.contains_key(node) { self.spec_state().retry_counts@[node] } else { 0 }),
    {
        match self.state.retry_counts.get(&node) {
            Some(c) => *c,
            None => 0,
        }
    }

    /// Whether `node` is currently running.
    pub fn is_node_running(&self, node: usize) -> (b: bool)
        ensures
            b == (self.spec_state().states@.contains_key(node) && self.spec_state().states@[node].status == NodeStatus::Running),
    {
        match self.state.states.get(&node) {
            Some(ns) => ns.status == NodeStatus::Running,
            None => false,
        }
    }

    /// Set the status of a known node (its result is kept).
    pub fn set_node_status(&mut self, node: usize, status: NodeStatus)
        ensures
            final(self).spec_graph() == old(self).spec_graph(),
            final(self).spec_state() == (RuntimeState { states: final(self).spec_state().states, ..old(self).spec_state() }),
            final(self).spec_state().states@ == (if old(self).spec_state().states@.contains_key(node) {
                old(self).spec_state().states@.insert(node, NodeState { status, ..old(self).spec_state().states@[node] })
            } else {
                old(self).spec_state().states@
            }),
    {
        let next = match self.state.states.get(&node) {
            Some(ns) => Some(NodeState { status, result: ns.result.copy() }),
            None => None,
        };
        match next {
            Some(ns) => {
                self.state.states.insert(node, ns);
            },
            None => {},
        }
    }

    /// The retry limit of `node`: its own, else `default`.
    pub fn node_max_retries(&self, node: usize, default: u64) -> (m: u64)
        ensures
            m == (match self.spec_graph().spec_node_weight(node) {
                Some(nd) => match nd.max_retries {
                    Some(x) => x,
                    None => default,
                },
                None => default,
            }),
    {
        match self.graph.node_weight(node) {
            Some(nd) => match nd.max_retries {
                Some(m) => m,
                None => default,
            },
            None => default,
        }
    }

    /// Whether the last (not retried) run of `node` timed out.
    pub fn was_last_timed_out(&self, node: usize) -> (b: bool)
        ensures
            b == (self.spec_state().last_timed_out@.contains_key(node) && self.spec_state().last_timed_out@[node]),
    {
        match self.state.last_timed_out.get(&node) {
            Some(b) => *b,
            None => false,
        }
    }

    /// Record that the last run of `node` timed out.
    pub fn mark_last_timed_out(&mut self, node: usize)
        ensures
            final(self).spec_graph() == old(self).spec_graph(),
            final(self).spec_state() == (RuntimeState { last_timed_out: final(self).spec_state().last_timed_out, ..old(self).spec_state() }),
            final(self).spec_state().last_timed_out@ == old(self).spec_state().last_timed_out@.insert(node, true),
    {
        self.state.last_timed_out.insert(node, true);
    }

    /// The cumulative execution time of `node`, in seconds (0 when unknown).
    pub fn cumulative_runtime_secs(&self, node: usize) -> (s: u64)
        ensures
            s == (if self.spec_state().cumulative_runtime@.contains_key(node) { self.spec_state().cumulative_runtime@[node] } else { 0 }),
    {
        match self.state.cumulative_runtime.get(&node) {
            Some(s) => *s,
            None => 0,
        }
    }

    /// Add `secs` to the cumulative execution time of `node` (saturating).
    pub fn add_cumulative_runtime(&mut self, node: usize, secs: u64)
        ensures
            final(self).spec_graph() == old(self).spec_graph(),
            final(self).spec_state() == (RuntimeState { cumulative_runtime: final(self).spec_state().cumulative_runtime, ..old(self).spec_state() }),
            final(self).spec_state().cumulative_runtime@ == old(self).spec_state().cumulative_runtime@.insert(
                node,
                (if old(self).spec_state().cumulative_runtime@.contains_key(node) {
                    if old(self).spec_state().cumulative_runtime@[node] + secs > u64::MAX { u64::MAX as int }
                    else { old(self).spec_state().cumulative_runtime@[node] + secs }
                } else {
                    secs as int
                }) as u64,
            ),
    {
        let cur = self.cumulative_runtime_secs(node);
        self.state.cumulative_runtime.insert(node, cur.saturating_add(secs));
    }
}

/// The state after a retry of `node`: its retry count grows by one, it is
/// `Pending` again with no result, the counters of its outgoing edges are
/// reset, it is appended to the ready queue, and nothing else changes.
pub open spec fn retried(pre: RuntimeState, post: RuntimeState, g: GraphDef, node: usize) -> bool {
    &&& post.retry_counts@ == pre.retry_counts@.insert(node, (pre.retry_counts@[node] + 1) as u64)
    &&& post.states@ == (if pre.states@.contains_key(node) {
        pre.states@.insert(node, NodeState { status: NodeStatus::Pending, result: NodeResult::Unset })
    } else {
        pre.states@
    })
    &&& post.edge_states@.len() == pre.edge_states@.len()
    &&& forall|e: int| 0 <= e < pre.edge_states@.len() ==> #[trigger] post.edge_states@[e] == (
    if g.spec_transfers().contains_key(node)
    && g.spec_transfers()[node].out_edge_indices@.contains(e as usize) {
        EdgeState { event_count: 0 }
    } else {
        pre.edge_states@[e]
    })
    &&& post.counters == pre.counters
    &&& post.run_counts == pre.run_counts
    &&& post.ready_queue@ == pre.ready_queue@.push(node)
    &&& post.fan_in_pending == pre.fan_in_pending
    &&& post.last_timed_out == pre.last_timed_out
    &&& post.cumulative_runtime == pre.cumulative_runtime
}

/// The state after `node` emits `event` with the given exit reason: the
/// node's status, result and counters record it, the event runs through
/// the node's transfer function (a node without a transfer fires nothing),
/// and `ready` lists the targets that fired, also appended to the queue.
pub open spec fn event_handled(
    pre: RuntimeState,
    post: RuntimeState,
    g: GraphDef,
    node: usize,
    event: EventType,
    reason: Option<Seq<char>>,
    ready: Seq<usize>,
) -> bool {
    &&& bookkeeping(pre, post, node, event, reason)
    &&& same_run_bookkeeping(pre, post)
    &&& g.spec_transfers().contains_key(node) ==> transfer_fold(
        g.spec_edges(),
        g.spec_transfers()[node].out_edge_indices@,
        event,
        reason,
        (pre.edge_states@, pre.fan_in_pending@, pre.ready_queue@, Seq::empty()),
    ) == (post.edge_states@, post.fan_in_pending@, post.ready_queue@, ready)
    &&& !g.spec_transfers().contains_key(node) ==> {
        &&& ready == Seq::<usize>::empty()
        &&& post.edge_states == pre.edge_states
        &&& post.fan_in_pending == pre.fan_in_pending
        &&& post.ready_queue == pre.ready_queue
    }
}

/// Every counter of a node can take one more increment.
pub open spec fn counters_below_max(c: NodeCounters) -> bool {
    c.complete < u64::MAX && c.failed < u64::MAX && c.timeout < u64::MAX
}

/// Every counter on the given outgoing edges can take as many increments
/// as there are outgoing edges.
pub open spec fn room_for_transfer(edge_states: Seq<EdgeState>, out: Seq<usize>) -> bool {
    forall|k: int| 0 <= k < out.len() ==> edge_states[#[trigger] out[k] as int].event_count + out.len() <= u64::MAX
}

/// The status/result/counter bookkeeping of one event on `node`: other
/// nodes are unchanged; the node takes the event's status; a completion
/// keeps an earlier result (else records `Completed`); a failure records
/// its exit reason (or `"failed"`); a timeout records `TimedOut`; the
/// event's counter grows by one.
pub open spec fn bookkeeping(
    pre: RuntimeState,
    post: RuntimeState,
    node: usize,
    event: EventType,
    reason: Option<Seq<char>>,
) -> bool {
    &&& post.states@.dom() == pre.states@.dom()
    &&& forall|k: usize| k != node && #[trigger] pre.states@.contains_key(k) ==> post.states@[k] == pre.states@[k]
    &&& pre.states@.contains_key(node) ==> {
        let before = pre.states@[node];
        let after = post.states@[node];
        &&& after.status == status_of_event(event)
        &&& match event {
            EventType::Complete => after.result == (if before.result is Unset { NodeResult::Completed } else { before.result }),
            EventType::Failed => after.result matches NodeResult::Failed(t) && t@ == (match reason {
                Some(r) => r,
                None => "failed"@,
            }),
            EventType::Timeout => after.result == NodeResult::TimedOut,
        }
    }
    &&& post.counters@ == (if pre.counters@.contains_key(node) {
        pre.counters@.insert(node, counters_after_event(pre.counters@[node], event))
    } else {
        pre.counters@
    })
}

/// The maps that event handling does not touch.
pub open spec fn same_run_bookkeeping(pre: RuntimeState, post: RuntimeState) -> bool {
    &&& post.retry_counts == pre.retry_counts
    &&& post.run_counts == pre.run_counts
    &&& post.last_timed_out == pre.last_timed_out
    &&& post.cumulative_runtime == pre.cumulative_runtime
}

/// `count_all_edges_to` never exceeds the number of edges.
pub proof fn lemma_count_all_edges_le(edges: Seq<EdgeDef>, to: usize)
    ensures
        count_all_edges_to(edges, to) <= edges.len(),
    decreases edges.len(),
{
    if edges.len() > 0 {
        lemma_count_all_edges_le(edges.drop_last(), to);
    }
}

} // verus!

verus! {

/// Per event, the emitting node's record: a completion marks it
/// `Completed` and keeps an earlier result (else records `Completed`); a
/// failure marks it `Failed` with the exit reason (or `"failed"`); a
/// timeout marks it `TimedOut`; the matching counter grows by one.  Every
/// other node's status, result and counters stay as they were.
pub proof fn law_event_updates_only_emitter(
    pre: RuntimeState,
    post: RuntimeState,
    g: GraphDef,
    node: usize,
    event: EventType,
    reason: Option<Seq<char>>,
    ready: Seq<usize>,
)
    requires
        event_handled(pre, post, g, node, event, reason, ready),
        pre.states@.contains_key(node),
        pre.counters@.contains_key(node),
        counters_below_max(pre.counters@[node]),
    ensures
        post.states@[node].status == match event {
            EventType::Complete => NodeStatus::Completed,
            EventType::Failed => NodeStatus::Failed,
            EventType::Timeout => NodeStatus::TimedOut,
        },
        event == EventType::Complete ==> post.states@[node].result == (if pre.states@[node].result is Unset {
            NodeResult::Completed
        } else {
            pre.states@[node].result
        }),
        event == EventType::Failed ==> (post.states@[node].result matches NodeResult::Failed(t) && t@ == (match reason {
            Some(r) => r,
            None => "failed"@,
        })),
        event == EventType::Timeout ==> post.states@[node].result == NodeResult::TimedOut,
        post.counters@[node].complete == pre.counters@[node].complete + (if event == EventType::Complete { 1int } else { 0int }),
        post.counters@[node].failed == pre.counters@[node].failed + (if event == EventType::Failed { 1int } else { 0int }),
        post.counters@[node].timeout == pre.counters@[node].timeout + (if event == EventType::Timeout { 1int } else { 0int }),
        post.states@.dom() == pre.states@.dom(),
        post.counters@.dom() == pre.counters@.dom(),
        forall|k: usize| k != node && #[trigger] pre.states@.contains_key(k) ==> post.states@[k] == pre.states@[k],
        forall|k: usize| k != node && #[trigger] pre.counters@.contains_key(k) ==> post.counters@[k] == pre.counters@[k],
{
    assert(post.counters@.dom() =~= pre.counters@.dom());
}

} // verus!

verus! {

/// In a scheduler that has not run anything, a node's pending `All` count
/// is the number of `All` edges into it (nodes without such edges have
/// none), so a target with a single `All` edge is enqueued by the first
/// firing of that edge.
pub proof fn law_fresh_fan_in_counts_all_edges(st: RuntimeState, g: GraphDef, to: usize)
    requires
        fresh_state(st, g),
        g.spec_edges().len() <= usize::MAX,
    ensures
        st.fan_in_pending@.contains_key(to) <==> g.spec_edges().filter(|e: EdgeDef| crate::graph::graph_def::all_edge_into(e, to)).len() > 0,
        st.fan_in_pending@.contains_key(to) ==> st.fan_in_pending@[to] == g.spec_edges().filter(
            |e: EdgeDef| crate::graph::graph_def::all_edge_into(e, to),
        ).len(),
{
    crate::graph::graph_def::law_fan_in_counts_only_all_edges(g.spec_edges(), to);
    lemma_count_all_edges_le(g.spec_edges(), to);
}

} // verus!
