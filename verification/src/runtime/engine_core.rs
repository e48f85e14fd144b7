//! The decision logic of the engine's event loop.
//!
//! The loop itself (channels, timers, spawning executors) runs outside the
//! library; it hands every event to an [`EngineCore`], which updates the
//! scheduler and the data router and says what to do next.

use vstd::prelude::*;

use crate::graph::builder::{built_components, endpoint_errors, out_edges, Builder};
use crate::graph::validator::{duplicate_errors, edge_pairs, node_ids};
use crate::model::error::errors_view;
use crate::graph::data_router::{flows_into, input_fold, upstream_fold, DataRouter};
use crate::graph::graph_def::{GraphDef, NodeData, NodeParams};
use crate::graph::petgraph_support::occupied_count;
use crate::graph::scheduler::{
    bookkeeping, counters_below_max, fresh_state, retried, room_for_transfer, running_nodes, NodeState, NodeStatus,
    RuntimeState, Scheduler,
};
use crate::graph::graph_def::transfer_fold;
use crate::model::error::ValidationError;
use crate::model::predecessor::EventType;
use crate::model::provider::{opt_seq, provider_repr, ProviderDef};
use crate::model::workflow::{EngineConfig, RoutePolicyDef, WorkflowDef};
use crate::nodeshell::types::{entries_view, opt_view, NodeContext, NodeMetadata, NodeOutcome, NodeOutput, SpawnError};

verus! {

broadcast use vstd::std_specs::hash::group_hash_axioms;

/// The override route of a node's policy at a run count and cumulative run
/// time: the policy's route once its threshold is reached.
pub open spec fn policy_route(policy: Option<RoutePolicyDef>, run_count: u64, cumulative_secs: u64) -> Option<Seq<char>> {
    match policy {
        Some(RoutePolicyDef::MaxRuns { max, then_route }) => if run_count >= max { Some(then_route@) } else { None },
        Some(RoutePolicyDef::MaxDuration { max_secs, then_route }) =>
            if cumulative_secs >= max_secs { Some(then_route@) } else { None },
        None => None,
    }
}

/// The route policy of node `node` of a graph.
pub open spec fn node_policy(g: GraphDef, node: usize) -> Option<RoutePolicyDef> {
    match g.spec_node_weight(node) {
        Some(d) => d.route_policy,
        None => None,
    }
}

/// A counter of a state map, 0 when absent.
pub open spec fn count_of(m: Map<usize, u64>, node: usize) -> u64 {
    if m.contains_key(node) { m[node] } else { 0 }
}

/// `a + b`, saturating at `u64::MAX`.
pub open spec fn sat_add(a: u64, b: u64) -> u64 {
    if a + b > u64::MAX { u64::MAX } else { (a + b) as u64 }
}

/// The retry limit of a node: its own, else the engine's.
pub open spec fn max_retries_of(g: GraphDef, node: usize, default: u64) -> u64 {
    match g.spec_node_weight(node) {
        Some(d) => match d.max_retries {
            Some(m) => m,
            None => default,
        },
        None => default,
    }
}

/// An outcome that is retried when retries are left: a timeout or a spawn
/// error.
pub open spec fn retryable(outcome: Result<NodeOutcome, SpawnError>) -> bool {
    match outcome {
        Ok(o) => o.exit_code == -9,
        Err(_) => true,
    }
}

/// The event an outcome emits: timeout, completion for exit code 0, else
/// failure.
pub open spec fn event_of(o: NodeOutcome) -> EventType {
    if o.exit_code == -9 {
        EventType::Timeout
    } else if o.exit_code == 0 {
        EventType::Complete
    } else {
        EventType::Failed
    }
}

/// The state after an event was recorded and the ready queue drained:
/// `drained` is everything that was queued, in order.
pub open spec fn recorded_and_drained(
    pre: RuntimeState,
    post: RuntimeState,
    g: GraphDef,
    node: usize,
    event: EventType,
    reason: Option<Seq<char>>,
    drained: Seq<usize>,
) -> bool {
    &&& bookkeeping(pre, post, node, event, reason)
    &&& post.ready_queue@ == Seq::<usize>::empty()
    &&& g.spec_transfers().contains_key(node) ==> {
        let tf = transfer_fold(
            g.spec_edges(),
            g.spec_transfers()[node].out_edge_indices@,
            event,
            reason,
            (pre.edge_states@, pre.fan_in_pending@, pre.ready_queue@, Seq::empty()),
        );
        &&& tf.0 == post.edge_states@
        &&& tf.1 == post.fan_in_pending@
        &&& tf.2 == drained
    }
    &&& !g.spec_transfers().contains_key(node) ==> {
        &&& post.edge_states == pre.edge_states
        &&& post.fan_in_pending == pre.fan_in_pending
        &&& drained == pre.ready_queue@
    }
}

/// What handling a ready node does (see [`EngineCore::on_node_ready`]):
/// the core `pre_c` becomes `post_c` and the action `r` is returned.
pub open spec fn ready_step(pre_c: EngineCore, post_c: EngineCore, node: usize, r: ReadyAction) -> bool {
    &&& post_c.inv()
    &&& post_c.g() == pre_c.g()
    &&& post_c.cfg() == pre_c.cfg()
    &&& post_c.workflow_dir() == pre_c.workflow_dir()
    &&& post_c.st().run_counts@ == pre_c.st().run_counts@.insert(
        node, sat_add(count_of(pre_c.st().run_counts@, node), 1))
    &&& ({
        let rc = sat_add(count_of(pre_c.st().run_counts@, node), 1);
        let pre = pre_c.st();
        let post = post_c.st();
        match policy_route(node_policy(pre_c.g(), node), rc, count_of(pre.cumulative_runtime@, node)) {
            Some(route) => {
                &&& r matches ReadyAction::Skip(o) && o@ == ((route, Seq::<char>::empty()), 0i32, Some(route))
                &&& post_c.router().stored().contains_key(node)
                &&& post_c.router().stored()[node]@ == (route, Seq::<char>::empty())
                &&& forall|k: usize| k != node ==> #[trigger] post_c.router().stored().contains_key(k)
                    == pre_c.router().stored().contains_key(k)
                    && (pre_c.router().stored().contains_key(k) ==> post_c.router().stored()[k] == pre_c.router().stored()[k])
                &&& forall|t: usize| #[trigger] post_c.router().flows_of(t) == pre_c.router().flows_of(t)
                &&& post == (RuntimeState { run_counts: post.run_counts, ..pre })
            },
            None => if pre.states@.contains_key(node) && pre.states@[node].status == NodeStatus::Running {
                &&& r is AlreadyRunning
                &&& post_c.router() == pre_c.router()
                &&& post == (RuntimeState { run_counts: post.run_counts, ..pre })
            } else {
                &&& post_c.router() == pre_c.router()
                &&& post == (RuntimeState { run_counts: post.run_counts, states: post.states, ..pre })
                &&& post.states@ == (if pre.states@.contains_key(node) {
                    pre.states@.insert(node, NodeState { status: NodeStatus::Running, ..pre.states@[node] })
                } else {
                    pre.states@
                })
                &&& r matches ReadyAction::Launch(p) && {
                    &&& p.context.metadata == (NodeMetadata {
                        run_count: rc,
                        timed_out: pre.last_timed_out@.contains_key(node) && pre.last_timed_out@[node],
                    })
                    &&& entries_view(p.context.inputs@) == input_fold(pre_c.router().flows_of(node), pre_c.router().stored())
                    &&& entries_view(p.context.upstream@) == upstream_fold(pre_c.router().flows_of(node), pre_c.router().stored())
                    &&& p.context.extensions@.len() == 0
                    &&& p.timeout_secs == (if pre_c.g().spec_params().contains_key(node) {
                        pre_c.g().spec_params()[node].process_timeout_secs
                    } else {
                        pre_c.cfg().default_node_timeout_secs
                    })
                    &&& opt_seq(p.workflow_scripts_dir) == pre_c.workflow_dir()
                    &&& match pre_c.g().spec_node_weight(node) {
                        Some(d) => opt_seq(p.node_scripts_dir) == opt_seq(d.scripts_dir) && if d.providers@.len() > 0 {
                            p.provider is Some && provider_repr(p.provider->0) == provider_repr(d.providers@[0])
                        } else {
                            p.provider is None
                        },
                        None => p.node_scripts_dir is None && p.provider is None,
                    }
                }
            },
        }
    })
}

/// A node in an engine snapshot.
#[derive(Debug, Clone, PartialEq, Eq)]
pub struct NodeSnapshot {
    /// The node's ID.
    pub node_id: String,
    /// Its status (`Pending` for a node the run never tracked).
    pub status: NodeStatus,
    /// How many times it became ready.
    pub run_count: u64,
    /// How many times it was retried.
    pub retry_count: u64,
}

/// A point-in-time view of a run: every node's status and counts, how
/// many nodes run, and the time elapsed.
#[derive(Debug, Clone, PartialEq, Eq)]
pub struct EngineSnapshot {
    /// The nodes, by index.
    pub nodes: Vec<NodeSnapshot>,
    /// How many nodes run.
    pub running_count: usize,
    /// Seconds since the run started.
    pub elapsed_secs: u64,
}

/// The result of a completed run: its final snapshot.
#[derive(Debug, Clone, PartialEq, Eq)]
pub struct WorkflowResult {
    /// The state of the run at its end.
    pub snapshot: EngineSnapshot,
}

/// The status a snapshot shows for a node.
pub open spec fn status_of(states: Map<usize, NodeState>, node: usize) -> NodeStatus {
    if states.contains_key(node) { states[node].status } else { NodeStatus::Pending }
}

/// What to do with a node that became ready.
#[derive(Debug)]
pub enum ReadyAction {
    /// Its route policy applies: do not run it, report this outcome as its
    /// completion.
    Skip(NodeOutcome),
    /// It is already running: ignore the duplicate.
    AlreadyRunning,
    /// Run it.
    Launch(LaunchPlan),
}

/// How to run a ready node.
#[derive(Debug)]
pub struct LaunchPlan {
    /// The context handed to the executor.
    pub context: NodeContext,
    /// The node's timeout in seconds.
    pub timeout_secs: u64,
    /// The node's first provider (a subprocess with an empty command stands
    /// in when it has none).
    pub provider: Option<ProviderDef>,
    /// The node's scripts directory, if it sets one.
    pub node_scripts_dir: Option<String>,
    /// The workflow's scripts directory, if it sets one.
    pub workflow_scripts_dir: Option<String>,
}

/// What recording a node's outcome led to.
#[derive(Debug)]
pub struct Recorded {
    /// The event the outcome emitted.
    pub event: EventType,
    /// The nodes now ready, in queue order.
    pub ready: Vec<usize>,
    /// The node's retry count.
    pub retry_count: u64,
}

/// The engine's state between events: its scheduler, its data router, its
/// configuration and the workflow's scripts directory.
#[derive(Debug)]
pub struct EngineCore {
    scheduler: Scheduler,
    data_router: DataRouter,
    config: EngineConfig,
    workflow_scripts_dir: Option<String>,
}

impl EngineCore {
    /// The scheduler.
    pub closed spec fn sched(&self) -> Scheduler {
        self.scheduler
    }

    /// The data router.
    pub closed spec fn router(&self) -> DataRouter {
        self.data_router
    }

    /// The configuration.
    pub closed spec fn cfg(&self) -> EngineConfig {
        self.config
    }

    /// The workflow's scripts directory.
    pub closed spec fn workflow_dir(&self) -> Option<Seq<char>> {
        opt_seq(self.workflow_scripts_dir)
    }

    /// The scheduler's state.
    pub open spec fn st(&self) -> RuntimeState {
        self.sched().spec_state()
    }

    /// The graph.
    pub open spec fn g(&self) -> GraphDef {
        self.sched().spec_graph()
    }

    /// The engine's invariant: the edge counters match the edges and every
    /// transfer lists valid edge indices.
    pub open spec fn inv(&self) -> bool {
        self.sched().edges_consistent()
    }

    /// An event of `node` can be counted: its counters and the counters of
    /// its outgoing edges have room.
    pub open spec fn has_room(&self, node: usize) -> bool {
        &&& self.st().counters@.contains_key(node) ==> counters_below_max(self.st().counters@[node])
        &&& self.g().spec_transfers().contains_key(node) ==> room_for_transfer(
            self.st().edge_states@,
            self.g().spec_transfers()[node].out_edge_indices@,
        )
    }

    /// The engine for a workflow: its graph as [`Builder::build`] makes it,
    /// a scheduler that has run nothing, and a data router over the graph's
    /// nodes and the workflow's data flows.
    pub fn new(def: &WorkflowDef, config: EngineConfig) -> (r: Result<Self, Vec<ValidationError>>)
        requires
            def.nodes@.len() < u32::MAX,
        ensures
            duplicate_errors(node_ids(def.nodes@)).len() > 0 ==> r is Err
                && errors_view(r->Err_0@) == duplicate_errors(node_ids(def.nodes@)),
            duplicate_errors(node_ids(def.nodes@)).len() == 0
                && endpoint_errors(node_ids(def.nodes@), edge_pairs(def.edges@)).len() > 0 ==> r is Err
                && errors_view(r->Err_0@) == endpoint_errors(node_ids(def.nodes@), edge_pairs(def.edges@)),
            duplicate_errors(node_ids(def.nodes@)).len() == 0
                && endpoint_errors(node_ids(def.nodes@), edge_pairs(def.edges@)).len() == 0 ==> r is Ok,
            match r {
                Ok(c) => {
                    &&& c.inv()
                    &&& c.g().well_formed()
                    &&& built_components(*def, c.g().spec_slots(), c.g().spec_index(), c.g().spec_edges(),
                        c.g().spec_transfers(), c.g().spec_params(), c.g().spec_entries())
                    &&& fresh_state(c.st(), c.g())
                    &&& c.router().stored() == Map::<usize, NodeOutput>::empty()
                    &&& forall|t: usize| #[trigger] c.router().flows_of(t)
                        == flows_into(entries_view(c.g().spec_index()), def.dataflows@, t)
                    &&& c.cfg() == config
                    &&& c.workflow_dir() == opt_seq(def.scripts_dir)
                },
                Err(es) => es@.len() > 0,
            },
    {
        let graph = match Builder::build(def) {
            Ok(g) => g,
            Err(es) => {
                return Err(es);
            },
        };
        let ghost gs = graph;
        let ids = graph.index_entries();
        let data_router = DataRouter::new(&ids, &def.dataflows);
        let scheduler = Scheduler::new(graph);
        proof {
            assert forall|n: usize, k: int|
                #![trigger scheduler.spec_graph().spec_transfers()[n].out_edge_indices@[k]]
                scheduler.spec_graph().spec_transfers().contains_key(n) && 0 <= k
                    < scheduler.spec_graph().spec_transfers()[n].out_edge_indices@.len()
                    implies scheduler.spec_graph().spec_transfers()[n].out_edge_indices@[k]
                    < scheduler.spec_graph().spec_edges().len() by {
                crate::graph::builder::lemma_out_edges_bound(gs.spec_edges(), n);
            }
        }
        let workflow_scripts_dir = match &def.scripts_dir {
            Some(d) => Some(d.clone()),
            None => None,
        };
        Ok(EngineCore { scheduler, data_router, config, workflow_scripts_dir })
    }

    /// The scheduler (for inspection).
    pub fn scheduler(&self) -> (s: &Scheduler)
        ensures
            *s == self.sched(),
    {
        &self.scheduler
    }

    /// The data router (for inspection).
    pub fn data_router(&self) -> (d: &DataRouter)
        ensures
            *d == self.router(),
    {
        &self.data_router
    }

    /// The configuration.
    pub fn config(&self) -> (c: &EngineConfig)
        ensures
            *c == self.cfg(),
    {
        &self.config
    }

    /// The nodes to seed the run with: the entry nodes.
    pub fn entry_nodes(&self) -> (v: Vec<usize>)
        ensures
            v@ == self.g().spec_entries(),
    {
        let e = self.scheduler.graph().entry_nodes();
        let mut v: Vec<usize> = Vec::new();
        let mut i: usize = 0;
        while i < e.len()
            invariant
                i <= e@.len(),
                v@ == e@.take(i as int),
            decreases e@.len() - i,
        {
            v.push(e[i]);
            assert(v@ =~= e@.take(i + 1));
            i = i + 1;
        }
        assert(e@.take(e@.len() as int) == e@);
        v
    }

    /// The ID of a node (empty for an unknown index).
    pub fn node_name(&self, node: usize) -> (r: String)
        ensures
            r@ == match self.g().spec_node_weight(node) {
                Some(d) => d.id@,
                None => Seq::<char>::empty(),
            },
    {
        match self.scheduler.graph().node_weight(node) {
            Some(d) => d.id.clone(),
            None => String::new(),
        }
    }

    /// The first provider of a node, if it has one.
    pub fn first_provider(&self, node: usize) -> (r: Option<ProviderDef>)
        ensures
            match self.g().spec_node_weight(node) {
                Some(d) => if d.providers@.len() > 0 {
                    r is Some && provider_repr(r->0) == provider_repr(d.providers@[0])
                } else {
                    r is None
                },
                None => r is None,
            },
    {
        match self.scheduler.graph().node_weight(node) {
            Some(d) => {
                if d.providers.len() > 0 {
                    Some(d.providers[0].copy())
                } else {
                    None
                }
            },
            None => None,
        }
    }

    /// Whether an event of `node` can be counted.
    pub fn room_for_event(&self, node: usize) -> (b: bool)
        requires
            self.inv(),
        ensures
            b == self.has_room(node),
    {
        self.scheduler.room_for_event(node)
    }

    /// Whether the run has converged.
    pub fn is_converged(&self) -> (b: bool)
        ensures
            b == (self.st().ready_queue@.len() == 0 && forall|k: usize|
                #[trigger] self.st().states@.contains_key(k) ==> crate::graph::scheduler::status_is_settled(
                    self.st().states@[k].status,
                )),
    {
        self.scheduler.is_converged()
    }

    /// The number of running nodes.
    pub fn running_count(&self) -> (n: usize)
        ensures
            n == running_nodes(self.st().states@).len(),
    {
        self.scheduler.running_count()
    }

    /// Stop the run: every pending node is skipped.
    pub fn cancel(&mut self)
        requires
            old(self).inv(),
        ensures
            final(self).inv(),
            final(self).g() == old(self).g(),
            final(self).router() == old(self).router(),
            final(self).cfg() == old(self).cfg(),
            final(self).st().states@.dom() == old(self).st().states@.dom(),
            forall|k: usize| #[trigger] old(self).st().states@.contains_key(k) ==> final(self).st().states@[k] == (
                if old(self).st().states@[k].status == NodeStatus::Pending {
                    NodeState { status: NodeStatus::Skipped, ..old(self).st().states@[k] }
                } else {
                    old(self).st().states@[k]
                }),
            final(self).st() == (RuntimeState { states: final(self).st().states, ..old(self).st() }),
    {
        self.scheduler.mark_pending_nodes_skipped();
    }

    /// The watchdog's decision after a quiet period, given how many quiet
    /// periods in a row preceded it: stop (`None`) when converged; keep
    /// waiting with the count reset while nodes run; otherwise count this
    /// one, and after three in a row skip every pending node and stop.
    pub fn watchdog(&mut self, consecutive: u32) -> (r: Option<u32>)
        requires
            old(self).inv(),
        ensures
            final(self).inv(),
            final(self).g() == old(self).g(),
            final(self).router() == old(self).router(),
            final(self).cfg() == old(self).cfg(),
            ({
                let converged = old(self).st().ready_queue@.len() == 0 && forall|k: usize|
                    #[trigger] old(self).st().states@.contains_key(k) ==> crate::graph::scheduler::status_is_settled(
                        old(self).st().states@[k].status,
                    );
                let running = running_nodes(old(self).st().states@).len() > 0;
                let next = if consecutive == u32::MAX { u32::MAX } else { (consecutive + 1) as u32 };
                if converged {
                    r is None && final(self).st() == old(self).st()
                } else if running {
                    r == Some(0u32) && final(self).st() == old(self).st()
                } else if next >= 3 {
                    &&& r is None
                    &&& final(self).st() == (RuntimeState { states: final(self).st().states, ..old(self).st() })
                    &&& forall|k: usize| #[trigger] old(self).st().states@.contains_key(k) ==> final(self).st().states@[k] == (
                        if old(self).st().states@[k].status == NodeStatus::Pending {
                            NodeState { status: NodeStatus::Skipped, ..old(self).st().states@[k] }
                        } else {
                            old(self).st().states@[k]
                        })
                    &&& final(self).st().states@.dom() == old(self).st().states@.dom()
                } else {
                    r == Some(next) && final(self).st() == old(self).st()
                }
            }),
    {
        if self.scheduler.is_converged() {
            return None;
        }
        if self.scheduler.running_count() > 0 {
            return Some(0);
        }
        let next = consecutive.saturating_add(1);
        if next >= 3 {
            self.scheduler.mark_pending_nodes_skipped();
            None
        } else {
            Some(next)
        }
    }

    /// Handle a node that became ready: count the run; when its route
    /// policy applies, record the policy's route as its output and skip it;
    /// when it is already running, ignore it; otherwise mark it running and
    /// say how to run it, with its context built from the data router.
    pub fn on_node_ready(&mut self, node: usize) -> (r: ReadyAction)
        requires
            old(self).inv(),
        ensures
            ready_step(*old(self), *final(self), node, r),

    {
        let run_count = self.scheduler.node_run_count(node).saturating_add(1);
        self.scheduler.set_node_run_count(node, run_count);
        match self.policy_override(node, run_count) {
            Some(then_route) => {
                let output = NodeOutput { route: then_route.clone(), content: String::new() };
                self.data_router.store_output(node, &output);
                let outcome = NodeOutcome { output, exit_code: 0, exit_reason: Some(then_route) };
                return ReadyAction::Skip(outcome);
            },
            None => {},
        }
        if self.scheduler.is_node_running(node) {
            return ReadyAction::AlreadyRunning;
        }
        self.scheduler.set_node_status(node, NodeStatus::Running);
        let context = NodeContext {
            inputs: self.data_router.build_input(node),
            extensions: Vec::new(),
            metadata: NodeMetadata { run_count, timed_out: self.scheduler.was_last_timed_out(node) },
            upstream: self.data_router.build_upstream(node),
        };
        let timeout_secs = match self.scheduler.graph().node_params(node) {
            Some(p) => p.process_timeout_secs,
            None => self.config.default_node_timeout_secs,
        };
        let node_scripts_dir = match self.scheduler.graph().node_weight(node) {
            Some(d) => match &d.scripts_dir {
                Some(s) => Some(s.clone()),
                None => None,
            },
            None => None,
        };
        let workflow_scripts_dir = match &self.workflow_scripts_dir {
            Some(s) => Some(s.clone()),
            None => None,
        };
        let provider = self.first_provider(node);
        ReadyAction::Launch(LaunchPlan { context, timeout_secs, provider, node_scripts_dir, workflow_scripts_dir })
    }

    /// The route a node's policy imposes at a run count, if it applies.
    fn policy_override(&self, node: usize, run_count: u64) -> (r: Option<String>)
        ensures
            opt_seq(r) == policy_route(node_policy(self.g(), node), run_count, count_of(self.st().cumulative_runtime@, node)),
    {
        match self.scheduler.graph().node_weight(node) {
            Some(d) => match &d.route_policy {
                Some(RoutePolicyDef::MaxRuns { max, then_route }) => {
                    if run_count >= *max {
                        Some(then_route.clone())
                    } else {
                        None
                    }
                },
                Some(RoutePolicyDef::MaxDuration { max_secs, then_route }) => {
                    if self.scheduler.cumulative_runtime_secs(node) >= *max_secs {
                        Some(then_route.clone())
                    } else {
                        None
                    }
                },
                None => None,
            },
            None => None,
        }
    }

    /// A snapshot of the run after `elapsed_secs` seconds: for every node
    /// index, its ID, status, run count and retry count; and the number of
    /// running nodes.
    pub fn snapshot(&self, elapsed_secs: u64) -> (r: EngineSnapshot)
        ensures
            r.nodes@.len() == self.g().spec_node_count(),
            forall|i: int| 0 <= i < r.nodes@.len() ==> {
                &&& (#[trigger] r.nodes@[i]).node_id@ == match self.g().spec_node_weight(i as usize) {
                    Some(d) => d.id@,
                    None => Seq::<char>::empty(),
                }
                &&& r.nodes@[i].status == status_of(self.st().states@, i as usize)
                &&& r.nodes@[i].run_count == count_of(self.st().run_counts@, i as usize)
                &&& r.nodes@[i].retry_count == count_of(self.st().retry_counts@, i as usize)
            },
            r.running_count == running_nodes(self.st().states@).len(),
            r.elapsed_secs == elapsed_secs,
    {
        let idx = self.scheduler.graph().node_indices();
        let mut nodes: Vec<NodeSnapshot> = Vec::new();
        let mut k: usize = 0;
        while k < idx.len()
            invariant
                k <= idx@.len(),
                idx@.len() == self.g().spec_node_count(),
                forall|j: int| 0 <= j < idx@.len() ==> #[trigger] idx@[j] == j,
                nodes@.len() == k,
                forall|i: int| 0 <= i < k ==> {
                    &&& (#[trigger] nodes@[i]).node_id@ == match self.g().spec_node_weight(i as usize) {
                        Some(d) => d.id@,
                        None => Seq::<char>::empty(),
                    }
                    &&& nodes@[i].status == status_of(self.st().states@, i as usize)
                    &&& nodes@[i].run_count == count_of(self.st().run_counts@, i as usize)
                    &&& nodes@[i].retry_count == count_of(self.st().retry_counts@, i as usize)
                },
            decreases idx@.len() - k,
        {
            let n = idx[k];
            let status = match self.scheduler.state().states.get(&n) {
                Some(ns) => ns.status,
                None => NodeStatus::Pending,
            };
            nodes.push(NodeSnapshot {
                node_id: self.node_name(n),
                status,
                run_count: self.scheduler.node_run_count(n),
                retry_count: self.scheduler.node_retry_count(n),
            });
            k = k + 1;
        }
        EngineSnapshot { nodes, running_count: self.scheduler.running_count(), elapsed_secs }
    }

    /// Take every node waiting in the ready queue, in queue order (a retried
    /// node waits there).
    pub fn take_ready(&mut self) -> (v: Vec<usize>)
        requires
            old(self).inv(),
        ensures
            final(self).inv(),
            final(self).g() == old(self).g(),
            final(self).cfg() == old(self).cfg(),
            final(self).router() == old(self).router(),
            final(self).workflow_dir() == old(self).workflow_dir(),
            v@ == old(self).st().ready_queue@,
            final(self).st() == (RuntimeState { ready_queue: final(self).st().ready_queue, ..old(self).st() }),
            final(self).st().ready_queue@ == Seq::<usize>::empty(),
    {
        self.scheduler.dequeue_all()
    }

    /// Decide whether a finished node is retried: only a timeout or a spawn
    /// error is, and only while its retry count is below its limit.  A retry
    /// resets the node, enqueues it, and clears its stored output.
    pub fn retry_decision(&mut self, node: usize, outcome: &Result<NodeOutcome, SpawnError>) -> (b: bool)
        requires
            old(self).inv(),
        ensures
            final(self).inv(),
            final(self).g() == old(self).g(),
            final(self).cfg() == old(self).cfg(),
            final(self).workflow_dir() == old(self).workflow_dir(),
            b == (retryable(*outcome) && old(self).st().retry_counts@.contains_key(node)
                && old(self).st().retry_counts@[node] < max_retries_of(old(self).g(), node, old(self).cfg().max_timeout_retries)),
            b ==> retried(old(self).st(), final(self).st(), old(self).g(), node)
                && final(self).router().stored() == old(self).router().stored().remove(node)
                && forall|t: usize| #[trigger] final(self).router().flows_of(t) == old(self).router().flows_of(t),
            !b ==> final(self).st() == old(self).st() && final(self).router() == old(self).router(),
    {
        let max_retries = self.scheduler.node_max_retries(node, self.config.max_timeout_retries);
        let candidate = match outcome {
            Ok(o) => o.timed_out(),
            Err(_) => true,
        };
        if !candidate {
            return false;
        }
        let again = self.scheduler.retry_node(node, max_retries);
        if again {
            self.data_router.clear_output(node);
        }
        again
    }

    /// Record the outcome of a node that is not retried: add its run time,
    /// note a timeout, store its output, emit its event with its exit reason
    /// (the route policy's route when it applies), and drain the nodes that
    /// became ready.
    pub fn record_outcome(&mut self, node: usize, outcome: NodeOutcome, elapsed_secs: Option<u64>) -> (r: Recorded)
        requires
            old(self).inv(),
            old(self).has_room(node),
        ensures
            final(self).inv(),
            final(self).g() == old(self).g(),
            final(self).cfg() == old(self).cfg(),
            final(self).workflow_dir() == old(self).workflow_dir(),
            final(self).st().cumulative_runtime@ == match elapsed_secs {
                Some(e) => old(self).st().cumulative_runtime@.insert(
                    node, sat_add(count_of(old(self).st().cumulative_runtime@, node), e)),
                None => old(self).st().cumulative_runtime@,
            },
            final(self).st().last_timed_out@ == if outcome.exit_code == -9 {
                old(self).st().last_timed_out@.insert(node, true)
            } else {
                old(self).st().last_timed_out@
            },
            final(self).st().retry_counts == old(self).st().retry_counts,
            final(self).st().run_counts == old(self).st().run_counts,
            final(self).router().stored() == old(self).router().stored().insert(node, outcome.output),
            forall|t: usize| #[trigger] final(self).router().flows_of(t) == old(self).router().flows_of(t),
            r.event == event_of(outcome),
            recorded_and_drained(
                old(self).st(),
                final(self).st(),
                old(self).g(),
                node,
                event_of(outcome),
                match policy_route(
                    node_policy(old(self).g(), node),
                    count_of(old(self).st().run_counts@, node),
                    count_of(final(self).st().cumulative_runtime@, node),
                ) {
                    Some(route) => Some(route),
                    None => opt_view(outcome.exit_reason),
                },
                r.ready@,
            ),
            r.retry_count == count_of(old(self).st().retry_counts@, node),
    {
        match elapsed_secs {
            Some(e) => self.scheduler.add_cumulative_runtime(node, e),
            None => {},
        }
        if outcome.timed_out() {
            self.scheduler.mark_last_timed_out(node);
        }
        self.data_router.store_output(node, &outcome.output);
        let event = if outcome.timed_out() {
            EventType::Timeout
        } else if outcome.exit_code == 0 {
            EventType::Complete
        } else {
            EventType::Failed
        };
        let run_count = self.scheduler.node_run_count(node);
        let exit_reason = match self.policy_override(node, run_count) {
            Some(route) => Some(route),
            None => match &outcome.exit_reason {
                Some(s) => Some(s.clone()),
                None => None,
            },
        };
        let _fired = match &exit_reason {
            Some(s) => self.scheduler.handle_event(node, event, Some(s.as_str())),
            None => self.scheduler.handle_event(node, event, None),
        };
        let ready = self.scheduler.dequeue_all();
        let retry_count = self.scheduler.node_retry_count(node);
        Recorded { event, ready, retry_count }
    }

    /// Record a spawn error whose retries are exhausted: the node fails, the
    /// nodes that became ready are drained, and when then nothing runs,
    /// every pending node is skipped (the run cannot go on).
    pub fn record_spawn_failure(&mut self, node: usize) -> (r: (Vec<usize>, bool))
        requires
            old(self).inv(),
            old(self).has_room(node),
        ensures
            final(self).inv(),
            final(self).g() == old(self).g(),
            final(self).cfg() == old(self).cfg(),
            final(self).router() == old(self).router(),
            final(self).st().retry_counts == old(self).st().retry_counts,
            final(self).st().run_counts == old(self).st().run_counts,
            final(self).st().cumulative_runtime == old(self).st().cumulative_runtime,
            final(self).st().last_timed_out == old(self).st().last_timed_out,
            exists|mid: RuntimeState| {
                &&& #[trigger] recorded_and_drained(old(self).st(), mid, old(self).g(), node, EventType::Failed, None, r.0@)
                &&& r.1 == (running_nodes(mid.states@).len() == 0)
                &&& final(self).st().counters == mid.counters
                &&& final(self).st().edge_states == mid.edge_states
                &&& final(self).st().fan_in_pending == mid.fan_in_pending
                &&& final(self).st().ready_queue == mid.ready_queue
                &&& final(self).st().states@.dom() == mid.states@.dom()
                &&& forall|k: usize| #[trigger] mid.states@.contains_key(k) ==> final(self).st().states@[k] == (
                    if r.1 && mid.states@[k].status == NodeStatus::Pending {
                        NodeState { status: NodeStatus::Skipped, ..mid.states@[k] }
                    } else {
                        mid.states@[k]
                    })
            },
    {
        let _fired = self.scheduler.handle_event(node, EventType::Failed, None);
        let ready = self.scheduler.dequeue_all();
        let ghost mid = self.scheduler.spec_state();
        let stuck = self.scheduler.running_count() == 0;
        if stuck {
            self.scheduler.mark_pending_nodes_skipped();
        }
        assert(recorded_and_drained(old(self).st(), mid, old(self).g(), node, EventType::Failed, None, ready@));
        assert(stuck == (running_nodes(mid.states@).len() == 0));
        assert(self.st().counters == mid.counters);
        assert(self.st().states@.dom() == mid.states@.dom());
        assert(forall|k: usize| #[trigger] mid.states@.contains_key(k) ==> self.st().states@[k] == (
            if stuck && mid.states@[k].status == NodeStatus::Pending {
                NodeState { status: NodeStatus::Skipped, ..mid.states@[k] }
            } else {
                mid.states@[k]
            }));
        let r = (ready, stuck);
        assert(recorded_and_drained(old(self).st(), mid, old(self).g(), node, EventType::Failed, None, r.0@));
        r
    }
}

/// A node is never launched twice at once: once a ready node is launched it
/// is running, and when it becomes ready again before it finishes (with its
/// route policy not applying), the duplicate is ignored.
pub proof fn law_no_double_launch(
    c0: EngineCore,
    c1: EngineCore,
    c2: EngineCore,
    node: usize,
    r1: ReadyAction,
    r2: ReadyAction,
)
    requires
        c0.st().states@.contains_key(node),
        ready_step(c0, c1, node, r1),
        r1 is Launch,
        ready_step(c1, c2, node, r2),
        policy_route(
            node_policy(c1.g(), node),
            sat_add(count_of(c1.st().run_counts@, node), 1),
            count_of(c1.st().cumulative_runtime@, node),
        ) is None,
    ensures
        r2 is AlreadyRunning,
{
}

} // verus!

verus! {

/// A `MaxDuration` policy applies exactly once the node's cumulative run
/// time has reached its limit, whatever the run count: from then on its
/// route is the node's exit reason (as [`EngineCore::record_outcome`]
/// reports the event) and its output when it becomes ready again.
pub proof fn law_max_duration_route(max_secs: u64, then_route: String, run_count: u64, cumulative_secs: u64)
    ensures
        cumulative_secs >= max_secs ==> policy_route(
            Some(RoutePolicyDef::MaxDuration { max_secs, then_route }),
            run_count,
            cumulative_secs,
        ) == Some(then_route@),
        cumulative_secs < max_secs ==> policy_route(
            Some(RoutePolicyDef::MaxDuration { max_secs, then_route }),
            run_count,
            cumulative_secs,
        ) is None,
{
}

/// A `MaxRuns` policy applies exactly once the run count has reached its
/// limit, whatever the run time.
pub proof fn law_max_runs_route(max: u64, then_route: String, run_count: u64, cumulative_secs: u64)
    ensures
        run_count >= max ==> policy_route(Some(RoutePolicyDef::MaxRuns { max, then_route }), run_count, cumulative_secs)
            == Some(then_route@),
        run_count < max ==> policy_route(Some(RoutePolicyDef::MaxRuns { max, then_route }), run_count, cumulative_secs)
            is None,
{
}

/// A node whose `MaxDuration` limit is reached is not run again when it
/// becomes ready: it is skipped with the policy's route as its output route
/// and exit reason, exit code zero and empty content, which is also what
/// downstream nodes then read from it.
pub proof fn law_max_duration_skips_ready_node(
    pre: EngineCore,
    post: EngineCore,
    node: usize,
    r: ReadyAction,
    max_secs: u64,
    then_route: String,
)
    requires
        ready_step(pre, post, node, r),
        node_policy(pre.g(), node) == Some(RoutePolicyDef::MaxDuration { max_secs, then_route }),
        count_of(pre.st().cumulative_runtime@, node) >= max_secs,
    ensures
        r matches ReadyAction::Skip(o) && o.output.route@ == then_route@ && o.output.content@.len() == 0
            && o.exit_code == 0 && opt_view(o.exit_reason) == Some(then_route@),
        post.router().stored().contains_key(node),
        post.router().stored()[node].route@ == then_route@,
{
}

/// A node whose `MaxRuns` limit is reached by this run is skipped with the
/// policy's route.
pub proof fn law_max_runs_skips_ready_node(
    pre: EngineCore,
    post: EngineCore,
    node: usize,
    r: ReadyAction,
    max: u64,
    then_route: String,
)
    requires
        ready_step(pre, post, node, r),
        node_policy(pre.g(), node) == Some(RoutePolicyDef::MaxRuns { max, then_route }),
        sat_add(count_of(pre.st().run_counts@, node), 1) >= max,
    ensures
        r matches ReadyAction::Skip(o) && o.output.route@ == then_route@ && o.exit_code == 0
            && opt_view(o.exit_reason) == Some(then_route@),
{
}

} // verus!
