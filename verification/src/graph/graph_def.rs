//! The verified, aggregated graph definition [`GraphDef`] and the local
//! transfer function f_v of a node ([`NodeTransfer::evaluate`]).

use vstd::prelude::*;

use std::collections::{HashMap, VecDeque};

use petgraph::stable_graph::StableGraph;
use petgraph::Directed;

use crate::graph::edge::{EdgeDef, EdgeState, Strategy};
use crate::graph::petgraph_support::{stable_graph_node_count, stable_graph_node_weight, stable_graph_slots, occupied_count};
use crate::model::error::ValidationError;
use crate::model::predecessor::EventType;
use crate::model::provider::ProviderDef;
use crate::model::workflow::RoutePolicyDef;
use crate::nodeshell::types::entries_view;
use crate::text::to_chars;

verus! {

broadcast use vstd::std_specs::hash::group_hash_axioms;

/// Data associated with each node of the graph.
#[derive(Debug, Clone, PartialEq, Eq)]
pub struct NodeData {
    /// Node identifier from the workflow definition.
    pub id: String,
    /// How this node is executed.
    pub providers: Vec<ProviderDef>,
    /// Maximum execution time in seconds.
    pub process_timeout_secs: u64,
    /// Route policy of the node (None: no override).
    pub route_policy: Option<RoutePolicyDef>,
    /// Per-node retry limit (None: engine default).
    pub max_retries: Option<u64>,
    /// Node-level scripts directory.
    pub scripts_dir: Option<String>,
}

/// Execution parameters of a node.
#[derive(Debug, Clone, Copy, PartialEq, Eq)]
pub struct NodeParams {
    /// Maximum execution time in seconds.
    pub process_timeout_secs: u64,
}

/// Local transfer function f_v of one node: the node and the indices (into
/// [`GraphDef::edges`]) of its outgoing edges.
#[derive(Debug, Clone, PartialEq, Eq)]
pub struct NodeTransfer {
    /// The node this transfer belongs to.
    pub from: usize,
    /// Indices of this node's outgoing edges.
    pub out_edge_indices: Vec<usize>,
}

/// h_e's matching condition: the event type matches and, when the edge has
/// an exit-reason filter, the given exit reason equals it exactly.
pub open spec fn edge_matches(edge: EdgeDef, event: EventType, exit_reason: Option<Seq<char>>) -> bool {
    &&& edge.event_type == event
    &&& match edge.exit_reason {
        None => true,
        Some(expected) => exit_reason == Some(expected@),
    }
}

/// The number of `All` edges pointing to `to`.
pub open spec fn count_all_edges_to(edges: Seq<EdgeDef>, to: usize) -> nat
    decreases edges.len(),
{
    if edges.len() == 0 {
        0
    } else {
        count_all_edges_to(edges.drop_last(), to) + if edges.last().to == to
            && edges.last().strategy == Strategy::All {
            1nat
        } else {
            0nat
        }
    }
}

/// The state f_v works on: edge counters, pending `All` counts per target,
/// the scheduler's ready queue, and the targets enqueued by this call.
pub type TransferState = (Seq<EdgeState>, Map<usize, usize>, Seq<usize>, Seq<usize>);

/// One outgoing edge `e` processed by f_v: h_e decides whether the edge
/// matches and its threshold is reached; g_e then enqueues the target at
/// once (`Any`), or when every `All` edge into the target has fired, after
/// which the target's pending count is reset for the next round.
pub open spec fn transfer_edge(
    edges: Seq<EdgeDef>,
    e: int,
    event: EventType,
    exit_reason: Option<Seq<char>>,
    st: TransferState,
) -> TransferState {
    let edge = edges[e];
    if !edge_matches(edge, event, exit_reason) {
        st
    } else {
        let c = st.0[e].event_count + 1;
        let counts = st.0.update(e, EdgeState { event_count: c as u64 });
        if c < edge.threshold {
            (counts, st.1, st.2, st.3)
        } else {
            match edge.strategy {
                Strategy::Any => (counts, st.1, st.2.push(edge.to), st.3.push(edge.to)),
                Strategy::All => {
                    let p1 = if st.1.contains_key(edge.to) && st.1[edge.to] > 0 {
                        st.1.insert(edge.to, (st.1[edge.to] - 1) as usize)
                    } else {
                        st.1
                    };
                    if !p1.contains_key(edge.to) || p1[edge.to] == 0 {
                        let p2 = if p1.contains_key(edge.to) {
                            p1.insert(edge.to, count_all_edges_to(edges, edge.to) as usize)
                        } else {
                            p1
                        };
                        (counts, p2, st.2.push(edge.to), st.3.push(edge.to))
                    } else {
                        (counts, p1, st.2, st.3)
                    }
                },
            }
        }
    }
}

/// f_v over the outgoing edges `out`, in order.
pub open spec fn transfer_fold(
    edges: Seq<EdgeDef>,
    out: Seq<usize>,
    event: EventType,
    exit_reason: Option<Seq<char>>,
    st: TransferState,
) -> TransferState
    decreases out.len(),
{
    if out.len() == 0 {
        st
    } else {
        transfer_edge(
            edges,
            out.last() as int,
            event,
            exit_reason,
            transfer_fold(edges, out.drop_last(), event, exit_reason, st),
        )
    }
}

/// Whether two strings are equal.
pub fn str_eq(a: &str, b: &str) -> (r: bool)
    ensures
        r == (a@ == b@),
{
    let va = to_chars(a);
    let vb = to_chars(b);
    if va.len() != vb.len() {
        return false;
    }
    let mut i: usize = 0;
    while i < va.len()
        invariant
            va@.len() == vb@.len(),
            va@ == a@,
            vb@ == b@,
            i <= va@.len(),
            forall|k: int| 0 <= k < i ==> va@[k] == vb@[k],
        decreases va@.len() - i,
    {
        if va[i] != vb[i] {
            return false;
        }
        i = i + 1;
    }
    assert(va@ =~= vb@);
    true
}

/// The number of `All` edges pointing to `to`.
pub fn count_all_edges_to_exec(edges: &Vec<EdgeDef>, to: usize) -> (n: usize)
    ensures
        n == count_all_edges_to(edges@, to),
{
    let mut n: usize = 0;
    let mut i: usize = 0;
    while i < edges.len()
        invariant
            i <= edges@.len(),
            n == count_all_edges_to(edges@.take(i as int), to),
            n <= i,
        decreases edges@.len() - i,
    {
        assert(edges@.take(i + 1).drop_last() == edges@.take(i as int));
        if edges[i].to == to && edges[i].strategy == Strategy::All {
            n = n + 1;
        }
        i = i + 1;
    }
    assert(edges@.take(edges@.len() as int) == edges@);
    n
}

/// Whether an edge matches an event (h_e without its threshold).
fn edge_matches_exec(edge: &EdgeDef, event: EventType, exit_reason: Option<&str>) -> (r: bool)
    ensures
        r == edge_matches(*edge, event, match exit_reason {
            Some(s) => Some(s@),
            None => None,
        }),
{
    if edge.event_type != event {
        return false;
    }
    match &edge.exit_reason {
        None => true,
        Some(expected) => match exit_reason {
            Some(actual) => str_eq(actual, expected.as_str()),
            None => false,
        },
    }
}

/// The view of an optional exit reason.
pub open spec fn reason_view(exit_reason: Option<&str>) -> Option<Seq<char>> {
    match exit_reason {
        Some(s) => Some(s@),
        None => None,
    }
}

impl NodeTransfer {
    /// Evaluate f_v: for each outgoing edge, h_e (event type, exit-reason
    /// filter, threshold counter) and then g_e (`Any` enqueues the target;
    /// `All` waits for every `All` edge into the target, then resets the
    /// target's pending count).  Enqueued targets are pushed on
    /// `ready_queue` and returned, in order.
    pub fn evaluate(
        &self,
        edges: &Vec<EdgeDef>,
        edge_states: &mut Vec<EdgeState>,
        event: EventType,
        exit_reason: Option<&str>,
        fan_in_pending: &mut HashMap<usize, usize>,
        ready_queue: &mut VecDeque<usize>,
    ) -> (ready: Vec<usize>)
        requires
            old(edge_states)@.len() == edges@.len(),
            forall|k: int|
                0 <= k < self.out_edge_indices@.len() ==> #[trigger] self.out_edge_indices@[k]
                    < edges@.len(),
            forall|k: int|
                0 <= k < self.out_edge_indices@.len() ==> old(edge_states)@[#[trigger] self.out_edge_indices@[k] as int].event_count
                    + self.out_edge_indices@.len() <= u64::MAX,
        ensures
            transfer_fold(
                edges@,
                self.out_edge_indices@,
                event,
                reason_view(exit_reason),
                (old(edge_states)@, old(fan_in_pending)@, old(ready_queue)@, Seq::empty()),
            ) == (final(edge_states)@, final(fan_in_pending)@, final(ready_queue)@, ready@),
    {
        let mut ready: Vec<usize> = Vec::new();
        let ghost reason = reason_view(exit_reason);
        let ghost st0: TransferState = (edge_states@, fan_in_pending@, ready_queue@, Seq::empty());
        let ghost out = self.out_edge_indices@;
        let mut k: usize = 0;
        while k < self.out_edge_indices.len()
            invariant
                k <= out.len(),
                out == self.out_edge_indices@,
                st0.0.len() == edges@.len(),
                edge_states@.len() == edges@.len(),
                forall|j: int| 0 <= j < out.len() ==> #[trigger] out[j] < edges@.len(),
                forall|j: int| 0 <= j < out.len() ==> st0.0[#[trigger] out[j] as int].event_count + out.len() <= u64::MAX,
                transfer_fold(edges@, out.take(k as int), event, reason, st0)
                    == (edge_states@, fan_in_pending@, ready_queue@, ready@),
                reason == reason_view(exit_reason),
            decreases out.len() - k,
        {
            let e = self.out_edge_indices[k];
            proof {
                assert(out.take(k + 1).drop_last() == out.take(k as int));
                assert(out.take(k + 1).last() == out[k as int]);
                lemma_count_bound(out, k as int, e, edges@, event, reason, st0);
            }
            let edge = &edges[e];
            if edge_matches_exec(edge, event, exit_reason) {
                let c = edge_states[e].event_count + 1;
                edge_states.set(e, EdgeState { event_count: c });
                if c >= edge.threshold {
                    match edge.strategy {
                        Strategy::Any => {
                            ready_queue.push_back(edge.to);
                            ready.push(edge.to);
                        },
                        Strategy::All => {
                            let to = edge.to;
                            match fan_in_pending.get(&to) {
                                Some(p) => {
                                    if *p > 0 {
                                        let np = *p - 1;
                                        fan_in_pending.insert(to, np);
                                    }
                                },
                                None => {},
                            }
                            let all_ready = match fan_in_pending.get(&to) {
                                Some(p) => *p == 0,
                                None => true,
                            };
                            if all_ready {
                                ready_queue.push_back(to);
                                ready.push(to);
                                if fan_in_pending.contains_key(&to) {
                                    let all_count = count_all_edges_to_exec(edges, to);
                                    fan_in_pending.insert(to, all_count);
                                }
                            }
                        },
                    }
                }
            }
            k = k + 1;
        }
        proof {
            assert(out.take(out.len() as int) == out);
        }
        ready
    }
}

/// While f_v runs over `out`, an edge's counter has grown by at most the
/// number of edges visited so far.
proof fn lemma_count_bound(
    out: Seq<usize>,
    k: int,
    e: usize,
    edges: Seq<EdgeDef>,
    event: EventType,
    reason: Option<Seq<char>>,
    st0: TransferState,
)
    requires
        0 <= k < out.len(),
        out[k] == e,
        st0.0.len() == edges.len(),
        forall|j: int| 0 <= j < out.len() ==> #[trigger] out[j] < edges.len(),
        forall|j: int| 0 <= j < out.len() ==> st0.0[#[trigger] out[j] as int].event_count + out.len() <= u64::MAX,
    ensures
        transfer_fold(edges, out.take(k), event, reason, st0).0[e as int].event_count < u64::MAX,
{
    lemma_count_growth(edges, out.take(k), event, reason, st0, e);
    assert(st0.0[out[k] as int].event_count + out.len() <= u64::MAX);
}

/// f_v over `out` raises a counter by at most `out.len()`.
pub proof fn lemma_count_growth(
    edges: Seq<EdgeDef>,
    out: Seq<usize>,
    event: EventType,
    reason: Option<Seq<char>>,
    st0: TransferState,
    e: usize,
)
    requires
        st0.0.len() == edges.len(),
        forall|j: int| 0 <= j < out.len() ==> #[trigger] out[j] < edges.len(),
    ensures
        transfer_fold(edges, out, event, reason, st0).0.len() == edges.len(),
        e < edges.len() ==> transfer_fold(edges, out, event, reason, st0).0[e as int].event_count <= st0.0[e as int].event_count
            + out.len(),
    decreases out.len(),
{
    if out.len() > 0 {
        lemma_count_growth(edges, out.drop_last(), event, reason, st0, e);
    }
}


/// A verified, aggregated graph definition.  Built by
/// [`GraphDef::from_components`], which checks five structural invariants;
/// all fields are private and read through accessors.
#[derive(Debug)]
pub struct GraphDef {
    graph: StableGraph<NodeData, (), Directed, u32>,
    index: Vec<(String, usize)>,
    edges: Vec<EdgeDef>,
    transfers: HashMap<usize, NodeTransfer>,
    params: HashMap<usize, NodeParams>,
    entries: Vec<usize>,
}

/// The first edge (at or after `k`) with an endpoint at or above `n`.
pub open spec fn first_edge_out_of_bounds(edges: Seq<EdgeDef>, n: nat, k: int) -> Option<int>
    decreases edges.len() - k,
{
    if k < 0 || k >= edges.len() {
        None
    } else if edges[k].from >= n || edges[k].to >= n {
        Some(k)
    } else {
        first_edge_out_of_bounds(edges, n, k + 1)
    }
}

/// Whether some transfer lists edge index `e` among its outgoing edges.
pub open spec fn edge_in_some_transfer(transfers: Map<usize, NodeTransfer>, e: usize) -> bool {
    exists|t: NodeTransfer| #[trigger] transfers.values().contains(t) && t.out_edge_indices@.contains(e)
}

/// The first violated invariant of a graph's components, by its message:
/// 1. every entry is a node index below the node count;
/// 2. every edge's endpoints are below the node count;
/// 3. the parameters cover exactly the nodes `0..n`;
/// 4. the transfers cover exactly the nodes `0..n`;
/// 5. every edge is referenced by at least one transfer.
pub open spec fn invariant_violation(
    slots: Seq<Option<NodeData>>,
    edges: Seq<EdgeDef>,
    transfers: Map<usize, NodeTransfer>,
    params: Map<usize, NodeParams>,
    entries: Seq<usize>,
) -> Option<Seq<char>> {
    let n = occupied_count(slots);
    if exists|i: int| 0 <= i < entries.len() && #[trigger] entries[i] >= n {
        Some("invariant 1: entry node index out of bounds"@)
    } else if first_edge_out_of_bounds(edges, n, 0) is Some {
        if edges[first_edge_out_of_bounds(edges, n, 0)->0].from >= n {
            Some("invariant 2: edge from index out of bounds"@)
        } else {
            Some("invariant 2: edge to index out of bounds"@)
        }
    } else if params.len() != n {
        Some("invariant 3: params count does not match node count"@)
    } else if exists|i: usize| i < n && !#[trigger] params.contains_key(i) {
        Some("invariant 3: missing params for node"@)
    } else if transfers.len() != n {
        Some("invariant 4: transfers count does not match node count"@)
    } else if exists|i: usize| i < n && !#[trigger] transfers.contains_key(i) {
        Some("invariant 4: missing transfer for node"@)
    } else if exists|e: usize| e < edges.len() && !#[trigger] edge_in_some_transfer(transfers, e) {
        Some("invariant 5: edge not referenced by any transfer"@)
    } else {
        None
    }
}

impl GraphDef {
    /// The node slots of the underlying stable graph.
    pub closed spec fn spec_slots(&self) -> Seq<Option<NodeData>> {
        stable_graph_slots(self.graph)
    }

    /// The ID-to-index table.
    pub closed spec fn spec_index(&self) -> Seq<(String, usize)> {
        self.index@
    }

    /// All edge definitions.
    pub closed spec fn spec_edges(&self) -> Seq<EdgeDef> {
        self.edges@
    }

    /// The transfer function of each node.
    pub closed spec fn spec_transfers(&self) -> Map<usize, NodeTransfer> {
        self.transfers@
    }

    /// The parameters of each node.
    pub closed spec fn spec_params(&self) -> Map<usize, NodeParams> {
        self.params@
    }

    /// The entry nodes.
    pub closed spec fn spec_entries(&self) -> Seq<usize> {
        self.entries@
    }

    /// The weight of node `idx` as [`GraphDef::node_weight`] returns it.
    pub open spec fn spec_node_weight(&self, idx: usize) -> Option<&NodeData> {
        if idx <= u32::MAX && idx < self.spec_slots().len() {
            match self.spec_slots()[idx as int] {
                Some(d) => Some(&d),
                None => None,
            }
        } else {
            None
        }
    }

    /// The number of nodes.
    pub open spec fn spec_node_count(&self) -> nat {
        occupied_count(self.spec_slots())
    }

    /// Whether all five invariants hold.
    pub open spec fn well_formed(&self) -> bool {
        invariant_violation(
            self.spec_slots(),
            self.spec_edges(),
            self.spec_transfers(),
            self.spec_params(),
            self.spec_entries(),
        ) is None
    }

    /// Build a `GraphDef` from its components, checking the five invariants
    /// (see [`invariant_violation`]).  This is the only way to create one.
    pub fn from_components(
        graph: StableGraph<NodeData, (), Directed, u32>,
        index: Vec<(String, usize)>,
        edges: Vec<EdgeDef>,
        transfers: HashMap<usize, NodeTransfer>,
        params: HashMap<usize, NodeParams>,
        entries: Vec<usize>,
    ) -> (r: Result<Self, ValidationError>)
        ensures
            match invariant_violation(stable_graph_slots(graph), edges@, transfers@, params@, entries@) {
                None => r matches Ok(g) && g.spec_slots() == stable_graph_slots(graph)
                    && g.spec_index() == index@ && g.spec_edges() == edges@
                    && g.spec_transfers() == transfers@ && g.spec_params() == params@
                    && g.spec_entries() == entries@,
                Some(msg) => r matches Err(ValidationError::BuildInvariant { description })
                    && description@ == msg,
            },
    {
        let def = GraphDef { graph, index, edges, transfers, params, entries };
        match def.check_invariants() {
            Ok(()) => Ok(def),
            Err(detail) => {
                let mut description = String::new();
                crate::text::push_str_chars(&mut description, detail);
                assert(Seq::<char>::empty() + detail@ == detail@);
                Err(ValidationError::BuildInvariant { description })
            },
        }
    }

    /// Whether all five invariants hold.
    pub fn invariants_hold(&self) -> (r: bool)
        ensures
            r == self.well_formed(),
    {
        self.check_invariants().is_ok()
    }

    /// Run the five invariant checks and report the first violation.
    fn check_invariants(&self) -> (r: Result<(), &'static str>)
        ensures
            match invariant_violation(self.spec_slots(), self.spec_edges(), self.spec_transfers(), self.spec_params(), self.spec_entries()) {
                None => r is Ok,
                Some(msg) => r matches Err(m) && m@ == msg,
            },
    {
        let n = stable_graph_node_count(&self.graph);
        let ghost slots = self.spec_slots();
        // 1. entries
        let mut i: usize = 0;
        while i < self.entries.len()
            invariant
                i <= self.entries@.len(),
                n == occupied_count(slots),
                slots == self.spec_slots(),
                forall|j: int| 0 <= j < i ==> self.entries@[j] < n,
            decreases self.entries@.len() - i,
        {
            if self.entries[i] >= n {
                assert(self.entries@[i as int] >= n);
                return Err("invariant 1: entry node index out of bounds");
            }
            i = i + 1;
        }
        // 2. edges
        let mut k: usize = 0;
        while k < self.edges.len()
            invariant
                k <= self.edges@.len(),
                n == occupied_count(slots),
                slots == self.spec_slots(),
                first_edge_out_of_bounds(self.edges@, n as nat, 0)
                    == first_edge_out_of_bounds(self.edges@, n as nat, k as int),
                forall|j: int| 0 <= j < self.entries@.len() ==> self.entries@[j] < n,
            decreases self.edges@.len() - k,
        {
            if self.edges[k].from >= n {
                assert(!exists|i: int| 0 <= i < self.entries@.len() && #[trigger] self.entries@[i] >= n);
                assert(first_edge_out_of_bounds(self.edges@, n as nat, k as int) == Some(k as int));
                return Err("invariant 2: edge from index out of bounds");
            }
            if self.edges[k].to >= n {
                assert(!exists|i: int| 0 <= i < self.entries@.len() && #[trigger] self.entries@[i] >= n);
                assert(first_edge_out_of_bounds(self.edges@, n as nat, k as int) == Some(k as int));
                return Err("invariant 2: edge to index out of bounds");
            }
            k = k + 1;
        }
        assert(!exists|i: int| 0 <= i < self.entries@.len() && #[trigger] self.entries@[i] >= n);
        assert(first_edge_out_of_bounds(self.edges@, n as nat, k as int) is None);
        // 3. params cover every node
        if self.params.len() != n {
            return Err("invariant 3: params count does not match node count");
        }
        let mut j: usize = 0;
        while j < n
            invariant
                j <= n,
                n == occupied_count(slots),
                slots == self.spec_slots(),
                self.params@.len() == n,
                !exists|i: int| 0 <= i < self.entries@.len() && #[trigger] self.entries@[i] >= n,
                first_edge_out_of_bounds(self.edges@, n as nat, 0) is None,
                forall|x: usize| x < j ==> self.params@.contains_key(x),
            decreases n - j,
        {
            if !self.params.contains_key(&j) {
                assert(!self.params@.contains_key(j));
                return Err("invariant 3: missing params for node");
            }
            j = j + 1;
        }
        // 4. transfers cover every node
        if self.transfers.len() != n {
            return Err("invariant 4: transfers count does not match node count");
        }
        let mut j: usize = 0;
        while j < n
            invariant
                j <= n,
                n == occupied_count(slots),
                slots == self.spec_slots(),
                self.params@.len() == n,
                self.transfers@.len() == n,
                !exists|i: int| 0 <= i < self.entries@.len() && #[trigger] self.entries@[i] >= n,
                first_edge_out_of_bounds(self.edges@, n as nat, 0) is None,
                forall|x: usize| x < n ==> self.params@.contains_key(x),
                forall|x: usize| x < j ==> self.transfers@.contains_key(x),
            decreases n - j,
        {
            if !self.transfers.contains_key(&j) {
                assert(!self.transfers@.contains_key(j));
                return Err("invariant 4: missing transfer for node");
            }
            j = j + 1;
        }
        // 5. every edge appears in at least one transfer
        let mut values: Vec<&NodeTransfer> = Vec::new();
        for t in it: self.transfers.values()
            invariant
                values@ == it.seq().take(it.index() as int),
                values@.len() == it.index(),
                it.seq().len() == self.transfers@.dom().len(),
                it.seq().unref().to_set() == self.transfers@.values(),
                values@.len() == it.seq().len() ==> values@.unref().to_set() == self.transfers@.values(),
        {
            values.push(t);
            proof {
                assert(it.seq().take(it.seq().len() as int) =~= it.seq());
            }
        }
        proof {
            assert(values@.len() == self.transfers@.dom().len());
            assert(values@.unref().to_set() == self.transfers@.values());
        }
        let mut e: usize = 0;
        while e < self.edges.len()
            invariant
                e <= self.edges@.len(),
                n == occupied_count(slots),
                slots == self.spec_slots(),
                self.params@.len() == n,
                self.transfers@.len() == n,
                !exists|i: int| 0 <= i < self.entries@.len() && #[trigger] self.entries@[i] >= n,
                first_edge_out_of_bounds(self.edges@, n as nat, 0) is None,
                forall|x: usize| x < n ==> self.params@.contains_key(x),
                forall|x: usize| x < n ==> self.transfers@.contains_key(x),
                values@.unref().to_set() == self.transfers@.values(),
                forall|x: usize| x < e ==> #[trigger] edge_in_some_transfer(self.transfers@, x),
            decreases self.edges@.len() - e,
        {
            let mut found = false;
            let mut v: usize = 0;
            while v < values.len()
                invariant
                    v <= values@.len(),
                    found ==> edge_in_some_transfer(self.transfers@, e),
                    !found ==> forall|y: int| 0 <= y < v ==> !values@[y].out_edge_indices@.contains(e),
                    values@.unref().to_set() == self.transfers@.values(),
                decreases values@.len() - v,
            {
                if vec_contains_usize(&values[v].out_edge_indices, e) {
                    proof {
                        assert(values@.unref()[v as int] == *values@[v as int]);
                        assert(values@.unref().to_set().contains(values@.unref()[v as int]));
                    }
                    found = true;
                }
                v = v + 1;
            }
            if !found {
                proof {
                    assert forall|t: NodeTransfer| #[trigger] self.transfers@.values().contains(t) implies !t.out_edge_indices@.contains(e) by {
                        assert(values@.unref().to_set().contains(t));
                        let y = choose|y: int| 0 <= y < values@.unref().len() && values@.unref()[y] == t;
                        assert(*values@[y] == t);
                    }
                    assert(!edge_in_some_transfer(self.transfers@, e));
                }
                return Err("invariant 5: edge not referenced by any transfer");
            }
            e = e + 1;
        }
        Ok(())
    }

    /// The number of nodes in the graph.
    pub fn node_count(&self) -> (n: usize)
        ensures
            n == self.spec_node_count(),
    {
        stable_graph_node_count(&self.graph)
    }

    /// The number of edges in the graph.
    pub fn edge_count(&self) -> (n: usize)
        ensures
            n == self.spec_edges().len(),
    {
        self.edges.len()
    }

    /// The weight of node `idx` (None for an index with no node).
    pub fn node_weight(&self, idx: usize) -> (w: Option<&NodeData>)
        ensures
            w == self.spec_node_weight(idx),
    {
        if idx > 4294967295usize {
            return None;
        }
        stable_graph_node_weight(&self.graph, idx)
    }

    /// The index of the node with ID `id` (first match in the index table).
    pub fn node_index(&self, id: &str) -> (r: Option<usize>)
        ensures
            match r {
                Some(i) => exists|k: int| 0 <= k < self.spec_index().len()
                    && self.spec_index()[k].0@ == id@ && self.spec_index()[k].1 == i
                    && forall|j: int| 0 <= j < k ==> self.spec_index()[j].0@ != id@,
                None => forall|k: int| 0 <= k < self.spec_index().len() ==> self.spec_index()[k].0@ != id@,
            },
    {
        let mut k: usize = 0;
        while k < self.index.len()
            invariant
                k <= self.index@.len(),
                forall|j: int| 0 <= j < k ==> self.index@[j].0@ != id@,
            decreases self.index@.len() - k,
        {
            if str_eq(self.index[k].0.as_str(), id) {
                assert(self.index@[k as int].0@ == id@);
                assert(forall|j: int| 0 <= j < k ==> self.spec_index()[j].0@ != id@);
                assert(self.spec_index()[k as int].0@ == id@ && self.spec_index()[k as int].1 == self.index@[k as int].1);
                return Some(self.index[k].1);
            }
            k = k + 1;
        }
        None
    }

    /// All edge definitions.
    pub fn edges(&self) -> (e: &Vec<EdgeDef>)
        ensures
            e@ == self.spec_edges(),
    {
        &self.edges
    }

    /// A copy of the ID-to-index table.
    pub fn index_entries(&self) -> (r: Vec<(String, usize)>)
        ensures
            entries_view(r@) == entries_view(self.spec_index()),
    {
        let mut r: Vec<(String, usize)> = Vec::new();
        let mut i: usize = 0;
        while i < self.index.len()
            invariant
                i <= self.index@.len(),
                entries_view(r@) == entries_view(self.index@.take(i as int)),
            decreases self.index@.len() - i,
        {
            let ghost before = r@;
            let key = self.index[i].0.clone();
            let val = self.index[i].1;
            r.push((key, val));
            assert(entries_view(r@) =~= entries_view(before).push((key@, val@)));
            assert(self.index@.take(i + 1) == self.index@.take(i as int).push(self.index@[i as int]));
            assert(entries_view(self.index@.take(i + 1)) =~= entries_view(self.index@.take(i as int)).push((key@, val@)));
            i = i + 1;
        }
        assert(self.index@.take(self.index@.len() as int) == self.index@);
        r
    }

    /// The transfer function of every node.
    pub fn transfers(&self) -> (t: &HashMap<usize, NodeTransfer>)
        ensures
            t@ == self.spec_transfers(),
    {
        &self.transfers
    }

    /// The parameters of node `idx`.
    pub fn node_params(&self, idx: usize) -> (p: Option<&NodeParams>)
        ensures
            match p {
                Some(q) => self.spec_params().contains_key(idx) && *q == self.spec_params()[idx],
                None => !self.spec_params().contains_key(idx),
            },
    {
        self.params.get(&idx)
    }

    /// All entry nodes.
    pub fn entry_nodes(&self) -> (e: &Vec<usize>)
        ensures
            e@ == self.spec_entries(),
    {
        &self.entries
    }

    /// All node indices, `0..node_count`.
    pub fn node_indices(&self) -> (v: Vec<usize>)
        ensures
            v@.len() == self.spec_node_count(),
            forall|i: int| 0 <= i < v@.len() ==> #[trigger] v@[i] == i,
    {
        let n = self.node_count();
        let mut v: Vec<usize> = Vec::new();
        for i in 0..n
            invariant
                n == self.spec_node_count(),
                v@.len() == i,
                forall|j: int| 0 <= j < v@.len() ==> #[trigger] v@[j] == j,
        {
            v.push(i);
        }
        v
    }
}

/// Whether `v` contains `x`.
pub fn vec_contains_usize(v: &Vec<usize>, x: usize) -> (r: bool)
    ensures
        r == v@.contains(x),
{
    let mut i: usize = 0;
    while i < v.len()
        invariant
            i <= v@.len(),
            forall|j: int| 0 <= j < i ==> v@[j] != x,
        decreases v@.len() - i,
    {
        if v[i] == x {
            return true;
        }
        i = i + 1;
    }
    false
}

} // verus!

verus! {

/// What f_v does per edge (see [`law_transfer_per_edge`]).
pub open spec fn transfer_per_edge(
    edges: Seq<EdgeDef>,
    out: Seq<usize>,
    event: EventType,
    exit_reason: Option<Seq<char>>,
    st: TransferState,
    r: TransferState,
) -> bool {
    &&& r.0.len() == st.0.len()
    &&& forall|i: int| 0 <= i < edges.len() && !out.contains(i as usize) ==> #[trigger] r.0[i] == st.0[i]
    &&& forall|i: int| 0 <= i < edges.len() && out.contains(i as usize) ==> (#[trigger] r.0[i]).event_count == (
        if edge_matches(edges[i], event, exit_reason) {
            st.0[i].event_count + 1
        } else {
            st.0[i].event_count as int
        })
    &&& r.2 == st.2 + r.3
    &&& forall|j: int| #![trigger r.3[j]] 0 <= j < r.3.len() ==> exists|k: int| 0 <= k < out.len()
        && edges[#[trigger] out[k] as int].to == r.3[j] && edge_matches(edges[out[k] as int], event, exit_reason)
}

/// Per edge, f_v modifies only what its outgoing edges own: an edge outside
/// `out` keeps its counter; an edge in `out` (each listed once) counts one
/// more event exactly when it matches the event and exit reason; the ready
/// queue grows by exactly the returned targets, in order; and every
/// returned target is the target of a matching outgoing edge.
#[verifier::spinoff_prover]
#[verifier::rlimit(40)]
pub proof fn law_transfer_per_edge(
    edges: Seq<EdgeDef>,
    out: Seq<usize>,
    event: EventType,
    exit_reason: Option<Seq<char>>,
    st: TransferState,
)
    requires
        edges.len() <= usize::MAX,
        st.0.len() == edges.len(),
        st.3 == Seq::<usize>::empty(),
        out.no_duplicates(),
        forall|k: int| 0 <= k < out.len() ==> #[trigger] out[k] < edges.len(),
        forall|k: int| 0 <= k < out.len() ==> st.0[#[trigger] out[k] as int].event_count < u64::MAX,
    ensures
        transfer_per_edge(edges, out, event, exit_reason, st, transfer_fold(edges, out, event, exit_reason, st)),
    decreases out.len(),
{
    let r = transfer_fold(edges, out, event, exit_reason, st);
    if out.len() == 0 {
        assert(st.2 + st.3 =~= st.2);
        assert(transfer_per_edge(edges, out, event, exit_reason, st, r));
    } else {
        let d = out.drop_last();
        let e = out.last();
        assert(out[out.len() - 1] == e);
        assert forall|k: int| 0 <= k < d.len() implies #[trigger] d[k] < edges.len() && st.0[d[k] as int].event_count < u64::MAX by {
            assert(d[k] == out[k]);
        }
        assert(d.no_duplicates()) by {
            assert forall|a: int, b: int| 0 <= a < d.len() && 0 <= b < d.len() && a != b implies d[a] != d[b] by {
                assert(d[a] == out[a] && d[b] == out[b]);
            }
        }
        assert(!d.contains(e)) by {
            if d.contains(e) {
                let a = choose|a: int| 0 <= a < d.len() && d[a] == e;
                assert(out[a] == e);
            }
        }
        law_transfer_per_edge(edges, d, event, exit_reason, st);
        let prev = transfer_fold(edges, d, event, exit_reason, st);
        assert(r == transfer_edge(edges, e as int, event, exit_reason, prev));
        assert(prev.0.len() == st.0.len());
        assert(r.0.len() == st.0.len());
        assert forall|i: int| 0 <= i < edges.len() && !out.contains(i as usize) implies #[trigger] r.0[i] == st.0[i] by {
            assert(i != e as int);
            if d.contains(i as usize) {
                let a = choose|a: int| 0 <= a < d.len() && d[a] == i as usize;
                assert(out[a] == i as usize);
            }
        }
        assert forall|i: int| 0 <= i < edges.len() && out.contains(i as usize) implies (#[trigger] r.0[i]).event_count == (
            if edge_matches(edges[i], event, exit_reason) {
                st.0[i].event_count + 1
            } else {
                st.0[i].event_count as int
            }) by {
            if i == e as int {
                assert(prev.0[i] == st.0[i]);
            } else {
                let a = choose|a: int| 0 <= a < out.len() && out[a] == i as usize;
                assert(i as usize as int == i);
                assert(a != out.len() - 1);
                assert(d[a] == i as usize);
            }
        }
        assert(r.2 =~= st.2 + r.3);
        assert forall|j: int| #![trigger r.3[j]] 0 <= j < r.3.len() implies exists|k: int| 0 <= k < out.len()
            && edges[#[trigger] out[k] as int].to == r.3[j] && edge_matches(edges[out[k] as int], event, exit_reason) by {
            if j < prev.3.len() {
                assert(r.3[j] == prev.3[j]);
                let k = choose|k: int| 0 <= k < d.len()
                    && edges[#[trigger] d[k] as int].to == prev.3[j] && edge_matches(edges[d[k] as int], event, exit_reason);
                assert(out[k] == d[k]);
            } else {
                assert(edges[out[out.len() - 1] as int].to == r.3[j]);
            }
        }
        assert(transfer_per_edge(edges, out, event, exit_reason, st, r));
    }
}

/// `first_edge_out_of_bounds` finds nothing exactly when every edge from
/// `k` on has both endpoints below `n`.
proof fn lemma_no_edge_out_of_bounds(edges: Seq<EdgeDef>, n: nat, k: int)
    requires
        0 <= k,
    ensures
        first_edge_out_of_bounds(edges, n, k) is None <==> forall|i: int| k <= i < edges.len() ==> (#[trigger] edges[i]).from < n && edges[i].to < n,
    decreases edges.len() - k,
{
    if k < edges.len() {
        lemma_no_edge_out_of_bounds(edges, n, k + 1);
    }
}

/// A graph built from components succeeds exactly when every entry and
/// every edge endpoint is a node index below the node count, the
/// parameters and the transfers each hold one entry per node `0..n`, and
/// every edge is listed by some transfer; a failure is always a
/// [`ValidationError::BuildInvariant`] naming the first violated condition.
pub proof fn law_build_succeeds_iff_invariants(
    slots: Seq<Option<NodeData>>,
    edges: Seq<EdgeDef>,
    transfers: Map<usize, NodeTransfer>,
    params: Map<usize, NodeParams>,
    entries: Seq<usize>,
)
    ensures
        ({
            let n = occupied_count(slots);
            invariant_violation(slots, edges, transfers, params, entries) is None <==> {
                &&& forall|i: int| 0 <= i < entries.len() ==> #[trigger] entries[i] < n
                &&& forall|i: int| 0 <= i < edges.len() ==> (#[trigger] edges[i]).from < n && edges[i].to < n
                &&& params.len() == n && forall|i: usize| i < n ==> #[trigger] params.contains_key(i)
                &&& transfers.len() == n && forall|i: usize| i < n ==> #[trigger] transfers.contains_key(i)
                &&& forall|e: usize| e < edges.len() ==> #[trigger] edge_in_some_transfer(transfers, e)
            }
        }),
{
    lemma_no_edge_out_of_bounds(edges, occupied_count(slots), 0);
}

} // verus!

verus! {

/// Whether an edge is an `All` edge into `to`.
pub open spec fn all_edge_into(e: EdgeDef, to: usize) -> bool {
    e.to == to && e.strategy == Strategy::All
}

/// The pending `All` count of a target is the number of its incoming edges
/// whose strategy is `All`; `Any` edges (and edges into other nodes) do
/// not count.
pub proof fn law_fan_in_counts_only_all_edges(edges: Seq<EdgeDef>, to: usize)
    ensures
        count_all_edges_to(edges, to) == edges.filter(|e: EdgeDef| all_edge_into(e, to)).len(),
    decreases edges.len(),
{
    let pred = |e: EdgeDef| all_edge_into(e, to);
    if edges.len() == 0 {
        assert(edges.filter(pred) =~= Seq::<EdgeDef>::empty());
    } else {
        let d = edges.drop_last();
        law_fan_in_counts_only_all_edges(d, to);
        d.lemma_filter_push(edges.last(), pred);
        assert(d.push(edges.last()) =~= edges);
    }
}

/// Firing an `Any` edge leaves every target's pending `All` count as it
/// was; an `All` edge whose target has one firing left enqueues the target
/// once it reaches its threshold.
pub proof fn law_any_edge_leaves_fan_in(
    edges: Seq<EdgeDef>,
    e: int,
    event: EventType,
    exit_reason: Option<Seq<char>>,
    st: TransferState,
)
    requires
        0 <= e < edges.len(),
        e < st.0.len(),
    ensures
        edges[e].strategy == Strategy::Any ==> transfer_edge(edges, e, event, exit_reason, st).1 == st.1,
        edges[e].strategy == Strategy::All && edge_matches(edges[e], event, exit_reason)
            && st.0[e].event_count + 1 >= edges[e].threshold && st.1.contains_key(edges[e].to)
            && st.1[edges[e].to] == 1 ==> transfer_edge(edges, e, event, exit_reason, st).2 == st.2.push(edges[e].to),
{
}

} // verus!
