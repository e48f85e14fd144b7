//! Construction of a [`GraphDef`] from a [`WorkflowDef`].
//!
//! Node `i` of the workflow becomes graph node `i`; every scheduling edge
//! becomes an edge between the positions of its endpoints; every node gets
//! its parameters and its transfer (the indices of its outgoing edges); the
//! entry nodes are those without incoming edges.

use std::collections::HashMap;

use vstd::prelude::*;

use crate::graph::edge::{EdgeDef, Strategy};
use crate::graph::graph_def::{edge_in_some_transfer, first_edge_out_of_bounds, invariant_violation, GraphDef, NodeData, NodeParams, NodeTransfer};
use crate::graph::petgraph_support::{occupied_count, stable_graph_add_node, stable_graph_new, stable_graph_slots};
use crate::graph::validator::{collect_ids, duplicate_errors, duplicate_errors_of, edge_pairs, node_ids};
use crate::model::error::{errors_view, ValidationError};
use crate::model::predecessor::{SchedulingEdgeDef, TriggerExpr};
use crate::model::provider::{opt_seq, provider_repr, ProviderDef};
use crate::model::workflow::{NodeDef, WorkflowDef};
use crate::text::strs_view;

verus! {

broadcast use vstd::std_specs::hash::group_hash_axioms;

/// The first position of `name` among the IDs.
pub open spec fn first_index(ids: Seq<Seq<char>>, name: Seq<char>) -> Option<int>
    decreases ids.len(),
{
    if ids.len() == 0 {
        None
    } else {
        match first_index(ids.drop_last(), name) {
            Some(i) => Some(i),
            None => if ids.last() == name { Some(ids.len() - 1) } else { None },
        }
    }
}

/// An `InvalidPredecessor` error for every edge with an endpoint that is
/// not a node.
pub open spec fn endpoint_errors(ids: Seq<Seq<char>>, ps: Seq<(Seq<char>, Seq<char>)>) -> Seq<(int, Seq<Seq<char>>)>
    decreases ps.len(),
{
    if ps.len() == 0 {
        Seq::empty()
    } else {
        let (from, to) = ps.last();
        endpoint_errors(ids, ps.drop_last()) + if !ids.contains(from) || !ids.contains(to) {
            seq![(7int, seq![to, from])]
        } else {
            Seq::empty()
        }
    }
}

/// Without endpoint errors, every edge joins two nodes.
pub proof fn lemma_no_endpoint_errors(ids: Seq<Seq<char>>, ps: Seq<(Seq<char>, Seq<char>)>)
    requires
        endpoint_errors(ids, ps).len() == 0,
    ensures
        forall|k: int| 0 <= k < ps.len() ==> ids.contains(#[trigger] ps[k].0) && ids.contains(ps[k].1),
    decreases ps.len(),
{
    if ps.len() > 0 {
        let d = ps.drop_last();
        lemma_no_endpoint_errors(ids, d);
        assert forall|k: int| 0 <= k < ps.len() implies ids.contains(#[trigger] ps[k].0) && ids.contains(ps[k].1) by {
            if k < d.len() {
                assert(d[k] == ps[k]);
            }
        }
    }
}

/// The aggregation strategy of a trigger expression.
pub open spec fn strategy_of(t: TriggerExpr) -> Strategy {
    match t {
        TriggerExpr::All => Strategy::All,
        TriggerExpr::Any => Strategy::Any,
    }
}

/// The graph edge a scheduling edge becomes.
pub open spec fn built_edge(ids: Seq<Seq<char>>, e: SchedulingEdgeDef) -> EdgeDef {
    EdgeDef {
        from: first_index(ids, e.from@)->0 as usize,
        to: first_index(ids, e.to@)->0 as usize,
        event_type: e.event,
        exit_reason: e.exit_reason,
        threshold: e.threshold,
        strategy: strategy_of(e.trigger),
    }
}

/// The indices of the edges leaving node `i`, in order.
pub open spec fn out_edges(edges: Seq<EdgeDef>, i: usize) -> Seq<usize>
    decreases edges.len(),
{
    if edges.len() == 0 {
        Seq::empty()
    } else {
        let prev = out_edges(edges.drop_last(), i);
        if edges.last().from == i {
            prev.push((edges.len() - 1) as usize)
        } else {
            prev
        }
    }
}

/// Every index `out_edges` lists is an index of an edge.
pub proof fn lemma_out_edges_bound(edges: Seq<EdgeDef>, i: usize)
    ensures
        forall|k: int| 0 <= k < out_edges(edges, i).len() ==> #[trigger] out_edges(edges, i)[k] < edges.len(),
    decreases edges.len(),
{
    if edges.len() > 0 {
        let d = edges.drop_last();
        lemma_out_edges_bound(d, i);
        let prev = out_edges(d, i);
        assert forall|k: int| 0 <= k < out_edges(edges, i).len() implies #[trigger] out_edges(edges, i)[k] < edges.len() by {
            if k < prev.len() {
                assert(out_edges(edges, i)[k] == prev[k]);
            }
        }
    }
}

/// The nodes among `0..n` without incoming edges, in order.
pub open spec fn entry_indices(edges: Seq<EdgeDef>, n: nat) -> Seq<usize>
    decreases n,
{
    if n == 0 {
        Seq::empty()
    } else {
        let prev = entry_indices(edges, (n - 1) as nat);
        if exists|k: int| 0 <= k < edges.len() && #[trigger] edges[k].to == (n - 1) as usize {
            prev
        } else {
            prev.push((n - 1) as usize)
        }
    }
}

/// A graph node's data is the workflow node's, field by field.
pub open spec fn node_data_of(d: NodeData, n: NodeDef) -> bool {
    &&& d.id@ == n.id@
    &&& d.process_timeout_secs == n.process_timeout_secs
    &&& d.route_policy == n.route_policy
    &&& d.max_retries == n.max_retries
    &&& opt_seq(d.scripts_dir) == opt_seq(n.scripts_dir)
    &&& d.providers@.len() == n.providers@.len()
    &&& forall|k: int| 0 <= k < n.providers@.len() ==> provider_repr(#[trigger] d.providers@[k]) == provider_repr(n.providers@[k])
}

/// The components `build` assembles, for a workflow with distinct IDs and
/// known edge endpoints.
pub open spec fn built_components(
    def: WorkflowDef,
    slots: Seq<Option<NodeData>>,
    index: Seq<(String, usize)>,
    edges: Seq<EdgeDef>,
    transfers: Map<usize, NodeTransfer>,
    params: Map<usize, NodeParams>,
    entries: Seq<usize>,
) -> bool {
    let nodes = def.nodes@;
    let ids = node_ids(nodes);
    &&& slots.len() == nodes.len()
    &&& forall|i: int| 0 <= i < nodes.len() ==> (#[trigger] slots[i]) is Some && node_data_of(slots[i]->0, nodes[i])
    &&& index.len() == nodes.len()
    &&& forall|i: int| 0 <= i < nodes.len() ==> (#[trigger] index[i]).0@ == ids[i] && index[i].1 == i
    &&& edges == def.edges@.map_values(|e: SchedulingEdgeDef| built_edge(ids, e))
    &&& forall|i: usize| #[trigger] params.contains_key(i) <==> i < nodes.len()
    &&& forall|i: usize| i < nodes.len() ==> (#[trigger] params[i]).process_timeout_secs == nodes[i as int].process_timeout_secs
    &&& forall|i: usize| #[trigger] transfers.contains_key(i) <==> i < nodes.len()
    &&& forall|i: usize| i < nodes.len() ==> (#[trigger] transfers[i]).from == i && transfers[i].out_edge_indices@ == out_edges(edges, i)
    &&& entries == entry_indices(edges, nodes.len())
}

/// Builds the runtime graph of a workflow.
pub struct Builder;

impl Builder {
    /// Build the graph of a workflow.  Duplicate IDs are reported first;
    /// then edges naming unknown nodes; otherwise the assembled graph, or
    /// the invariant it breaks.
    pub fn build(def: &WorkflowDef) -> (r: Result<GraphDef, Vec<ValidationError>>)
        requires
            def.nodes@.len() < u32::MAX,
        ensures
            duplicate_errors(node_ids(def.nodes@)).len() > 0 ==> r is Err
                && errors_view(r->Err_0@) == duplicate_errors(node_ids(def.nodes@)),
            duplicate_errors(node_ids(def.nodes@)).len() == 0
                && endpoint_errors(node_ids(def.nodes@), edge_pairs(def.edges@)).len() > 0 ==> r is Err
                && errors_view(r->Err_0@) == endpoint_errors(node_ids(def.nodes@), edge_pairs(def.edges@)),
            duplicate_errors(node_ids(def.nodes@)).len() == 0
                && endpoint_errors(node_ids(def.nodes@), edge_pairs(def.edges@)).len() == 0 ==> (r matches Ok(g)
                && g.well_formed() && built_components(
                    *def, g.spec_slots(), g.spec_index(), g.spec_edges(), g.spec_transfers(), g.spec_params(), g.spec_entries())),
    {
        let ids = collect_ids(&def.nodes);
        let ghost idv = node_ids(def.nodes@);
        let dups = duplicate_errors_of(&ids);
        if dups.len() > 0 {
            return Err(dups);
        }
        let ghost ps = edge_pairs(def.edges@);
        let mut bad: Vec<ValidationError> = Vec::new();
        let mut k: usize = 0;
        while k < def.edges.len()
            invariant
                k <= def.edges@.len(),
                ps == edge_pairs(def.edges@),
                idv == strs_view(ids@),
                errors_view(bad@) == endpoint_errors(idv, ps.take(k as int)),
            decreases def.edges@.len() - k,
        {
            proof {
                assert(ps.take(k + 1).drop_last() == ps.take(k as int));
                assert(ps.take(k + 1).last() == (def.edges@[k as int].from@, def.edges@[k as int].to@));
            }
            let e = &def.edges[k];
            let ghost before = bad@;
            if !crate::graph::reach::strings_contain(&ids, e.from.as_str())
                || !crate::graph::reach::strings_contain(&ids, e.to.as_str()) {
                bad.push(ValidationError::InvalidPredecessor { node_id: e.to.clone(), predecessor_id: e.from.clone() });
            }
            assert(errors_view(bad@) =~= endpoint_errors(idv, ps.take(k + 1)));
            k = k + 1;
        }
        assert(ps.take(ps.len() as int) == ps);
        if bad.len() > 0 {
            return Err(bad);
        }
        let n = def.nodes.len();
        let mut graph = stable_graph_new();
        let mut index: Vec<(String, usize)> = Vec::new();
        let mut params: HashMap<usize, NodeParams> = HashMap::new();
        let mut i: usize = 0;
        while i < n
            invariant
                i <= n == def.nodes@.len() < u32::MAX,
                idv == node_ids(def.nodes@),
                stable_graph_slots(graph).len() == i,
                forall|j: int| 0 <= j < i ==> (#[trigger] stable_graph_slots(graph)[j]) is Some
                    && node_data_of(stable_graph_slots(graph)[j]->0, def.nodes@[j]),
                index@.len() == i,
                forall|j: int| 0 <= j < i ==> (#[trigger] index@[j]).0@ == idv[j] && index@[j].1 == j,
                forall|j: usize| #[trigger] params@.contains_key(j) <==> j < i,
                forall|j: usize| j < i ==> (#[trigger] params@[j]).process_timeout_secs == def.nodes@[j as int].process_timeout_secs,
            decreases n - i,
        {
            let node = &def.nodes[i];
            let mut providers: Vec<ProviderDef> = Vec::new();
            let mut p: usize = 0;
            while p < node.providers.len()
                invariant
                    p <= node.providers@.len(),
                    providers@.len() == p,
                    forall|q: int| 0 <= q < p ==> provider_repr(#[trigger] providers@[q]) == provider_repr(node.providers@[q]),
                decreases node.providers@.len() - p,
            {
                providers.push(node.providers[p].copy());
                p = p + 1;
            }
            let data = NodeData {
                id: node.id.clone(),
                providers,
                process_timeout_secs: node.process_timeout_secs,
                route_policy: match &node.route_policy {
                    Some(rp) => Some(rp.copy()),
                    None => None,
                },
                max_retries: node.max_retries,
                scripts_dir: match &node.scripts_dir {
                    Some(d) => Some(d.clone()),
                    None => None,
                },
            };
            assert(node_data_of(data, def.nodes@[i as int]));
            let idx = stable_graph_add_node(&mut graph, data);
            assert(idx == i);
            index.push((node.id.clone(), idx));
            params.insert(idx, NodeParams { process_timeout_secs: node.process_timeout_secs });
            i = i + 1;
        }
        proof {
            lemma_no_endpoint_errors(idv, ps);
        }
        let mut edges: Vec<EdgeDef> = Vec::new();
        let ghost built = def.edges@.map_values(|e: SchedulingEdgeDef| built_edge(idv, e));
        let mut k: usize = 0;
        while k < def.edges.len()
            invariant
                k <= def.edges@.len(),
                idv == node_ids(def.nodes@),
                idv == strs_view(ids@),
                built == def.edges@.map_values(|e: SchedulingEdgeDef| built_edge(idv, e)),
                edges@ == built.take(k as int),
                ps == edge_pairs(def.edges@),
                forall|j: int| 0 <= j < ps.len() ==> idv.contains(#[trigger] ps[j].0) && idv.contains(ps[j].1),
            decreases def.edges@.len() - k,
        {
            let e = &def.edges[k];
            assert(ps[k as int] == (e.from@, e.to@));
            assert(idv.contains(ps[k as int].0));
            assert(strs_view(ids@).contains(e.from@));
            let fs = e.from.as_str();
            let ts = e.to.as_str();
            let from = first_position(&ids, fs);
            let to = first_position(&ids, ts);
            let strategy = match e.trigger {
                TriggerExpr::All => Strategy::All,
                TriggerExpr::Any => Strategy::Any,
            };
            let exit_reason = match &e.exit_reason {
                Some(s) => Some(s.clone()),
                None => None,
            };
            let edge = EdgeDef { from, to, event_type: e.event, exit_reason, threshold: e.threshold, strategy };
            assert(edge == built[k as int]);
            edges.push(edge);
            assert(edges@ =~= built.take(k + 1));
            k = k + 1;
        }
        assert(built.take(built.len() as int) == built);
        assert forall|j: int| 0 <= j < def.edges@.len() implies idv.contains(#[trigger] def.edges@[j].from@)
            && idv.contains(def.edges@[j].to@) by {
            assert(ps[j] == (def.edges@[j].from@, def.edges@[j].to@));
            assert(idv.contains(ps[j].0) && idv.contains(ps[j].1));
        }
        let mut transfers: HashMap<usize, NodeTransfer> = HashMap::new();
        let mut t: usize = 0;
        while t < n
            invariant
                t <= n == def.nodes@.len(),
                forall|j: int| 0 <= j < def.edges@.len() ==> idv.contains(#[trigger] def.edges@[j].from@)
                    && idv.contains(def.edges@[j].to@),
                forall|j: usize| #[trigger] transfers@.contains_key(j) <==> j < t,
                forall|j: usize| j < t ==> (#[trigger] transfers@[j]).from == j && transfers@[j].out_edge_indices@ == out_edges(edges@, j),
            decreases n - t,
        {
            let mut out: Vec<usize> = Vec::new();
            let mut k: usize = 0;
            while k < edges.len()
                invariant
                    k <= edges@.len(),
                    out@ == out_edges(edges@.take(k as int), t),
                decreases edges@.len() - k,
            {
                proof {
                    assert(edges@.take(k + 1).drop_last() == edges@.take(k as int));
                    assert(edges@.take(k + 1).last() == edges@[k as int]);
                }
                if edges[k].from == t {
                    out.push(k);
                }
                k = k + 1;
            }
            assert(edges@.take(edges@.len() as int) == edges@);
            transfers.insert(t, NodeTransfer { from: t, out_edge_indices: out });
            t = t + 1;
        }
        let mut entries: Vec<usize> = Vec::new();
        let mut v: usize = 0;
        while v < n
            invariant
                v <= n == def.nodes@.len(),
                forall|j: int| 0 <= j < def.edges@.len() ==> idv.contains(#[trigger] def.edges@[j].from@)
                    && idv.contains(def.edges@[j].to@),
                entries@ == entry_indices(edges@, v as nat),
            decreases n - v,
        {
            let mut incoming = false;
            let mut k: usize = 0;
            while k < edges.len()
                invariant
                    k <= edges@.len(),
                    incoming == exists|j: int| 0 <= j < k && #[trigger] edges@[j].to == v,
                decreases edges@.len() - k,
            {
                if edges[k].to == v {
                    incoming = true;
                }
                k = k + 1;
            }
            if !incoming {
                entries.push(v);
            }
            v = v + 1;
        }
        let ghost (s0, i0, e0, t0, p0, n0) = (stable_graph_slots(graph), index@, edges@, transfers@, params@, entries@);
        assert(built_components(*def, s0, i0, e0, t0, p0, n0));
        proof {
            lemma_built_graph_valid(*def, s0, i0, e0, t0, p0, n0);
        }
        match GraphDef::from_components(graph, index, edges, transfers, params, entries) {
            Ok(g) => Ok(g),
            Err(e) => {
                let mut es: Vec<ValidationError> = Vec::new();
                es.push(e);
                Err(es)
            },
        }
    }
}

/// The first position of `name` among the strings.
fn first_position(ids: &Vec<String>, name: &str) -> (r: usize)
    requires
        strs_view(ids@).contains(name@),
    ensures
        first_index(strs_view(ids@), name@) == Some(r as int),
{
    let ghost idv = strs_view(ids@);
    proof {
        lemma_first_index(idv, name@);
    }
    let mut i: usize = 0;
    while i < ids.len()
        invariant
            i <= ids@.len(),
            idv == strs_view(ids@),
            idv.contains(name@),
            forall|j: int| 0 <= j < i ==> idv[j] != name@,
            match first_index(idv, name@) {
                Some(x) => 0 <= x < idv.len() && idv[x] == name@ && forall|j: int| 0 <= j < x ==> idv[j] != name@,
                None => forall|j: int| 0 <= j < idv.len() ==> idv[j] != name@,
            },
        decreases ids@.len() - i,
    {
        assert(idv[i as int] == ids@[i as int]@);
        if crate::graph::graph_def::str_eq(ids[i].as_str(), name) {
            return i;
        }
        i = i + 1;
    }
    proof {
        let j = choose|j: int| 0 <= j < idv.len() && idv[j] == name@;
    }
    0
}

/// `first_index` finds the first position holding the name.
pub proof fn lemma_first_index(ids: Seq<Seq<char>>, name: Seq<char>)
    ensures
        match first_index(ids, name) {
            Some(x) => 0 <= x < ids.len() && ids[x] == name && forall|j: int| 0 <= j < x ==> ids[j] != name,
            None => forall|j: int| 0 <= j < ids.len() ==> ids[j] != name,
        },
    decreases ids.len(),
{
    if ids.len() > 0 {
        let d = ids.drop_last();
        lemma_first_index(d, name);
        assert forall|j: int| 0 <= j < d.len() implies d[j] == ids[j] by {}
    }
}

/// The node positions `0..n`.
pub open spec fn positions_below(n: nat) -> Set<usize> {
    Set::new(|i: usize| i < n)
}

/// `positions_below(n)` is finite with `n` elements.
proof fn lemma_positions_below(n: nat)
    requires
        n <= usize::MAX + 1,
    ensures
        positions_below(n).finite(),
        positions_below(n).len() == n,
    decreases n,
{
    if n == 0 {
        assert(positions_below(0) =~= Set::<usize>::empty());
    } else {
        let m = (n - 1) as nat;
        lemma_positions_below(m);
        assert(positions_below(n) =~= positions_below(m).insert(m as usize));
    }
}

/// A map whose keys are exactly `0..n` has `n` entries.
proof fn lemma_keys_below<V>(m: Map<usize, V>, n: nat)
    requires
        n <= usize::MAX + 1,
        forall|i: usize| #[trigger] m.contains_key(i) <==> i < n,
    ensures
        m.len() == n,
{
    lemma_positions_below(n);
    assert(m.dom() =~= positions_below(n));
}

/// Slots that are all occupied count one node each.
proof fn lemma_all_occupied(slots: Seq<Option<NodeData>>)
    requires
        forall|i: int| 0 <= i < slots.len() ==> (#[trigger] slots[i]) is Some,
    ensures
        occupied_count(slots) == slots.len(),
    decreases slots.len(),
{
    if slots.len() > 0 {
        let d = slots.drop_last();
        assert forall|i: int| 0 <= i < d.len() implies (#[trigger] d[i]) is Some by {
            assert(d[i] == slots[i]);
        }
        lemma_all_occupied(d);
    }
}

/// Every entry index is a node position.
proof fn lemma_entry_indices_bound(edges: Seq<EdgeDef>, n: nat)
    requires
        n <= usize::MAX + 1,
    ensures
        forall|k: int| 0 <= k < entry_indices(edges, n).len() ==> #[trigger] entry_indices(edges, n)[k] < n,
    decreases n,
{
    if n > 0 {
        let m = (n - 1) as nat;
        lemma_entry_indices_bound(edges, m);
        let prev = entry_indices(edges, m);
        assert forall|k: int| 0 <= k < entry_indices(edges, n).len() implies #[trigger] entry_indices(edges, n)[k] < n by {
            if k < prev.len() {
                assert(entry_indices(edges, n)[k] == prev[k]);
            }
        }
    }
}

/// Edges whose endpoints are all node positions have none out of bounds.
proof fn lemma_edges_in_bounds(edges: Seq<EdgeDef>, n: nat, k: int)
    requires
        0 <= k,
        forall|j: int| 0 <= j < edges.len() ==> (#[trigger] edges[j]).from < n && edges[j].to < n,
    ensures
        first_edge_out_of_bounds(edges, n, k) is None,
    decreases edges.len() - k,
{
    if k < edges.len() {
        lemma_edges_in_bounds(edges, n, k + 1);
    }
}

/// Edge `e` is among the outgoing edges of its source.
proof fn lemma_out_edges_contains(edges: Seq<EdgeDef>, e: int)
    requires
        0 <= e < edges.len() <= usize::MAX + 1,
    ensures
        out_edges(edges, edges[e].from).contains(e as usize),
    decreases edges.len(),
{
    let i = edges[e].from;
    let d = edges.drop_last();
    if e == edges.len() - 1 {
        assert(out_edges(edges, i) == out_edges(d, i).push(e as usize));
        assert(out_edges(edges, i)[out_edges(d, i).len() as int] == e as usize);
    } else {
        assert(d[e] == edges[e]);
        lemma_out_edges_contains(d, e);
        let prev = out_edges(d, i);
        let x = choose|x: int| 0 <= x < prev.len() && prev[x] == e as usize;
        if edges.last().from == i {
            assert(out_edges(edges, i)[x] == prev[x]);
        }
    }
}

/// The components that `build` assembles for a workflow with distinct IDs
/// whose edges all join known nodes satisfy the five graph invariants.
pub proof fn lemma_built_graph_valid(
    def: WorkflowDef,
    slots: Seq<Option<NodeData>>,
    index: Seq<(String, usize)>,
    edges: Seq<EdgeDef>,
    transfers: Map<usize, NodeTransfer>,
    params: Map<usize, NodeParams>,
    entries: Seq<usize>,
)
    requires
        def.nodes@.len() < u32::MAX,
        def.edges@.len() <= usize::MAX,
        built_components(def, slots, index, edges, transfers, params, entries),
        forall|k: int| 0 <= k < def.edges@.len() ==> node_ids(def.nodes@).contains(#[trigger] def.edges@[k].from@)
            && node_ids(def.nodes@).contains(def.edges@[k].to@),
    ensures
        invariant_violation(slots, edges, transfers, params, entries) is None,
{
    let ids = node_ids(def.nodes@);
    let n = def.nodes@.len();
    lemma_all_occupied(slots);
    lemma_entry_indices_bound(edges, n);
    assert forall|j: int| 0 <= j < edges.len() implies (#[trigger] edges[j]).from < n && edges[j].to < n by {
        let e = def.edges@[j];
        lemma_first_index(ids, e.from@);
        lemma_first_index(ids, e.to@);
        assert(edges[j] == built_edge(ids, e));
    }
    lemma_edges_in_bounds(edges, n, 0);
    lemma_keys_below(params, n);
    lemma_keys_below(transfers, n);
    assert forall|e: usize| e < edges.len() implies #[trigger] edge_in_some_transfer(transfers, e) by {
        let from = edges[e as int].from;
        lemma_out_edges_contains(edges, e as int);
        let t = transfers[from];
        assert(transfers.dom().contains(from));
        assert(transfers.values().contains(t));
        assert(t.out_edge_indices@.contains(e));
    }
}

} // verus!
