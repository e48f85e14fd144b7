//! The petgraph collections the engine keeps its graphs in, with the
//! contracts of the petgraph calls it makes.

use vstd::prelude::*;

use petgraph::graph::{DiGraph, Graph, NodeIndex};
use petgraph::stable_graph::StableGraph;
use petgraph::Directed;

use crate::graph::graph_def::NodeData;

verus! {

#[verifier::external_type_specification]
#[verifier::external_body]
#[verifier::reject_recursive_types(N)]
#[verifier::reject_recursive_types(E)]
#[verifier::reject_recursive_types(Ty)]
#[verifier::reject_recursive_types(Ix)]
pub struct ExStableGraph<N, E, Ty, Ix>(StableGraph<N, E, Ty, Ix>);

#[verifier::external_type_specification]
#[verifier::external_body]
#[verifier::reject_recursive_types(N)]
#[verifier::reject_recursive_types(E)]
#[verifier::reject_recursive_types(Ty)]
#[verifier::reject_recursive_types(Ix)]
pub struct ExGraph<N, E, Ty, Ix>(Graph<N, E, Ty, Ix>);

#[verifier::external_type_specification]
#[verifier::external_body]
pub struct ExDirected(Directed);

/// The node slots of a stable graph, by node index: `Some(weight)` for an
/// occupied slot, `None` for a vacancy left by a removal.
pub uninterp spec fn stable_graph_slots(g: StableGraph<NodeData, (), Directed, u32>) -> Seq<Option<NodeData>>;

/// The number of occupied slots.
pub open spec fn occupied_count(slots: Seq<Option<NodeData>>) -> nat
    decreases slots.len(),
{
    if slots.len() == 0 {
        0
    } else {
        occupied_count(slots.drop_last()) + if slots.last() is Some { 1nat } else { 0nat }
    }
}

/// `StableGraph::new`: an empty directed stable graph.
#[verifier::external_body]
pub(crate) fn stable_graph_new() -> (g: StableGraph<NodeData, (), Directed, u32>)
    ensures
        stable_graph_slots(g) == Seq::<Option<NodeData>>::empty(),
{
    StableGraph::new()
}

/// `StableGraph::add_node`: fills a vacant slot when there is one, else
/// appends a slot; returns the index of the slot that now holds `weight`.
/// It panics when the appended index would be `u32::MAX`.
#[verifier::external_body]
pub(crate) fn stable_graph_add_node(g: &mut StableGraph<NodeData, (), Directed, u32>, weight: NodeData) -> (i: usize)
    requires
        stable_graph_slots(*old(g)).len() < u32::MAX,
    ensures
        (forall|j: int| 0 <= j < stable_graph_slots(*old(g)).len() ==> stable_graph_slots(*old(g))[j] is Some)
            ==> i == stable_graph_slots(*old(g)).len()
            && stable_graph_slots(*final(g)) == stable_graph_slots(*old(g)).push(Some(weight)),
        !(forall|j: int| 0 <= j < stable_graph_slots(*old(g)).len() ==> stable_graph_slots(*old(g))[j] is Some)
            ==> i < stable_graph_slots(*old(g)).len()
            && stable_graph_slots(*old(g))[i as int] is None
            && stable_graph_slots(*final(g)) == stable_graph_slots(*old(g)).update(i as int, Some(weight)),
{
    g.add_node(weight).index()
}

/// `StableGraph::node_count`: the number of occupied slots.
#[verifier::external_body]
pub(crate) fn stable_graph_node_count(g: &StableGraph<NodeData, (), Directed, u32>) -> (n: usize)
    ensures
        n == occupied_count(stable_graph_slots(*g)),
{
    g.node_count()
}

/// `StableGraph::node_weight`: the weight in slot `i`, or `None` for a
/// vacant or missing slot.  (`NodeIndex::new` truncates to `u32`, hence
/// the bound on `i`.)
#[verifier::external_body]
pub(crate) fn stable_graph_node_weight(g: &StableGraph<NodeData, (), Directed, u32>, i: usize) -> (w: Option<&NodeData>)
    requires
        i <= u32::MAX,
    ensures
        w == (if i < stable_graph_slots(*g).len() {
            match stable_graph_slots(*g)[i as int] {
                Some(d) => Some(&d),
                None => None,
            }
        } else {
            None
        }),
{
    g.node_weight(NodeIndex::new(i))
}

/// The node weights of a directed graph, by node index.
pub uninterp spec fn digraph_nodes(g: DiGraph<usize, ()>) -> Seq<usize>;

/// The edges of a directed graph, as (source index, target index), in
/// insertion order.
pub uninterp spec fn digraph_edges(g: DiGraph<usize, ()>) -> Seq<(usize, usize)>;

/// What `petgraph::algo::tarjan_scc` returns for the directed graph with
/// nodes `0..node_count` and the given edges: its strongly connected
/// components, as lists of node indices.
pub uninterp spec fn tarjan_sccs(node_count: nat, edges: Seq<(usize, usize)>) -> Seq<Seq<usize>>;

/// Whether `p` is a walk along `edges`: at least one node, each step an edge.
pub open spec fn is_walk(edges: Seq<(usize, usize)>, p: Seq<usize>) -> bool {
    &&& p.len() >= 1
    &&& forall|k: int| 0 <= k < p.len() - 1 ==> edges.contains((#[trigger] p[k], p[k + 1]))
}

/// Whether `b` can be reached from `a` along `edges` (every node reaches
/// itself).
pub open spec fn walk_reaches(edges: Seq<(usize, usize)>, a: usize, b: usize) -> bool {
    exists|p: Seq<usize>| #[trigger] is_walk(edges, p) && p[0] == a && p.last() == b
}

/// Whether some list of `lists` holds `v`.
pub open spec fn listed_in(lists: Seq<Vec<usize>>, v: usize) -> bool {
    exists|i: int, k: int| 0 <= i < lists.len() && 0 <= k < lists[i]@.len() && #[trigger] lists[i]@[k] == v
}

/// `Graph::new`: an empty directed graph.
#[verifier::external_body]
pub(crate) fn digraph_new() -> (g: DiGraph<usize, ()>)
    ensures
        digraph_nodes(g) == Seq::<usize>::empty(),
        digraph_edges(g) == Seq::<(usize, usize)>::empty(),
{
    DiGraph::new()
}

/// `Graph::add_node`: appends a node; its index is the previous node
/// count.  It panics when that index would be `u32::MAX`.
#[verifier::external_body]
pub(crate) fn digraph_add_node(g: &mut DiGraph<usize, ()>, weight: usize) -> (i: usize)
    requires
        digraph_nodes(*old(g)).len() < u32::MAX,
    ensures
        i == digraph_nodes(*old(g)).len(),
        digraph_nodes(*final(g)) == digraph_nodes(*old(g)).push(weight),
        digraph_edges(*final(g)) == digraph_edges(*old(g)),
{
    g.add_node(weight).index()
}

/// `Graph::add_edge`: appends the edge `a -> b`.  It panics when an
/// endpoint is out of bounds or the edge index would be `u32::MAX`.
#[verifier::external_body]
pub(crate) fn digraph_add_edge(g: &mut DiGraph<usize, ()>, a: usize, b: usize)
    requires
        a < digraph_nodes(*old(g)).len(),
        b < digraph_nodes(*old(g)).len(),
        digraph_edges(*old(g)).len() < u32::MAX,
    ensures
        digraph_nodes(*final(g)) == digraph_nodes(*old(g)),
        digraph_edges(*final(g)) == digraph_edges(*old(g)).push((a, b)),
{
    g.add_edge(NodeIndex::new(a), NodeIndex::new(b), ());
}

/// `petgraph::algo::tarjan_scc` on a directed graph, with node indices
/// given as `usize`.  Its result is named by `tarjan_sccs`.  As the
/// function's documentation says, the lists are the strongly connected
/// components: every node of the graph is listed exactly once, two nodes
/// of one list reach each other, and two nodes of different lists do not.
/// The order of the lists and of the nodes inside a list is left unsaid.
#[verifier::external_body]
pub(crate) fn digraph_tarjan_scc(g: &DiGraph<usize, ()>) -> (sccs: Vec<Vec<usize>>)
    ensures
        sccs@.len() == tarjan_sccs(digraph_nodes(*g).len(), digraph_edges(*g)).len(),
        forall|i: int| 0 <= i < sccs@.len() ==>
            #[trigger] sccs@[i]@ == tarjan_sccs(digraph_nodes(*g).len(), digraph_edges(*g))[i],
        forall|i: int, k: int| 0 <= i < sccs@.len() && 0 <= k < sccs@[i]@.len() ==>
            #[trigger] sccs@[i]@[k] < digraph_nodes(*g).len(),
        forall|v: usize| v < digraph_nodes(*g).len() ==> #[trigger] listed_in(sccs@, v),
        forall|i: int, k: int, j: int, m: int|
            0 <= i < sccs@.len() && 0 <= k < sccs@[i]@.len() && 0 <= j < sccs@.len() && 0 <= m < sccs@[j]@.len()
                && #[trigger] sccs@[i]@[k] == #[trigger] sccs@[j]@[m] ==> i == j && k == m,
        forall|i: int, k: int, m: int| 0 <= i < sccs@.len() && 0 <= k < sccs@[i]@.len() && 0 <= m < sccs@[i]@.len()
            ==> walk_reaches(digraph_edges(*g), #[trigger] sccs@[i]@[k], #[trigger] sccs@[i]@[m]),
        forall|i: int, k: int, j: int, m: int|
            0 <= i < sccs@.len() && 0 <= k < sccs@[i]@.len() && 0 <= j < sccs@.len() && 0 <= m < sccs@[j]@.len() && i != j
                ==> !(walk_reaches(digraph_edges(*g), #[trigger] sccs@[i]@[k], #[trigger] sccs@[j]@[m])
                && walk_reaches(digraph_edges(*g), sccs@[j]@[m], sccs@[i]@[k])),
{
    let mut out: Vec<Vec<usize>> = Vec::new();
    for component in petgraph::algo::tarjan_scc(g) {
        let mut indices: Vec<usize> = Vec::new();
        for n in component {
            indices.push(n.index());
        }
        out.push(indices);
    }
    out
}

} // verus!
