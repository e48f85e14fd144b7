//! Cycles of the node graph that no entry reaches, stated over walks: the
//! check through strongly connected components finds one exactly when some
//! node that no entry reaches lies on a cycle.

use vstd::prelude::*;

use crate::graph::petgraph_support::{listed_in, walk_reaches};
use crate::graph::reach::{linked, reaches};
use crate::graph::validator::{from_entry, graph_pairs, last_index, lemma_last_index, unentered};

verus! {

/// `v` lies on a cycle: an edge leaves it towards a node that reaches it back.
pub open spec fn on_cycle(edges: Seq<(usize, usize)>, v: usize) -> bool {
    exists|w: usize| edges.contains((v, w)) && #[trigger] walk_reaches(edges, w, v)
}

/// What Tarjan's algorithm gives: every node `0..n` listed exactly once,
/// nodes of one list reaching each other, nodes of different lists not.
pub open spec fn components_of(sccs: Seq<Vec<usize>>, n: nat, edges: Seq<(usize, usize)>) -> bool {
    &&& forall|i: int, k: int| 0 <= i < sccs.len() && 0 <= k < sccs[i]@.len() ==> #[trigger] sccs[i]@[k] < n
    &&& forall|v: usize| v < n ==> #[trigger] listed_in(sccs, v)
    &&& forall|i: int, k: int, j: int, m: int|
        0 <= i < sccs.len() && 0 <= k < sccs[i]@.len() && 0 <= j < sccs.len() && 0 <= m < sccs[j]@.len()
            && #[trigger] sccs[i]@[k] == #[trigger] sccs[j]@[m] ==> i == j && k == m
    &&& forall|i: int, k: int, m: int| 0 <= i < sccs.len() && 0 <= k < sccs[i]@.len() && 0 <= m < sccs[i]@.len()
        ==> walk_reaches(edges, #[trigger] sccs[i]@[k], #[trigger] sccs[i]@[m])
    &&& forall|i: int, k: int, j: int, m: int|
        0 <= i < sccs.len() && 0 <= k < sccs[i]@.len() && 0 <= j < sccs.len() && 0 <= m < sccs[j]@.len() && i != j
            ==> !(walk_reaches(edges, #[trigger] sccs[i]@[k], #[trigger] sccs[j]@[m])
            && walk_reaches(edges, sccs[j]@[m], sccs[i]@[k]))
}

/// An edge is a walk.
proof fn lemma_edge_reaches(edges: Seq<(usize, usize)>, a: usize, b: usize)
    requires
        edges.contains((a, b)),
    ensures
        walk_reaches(edges, a, b),
{
    let p = seq![a, b];
    assert(crate::graph::petgraph_support::is_walk(edges, p));
}

/// Walks compose.
proof fn lemma_reach_trans(edges: Seq<(usize, usize)>, a: usize, b: usize, c: usize)
    requires
        walk_reaches(edges, a, b),
        walk_reaches(edges, b, c),
    ensures
        walk_reaches(edges, a, c),
{
    let p1 = choose|p: Seq<usize>| #[trigger] crate::graph::petgraph_support::is_walk(edges, p) && p[0] == a && p.last() == b;
    let p2 = choose|p: Seq<usize>| #[trigger] crate::graph::petgraph_support::is_walk(edges, p) && p[0] == b && p.last() == c;
    let p = p1 + p2.skip(1);
    assert forall|k: int| 0 <= k < p.len() - 1 implies edges.contains((#[trigger] p[k], p[k + 1])) by {
        if k < p1.len() - 1 {
            assert(p[k] == p1[k] && p[k + 1] == p1[k + 1]);
        } else if k == p1.len() - 1 {
            assert(p[k] == p2[0] && p[k + 1] == p2[1]);
        } else {
            let j = k - p1.len() + 1;
            assert(p[k] == p2[j] && p[k + 1] == p2[j + 1]);
        }
    }
    assert(crate::graph::petgraph_support::is_walk(edges, p));
    if p2.len() == 1 {
        assert(p.last() == c);
    } else {
        assert(p.last() == p2.last());
    }
}

/// A walk between two different nodes starts with an edge towards a node
/// that reaches the end.
proof fn lemma_first_step(edges: Seq<(usize, usize)>, a: usize, b: usize) -> (w: usize)
    requires
        walk_reaches(edges, a, b),
        a != b,
    ensures
        edges.contains((a, w)),
        walk_reaches(edges, w, b),
{
    let p = choose|p: Seq<usize>| #[trigger] crate::graph::petgraph_support::is_walk(edges, p) && p[0] == a && p.last() == b;
    assert(p.len() > 1);
    assert(edges.contains((p[0], p[1])));
    let q = p.skip(1);
    assert forall|k: int| 0 <= k < q.len() - 1 implies edges.contains((#[trigger] q[k], q[k + 1])) by {
        assert(q[k] == p[k + 1] && q[k + 1] == p[k + 2]);
    }
    assert(crate::graph::petgraph_support::is_walk(edges, q));
    assert(q.last() == p.last());
    p[1]
}

/// Every edge of the node graph comes from a scheduling edge between the
/// IDs at its endpoints.
proof fn lemma_graph_edge_named(ids: Seq<Seq<char>>, ps: Seq<(Seq<char>, Seq<char>)>, a: usize, b: usize)
    requires
        ids.len() <= usize::MAX,
        graph_pairs(ids, ps).contains((a, b)),
    ensures
        a < ids.len(),
        b < ids.len(),
        linked(ps, ids[a as int], ids[b as int]),
    decreases ps.len(),
{
    let gp = graph_pairs(ids, ps);
    let j = choose|j: int| 0 <= j < gp.len() && gp[j] == (a, b);
    let d = ps.drop_last();
    let prev = graph_pairs(ids, d);
    let last = ps.last();
    assert(ps[ps.len() - 1] == last);
    match (last_index(ids, last.0), last_index(ids, last.1)) {
        (Some(x), Some(y)) => {
            assert(gp == prev.push((x as usize, y as usize)));
            if j < prev.len() {
                assert(prev[j] == (a, b));
                lemma_graph_edge_named(ids, d, a, b);
                let m = choose|m: int| 0 <= m < d.len() && d[m] == (ids[a as int], ids[b as int]);
                assert(ps[m] == d[m]);
            } else {
                lemma_last_index(ids, last.0);
                lemma_last_index(ids, last.1);
                assert(x as usize as int == x);
                assert(y as usize as int == y);
            }
        },
        _ => {
            assert(gp == prev);
            lemma_graph_edge_named(ids, d, a, b);
            let m = choose|m: int| 0 <= m < d.len() && d[m] == (ids[a as int], ids[b as int]);
            assert(ps[m] == d[m]);
        },
    }
}

/// A scheduling edge between two known IDs is an edge of the node graph
/// between their last positions.
proof fn lemma_named_edge_in_graph(ids: Seq<Seq<char>>, ps: Seq<(Seq<char>, Seq<char>)>, k: int)
    requires
        0 <= k < ps.len(),
        last_index(ids, ps[k].0) is Some,
        last_index(ids, ps[k].1) is Some,
    ensures
        graph_pairs(ids, ps).contains((last_index(ids, ps[k].0)->0 as usize, last_index(ids, ps[k].1)->0 as usize)),
    decreases ps.len(),
{
    let d = ps.drop_last();
    let prev = graph_pairs(ids, d);
    let e = (last_index(ids, ps[k].0)->0 as usize, last_index(ids, ps[k].1)->0 as usize);
    if k == ps.len() - 1 {
        assert(graph_pairs(ids, ps) == prev.push(e));
        assert(graph_pairs(ids, ps)[prev.len() as int] == e);
    } else {
        assert(d[k] == ps[k]);
        lemma_named_edge_in_graph(ids, d, k);
        let j = choose|j: int| 0 <= j < prev.len() && prev[j] == e;
        match (last_index(ids, ps.last().0), last_index(ids, ps.last().1)) {
            (Some(x), Some(y)) => {
                assert(graph_pairs(ids, ps) == prev.push((x as usize, y as usize)));
                assert(graph_pairs(ids, ps)[j] == e);
            },
            _ => {
                assert(graph_pairs(ids, ps) == prev);
            },
        }
    }
}

/// Being reached from an entry carries along an edge of the node graph.
proof fn lemma_reached_step(ids: Seq<Seq<char>>, ps: Seq<(Seq<char>, Seq<char>)>, a: usize, b: usize)
    requires
        ids.len() <= usize::MAX,
        graph_pairs(ids, ps).contains((a, b)),
        from_entry(ids, ps, ids[a as int]),
    ensures
        b < ids.len(),
        from_entry(ids, ps, ids[b as int]),
{
    lemma_graph_edge_named(ids, ps, a, b);
    let roots = crate::graph::validator::entry_ids(ids, ps);
    let p = choose|p: Seq<Seq<char>>| #[trigger] crate::graph::reach::is_walk(p, ps) && roots.contains(p[0])
        && p.last() == ids[a as int];
    let p2 = p.push(ids[b as int]);
    assert forall|m: int| 0 <= m < p2.len() - 1 implies #[trigger] linked(ps, p2[m], p2[m + 1]) by {
        if m < p.len() - 1 {
            assert(p2[m] == p[m] && p2[m + 1] == p[m + 1]);
        } else {
            assert(p2[m] == ids[a as int] && p2[m + 1] == ids[b as int]);
        }
    }
    assert(crate::graph::reach::is_walk(p2, ps));
    assert(p2[0] == p[0]);
    assert(p2.last() == ids[b as int]);
}

/// Being reached from an entry carries along a walk of the node graph,
/// from position `k` of the walk to its end.
proof fn lemma_reached_walk(ids: Seq<Seq<char>>, ps: Seq<(Seq<char>, Seq<char>)>, q: Seq<usize>, k: int)
    requires
        ids.len() <= usize::MAX,
        crate::graph::petgraph_support::is_walk(graph_pairs(ids, ps), q),
        0 <= k < q.len(),
        from_entry(ids, ps, ids[q[k] as int]),
    ensures
        from_entry(ids, ps, ids[q.last() as int]),
    decreases q.len() - k,
{
    if k < q.len() - 1 {
        assert(graph_pairs(ids, ps).contains((q[k], q[k + 1])));
        lemma_reached_step(ids, ps, q[k], q[k + 1]);
        lemma_reached_walk(ids, ps, q, k + 1);
    }
}

/// Being reached from an entry carries along a walk of the node graph.
proof fn lemma_reached_along(ids: Seq<Seq<char>>, ps: Seq<(Seq<char>, Seq<char>)>, u: usize, v: usize)
    requires
        ids.len() <= usize::MAX,
        from_entry(ids, ps, ids[u as int]),
        walk_reaches(graph_pairs(ids, ps), u, v),
    ensures
        from_entry(ids, ps, ids[v as int]),
{
    let edges = graph_pairs(ids, ps);
    let q = choose|p: Seq<usize>| #[trigger] crate::graph::petgraph_support::is_walk(edges, p) && p[0] == u && p.last() == v;
    lemma_reached_walk(ids, ps, q, 0);
}

/// An unentered component holds a node that no entry reaches and that
/// lies on a cycle.
#[verifier::spinoff_prover]
proof fn lemma_unentered_gives_cycle(
    sccs: Seq<Vec<usize>>,
    ids: Seq<Seq<char>>,
    ps: Seq<(Seq<char>, Seq<char>)>,
    i: int,
) -> (v: usize)
    requires
        ids.len() <= usize::MAX,
        components_of(sccs, ids.len(), graph_pairs(ids, ps)),
        0 <= i < sccs.len(),
        unentered(sccs[i]@, ids, ps),
    ensures
        v < ids.len(),
        !from_entry(ids, ps, ids[v as int]),
        on_cycle(graph_pairs(ids, ps), v),
{
    let edges = graph_pairs(ids, ps);
    let c = sccs[i]@;
    if c.len() > 1 {
        let v = c[0];
        let u = c[1];
        assert(v == sccs[i]@[0] && u == sccs[i]@[1]);
        assert(v != u);
        assert(walk_reaches(edges, sccs[i]@[0], sccs[i]@[1]));
        assert(walk_reaches(edges, sccs[i]@[1], sccs[i]@[0]));
        let w = lemma_first_step(edges, v, u);
        lemma_reach_trans(edges, w, u, v);
        assert(on_cycle(edges, v));
        assert(!from_entry(ids, ps, ids[c[0] as int]));
        assert(sccs[i]@[0] < ids.len());
        v
    } else {
        let v = c[0];
        assert(sccs[i]@[0] < ids.len());
        let k = choose|k: int| 0 <= k < ps.len() && #[trigger] ps[k] == (ids[c[0] as int], ids[c[0] as int]);
        lemma_last_index(ids, ids[v as int]);
        let x = last_index(ids, ids[v as int])->0;
        lemma_named_edge_in_graph(ids, ps, k);
        let xv = x as usize;
        assert(xv as int == x);
        assert(edges.contains((xv, xv)));
        lemma_edge_reaches(edges, xv, xv);
        assert(on_cycle(edges, xv));
        assert(ids[xv as int] == ids[v as int]);
        xv
    }
}

/// A node that no entry reaches and that lies on a cycle belongs to an
/// unentered component.
#[verifier::spinoff_prover]
proof fn lemma_cycle_gives_unentered(
    sccs: Seq<Vec<usize>>,
    ids: Seq<Seq<char>>,
    ps: Seq<(Seq<char>, Seq<char>)>,
    v: usize,
) -> (i: int)
    requires
        ids.len() <= usize::MAX,
        components_of(sccs, ids.len(), graph_pairs(ids, ps)),
        v < ids.len(),
        !from_entry(ids, ps, ids[v as int]),
        on_cycle(graph_pairs(ids, ps), v),
    ensures
        0 <= i < sccs.len(),
        unentered(sccs[i]@, ids, ps),
{
    let edges = graph_pairs(ids, ps);
    let w = choose|w: usize| edges.contains((v, w)) && #[trigger] walk_reaches(edges, w, v);
    assert(listed_in(sccs, v));
    let (i, k) = choose|i: int, k: int| 0 <= i < sccs.len() && 0 <= k < sccs[i]@.len() && #[trigger] sccs[i]@[k] == v;
    let c = sccs[i]@;
    lemma_edge_reaches(edges, v, w);
    if c.len() > 1 {
        assert forall|m: int| 0 <= m < c.len() implies !from_entry(ids, ps, #[trigger] ids[c[m] as int]) by {
            assert(walk_reaches(edges, sccs[i]@[m], sccs[i]@[k]));
            if from_entry(ids, ps, ids[c[m] as int]) {
                lemma_reached_along(ids, ps, c[m], v);
            }
        }
        assert(unentered(sccs[i]@, ids, ps));
    } else {
        assert(k == 0);
        lemma_graph_edge_named(ids, ps, v, w);
        assert(listed_in(sccs, w));
        let (j, m) = choose|j: int, m: int| 0 <= j < sccs.len() && 0 <= m < sccs[j]@.len() && #[trigger] sccs[j]@[m] == w;
        if j != i {
            assert(walk_reaches(edges, sccs[i]@[k], sccs[j]@[m]));
            assert(walk_reaches(edges, sccs[j]@[m], sccs[i]@[k]));
        }
        assert(j == i);
        assert(m == 0);
        assert(w == v);
        let q = choose|q: int| 0 <= q < ps.len() && ps[q] == (ids[v as int], ids[v as int]);
        assert(ps[q] == (ids[c[0] as int], ids[c[0] as int]));
        assert(unentered(sccs[i]@, ids, ps));
    }
    i
}

/// The components' check finds a cycle no entry reaches exactly when some
/// node that no entry reaches lies on a cycle of the node graph.
pub proof fn law_unentered_component_iff_unreached_cycle(
    sccs: Seq<Vec<usize>>,
    ids: Seq<Seq<char>>,
    ps: Seq<(Seq<char>, Seq<char>)>,
)
    requires
        ids.len() <= usize::MAX,
        components_of(sccs, ids.len(), graph_pairs(ids, ps)),
    ensures
        (exists|i: int| 0 <= i < sccs.len() && #[trigger] unentered(sccs[i]@, ids, ps)) <==> (exists|v: usize|
            v < ids.len() && !from_entry(ids, ps, ids[v as int]) && #[trigger] on_cycle(graph_pairs(ids, ps), v)),
{
    if exists|i: int| 0 <= i < sccs.len() && #[trigger] unentered(sccs[i]@, ids, ps) {
        let i = choose|i: int| 0 <= i < sccs.len() && #[trigger] unentered(sccs[i]@, ids, ps);
        let v = lemma_unentered_gives_cycle(sccs, ids, ps, i);
        assert(on_cycle(graph_pairs(ids, ps), v));
    }
    if exists|v: usize| v < ids.len() && !from_entry(ids, ps, ids[v as int]) && #[trigger] on_cycle(graph_pairs(ids, ps), v) {
        let v = choose|v: usize| v < ids.len() && !from_entry(ids, ps, ids[v as int]) && #[trigger] on_cycle(graph_pairs(ids, ps), v);
        let i = lemma_cycle_gives_unentered(sccs, ids, ps, v);
        assert(unentered(sccs[i]@, ids, ps));
    }
}

} // verus!
