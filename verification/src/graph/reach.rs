//! Adjacency lists and breadth-first reachability over named vertices, as
//! the validator uses them.

use vstd::prelude::*;

use crate::graph::graph_def::str_eq;
use crate::nodeshell::types::{entries_view, kv_find_exec, kv_get, kv_put, lemma_kv_find, lemma_kv_put_get};
use crate::text::strs_view;

verus! {

/// A directed link `a -> b` given by some pair of the list.
pub open spec fn linked(pairs: Seq<(Seq<char>, Seq<char>)>, a: Seq<char>, b: Seq<char>) -> bool {
    pairs.contains((a, b))
}

/// `p` is a non-empty walk along the links of `pairs`.
pub open spec fn is_walk(p: Seq<Seq<char>>, pairs: Seq<(Seq<char>, Seq<char>)>) -> bool {
    &&& p.len() > 0
    &&& forall|k: int| 0 <= k < p.len() - 1 ==> #[trigger] linked(pairs, p[k], p[k + 1])
}

/// `x` is reached by a walk that starts at one of the roots.
pub open spec fn reaches(roots: Seq<Seq<char>>, pairs: Seq<(Seq<char>, Seq<char>)>, x: Seq<char>) -> bool {
    exists|p: Seq<Seq<char>>| #[trigger] is_walk(p, pairs) && roots.contains(p[0]) && p.last() == x
}

/// The adjacency list of `pairs`: for every source, in order of first
/// appearance, its targets in order.
pub open spec fn adjacency_of(pairs: Seq<(Seq<char>, Seq<char>)>) -> Seq<(Seq<char>, Seq<Seq<char>>)>
    decreases pairs.len(),
{
    if pairs.len() == 0 {
        Seq::empty()
    } else {
        let prev = adjacency_of(pairs.drop_last());
        let (a, b) = pairs.last();
        let cs = match kv_get(prev, a) {
            Some(cs) => cs,
            None => Seq::empty(),
        };
        kv_put(prev, a, cs.push(b))
    }
}

/// The targets listed for `a` in an adjacency list.
pub open spec fn targets(adj: Seq<(Seq<char>, Seq<Seq<char>>)>, a: Seq<char>) -> Seq<Seq<char>> {
    match kv_get(adj, a) {
        Some(cs) => cs,
        None => Seq::empty(),
    }
}

/// An adjacency list seen through the views of its strings.
pub open spec fn adjacency_view(adj: Seq<(String, Vec<String>)>) -> Seq<(Seq<char>, Seq<Seq<char>>)> {
    adj.map_values(|p: (String, Vec<String>)| (p.0@, strs_view(p.1@)))
}

/// The adjacency list lists `b` among `a`'s targets exactly when `a -> b`
/// is one of the pairs.
pub proof fn lemma_adjacency(pairs: Seq<(Seq<char>, Seq<char>)>, a: Seq<char>, b: Seq<char>)
    ensures
        targets(adjacency_of(pairs), a).contains(b) <==> linked(pairs, a, b),
    decreases pairs.len(),
{
    if pairs.len() > 0 {
        let d = pairs.drop_last();
        let prev = adjacency_of(d);
        let (x, y) = pairs.last();
        lemma_adjacency(d, a, b);
        let cs = targets(prev, x);
        lemma_kv_put_get(prev, x, cs.push(y), a);
        assert(pairs == d.push((x, y)));
        if a == x {
            assert(targets(adjacency_of(pairs), a) == cs.push(y));
            if cs.push(y).contains(b) && b != y {
                let j = choose|j: int| 0 <= j < cs.push(y).len() && cs.push(y)[j] == b;
                assert(cs[j] == b);
            }
            if cs.contains(b) {
                let j = choose|j: int| 0 <= j < cs.len() && cs[j] == b;
                assert(cs.push(y)[j] == b);
            }
            if b == y {
                assert(cs.push(y)[cs.len() as int] == b);
            }
        } else {
            assert(targets(adjacency_of(pairs), a) == targets(prev, a));
        }
        if linked(pairs, a, b) && (a, b) != (x, y) {
            let j = choose|j: int| 0 <= j < pairs.len() && pairs[j] == (a, b);
            assert(d[j] == (a, b));
        }
        if linked(d, a, b) {
            let j = choose|j: int| 0 <= j < d.len() && d[j] == (a, b);
            assert(pairs[j] == (a, b));
        }
        if (a, b) == (x, y) {
            assert(pairs[pairs.len() - 1] == (a, b));
        }
    }
}

/// A set holding the roots and closed under the links holds every vertex
/// the roots reach.
pub proof fn lemma_closed_holds_reach(
    roots: Seq<Seq<char>>,
    pairs: Seq<(Seq<char>, Seq<char>)>,
    s: Seq<Seq<char>>,
    p: Seq<Seq<char>>,
)
    requires
        forall|r: Seq<char>| roots.contains(r) ==> s.contains(r),
        forall|a: Seq<char>, b: Seq<char>| s.contains(a) && #[trigger] linked(pairs, a, b) ==> s.contains(b),
        is_walk(p, pairs),
        roots.contains(p[0]),
    ensures
        s.contains(p.last()),
    decreases p.len(),
{
    if p.len() > 1 {
        let q = p.drop_last();
        assert forall|k: int| 0 <= k < q.len() - 1 implies #[trigger] linked(pairs, q[k], q[k + 1]) by {
            assert(linked(pairs, p[k], p[k + 1]));
        }
        lemma_closed_holds_reach(roots, pairs, s, q);
        let k = p.len() - 2;
        assert(linked(pairs, p[k], p[k + 1]));
        assert(q.last() == p[k]);
    }
}

/// Whether `v` holds a string equal to `s`.
pub fn strings_contain(v: &Vec<String>, s: &str) -> (r: bool)
    ensures
        r == strs_view(v@).contains(s@),
{
    let mut i: usize = 0;
    while i < v.len()
        invariant
            i <= v@.len(),
            forall|j: int| 0 <= j < i ==> v@[j]@ != s@,
        decreases v@.len() - i,
    {
        if str_eq(v[i].as_str(), s) {
            assert(strs_view(v@)[i as int] == s@);
            return true;
        }
        i = i + 1;
    }
    assert forall|j: int| 0 <= j < strs_view(v@).len() implies strs_view(v@)[j] != s@ by {
        assert(strs_view(v@)[j] == v@[j]@);
    }
    false
}

/// The adjacency list of a list of `(from, to)` pairs: node to its
/// children, in order.
pub fn build_child_map(pairs: &Vec<(String, String)>) -> (r: Vec<(String, Vec<String>)>)
    ensures
        adjacency_view(r@) == adjacency_of(entries_view(pairs@)),
{
    let ghost ps = entries_view(pairs@);
    let mut adj: Vec<(String, Vec<String>)> = Vec::new();
    let mut i: usize = 0;
    while i < pairs.len()
        invariant
            i <= pairs@.len(),
            ps == entries_view(pairs@),
            adjacency_view(adj@) == adjacency_of(ps.take(i as int)),
        decreases pairs@.len() - i,
    {
        let a = pairs[i].0.as_str();
        let b = pairs[i].1.clone();
        let ghost prev = adjacency_view(adj@);
        proof {
            assert(ps.take(i + 1).drop_last() == ps.take(i as int));
            assert(ps.take(i + 1).last() == (a@, b@));
            lemma_kv_find(prev, a@);
        }
        let found = kv_find_adj(&adj, a);
        match found {
            Some(j) => {
                let mut cs = crate::text::copy_strings(&adj[j].1);
                let ghost before = cs@;
                assert(strs_view(before) =~= strs_view(adj@[j as int].1@));
                assert(strs_view(before) == prev[j as int].1);
                assert(targets(prev, a@) == prev[j as int].1);
                cs.push(b);
                assert(strs_view(cs@) =~= targets(prev, a@).push(b@));
                let key = adj[j].0.clone();
                adj.set(j, (key, cs));
                assert(adjacency_view(adj@) =~= kv_put(prev, a@, targets(prev, a@).push(b@)));
            },
            None => {
                let mut cs: Vec<String> = Vec::new();
                cs.push(b);
                assert(targets(prev, a@) == Seq::<Seq<char>>::empty());
                assert(strs_view(cs@) =~= targets(prev, a@).push(b@));
                adj.push((String::from_str(a), cs));
                assert(adjacency_view(adj@) =~= kv_put(prev, a@, targets(prev, a@).push(b@)));
            },
        }
        i = i + 1;
    }
    assert(ps.take(ps.len() as int) == ps);
    adj
}

/// The position of `a` in an adjacency list.
fn kv_find_adj(adj: &Vec<(String, Vec<String>)>, a: &str) -> (r: Option<usize>)
    ensures
        match crate::nodeshell::types::kv_find(adjacency_view(adj@), a@) {
            Some(i) => r is Some && r->0 == i,
            None => r is None,
        },
{
    let ghost e = adjacency_view(adj@);
    proof {
        lemma_kv_find(e, a@);
    }
    let mut i: usize = 0;
    while i < adj.len()
        invariant
            i <= adj@.len(),
            e == adjacency_view(adj@),
            forall|j: int| 0 <= j < i ==> e[j].0 != a@,
            match crate::nodeshell::types::kv_find(e, a@) {
                Some(x) => 0 <= x < e.len() && e[x].0 == a@ && forall|j: int| 0 <= j < x ==> e[j].0 != a@,
                None => forall|j: int| 0 <= j < e.len() ==> e[j].0 != a@,
            },
        decreases adj@.len() - i,
    {
        assert(e[i as int].0 == adj@[i as int].0@);
        if str_eq(adj[i].0.as_str(), a) {
            return Some(i);
        }
        i = i + 1;
    }
    None
}

/// The vertices reachable from `roots` along an adjacency list, each once,
/// visited breadth-first.
pub fn bfs_from(roots: &Vec<String>, adjacency: &Vec<(String, Vec<String>)>, Ghost(pairs): Ghost<Seq<(Seq<char>, Seq<char>)>>) -> (r: Vec<String>)
    requires
        adjacency_view(adjacency@) == adjacency_of(pairs),
    ensures
        strs_view(r@).no_duplicates(),
        forall|x: Seq<char>| strs_view(r@).contains(x) <==> reaches(strs_view(roots@), pairs, x),
{
    let ghost rs = strs_view(roots@);
    let ghost adj = adjacency_of(pairs);
    let ghost universe = rs + pairs.map_values(|p: (Seq<char>, Seq<char>)| p.1);
    let mut visited: Vec<String> = Vec::new();
    let mut i: usize = 0;
    while i < roots.len()
        invariant
            i <= roots@.len(),
            rs == strs_view(roots@),
            strs_view(visited@).no_duplicates(),
            forall|j: int| 0 <= j < i ==> strs_view(visited@).contains(#[trigger] rs[j]),
            forall|x: Seq<char>| #[trigger] strs_view(visited@).contains(x) ==> rs.take(i as int).contains(x),
        decreases roots@.len() - i,
    {
        let ghost before = strs_view(visited@);
        if !strings_contain(&visited, roots[i].as_str()) {
            visited.push(roots[i].clone());
            proof {
                assert(strs_view(visited@) =~= before.push(rs[i as int]));
                assert(strs_view(visited@)[before.len() as int] == rs[i as int]);
                assert forall|x: Seq<char>| #[trigger] strs_view(visited@).contains(x) implies rs.take(i + 1).contains(x) by {
                    if x == rs[i as int] {
                        assert(rs.take(i + 1)[i as int] == x);
                    } else {
                        let j = choose|j: int| 0 <= j < strs_view(visited@).len() && strs_view(visited@)[j] == x;
                        assert(before[j] == x);
                        assert(before.contains(x));
                        let k = choose|k: int| 0 <= k < i && rs.take(i as int)[k] == x;
                        assert(rs.take(i + 1)[k] == x);
                    }
                }
                assert forall|j: int| 0 <= j < i + 1 implies strs_view(visited@).contains(#[trigger] rs[j]) by {
                    if j < i {
                        let k = choose|k: int| 0 <= k < before.len() && before[k] == rs[j];
                        assert(strs_view(visited@)[k] == rs[j]);
                    } else {
                        assert(strs_view(visited@)[before.len() as int] == rs[j]);
                    }
                }
            }
        } else {
            proof {
                assert forall|x: Seq<char>| #[trigger] strs_view(visited@).contains(x) implies rs.take(i + 1).contains(x) by {
                    let k = choose|k: int| 0 <= k < i && rs.take(i as int)[k] == x;
                    assert(rs.take(i + 1)[k] == x);
                }
            }
        }
        i = i + 1;
    }
    proof {
        assert(rs.take(rs.len() as int) == rs);
        assert forall|x: Seq<char>| #[trigger] strs_view(visited@).contains(x) implies universe.contains(x) by {
            let k = choose|k: int| 0 <= k < rs.len() && rs[k] == x;
            assert(universe[k] == x);
        }
        assert forall|k: int| 0 <= k < strs_view(visited@).len() implies reaches(rs, pairs, #[trigger] strs_view(visited@)[k]) by {
            let x = strs_view(visited@)[k];
            assert(strs_view(visited@).contains(x));
            assert(rs.contains(x));
            let w = seq![x];
            assert(is_walk(w, pairs));
        }
    }
    let mut head: usize = 0;
    while head < visited.len()
        invariant
            head <= visited@.len(),
            rs == strs_view(roots@),
            adjacency_view(adjacency@) == adj,
            adj == adjacency_of(pairs),
            universe == rs + pairs.map_values(|p: (Seq<char>, Seq<char>)| p.1),
            strs_view(visited@).no_duplicates(),
            forall|r: Seq<char>| rs.contains(r) ==> strs_view(visited@).contains(r),
            forall|x: Seq<char>| #[trigger] strs_view(visited@).contains(x) ==> universe.contains(x),
            forall|k: int| 0 <= k < strs_view(visited@).len() ==> reaches(rs, pairs, #[trigger] strs_view(visited@)[k]),
            forall|j: int, b: Seq<char>| 0 <= j < head && #[trigger] linked(pairs, strs_view(visited@)[j], b)
                ==> strs_view(visited@).contains(b),
        decreases universe.len() - head,
    {
        proof {
            let v = strs_view(visited@);
            assert(v.to_set().subset_of(universe.to_set()));
            v.unique_seq_to_set();
            universe.lemma_cardinality_of_set();
            vstd::seq_lib::seq_to_set_is_finite(universe);
            vstd::set_lib::lemma_len_subset(v.to_set(), universe.to_set());
            assert(head < universe.len());
        }
        let node = visited[head].clone();
        let ghost nv = node@;
        proof {
            assert(nv == strs_view(visited@)[head as int]);
        }
        let found = kv_find_adj(adjacency, node.as_str());
        proof {
            lemma_kv_find(adj, nv);
        }
        match found {
            Some(ci) => {
                let children = &adjacency[ci].1;
                let ghost cs = strs_view(children@);
                proof {
                    assert(adj[ci as int] == (adjacency@[ci as int].0@, cs));
                    assert(targets(adj, nv) == cs);
                }
                let mut c: usize = 0;
                while c < children.len()
                    invariant
                        c <= children@.len(),
                        cs == strs_view(children@),
                        targets(adj, nv) == cs,
                        adj == adjacency_of(pairs),
                        head < visited@.len(),
                        nv == strs_view(visited@)[head as int],
                        rs == strs_view(roots@),
                        universe == rs + pairs.map_values(|p: (Seq<char>, Seq<char>)| p.1),
                        strs_view(visited@).no_duplicates(),
                        forall|r: Seq<char>| rs.contains(r) ==> strs_view(visited@).contains(r),
                        forall|x: Seq<char>| #[trigger] strs_view(visited@).contains(x) ==> universe.contains(x),
                        forall|k: int| 0 <= k < strs_view(visited@).len() ==> reaches(rs, pairs, #[trigger] strs_view(visited@)[k]),
                        forall|j: int, b: Seq<char>| 0 <= j < head && #[trigger] linked(pairs, strs_view(visited@)[j], b)
                            ==> strs_view(visited@).contains(b),
                        forall|k: int| 0 <= k < c ==> strs_view(visited@).contains(#[trigger] cs[k]),
                    decreases children@.len() - c,
                {
                    let child = children[c].as_str();
                    let ghost before = strs_view(visited@);
                    proof {
                        assert(cs[c as int] == child@);
                        assert(cs.contains(child@));
                        lemma_adjacency(pairs, nv, child@);
                    }
                    if !strings_contain(&visited, child) {
                        visited.push(String::from_str(child));
                        proof {
                            let v = strs_view(visited@);
                            assert(v =~= before.push(child@));
                            assert(v[before.len() as int] == child@);
                            assert forall|x: Seq<char>| #[trigger] v.contains(x) implies before.contains(x) || x == child@ by {
                                let k = choose|k: int| 0 <= k < v.len() && v[k] == x;
                                if k < before.len() {
                                    assert(before[k] == x);
                                }
                            }
                            // the child is a target of a link, hence in the universe
                            let pi = choose|pi: int| 0 <= pi < pairs.len() && pairs[pi] == (nv, child@);
                            assert(universe[rs.len() + pi] == child@);
                            assert(universe.contains(child@));
                            // and it is reached by extending the walk to its parent
                            assert(reaches(rs, pairs, nv)) by {
                                assert(before[head as int] == nv);
                            }
                            let w = choose|w: Seq<Seq<char>>| #[trigger] is_walk(w, pairs) && rs.contains(w[0]) && w.last() == nv;
                            let w2 = w.push(child@);
                            assert forall|k: int| 0 <= k < w2.len() - 1 implies #[trigger] linked(pairs, w2[k], w2[k + 1]) by {
                                if k < w.len() - 1 {
                                    assert(linked(pairs, w[k], w[k + 1]));
                                }
                            }
                            assert(is_walk(w2, pairs));
                            assert forall|k: int| 0 <= k < v.len() implies reaches(rs, pairs, #[trigger] v[k]) by {
                                if k < before.len() {
                                    assert(v[k] == before[k]);
                                }
                            }
                            assert forall|k: int| 0 <= k < c + 1 implies v.contains(#[trigger] cs[k]) by {
                                if k < c {
                                    assert(before.contains(cs[k]));
                                    let m = choose|m: int| 0 <= m < before.len() && before[m] == cs[k];
                                    assert(v[m] == cs[k]);
                                }
                            }
                            assert forall|r: Seq<char>| rs.contains(r) implies v.contains(r) by {
                                assert(before.contains(r));
                                let m = choose|m: int| 0 <= m < before.len() && before[m] == r;
                                assert(v[m] == r);
                            }
                            assert forall|j: int, b: Seq<char>| 0 <= j < head && #[trigger] linked(pairs, v[j], b) implies v.contains(b) by {
                                assert(v[j] == before[j]);
                                assert(before.contains(b));
                                let m = choose|m: int| 0 <= m < before.len() && before[m] == b;
                                assert(v[m] == b);
                            }
                        }
                    }
                    c = c + 1;
                }
                proof {
                    let v = strs_view(visited@);
                    assert forall|j: int, b: Seq<char>| 0 <= j < head + 1 && #[trigger] linked(pairs, v[j], b) implies v.contains(b) by {
                        if j == head {
                            lemma_adjacency(pairs, nv, b);
                            let k = choose|k: int| 0 <= k < cs.len() && cs[k] == b;
                            assert(v.contains(cs[k]));
                        }
                    }
                }
            },
            None => {
                proof {
                    let v = strs_view(visited@);
                    assert forall|j: int, b: Seq<char>| 0 <= j < head + 1 && #[trigger] linked(pairs, v[j], b) implies v.contains(b) by {
                        if j == head {
                            lemma_adjacency(pairs, nv, b);
                            assert(targets(adj, nv) == Seq::<Seq<char>>::empty());
                        }
                    }
                }
            },
        }
        head = head + 1;
    }
    proof {
        let v = strs_view(visited@);
        assert forall|x: Seq<char>| v.contains(x) <==> reaches(rs, pairs, x) by {
            if v.contains(x) {
                let k = choose|k: int| 0 <= k < v.len() && v[k] == x;
                assert(reaches(rs, pairs, v[k]));
            }
            if reaches(rs, pairs, x) {
                let w = choose|w: Seq<Seq<char>>| #[trigger] is_walk(w, pairs) && rs.contains(w[0]) && w.last() == x;
                assert forall|a: Seq<char>, b: Seq<char>| v.contains(a) && #[trigger] linked(pairs, a, b) implies v.contains(b) by {
                    let j = choose|j: int| 0 <= j < v.len() && v[j] == a;
                    assert(linked(pairs, v[j], b));
                }
                lemma_closed_holds_reach(rs, pairs, v, w);
            }
        }
    }
    visited
}

} // verus!
