//! Workflow definition validation.
//!
//! [`validate`] reports every structural problem of a workflow: an empty
//! graph, duplicate IDs, nodes without providers or with a zero timeout,
//! `llm` nodes without their wrapper script, a missing entry node, nodes not
//! reachable from an entry or not reaching an exit, a cycle no entry
//! reaches, data flows naming unknown or unreachable nodes, and template
//! placeholders with unknown fields or prefixes.

use vstd::prelude::*;

use crate::graph::cycles::{components_of, law_unentered_component_iff_unreached_cycle, on_cycle};
use crate::graph::petgraph_support::{
    digraph_add_edge, digraph_add_node, digraph_edges, digraph_new, digraph_nodes, digraph_tarjan_scc, tarjan_sccs,
};
use crate::graph::reach::{adjacency_view, adjacency_of, bfs_from, build_child_map, reaches, strings_contain};
use crate::model::error::{error_view, errors_view, warnings_view, ValidationError, ValidationWarning};
use crate::nodeshell::llm_sdk::path_joined;
use crate::model::predecessor::{DataFlowDef, SchedulingEdgeDef};
use crate::model::provider::ProviderDef;
use crate::model::workflow::{NodeDef, WorkflowDef};
use crate::nodeshell::types::entries_view;
use crate::nodeshell::template::{
    close_mark, content_key, datarouter_prefix, metadata_prefix, open_mark, route_key, run_count_key, timed_out_key,
};
use crate::text::{
    chars_eq, chars_range, contains_seq, find_from, find_from_exec, lemma_find_from, matches_at, matches_at_exec,
    push_char, push_str_chars, string_of_chars, strs_view, to_chars,
};

verus! {

/// The IDs of the nodes, in order.
pub open spec fn node_ids(nodes: Seq<NodeDef>) -> Seq<Seq<char>> {
    nodes.map_values(|n: NodeDef| n.id@)
}

/// The scheduling edges as `(from, to)` pairs.
pub open spec fn edge_pairs(edges: Seq<SchedulingEdgeDef>) -> Seq<(Seq<char>, Seq<char>)> {
    edges.map_values(|e: SchedulingEdgeDef| (e.from@, e.to@))
}

/// The scheduling edges reversed, as `(to, from)` pairs.
pub open spec fn reversed_pairs(edges: Seq<SchedulingEdgeDef>) -> Seq<(Seq<char>, Seq<char>)> {
    edges.map_values(|e: SchedulingEdgeDef| (e.to@, e.from@))
}

/// Some edge points at `id`.
pub open spec fn has_incoming(ps: Seq<(Seq<char>, Seq<char>)>, id: Seq<char>) -> bool {
    exists|k: int| 0 <= k < ps.len() && #[trigger] ps[k].1 == id
}

/// Some edge leaves `id`.
pub open spec fn has_outgoing(ps: Seq<(Seq<char>, Seq<char>)>, id: Seq<char>) -> bool {
    exists|k: int| 0 <= k < ps.len() && #[trigger] ps[k].0 == id
}

/// The entry nodes (no incoming edge), in node order.
pub open spec fn entry_ids(ids: Seq<Seq<char>>, ps: Seq<(Seq<char>, Seq<char>)>) -> Seq<Seq<char>> {
    ids.filter(|id: Seq<char>| !has_incoming(ps, id))
}

/// The exit nodes (no outgoing edge), in node order.
pub open spec fn exit_ids(ids: Seq<Seq<char>>, ps: Seq<(Seq<char>, Seq<char>)>) -> Seq<Seq<char>> {
    ids.filter(|id: Seq<char>| !has_outgoing(ps, id))
}

/// The IDs without repetitions, each at its first occurrence.
pub open spec fn distinct(ids: Seq<Seq<char>>) -> Seq<Seq<char>>
    decreases ids.len(),
{
    if ids.len() == 0 {
        Seq::empty()
    } else {
        let d = distinct(ids.drop_last());
        if d.contains(ids.last()) {
            d
        } else {
            d.push(ids.last())
        }
    }
}

/// `x` is reached from an entry node along the scheduling edges.
pub open spec fn from_entry(ids: Seq<Seq<char>>, ps: Seq<(Seq<char>, Seq<char>)>, x: Seq<char>) -> bool {
    entry_ids(ids, ps).len() > 0 && reaches(entry_ids(ids, ps), ps, x)
}

/// A duplicate-ID error for every node whose ID occurred before.
pub open spec fn duplicate_errors(ids: Seq<Seq<char>>) -> Seq<(int, Seq<Seq<char>>)>
    decreases ids.len(),
{
    if ids.len() == 0 {
        Seq::empty()
    } else {
        duplicate_errors(ids.drop_last()) + if ids.drop_last().contains(ids.last()) {
            seq![(6int, seq![ids.last()])]
        } else {
            Seq::empty()
        }
    }
}

/// An error for every node without providers.
pub open spec fn provider_errors(nodes: Seq<NodeDef>) -> Seq<(int, Seq<Seq<char>>)>
    decreases nodes.len(),
{
    if nodes.len() == 0 {
        Seq::empty()
    } else {
        provider_errors(nodes.drop_last()) + if nodes.last().providers@.len() == 0 {
            seq![(5int, seq![nodes.last().id@])]
        } else {
            Seq::empty()
        }
    }
}

/// An error for every node with a zero timeout.
pub open spec fn timeout_errors(nodes: Seq<NodeDef>) -> Seq<(int, Seq<Seq<char>>)>
    decreases nodes.len(),
{
    if nodes.len() == 0 {
        Seq::empty()
    } else {
        timeout_errors(nodes.drop_last()) + if nodes.last().process_timeout_secs == 0 {
            seq![(15int, seq![nodes.last().id@])]
        } else {
            Seq::empty()
        }
    }
}

/// The node has an `llm` provider.
pub open spec fn has_llm(n: NodeDef) -> bool {
    exists|k: int| 0 <= k < n.providers@.len() && #[trigger] n.providers@[k] is Llm
}

/// The directory searched for a node's `llm_node.py`: the node's scripts
/// directory, else the workflow's, else `./scripts`.
pub open spec fn wrapper_dir(n: NodeDef, workflow_dir: Option<String>) -> Seq<char> {
    match n.scripts_dir {
        Some(d) => d@,
        None => match workflow_dir {
            Some(d) => d@,
            None => "./scripts"@,
        },
    }
}

/// An error for every `llm` node whose wrapper script was not found.
pub open spec fn wrapper_errors(nodes: Seq<NodeDef>, workflow_dir: Option<String>, found: Seq<bool>) -> Seq<(int, Seq<Seq<char>>)>
    decreases nodes.len(),
{
    if nodes.len() == 0 {
        Seq::empty()
    } else {
        let i = nodes.len() - 1;
        wrapper_errors(nodes.drop_last(), workflow_dir, found) + if has_llm(nodes[i]) && !found[i] {
            seq![(16int, seq![nodes[i].id@, wrapper_dir(nodes[i], workflow_dir)])]
        } else {
            Seq::empty()
        }
    }
}

/// An error of variant `kind` for every listed ID the predicate rejects.
pub open spec fn rejected_ids(ids: Seq<Seq<char>>, ok: spec_fn(Seq<char>) -> bool, kind: int) -> Seq<(int, Seq<Seq<char>>)>
    decreases ids.len(),
{
    if ids.len() == 0 {
        Seq::empty()
    } else {
        rejected_ids(ids.drop_last(), ok, kind) + if !ok(ids.last()) {
            seq![(kind, seq![ids.last()])]
        } else {
            Seq::empty()
        }
    }
}

/// Errors for data flows whose source or target is not a node.
pub open spec fn source_errors(dfs: Seq<DataFlowDef>, ids: Seq<Seq<char>>) -> Seq<(int, Seq<Seq<char>>)>
    decreases dfs.len(),
{
    if dfs.len() == 0 {
        Seq::empty()
    } else {
        let df = dfs.last();
        source_errors(dfs.drop_last(), ids)
            + (if !ids.contains(df.from@) { seq![(8int, seq![df.to@, df.from@])] } else { Seq::empty() })
            + (if !ids.contains(df.to@) { seq![(8int, seq![df.to@, df.from@])] } else { Seq::empty() })
    }
}

/// Errors for data flows whose source is a node not reached from an entry.
pub open spec fn unreachable_source_errors(dfs: Seq<DataFlowDef>, ids: Seq<Seq<char>>, ps: Seq<(Seq<char>, Seq<char>)>) -> Seq<(int, Seq<Seq<char>>)>
    decreases dfs.len(),
{
    if dfs.len() == 0 {
        Seq::empty()
    } else {
        let df = dfs.last();
        unreachable_source_errors(dfs.drop_last(), ids, ps) + if ids.contains(df.from@) && !from_entry(ids, ps, df.from@) {
            seq![(9int, seq![df.to@, df.from@])]
        } else {
            Seq::empty()
        }
    }
}

/// The IDs of a node list.
pub(crate) fn collect_ids(nodes: &Vec<NodeDef>) -> (r: Vec<String>)
    ensures
        strs_view(r@) == node_ids(nodes@),
{
    let mut r: Vec<String> = Vec::new();
    let mut i: usize = 0;
    while i < nodes.len()
        invariant
            i <= nodes@.len(),
            strs_view(r@) == node_ids(nodes@).take(i as int),
        decreases nodes@.len() - i,
    {
        let ghost before = r@;
        let id = nodes[i].id.clone();
        assert(id@ == node_ids(nodes@)[i as int]);
        r.push(id);
        assert(r@ == before.push(id));
        assert(strs_view(r@) =~= strs_view(before).push(id@));
        assert(strs_view(r@) =~= node_ids(nodes@).take(i + 1));
        i = i + 1;
    }
    assert(node_ids(nodes@).take(nodes@.len() as int) =~= node_ids(nodes@));
    r
}

/// The scheduling edges as `(from, to)` pairs, or reversed.
fn collect_pairs(edges: &Vec<SchedulingEdgeDef>, reverse: bool) -> (r: Vec<(String, String)>)
    ensures
        entries_view(r@) == if reverse { reversed_pairs(edges@) } else { edge_pairs(edges@) },
{
    let ghost target = if reverse { reversed_pairs(edges@) } else { edge_pairs(edges@) };
    let mut r: Vec<(String, String)> = Vec::new();
    let mut i: usize = 0;
    while i < edges.len()
        invariant
            i <= edges@.len(),
            target == if reverse { reversed_pairs(edges@) } else { edge_pairs(edges@) },
            entries_view(r@) == target.take(i as int),
        decreases edges@.len() - i,
    {
        let ghost before = r@;
        let p = if reverse {
            (edges[i].to.clone(), edges[i].from.clone())
        } else {
            (edges[i].from.clone(), edges[i].to.clone())
        };
        assert((p.0@, p.1@) == target[i as int]);
        r.push(p);
        assert(entries_view(r@) =~= entries_view(before).push((p.0@, p.1@)));
        assert(entries_view(r@) =~= target.take(i + 1));
        i = i + 1;
    }
    assert(target.take(edges@.len() as int) =~= target);
    r
}

/// The IDs that are (`incoming`) or are not (`!incoming`) the target, or
/// with `sources` the source, of some pair: entry and exit selection.
fn ids_without_link(ids: &Vec<String>, pairs: &Vec<(String, String)>, Ghost(ps): Ghost<Seq<(Seq<char>, Seq<char>)>>) -> (r: Vec<String>)
    requires
        entries_view(pairs@) == ps,
    ensures
        strs_view(r@) == strs_view(ids@).filter(|id: Seq<char>| !has_incoming(ps, id)),
{
    let ghost idv = strs_view(ids@);
    let ghost keep = |id: Seq<char>| !has_incoming(ps, id);
    let mut r: Vec<String> = Vec::new();
    let mut i: usize = 0;
    while i < ids.len()
        invariant
            i <= ids@.len(),
            idv == strs_view(ids@),
            entries_view(pairs@) == ps,
            keep == (|id: Seq<char>| !has_incoming(ps, id)),
            strs_view(r@) == idv.take(i as int).filter(keep),
        decreases ids@.len() - i,
    {
        let id = ids[i].as_str();
        let mut incoming = false;
        let mut k: usize = 0;
        while k < pairs.len()
            invariant
                k <= pairs@.len(),
                entries_view(pairs@) == ps,
                incoming == exists|j: int| 0 <= j < k && #[trigger] ps[j].1 == id@,
            decreases pairs@.len() - k,
        {
            assert(ps[k as int].1 == pairs@[k as int].1@);
            if crate::graph::graph_def::str_eq(pairs[k].1.as_str(), id) {
                incoming = true;
            }
            k = k + 1;
        }
        proof {
            assert(idv.take(i + 1).drop_last() == idv.take(i as int));
            assert(idv.take(i + 1).last() == id@);
            idv.take(i as int).lemma_filter_push(id@, keep);
            assert(idv.take(i + 1) == idv.take(i as int).push(id@));
        }
        if !incoming {
            r.push(ids[i].clone());
            assert(strs_view(r@) =~= idv.take(i + 1).filter(keep));
        } else {
            assert(strs_view(r@) =~= idv.take(i + 1).filter(keep));
        }
        i = i + 1;
    }
    assert(idv.take(idv.len() as int) == idv);
    r
}

/// Whether `s` occurs among the first `n` strings of `v`.
fn prefix_contains(v: &Vec<String>, n: usize, s: &str) -> (r: bool)
    requires
        n <= v@.len(),
    ensures
        r == strs_view(v@).take(n as int).contains(s@),
{
    let ghost w = strs_view(v@).take(n as int);
    let mut i: usize = 0;
    while i < n
        invariant
            i <= n <= v@.len(),
            w == strs_view(v@).take(n as int),
            forall|j: int| 0 <= j < i ==> w[j] != s@,
        decreases n - i,
    {
        assert(w[i as int] == v@[i as int]@);
        if crate::graph::graph_def::str_eq(v[i].as_str(), s) {
            return true;
        }
        i = i + 1;
    }
    false
}

/// The IDs without repetitions, each at its first occurrence.
fn distinct_ids(ids: &Vec<String>) -> (r: Vec<String>)
    ensures
        strs_view(r@) == distinct(strs_view(ids@)),
{
    let ghost idv = strs_view(ids@);
    let mut r: Vec<String> = Vec::new();
    let mut i: usize = 0;
    while i < ids.len()
        invariant
            i <= ids@.len(),
            idv == strs_view(ids@),
            strs_view(r@) == distinct(idv.take(i as int)),
        decreases ids@.len() - i,
    {
        proof {
            assert(idv.take(i + 1).drop_last() == idv.take(i as int));
            assert(idv.take(i + 1).last() == ids@[i as int]@);
        }
        if !strings_contain(&r, ids[i].as_str()) {
            let ghost before = r@;
            r.push(ids[i].clone());
            assert(strs_view(r@) =~= strs_view(before).push(ids@[i as int]@));
        }
        i = i + 1;
    }
    assert(idv.take(idv.len() as int) == idv);
    r
}

/// Duplicate-ID errors.
pub(crate) fn duplicate_errors_of(ids: &Vec<String>) -> (r: Vec<ValidationError>)
    ensures
        errors_view(r@) == duplicate_errors(strs_view(ids@)),
{
    let ghost idv = strs_view(ids@);
    let mut r: Vec<ValidationError> = Vec::new();
    let mut i: usize = 0;
    while i < ids.len()
        invariant
            i <= ids@.len(),
            idv == strs_view(ids@),
            errors_view(r@) == duplicate_errors(idv.take(i as int)),
        decreases ids@.len() - i,
    {
        proof {
            assert(idv.take(i + 1).drop_last() == idv.take(i as int));
            assert(idv.take(i + 1).last() == ids@[i as int]@);
        }
        let ghost before = r@;
        if prefix_contains(ids, i, ids[i].as_str()) {
            r.push(ValidationError::DuplicateNodeId { node_id: ids[i].clone() });
        }
        assert(errors_view(r@) =~= duplicate_errors(idv.take(i + 1)));
        i = i + 1;
    }
    assert(idv.take(idv.len() as int) == idv);
    r
}

/// Errors for nodes without providers and nodes with a zero timeout.
fn node_errors_of(nodes: &Vec<NodeDef>, timeouts: bool) -> (r: Vec<ValidationError>)
    ensures
        errors_view(r@) == if timeouts { timeout_errors(nodes@) } else { provider_errors(nodes@) },
{
    let ghost target = |ns: Seq<NodeDef>| if timeouts { timeout_errors(ns) } else { provider_errors(ns) };
    let mut r: Vec<ValidationError> = Vec::new();
    let mut i: usize = 0;
    while i < nodes.len()
        invariant
            i <= nodes@.len(),
            target == (|ns: Seq<NodeDef>| if timeouts { timeout_errors(ns) } else { provider_errors(ns) }),
            errors_view(r@) == target(nodes@.take(i as int)),
        decreases nodes@.len() - i,
    {
        proof {
            assert(nodes@.take(i + 1).drop_last() == nodes@.take(i as int));
            assert(nodes@.take(i + 1).last() == nodes@[i as int]);
        }
        let n = &nodes[i];
        if timeouts {
            if n.process_timeout_secs == 0 {
                r.push(ValidationError::ZeroTimeout { node_id: n.id.clone() });
            }
        } else {
            if n.providers.len() == 0 {
                r.push(ValidationError::NoValidProvider { node_id: n.id.clone() });
            }
        }
        assert(errors_view(r@) =~= target(nodes@.take(i + 1)));
        i = i + 1;
    }
    assert(nodes@.take(nodes@.len() as int) == nodes@);
    r
}

/// Whether a node has an `llm` provider.
pub fn node_has_llm(n: &NodeDef) -> (r: bool)
    ensures
        r == has_llm(*n),
{
    let mut i: usize = 0;
    while i < n.providers.len()
        invariant
            i <= n.providers@.len(),
            forall|k: int| 0 <= k < i ==> !(#[trigger] n.providers@[k] is Llm),
        decreases n.providers@.len() - i,
    {
        match &n.providers[i] {
            ProviderDef::Llm { .. } => {
                return true;
            },
            _ => {},
        }
        i = i + 1;
    }
    false
}

/// The directory searched for a node's `llm_node.py`: the node's scripts
/// directory, else the workflow's, else `./scripts`.
pub fn wrapper_search_dir(node: &NodeDef, workflow_dir: &Option<String>) -> (r: String)
    ensures
        r@ == wrapper_dir(*node, *workflow_dir),
{
    match &node.scripts_dir {
        Some(d) => d.clone(),
        None => match workflow_dir {
            Some(d) => d.clone(),
            None => String::from_str("./scripts"),
        },
    }
}

/// Errors for `llm` nodes whose wrapper script was not found.
fn wrapper_errors_of(nodes: &Vec<NodeDef>, workflow_dir: &Option<String>, found: &Vec<bool>) -> (r: Vec<ValidationError>)
    requires
        found@.len() == nodes@.len(),
    ensures
        errors_view(r@) == wrapper_errors(nodes@, *workflow_dir, found@),
{
    let mut r: Vec<ValidationError> = Vec::new();
    let mut i: usize = 0;
    while i < nodes.len()
        invariant
            i <= nodes@.len(),
            found@.len() == nodes@.len(),
            errors_view(r@) == wrapper_errors(nodes@.take(i as int), *workflow_dir, found@),
        decreases nodes@.len() - i,
    {
        proof {
            assert(nodes@.take(i + 1).drop_last() == nodes@.take(i as int));
            assert(nodes@.take(i + 1)[i as int] == nodes@[i as int]);
        }
        if node_has_llm(&nodes[i]) && !found[i] {
            let dir = wrapper_search_dir(&nodes[i], workflow_dir);
            r.push(ValidationError::LlmNodeMissingWrapper { node_id: nodes[i].id.clone(), scripts_dir: dir });
        }
        assert(errors_view(r@) =~= wrapper_errors(nodes@.take(i + 1), *workflow_dir, found@));
        i = i + 1;
    }
    assert(nodes@.take(nodes@.len() as int) == nodes@);
    r
}

/// Errors of the given kind (`UnreachableNode`, or `ExitNotReachable` when
/// `exit` is set) for the IDs outside `reached`.
fn unreached_errors_of(ids: &Vec<String>, reached: &Vec<String>, exit: bool, Ghost(ok): Ghost<spec_fn(Seq<char>) -> bool>) -> (r: Vec<ValidationError>)
    requires
        forall|x: Seq<char>| strs_view(reached@).contains(x) == #[trigger] ok(x),
    ensures
        errors_view(r@) == rejected_ids(strs_view(ids@), ok, if exit { 2int } else { 1int }),
{
    let ghost idv = strs_view(ids@);
    let ghost kind = if exit { 2int } else { 1int };
    let mut r: Vec<ValidationError> = Vec::new();
    let mut i: usize = 0;
    while i < ids.len()
        invariant
            i <= ids@.len(),
            idv == strs_view(ids@),
            kind == if exit { 2int } else { 1int },
            forall|x: Seq<char>| strs_view(reached@).contains(x) == #[trigger] ok(x),
            errors_view(r@) == rejected_ids(idv.take(i as int), ok, kind),
        decreases ids@.len() - i,
    {
        proof {
            assert(idv.take(i + 1).drop_last() == idv.take(i as int));
            assert(idv.take(i + 1).last() == ids@[i as int]@);
            assert(ok(ids@[i as int]@) == strs_view(reached@).contains(ids@[i as int]@));
        }
        if !strings_contain(reached, ids[i].as_str()) {
            if exit {
                r.push(ValidationError::ExitNotReachable { node_id: ids[i].clone() });
            } else {
                r.push(ValidationError::UnreachableNode { node_id: ids[i].clone() });
            }
        }
        assert(errors_view(r@) =~= rejected_ids(idv.take(i + 1), ok, kind));
        i = i + 1;
    }
    assert(idv.take(idv.len() as int) == idv);
    r
}

/// Errors for data flows naming nodes that do not exist.
fn source_errors_of(dfs: &Vec<DataFlowDef>, ids: &Vec<String>) -> (r: Vec<ValidationError>)
    ensures
        errors_view(r@) == source_errors(dfs@, strs_view(ids@)),
{
    let mut r: Vec<ValidationError> = Vec::new();
    let mut i: usize = 0;
    while i < dfs.len()
        invariant
            i <= dfs@.len(),
            errors_view(r@) == source_errors(dfs@.take(i as int), strs_view(ids@)),
        decreases dfs@.len() - i,
    {
        proof {
            assert(dfs@.take(i + 1).drop_last() == dfs@.take(i as int));
            assert(dfs@.take(i + 1).last() == dfs@[i as int]);
        }
        let df = &dfs[i];
        if !strings_contain(ids, df.from.as_str()) {
            r.push(ValidationError::InputSourceNotFound { node_id: df.to.clone(), source_id: df.from.clone() });
        }
        if !strings_contain(ids, df.to.as_str()) {
            r.push(ValidationError::InputSourceNotFound { node_id: df.to.clone(), source_id: df.from.clone() });
        }
        assert(errors_view(r@) =~= source_errors(dfs@.take(i + 1), strs_view(ids@)));
        i = i + 1;
    }
    assert(dfs@.take(dfs@.len() as int) == dfs@);
    r
}

/// Errors for data flows whose source node is not reached from an entry.
fn unreachable_source_errors_of(
    dfs: &Vec<DataFlowDef>,
    ids: &Vec<String>,
    reached: &Vec<String>,
    Ghost(ps): Ghost<Seq<(Seq<char>, Seq<char>)>>,
) -> (r: Vec<ValidationError>)
    requires
        forall|x: Seq<char>| strs_view(reached@).contains(x) == #[trigger] from_entry(strs_view(ids@), ps, x),
    ensures
        errors_view(r@) == unreachable_source_errors(dfs@, strs_view(ids@), ps),
{
    let mut r: Vec<ValidationError> = Vec::new();
    let mut i: usize = 0;
    while i < dfs.len()
        invariant
            i <= dfs@.len(),
            forall|x: Seq<char>| strs_view(reached@).contains(x) == #[trigger] from_entry(strs_view(ids@), ps, x),
            errors_view(r@) == unreachable_source_errors(dfs@.take(i as int), strs_view(ids@), ps),
        decreases dfs@.len() - i,
    {
        proof {
            assert(dfs@.take(i + 1).drop_last() == dfs@.take(i as int));
            assert(dfs@.take(i + 1).last() == dfs@[i as int]);
        }
        let df = &dfs[i];
        proof {
            assert(strs_view(reached@).contains(df.from@) == from_entry(strs_view(ids@), ps, df.from@));
        }
        if strings_contain(ids, df.from.as_str()) && !strings_contain(reached, df.from.as_str()) {
            r.push(ValidationError::InputSourceUnreachable { node_id: df.to.clone(), source_id: df.from.clone() });
        }
        assert(errors_view(r@) =~= unreachable_source_errors(dfs@.take(i + 1), strs_view(ids@), ps));
        i = i + 1;
    }
    assert(dfs@.take(dfs@.len() as int) == dfs@);
    r
}

/// The text a provider contributes to its node's placeholder scan: an `llm`
/// provider's prompt and a space, then its command; a subprocess or shell
/// command; nothing for the others.
pub open spec fn provider_text(p: ProviderDef) -> Seq<char> {
    match p {
        ProviderDef::Llm { prompt, command, .. } => match prompt {
            Some(q) => q@ + seq![' '] + command@,
            None => command@,
        },
        ProviderDef::Subprocess { command } => command@,
        ProviderDef::Shell { command } => command@,
        _ => Seq::empty(),
    }
}

/// The text scanned for a node's placeholders.
pub open spec fn template_text(ps: Seq<ProviderDef>) -> Seq<char>
    decreases ps.len(),
{
    if ps.len() == 0 {
        Seq::empty()
    } else {
        template_text(ps.drop_last()) + provider_text(ps.last())
    }
}

/// Some data flow goes from `from` to `to`.
pub open spec fn has_flow(dfs: Seq<DataFlowDef>, from: Seq<char>, to: Seq<char>) -> bool {
    exists|k: int| 0 <= k < dfs.len() && #[trigger] dfs[k].from@ == from && dfs[k].to@ == to
}

/// Errors for `{{metadata.F}}` placeholders with an unknown field, from
/// position `pos` on.
pub open spec fn metadata_scan(t: Seq<char>, pos: int, id: Seq<char>) -> Seq<(int, Seq<Seq<char>>)>
    decreases t.len() - pos,
{
    if pos < 0 || pos > t.len() {
        Seq::empty()
    } else {
        match find_from(t, pos, open_mark() + metadata_prefix()) {
            None => Seq::empty(),
            Some(start) => {
                proof {
                    lemma_find_from(t, pos, open_mark() + metadata_prefix());
                }
                let after = start + 11;
                match find_from(t, after, close_mark()) {
                    Some(end) => {
                        proof {
                            lemma_find_from(t, after, close_mark());
                        }
                        let field = t.subrange(after, end);
                        (if field == run_count_key() || field == timed_out_key() {
                            Seq::empty()
                        } else {
                            seq![(11int, seq![id, field])]
                        }) + metadata_scan(t, end + 2, id)
                    },
                    None => metadata_scan(t, after, id),
                }
            },
        }
    }
}

/// The errors of one `{{datarouter.PATH}}` placeholder: an unknown field,
/// and a source node without a data flow to this node.
pub open spec fn datarouter_path_errors(path: Seq<char>, id: Seq<char>, dfs: Seq<DataFlowDef>, ids: Seq<Seq<char>>) -> Seq<(int, Seq<Seq<char>>)> {
    match find_from(path, 0, seq!['.']) {
        Some(dot) => {
            let src = path.take(dot);
            let field = path.skip(dot + 1);
            (if field == route_key() || field == content_key() {
                Seq::empty()
            } else {
                seq![(12int, seq![id, src, field])]
            }) + (if !has_flow(dfs, src, id) && ids.contains(src) {
                seq![(10int, seq![id, src])]
            } else {
                Seq::empty()
            })
        },
        None => Seq::empty(),
    }
}

/// Errors for `{{datarouter.S.F}}` placeholders, from position `pos` on.
pub open spec fn datarouter_scan(t: Seq<char>, pos: int, id: Seq<char>, dfs: Seq<DataFlowDef>, ids: Seq<Seq<char>>) -> Seq<(int, Seq<Seq<char>>)>
    decreases t.len() - pos,
{
    if pos < 0 || pos > t.len() {
        Seq::empty()
    } else {
        match find_from(t, pos, open_mark() + datarouter_prefix()) {
            None => Seq::empty(),
            Some(start) => {
                proof {
                    lemma_find_from(t, pos, open_mark() + datarouter_prefix());
                }
                let after = start + 13;
                match find_from(t, after, close_mark()) {
                    Some(end) => {
                        proof {
                            lemma_find_from(t, after, close_mark());
                        }
                        datarouter_path_errors(t.subrange(after, end), id, dfs, ids) + datarouter_scan(t, end + 2, id, dfs, ids)
                    },
                    None => datarouter_scan(t, after, id, dfs, ids),
                }
            },
        }
    }
}

/// Errors for `{{prefix.key}}` placeholders whose prefix is neither
/// `metadata.` nor `datarouter.`, from position `pos` on.
pub open spec fn unrecognized_scan(t: Seq<char>, pos: int, id: Seq<char>) -> Seq<(int, Seq<Seq<char>>)>
    decreases t.len() - pos,
{
    if pos < 0 || pos > t.len() {
        Seq::empty()
    } else {
        match find_from(t, pos, open_mark()) {
            None => Seq::empty(),
            Some(start) => {
                proof {
                    lemma_find_from(t, pos, open_mark());
                }
                let after = start + 2;
                match find_from(t, after, close_mark()) {
                    Some(end) => {
                        proof {
                            lemma_find_from(t, after, close_mark());
                        }
                        let content = t.subrange(after, end);
                        (if contains_seq(content, seq!['.']) && !matches_at(content, 0, metadata_prefix())
                            && !matches_at(content, 0, datarouter_prefix()) {
                            seq![(13int, seq![id, content])]
                        } else {
                            Seq::empty()
                        }) + unrecognized_scan(t, end + 2, id)
                    },
                    None => unrecognized_scan(t, after, id),
                }
            },
        }
    }
}

/// The placeholder errors of one node.
pub open spec fn node_template_errors(n: NodeDef, dfs: Seq<DataFlowDef>, ids: Seq<Seq<char>>) -> Seq<(int, Seq<Seq<char>>)> {
    let t = template_text(n.providers@);
    metadata_scan(t, 0, n.id@) + datarouter_scan(t, 0, n.id@, dfs, ids) + unrecognized_scan(t, 0, n.id@)
}

/// The placeholder errors of all nodes, node by node.
pub open spec fn template_errors(nodes: Seq<NodeDef>, dfs: Seq<DataFlowDef>, ids: Seq<Seq<char>>) -> Seq<(int, Seq<Seq<char>>)>
    decreases nodes.len(),
{
    if nodes.len() == 0 {
        Seq::empty()
    } else {
        template_errors(nodes.drop_last(), dfs, ids) + node_template_errors(nodes.last(), dfs, ids)
    }
}

/// The text scanned for a node's placeholders.
fn node_template_text(n: &NodeDef) -> (r: Vec<char>)
    ensures
        r@ == template_text(n.providers@),
{
    let mut text = String::new();
    let mut i: usize = 0;
    while i < n.providers.len()
        invariant
            i <= n.providers@.len(),
            text@ == template_text(n.providers@.take(i as int)),
        decreases n.providers@.len() - i,
    {
        proof {
            assert(n.providers@.take(i + 1).drop_last() == n.providers@.take(i as int));
            assert(n.providers@.take(i + 1).last() == n.providers@[i as int]);
        }
        let ghost before = text@;
        match &n.providers[i] {
            ProviderDef::Llm { prompt, command, .. } => {
                match prompt {
                    Some(q) => {
                        push_str_chars(&mut text, q.as_str());
                        push_char(&mut text, ' ');
                    },
                    None => {},
                }
                push_str_chars(&mut text, command.as_str());
            },
            ProviderDef::Subprocess { command } => push_str_chars(&mut text, command.as_str()),
            ProviderDef::Shell { command } => push_str_chars(&mut text, command.as_str()),
            _ => {},
        }
        assert(text@ =~= before + provider_text(n.providers@[i as int]));
        i = i + 1;
    }
    assert(n.providers@.take(n.providers@.len() as int) == n.providers@);
    to_chars(text.as_str())
}

/// Whether some data flow goes from `from` to `to`.
fn flow_exists(dfs: &Vec<DataFlowDef>, from: &str, to: &str) -> (r: bool)
    ensures
        r == has_flow(dfs@, from@, to@),
{
    let mut i: usize = 0;
    while i < dfs.len()
        invariant
            i <= dfs@.len(),
            forall|k: int| 0 <= k < i ==> !(#[trigger] dfs@[k].from@ == from@ && dfs@[k].to@ == to@),
        decreases dfs@.len() - i,
    {
        if crate::graph::graph_def::str_eq(dfs[i].from.as_str(), from) && crate::graph::graph_def::str_eq(dfs[i].to.as_str(), to) {
            return true;
        }
        i = i + 1;
    }
    false
}

/// Errors for `{{metadata.F}}` placeholders with an unknown field.
fn metadata_errors_of(t: &Vec<char>, id: &String) -> (r: Vec<ValidationError>)
    ensures
        errors_view(r@) == metadata_scan(t@, 0, id@),
{
    let pat: Vec<char> = vec!['{', '{', 'm', 'e', 't', 'a', 'd', 'a', 't', 'a', '.'];
    let close: Vec<char> = vec!['}', '}'];
    let run_count_v: Vec<char> = vec!['r', 'u', 'n', '_', 'c', 'o', 'u', 'n', 't'];
    let timed_out_v: Vec<char> = vec!['t', 'i', 'm', 'e', 'd', '_', 'o', 'u', 't'];
    assert(pat@ == open_mark() + metadata_prefix());
    assert(close@ == close_mark());
    assert(run_count_v@ == run_count_key());
    assert(timed_out_v@ == timed_out_key());
    let mut r: Vec<ValidationError> = Vec::new();
    let mut pos: usize = 0;
    while pos <= t.len()
        invariant_except_break
            pos <= t@.len(),
            errors_view(r@) + metadata_scan(t@, pos as int, id@) == metadata_scan(t@, 0, id@),
        invariant
            pat@ == open_mark() + metadata_prefix(),
            close@ == close_mark(),
            run_count_v@ == run_count_key(),
            timed_out_v@ == timed_out_key(),
        ensures
            errors_view(r@) == metadata_scan(t@, 0, id@),
        decreases t@.len() + 1 - pos,
    {
        proof {
            lemma_find_from(t@, pos as int, pat@);
        }
        match find_from_exec(t, pos, &pat) {
            None => {
                assert(errors_view(r@) + Seq::<(int, Seq<Seq<char>>)>::empty() == errors_view(r@));
                break;
            },
            Some(start) => {
                let after = start + 11;
                proof {
                    lemma_find_from(t@, after as int, close_mark());
                }
                match find_from_exec(t, after, &close) {
                    Some(end) => {
                        let field = chars_range(t, after, end);
                        let ghost before = r@;
                        if !(chars_eq(&field, &run_count_v) || chars_eq(&field, &timed_out_v)) {
                            r.push(ValidationError::UnknownMetadataField { node_id: id.clone(), field: string_of_chars(&field) });
                        }
                        proof {
                            let added = if field@ == run_count_key() || field@ == timed_out_key() {
                                Seq::<(int, Seq<Seq<char>>)>::empty()
                            } else {
                                seq![(11int, seq![id@, field@])]
                            };
                            assert(errors_view(r@) =~= errors_view(before) + added);
                            assert(errors_view(r@) + metadata_scan(t@, end + 2, id@)
                                =~= errors_view(before) + (added + metadata_scan(t@, end + 2, id@)));
                        }
                        pos = end + 2;
                    },
                    None => {
                        pos = after;
                    },
                }
            },
        }
    }
    r
}

/// The errors of one `{{datarouter.PATH}}` placeholder.
fn datarouter_path_errors_of(path: &Vec<char>, id: &String, dfs: &Vec<DataFlowDef>, ids: &Vec<String>) -> (r: Vec<ValidationError>)
    ensures
        errors_view(r@) == datarouter_path_errors(path@, id@, dfs@, strs_view(ids@)),
{
    let dot_v: Vec<char> = vec!['.'];
    let route_v: Vec<char> = vec!['r', 'o', 'u', 't', 'e'];
    let content_v: Vec<char> = vec!['c', 'o', 'n', 't', 'e', 'n', 't'];
    assert(dot_v@ == seq!['.']);
    assert(route_v@ == route_key());
    assert(content_v@ == content_key());
    let mut r: Vec<ValidationError> = Vec::new();
    proof {
        lemma_find_from(path@, 0, seq!['.']);
    }
    match find_from_exec(path, 0, &dot_v) {
        Some(dot) => {
            assert(seq!['.'].len() == 1);
            assert(dot + 1 <= path@.len());
            assert(dot < path.len());
            let src_v = chars_range(path, 0, dot);
            let field_v = chars_range(path, dot + 1, path.len());
            assert(src_v@ == path@.take(dot as int));
            assert(field_v@ == path@.skip(dot + 1));
            let src = string_of_chars(&src_v);
            if !(chars_eq(&field_v, &route_v) || chars_eq(&field_v, &content_v)) {
                r.push(ValidationError::UnknownDatarouterField {
                    node_id: id.clone(),
                    source_id: src.clone(),
                    field: string_of_chars(&field_v),
                });
            }
            let ghost mid = r@;
            if !flow_exists(dfs, src.as_str(), id.as_str()) && strings_contain(ids, src.as_str()) {
                r.push(ValidationError::DatarouterRefWithoutDataflow { node_id: id.clone(), source_id: src });
            }
            assert(errors_view(r@) =~= datarouter_path_errors(path@, id@, dfs@, strs_view(ids@)));
        },
        None => {
            assert(errors_view(r@) =~= datarouter_path_errors(path@, id@, dfs@, strs_view(ids@)));
        },
    }
    r
}

/// Errors for `{{datarouter.S.F}}` placeholders.
fn datarouter_errors_of(t: &Vec<char>, id: &String, dfs: &Vec<DataFlowDef>, ids: &Vec<String>) -> (r: Vec<ValidationError>)
    ensures
        errors_view(r@) == datarouter_scan(t@, 0, id@, dfs@, strs_view(ids@)),
{
    let pat: Vec<char> = vec!['{', '{', 'd', 'a', 't', 'a', 'r', 'o', 'u', 't', 'e', 'r', '.'];
    let close: Vec<char> = vec!['}', '}'];
    assert(pat@ == open_mark() + datarouter_prefix());
    assert(close@ == close_mark());
    let ghost idv = strs_view(ids@);
    let mut r: Vec<ValidationError> = Vec::new();
    let mut pos: usize = 0;
    while pos <= t.len()
        invariant_except_break
            pos <= t@.len(),
            errors_view(r@) + datarouter_scan(t@, pos as int, id@, dfs@, idv) == datarouter_scan(t@, 0, id@, dfs@, idv),
        invariant
            pat@ == open_mark() + datarouter_prefix(),
            close@ == close_mark(),
            idv == strs_view(ids@),
        ensures
            errors_view(r@) == datarouter_scan(t@, 0, id@, dfs@, idv),
        decreases t@.len() + 1 - pos,
    {
        proof {
            lemma_find_from(t@, pos as int, pat@);
        }
        match find_from_exec(t, pos, &pat) {
            None => {
                assert(errors_view(r@) + Seq::<(int, Seq<Seq<char>>)>::empty() == errors_view(r@));
                break;
            },
            Some(start) => {
                let after = start + 13;
                proof {
                    lemma_find_from(t@, after as int, close_mark());
                }
                match find_from_exec(t, after, &close) {
                    Some(end) => {
                        let path = chars_range(t, after, end);
                        let ghost before = r@;
                        let mut found = datarouter_path_errors_of(&path, id, dfs, ids);
                        let ghost added = found@;
                        r.append(&mut found);
                        proof {
                            assert(errors_view(r@) =~= errors_view(before) + errors_view(added));
                            assert(errors_view(r@) + datarouter_scan(t@, end + 2, id@, dfs@, idv)
                                =~= errors_view(before) + (errors_view(added) + datarouter_scan(t@, end + 2, id@, dfs@, idv)));
                        }
                        pos = end + 2;
                    },
                    None => {
                        pos = after;
                    },
                }
            },
        }
    }
    r
}

/// Errors for placeholders with an unrecognized prefix.
fn unrecognized_errors_of(t: &Vec<char>, id: &String) -> (r: Vec<ValidationError>)
    ensures
        errors_view(r@) == unrecognized_scan(t@, 0, id@),
{
    let open: Vec<char> = vec!['{', '{'];
    let close: Vec<char> = vec!['}', '}'];
    let dot_v: Vec<char> = vec!['.'];
    let metadata_v: Vec<char> = vec!['m', 'e', 't', 'a', 'd', 'a', 't', 'a', '.'];
    let datarouter_v: Vec<char> = vec!['d', 'a', 't', 'a', 'r', 'o', 'u', 't', 'e', 'r', '.'];
    assert(open@ == open_mark());
    assert(close@ == close_mark());
    assert(dot_v@ == seq!['.']);
    assert(metadata_v@ == metadata_prefix());
    assert(datarouter_v@ == datarouter_prefix());
    let mut r: Vec<ValidationError> = Vec::new();
    let mut pos: usize = 0;
    while pos <= t.len()
        invariant_except_break
            pos <= t@.len(),
            errors_view(r@) + unrecognized_scan(t@, pos as int, id@) == unrecognized_scan(t@, 0, id@),
        invariant
            open@ == open_mark(),
            close@ == close_mark(),
            dot_v@ == seq!['.'],
            metadata_v@ == metadata_prefix(),
            datarouter_v@ == datarouter_prefix(),
        ensures
            errors_view(r@) == unrecognized_scan(t@, 0, id@),
        decreases t@.len() + 1 - pos,
    {
        proof {
            lemma_find_from(t@, pos as int, open_mark());
        }
        match find_from_exec(t, pos, &open) {
            None => {
                assert(errors_view(r@) + Seq::<(int, Seq<Seq<char>>)>::empty() == errors_view(r@));
                break;
            },
            Some(start) => {
                let after = start + 2;
                proof {
                    lemma_find_from(t@, after as int, close_mark());
                }
                match find_from_exec(t, after, &close) {
                    Some(end) => {
                        let content = chars_range(t, after, end);
                        let ghost before = r@;
                        let flagged = crate::text::contains_exec(&content, &dot_v) && !matches_at_exec(&content, 0, &metadata_v)
                            && !matches_at_exec(&content, 0, &datarouter_v);
                        if flagged {
                            r.push(ValidationError::UnrecognizedTemplate { node_id: id.clone(), template: string_of_chars(&content) });
                        }
                        proof {
                            let added = if contains_seq(content@, seq!['.']) && !matches_at(content@, 0, metadata_prefix())
                                && !matches_at(content@, 0, datarouter_prefix()) {
                                seq![(13int, seq![id@, content@])]
                            } else {
                                Seq::<(int, Seq<Seq<char>>)>::empty()
                            };
                            assert(errors_view(r@) =~= errors_view(before) + added);
                            assert(errors_view(r@) + unrecognized_scan(t@, end + 2, id@)
                                =~= errors_view(before) + (added + unrecognized_scan(t@, end + 2, id@)));
                        }
                        pos = end + 2;
                    },
                    None => {
                        pos = after;
                    },
                }
            },
        }
    }
    r
}

/// The placeholder errors of all nodes.
fn template_errors_of(nodes: &Vec<NodeDef>, dfs: &Vec<DataFlowDef>, ids: &Vec<String>) -> (r: Vec<ValidationError>)
    ensures
        errors_view(r@) == template_errors(nodes@, dfs@, strs_view(ids@)),
{
    let mut r: Vec<ValidationError> = Vec::new();
    let mut i: usize = 0;
    while i < nodes.len()
        invariant
            i <= nodes@.len(),
            errors_view(r@) == template_errors(nodes@.take(i as int), dfs@, strs_view(ids@)),
        decreases nodes@.len() - i,
    {
        proof {
            assert(nodes@.take(i + 1).drop_last() == nodes@.take(i as int));
            assert(nodes@.take(i + 1).last() == nodes@[i as int]);
        }
        let n = &nodes[i];
        let t = node_template_text(n);
        let ghost before = r@;
        let mut a = metadata_errors_of(&t, &n.id);
        let mut b = datarouter_errors_of(&t, &n.id, dfs, ids);
        let mut c = unrecognized_errors_of(&t, &n.id);
        let ghost (av, bv, cv) = (a@, b@, c@);
        r.append(&mut a);
        r.append(&mut b);
        r.append(&mut c);
        assert(errors_view(r@) =~= errors_view(before) + errors_view(av) + errors_view(bv) + errors_view(cv));
        assert(errors_view(r@) =~= template_errors(nodes@.take(i + 1), dfs@, strs_view(ids@)));
        i = i + 1;
    }
    assert(nodes@.take(nodes@.len() as int) == nodes@);
    r
}

/// The last position of `name` among the IDs.
pub open spec fn last_index(ids: Seq<Seq<char>>, name: Seq<char>) -> Option<int>
    decreases ids.len(),
{
    if ids.len() == 0 {
        None
    } else if ids.last() == name {
        Some(ids.len() - 1)
    } else {
        last_index(ids.drop_last(), name)
    }
}

/// The edges of the node graph: for every scheduling edge between two known
/// IDs, the pair of the IDs' last positions.
pub open spec fn graph_pairs(ids: Seq<Seq<char>>, ps: Seq<(Seq<char>, Seq<char>)>) -> Seq<(usize, usize)>
    decreases ps.len(),
{
    if ps.len() == 0 {
        Seq::empty()
    } else {
        let prev = graph_pairs(ids, ps.drop_last());
        match (last_index(ids, ps.last().0), last_index(ids, ps.last().1)) {
            (Some(a), Some(b)) => prev.push((a as usize, b as usize)),
            _ => prev,
        }
    }
}

/// The vertices reached from `roots`, as a predicate.
pub open spec fn reach_pred(roots: Seq<Seq<char>>, ps: Seq<(Seq<char>, Seq<char>)>) -> spec_fn(Seq<char>) -> bool {
    |x: Seq<char>| reaches(roots, ps, x)
}

/// The vertices reached from an entry node, as a predicate.
pub open spec fn entry_pred(ids: Seq<Seq<char>>, ps: Seq<(Seq<char>, Seq<char>)>) -> spec_fn(Seq<char>) -> bool {
    |x: Seq<char>| from_entry(ids, ps, x)
}

/// A strongly connected component is a cycle no entry reaches: a
/// component of several nodes none of which is reached, or a lone node that
/// is not reached and has a self-loop.
pub open spec fn unentered(scc: Seq<usize>, ids: Seq<Seq<char>>, ps: Seq<(Seq<char>, Seq<char>)>) -> bool {
    if scc.len() > 1 {
        forall|k: int| 0 <= k < scc.len() ==> !from_entry(ids, ps, #[trigger] ids[scc[k] as int])
    } else if scc.len() == 1 {
        &&& !from_entry(ids, ps, ids[scc[0] as int])
        &&& exists|k: int| 0 <= k < ps.len() && #[trigger] ps[k] == (ids[scc[0] as int], ids[scc[0] as int])
    } else {
        false
    }
}

/// Some strongly connected component of the node graph, as Tarjan's
/// algorithm lists them, is a cycle no entry reaches.
pub open spec fn has_unentered_cycle(ids: Seq<Seq<char>>, ps: Seq<(Seq<char>, Seq<char>)>) -> bool {
    let sccs = tarjan_sccs(ids.len(), graph_pairs(ids, ps));
    exists|i: int| 0 <= i < sccs.len() && #[trigger] unentered(sccs[i], ids, ps)
}

/// The last position of `name` among the IDs.
fn last_index_of(ids: &Vec<String>, name: &str) -> (r: Option<usize>)
    ensures
        match last_index(strs_view(ids@), name@) {
            Some(i) => r is Some && r->0 == i,
            None => r is None,
        },
{
    let ghost idv = strs_view(ids@);
    let mut i: usize = ids.len();
    assert(idv.take(idv.len() as int) == idv);
    while i > 0
        invariant
            i <= ids@.len(),
            idv == strs_view(ids@),
            last_index(idv, name@) == last_index(idv.take(i as int), name@),
        decreases i,
    {
        let ghost t = idv.take(i as int);
        assert(t.last() == ids@[i - 1]@);
        assert(t.drop_last() == idv.take(i - 1));
        if crate::graph::graph_def::str_eq(ids[i - 1].as_str(), name) {
            return Some(i - 1);
        }
        i = i - 1;
    }
    None
}

/// Whether some pair is the self-loop `(name, name)`.
fn has_self_loop(pairs: &Vec<(String, String)>, name: &str, Ghost(ps): Ghost<Seq<(Seq<char>, Seq<char>)>>) -> (r: bool)
    requires
        entries_view(pairs@) == ps,
    ensures
        r == exists|k: int| 0 <= k < ps.len() && #[trigger] ps[k] == (name@, name@),
{
    let mut i: usize = 0;
    while i < pairs.len()
        invariant
            i <= pairs@.len(),
            entries_view(pairs@) == ps,
            forall|k: int| 0 <= k < i ==> #[trigger] ps[k] != (name@, name@),
        decreases pairs@.len() - i,
    {
        assert(ps[i as int] == (pairs@[i as int].0@, pairs@[i as int].1@));
        if crate::graph::graph_def::str_eq(pairs[i].0.as_str(), name) && crate::graph::graph_def::str_eq(pairs[i].1.as_str(), name) {
            return true;
        }
        i = i + 1;
    }
    false
}

/// The ID of a node on a cycle that no entry reaches, if there is one: the
/// first node of the first such strongly connected component.
pub fn find_cycle_without_entry(
    ids: &Vec<String>,
    pairs: &Vec<(String, String)>,
    reached: &Vec<String>,
    Ghost(ps): Ghost<Seq<(Seq<char>, Seq<char>)>>,
) -> (r: Option<String>)
    requires
        entries_view(pairs@) == ps,
        ids@.len() < u32::MAX,
        pairs@.len() < u32::MAX,
        forall|x: Seq<char>| strs_view(reached@).contains(x) == #[trigger] from_entry(strs_view(ids@), ps, x),
    ensures
        r is Some == has_unentered_cycle(strs_view(ids@), ps),
        r is Some <==> exists|v: usize| v < ids@.len() && !from_entry(strs_view(ids@), ps, strs_view(ids@)[v as int])
            && #[trigger] on_cycle(graph_pairs(strs_view(ids@), ps), v),
{
    let ghost idv = strs_view(ids@);
    let mut g = digraph_new();
    let mut i: usize = 0;
    while i < ids.len()
        invariant
            i <= ids@.len(),
            ids@.len() < u32::MAX,
            digraph_nodes(g).len() == i,
            digraph_edges(g) == Seq::<(usize, usize)>::empty(),
        decreases ids@.len() - i,
    {
        digraph_add_node(&mut g, i);
        i = i + 1;
    }
    let mut k: usize = 0;
    while k < pairs.len()
        invariant
            k <= pairs@.len(),
            pairs@.len() < u32::MAX,
            entries_view(pairs@) == ps,
            idv == strs_view(ids@),
            digraph_nodes(g).len() == ids@.len(),
            digraph_edges(g) == graph_pairs(idv, ps.take(k as int)),
            digraph_edges(g).len() <= k,
        decreases pairs@.len() - k,
    {
        proof {
            assert(ps.take(k + 1).drop_last() == ps.take(k as int));
            assert(ps.take(k + 1).last() == (pairs@[k as int].0@, pairs@[k as int].1@));
        }
        let a = last_index_of(ids, pairs[k].0.as_str());
        let b = last_index_of(ids, pairs[k].1.as_str());
        proof {
            lemma_last_index(idv, pairs@[k as int].0@);
            lemma_last_index(idv, pairs@[k as int].1@);
        }
        match (a, b) {
            (Some(x), Some(y)) => {
                digraph_add_edge(&mut g, x, y);
            },
            _ => {},
        }
        k = k + 1;
    }
    proof {
        assert(ps.take(ps.len() as int) == ps);
    }
    let sccs = digraph_tarjan_scc(&g);
    let r = first_unentered_component(ids, pairs, reached, &sccs);
    proof {
        assert(components_of(sccs@, idv.len(), graph_pairs(idv, ps)));
        law_unentered_component_iff_unreached_cycle(sccs@, idv, ps);
        let all = tarjan_sccs(idv.len(), graph_pairs(idv, ps));
        if r is Some {
            let i = choose|i: int| 0 <= i < sccs@.len() && #[trigger] unentered(sccs@[i]@, idv, ps);
            assert(unentered(all[i], idv, ps));
        } else if has_unentered_cycle(idv, ps) {
            let i = choose|i: int| 0 <= i < all.len() && #[trigger] unentered(all[i], idv, ps);
            assert(unentered(sccs@[i]@, idv, ps));
        }
    }
    r
}

/// The ID of a node on a cycle that no entry reaches, given the strongly
/// connected components of the node graph (as lists of positions in
/// `ids`): the first node of the first component that is
/// [`unentered`], or nothing when none is.  `reached` lists the IDs some
/// entry reaches.
pub fn first_unentered_component(
    ids: &Vec<String>,
    pairs: &Vec<(String, String)>,
    reached: &Vec<String>,
    sccs: &Vec<Vec<usize>>,
) -> (r: Option<String>)
    requires
        forall|j: int, m: int| 0 <= j < sccs@.len() && 0 <= m < sccs@[j]@.len() ==> #[trigger] sccs@[j]@[m] < ids@.len(),
        forall|x: Seq<char>| strs_view(reached@).contains(x) == #[trigger] from_entry(strs_view(ids@), entries_view(pairs@), x),
    ensures
        r is Some <==> exists|i: int| 0 <= i < sccs@.len() && #[trigger] unentered(sccs@[i]@, strs_view(ids@), entries_view(pairs@)),
        r matches Some(name) ==> exists|i: int| 0 <= i < sccs@.len() && #[trigger] unentered(sccs@[i]@, strs_view(ids@), entries_view(pairs@))
            && (forall|j: int| 0 <= j < i ==> !#[trigger] unentered(sccs@[j]@, strs_view(ids@), entries_view(pairs@)))
            && name@ == strs_view(ids@)[sccs@[i]@[0] as int],
{
    let ghost idv = strs_view(ids@);
    let ghost ps = entries_view(pairs@);
    let mut s: usize = 0;
    while s < sccs.len()
        invariant
            s <= sccs@.len(),
            idv == strs_view(ids@),
            ps == entries_view(pairs@),
            forall|j: int, m: int| 0 <= j < sccs@.len() && 0 <= m < sccs@[j]@.len() ==> #[trigger] sccs@[j]@[m] < idv.len(),
            forall|x: Seq<char>| strs_view(reached@).contains(x) == #[trigger] from_entry(idv, ps, x),
            forall|j: int| 0 <= j < s ==> !#[trigger] unentered(sccs@[j]@, idv, ps),
        decreases sccs@.len() - s,
    {
        let scc = &sccs[s];
        assert(scc@ == sccs@[s as int]@);
        if scc.len() > 1 {
            let mut all_out = true;
            let mut m: usize = 0;
            while m < scc.len()
                invariant
                    m <= scc@.len(),
                    forall|q: int| 0 <= q < scc@.len() ==> #[trigger] scc@[q] < idv.len(),
                    idv == strs_view(ids@),
                    forall|x: Seq<char>| strs_view(reached@).contains(x) == #[trigger] from_entry(idv, ps, x),
                    all_out == forall|q: int| 0 <= q < m ==> !from_entry(idv, ps, #[trigger] idv[scc@[q] as int]),
                decreases scc@.len() - m,
            {
                let idx = scc[m];
                assert(idv[idx as int] == ids@[idx as int]@);
                if strings_contain(reached, ids[idx].as_str()) {
                    all_out = false;
                }
                m = m + 1;
            }
            if all_out {
                proof {
                    assert(unentered(sccs@[s as int]@, idv, ps));
                }
                let name = ids[scc[0]].clone();
                assert(name@ == idv[sccs@[s as int]@[0] as int]);
                return Some(name);
            }
        } else if scc.len() == 1 {
            let idx = scc[0];
            let name = ids[idx].as_str();
            assert(idv[idx as int] == name@);
            if !strings_contain(reached, name) && has_self_loop(pairs, name, Ghost(ps)) {
                proof {
                    assert(unentered(sccs@[s as int]@, idv, ps));
                }
                return Some(ids[idx].clone());
            }
        }
        s = s + 1;
    }
    None
}

/// `last_index` finds the last position holding the name.
pub proof fn lemma_last_index(ids: Seq<Seq<char>>, name: Seq<char>)
    ensures
        match last_index(ids, name) {
            Some(i) => 0 <= i < ids.len() && ids[i] == name,
            None => forall|k: int| 0 <= k < ids.len() ==> ids[k] != name,
        },
    decreases ids.len(),
{
    if ids.len() > 0 {
        let d = ids.drop_last();
        lemma_last_index(d, name);
        assert forall|k: int| 0 <= k < d.len() implies d[k] == ids[k] by {}
    }
}

/// Every error `validate` reports for a workflow, in report order.  An
/// empty workflow only reports that it is empty; placeholder errors come
/// node by node.
pub open spec fn workflow_errors(def: WorkflowDef, found: Seq<bool>) -> Seq<(int, Seq<Seq<char>>)> {
    let nodes = def.nodes@;
    let ids = node_ids(nodes);
    let ps = edge_pairs(def.edges@);
    let rps = reversed_pairs(def.edges@);
    let entries = entry_ids(ids, ps);
    if nodes.len() == 0 {
        seq![(4int, Seq::<Seq<char>>::empty())]
    } else {
        duplicate_errors(ids) + provider_errors(nodes) + timeout_errors(nodes)
            + wrapper_errors(nodes, def.scripts_dir, found)
            + (if entries.len() == 0 { seq![(0int, Seq::<Seq<char>>::empty())] } else { Seq::empty() })
            + (if entries.len() > 0 {
                rejected_ids(distinct(ids), reach_pred(entries, ps), 1)
                    + rejected_ids(distinct(ids), reach_pred(entry_ids(ids, rps), rps), 2)
            } else {
                Seq::empty()
            })
            + (if has_unentered_cycle(ids, ps) { seq![(3int, Seq::<Seq<char>>::empty())] } else { Seq::empty() })
            + source_errors(def.dataflows@, ids)
            + (if entries.len() > 0 { unreachable_source_errors(def.dataflows@, ids, ps) } else { Seq::empty() })
            + template_errors(nodes, def.dataflows@, ids)
    }
}

/// Validate a workflow: `Ok` when it has no error, else every error found.
/// `llm_wrapper_found[i]` tells whether node `i`'s `llm_node.py` exists in
/// the directory [`wrapper_search_dir`] names.  A cycle without entry is
/// reported exactly when some node that no entry reaches lies on a cycle.
#[verifier::spinoff_prover]
#[verifier::rlimit(40)]
pub fn validate(def: &WorkflowDef, llm_wrapper_found: &Vec<bool>) -> (r: Result<(), Vec<ValidationError>>)
    requires
        llm_wrapper_found@.len() == def.nodes@.len(),
        def.nodes@.len() < u32::MAX,
        def.edges@.len() < u32::MAX,
    ensures
        match r {
            Ok(_) => workflow_errors(*def, llm_wrapper_found@).len() == 0,
            Err(es) => errors_view(es@) == workflow_errors(*def, llm_wrapper_found@) && es@.len() > 0,
        },
        def.nodes@.len() > 0 ==> (has_unentered_cycle(node_ids(def.nodes@), edge_pairs(def.edges@)) <==> exists|v: usize|
            v < def.nodes@.len() && !from_entry(node_ids(def.nodes@), edge_pairs(def.edges@), node_ids(def.nodes@)[v as int])
                && #[trigger] on_cycle(graph_pairs(node_ids(def.nodes@), edge_pairs(def.edges@)), v)),
{
    if def.nodes.len() == 0 {
        let mut es: Vec<ValidationError> = Vec::new();
        es.push(ValidationError::EmptyGraph);
        assert(errors_view(es@) =~= workflow_errors(*def, llm_wrapper_found@));
        return Err(es);
    }
    let ids = collect_ids(&def.nodes);
    let ghost idv = node_ids(def.nodes@);
    let ghost ps = edge_pairs(def.edges@);
    let ghost rps = reversed_pairs(def.edges@);
    let mut errors = duplicate_errors_of(&ids);
    let mut more = node_errors_of(&def.nodes, false);
    errors.append(&mut more);
    let mut more = node_errors_of(&def.nodes, true);
    errors.append(&mut more);
    let mut more = wrapper_errors_of(&def.nodes, &def.scripts_dir, llm_wrapper_found);
    errors.append(&mut more);
    let ghost e1 = errors@;
    let pairs = collect_pairs(&def.edges, false);
    let rpairs = collect_pairs(&def.edges, true);
    let entries = ids_without_link(&ids, &pairs, Ghost(ps));
    assert(strs_view(entries@) == entry_ids(idv, ps));
    if entries.len() == 0 {
        errors.push(ValidationError::NoEntryNode);
    }
    let ghost e2 = errors@;
    let child_map = build_child_map(&pairs);
    let reachable = if entries.len() == 0 {
        Vec::new()
    } else {
        bfs_from(&entries, &child_map, Ghost(ps))
    };
    proof {
        assert forall|x: Seq<char>| strs_view(reachable@).contains(x) == #[trigger] from_entry(idv, ps, x) by {
            if entries@.len() == 0 {
                assert(strs_view(reachable@) =~= Seq::<Seq<char>>::empty());
            }
        }
    }
    if entries.len() > 0 {
        let dist = distinct_ids(&ids);
        let mut more = unreached_errors_of(&dist, &reachable, false, Ghost(reach_pred(entry_ids(idv, ps), ps)));
        errors.append(&mut more);
        let exits = ids_without_link(&ids, &rpairs, Ghost(rps));
        let parent_map = build_child_map(&rpairs);
        let can_reach_exit = bfs_from(&exits, &parent_map, Ghost(rps));
        let mut more = unreached_errors_of(&dist, &can_reach_exit, true, Ghost(reach_pred(entry_ids(idv, rps), rps)));
        errors.append(&mut more);
    }
    let ghost e3 = errors@;
    let cycle = find_cycle_without_entry(&ids, &pairs, &reachable, Ghost(ps));
    let ghost cycle_found = cycle is Some;
    assert(cycle_found == has_unentered_cycle(idv, ps));
    if cycle.is_some() {
        errors.push(ValidationError::CycleWithoutEntry);
    }
    let ghost e4 = errors@;
    let mut more = source_errors_of(&def.dataflows, &ids);
    errors.append(&mut more);
    if entries.len() > 0 {
        let mut more = unreachable_source_errors_of(&def.dataflows, &ids, &reachable, Ghost(ps));
        errors.append(&mut more);
    }
    let mut more = template_errors_of(&def.nodes, &def.dataflows, &ids);
    errors.append(&mut more);
    assert(errors_view(errors@) =~= workflow_errors(*def, llm_wrapper_found@));
    if errors.len() == 0 {
        Ok(())
    } else {
        Err(errors)
    }
}

/// The warnings of one `llm` provider of a node: a `-p "{{prompt}}"` (or
/// single-quoted) command with a multi-line prompt, and `--output-format
/// json` without `stream-json`.
pub open spec fn provider_warnings(p: ProviderDef, id: Seq<char>) -> Seq<(int, Seq<Seq<char>>)> {
    match p {
        ProviderDef::Llm { command, prompt, .. } =>
            (if (contains_seq(command@, "-p \"{{prompt}}\""@) || contains_seq(command@, "-p '{{prompt}}'"@))
                && (match prompt { Some(q) => contains_seq(q@, seq!['\n']), None => false }) {
                seq![(0int, seq![id])]
            } else {
                Seq::empty()
            }) + (if contains_seq(command@, "--output-format json"@) && !contains_seq(command@, "stream-json"@) {
                seq![(1int, seq![id])]
            } else {
                Seq::empty()
            }),
        _ => Seq::empty(),
    }
}

/// The provider warnings of a node, provider by provider.
pub open spec fn providers_warnings(ps: Seq<ProviderDef>, id: Seq<char>) -> Seq<(int, Seq<Seq<char>>)>
    decreases ps.len(),
{
    if ps.len() == 0 {
        Seq::empty()
    } else {
        providers_warnings(ps.drop_last(), id) + provider_warnings(ps.last(), id)
    }
}

/// The path pieces between `/` and `\` separators, and the piece being read.
pub open spec fn piece_fold(s: Seq<char>) -> (Seq<Seq<char>>, Seq<char>)
    decreases s.len(),
{
    if s.len() == 0 {
        (Seq::empty(), Seq::empty())
    } else {
        let (done, cur) = piece_fold(s.drop_last());
        if s.last() == '/' || s.last() == '\\' {
            (done.push(cur), Seq::empty())
        } else {
            (done, cur.push(s.last()))
        }
    }
}

/// The non-empty path segments other than `.`.
pub open spec fn path_segments(s: Seq<char>) -> Seq<Seq<char>> {
    let (done, cur) = piece_fold(s);
    done.push(cur).filter(|x: Seq<char>| x.len() > 0 && x != seq!['.'])
}

/// Some segment occurs twice.
pub open spec fn repeats(segs: Seq<Seq<char>>) -> bool {
    exists|i: int, j: int| 0 <= i < j < segs.len() && #[trigger] segs[i] == #[trigger] segs[j]
}

/// A scripts directory made absolute against the working directory.
pub open spec fn resolved_dir(dir: Seq<char>, cwd: Seq<char>) -> Seq<char> {
    if dir.len() > 0 && dir[0] == '/' {
        dir
    } else {
        path_joined(cwd, dir)
    }
}

/// The scripts directory a node's warning check looks at: the node's, else
/// the workflow's, else none.
pub open spec fn warning_dir(n: NodeDef, workflow_dir: Option<String>) -> Seq<char> {
    match n.scripts_dir {
        Some(d) => d@,
        None => match workflow_dir {
            Some(d) => d@,
            None => Seq::empty(),
        },
    }
}

/// The warnings of one node.
pub open spec fn node_warnings(n: NodeDef, workflow_dir: Option<String>, cwd: Seq<char>) -> Seq<(int, Seq<Seq<char>>)> {
    let sd = warning_dir(n, workflow_dir);
    let resolved = resolved_dir(sd, cwd);
    providers_warnings(n.providers@, n.id@) + if sd.len() > 0 && repeats(path_segments(resolved)) {
        seq![(2int, seq![n.id@, sd, resolved])]
    } else {
        Seq::empty()
    }
}

/// Every warning `validate_warnings` reports, node by node.
pub open spec fn workflow_warnings(nodes: Seq<NodeDef>, workflow_dir: Option<String>, cwd: Seq<char>) -> Seq<(int, Seq<Seq<char>>)>
    decreases nodes.len(),
{
    if nodes.len() == 0 {
        Seq::empty()
    } else {
        workflow_warnings(nodes.drop_last(), workflow_dir, cwd) + node_warnings(nodes.last(), workflow_dir, cwd)
    }
}

/// Whether a path has a repeated segment.
fn has_repeated_segment(path: &Vec<char>) -> (r: bool)
    ensures
        r == repeats(path_segments(path@)),
{
    let mut pieces: Vec<Vec<char>> = Vec::new();
    let mut cur: Vec<char> = Vec::new();
    let mut i: usize = 0;
    while i < path.len()
        invariant
            i <= path@.len(),
            (pieces@.map_values(|v: Vec<char>| v@), cur@) == piece_fold(path@.take(i as int)),
        decreases path@.len() - i,
    {
        proof {
            assert(path@.take(i + 1).drop_last() == path@.take(i as int));
            assert(path@.take(i + 1).last() == path@[i as int]);
        }
        let c = path[i];
        if c == '/' || c == '\\' {
            let ghost before = pieces@;
            let done = cur;
            pieces.push(done);
            cur = Vec::new();
            assert(pieces@.map_values(|v: Vec<char>| v@) =~= before.map_values(|v: Vec<char>| v@).push(done@));
        } else {
            cur.push(c);
        }
        i = i + 1;
    }
    assert(path@.take(path@.len() as int) == path@);
    let ghost before = pieces@;
    let last = cur;
    pieces.push(last);
    let ghost all = pieces@.map_values(|v: Vec<char>| v@);
    assert(all =~= before.map_values(|v: Vec<char>| v@).push(last@));
    let ghost keep = |x: Seq<char>| x.len() > 0 && x != seq!['.'];
    let dot_v: Vec<char> = vec!['.'];
    assert(dot_v@ == seq!['.']);
    let mut segs: Vec<Vec<char>> = Vec::new();
    let mut k: usize = 0;
    while k < pieces.len()
        invariant
            k <= pieces@.len(),
            all == pieces@.map_values(|v: Vec<char>| v@),
            keep == (|x: Seq<char>| x.len() > 0 && x != seq!['.']),
            dot_v@ == seq!['.'],
            segs@.map_values(|v: Vec<char>| v@) == all.take(k as int).filter(keep),
        decreases pieces@.len() - k,
    {
        proof {
            assert(all.take(k + 1) == all.take(k as int).push(all[k as int]));
            all.take(k as int).lemma_filter_push(all[k as int], keep);
        }
        let ghost before = segs@;
        if pieces[k].len() > 0 && !chars_eq(&pieces[k], &dot_v) {
            let p = chars_range(&pieces[k], 0, pieces[k].len());
            assert(p@ =~= all[k as int]);
            segs.push(p);
            assert(segs@.map_values(|v: Vec<char>| v@) =~= before.map_values(|v: Vec<char>| v@).push(all[k as int]));
        }
        k = k + 1;
    }
    assert(all.take(all.len() as int) == all);
    let ghost sv = segs@.map_values(|v: Vec<char>| v@);
    assert(sv == path_segments(path@));
    let mut a: usize = 0;
    while a < segs.len()
        invariant
            a <= segs@.len(),
            sv == segs@.map_values(|v: Vec<char>| v@),
            sv == path_segments(path@),
            forall|x: int, y: int| 0 <= x < a && x < y < sv.len() ==> #[trigger] sv[x] != #[trigger] sv[y],
        decreases segs@.len() - a,
    {
        let mut b: usize = a + 1;
        while b < segs.len()
            invariant
                a < b <= segs@.len(),
                sv == segs@.map_values(|v: Vec<char>| v@),
                sv == path_segments(path@),
                forall|x: int, y: int| 0 <= x < a && x < y < sv.len() ==> #[trigger] sv[x] != #[trigger] sv[y],
                forall|y: int| a < y < b ==> sv[a as int] != #[trigger] sv[y],
            decreases segs@.len() - b,
        {
            if chars_eq(&segs[a], &segs[b]) {
                assert(sv[a as int] == sv[b as int]);
                return true;
            }
            b = b + 1;
        }
        a = a + 1;
    }
    false
}

/// The warnings of one provider.
fn provider_warnings_of(p: &ProviderDef, id: &String) -> (r: Vec<ValidationWarning>)
    ensures
        warnings_view(r@) == provider_warnings(*p, id@),
{
    let mut r: Vec<ValidationWarning> = Vec::new();
    match p {
        ProviderDef::Llm { command, prompt, .. } => {
            let c = to_chars(command.as_str());
            let quoted = crate::text::contains_exec(&c, &to_chars("-p \"{{prompt}}\""))
                || crate::text::contains_exec(&c, &to_chars("-p '{{prompt}}'"));
            let multiline = match prompt {
                Some(q) => {
                    let nl: Vec<char> = vec!['\n'];
                    assert(nl@ == seq!['\n']);
                    crate::text::contains_exec(&to_chars(q.as_str()), &nl)
                },
                None => false,
            };
            if quoted && multiline {
                r.push(ValidationWarning::LlmPromptInCommandLine { node_id: id.clone() });
            }
            let ghost mid = r@;
            if crate::text::contains_exec(&c, &to_chars("--output-format json"))
                && !crate::text::contains_exec(&c, &to_chars("stream-json")) {
                r.push(ValidationWarning::LlmNoStreamingOutput { node_id: id.clone() });
            }
            assert(warnings_view(r@) =~= provider_warnings(*p, id@));
        },
        _ => {
            assert(warnings_view(r@) =~= provider_warnings(*p, id@));
        },
    }
    r
}

/// Advisory warnings for a workflow, node by node; they do not block a run.
/// `cwd` is the working directory relative scripts directories resolve
/// against.
pub fn validate_warnings(def: &WorkflowDef, cwd: &str) -> (r: Vec<ValidationWarning>)
    ensures
        warnings_view(r@) == workflow_warnings(def.nodes@, def.scripts_dir, cwd@),
{
    let mut warnings: Vec<ValidationWarning> = Vec::new();
    let mut i: usize = 0;
    while i < def.nodes.len()
        invariant
            i <= def.nodes@.len(),
            warnings_view(warnings@) == workflow_warnings(def.nodes@.take(i as int), def.scripts_dir, cwd@),
        decreases def.nodes@.len() - i,
    {
        proof {
            assert(def.nodes@.take(i + 1).drop_last() == def.nodes@.take(i as int));
            assert(def.nodes@.take(i + 1).last() == def.nodes@[i as int]);
        }
        let node = &def.nodes[i];
        let ghost start = warnings@;
        let mut j: usize = 0;
        while j < node.providers.len()
            invariant
                j <= node.providers@.len(),
                warnings_view(warnings@) == warnings_view(start) + providers_warnings(node.providers@.take(j as int), node.id@),
            decreases node.providers@.len() - j,
        {
            proof {
                assert(node.providers@.take(j + 1).drop_last() == node.providers@.take(j as int));
                assert(node.providers@.take(j + 1).last() == node.providers@[j as int]);
            }
            let ghost before = warnings@;
            let mut w = provider_warnings_of(&node.providers[j], &node.id);
            let ghost wv = w@;
            warnings.append(&mut w);
            assert(warnings_view(warnings@) =~= warnings_view(before) + warnings_view(wv));
            assert(warnings_view(warnings@) =~= warnings_view(start) + providers_warnings(node.providers@.take(j + 1), node.id@));
            j = j + 1;
        }
        assert(node.providers@.take(node.providers@.len() as int) == node.providers@);
        assert(warnings_view(warnings@) == warnings_view(start) + providers_warnings(node.providers@, node.id@));
        let sd = match &node.scripts_dir {
            Some(d) => d.clone(),
            None => match &def.scripts_dir {
                Some(d) => d.clone(),
                None => String::new(),
            },
        };
        assert(sd@ == warning_dir(*node, def.scripts_dir));
        let ghost mid = warnings@;
        if !sd.as_str().is_empty() {
            let sdv = to_chars(sd.as_str());
            let resolved = if sdv[0] == '/' {
                sd.clone()
            } else {
                let mut joined = String::new();
                push_str_chars(&mut joined, cwd);
                let cv = to_chars(cwd);
                if cv.len() > 0 && cv[cv.len() - 1] != '/' {
                    push_char(&mut joined, '/');
                }
                push_str_chars(&mut joined, sd.as_str());
                assert(joined@ =~= path_joined(cwd@, sd@));
                joined
            };
            assert(resolved@ == resolved_dir(sd@, cwd@));
            let rv = to_chars(resolved.as_str());
            if has_repeated_segment(&rv) {
                let ghost sdv_ = sd@;
                let ghost rsv = resolved@;
                warnings.push(ValidationWarning::SuspiciousScriptsDir { node_id: node.id.clone(), scripts_dir: sd, resolved });
                assert(warnings_view(warnings@) =~= warnings_view(mid).push((2int, seq![node.id@, sdv_, rsv])));
            }
        }
        assert(warnings_view(warnings@) =~= warnings_view(start) + node_warnings(*node, def.scripts_dir, cwd@));
        assert(warnings_view(warnings@) =~= workflow_warnings(def.nodes@.take(i + 1), def.scripts_dir, cwd@));
        i = i + 1;
    }
    assert(def.nodes@.take(def.nodes@.len() as int) == def.nodes@);
    warnings
}

/// No error of a kind is reported for a list exactly when the predicate
/// accepts every listed ID.
pub proof fn lemma_no_rejected(ids: Seq<Seq<char>>, ok: spec_fn(Seq<char>) -> bool, kind: int)
    requires
        rejected_ids(ids, ok, kind).len() == 0,
    ensures
        forall|i: int| 0 <= i < ids.len() ==> #[trigger] ok(ids[i]),
    decreases ids.len(),
{
    if ids.len() > 0 {
        let d = ids.drop_last();
        lemma_no_rejected(d, ok, kind);
        assert forall|i: int| 0 <= i < ids.len() implies #[trigger] ok(ids[i]) by {
            if i < d.len() {
                assert(d[i] == ids[i]);
                assert(ok(d[i]));
            }
        }
    }
}

/// `distinct` keeps every ID.
pub proof fn lemma_distinct_keeps(ids: Seq<Seq<char>>)
    ensures
        forall|i: int| 0 <= i < ids.len() ==> #[trigger] distinct(ids).contains(ids[i]),
    decreases ids.len(),
{
    if ids.len() > 0 {
        let d = ids.drop_last();
        lemma_distinct_keeps(d);
        let dd = distinct(d);
        assert forall|i: int| 0 <= i < ids.len() implies #[trigger] distinct(ids).contains(ids[i]) by {
            if i < d.len() {
                assert(d[i] == ids[i]);
                assert(dd.contains(d[i]));
                if !dd.contains(ids.last()) {
                    let j = choose|j: int| 0 <= j < dd.len() && dd[j] == ids[i];
                    assert(dd.push(ids.last())[j] == ids[i]);
                }
            } else {
                if !dd.contains(ids.last()) {
                    assert(dd.push(ids.last())[dd.len() as int] == ids.last());
                }
            }
        }
    }
}

/// Without duplicate-ID errors the IDs are pairwise different.
pub proof fn lemma_no_duplicates(ids: Seq<Seq<char>>)
    requires
        duplicate_errors(ids).len() == 0,
    ensures
        forall|i: int, j: int| 0 <= i < j < ids.len() ==> ids[i] != ids[j],
    decreases ids.len(),
{
    if ids.len() > 0 {
        let d = ids.drop_last();
        lemma_no_duplicates(d);
        assert forall|i: int, j: int| 0 <= i < j < ids.len() implies ids[i] != ids[j] by {
            if j < d.len() {
                assert(d[i] == ids[i] && d[j] == ids[j]);
            } else {
                assert(d[i] == ids[i]);
                if ids[i] == ids[j] {
                    assert(d.contains(ids.last()));
                }
            }
        }
    }
}

/// A workflow that validates has distinct node IDs and at least one entry
/// node; every node is reached from an entry node, and reaches a node
/// without outgoing edges, along the scheduling edges.
pub proof fn law_valid_workflow_is_connected(def: WorkflowDef, found: Seq<bool>)
    requires
        workflow_errors(def, found).len() == 0,
        def.nodes@.len() > 0,
    ensures
        entry_ids(node_ids(def.nodes@), edge_pairs(def.edges@)).len() > 0,
        forall|i: int, j: int| 0 <= i < j < def.nodes@.len() ==> def.nodes@[i].id@ != def.nodes@[j].id@,
        forall|i: int| 0 <= i < def.nodes@.len() ==> reaches(
            entry_ids(node_ids(def.nodes@), edge_pairs(def.edges@)), edge_pairs(def.edges@), #[trigger] def.nodes@[i].id@),
        forall|i: int| 0 <= i < def.nodes@.len() ==> reaches(
            entry_ids(node_ids(def.nodes@), reversed_pairs(def.edges@)), reversed_pairs(def.edges@), #[trigger] def.nodes@[i].id@),
{
    let nodes = def.nodes@;
    let ids = node_ids(nodes);
    let ps = edge_pairs(def.edges@);
    let rps = reversed_pairs(def.edges@);
    let entries = entry_ids(ids, ps);
    let a = duplicate_errors(ids) + provider_errors(nodes) + timeout_errors(nodes) + wrapper_errors(nodes, def.scripts_dir, found);
    let b: Seq<(int, Seq<Seq<char>>)> = if entries.len() == 0 { seq![(0int, Seq::<Seq<char>>::empty())] } else { Seq::empty() };
    assert(b.len() == 0);
    assert(duplicate_errors(ids).len() == 0);
    lemma_no_duplicates(ids);
    assert forall|i: int, j: int| 0 <= i < j < nodes.len() implies nodes[i].id@ != nodes[j].id@ by {
        assert(ids[i] == nodes[i].id@ && ids[j] == nodes[j].id@);
    }
    let c = rejected_ids(distinct(ids), reach_pred(entries, ps), 1)
        + rejected_ids(distinct(ids), reach_pred(entry_ids(ids, rps), rps), 2);
    assert(c.len() == 0);
    lemma_no_rejected(distinct(ids), reach_pred(entries, ps), 1);
    lemma_no_rejected(distinct(ids), reach_pred(entry_ids(ids, rps), rps), 2);
    lemma_distinct_keeps(ids);
    assert forall|i: int| 0 <= i < nodes.len() implies reaches(entries, ps, #[trigger] nodes[i].id@) by {
        assert(ids[i] == nodes[i].id@);
        assert(distinct(ids).contains(ids[i]));
        let k = choose|k: int| 0 <= k < distinct(ids).len() && distinct(ids)[k] == ids[i];
        assert(reach_pred(entries, ps)(distinct(ids)[k]));
    }
    assert forall|i: int| 0 <= i < nodes.len() implies reaches(entry_ids(ids, rps), rps, #[trigger] nodes[i].id@) by {
        assert(ids[i] == nodes[i].id@);
        assert(distinct(ids).contains(ids[i]));
        let k = choose|k: int| 0 <= k < distinct(ids).len() && distinct(ids)[k] == ids[i];
        assert(reach_pred(entry_ids(ids, rps), rps)(distinct(ids)[k]));
    }
}

} // verus!

verus! {

proof fn lemma_contains_right(a: Seq<(int, Seq<Seq<char>>)>, b: Seq<(int, Seq<Seq<char>>)>, x: (int, Seq<Seq<char>>))
    requires
        b.contains(x),
    ensures
        (a + b).contains(x),
{
    let j = choose|j: int| 0 <= j < b.len() && b[j] == x;
    assert((a + b)[a.len() + j] == x);
}

proof fn lemma_contains_left(a: Seq<(int, Seq<Seq<char>>)>, b: Seq<(int, Seq<Seq<char>>)>, x: (int, Seq<Seq<char>>))
    requires
        a.contains(x),
    ensures
        (a + b).contains(x),
{
    let j = choose|j: int| 0 <= j < a.len() && a[j] == x;
    assert((a + b)[j] == x);
}

proof fn lemma_source_errors_report(dfs: Seq<DataFlowDef>, ids: Seq<Seq<char>>, k: int)
    requires
        0 <= k < dfs.len(),
        !ids.contains(dfs[k].to@) || !ids.contains(dfs[k].from@),
    ensures
        source_errors(dfs, ids).contains((8int, seq![dfs[k].to@, dfs[k].from@])),
    decreases dfs.len(),
{
    let d = dfs.drop_last();
    let df = dfs.last();
    let x = (8int, seq![dfs[k].to@, dfs[k].from@]);
    let a = if !ids.contains(df.from@) { seq![(8int, seq![df.to@, df.from@])] } else { Seq::empty() };
    let b = if !ids.contains(df.to@) { seq![(8int, seq![df.to@, df.from@])] } else { Seq::empty() };
    assert(source_errors(dfs, ids) == source_errors(d, ids) + a + b);
    if k < d.len() {
        assert(d[k] == dfs[k]);
        lemma_source_errors_report(d, ids, k);
        lemma_contains_left(source_errors(d, ids), a, x);
        lemma_contains_left(source_errors(d, ids) + a, b, x);
    } else {
        assert(dfs[k] == df);
        if !ids.contains(df.from@) {
            assert(a[0] == x);
            lemma_contains_right(source_errors(d, ids), a, x);
            lemma_contains_left(source_errors(d, ids) + a, b, x);
        } else {
            assert(b[0] == x);
            lemma_contains_right(source_errors(d, ids) + a, b, x);
        }
    }
}

/// A data flow whose target or source is not a node of a (non-empty)
/// workflow is reported as an input source that was not found, naming the
/// flow's target and source.
pub proof fn law_dataflow_to_unknown_node_reported(def: WorkflowDef, found: Seq<bool>, k: int)
    requires
        def.nodes@.len() > 0,
        0 <= k < def.dataflows@.len(),
        !node_ids(def.nodes@).contains(def.dataflows@[k].to@) || !node_ids(def.nodes@).contains(def.dataflows@[k].from@),
    ensures
        workflow_errors(def, found).contains((8int, seq![def.dataflows@[k].to@, def.dataflows@[k].from@])),
{
    let nodes = def.nodes@;
    let ids = node_ids(nodes);
    let ps = edge_pairs(def.edges@);
    let rps = reversed_pairs(def.edges@);
    let entries = entry_ids(ids, ps);
    let x = (8int, seq![def.dataflows@[k].to@, def.dataflows@[k].from@]);
    let p = duplicate_errors(ids) + provider_errors(nodes) + timeout_errors(nodes)
        + wrapper_errors(nodes, def.scripts_dir, found)
        + (if entries.len() == 0 { seq![(0int, Seq::<Seq<char>>::empty())] } else { Seq::empty() })
        + (if entries.len() > 0 {
            rejected_ids(distinct(ids), reach_pred(entries, ps), 1)
                + rejected_ids(distinct(ids), reach_pred(entry_ids(ids, rps), rps), 2)
        } else {
            Seq::empty()
        })
        + (if has_unentered_cycle(ids, ps) { seq![(3int, Seq::<Seq<char>>::empty())] } else { Seq::empty() });
    let s = source_errors(def.dataflows@, ids);
    let u = if entries.len() > 0 { unreachable_source_errors(def.dataflows@, ids, ps) } else { Seq::empty() };
    let t = template_errors(nodes, def.dataflows@, ids);
    assert(workflow_errors(def, found) == p + s + u + t);
    lemma_source_errors_report(def.dataflows@, ids, k);
    lemma_contains_right(p, s, x);
    lemma_contains_left(p + s, u, x);
    lemma_contains_left(p + s + u, t, x);
}

/// A workflow that validates has every data flow between two of its nodes.
pub proof fn law_valid_dataflows_name_nodes(def: WorkflowDef, found: Seq<bool>)
    requires
        workflow_errors(def, found).len() == 0,
    ensures
        forall|k: int| #![trigger def.dataflows@[k]] 0 <= k < def.dataflows@.len() ==> node_ids(def.nodes@).contains(def.dataflows@[k].to@)
            && node_ids(def.nodes@).contains(def.dataflows@[k].from@),
{
    assert forall|k: int| #![trigger def.dataflows@[k]] 0 <= k < def.dataflows@.len() implies node_ids(def.nodes@).contains(def.dataflows@[k].to@)
        && node_ids(def.nodes@).contains(def.dataflows@[k].from@) by {
        if def.nodes@.len() == 0 {
            assert(workflow_errors(def, found).len() == 1);
        } else if !(node_ids(def.nodes@).contains(def.dataflows@[k].to@)
            && node_ids(def.nodes@).contains(def.dataflows@[k].from@)) {
            law_dataflow_to_unknown_node_reported(def, found, k);
            let x = (8int, seq![def.dataflows@[k].to@, def.dataflows@[k].from@]);
            assert(workflow_errors(def, found).contains(x));
        }
    }
}

} // verus!
