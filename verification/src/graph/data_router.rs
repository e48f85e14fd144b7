//! Runtime data routing between graph nodes.
//!
//! A [`DataRouter`] keeps the latest output of every node and, for every
//! target node, the list of `(alias, source)` pairs declared by the
//! workflow's data flows.  From these it builds the inputs a node sees.

use std::collections::HashMap;

use vstd::prelude::*;

use crate::model::predecessor::DataFlowDef;
use crate::nodeshell::types::{
    entries_view, kv_find, kv_get, kv_insert, kv_put, lemma_kv_find, lemma_kv_put_get, NodeOutput,
};

verus! {

broadcast use vstd::std_specs::hash::group_hash_axioms;

/// The name under which a data flow's target sees the source's data.
pub open spec fn alias_of(df: DataFlowDef) -> Seq<char> {
    match df.alias {
        Some(a) => a@,
        None => df.from@,
    }
}

/// The `(target, (alias, source))` entry a data flow contributes, when both
/// of its endpoints name known nodes.
pub open spec fn flow_entry(ids: Seq<(Seq<char>, usize)>, df: DataFlowDef) -> Option<(usize, (Seq<char>, usize))> {
    match (kv_get(ids, df.from@), kv_get(ids, df.to@)) {
        (Some(from), Some(to)) => Some((to, (alias_of(df), from))),
        _ => None,
    }
}

/// The `(alias, source)` pairs feeding target `t`, in declaration order.
pub open spec fn flows_into(ids: Seq<(Seq<char>, usize)>, dfs: Seq<DataFlowDef>, t: usize) -> Seq<(Seq<char>, usize)>
    decreases dfs.len(),
{
    if dfs.len() == 0 {
        Seq::empty()
    } else {
        let prev = flows_into(ids, dfs.drop_last(), t);
        match flow_entry(ids, dfs.last()) {
            Some(e) => if e.0 == t { prev.push(e.1) } else { prev },
            None => prev,
        }
    }
}

/// The content a consumer sees from `src`: the stored content, or the empty
/// string when nothing is stored.
pub open spec fn content_for(stored: Map<usize, NodeOutput>, src: usize) -> Seq<char> {
    if stored.contains_key(src) {
        stored[src].content@
    } else {
        Seq::empty()
    }
}

/// The full output a consumer sees from `src`: the stored output, or an
/// empty route and content when nothing is stored.
pub open spec fn output_for(stored: Map<usize, NodeOutput>, src: usize) -> (Seq<char>, Seq<char>) {
    if stored.contains_key(src) {
        stored[src]@
    } else {
        (Seq::empty(), Seq::empty())
    }
}

/// The alias-to-content map built from a list of flows, later flows with the
/// same alias overwriting earlier ones.
pub open spec fn input_fold(flows: Seq<(Seq<char>, usize)>, stored: Map<usize, NodeOutput>) -> Seq<(Seq<char>, Seq<char>)>
    decreases flows.len(),
{
    if flows.len() == 0 {
        Seq::empty()
    } else {
        kv_put(input_fold(flows.drop_last(), stored), flows.last().0, content_for(stored, flows.last().1))
    }
}

/// The alias-to-output map built from a list of flows.
pub open spec fn upstream_fold(flows: Seq<(Seq<char>, usize)>, stored: Map<usize, NodeOutput>) -> Seq<(Seq<char>, (Seq<char>, Seq<char>))>
    decreases flows.len(),
{
    if flows.len() == 0 {
        Seq::empty()
    } else {
        kv_put(upstream_fold(flows.drop_last(), stored), flows.last().0, output_for(stored, flows.last().1))
    }
}

/// The position of the last flow declared under `alias`.
pub open spec fn last_with_alias(flows: Seq<(Seq<char>, usize)>, alias: Seq<char>) -> Option<int>
    decreases flows.len(),
{
    if flows.len() == 0 {
        None
    } else if flows.last().0 == alias {
        Some(flows.len() - 1)
    } else {
        last_with_alias(flows.drop_last(), alias)
    }
}

/// Routes output data from upstream nodes to downstream consumers.
#[derive(Debug)]
pub struct DataRouter {
    outputs: HashMap<usize, NodeOutput>,
    flow_index: HashMap<usize, Vec<(String, usize)>>,
}

/// The flows of `t` recorded in a flow index.
pub open spec fn indexed_flows(index: Map<usize, Vec<(String, usize)>>, t: usize) -> Seq<(Seq<char>, usize)> {
    if index.contains_key(t) {
        entries_view(index[t]@)
    } else {
        Seq::empty()
    }
}

impl DataRouter {
    /// The stored output of every node that has one.
    pub closed spec fn stored(&self) -> Map<usize, NodeOutput> {
        self.outputs@
    }

    /// The `(alias, source)` pairs feeding target `t`, in declaration order.
    pub closed spec fn flows_of(&self, t: usize) -> Seq<(Seq<char>, usize)> {
        indexed_flows(self.flow_index@, t)
    }

    /// A router with no stored output whose flow index holds, for every
    /// target, the data flows whose endpoints both name known nodes.
    pub fn new(node_ids: &Vec<(String, usize)>, dataflows: &Vec<DataFlowDef>) -> (r: Self)
        ensures
            r.stored() == Map::<usize, NodeOutput>::empty(),
            forall|t: usize| #[trigger] r.flows_of(t) == flows_into(entries_view(node_ids@), dataflows@, t),
    {
        let ghost ids = entries_view(node_ids@);
        let mut flow_index: HashMap<usize, Vec<(String, usize)>> = HashMap::new();
        let mut i: usize = 0;
        while i < dataflows.len()
            invariant
                i <= dataflows@.len(),
                ids == entries_view(node_ids@),
                forall|t: usize| #[trigger] indexed_flows(flow_index@, t) == flows_into(ids, dataflows@.take(i as int), t),
            decreases dataflows@.len() - i,
        {
            let df = &dataflows[i];
            let from = crate::nodeshell::types::kv_find_exec(node_ids, df.from.as_str());
            let to = crate::nodeshell::types::kv_find_exec(node_ids, df.to.as_str());
            proof {
                lemma_kv_find(ids, df.from@);
                lemma_kv_find(ids, df.to@);
                assert(dataflows@.take(i + 1).drop_last() == dataflows@.take(i as int));
                assert(dataflows@.take(i + 1).last() == *df);
            }
            let ghost idx0 = flow_index@;
            match (from, to) {
                (Some(f), Some(t)) => {
                    let from_idx = node_ids[f].1;
                    let to_idx = node_ids[t].1;
                    let alias = match &df.alias {
                        Some(a) => a.clone(),
                        None => df.from.clone(),
                    };
                    proof {
                        assert(ids[f as int] == (node_ids@[f as int].0@, from_idx));
                        assert(ids[t as int] == (node_ids@[t as int].0@, to_idx));
                        assert(flow_entry(ids, *df) == Some((to_idx, (alias@, from_idx))));
                    }
                    let mut list = match flow_index.remove(&to_idx) {
                        Some(l) => l,
                        None => Vec::new(),
                    };
                    let ghost before = list@;
                    proof {
                        assert(entries_view(before) == indexed_flows(idx0, to_idx));
                    }
                    list.push((alias, from_idx));
                    proof {
                        assert(entries_view(list@) =~= entries_view(before).push((alias@, from_idx)));
                    }
                    flow_index.insert(to_idx, list);
                    proof {
                        assert forall|u: usize| #[trigger] indexed_flows(flow_index@, u) == flows_into(ids, dataflows@.take(i + 1), u) by {
                            assert(indexed_flows(idx0, u) == flows_into(ids, dataflows@.take(i as int), u));
                            if u != to_idx {
                                assert(flow_index@[u] == idx0[u]);
                                assert(flow_index@.contains_key(u) == idx0.contains_key(u));
                            }
                        }
                    }
                },
                _ => {
                    proof {
                        assert(flow_entry(ids, *df) is None);
                        assert forall|u: usize| #[trigger] indexed_flows(flow_index@, u) == flows_into(ids, dataflows@.take(i + 1), u) by {
                            assert(indexed_flows(idx0, u) == flows_into(ids, dataflows@.take(i as int), u));
                        }
                    }
                },
            }
            i = i + 1;
        }
        proof {
            assert(dataflows@.take(dataflows@.len() as int) == dataflows@);
        }
        DataRouter { outputs: HashMap::new(), flow_index }
    }

    /// Store the output produced by a node, replacing any earlier one.
    pub fn store_output(&mut self, node_index: usize, output: &NodeOutput)
        ensures
            final(self).stored() == old(self).stored().insert(node_index, *output),
            forall|t: usize| #[trigger] final(self).flows_of(t) == old(self).flows_of(t),
    {
        self.outputs.insert(node_index, output.copy());
    }

    /// Remove the stored output of a node (a no-op when it has none), so that
    /// a retried node's consumers do not read stale data.
    pub fn clear_output(&mut self, node_index: usize)
        ensures
            final(self).stored() == old(self).stored().remove(node_index),
            forall|t: usize| #[trigger] final(self).flows_of(t) == old(self).flows_of(t),
    {
        self.outputs.remove(&node_index);
    }

    /// The list of flows feeding `target`, as stored.
    fn flow_list(&self, target: usize) -> (r: Option<&Vec<(String, usize)>>)
        ensures
            match r {
                Some(l) => entries_view(l@) == self.flows_of(target),
                None => self.flows_of(target) == Seq::<(Seq<char>, usize)>::empty(),
            },
    {
        self.flow_index.get(&target)
    }

    /// The alias-to-content map of `target`'s inputs: for every declared flow
    /// the content stored for its source, or the empty string when the
    /// source has no (or empty) stored output.
    pub fn build_input(&self, target: usize) -> (r: Vec<(String, String)>)
        ensures
            entries_view(r@) == input_fold(self.flows_of(target), self.stored()),
    {
        let mut result: Vec<(String, String)> = Vec::new();
        match self.flow_list(target) {
            Some(flows) => {
                let ghost fl = entries_view(flows@);
                let mut i: usize = 0;
                while i < flows.len()
                    invariant
                        i <= flows@.len(),
                        fl == entries_view(flows@),
                        fl == self.flows_of(target),
                        entries_view(result@) == input_fold(fl.take(i as int), self.stored()),
                    decreases flows@.len() - i,
                {
                    let alias = flows[i].0.clone();
                    let source = flows[i].1;
                    let content = match self.outputs.get(&source) {
                        Some(output) => output.content.clone(),
                        None => String::new(),
                    };
                    proof {
                        assert(fl.take(i + 1).drop_last() == fl.take(i as int));
                        assert(fl.take(i + 1).last() == (alias@, source));
                    }
                    kv_insert(&mut result, alias, content);
                    i = i + 1;
                }
                proof {
                    assert(fl.take(fl.len() as int) == fl);
                }
            },
            None => {
                assert(entries_view(result@) =~= Seq::<(Seq<char>, Seq<char>)>::empty());
            },
        }
        result
    }

    /// The alias-to-output map of `target`'s upstream nodes: for every
    /// declared flow the output stored for its source, or an empty route and
    /// content when the source has none.
    pub fn build_upstream(&self, target: usize) -> (r: Vec<(String, NodeOutput)>)
        ensures
            entries_view(r@) == upstream_fold(self.flows_of(target), self.stored()),
    {
        let mut result: Vec<(String, NodeOutput)> = Vec::new();
        match self.flow_list(target) {
            Some(flows) => {
                let ghost fl = entries_view(flows@);
                let mut i: usize = 0;
                while i < flows.len()
                    invariant
                        i <= flows@.len(),
                        fl == entries_view(flows@),
                        fl == self.flows_of(target),
                        entries_view(result@) == upstream_fold(fl.take(i as int), self.stored()),
                    decreases flows@.len() - i,
                {
                    let alias = flows[i].0.clone();
                    let source = flows[i].1;
                    let output = match self.outputs.get(&source) {
                        Some(output) => output.copy(),
                        None => NodeOutput::empty(),
                    };
                    proof {
                        assert(fl.take(i + 1).drop_last() == fl.take(i as int));
                        assert(fl.take(i + 1).last() == (alias@, source));
                    }
                    kv_insert(&mut result, alias, output);
                    i = i + 1;
                }
                proof {
                    assert(fl.take(fl.len() as int) == fl);
                }
            },
            None => {
                assert(entries_view(result@) =~= Seq::<(Seq<char>, (Seq<char>, Seq<char>))>::empty());
            },
        }
        result
    }
}

/// `last_with_alias` finds the last flow declared under the alias.
pub proof fn lemma_last_with_alias(flows: Seq<(Seq<char>, usize)>, alias: Seq<char>)
    ensures
        match last_with_alias(flows, alias) {
            Some(j) => 0 <= j < flows.len() && flows[j].0 == alias
                && forall|k: int| j < k < flows.len() ==> flows[k].0 != alias,
            None => forall|k: int| 0 <= k < flows.len() ==> flows[k].0 != alias,
        },
    decreases flows.len(),
{
    if flows.len() > 0 {
        let d = flows.drop_last();
        lemma_last_with_alias(d, alias);
        assert forall|k: int| 0 <= k < d.len() implies d[k] == flows[k] by {}
    }
}

/// Looking an alias up in the input map gives the content seen from the
/// source of the last flow declared under that alias, and nothing for an
/// alias no flow declares.
pub proof fn lemma_input_lookup(flows: Seq<(Seq<char>, usize)>, stored: Map<usize, NodeOutput>, alias: Seq<char>)
    ensures
        kv_get(input_fold(flows, stored), alias) == match last_with_alias(flows, alias) {
            Some(j) => Some(content_for(stored, flows[j].1)),
            None => None::<Seq<char>>,
        },
    decreases flows.len(),
{
    if flows.len() > 0 {
        let d = flows.drop_last();
        let prev = input_fold(d, stored);
        lemma_input_lookup(d, stored, alias);
        lemma_last_with_alias(d, alias);
        lemma_kv_put_get(prev, flows.last().0, content_for(stored, flows.last().1), alias);
        match last_with_alias(d, alias) {
            Some(j) => {
                assert(d[j] == flows[j]);
            },
            None => {},
        }
    }
}

/// Looking an alias up in the upstream map gives the output seen from the
/// source of the last flow declared under that alias.
pub proof fn lemma_upstream_lookup(flows: Seq<(Seq<char>, usize)>, stored: Map<usize, NodeOutput>, alias: Seq<char>)
    ensures
        kv_get(upstream_fold(flows, stored), alias) == match last_with_alias(flows, alias) {
            Some(j) => Some(output_for(stored, flows[j].1)),
            None => None::<(Seq<char>, Seq<char>)>,
        },
    decreases flows.len(),
{
    if flows.len() > 0 {
        let d = flows.drop_last();
        let prev = upstream_fold(d, stored);
        lemma_upstream_lookup(d, stored, alias);
        lemma_last_with_alias(d, alias);
        lemma_kv_put_get(prev, flows.last().0, output_for(stored, flows.last().1), alias);
        match last_with_alias(d, alias) {
            Some(j) => {
                assert(d[j] == flows[j]);
            },
            None => {},
        }
    }
}

/// Read after write: once `output` is stored for `node`, every alias whose
/// last declared source is `node` reads that output's content.
pub proof fn law_input_reads_stored_output(
    flows: Seq<(Seq<char>, usize)>,
    stored: Map<usize, NodeOutput>,
    node: usize,
    output: NodeOutput,
    alias: Seq<char>,
)
    requires
        last_with_alias(flows, alias) is Some,
        flows[last_with_alias(flows, alias)->0].1 == node,
    ensures
        kv_get(input_fold(flows, stored.insert(node, output)), alias) == Some(output.content@),
        kv_get(upstream_fold(flows, stored.insert(node, output)), alias) == Some(output@),
{
    lemma_input_lookup(flows, stored.insert(node, output), alias);
    lemma_upstream_lookup(flows, stored.insert(node, output), alias);
}

/// After clearing `node`'s output, every alias whose last declared source is
/// `node` reads the empty string, as if nothing had ever been stored.
pub proof fn law_cleared_output_reads_empty(
    flows: Seq<(Seq<char>, usize)>,
    stored: Map<usize, NodeOutput>,
    node: usize,
    alias: Seq<char>,
)
    requires
        last_with_alias(flows, alias) is Some,
        flows[last_with_alias(flows, alias)->0].1 == node,
    ensures
        kv_get(input_fold(flows, stored.remove(node)), alias) == Some(Seq::<char>::empty()),
        kv_get(upstream_fold(flows, stored.remove(node)), alias) == Some((Seq::<char>::empty(), Seq::<char>::empty())),
{
    lemma_input_lookup(flows, stored.remove(node), alias);
    lemma_upstream_lookup(flows, stored.remove(node), alias);
}

/// Every alias in the input map is one that some flow declares, so a target
/// without flows gets an empty input map.
pub proof fn law_inputs_only_declared_aliases(flows: Seq<(Seq<char>, usize)>, stored: Map<usize, NodeOutput>, alias: Seq<char>)
    requires
        forall|j: int| 0 <= j < flows.len() ==> flows[j].0 != alias,
    ensures
        kv_get(input_fold(flows, stored), alias) is None,
    decreases flows.len(),
{
    lemma_input_lookup(flows, stored, alias);
    lemma_no_alias(flows, alias);
}

proof fn lemma_no_alias(flows: Seq<(Seq<char>, usize)>, alias: Seq<char>)
    requires
        forall|j: int| 0 <= j < flows.len() ==> flows[j].0 != alias,
    ensures
        last_with_alias(flows, alias) is None,
    decreases flows.len(),
{
    if flows.len() > 0 {
        let d = flows.drop_last();
        assert forall|j: int| 0 <= j < d.len() implies d[j].0 != alias by {
            assert(d[j] == flows[j]);
        }
        lemma_no_alias(d, alias);
    }
}

} // verus!

verus! {

/// Whether a data flow, with both endpoints among the known nodes, feeds
/// `t` under `alias`.
pub open spec fn flows_to_under(ids: Seq<(Seq<char>, usize)>, df: DataFlowDef, t: usize, alias: Seq<char>) -> bool {
    match flow_entry(ids, df) {
        Some(e) => e.0 == t && e.1.0 == alias,
        None => false,
    }
}

/// A flow into `t` is declared under `alias` exactly when some data flow
/// with both endpoints among the known nodes points to `t` under that alias
/// (its explicit alias, else its source's ID).
pub proof fn lemma_flows_into_aliases(ids: Seq<(Seq<char>, usize)>, dfs: Seq<DataFlowDef>, t: usize, alias: Seq<char>)
    ensures
        (exists|j: int| 0 <= j < flows_into(ids, dfs, t).len() && (#[trigger] flows_into(ids, dfs, t)[j]).0 == alias)
            <==> (exists|k: int| 0 <= k < dfs.len() && #[trigger] flows_to_under(ids, dfs[k], t, alias)),
    decreases dfs.len(),
{
    if dfs.len() > 0 {
        let d = dfs.drop_last();
        let prev = flows_into(ids, d, t);
        let cur = flows_into(ids, dfs, t);
        lemma_flows_into_aliases(ids, d, t, alias);
        if exists|j: int| 0 <= j < cur.len() && (#[trigger] cur[j]).0 == alias {
            let j = choose|j: int| 0 <= j < cur.len() && (#[trigger] cur[j]).0 == alias;
            if j < prev.len() {
                assert(cur[j] == prev[j]);
                let k = choose|k: int| 0 <= k < d.len() && #[trigger] flows_to_under(ids, d[k], t, alias);
                assert(d[k] == dfs[k]);
            } else {
                assert(flows_to_under(ids, dfs[dfs.len() - 1], t, alias));
            }
        }
        if exists|k: int| 0 <= k < dfs.len() && #[trigger] flows_to_under(ids, dfs[k], t, alias) {
            let k = choose|k: int| 0 <= k < dfs.len() && #[trigger] flows_to_under(ids, dfs[k], t, alias);
            if k < d.len() {
                assert(d[k] == dfs[k]);
                let j = choose|j: int| 0 <= j < prev.len() && (#[trigger] prev[j]).0 == alias;
                assert(cur[j] == prev[j]);
            } else {
                assert(dfs.last() == dfs[k]);
                assert(cur[cur.len() - 1].0 == alias);
            }
        }
    }
}

/// The keys of a target's input map are exactly the aliases of the data
/// flows into it whose endpoints both name known nodes, and each key's
/// value is the content stored for the source of the last flow declared
/// under it (the empty string when that source has stored nothing).
pub proof fn law_input_keys_are_flow_aliases(
    ids: Seq<(Seq<char>, usize)>,
    dfs: Seq<DataFlowDef>,
    t: usize,
    stored: Map<usize, NodeOutput>,
    alias: Seq<char>,
)
    ensures
        ({
            let flows = flows_into(ids, dfs, t);
            &&& (kv_get(input_fold(flows, stored), alias) is Some) <==> (exists|k: int| 0 <= k < dfs.len()
                && #[trigger] flows_to_under(ids, dfs[k], t, alias))
            &&& kv_get(input_fold(flows, stored), alias) matches Some(v) ==> (last_with_alias(flows, alias) matches Some(j)
                && v == content_for(stored, flows[j].1))
        }),
{
    let flows = flows_into(ids, dfs, t);
    lemma_flows_into_aliases(ids, dfs, t, alias);
    lemma_input_lookup(flows, stored, alias);
    lemma_last_with_alias(flows, alias);
}

} // verus!
