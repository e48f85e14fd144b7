//! The workflow topology the dashboard draws: a stored definition's nodes,
//! edges and data flows, read from its JSON text, with edge labels.

use vstd::prelude::*;

use crate::json::{json_error, json_error_of, json_len_at, json_len_at_of, json_str_at, json_str_at_of, json_u64_at, json_u64_at_of};
use crate::nodeshell::llm_sdk::opt_str;
use crate::text::{decimal, decimal_string, push_str_chars};

verus! {

/// A node of a definition: its `id`, when that is a string.
#[derive(Debug, Clone, PartialEq, Eq)]
pub struct NodeShape {
    /// The node's ID.
    pub id: Option<String>,
}

/// An edge of a definition: each field when present with the expected type.
#[derive(Debug, Clone, PartialEq, Eq)]
pub struct EdgeShape {
    /// Source node ID.
    pub from: Option<String>,
    /// Target node ID.
    pub to: Option<String>,
    /// Trigger expression (`all` / `any`).
    pub trigger: Option<String>,
    /// Event type.
    pub event: Option<String>,
    /// Exit-reason filter.
    pub exit_reason: Option<String>,
    /// Threshold.
    pub threshold: Option<u64>,
}

/// A data flow of a definition.
#[derive(Debug, Clone, PartialEq, Eq)]
pub struct FlowShape {
    /// Source node ID.
    pub from: Option<String>,
    /// Target node ID.
    pub to: Option<String>,
    /// Input alias.
    pub alias: Option<String>,
}

/// What the dashboard reads of a stored definition.
#[derive(Debug, Clone, PartialEq, Eq)]
pub struct DefinitionShape {
    /// The nodes, in order.
    pub nodes: Vec<NodeShape>,
    /// The scheduling edges, in order.
    pub edges: Vec<EdgeShape>,
    /// The data flows, in order.
    pub dataflows: Vec<FlowShape>,
}

/// An edge seen through its views.
pub type EdgeView = (Option<Seq<char>>, Option<Seq<char>>, Option<Seq<char>>, Option<Seq<char>>, Option<Seq<char>>, Option<u64>);

/// A data flow seen through its views.
pub type FlowView = (Option<Seq<char>>, Option<Seq<char>>, Option<Seq<char>>);

/// A definition seen through its views.
pub type ShapeView = (Seq<Option<Seq<char>>>, Seq<EdgeView>, Seq<FlowView>);

/// The view of an edge.
pub open spec fn edge_view(e: EdgeShape) -> EdgeView {
    (opt_str(e.from), opt_str(e.to), opt_str(e.trigger), opt_str(e.event), opt_str(e.exit_reason), e.threshold)
}

/// The view of a data flow.
pub open spec fn flow_view(f: FlowShape) -> FlowView {
    (opt_str(f.from), opt_str(f.to), opt_str(f.alias))
}

/// The view of a definition.
pub open spec fn shape_view(d: DefinitionShape) -> ShapeView {
    (
        d.nodes@.map_values(|n: NodeShape| opt_str(n.id)),
        d.edges@.map_values(|e: EdgeShape| edge_view(e)),
        d.dataflows@.map_values(|f: FlowShape| flow_view(f)),
    )
}

/// The JSON pointer of field `field` of element `i` of the top-level array
/// `list`: `/list/i/field`.
pub open spec fn element_pointer(list: Seq<char>, i: nat, field: Seq<char>) -> Seq<char> {
    "/"@ + list + "/"@ + decimal(i) + "/"@ + field
}

/// The length of the top-level array `list` (0 when there is none).
pub open spec fn list_len(text: Seq<char>, list: Seq<char>) -> nat {
    match json_len_at_of(text, "/"@ + list) {
        Some(n) => n as nat,
        None => 0,
    }
}

/// A string field of element `i` of the top-level array `list`.
pub open spec fn element_str(text: Seq<char>, list: Seq<char>, i: nat, field: Seq<char>) -> Option<Seq<char>> {
    json_str_at_of(text, element_pointer(list, i, field))
}

/// Edge `i` of a definition's text.
pub open spec fn edge_of(text: Seq<char>, i: nat) -> EdgeView {
    (
        element_str(text, "edges"@, i, "from"@),
        element_str(text, "edges"@, i, "to"@),
        element_str(text, "edges"@, i, "trigger"@),
        element_str(text, "edges"@, i, "event"@),
        element_str(text, "edges"@, i, "exit_reason"@),
        json_u64_at_of(text, element_pointer("edges"@, i, "threshold"@)),
    )
}

/// Data flow `i` of a definition's text.
pub open spec fn flow_of(text: Seq<char>, i: nat) -> FlowView {
    (
        element_str(text, "dataflows"@, i, "from"@),
        element_str(text, "dataflows"@, i, "to"@),
        element_str(text, "dataflows"@, i, "alias"@),
    )
}

/// What the dashboard reads of a definition's text that parses.
pub open spec fn definition_shape_of(text: Seq<char>) -> ShapeView {
    (
        Seq::new(list_len(text, "nodes"@), |i: int| element_str(text, "nodes"@, i as nat, "id"@)),
        Seq::new(list_len(text, "edges"@), |i: int| edge_of(text, i as nat)),
        Seq::new(list_len(text, "dataflows"@), |i: int| flow_of(text, i as nat)),
    )
}

/// `/list/i/field` as a string.
fn element_pointer_exec(list: &str, i: usize, field: &str) -> (r: String)
    ensures
        r@ == element_pointer(list@, i as nat, field@),
{
    let mut p = String::new();
    push_str_chars(&mut p, "/");
    push_str_chars(&mut p, list);
    push_str_chars(&mut p, "/");
    let n = decimal_string(i as u64);
    push_str_chars(&mut p, n.as_str());
    push_str_chars(&mut p, "/");
    push_str_chars(&mut p, field);
    proof {
        assert(Seq::<char>::empty() + "/"@ == "/"@);
    }
    p
}

/// The length of the top-level array `list`.
fn list_len_exec(text: &str, list: &str) -> (r: usize)
    ensures
        r as nat == list_len(text@, list@),
{
    let mut p = String::new();
    push_str_chars(&mut p, "/");
    push_str_chars(&mut p, list);
    proof {
        assert(Seq::<char>::empty() + "/"@ == "/"@);
    }
    match json_len_at(text, p.as_str()) {
        Some(n) => n,
        None => 0,
    }
}

/// Read a stored definition: an error naming the parse failure when the
/// text is not JSON, else its nodes, edges and data flows.
pub fn parse_definition(text: &str) -> (r: Result<DefinitionShape, String>)
    ensures
        match json_error_of(text@) {
            Some(e) => r is Err && r->Err_0@ == "invalid definition: "@ + e,
            None => r is Ok && shape_view(r->Ok_0) == definition_shape_of(text@),
        },
{
    match json_error(text) {
        Some(e) => {
            let mut m = String::new();
            push_str_chars(&mut m, "invalid definition: ");
            push_str_chars(&mut m, e.as_str());
            proof {
                assert(Seq::<char>::empty() + "invalid definition: "@ == "invalid definition: "@);
            }
            return Err(m);
        },
        None => {},
    }
    let ghost t = text@;
    let n_nodes = list_len_exec(text, "nodes");
    let mut nodes: Vec<NodeShape> = Vec::new();
    let mut i: usize = 0;
    while i < n_nodes
        invariant
            i <= n_nodes,
            t == text@,
            n_nodes as nat == list_len(t, "nodes"@),
            nodes@.len() == i,
            forall|k: int| 0 <= k < i ==> opt_str(#[trigger] nodes@[k].id) == element_str(t, "nodes"@, k as nat, "id"@),
        decreases n_nodes - i,
    {
        let p = element_pointer_exec("nodes", i, "id");
        nodes.push(NodeShape { id: json_str_at(text, p.as_str()) });
        i = i + 1;
    }
    let n_edges = list_len_exec(text, "edges");
    let mut edges: Vec<EdgeShape> = Vec::new();
    let mut i: usize = 0;
    while i < n_edges
        invariant
            i <= n_edges,
            t == text@,
            n_edges as nat == list_len(t, "edges"@),
            edges@.len() == i,
            forall|k: int| 0 <= k < i ==> edge_view(#[trigger] edges@[k]) == edge_of(t, k as nat),
        decreases n_edges - i,
    {
        let from = json_str_at(text, element_pointer_exec("edges", i, "from").as_str());
        let to = json_str_at(text, element_pointer_exec("edges", i, "to").as_str());
        let trigger = json_str_at(text, element_pointer_exec("edges", i, "trigger").as_str());
        let event = json_str_at(text, element_pointer_exec("edges", i, "event").as_str());
        let exit_reason = json_str_at(text, element_pointer_exec("edges", i, "exit_reason").as_str());
        let threshold = json_u64_at(text, element_pointer_exec("edges", i, "threshold").as_str());
        edges.push(EdgeShape { from, to, trigger, event, exit_reason, threshold });
        i = i + 1;
    }
    let n_flows = list_len_exec(text, "dataflows");
    let mut dataflows: Vec<FlowShape> = Vec::new();
    let mut i: usize = 0;
    while i < n_flows
        invariant
            i <= n_flows,
            t == text@,
            n_flows as nat == list_len(t, "dataflows"@),
            dataflows@.len() == i,
            forall|k: int| 0 <= k < i ==> flow_view(#[trigger] dataflows@[k]) == flow_of(t, k as nat),
        decreases n_flows - i,
    {
        let from = json_str_at(text, element_pointer_exec("dataflows", i, "from").as_str());
        let to = json_str_at(text, element_pointer_exec("dataflows", i, "to").as_str());
        let alias = json_str_at(text, element_pointer_exec("dataflows", i, "alias").as_str());
        dataflows.push(FlowShape { from, to, alias });
        i = i + 1;
    }
    let d = DefinitionShape { nodes, edges, dataflows };
    assert(shape_view(d).0 =~= definition_shape_of(t).0);
    assert(shape_view(d).1 =~= definition_shape_of(t).1);
    assert(shape_view(d).2 =~= definition_shape_of(t).2);
    Ok(d)
}

/// The label of an edge: its trigger (`all` when the edge names none),
/// `/` and its event (`complete` when it names none), then `/` and its exit
/// reason when that is not empty.
pub open spec fn edge_label_text(trigger: Option<Seq<char>>, event: Option<Seq<char>>, exit_reason: Option<Seq<char>>) -> Seq<char> {
    let t = match trigger {
        Some(t) => t,
        None => "all"@,
    };
    let e = match event {
        Some(e) => e,
        None => "complete"@,
    };
    match exit_reason {
        Some(r) if r.len() > 0 => t + "/"@ + e + "/"@ + r,
        _ => t + "/"@ + e,
    }
}

/// The label of an edge from its trigger, event and exit reason.
pub fn edge_label(trigger: Option<&str>, event: Option<&str>, exit_reason: Option<&str>) -> (r: String)
    ensures
        r@ == edge_label_text(
            match trigger { Some(t) => Some(t@), None => None },
            match event { Some(e) => Some(e@), None => None },
            match exit_reason { Some(x) => Some(x@), None => None },
        ),
{
    let mut label = String::new();
    match trigger {
        Some(t) => push_str_chars(&mut label, t),
        None => push_str_chars(&mut label, "all"),
    }
    push_str_chars(&mut label, "/");
    match event {
        Some(e) => push_str_chars(&mut label, e),
        None => push_str_chars(&mut label, "complete"),
    }
    match exit_reason {
        Some(x) => {
            if !x.is_empty() {
                push_str_chars(&mut label, "/");
                push_str_chars(&mut label, x);
            }
        },
        None => {},
    }
    proof {
        assert(Seq::<char>::empty() + "all"@ == "all"@);
    }
    label
}

/// A node as the graph view draws it: its ID, also its label.
#[derive(Debug, Clone, PartialEq, Eq)]
pub struct TopologyNode {
    /// The node's ID.
    pub id: Option<String>,
    /// The node's label.
    pub label: Option<String>,
}

/// An edge as the graph view draws it: its fields and its label.
#[derive(Debug, Clone, PartialEq, Eq)]
pub struct TopologyEdge {
    /// The edge's fields.
    pub edge: EdgeShape,
    /// The edge's label.
    pub label: String,
}

/// The graph view of a definition.
#[derive(Debug, Clone, PartialEq, Eq)]
pub struct Topology {
    /// The nodes, in order.
    pub nodes: Vec<TopologyNode>,
    /// The edges, in order.
    pub edges: Vec<TopologyEdge>,
    /// The data flows, as stored.
    pub dataflows: Vec<FlowShape>,
}

/// Copy an optional string.
fn copy_opt(s: &Option<String>) -> (r: Option<String>)
    ensures
        opt_str(r) == opt_str(*s),
{
    match s {
        Some(x) => Some(x.clone()),
        None => None,
    }
}

/// The graph view of a definition: every node labelled by its ID, every
/// edge with its fields and its label, and the data flows unchanged.
pub fn topology(d: &DefinitionShape) -> (t: Topology)
    ensures
        t.nodes@.len() == d.nodes@.len(),
        forall|i: int| 0 <= i < d.nodes@.len() ==> opt_str(#[trigger] t.nodes@[i].id) == opt_str(d.nodes@[i].id)
            && opt_str(t.nodes@[i].label) == opt_str(d.nodes@[i].id),
        t.edges@.len() == d.edges@.len(),
        forall|i: int| 0 <= i < d.edges@.len() ==> edge_view((#[trigger] t.edges@[i]).edge) == edge_view(d.edges@[i])
            && t.edges@[i].label@ == edge_label_text(
                opt_str(d.edges@[i].trigger), opt_str(d.edges@[i].event), opt_str(d.edges@[i].exit_reason)),
        t.dataflows@.map_values(|f: FlowShape| flow_view(f)) == d.dataflows@.map_values(|f: FlowShape| flow_view(f)),
{
    let mut nodes: Vec<TopologyNode> = Vec::new();
    let mut i: usize = 0;
    while i < d.nodes.len()
        invariant
            i <= d.nodes@.len(),
            nodes@.len() == i,
            forall|k: int| 0 <= k < i ==> opt_str(#[trigger] nodes@[k].id) == opt_str(d.nodes@[k].id)
                && opt_str(nodes@[k].label) == opt_str(d.nodes@[k].id),
        decreases d.nodes@.len() - i,
    {
        nodes.push(TopologyNode { id: copy_opt(&d.nodes[i].id), label: copy_opt(&d.nodes[i].id) });
        i = i + 1;
    }
    let mut edges: Vec<TopologyEdge> = Vec::new();
    let mut i: usize = 0;
    while i < d.edges.len()
        invariant
            i <= d.edges@.len(),
            edges@.len() == i,
            forall|k: int| 0 <= k < i ==> edge_view((#[trigger] edges@[k]).edge) == edge_view(d.edges@[k])
                && edges@[k].label@ == edge_label_text(
                    opt_str(d.edges@[k].trigger), opt_str(d.edges@[k].event), opt_str(d.edges@[k].exit_reason)),
        decreases d.edges@.len() - i,
    {
        let e = &d.edges[i];
        let label = edge_label(
            match &e.trigger { Some(x) => Some(x.as_str()), None => None },
            match &e.event { Some(x) => Some(x.as_str()), None => None },
            match &e.exit_reason { Some(x) => Some(x.as_str()), None => None },
        );
        let edge = EdgeShape {
            from: copy_opt(&e.from),
            to: copy_opt(&e.to),
            trigger: copy_opt(&e.trigger),
            event: copy_opt(&e.event),
            exit_reason: copy_opt(&e.exit_reason),
            threshold: e.threshold,
        };
        edges.push(TopologyEdge { edge, label });
        i = i + 1;
    }
    let mut dataflows: Vec<FlowShape> = Vec::new();
    let mut i: usize = 0;
    while i < d.dataflows.len()
        invariant
            i <= d.dataflows@.len(),
            dataflows@.len() == i,
            forall|k: int| 0 <= k < i ==> flow_view(#[trigger] dataflows@[k]) == flow_view(d.dataflows@[k]),
        decreases d.dataflows@.len() - i,
    {
        let f = &d.dataflows[i];
        dataflows.push(FlowShape { from: copy_opt(&f.from), to: copy_opt(&f.to), alias: copy_opt(&f.alias) });
        i = i + 1;
    }
    assert(dataflows@.map_values(|f: FlowShape| flow_view(f)) =~= d.dataflows@.map_values(|f: FlowShape| flow_view(f)));
    Topology { nodes, edges, dataflows }
}

/// The graph view of a stored definition's text: the parse error, or the
/// topology of what it holds.
pub fn definition_graph(text: &str) -> (r: Result<Topology, String>)
    ensures
        match json_error_of(text@) {
            Some(e) => r is Err && r->Err_0@ == "invalid definition: "@ + e,
            None => r is Ok && {
                let v = definition_shape_of(text@);
                let t = r->Ok_0;
                &&& t.nodes@.map_values(|n: TopologyNode| opt_str(n.id)) == v.0
                &&& t.nodes@.map_values(|n: TopologyNode| opt_str(n.label)) == v.0
                &&& t.edges@.map_values(|e: TopologyEdge| edge_view(e.edge)) == v.1
                &&& forall|i: int| 0 <= i < v.1.len() ==> (#[trigger] t.edges@[i]).label@ == edge_label_text(
                    v.1[i].2, v.1[i].3, v.1[i].4)
                &&& t.dataflows@.map_values(|f: FlowShape| flow_view(f)) == v.2
            },
        },
{
    match parse_definition(text) {
        Err(e) => Err(e),
        Ok(d) => {
            let t = topology(&d);
            let ghost v = definition_shape_of(text@);
            assert(t.nodes@.map_values(|n: TopologyNode| opt_str(n.id)) =~= v.0);
            assert(t.nodes@.map_values(|n: TopologyNode| opt_str(n.label)) =~= v.0);
            assert(t.edges@.map_values(|e: TopologyEdge| edge_view(e.edge)) =~= v.1);
            assert forall|i: int| 0 <= i < v.1.len() implies (#[trigger] t.edges@[i]).label@ == edge_label_text(
                v.1[i].2, v.1[i].3, v.1[i].4) by {
                assert(v.1[i] == edge_view(d.edges@[i]));
            }
            Ok(t)
        },
    }
}

} // verus!
