//! Properties of edge evaluation and of the scheduler that hold across
//! events.

use vstd::prelude::*;

use crate::graph::edge::{EdgeDef, EdgeState, Strategy};
use crate::graph::graph_def::{count_all_edges_to, edge_matches, transfer_edge, GraphDef, TransferState};
use crate::graph::scheduler::{retried, NodeState, NodeStatus, RuntimeState};
use crate::model::predecessor::EventType;

verus! {

/// An edge that does not match the event (wrong event type, or an exit
/// reason other than its filter) changes nothing: no counter, no pending
/// count, nothing enqueued.
pub proof fn law_unmatched_edge_is_inert(
    edges: Seq<EdgeDef>,
    e: int,
    event: EventType,
    reason: Option<Seq<char>>,
    st: TransferState,
)
    requires
        0 <= e < edges.len(),
        !edge_matches(edges[e], event, reason),
    ensures
        transfer_edge(edges, e, event, reason, st) == st,
{
}

/// A matching edge counts the event; below its threshold it enqueues
/// nothing.
pub proof fn law_below_threshold_does_not_fire(
    edges: Seq<EdgeDef>,
    e: int,
    event: EventType,
    reason: Option<Seq<char>>,
    st: TransferState,
)
    requires
        0 <= e < edges.len(),
        e < st.0.len(),
        edge_matches(edges[e], event, reason),
        st.0[e].event_count + 1 < edges[e].threshold,
    ensures
        transfer_edge(edges, e, event, reason, st).0[e].event_count == st.0[e].event_count + 1,
        transfer_edge(edges, e, event, reason, st).1 == st.1,
        transfer_edge(edges, e, event, reason, st).2 == st.2,
        transfer_edge(edges, e, event, reason, st).3 == st.3,
{
}

/// An `Any` edge fires on every matching event once its threshold is
/// reached, not only the first time: there is no "already triggered" gate,
/// so a cycle keeps firing round after round.
pub proof fn law_any_edge_fires_on_every_match(
    edges: Seq<EdgeDef>,
    e: int,
    event: EventType,
    reason: Option<Seq<char>>,
    st: TransferState,
)
    requires
        0 <= e < edges.len(),
        e < st.0.len(),
        edge_matches(edges[e], event, reason),
        edges[e].strategy == Strategy::Any,
        st.0[e].event_count + 1 >= edges[e].threshold,
        st.0[e].event_count < u64::MAX,
    ensures
        transfer_edge(edges, e, event, reason, st).0[e].event_count == st.0[e].event_count + 1,
        transfer_edge(edges, e, event, reason, st).2 == st.2.push(edges[e].to),
        transfer_edge(edges, e, event, reason, st).3 == st.3.push(edges[e].to),
        transfer_edge(edges, e, event, reason, st).1 == st.1,
{
}

/// Fan-in with `All`: a firing `All` edge whose target still waits for
/// other `All` edges only lowers the target's pending count; the last one
/// enqueues the target and restores the count for the next round.
pub proof fn law_all_fan_in_waits_for_every_edge(
    edges: Seq<EdgeDef>,
    e: int,
    event: EventType,
    reason: Option<Seq<char>>,
    st: TransferState,
)
    requires
        0 <= e < edges.len(),
        e < st.0.len(),
        edge_matches(edges[e], event, reason),
        edges[e].strategy == Strategy::All,
        st.0[e].event_count + 1 >= edges[e].threshold,
        st.1.contains_key(edges[e].to),
        st.1[edges[e].to] > 0,
    ensures
        st.1[edges[e].to] > 1 ==> {
            &&& transfer_edge(edges, e, event, reason, st).1 == st.1.insert(edges[e].to, (st.1[edges[e].to] - 1) as usize)
            &&& transfer_edge(edges, e, event, reason, st).2 == st.2
        },
        st.1[edges[e].to] == 1 ==> {
            &&& transfer_edge(edges, e, event, reason, st).1
                == st.1.insert(edges[e].to, count_all_edges_to(edges, edges[e].to) as usize)
            &&& transfer_edge(edges, e, event, reason, st).2 == st.2.push(edges[e].to)
        },
{
    let to = edges[e].to;
    let p1 = st.1.insert(to, (st.1[to] - 1) as usize);
    if st.1[to] == 1 {
        assert(p1.insert(to, count_all_edges_to(edges, to) as usize) =~= st.1.insert(to, count_all_edges_to(edges, to) as usize));
    }
}

/// A retry is only granted below the limit, so a node's retry count never
/// exceeds its retry limit.
pub proof fn law_retry_count_bounded(pre: RuntimeState, post: RuntimeState, g: GraphDef, node: usize, max_retries: u64)
    requires
        pre.retry_counts@.contains_key(node),
        pre.retry_counts@[node] < max_retries,
        retried(pre, post, g, node),
    ensures
        post.retry_counts@[node] <= max_retries,
        post.retry_counts@[node] == pre.retry_counts@[node] + 1,
{
}

/// A retried node is `Pending` again with no result and waits last in the
/// ready queue, so it runs again; the counters of its outgoing edges start
/// from zero.
pub proof fn law_retry_resets_node(pre: RuntimeState, post: RuntimeState, g: GraphDef, node: usize)
    requires
        retried(pre, post, g, node),
        pre.states@.contains_key(node),
    ensures
        post.states@[node] == (NodeState { status: NodeStatus::Pending, result: crate::graph::scheduler::NodeResult::Unset }),
        forall|e: int| 0 <= e < pre.edge_states@.len() && g.spec_transfers().contains_key(node)
            && #[trigger] g.spec_transfers()[node].out_edge_indices@.contains(e as usize)
            ==> post.edge_states@[e] == (EdgeState { event_count: 0 }),
        post.ready_queue@.len() == pre.ready_queue@.len() + 1,
        post.ready_queue@.last() == node,
{
}

/// Skipping the pending nodes (on cancellation or deadlock) leaves no node
/// pending; every other status is kept.
pub proof fn law_skip_leaves_nothing_pending(pre: Map<usize, NodeState>, post: Map<usize, NodeState>)
    requires
        post.dom() == pre.dom(),
        forall|k: usize| #[trigger] pre.contains_key(k) ==> post[k] == (
            if pre[k].status == NodeStatus::Pending {
                NodeState { status: NodeStatus::Skipped, ..pre[k] }
            } else {
                pre[k]
            }),
    ensures
        forall|k: usize| #[trigger] post.contains_key(k) ==> post[k].status != NodeStatus::Pending,
        forall|k: usize| #[trigger] post.contains_key(k) && pre[k].status != NodeStatus::Pending ==> post[k] == pre[k],
{
}

} // verus!
