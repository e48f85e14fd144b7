//! Edge definition types.  Each scheduling edge is the pair of a branch
//! matching function h_e (event type, exit-reason filter, threshold) and a
//! strategy aggregation function g_e (any / all).

use vstd::prelude::*;

use crate::model::predecessor::EventType;

verus! {

/// g_e strategy: how readiness signals of several sources are aggregated.
#[derive(Debug, Clone, Copy, PartialEq, Eq, Hash, Structural)]
pub enum Strategy {
    /// All source nodes must signal readiness before the target fires.
    All,
    /// Any single source signal is sufficient.
    Any,
}

/// h_e parameters and g_e strategy of an edge (read-only at run time).
/// Node indices are positions in the graph's node list.
#[derive(Debug, Clone, PartialEq, Eq)]
pub struct EdgeDef {
    /// Source node index.
    pub from: usize,
    /// Target node index.
    pub to: usize,
    /// h_e: event type the edge responds to.
    pub event_type: EventType,
    /// h_e: optional exact-match filter on the exit reason.
    pub exit_reason: Option<String>,
    /// h_e: number of matching events needed before the edge fires.
    pub threshold: u64,
    /// g_e: aggregation strategy.
    pub strategy: Strategy,
}

/// Run-time state of an edge: h_e's threshold counter only.
#[derive(Debug, Clone, Copy, PartialEq, Eq)]
pub struct EdgeState {
    /// Number of matching events received so far.
    pub event_count: u64,
}

impl EdgeState {
    /// A fresh edge state with no events counted.
    pub fn new() -> (s: Self)
        ensures
            s.event_count == 0,
    {
        EdgeState { event_count: 0 }
    }
}

impl Default for EdgeState {
    fn default() -> (s: Self)
        ensures
            s.event_count == 0,
    {
        EdgeState { event_count: 0 }
    }
}

} // verus!
