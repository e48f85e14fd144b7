//! Scheduling and data-flow edge definitions between workflow nodes.

use vstd::prelude::*;

verus! {

/// The kind of event a node emits when one of its runs ends.
#[derive(Debug, Clone, Copy, PartialEq, Eq, Hash, Structural)]
pub enum EventType {
    /// The node exited with code 0.
    Complete,
    /// The node exited with a non-zero code or could not be spawned.
    Failed,
    /// The node was killed by the engine timeout.
    Timeout,
}

/// How a scheduling edge aggregates readiness of its target's upstreams.
#[derive(Debug, Clone, Copy, PartialEq, Eq, Hash, Structural)]
pub enum TriggerExpr {
    /// The target waits for every `all` edge pointing to it.
    All,
    /// The target is triggered by this edge alone.
    Any,
}

/// A scheduling edge: `from` emitting `event` (optionally with a matching
/// `exit_reason`) `threshold` times triggers `to`.
#[derive(Debug, Clone, PartialEq, Eq)]
pub struct SchedulingEdgeDef {
    /// Source node ID.
    pub from: String,
    /// Target node ID.
    pub to: String,
    /// Aggregation strategy at the target.
    pub trigger: TriggerExpr,
    /// Event type the edge responds to.
    pub event: EventType,
    /// Optional exact-match filter on the source's exit reason (route).
    pub exit_reason: Option<String>,
    /// Number of matching events needed before the edge fires.
    pub threshold: u64,
}

/// A data-flow edge: the output of `from` is visible to `to` under `alias`
/// (or under `from` when no alias is given).
#[derive(Debug, Clone, PartialEq, Eq)]
pub struct DataFlowDef {
    /// Source node ID.
    pub from: String,
    /// Target node ID.
    pub to: String,
    /// Optional name under which the target sees the data.
    pub alias: Option<String>,
}

} // verus!
