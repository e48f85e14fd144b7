//! The top-level workflow definition.

use vstd::prelude::*;

use crate::model::predecessor::{DataFlowDef, SchedulingEdgeDef};
use crate::model::provider::ProviderDef;

verus! {

/// Route policy of a node: once its threshold is met, the engine replaces
/// the node's route by `then_route`, which lets a cycle terminate without
/// the node knowing about the loop.
#[derive(Debug, Clone, PartialEq, Eq)]
pub enum RoutePolicyDef {
    /// Override the route once the node has run `max` times.
    MaxRuns {
        /// Run-count threshold (`run_count >= max` activates the policy).
        max: u64,
        /// Route used when the policy is active.
        then_route: String,
    },
    /// Override the route once the node's cumulative run time reaches
    /// `max_secs` seconds.
    MaxDuration {
        /// Cumulative execution time threshold in seconds.
        max_secs: u64,
        /// Route used when the policy is active.
        then_route: String,
    },
}

impl RoutePolicyDef {
    /// A copy of this policy.
    pub fn copy(&self) -> (r: Self)
        ensures
            r == *self,
    {
        match self {
            RoutePolicyDef::MaxRuns { max, then_route } => RoutePolicyDef::MaxRuns { max: *max, then_route: then_route.clone() },
            RoutePolicyDef::MaxDuration { max_secs, then_route } => RoutePolicyDef::MaxDuration {
                max_secs: *max_secs,
                then_route: then_route.clone(),
            },
        }
    }
}

/// The top-level workflow definition.
#[derive(Debug, Clone, PartialEq, Eq)]
pub struct WorkflowDef {
    /// All nodes in this workflow.
    pub nodes: Vec<NodeDef>,
    /// Scheduling topology edges.
    pub edges: Vec<SchedulingEdgeDef>,
    /// Data flow topology edges.
    pub dataflows: Vec<DataFlowDef>,
    /// Workflow-level scripts directory (overridden per node).
    pub scripts_dir: Option<String>,
}

/// Definition of a single node in the workflow.
#[derive(Debug, Clone, PartialEq, Eq)]
pub struct NodeDef {
    /// Unique identifier of the node within the workflow.
    pub id: String,
    /// How the node is executed (the first provider is used).
    pub providers: Vec<ProviderDef>,
    /// Maximum run time in seconds before the process is killed.
    pub process_timeout_secs: u64,
    /// Declared return values for branch routing.
    pub returns: Vec<String>,
    /// Per-node retry limit (None inherits the engine default).
    pub max_retries: Option<u64>,
    /// Optional route policy.
    pub route_policy: Option<RoutePolicyDef>,
    /// Node-level scripts directory.
    pub scripts_dir: Option<String>,
}

/// Engine runtime configuration.
#[derive(Debug, Clone, PartialEq, Eq)]
pub struct EngineConfig {
    /// Maximum number of concurrently running nodes (None: one per CPU).
    pub max_concurrency: Option<usize>,
    /// Timeout for nodes whose parameters do not give one.
    pub default_node_timeout_secs: u64,
    /// Retry limit for timed-out or spawn-failed nodes.
    pub max_timeout_retries: u64,
}

impl EngineConfig {
    /// Build a configuration from its three settings.
    pub fn new(
        max_concurrency: Option<usize>,
        default_node_timeout_secs: u64,
        max_timeout_retries: u64,
    ) -> (c: Self)
        ensures
            c.max_concurrency == max_concurrency,
            c.default_node_timeout_secs == default_node_timeout_secs,
            c.max_timeout_retries == max_timeout_retries,
    {
        EngineConfig { max_concurrency, default_node_timeout_secs, max_timeout_retries }
    }
}

} // verus!
