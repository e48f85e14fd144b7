//! Persisted workflow and run records.

use vstd::prelude::*;

verus! {

/// A stored workflow definition.
#[derive(Debug, Clone, PartialEq, Eq)]
pub struct WorkflowRow {
    /// Workflow ID.
    pub id: String,
    /// Display name.
    pub name: String,
    /// The full workflow definition, as JSON text.
    pub definition: String,
    /// Creation time stamp.
    pub created_at: String,
    /// Last update time stamp.
    pub updated_at: String,
}

/// A stored workflow run.
#[derive(Debug, Clone, PartialEq, Eq)]
pub struct RunRow {
    /// Run ID.
    pub id: String,
    /// The workflow that ran.
    pub workflow_id: String,
    /// Run status.
    pub status: String,
    /// Start time stamp.
    pub started_at: Option<String>,
    /// End time stamp.
    pub finished_at: Option<String>,
}

} // verus!
