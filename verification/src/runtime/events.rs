//! Events the engine reports while it runs, and its run-time error.

use vstd::prelude::*;

use crate::diagnostics::event::NodeLifecycleEvent;
use crate::nodeshell::types::SpawnError;
use crate::text::push_str_chars;

verus! {

/// A node event reported to the caller of a run.
#[derive(Debug, Clone, PartialEq, Eq)]
pub enum NodeEvent {
    /// A node started.
    NodeRunning {
        /// The node's ID.
        node_id: String,
        /// The command being executed.
        command: String,
    },
    /// A node produced a line of output.
    NodeChunk {
        /// The node's ID.
        node_id: String,
        /// The output text line.
        text: String,
    },
    /// A node completed successfully.
    NodeCompleted {
        /// The node's ID.
        node_id: String,
    },
    /// A node failed.
    NodeFailed {
        /// The node's ID.
        node_id: String,
    },
    /// A node timed out.
    NodeTimedOut {
        /// The node's ID.
        node_id: String,
    },
    /// Any other lifecycle event.
    Lifecycle(NodeLifecycleEvent),
}

/// Errors of a workflow run.
#[derive(Debug, Clone, PartialEq, Eq)]
pub enum RuntimeError {
    /// A node could not be spawned.
    SpawnError(String),
}

impl RuntimeError {
    /// The error's display text, `"spawn error: <message>"`.
    pub fn display_text(&self) -> (s: String)
        ensures
            match self {
                RuntimeError::SpawnError(m) => s@ == "spawn error: "@ + m@,
            },
    {
        match self {
            RuntimeError::SpawnError(m) => {
                let mut s = String::new();
                push_str_chars(&mut s, "spawn error: ");
                push_str_chars(&mut s, m.as_str());
                assert(Seq::<char>::empty() + "spawn error: "@ == "spawn error: "@);
                s
            },
        }
    }
}

impl From<SpawnError> for RuntimeError {
    fn from(err: SpawnError) -> (r: Self) {
        RuntimeError::SpawnError(err.message)
    }
}

impl vstd::std_specs::convert::FromSpecImpl<SpawnError> for RuntimeError {
    open spec fn obeys_from_spec() -> bool {
        true
    }

    open spec fn from_spec(err: SpawnError) -> Self {
        RuntimeError::SpawnError(err.message)
    }
}

} // verus!
