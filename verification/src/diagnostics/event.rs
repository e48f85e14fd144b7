//! Structured diagnostics events of a run.  Every node lifecycle transition
//! and every engine-level milestone has a payload here; emitting them is up
//! to the logging layer.

use std::time::Duration;

use vstd::prelude::*;

verus! {

/// A node's lifecycle transition.
#[derive(Debug, Clone, PartialEq, Eq)]
pub enum NodeLifecycleEvent {
    /// The node is enqueued and about to run.
    Pending {
        /// Node identifier.
        node_id: String,
    },
    /// The node started.
    Running {
        /// Node identifier.
        node_id: String,
        /// Command or provider description.
        command: String,
    },
    /// The node completed successfully.
    Completed {
        /// Node identifier.
        node_id: String,
        /// Size of its output in bytes.
        output_size: usize,
    },
    /// The node failed (non-zero exit code or spawn error).
    Failed {
        /// Node identifier.
        node_id: String,
        /// Human-readable exit reason.
        exit_reason: String,
        /// Retry count at the failure.
        retry_count: u64,
    },
    /// The node was killed by the engine timeout.
    TimedOut {
        /// Node identifier.
        node_id: String,
        /// The timeout that was exceeded.
        timeout_secs: u64,
    },
}

/// Engine lifecycle events.
#[derive(Debug)]
pub enum EngineLifecycleEvent {
    /// The run started.
    Started {
        /// Total node count.
        node_count: usize,
        /// Maximum concurrency.
        max_concurrency: usize,
        /// Default node timeout.
        default_timeout_secs: u64,
    },
    /// The run converged.
    Converged {
        /// Wall-clock duration.
        duration: Duration,
    },
    /// The run was aborted by a timeout.
    TimedOut {
        /// Wall-clock duration before the abort.
        duration: Duration,
    },
}

/// System-level facts the engine observes but does not control.
#[derive(Debug)]
pub enum SystemEvent {
    /// Spawning a subprocess took longer than expected.
    SpawnSlow {
        /// Node identifier.
        node_id: String,
        /// Time spent spawning.
        elapsed: Duration,
    },
    /// Writing to a subprocess's stdin took longer than expected.
    StdinWriteSlow {
        /// Node identifier.
        node_id: String,
        /// Bytes written.
        bytes: usize,
        /// Time spent writing.
        elapsed: Duration,
    },
}

} // verus!
