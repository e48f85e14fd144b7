//! Messages the dashboard server pushes to its WebSocket clients.

use vstd::prelude::*;

verus! {

/// A node's status change.
#[derive(Debug, Clone, PartialEq, Eq)]
pub struct NodeStatusPayload {
    /// The node's ID.
    pub node_id: String,
    /// `Pending`, `Running`, `Completed`, `Failed` or `TimedOut`.
    pub status: String,
    /// Unix time stamp in seconds.
    pub ts: u64,
}

/// A line of node output.
#[derive(Debug, Clone, PartialEq, Eq)]
pub struct NodeChunkPayload {
    /// The node's ID.
    pub node_id: String,
    /// The output line.
    pub text: String,
    /// Unix time stamp in seconds.
    pub ts: u64,
}

/// A point-in-time view of a run.
#[derive(Debug, Clone, PartialEq, Eq)]
pub struct SnapshotPayload {
    /// Nodes running now.
    pub running_count: usize,
    /// Seconds since the run started.
    pub elapsed_secs: u64,
    /// Node ID to status.
    pub nodes: Vec<(String, String)>,
}

/// The end of a run.
#[derive(Debug, Clone, PartialEq, Eq)]
pub struct WorkflowDonePayload {
    /// `completed`, `failed` or `timeout`.
    pub status: String,
    /// Run duration in seconds.
    pub duration_secs: u64,
}

/// An error report.
#[derive(Debug, Clone, PartialEq, Eq)]
pub struct ErrorMessagePayload {
    /// The message.
    pub message: String,
}

/// Every message variant the server sends.
#[derive(Debug, Clone, PartialEq, Eq)]
pub enum ServerMessage {
    /// A node's status change.
    NodeStatus(NodeStatusPayload),
    /// A line of node output.
    NodeChunk(NodeChunkPayload),
    /// A snapshot of the run.
    Snapshot(SnapshotPayload),
    /// The end of the run.
    WorkflowDone(WorkflowDonePayload),
    /// An error report.
    Error(ErrorMessagePayload),
}

/// The current Unix time in seconds (`SystemTime::now()` since
/// `UNIX_EPOCH`, 0 when the clock is before it).  Nothing is claimed of
/// the value.
#[verifier::external_body]
fn now_ts() -> u64 {
    std::time::SystemTime::now().duration_since(std::time::UNIX_EPOCH).unwrap_or_default().as_secs()
}

impl ServerMessage {
    /// A status change of a node at time `ts` (Unix seconds).
    pub fn node_status_at(node_id: &str, status: &str, ts: u64) -> (r: Self)
        ensures
            r matches ServerMessage::NodeStatus(p) && p.node_id@ == node_id@ && p.status@ == status@ && p.ts == ts,
    {
        ServerMessage::NodeStatus(NodeStatusPayload { node_id: String::from_str(node_id), status: String::from_str(status), ts })
    }

    /// A status change of a node, stamped with the current time.
    pub fn node_status(node_id: &str, status: &str) -> (r: Self)
        ensures
            r matches ServerMessage::NodeStatus(p) && p.node_id@ == node_id@ && p.status@ == status@,
    {
        Self::node_status_at(node_id, status, now_ts())
    }

    /// A line of a node's output at time `ts` (Unix seconds).
    pub fn node_chunk_at(node_id: &str, text: &str, ts: u64) -> (r: Self)
        ensures
            r matches ServerMessage::NodeChunk(p) && p.node_id@ == node_id@ && p.text@ == text@ && p.ts == ts,
    {
        ServerMessage::NodeChunk(NodeChunkPayload { node_id: String::from_str(node_id), text: String::from_str(text), ts })
    }

    /// A line of a node's output, stamped with the current time.
    pub fn node_chunk(node_id: &str, text: &str) -> (r: Self)
        ensures
            r matches ServerMessage::NodeChunk(p) && p.node_id@ == node_id@ && p.text@ == text@,
    {
        Self::node_chunk_at(node_id, text, now_ts())
    }

    /// A snapshot of a run.
    pub fn snapshot(running_count: usize, elapsed_secs: u64, nodes: Vec<(String, String)>) -> (r: Self)
        ensures
            r == ServerMessage::Snapshot(SnapshotPayload { running_count, elapsed_secs, nodes }),
    {
        ServerMessage::Snapshot(SnapshotPayload { running_count, elapsed_secs, nodes })
    }

    /// The end of a run.
    pub fn workflow_done(status: &str, duration_secs: u64) -> (r: Self)
        ensures
            r matches ServerMessage::WorkflowDone(p) && p.status@ == status@ && p.duration_secs == duration_secs,
    {
        ServerMessage::WorkflowDone(WorkflowDonePayload { status: String::from_str(status), duration_secs })
    }

    /// An error report.
    pub fn error(message: &str) -> (r: Self)
        ensures
            r matches ServerMessage::Error(p) && p.message@ == message@,
    {
        ServerMessage::Error(ErrorMessagePayload { message: String::from_str(message) })
    }
}

} // verus!
