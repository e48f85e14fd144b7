//! Observability of a run: lifecycle event payloads, trace IDs and
//! summaries of streamed output.

pub mod event;
pub mod trace;
pub mod summary;
