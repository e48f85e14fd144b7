//! The decision logic of a workflow run and the events it reports.

pub mod engine_core;
pub mod events;
