//! Workflow definition types, as read from a workflow JSON document.

pub mod error;
pub mod predecessor;
pub mod provider;
pub mod workflow;
