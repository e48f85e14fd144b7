//! Node executors: the provider-specific logic that prepares a node's
//! context and interprets what the node produced.

pub mod executor;
pub mod exit_codes;
pub mod http;
pub mod llm;
pub mod llm_sdk;
pub mod subprocess;
pub mod template;
pub mod types;
