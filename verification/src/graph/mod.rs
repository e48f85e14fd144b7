//! Graph definition, construction, validation, scheduling and data routing.

pub mod builder;
pub mod cycles;
pub mod data_router;
pub mod edge;
pub mod graph_def;
pub mod laws;
pub mod petgraph_support;
pub mod reach;
pub mod scheduler;
pub mod validator;
