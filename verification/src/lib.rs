//! Nexus workflow engine core: workflow model, graph construction and
//! validation, event scheduling, data routing, template rendering and the
//! decision logic of the runtime event loop.

pub mod cli;
pub mod dashboard;
pub mod diagnostics;
pub mod graph;
pub mod json;
pub mod model;
pub mod nodeshell;
pub mod runtime;
pub mod text;

use vstd::prelude::*;

verus! {

} // verus!
