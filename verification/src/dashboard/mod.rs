//! Records and live messages of the web dashboard.

pub mod messages;
pub mod models;
pub mod static_files;
pub mod topology;
