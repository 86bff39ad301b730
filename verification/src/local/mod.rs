//! The local installation: configuration, paths, and finding or starting the backend.

pub mod config;
pub mod launch;
pub mod paths;
