//! The run harness: at most one model run at a time over committed history.

pub mod error;
pub mod state;
pub mod types;
