//! The backend: what counts as activity, when it stops by itself, and how it shuts down.

pub mod activity;
pub mod server;
