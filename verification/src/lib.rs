//! Local-first coding-agent logic: sessions, wire conversion, terminal client and backend rules.

pub mod backend;
pub mod cli;
pub mod client;
pub mod harness;
pub mod instant;
pub mod json;
pub mod local;
pub mod providers;
pub mod rpc;
pub mod session;
pub mod snapshot;
pub mod text;
