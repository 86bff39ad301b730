//! Model providers.

pub mod codex;
