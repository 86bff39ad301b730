//! Messages, requests and events of a run.

use vstd::prelude::*;

use super::error::RunFailure;
use crate::session::PlanItem;

verus! {

/// The model-facing role of a text message.
#[derive(Clone, Copy, Debug, PartialEq, Eq, Structural)]
pub enum Role {
    /// Text supplied by the user.
    User,
    /// Text returned by the assistant.
    Assistant,
}

/// A committed text-only message in model-facing history.
#[derive(Debug, PartialEq, Eq)]
pub struct Message {
    /// The author.
    pub role: Role,
    /// The text.
    pub text: String,
}

impl Message {
    /// Creates a text message.
    pub fn new(role: Role, text: String) -> (message: Self)
        ensures
            message == (Message { role, text }),
    {
        Message { role, text }
    }

    /// Another message with the same content.
    pub fn duplicate(&self) -> (message: Message)
        ensures
            message == *self,
    {
        Message { role: self.role, text: self.text.clone() }
    }
}

/// An opaque identifier of one run.
#[derive(Clone, Copy, Debug, PartialEq, Eq, Structural, Hash)]
pub struct RunId {
    value: u64,
}

impl RunId {
    /// The number of this identifier.
    pub closed spec fn number(self) -> u64 {
        self.value
    }

    pub(crate) fn new(value: u64) -> (id: Self)
        ensures
            id.number() == value,
    {
        RunId { value }
    }

    /// Returns the number of this identifier; later runs have larger ones.
    pub fn get(self) -> (number: u64)
        ensures
            number == self.number(),
    {
        self.value
    }
}

/// Context supplied for a run independently of committed history.
#[derive(Debug, PartialEq, Eq)]
pub struct RunContext {
    /// The working directory used by relative tool paths.
    pub cwd: Vec<u8>,
    /// The accepted execution plan.
    pub plan: Vec<PlanItem>,
}

/// A model-neutral request.
#[derive(Debug, PartialEq, Eq)]
pub struct RunRequest {
    /// The new user prompt.
    pub prompt: String,
    /// The successful exchanges committed before this run.
    pub history: Vec<Message>,
    /// Per-run execution context.
    pub context: RunContext,
}

/// An event yielded by a model-neutral run engine. Tool arguments are JSON text.
#[derive(Debug, PartialEq, Eq)]
pub enum EngineEvent {
    /// Assistant text that is not committed yet.
    AssistantDelta(String),
    /// Input-token usage of a completed model call.
    ContextUsage { input_tokens: u64 },
    /// A tool invocation has begun.
    ToolStarted { call_id: String, name: String, arguments: String },
    /// A tool invocation has finished.
    ToolFinished { call_id: String, name: String },
    /// The final assistant response.
    Completed(String),
}

/// An observable lifecycle event of a run. Tool arguments are JSON text.
#[derive(Debug, PartialEq, Eq)]
pub enum RunEvent {
    /// A run was accepted.
    Started { run_id: RunId },
    /// Assistant text of the active run.
    AssistantDelta { run_id: RunId, text: String },
    /// Input-token usage of a completed model call.
    ContextUsage { run_id: RunId, input_tokens: u64 },
    /// A tool invocation began.
    ToolStarted { run_id: RunId, call_id: String, name: String, arguments: String },
    /// A tool invocation finished.
    ToolFinished { run_id: RunId, call_id: String, name: String },
    /// A successful run committed its response to history.
    Completed { run_id: RunId, response: String },
    /// A run ended without changing committed history.
    Failed { run_id: RunId, failure: RunFailure },
    /// A run was cancelled without changing committed history.
    Cancelled { run_id: RunId },
}

} // verus!
