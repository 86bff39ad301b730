//! Structured run failures.

use vstd::prelude::*;

verus! {

/// The lifecycle stage where a run failure occurred.
#[derive(Clone, Copy, Debug, PartialEq, Eq, Structural)]
pub enum RunStage {
    /// The engine could not be started.
    Startup,
    /// The engine could not complete a model request.
    ModelRequest,
    /// A tool could not execute.
    ToolExecution,
    /// The engine could not produce a valid final response.
    Finalization,
}

/// The category of a run failure.
#[derive(Clone, Copy, Debug, PartialEq, Eq, Structural)]
pub enum RunFailureKind {
    /// Authentication failed.
    Authentication,
    /// The connection failed.
    Transport,
    /// The provider answered with an HTTP error status.
    HttpRejected { status: u16 },
    /// The provider broke its protocol.
    Protocol,
    /// The response held no text.
    EmptyResponse,
    /// A configured budget ran out.
    BudgetExhausted,
    /// The runtime itself failed.
    RuntimeInfrastructure,
    /// The tool infrastructure failed.
    ToolInfrastructure,
}

/// Structured information about an unsuccessful run.
#[derive(Debug, PartialEq, Eq)]
pub struct RunFailure {
    pub stage: RunStage,
    pub kind: RunFailureKind,
    pub retryable: bool,
    pub message: String,
    /// The description of the underlying error.
    pub source: Option<String>,
}

impl RunFailure {
    /// Creates a failure without an underlying error.
    pub fn new(stage: RunStage, kind: RunFailureKind, retryable: bool, message: String) -> (failure:
        Self)
        ensures
            failure == (RunFailure { stage, kind, retryable, message, source: None }),
    {
        RunFailure { stage, kind, retryable, message, source: None }
    }

    /// Attaches the description of an underlying error.
    pub fn with_source(self, source: String) -> (failure: Self)
        ensures
            failure == (RunFailure { source: Some(source), ..self }),
    {
        RunFailure {
            stage: self.stage,
            kind: self.kind,
            retryable: self.retryable,
            message: self.message,
            source: Some(source),
        }
    }

    /// The lifecycle stage where the failure occurred.
    pub fn stage(&self) -> (stage: RunStage)
        ensures
            stage == self.stage,
    {
        self.stage
    }

    /// The classification of the failure.
    pub fn kind(&self) -> (kind: &RunFailureKind)
        ensures
            *kind == self.kind,
    {
        &self.kind
    }

    /// Whether retrying the run may succeed.
    pub fn retryable(&self) -> (retryable: bool)
        ensures
            retryable == self.retryable,
    {
        self.retryable
    }

    /// The description of the failure.
    pub fn message(&self) -> (message: &str)
        ensures
            message@ == self.message@,
    {
        self.message.as_str()
    }
}

/// Why a harness command was refused.
#[derive(Clone, Copy, Debug, PartialEq, Eq, Structural)]
pub enum HarnessError {
    /// A run is already active.
    Busy,
    /// There is no active run to cancel.
    NotRunning,
    /// The run identifiers are used up.
    RunIdExhausted,
}

impl HarnessError {
    /// The description of the error.
    pub fn message(self) -> (message: &'static str)
        ensures
            message@ == match self {
                HarnessError::Busy => "a run is already active"@,
                HarnessError::NotRunning => "there is no active run"@,
                HarnessError::RunIdExhausted => "run identifier space is exhausted"@,
            },
    {
        match self {
            HarnessError::Busy => "a run is already active",
            HarnessError::NotRunning => "there is no active run",
            HarnessError::RunIdExhausted => "run identifier space is exhausted",
        }
    }
}

} // verus!
