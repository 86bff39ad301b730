//! The values of the session protocol as they stand in a message.
//!
//! A message comes from another process: a pointer in it may be unreadable, a text may hold any
//! bytes, and an enum or union may hold a value that a newer peer knows.

use vstd::prelude::*;

verus! {

/// The protocol's major version.
pub const PROTOCOL_MAJOR: u16 = 2;

/// The protocol's minor version.
pub const PROTOCOL_MINOR: u16 = 0;

/// Why a part of a message could not be read.
#[derive(Debug)]
pub struct WireFault {
    pub message: String,
}

impl WireFault {
    /// Another fault with the same message.
    pub fn duplicate(&self) -> (fault: WireFault)
        ensures
            fault == *self,
    {
        WireFault { message: self.message.clone() }
    }
}

/// A pointer in a message.
#[derive(Debug)]
pub enum Pointer<T> {
    Value(T),
    Unreadable(WireFault),
}

/// An enum value in a message.
#[derive(Debug)]
pub enum Schema<T> {
    Known(T),
    /// A value that this schema does not define.
    Unknown(u16),
}

/// A text, as bytes that need not be UTF-8.
pub type Text = Pointer<Vec<u8>>;

/// Raw bytes.
pub type Data = Pointer<Vec<u8>>;

/// A session capability: its index in the message's capability table.
#[derive(Clone, Copy, Debug, PartialEq, Eq, Structural)]
pub struct SessionCapability {
    pub index: u32,
}

/// A category of command failures.
#[derive(Clone, Copy, Debug, PartialEq, Eq, Structural)]
pub enum ErrorCode {
    Busy,
    NotRunning,
    SessionNotFound,
    AmbiguousTitle,
    SessionNameConflict,
    InvalidArgument,
    ModelNotFound,
    UnsupportedReasoning,
    JobNotFound,
    BackendStarting,
    BackendUnavailable,
    Persistence,
    SessionDeleting,
    SessionDeleted,
    Internal,
}

#[derive(Clone, Copy, Debug, PartialEq, Eq, Structural)]
pub enum ReasoningLevel {
    NoReasoning,
    Minimal,
    Low,
    Medium,
    High,
    Xhigh,
    Max,
}

#[derive(Clone, Copy, Debug, PartialEq, Eq, Structural)]
pub enum SessionListScope {
    Project,
    All,
}

#[derive(Clone, Copy, Debug, PartialEq, Eq, Structural)]
pub enum RunStage {
    Startup,
    ModelRequest,
    ToolExecution,
    Finalization,
}

#[derive(Clone, Copy, Debug, PartialEq, Eq, Structural)]
pub enum RunFailureKind {
    Authentication,
    Transport,
    HttpRejected,
    Protocol,
    EmptyResponse,
    BudgetExhausted,
    RuntimeInfrastructure,
    ToolInfrastructure,
}

#[derive(Clone, Copy, Debug, PartialEq, Eq, Structural)]
pub enum JobKind {
    Bash,
}

#[derive(Clone, Copy, Debug, PartialEq, Eq, Structural)]
pub enum JobState {
    Running,
    Completed,
    Failed,
    Cancelled,
}

#[derive(Clone, Copy, Debug, PartialEq, Eq, Structural)]
pub enum PlanStatus {
    Pending,
    InProgress,
    Completed,
    Blocked,
    Cancelled,
}

#[derive(Debug)]
pub struct ProtocolInfo {
    pub major: u16,
    pub minor: u16,
    pub instance_id: Text,
    pub startup_warnings: Pointer<Vec<Text>>,
    pub features: Pointer<Vec<Text>>,
}

#[derive(Debug)]
pub enum SessionSelector {
    Id(Text),
    Title(Text),
    Unknown(u16),
}

#[derive(Debug)]
pub struct CommandError {
    pub code: Schema<ErrorCode>,
    pub message: Text,
    pub ids: Pointer<Vec<Text>>,
}

#[derive(Debug)]
pub struct SessionSettings {
    pub model: Text,
    pub reasoning: Schema<ReasoningLevel>,
    pub context_tokens: u64,
}

#[derive(Debug)]
pub struct ModelInfo {
    pub id: Text,
    pub display_name: Text,
    pub description: Text,
    pub reasoning_efforts: Pointer<Vec<Schema<ReasoningLevel>>>,
    pub has_default_reasoning: bool,
    pub default_reasoning: Schema<ReasoningLevel>,
}

/// The words of one [`ModelInfo`] in a list: one of data, four pointers.
pub const MODEL_INFO_WORDS: usize = 5;

#[derive(Debug)]
pub enum ModelCatalog {
    Loading,
    Ready(Pointer<Vec<ModelInfo>>),
    Failed(Text),
    Unknown(u16),
}

#[derive(Debug)]
pub struct DraftDefaults {
    pub cwd: Data,
    pub settings: Pointer<SessionSettings>,
    pub catalog: Pointer<ModelCatalog>,
}

#[derive(Debug)]
pub struct SessionSummary {
    pub id: Text,
    pub title: Text,
    pub cwd: Data,
    pub cwd_display: Text,
    pub title_revision: u64,
    pub busy: bool,
    pub attached_clients: u32,
    pub last_activity: Text,
    pub running: bool,
    pub running_jobs: u32,
}

/// The words of one [`SessionSummary`] in a list: three of data, five pointers.
pub const SESSION_SUMMARY_WORDS: usize = 8;

#[derive(Debug)]
pub struct RunFailure {
    pub stage: Schema<RunStage>,
    pub kind: Schema<RunFailureKind>,
    pub has_http_status: bool,
    pub http_status: u16,
    pub retryable: bool,
    pub message: Text,
}

#[derive(Debug)]
pub struct PlanItem {
    pub step: Text,
    pub status: Schema<PlanStatus>,
}

/// The words of one [`PlanItem`] in a list: one of data, one pointer.
pub const PLAN_ITEM_WORDS: usize = 2;

#[derive(Debug)]
pub struct JobSnapshot {
    pub id: Text,
    pub kind: Schema<JobKind>,
    pub state: Schema<JobState>,
    pub title: Text,
    pub started_at: Text,
    /// Empty for a job that has not ended.
    pub completed_at: Text,
    pub details: Text,
}

/// The words of one [`JobSnapshot`] in a list: one of data, five pointers.
pub const JOB_SNAPSHOT_WORDS: usize = 6;

#[derive(Debug)]
pub struct ToolStartedRecord {
    pub run_id: u64,
    pub call_id: Text,
    pub name: Text,
    pub arguments_json: Text,
}

#[derive(Debug)]
pub struct FailedRecord {
    pub run_id: u64,
    pub failure: Pointer<RunFailure>,
}

#[derive(Debug)]
pub enum TranscriptItem {
    User(Text),
    Assistant(Text),
    ToolStarted(Pointer<ToolStartedRecord>),
    Failed(Pointer<FailedRecord>),
    CancelledRunId(u64),
    Unknown(u16),
}

/// The words of one [`TranscriptItem`] in a list: two of data, one pointer.
pub const TRANSCRIPT_ITEM_WORDS: usize = 3;

#[derive(Debug)]
pub struct ActiveRun {
    pub run_id: u64,
    pub prompt: Text,
    pub assistant_text: Text,
}

#[derive(Debug)]
pub struct SessionSnapshot {
    pub summary: Pointer<SessionSummary>,
    pub transcript: Pointer<Vec<TranscriptItem>>,
    /// Absent where no run is active.
    pub active_run: Option<Pointer<ActiveRun>>,
    pub settings: Pointer<SessionSettings>,
    pub catalog: Pointer<ModelCatalog>,
    pub plan: Pointer<Vec<PlanItem>>,
    pub jobs: Pointer<Vec<JobSnapshot>>,
    /// Empty where there is no warning.
    pub persistence_warning: Text,
    pub sequence: u64,
    pub busy: bool,
}

#[derive(Debug)]
pub struct TitleChanged {
    pub title: Text,
    pub title_revision: u64,
}

#[derive(Debug)]
pub struct Started {
    pub run_id: u64,
    pub prompt: Text,
}

#[derive(Debug)]
pub struct AssistantDelta {
    pub run_id: u64,
    pub text: Text,
}

#[derive(Debug)]
pub struct ContextUsage {
    pub run_id: u64,
    pub input_tokens: u64,
    pub last_activity: Text,
}

#[derive(Debug)]
pub struct ToolFinished {
    pub run_id: u64,
    pub call_id: Text,
    pub name: Text,
}

#[derive(Debug)]
pub struct Completed {
    pub run_id: u64,
    pub response: Text,
    pub last_activity: Text,
}

#[derive(Debug)]
pub struct SettingsChanged {
    pub settings: Pointer<SessionSettings>,
    pub last_activity: Text,
}

#[derive(Debug)]
pub struct Deleted {
    pub session_id: Text,
}

/// What happened to a session.
#[derive(Debug)]
pub enum Event {
    TitleChanged(Pointer<TitleChanged>),
    Started(Pointer<Started>),
    AssistantDelta(Pointer<AssistantDelta>),
    ContextUsage(Pointer<ContextUsage>),
    ToolStarted(Pointer<ToolStartedRecord>),
    ToolFinished(Pointer<ToolFinished>),
    Completed(Pointer<Completed>),
    Failed(Pointer<FailedRecord>),
    CancelledRunId(u64),
    SettingsChanged(Pointer<SettingsChanged>),
    PlanChanged(Pointer<Vec<PlanItem>>),
    JobsChanged(Pointer<Vec<JobSnapshot>>),
    CatalogChanged(Pointer<ModelCatalog>),
    /// Empty where there is no warning.
    PersistenceWarning(Text),
    Deleted(Pointer<Deleted>),
    Unknown(u16),
}

#[derive(Debug)]
pub struct EventEnvelope {
    pub sequence: u64,
    pub event: Event,
}

#[derive(Debug)]
pub struct OpenSuccess {
    pub session: Pointer<SessionCapability>,
    pub snapshot: Pointer<SessionSnapshot>,
}

#[derive(Debug)]
pub struct MaterializeSuccess {
    pub session: Pointer<SessionCapability>,
    pub snapshot: Pointer<SessionSnapshot>,
    pub run_id: u64,
}

/// A result union with one kind of success.
#[derive(Debug)]
pub enum ResultUnion<T> {
    Success(Pointer<T>),
    Error(Pointer<CommandError>),
    Unknown(u16),
}

#[derive(Debug)]
pub enum StartupResult {
    Draft(Pointer<DraftDefaults>),
    Attached(Pointer<OpenSuccess>),
    Error(Pointer<CommandError>),
    Unknown(u16),
}

#[derive(Debug)]
pub enum SubmitResult {
    RunId(u64),
    Error(Pointer<CommandError>),
    Unknown(u16),
}

/// The union of [`CommandResult`].
#[derive(Debug)]
pub enum CommandUnion {
    Success,
    Error(Pointer<CommandError>),
    Unknown(u16),
}

#[derive(Debug)]
pub struct CommandResult {
    pub union: CommandUnion,
    pub attached_clients: u32,
}

/// The arguments of `backend.draftDefaults`.
#[derive(Debug)]
pub struct DraftDefaultsParams {
    pub cwd: Data,
}

/// The arguments of `backend.startup`.
#[derive(Debug)]
pub struct StartupParams {
    pub cwd: Data,
    pub attachment_id: u64,
}

/// The arguments of `backend.materialize`.
#[derive(Debug)]
pub struct MaterializeParams {
    pub cwd: Data,
    pub prompt: Text,
    pub settings: Pointer<SessionSettings>,
    pub attachment_id: u64,
}

/// The arguments of `backend.openSession`.
#[derive(Debug)]
pub struct OpenSessionParams {
    pub selector: Pointer<SessionSelector>,
    pub cwd_for_title: Data,
    pub attachment_id: u64,
}

/// The arguments of `backend.renameSession`.
#[derive(Debug)]
pub struct RenameSessionParams {
    pub id: Text,
    pub title: Text,
}

/// The arguments of `backend.deleteSession`.
#[derive(Debug)]
pub struct DeleteSessionParams {
    pub id: Text,
}

/// The arguments of `session.submit`.
#[derive(Debug)]
pub struct SubmitParams {
    pub prompt: Text,
}

/// The arguments of `session.selectModel`.
#[derive(Debug)]
pub struct SelectModelParams {
    pub model_id: Text,
}

/// The arguments of `session.cancelJob`.
#[derive(Debug)]
pub struct CancelJobParams {
    pub job_id: Text,
}

} // verus!
