//! Checked conversions between wire values and session values.

use vstd::prelude::*;
use vstd::utf8::encode_utf8;

use super::fields::{
    checked_data, checked_text, data_of, data_unfit, data_written, either, inbound_data_fault,
    inbound_text_fault, items_unfit, lemma_list_pointer_round_trip, lemma_list_round_trip,
    lemma_pointer_round_trip, lemma_text_list_round_trip, lemma_texts_round_trip, list_fault,
    list_pointer_fault, list_pointer_reads, list_pointer_writes, list_reads, list_survives,
    list_unfit, list_writes, outbound_text_unfit, pointer_fault, pointer_reads, pointer_writes,
    read_list, read_list_pointer, read_pointer, read_text, read_texts_pointer, read_timestamp,
    struct_items_unfit, text_fault, text_of, text_unfit, text_written, texts_of,
    texts_pointer_fault, texts_unfit, texts_written, timestamp_fault, timestamp_reads,
    timestamp_survives, timestamp_unfit, timestamp_written, write_list, write_pointer,
    write_struct_list, write_texts, write_timestamp,
};
use super::wire::{self, Data, Pointer, Schema, Text};
use crate::harness::error::{RunFailureKind, RunStage};
use crate::json::{compact_json, json_compact};
use crate::session::{
    is_label, label_of, lemma_session_id_text_is_read_back, session_id_of, session_id_text,
    ActiveRunSnapshot, AttachmentId, DraftDefaults, JobKind, JobSnapshotDto, JobState,
    ModelCatalogState, ModelInfoDto, PlanItem, PlanStatus, ReasoningLevel, RunFailureSnapshot,
    SessionCommandError, SessionEvent, SessionEventEnvelope, SessionFailure, SessionId,
    SessionListScope, SessionSelector, SessionSettings, SessionSnapshot, SessionSummary,
    SessionTitle, TranscriptItem, MAX_STEP_CHARACTERS, MAX_TITLE_CHARACTERS,
};

pub use super::fields::{
    lemma_reading_gives_back_what_was_written, read_inbound_data, read_inbound_text, read_outcome,
    validate_inbound_field_length, validate_wire_data_length,
    validate_wire_inline_composite_list_length, validate_wire_list_length,
    validate_wire_text_length, write_outcome, Conversion, RpcConversionError, MAX_RPC_CWD_BYTES,
    MAX_RPC_IDENTIFIER_BYTES, MAX_RPC_PROMPT_BYTES, MAX_RPC_TITLE_BYTES,
};
pub use crate::session::ErrorCode;

verus! {

/// The wire value of an error category.
pub open spec fn error_code_on_wire(value: ErrorCode) -> wire::ErrorCode {
    match value {
        ErrorCode::Busy => wire::ErrorCode::Busy,
        ErrorCode::NotRunning => wire::ErrorCode::NotRunning,
        ErrorCode::SessionNotFound => wire::ErrorCode::SessionNotFound,
        ErrorCode::AmbiguousTitle => wire::ErrorCode::AmbiguousTitle,
        ErrorCode::SessionNameConflict => wire::ErrorCode::SessionNameConflict,
        ErrorCode::InvalidArgument => wire::ErrorCode::InvalidArgument,
        ErrorCode::ModelNotFound => wire::ErrorCode::ModelNotFound,
        ErrorCode::UnsupportedReasoning => wire::ErrorCode::UnsupportedReasoning,
        ErrorCode::JobNotFound => wire::ErrorCode::JobNotFound,
        ErrorCode::BackendStarting => wire::ErrorCode::BackendStarting,
        ErrorCode::BackendUnavailable => wire::ErrorCode::BackendUnavailable,
        ErrorCode::Persistence => wire::ErrorCode::Persistence,
        ErrorCode::SessionDeleting => wire::ErrorCode::SessionDeleting,
        ErrorCode::SessionDeleted => wire::ErrorCode::SessionDeleted,
        ErrorCode::Internal => wire::ErrorCode::Internal,
    }
}

/// An error category of a wire value.
pub open spec fn error_code_from_wire(value: wire::ErrorCode) -> ErrorCode {
    match value {
        wire::ErrorCode::Busy => ErrorCode::Busy,
        wire::ErrorCode::NotRunning => ErrorCode::NotRunning,
        wire::ErrorCode::SessionNotFound => ErrorCode::SessionNotFound,
        wire::ErrorCode::AmbiguousTitle => ErrorCode::AmbiguousTitle,
        wire::ErrorCode::SessionNameConflict => ErrorCode::SessionNameConflict,
        wire::ErrorCode::InvalidArgument => ErrorCode::InvalidArgument,
        wire::ErrorCode::ModelNotFound => ErrorCode::ModelNotFound,
        wire::ErrorCode::UnsupportedReasoning => ErrorCode::UnsupportedReasoning,
        wire::ErrorCode::JobNotFound => ErrorCode::JobNotFound,
        wire::ErrorCode::BackendStarting => ErrorCode::BackendStarting,
        wire::ErrorCode::BackendUnavailable => ErrorCode::BackendUnavailable,
        wire::ErrorCode::Persistence => ErrorCode::Persistence,
        wire::ErrorCode::SessionDeleting => ErrorCode::SessionDeleting,
        wire::ErrorCode::SessionDeleted => ErrorCode::SessionDeleted,
        wire::ErrorCode::Internal => ErrorCode::Internal,
    }
}

/// Converts an error category to its wire value.
fn wire_error_code(value: ErrorCode) -> (wire: wire::ErrorCode)
    ensures
        wire == error_code_on_wire(value),
{
    match value {
        ErrorCode::Busy => wire::ErrorCode::Busy,
        ErrorCode::NotRunning => wire::ErrorCode::NotRunning,
        ErrorCode::SessionNotFound => wire::ErrorCode::SessionNotFound,
        ErrorCode::AmbiguousTitle => wire::ErrorCode::AmbiguousTitle,
        ErrorCode::SessionNameConflict => wire::ErrorCode::SessionNameConflict,
        ErrorCode::InvalidArgument => wire::ErrorCode::InvalidArgument,
        ErrorCode::ModelNotFound => wire::ErrorCode::ModelNotFound,
        ErrorCode::UnsupportedReasoning => wire::ErrorCode::UnsupportedReasoning,
        ErrorCode::JobNotFound => wire::ErrorCode::JobNotFound,
        ErrorCode::BackendStarting => wire::ErrorCode::BackendStarting,
        ErrorCode::BackendUnavailable => wire::ErrorCode::BackendUnavailable,
        ErrorCode::Persistence => wire::ErrorCode::Persistence,
        ErrorCode::SessionDeleting => wire::ErrorCode::SessionDeleting,
        ErrorCode::SessionDeleted => wire::ErrorCode::SessionDeleted,
        ErrorCode::Internal => wire::ErrorCode::Internal,
    }
}

/// What is wrong with an error category in a message.
pub open spec fn error_code_fault(value: Schema<wire::ErrorCode>) -> Option<RpcConversionError> {
    match value {
        Schema::Known(_) => None,
        Schema::Unknown(value) => Some(RpcConversionError::UnknownEnum { name: "ErrorCode", value }),
    }
}

/// Converts a wire value to an error category.
fn domain_error_code(value: &Schema<wire::ErrorCode>) -> (result: Result<ErrorCode, RpcConversionError>)
    ensures
        match *value {
            Schema::Known(known) => result == Ok::<ErrorCode, RpcConversionError>(
                error_code_from_wire(known),
            ),
            Schema::Unknown(_) => result is Err && error_code_fault(*value) == Some(result->Err_0),
        },
{
    match value {
        Schema::Known(known) => Ok(match known {
            wire::ErrorCode::Busy => ErrorCode::Busy,
            wire::ErrorCode::NotRunning => ErrorCode::NotRunning,
            wire::ErrorCode::SessionNotFound => ErrorCode::SessionNotFound,
            wire::ErrorCode::AmbiguousTitle => ErrorCode::AmbiguousTitle,
            wire::ErrorCode::SessionNameConflict => ErrorCode::SessionNameConflict,
            wire::ErrorCode::InvalidArgument => ErrorCode::InvalidArgument,
            wire::ErrorCode::ModelNotFound => ErrorCode::ModelNotFound,
            wire::ErrorCode::UnsupportedReasoning => ErrorCode::UnsupportedReasoning,
            wire::ErrorCode::JobNotFound => ErrorCode::JobNotFound,
            wire::ErrorCode::BackendStarting => ErrorCode::BackendStarting,
            wire::ErrorCode::BackendUnavailable => ErrorCode::BackendUnavailable,
            wire::ErrorCode::Persistence => ErrorCode::Persistence,
            wire::ErrorCode::SessionDeleting => ErrorCode::SessionDeleting,
            wire::ErrorCode::SessionDeleted => ErrorCode::SessionDeleted,
            wire::ErrorCode::Internal => ErrorCode::Internal,
        }),
        Schema::Unknown(value) => Err(
            RpcConversionError::UnknownEnum { name: "ErrorCode", value: *value },
        ),
    }
}

/// The wire value of a reasoning level.
pub open spec fn reasoning_level_on_wire(value: ReasoningLevel) -> wire::ReasoningLevel {
    match value {
        ReasoningLevel::NoReasoning => wire::ReasoningLevel::NoReasoning,
        ReasoningLevel::Minimal => wire::ReasoningLevel::Minimal,
        ReasoningLevel::Low => wire::ReasoningLevel::Low,
        ReasoningLevel::Medium => wire::ReasoningLevel::Medium,
        ReasoningLevel::High => wire::ReasoningLevel::High,
        ReasoningLevel::Xhigh => wire::ReasoningLevel::Xhigh,
        ReasoningLevel::Max => wire::ReasoningLevel::Max,
    }
}

/// A reasoning level of a wire value.
pub open spec fn reasoning_level_from_wire(value: wire::ReasoningLevel) -> ReasoningLevel {
    match value {
        wire::ReasoningLevel::NoReasoning => ReasoningLevel::NoReasoning,
        wire::ReasoningLevel::Minimal => ReasoningLevel::Minimal,
        wire::ReasoningLevel::Low => ReasoningLevel::Low,
        wire::ReasoningLevel::Medium => ReasoningLevel::Medium,
        wire::ReasoningLevel::High => ReasoningLevel::High,
        wire::ReasoningLevel::Xhigh => ReasoningLevel::Xhigh,
        wire::ReasoningLevel::Max => ReasoningLevel::Max,
    }
}

/// Converts a reasoning level to its wire value.
pub fn write_reasoning_level(value: ReasoningLevel) -> (wire: wire::ReasoningLevel)
    ensures
        wire == reasoning_level_on_wire(value),
{
    match value {
        ReasoningLevel::NoReasoning => wire::ReasoningLevel::NoReasoning,
        ReasoningLevel::Minimal => wire::ReasoningLevel::Minimal,
        ReasoningLevel::Low => wire::ReasoningLevel::Low,
        ReasoningLevel::Medium => wire::ReasoningLevel::Medium,
        ReasoningLevel::High => wire::ReasoningLevel::High,
        ReasoningLevel::Xhigh => wire::ReasoningLevel::Xhigh,
        ReasoningLevel::Max => wire::ReasoningLevel::Max,
    }
}

/// What is wrong with a reasoning level in a message.
pub open spec fn reasoning_level_fault(value: Schema<wire::ReasoningLevel>) -> Option<RpcConversionError> {
    match value {
        Schema::Known(_) => None,
        Schema::Unknown(value) => Some(RpcConversionError::UnknownEnum { name: "ReasoningLevel", value }),
    }
}

/// Converts a wire value to a reasoning level.
pub fn read_reasoning_level(value: &Schema<wire::ReasoningLevel>) -> (result: Result<ReasoningLevel, RpcConversionError>)
    ensures
        match *value {
            Schema::Known(known) => result == Ok::<ReasoningLevel, RpcConversionError>(
                reasoning_level_from_wire(known),
            ),
            Schema::Unknown(_) => result is Err && reasoning_level_fault(*value) == Some(result->Err_0),
        },
{
    match value {
        Schema::Known(known) => Ok(match known {
            wire::ReasoningLevel::NoReasoning => ReasoningLevel::NoReasoning,
            wire::ReasoningLevel::Minimal => ReasoningLevel::Minimal,
            wire::ReasoningLevel::Low => ReasoningLevel::Low,
            wire::ReasoningLevel::Medium => ReasoningLevel::Medium,
            wire::ReasoningLevel::High => ReasoningLevel::High,
            wire::ReasoningLevel::Xhigh => ReasoningLevel::Xhigh,
            wire::ReasoningLevel::Max => ReasoningLevel::Max,
        }),
        Schema::Unknown(value) => Err(
            RpcConversionError::UnknownEnum { name: "ReasoningLevel", value: *value },
        ),
    }
}

/// The wire value of a run stage.
pub open spec fn run_stage_on_wire(value: RunStage) -> wire::RunStage {
    match value {
        RunStage::Startup => wire::RunStage::Startup,
        RunStage::ModelRequest => wire::RunStage::ModelRequest,
        RunStage::ToolExecution => wire::RunStage::ToolExecution,
        RunStage::Finalization => wire::RunStage::Finalization,
    }
}

/// A run stage of a wire value.
pub open spec fn run_stage_from_wire(value: wire::RunStage) -> RunStage {
    match value {
        wire::RunStage::Startup => RunStage::Startup,
        wire::RunStage::ModelRequest => RunStage::ModelRequest,
        wire::RunStage::ToolExecution => RunStage::ToolExecution,
        wire::RunStage::Finalization => RunStage::Finalization,
    }
}

/// Converts a run stage to its wire value.
fn wire_run_stage(value: RunStage) -> (wire: wire::RunStage)
    ensures
        wire == run_stage_on_wire(value),
{
    match value {
        RunStage::Startup => wire::RunStage::Startup,
        RunStage::ModelRequest => wire::RunStage::ModelRequest,
        RunStage::ToolExecution => wire::RunStage::ToolExecution,
        RunStage::Finalization => wire::RunStage::Finalization,
    }
}

/// What is wrong with a run stage in a message.
pub open spec fn run_stage_fault(value: Schema<wire::RunStage>) -> Option<RpcConversionError> {
    match value {
        Schema::Known(_) => None,
        Schema::Unknown(value) => Some(RpcConversionError::UnknownEnum { name: "RunStage", value }),
    }
}

/// Converts a wire value to a run stage.
fn domain_run_stage(value: &Schema<wire::RunStage>) -> (result: Result<RunStage, RpcConversionError>)
    ensures
        match *value {
            Schema::Known(known) => result == Ok::<RunStage, RpcConversionError>(
                run_stage_from_wire(known),
            ),
            Schema::Unknown(_) => result is Err && run_stage_fault(*value) == Some(result->Err_0),
        },
{
    match value {
        Schema::Known(known) => Ok(match known {
            wire::RunStage::Startup => RunStage::Startup,
            wire::RunStage::ModelRequest => RunStage::ModelRequest,
            wire::RunStage::ToolExecution => RunStage::ToolExecution,
            wire::RunStage::Finalization => RunStage::Finalization,
        }),
        Schema::Unknown(value) => Err(
            RpcConversionError::UnknownEnum { name: "RunStage", value: *value },
        ),
    }
}

/// The wire value of a job kind.
pub open spec fn job_kind_on_wire(value: JobKind) -> wire::JobKind {
    match value {
        JobKind::Bash => wire::JobKind::Bash,
    }
}

/// A job kind of a wire value.
pub open spec fn job_kind_from_wire(value: wire::JobKind) -> JobKind {
    match value {
        wire::JobKind::Bash => JobKind::Bash,
    }
}

/// Converts a job kind to its wire value.
fn wire_job_kind(value: JobKind) -> (wire: wire::JobKind)
    ensures
        wire == job_kind_on_wire(value),
{
    match value {
        JobKind::Bash => wire::JobKind::Bash,
    }
}

/// What is wrong with a job kind in a message.
pub open spec fn job_kind_fault(value: Schema<wire::JobKind>) -> Option<RpcConversionError> {
    match value {
        Schema::Known(_) => None,
        Schema::Unknown(value) => Some(RpcConversionError::UnknownEnum { name: "JobKind", value }),
    }
}

/// Converts a wire value to a job kind.
fn domain_job_kind(value: &Schema<wire::JobKind>) -> (result: Result<JobKind, RpcConversionError>)
    ensures
        match *value {
            Schema::Known(known) => result == Ok::<JobKind, RpcConversionError>(
                job_kind_from_wire(known),
            ),
            Schema::Unknown(_) => result is Err && job_kind_fault(*value) == Some(result->Err_0),
        },
{
    match value {
        Schema::Known(known) => Ok(match known {
            wire::JobKind::Bash => JobKind::Bash,
        }),
        Schema::Unknown(value) => Err(
            RpcConversionError::UnknownEnum { name: "JobKind", value: *value },
        ),
    }
}

/// The wire value of a job state.
pub open spec fn job_state_on_wire(value: JobState) -> wire::JobState {
    match value {
        JobState::Running => wire::JobState::Running,
        JobState::Completed => wire::JobState::Completed,
        JobState::Failed => wire::JobState::Failed,
        JobState::Cancelled => wire::JobState::Cancelled,
    }
}

/// A job state of a wire value.
pub open spec fn job_state_from_wire(value: wire::JobState) -> JobState {
    match value {
        wire::JobState::Running => JobState::Running,
        wire::JobState::Completed => JobState::Completed,
        wire::JobState::Failed => JobState::Failed,
        wire::JobState::Cancelled => JobState::Cancelled,
    }
}

/// Converts a job state to its wire value.
fn wire_job_state(value: JobState) -> (wire: wire::JobState)
    ensures
        wire == job_state_on_wire(value),
{
    match value {
        JobState::Running => wire::JobState::Running,
        JobState::Completed => wire::JobState::Completed,
        JobState::Failed => wire::JobState::Failed,
        JobState::Cancelled => wire::JobState::Cancelled,
    }
}

/// What is wrong with a job state in a message.
pub open spec fn job_state_fault(value: Schema<wire::JobState>) -> Option<RpcConversionError> {
    match value {
        Schema::Known(_) => None,
        Schema::Unknown(value) => Some(RpcConversionError::UnknownEnum { name: "JobState", value }),
    }
}

/// Converts a wire value to a job state.
fn domain_job_state(value: &Schema<wire::JobState>) -> (result: Result<JobState, RpcConversionError>)
    ensures
        match *value {
            Schema::Known(known) => result == Ok::<JobState, RpcConversionError>(
                job_state_from_wire(known),
            ),
            Schema::Unknown(_) => result is Err && job_state_fault(*value) == Some(result->Err_0),
        },
{
    match value {
        Schema::Known(known) => Ok(match known {
            wire::JobState::Running => JobState::Running,
            wire::JobState::Completed => JobState::Completed,
            wire::JobState::Failed => JobState::Failed,
            wire::JobState::Cancelled => JobState::Cancelled,
        }),
        Schema::Unknown(value) => Err(
            RpcConversionError::UnknownEnum { name: "JobState", value: *value },
        ),
    }
}

/// The wire value of a plan status.
pub open spec fn plan_status_on_wire(value: PlanStatus) -> wire::PlanStatus {
    match value {
        PlanStatus::Pending => wire::PlanStatus::Pending,
        PlanStatus::InProgress => wire::PlanStatus::InProgress,
        PlanStatus::Completed => wire::PlanStatus::Completed,
        PlanStatus::Blocked => wire::PlanStatus::Blocked,
        PlanStatus::Cancelled => wire::PlanStatus::Cancelled,
    }
}

/// A plan status of a wire value.
pub open spec fn plan_status_from_wire(value: wire::PlanStatus) -> PlanStatus {
    match value {
        wire::PlanStatus::Pending => PlanStatus::Pending,
        wire::PlanStatus::InProgress => PlanStatus::InProgress,
        wire::PlanStatus::Completed => PlanStatus::Completed,
        wire::PlanStatus::Blocked => PlanStatus::Blocked,
        wire::PlanStatus::Cancelled => PlanStatus::Cancelled,
    }
}

/// Converts a plan status to its wire value.
pub fn write_plan_status(value: PlanStatus) -> (wire: wire::PlanStatus)
    ensures
        wire == plan_status_on_wire(value),
{
    match value {
        PlanStatus::Pending => wire::PlanStatus::Pending,
        PlanStatus::InProgress => wire::PlanStatus::InProgress,
        PlanStatus::Completed => wire::PlanStatus::Completed,
        PlanStatus::Blocked => wire::PlanStatus::Blocked,
        PlanStatus::Cancelled => wire::PlanStatus::Cancelled,
    }
}

/// What is wrong with a plan status in a message.
pub open spec fn plan_status_fault(value: Schema<wire::PlanStatus>) -> Option<RpcConversionError> {
    match value {
        Schema::Known(_) => None,
        Schema::Unknown(value) => Some(RpcConversionError::UnknownEnum { name: "PlanStatus", value }),
    }
}

/// Converts a wire value to a plan status.
pub fn read_plan_status(value: &Schema<wire::PlanStatus>) -> (result: Result<PlanStatus, RpcConversionError>)
    ensures
        match *value {
            Schema::Known(known) => result == Ok::<PlanStatus, RpcConversionError>(
                plan_status_from_wire(known),
            ),
            Schema::Unknown(_) => result is Err && plan_status_fault(*value) == Some(result->Err_0),
        },
{
    match value {
        Schema::Known(known) => Ok(match known {
            wire::PlanStatus::Pending => PlanStatus::Pending,
            wire::PlanStatus::InProgress => PlanStatus::InProgress,
            wire::PlanStatus::Completed => PlanStatus::Completed,
            wire::PlanStatus::Blocked => PlanStatus::Blocked,
            wire::PlanStatus::Cancelled => PlanStatus::Cancelled,
        }),
        Schema::Unknown(value) => Err(
            RpcConversionError::UnknownEnum { name: "PlanStatus", value: *value },
        ),
    }
}

/// No two enum values share a wire value: each is read back as itself.
pub proof fn lemma_enums_are_read_back(
    code: ErrorCode,
    level: ReasoningLevel,
    stage: RunStage,
    kind: JobKind,
    state: JobState,
    status: PlanStatus,
)
    ensures
        error_code_from_wire(error_code_on_wire(code)) == code,
        reasoning_level_from_wire(reasoning_level_on_wire(level)) == level,
        run_stage_from_wire(run_stage_on_wire(stage)) == stage,
        job_kind_from_wire(job_kind_on_wire(kind)) == kind,
        job_state_from_wire(job_state_on_wire(state)) == state,
        plan_status_from_wire(plan_status_on_wire(status)) == status,
{
}

impl Conversion for ReasoningLevel {
    type Wire = Schema<wire::ReasoningLevel>;

    open spec fn fault(wire: Schema<wire::ReasoningLevel>) -> Option<RpcConversionError> {
        reasoning_level_fault(wire)
    }

    open spec fn reads(wire: Schema<wire::ReasoningLevel>, value: ReasoningLevel) -> bool {
        value == reasoning_level_from_wire(wire->Known_0)
    }

    open spec fn unfit(value: ReasoningLevel) -> Option<RpcConversionError> {
        None
    }

    open spec fn writes(value: ReasoningLevel, wire: Schema<wire::ReasoningLevel>) -> bool {
        wire == Schema::Known(reasoning_level_on_wire(value))
    }

    open spec fn survives(value: ReasoningLevel) -> bool {
        true
    }

    fn from_wire(wire: &Schema<wire::ReasoningLevel>) -> (result: Result<
        ReasoningLevel,
        RpcConversionError,
    >) {
        read_reasoning_level(wire)
    }

    fn to_wire(value: &ReasoningLevel) -> (result: Result<
        Schema<wire::ReasoningLevel>,
        RpcConversionError,
    >) {
        Ok(Schema::Known(write_reasoning_level(*value)))
    }

    proof fn round_trip(value: ReasoningLevel, wire: Schema<wire::ReasoningLevel>) {
    }
}

/// RPC method and lifecycle capabilities that the protocol version requires.
pub const REQUIRED_FEATURES: [&'static str; 17] = [
    "backend.startup",
    "backend.materialize",
    "backend.openSession",
    "backend.listSessions",
    "backend.listSessions.all",
    "backend.renameSession",
    "backend.deleteSession",
    "backend.draftDefaults",
    "session.submit",
    "session.cancel",
    "session.selectModel",
    "session.selectReasoning",
    "session.listJobs",
    "session.cancelJob",
    "session.detach",
    "session.detach.attachedClients",
    "observer.publish",
];

/// Server metadata returned by the version negotiation.
#[derive(Debug)]
pub struct ProtocolInfo {
    /// Protocol major version.
    pub major: u16,
    /// Protocol minor version.
    pub minor: u16,
    /// Stable identifier of this backend process.
    pub instance_id: String,
    /// Sanitized non-fatal startup diagnostics.
    pub startup_warnings: Vec<String>,
    /// Method features implemented by this backend.
    pub features: Vec<String>,
}

/// The feature names of [`REQUIRED_FEATURES`].
pub open spec fn required_features() -> Seq<Seq<char>> {
    Seq::new(REQUIRED_FEATURES@.len(), |i: int| REQUIRED_FEATURES@[i]@)
}

impl ProtocolInfo {
    /// Constructs the metadata that this protocol version advertises.
    pub fn v2(instance_id: String, startup_warnings: Vec<String>) -> (info: Self)
        ensures
            info.major == wire::PROTOCOL_MAJOR,
            info.minor == wire::PROTOCOL_MINOR,
            info.instance_id == instance_id,
            info.startup_warnings == startup_warnings,
            info.features.deep_view() == required_features(),
    {
        let mut features: Vec<String> = Vec::new();
        let required = REQUIRED_FEATURES;
        let mut index: usize = 0;
        assert(features.deep_view() =~= required_features().subrange(0, 0));
        while index < 17
            invariant
                index <= 17,
                required == REQUIRED_FEATURES,
                features.deep_view() == required_features().subrange(0, index as int),
            decreases 17 - index,
        {
            let ghost before = features;
            features.push(required[index].to_owned());
            index += 1;
            assert(features.deep_view() =~= before.deep_view().push(required@[index - 1]@));
            assert(features.deep_view() =~= required_features().subrange(0, index as int));
        }
        assert(required_features().subrange(0, 17) =~= required_features());
        ProtocolInfo {
            major: wire::PROTOCOL_MAJOR,
            minor: wire::PROTOCOL_MINOR,
            instance_id,
            startup_warnings,
            features,
        }
    }

    /// The same metadata, for callers that still ask for the first version.
    pub fn v1(instance_id: String, startup_warnings: Vec<String>) -> (info: Self)
        ensures
            info.major == wire::PROTOCOL_MAJOR,
            info.minor == wire::PROTOCOL_MINOR,
            info.instance_id == instance_id,
            info.startup_warnings == startup_warnings,
            info.features.deep_view() == required_features(),
    {
        Self::v2(instance_id, startup_warnings)
    }
}

impl Conversion for ProtocolInfo {
    type Wire = wire::ProtocolInfo;

    open spec fn fault(wire: wire::ProtocolInfo) -> Option<RpcConversionError> {
        either(
            texts_pointer_fault(wire.startup_warnings, "startupWarnings"),
            either(
                texts_pointer_fault(wire.features, "features"),
                text_fault(wire.instance_id, "instanceId"),
            ),
        )
    }

    open spec fn reads(wire: wire::ProtocolInfo, value: ProtocolInfo) -> bool {
        &&& value.major == wire.major
        &&& value.minor == wire.minor
        &&& value.instance_id@ == text_of(wire.instance_id)
        &&& value.startup_warnings.deep_view() == texts_of(wire.startup_warnings->Value_0@)
        &&& value.features.deep_view() == texts_of(wire.features->Value_0@)
    }

    open spec fn unfit(value: ProtocolInfo) -> Option<RpcConversionError> {
        either(
            text_unfit(value.instance_id@, "instanceId"),
            either(
                list_unfit(value.startup_warnings@.len(), "startupWarnings"),
                either(
                    texts_unfit(value.startup_warnings.deep_view(), "startupWarnings"),
                    either(
                        list_unfit(value.features@.len(), "features"),
                        texts_unfit(value.features.deep_view(), "features"),
                    ),
                ),
            ),
        )
    }

    open spec fn writes(value: ProtocolInfo, wire: wire::ProtocolInfo) -> bool {
        &&& wire.major == value.major
        &&& wire.minor == value.minor
        &&& text_written(wire.instance_id, value.instance_id@)
        &&& wire.startup_warnings is Value
        &&& texts_written(wire.startup_warnings->Value_0@, value.startup_warnings.deep_view())
        &&& wire.features is Value
        &&& texts_written(wire.features->Value_0@, value.features.deep_view())
    }

    open spec fn survives(value: ProtocolInfo) -> bool {
        true
    }

    fn from_wire(wire: &wire::ProtocolInfo) -> (result: Result<ProtocolInfo, RpcConversionError>) {
        let startup_warnings = read_texts_pointer(&wire.startup_warnings, "startupWarnings")?;
        let features = read_texts_pointer(&wire.features, "features")?;
        let instance_id = read_text(&wire.instance_id, "instanceId")?;
        Ok(ProtocolInfo { major: wire.major, minor: wire.minor, instance_id, startup_warnings, features })
    }

    fn to_wire(value: &ProtocolInfo) -> (result: Result<wire::ProtocolInfo, RpcConversionError>) {
        let instance_id = checked_text(&value.instance_id, "instanceId")?;
        let startup_warnings = write_texts(&value.startup_warnings, "startupWarnings")?;
        let features = write_texts(&value.features, "features")?;
        Ok(
            wire::ProtocolInfo {
                major: value.major,
                minor: value.minor,
                instance_id,
                startup_warnings: Pointer::Value(startup_warnings),
                features: Pointer::Value(features),
            },
        )
    }

    proof fn round_trip(value: ProtocolInfo, wire: wire::ProtocolInfo) {
        lemma_texts_round_trip();
        lemma_text_list_round_trip(
            wire.startup_warnings->Value_0@,
            value.startup_warnings.deep_view(),
            "startupWarnings",
        );
        lemma_text_list_round_trip(
            wire.features->Value_0@,
            value.features.deep_view(),
            "features",
        );
    }
}

/// Writes backend protocol metadata.
pub fn write_protocol_info(value: &ProtocolInfo) -> (result: Result<wire::ProtocolInfo, RpcConversionError>)
    ensures
        write_outcome::<ProtocolInfo>(*value, result),
{
    ProtocolInfo::to_wire(value)
}

/// Reads backend protocol metadata.
pub fn read_protocol_info(reader: &wire::ProtocolInfo) -> (result: Result<ProtocolInfo, RpcConversionError>)
    ensures
        read_outcome::<ProtocolInfo>(*reader, result),
{
    ProtocolInfo::from_wire(reader)
}

/// What is wrong with a session identifier in a text.
pub open spec fn session_id_fault(text: Seq<char>) -> Option<RpcConversionError> {
    if session_id_of(text) is Some {
        None
    } else {
        Some(RpcConversionError::InvalidSessionId)
    }
}

/// What is wrong with a session title in a text.
pub open spec fn title_fault(text: Seq<char>) -> Option<RpcConversionError> {
    if label_of(text, MAX_TITLE_CHARACTERS as int) is Some {
        None
    } else {
        Some(RpcConversionError::InvalidSessionTitle)
    }
}

/// A text that is read as a title.
pub open spec fn title_reads(text: Seq<char>, title: SessionTitle) -> bool {
    label_of(text, MAX_TITLE_CHARACTERS as int) == Some(title.value@)
}

pub(crate) fn parse_id(text: &str) -> (result: Result<SessionId, RpcConversionError>)
    ensures
        match result {
            Ok(id) => session_id_fault(text@) is None && session_id_of(text@) == Some(id),
            Err(error) => session_id_fault(text@) == Some(error),
        },
{
    match SessionId::parse(text) {
        Some(id) => Ok(id),
        None => Err(RpcConversionError::InvalidSessionId),
    }
}

pub(crate) fn parse_title(text: &str) -> (result: Result<SessionTitle, RpcConversionError>)
    ensures
        match result {
            Ok(title) => title_fault(text@) is None && title_reads(text@, title) && title.valid(),
            Err(error) => title_fault(text@) == Some(error),
        },
{
    match SessionTitle::parse(text) {
        Ok(title) => Ok(title),
        Err(_) => Err(RpcConversionError::InvalidSessionTitle),
    }
}

impl Conversion for SessionSelector {
    type Wire = wire::SessionSelector;

    open spec fn fault(wire: wire::SessionSelector) -> Option<RpcConversionError> {
        match wire {
            wire::SessionSelector::Id(text) => either(
                inbound_text_fault(text, MAX_RPC_IDENTIFIER_BYTES as int, "id"),
                session_id_fault(text_of(text)),
            ),
            wire::SessionSelector::Title(text) => either(
                inbound_text_fault(text, MAX_RPC_TITLE_BYTES as int, "title"),
                title_fault(text_of(text)),
            ),
            wire::SessionSelector::Unknown(value) => Some(
                RpcConversionError::UnknownUnion { name: "SessionSelector", value },
            ),
        }
    }

    open spec fn reads(wire: wire::SessionSelector, value: SessionSelector) -> bool {
        match (wire, value) {
            (wire::SessionSelector::Id(text), SessionSelector::Id(id)) => session_id_of(text_of(text))
                == Some(id),
            (wire::SessionSelector::Title(text), SessionSelector::Title(title)) => title_reads(
                text_of(text),
                title,
            ),
            _ => false,
        }
    }

    open spec fn unfit(value: SessionSelector) -> Option<RpcConversionError> {
        match value {
            SessionSelector::Id(id) => outbound_text_unfit(
                session_id_text(id),
                MAX_RPC_IDENTIFIER_BYTES as int,
                "id",
            ),
            SessionSelector::Title(title) => outbound_text_unfit(
                title.value@,
                MAX_RPC_TITLE_BYTES as int,
                "title",
            ),
        }
    }

    open spec fn writes(value: SessionSelector, wire: wire::SessionSelector) -> bool {
        match (wire, value) {
            (wire::SessionSelector::Id(text), SessionSelector::Id(id)) => text_written(
                text,
                session_id_text(id),
            ),
            (wire::SessionSelector::Title(text), SessionSelector::Title(title)) => text_written(
                text,
                title.value@,
            ),
            _ => false,
        }
    }

    open spec fn survives(value: SessionSelector) -> bool {
        match value {
            SessionSelector::Id(_) => true,
            SessionSelector::Title(title) => title.valid(),
        }
    }

    fn from_wire(wire: &wire::SessionSelector) -> (result: Result<SessionSelector, RpcConversionError>) {
        match wire {
            wire::SessionSelector::Id(text) => {
                let text = read_inbound_text(text, MAX_RPC_IDENTIFIER_BYTES, "id")?;
                Ok(SessionSelector::Id(parse_id(&text)?))
            },
            wire::SessionSelector::Title(text) => {
                let text = read_inbound_text(text, MAX_RPC_TITLE_BYTES, "title")?;
                Ok(SessionSelector::Title(parse_title(&text)?))
            },
            wire::SessionSelector::Unknown(value) => Err(
                RpcConversionError::UnknownUnion { name: "SessionSelector", value: *value },
            ),
        }
    }

    fn to_wire(value: &SessionSelector) -> (result: Result<wire::SessionSelector, RpcConversionError>) {
        match value {
            SessionSelector::Id(id) => {
                let text = id.text();
                validate_inbound_field_length(text.as_str().as_bytes().len(), MAX_RPC_IDENTIFIER_BYTES, "id")?;
                Ok(wire::SessionSelector::Id(checked_text(&text, "id")?))
            },
            SessionSelector::Title(title) => {
                let text = title.as_str();
                validate_inbound_field_length(text.as_bytes().len(), MAX_RPC_TITLE_BYTES, "title")?;
                Ok(wire::SessionSelector::Title(checked_text(text, "title")?))
            },
        }
    }

    proof fn round_trip(value: SessionSelector, wire: wire::SessionSelector) {
        lemma_texts_round_trip();
        if let SessionSelector::Id(id) = value {
            lemma_session_id_text_is_read_back(id);
        }
    }
}

/// Writes a stable identifier or title selector.
pub fn write_session_selector(value: &SessionSelector) -> (result: Result<wire::SessionSelector, RpcConversionError>)
    ensures
        write_outcome::<SessionSelector>(*value, result),
{
    SessionSelector::to_wire(value)
}

/// Reads a stable identifier or title selector.
pub fn read_session_selector(reader: &wire::SessionSelector) -> (result: Result<SessionSelector, RpcConversionError>)
    ensures
        read_outcome::<SessionSelector>(*reader, result),
{
    SessionSelector::from_wire(reader)
}

/// Converts a checked attachment identifier to its wire value.
pub fn write_attachment_id(value: AttachmentId) -> (result: Result<u64, RpcConversionError>)
    ensures
        result == (if value.0 == 0 {
            Err(RpcConversionError::InvalidAttachmentId)
        } else {
            Ok(value.0)
        }),
{
    if value.0 == 0 {
        return Err(RpcConversionError::InvalidAttachmentId);
    }
    Ok(value.0)
}

/// Validates and converts a wire attachment identifier.
pub fn read_attachment_id(value: u64) -> (result: Result<AttachmentId, RpcConversionError>)
    ensures
        result == (if value == 0 {
            Err(RpcConversionError::InvalidAttachmentId)
        } else {
            Ok(AttachmentId(value))
        }),
{
    if value == 0 {
        return Err(RpcConversionError::InvalidAttachmentId);
    }
    Ok(AttachmentId(value))
}

/// What keeps a listing scope from being written.
pub open spec fn scope_unfit(scope: SessionListScope) -> Option<RpcConversionError> {
    match scope {
        SessionListScope::Project(cwd) => if cwd@.len() > MAX_RPC_CWD_BYTES {
            Some(RpcConversionError::FieldTooLong { field: "cwd" })
        } else {
            data_unfit(cwd@, "cwd")
        },
        SessionListScope::All => None,
    }
}

/// A listing scope and the working directory beside it that a scope is written as.
pub open spec fn scope_writes(
    value: SessionListScope,
    scope: wire::SessionListScope,
    cwd: Data,
) -> bool {
    match value {
        SessionListScope::Project(path) => scope == wire::SessionListScope::Project
            && data_written(cwd, path@),
        SessionListScope::All => scope == wire::SessionListScope::All && data_written(
            cwd,
            Seq::empty(),
        ),
    }
}

/// Splits a listing scope into its wire value and the raw working directory.
pub fn write_session_list_scope(value: &SessionListScope) -> (result: Result<
    (wire::SessionListScope, Data),
    RpcConversionError,
>)
    ensures
        match result {
            Ok((scope, cwd)) => scope_unfit(*value) is None && scope_writes(*value, scope, cwd),
            Err(error) => scope_unfit(*value) == Some(error),
        },
{
    match value {
        SessionListScope::Project(cwd) => {
            validate_inbound_field_length(cwd.len(), MAX_RPC_CWD_BYTES, "cwd")?;
            let data = checked_data(cwd, "cwd")?;
            Ok((wire::SessionListScope::Project, data))
        },
        SessionListScope::All => Ok((wire::SessionListScope::All, Pointer::Value(Vec::new()))),
    }
}

/// What is wrong with a listing scope and the working directory beside it.
pub open spec fn scope_fault(scope: Schema<wire::SessionListScope>, cwd: Data) -> Option<
    RpcConversionError,
> {
    match scope {
        Schema::Unknown(value) => Some(
            RpcConversionError::UnknownEnum { name: "SessionListScope", value },
        ),
        Schema::Known(wire::SessionListScope::Project) => inbound_data_fault(
            cwd,
            MAX_RPC_CWD_BYTES as int,
            "cwd",
        ),
        Schema::Known(wire::SessionListScope::All) => None,
    }
}

/// A listing scope and the working directory beside it that are read as a scope.
pub open spec fn scope_reads(
    scope: Schema<wire::SessionListScope>,
    cwd: Data,
    value: SessionListScope,
) -> bool {
    match value {
        SessionListScope::Project(path) => scope == Schema::Known(wire::SessionListScope::Project)
            && path@ == data_of(cwd),
        SessionListScope::All => scope == Schema::Known(wire::SessionListScope::All),
    }
}

/// Combines a wire listing scope with the raw working directory.
pub fn read_session_list_scope(scope: &Schema<wire::SessionListScope>, cwd: &Data) -> (result:
    Result<SessionListScope, RpcConversionError>)
    ensures
        match result {
            Ok(value) => scope_fault(*scope, *cwd) is None && scope_reads(*scope, *cwd, value),
            Err(error) => scope_fault(*scope, *cwd) == Some(error),
        },
{
    match scope {
        Schema::Unknown(value) => Err(
            RpcConversionError::UnknownEnum { name: "SessionListScope", value: *value },
        ),
        Schema::Known(wire::SessionListScope::Project) => Ok(
            SessionListScope::Project(read_inbound_data(cwd, MAX_RPC_CWD_BYTES, "cwd")?),
        ),
        Schema::Known(wire::SessionListScope::All) => Ok(SessionListScope::All),
    }
}

/// A written listing scope is read back.
pub proof fn lemma_session_list_scope_is_read_back(
    value: SessionListScope,
    scope: wire::SessionListScope,
    cwd: Data,
)
    requires
        scope_unfit(value) is None,
        match value {
            SessionListScope::Project(path) => scope == wire::SessionListScope::Project
                && data_written(cwd, path@),
            SessionListScope::All => scope == wire::SessionListScope::All && data_written(
                cwd,
                Seq::empty(),
            ),
        },
    ensures
        scope_fault(Schema::Known(scope), cwd) is None,
        scope_reads(Schema::Known(scope), cwd, value),
{
}

/// Transport-safe command failure.
#[derive(Debug)]
pub struct CommandError {
    /// Stable category.
    pub code: ErrorCode,
    /// Sanitized description.
    pub message: String,
    /// Stable identifiers that an ambiguous title matches; empty for other failures.
    pub ids: Vec<SessionId>,
}

/// The category under which a refused session command is reported.
pub open spec fn command_error_code(error: SessionCommandError) -> ErrorCode {
    match error {
        SessionCommandError::Reported { code, .. } => code,
        SessionCommandError::Local { failure, .. } => match failure {
            SessionFailure::Busy => ErrorCode::Busy,
            SessionFailure::NotRunning => ErrorCode::NotRunning,
            SessionFailure::ModelNotFound => ErrorCode::ModelNotFound,
            SessionFailure::UnsupportedReasoning => ErrorCode::UnsupportedReasoning,
            SessionFailure::InvalidJobId | SessionFailure::InvalidPrompt => {
                ErrorCode::InvalidArgument
            },
            SessionFailure::JobNotFound => ErrorCode::JobNotFound,
            SessionFailure::Persistence => ErrorCode::Persistence,
            SessionFailure::Deleting => ErrorCode::SessionDeleting,
            SessionFailure::Unavailable => ErrorCode::BackendUnavailable,
            SessionFailure::RunIdExhausted | SessionFailure::Job | SessionFailure::Projection => {
                ErrorCode::Internal
            },
        },
    }
}

/// The description of a refused session command.
pub open spec fn command_error_message(error: SessionCommandError) -> Seq<char> {
    match error {
        SessionCommandError::Reported { message, .. } => message@,
        SessionCommandError::Local { message, .. } => message@,
    }
}

impl CommandError {
    /// Reports a refused session command.
    pub fn from_session(error: &SessionCommandError) -> (reported: CommandError)
        ensures
            reported.code == command_error_code(*error),
            reported.message@ == command_error_message(*error),
            reported.ids@.len() == 0,
    {
        match error {
            SessionCommandError::Reported { code, message } => CommandError {
                code: *code,
                message: message.clone(),
                ids: Vec::new(),
            },
            SessionCommandError::Local { failure, message } => {
                let code = match failure {
                    SessionFailure::Busy => ErrorCode::Busy,
                    SessionFailure::NotRunning => ErrorCode::NotRunning,
                    SessionFailure::ModelNotFound => ErrorCode::ModelNotFound,
                    SessionFailure::UnsupportedReasoning => ErrorCode::UnsupportedReasoning,
                    SessionFailure::InvalidJobId | SessionFailure::InvalidPrompt => {
                        ErrorCode::InvalidArgument
                    },
                    SessionFailure::JobNotFound => ErrorCode::JobNotFound,
                    SessionFailure::Persistence => ErrorCode::Persistence,
                    SessionFailure::Deleting => ErrorCode::SessionDeleting,
                    SessionFailure::Unavailable => ErrorCode::BackendUnavailable,
                    SessionFailure::RunIdExhausted | SessionFailure::Job
                    | SessionFailure::Projection => ErrorCode::Internal,
                };
                CommandError { code, message: message.clone(), ids: Vec::new() }
            },
        }
    }
}

impl Conversion for SessionId {
    type Wire = Text;

    open spec fn fault(wire: Text) -> Option<RpcConversionError> {
        either(
            text_fault(wire, "ids"),
            session_id_fault(text_of(wire)),
        )
    }

    open spec fn reads(wire: Text, value: SessionId) -> bool {
        session_id_of(text_of(wire)) == Some(value)
    }

    open spec fn unfit(value: SessionId) -> Option<RpcConversionError> {
        text_unfit(session_id_text(value), "ids")
    }

    open spec fn writes(value: SessionId, wire: Text) -> bool {
        text_written(wire, session_id_text(value))
    }

    open spec fn survives(value: SessionId) -> bool {
        true
    }

    fn from_wire(wire: &Text) -> (result: Result<SessionId, RpcConversionError>) {
        let text = read_text(wire, "ids")?;
        parse_id(&text)
    }

    fn to_wire(value: &SessionId) -> (result: Result<Text, RpcConversionError>) {
        let text = value.text();
        checked_text(&text, "ids")
    }

    proof fn round_trip(value: SessionId, wire: Text) {
        lemma_texts_round_trip();
        lemma_session_id_text_is_read_back(value);
    }
}

impl Conversion for CommandError {
    type Wire = wire::CommandError;

    open spec fn fault(wire: wire::CommandError) -> Option<RpcConversionError> {
        either(
            error_code_fault(wire.code),
            either(
                list_pointer_fault::<SessionId>(wire.ids),
                text_fault(wire.message, "message"),
            ),
        )
    }

    open spec fn reads(wire: wire::CommandError, value: CommandError) -> bool {
        &&& value.code == error_code_from_wire(wire.code->Known_0)
        &&& value.message@ == text_of(wire.message)
        &&& list_pointer_reads::<SessionId>(wire.ids, value.ids@)
    }

    open spec fn unfit(value: CommandError) -> Option<RpcConversionError> {
        either(
            text_unfit(value.message@, "message"),
            either(
                list_unfit(value.ids@.len(), "ids"),
                items_unfit::<SessionId>(value.ids@),
            ),
        )
    }

    open spec fn writes(value: CommandError, wire: wire::CommandError) -> bool {
        &&& wire.code == Schema::Known(error_code_on_wire(value.code))
        &&& text_written(wire.message, value.message@)
        &&& list_pointer_writes::<SessionId>(value.ids@, wire.ids)
    }

    open spec fn survives(value: CommandError) -> bool {
        true
    }

    fn from_wire(wire: &wire::CommandError) -> (result: Result<CommandError, RpcConversionError>) {
        let code = domain_error_code(&wire.code)?;
        let ids = read_list_pointer::<SessionId>(&wire.ids)?;
        let message = read_text(&wire.message, "message")?;
        Ok(CommandError { code, message, ids })
    }

    fn to_wire(value: &CommandError) -> (result: Result<wire::CommandError, RpcConversionError>) {
        let message = checked_text(&value.message, "message")?;
        validate_wire_list_length(value.ids.len(), "ids")?;
        let ids = write_list::<SessionId>(&value.ids)?;
        Ok(
            wire::CommandError {
                code: Schema::Known(wire_error_code(value.code)),
                message,
                ids: Pointer::Value(ids),
            },
        )
    }

    proof fn round_trip(value: CommandError, wire: wire::CommandError) {
        lemma_texts_round_trip();
        lemma_list_pointer_round_trip::<SessionId>(value.ids@, wire.ids);
    }
}

/// Writes a transport-safe command error.
pub fn write_command_error(value: &CommandError) -> (result: Result<wire::CommandError, RpcConversionError>)
    ensures
        write_outcome::<CommandError>(*value, result),
{
    CommandError::to_wire(value)
}

/// Reads a transport-safe command error.
pub fn read_command_error(reader: &wire::CommandError) -> (result: Result<CommandError, RpcConversionError>)
    ensures
        read_outcome::<CommandError>(*reader, result),
{
    CommandError::from_wire(reader)
}

impl Conversion for SessionSettings {
    type Wire = wire::SessionSettings;

    open spec fn fault(wire: wire::SessionSettings) -> Option<RpcConversionError> {
        either(
            inbound_text_fault(wire.model, MAX_RPC_IDENTIFIER_BYTES as int, "model"),
            reasoning_level_fault(wire.reasoning),
        )
    }

    open spec fn reads(wire: wire::SessionSettings, value: SessionSettings) -> bool {
        &&& value.model@ == text_of(wire.model)
        &&& value.reasoning == reasoning_level_from_wire(wire.reasoning->Known_0)
        &&& value.context_tokens == wire.context_tokens
    }

    open spec fn unfit(value: SessionSettings) -> Option<RpcConversionError> {
        outbound_text_unfit(value.model@, MAX_RPC_IDENTIFIER_BYTES as int, "model")
    }

    open spec fn writes(value: SessionSettings, wire: wire::SessionSettings) -> bool {
        &&& text_written(wire.model, value.model@)
        &&& wire.reasoning == Schema::Known(reasoning_level_on_wire(value.reasoning))
        &&& wire.context_tokens == value.context_tokens
    }

    open spec fn survives(value: SessionSettings) -> bool {
        true
    }

    fn from_wire(wire: &wire::SessionSettings) -> (result: Result<SessionSettings, RpcConversionError>) {
        let model = read_inbound_text(&wire.model, MAX_RPC_IDENTIFIER_BYTES, "model")?;
        let reasoning = read_reasoning_level(&wire.reasoning)?;
        Ok(SessionSettings { model, reasoning, context_tokens: wire.context_tokens })
    }

    fn to_wire(value: &SessionSettings) -> (result: Result<wire::SessionSettings, RpcConversionError>) {
        validate_inbound_field_length(
            value.model.as_str().as_bytes().len(),
            MAX_RPC_IDENTIFIER_BYTES,
            "model",
        )?;
        let model = checked_text(&value.model, "model")?;
        Ok(
            wire::SessionSettings {
                model,
                reasoning: Schema::Known(write_reasoning_level(value.reasoning)),
                context_tokens: value.context_tokens,
            },
        )
    }

    proof fn round_trip(value: SessionSettings, wire: wire::SessionSettings) {
        lemma_texts_round_trip();
    }
}

/// Writes durable session settings.
pub fn write_session_settings(value: &SessionSettings) -> (result: Result<wire::SessionSettings, RpcConversionError>)
    ensures
        write_outcome::<SessionSettings>(*value, result),
{
    SessionSettings::to_wire(value)
}

/// Reads durable session settings.
pub fn read_session_settings(reader: &wire::SessionSettings) -> (result: Result<SessionSettings, RpcConversionError>)
    ensures
        read_outcome::<SessionSettings>(*reader, result),
{
    SessionSettings::from_wire(reader)
}

impl Conversion for ModelInfoDto {
    type Wire = wire::ModelInfo;

    open spec fn fault(wire: wire::ModelInfo) -> Option<RpcConversionError> {
        either(
            list_pointer_fault::<ReasoningLevel>(wire.reasoning_efforts),
            either(
                if wire.has_default_reasoning {
                    reasoning_level_fault(wire.default_reasoning)
                } else {
                    None
                },
                either(
                    text_fault(wire.id, "id"),
                    either(
                        text_fault(wire.display_name, "displayName"),
                        text_fault(wire.description, "description"),
                    ),
                ),
            ),
        )
    }

    open spec fn reads(wire: wire::ModelInfo, value: ModelInfoDto) -> bool {
        &&& value.id@ == text_of(wire.id)
        &&& value.display_name@ == text_of(wire.display_name)
        &&& value.description@ == text_of(wire.description)
        &&& list_pointer_reads::<ReasoningLevel>(wire.reasoning_efforts, value.reasoning_efforts@)
        &&& value.default_reasoning == if wire.has_default_reasoning {
            Some(reasoning_level_from_wire(wire.default_reasoning->Known_0))
        } else {
            None
        }
    }

    open spec fn unfit(value: ModelInfoDto) -> Option<RpcConversionError> {
        either(
            text_unfit(value.id@, "id"),
            either(
                text_unfit(value.display_name@, "displayName"),
                either(
                    text_unfit(value.description@, "description"),
                    either(
                        list_unfit(value.reasoning_efforts@.len(), "reasoningEfforts"),
                        items_unfit::<ReasoningLevel>(value.reasoning_efforts@),
                    ),
                ),
            ),
        )
    }

    open spec fn writes(value: ModelInfoDto, wire: wire::ModelInfo) -> bool {
        &&& text_written(wire.id, value.id@)
        &&& text_written(wire.display_name, value.display_name@)
        &&& text_written(wire.description, value.description@)
        &&& list_pointer_writes::<ReasoningLevel>(value.reasoning_efforts@, wire.reasoning_efforts)
        &&& wire.has_default_reasoning == (value.default_reasoning is Some)
        &&& wire.default_reasoning == Schema::Known(
            match value.default_reasoning {
                Some(level) => reasoning_level_on_wire(level),
                None => wire::ReasoningLevel::NoReasoning,
            },
        )
    }

    open spec fn survives(value: ModelInfoDto) -> bool {
        true
    }

    fn from_wire(wire: &wire::ModelInfo) -> (result: Result<ModelInfoDto, RpcConversionError>) {
        let reasoning_efforts = read_list_pointer::<ReasoningLevel>(&wire.reasoning_efforts)?;
        let default_reasoning = if wire.has_default_reasoning {
            Some(read_reasoning_level(&wire.default_reasoning)?)
        } else {
            None
        };
        let id = read_text(&wire.id, "id")?;
        let display_name = read_text(&wire.display_name, "displayName")?;
        let description = read_text(&wire.description, "description")?;
        Ok(ModelInfoDto { id, display_name, description, reasoning_efforts, default_reasoning })
    }

    fn to_wire(value: &ModelInfoDto) -> (result: Result<wire::ModelInfo, RpcConversionError>) {
        let id = checked_text(&value.id, "id")?;
        let display_name = checked_text(&value.display_name, "displayName")?;
        let description = checked_text(&value.description, "description")?;
        validate_wire_list_length(value.reasoning_efforts.len(), "reasoningEfforts")?;
        let efforts = write_list::<ReasoningLevel>(&value.reasoning_efforts)?;
        let default_reasoning = match value.default_reasoning {
            Some(level) => write_reasoning_level(level),
            None => wire::ReasoningLevel::NoReasoning,
        };
        Ok(
            wire::ModelInfo {
                id,
                display_name,
                description,
                reasoning_efforts: Pointer::Value(efforts),
                has_default_reasoning: value.default_reasoning.is_some(),
                default_reasoning: Schema::Known(default_reasoning),
            },
        )
    }

    proof fn round_trip(value: ModelInfoDto, wire: wire::ModelInfo) {
        lemma_texts_round_trip();
        lemma_list_pointer_round_trip::<ReasoningLevel>(
            value.reasoning_efforts@,
            wire.reasoning_efforts,
        );
    }
}

/// Writes a model catalog entry.
pub fn write_model_info(value: &ModelInfoDto) -> (result: Result<wire::ModelInfo, RpcConversionError>)
    ensures
        write_outcome::<ModelInfoDto>(*value, result),
{
    ModelInfoDto::to_wire(value)
}

/// Reads a model catalog entry.
pub fn read_model_info(reader: &wire::ModelInfo) -> (result: Result<ModelInfoDto, RpcConversionError>)
    ensures
        read_outcome::<ModelInfoDto>(*reader, result),
{
    ModelInfoDto::from_wire(reader)
}

impl Conversion for ModelCatalogState {
    type Wire = wire::ModelCatalog;

    open spec fn fault(wire: wire::ModelCatalog) -> Option<RpcConversionError> {
        match wire {
            wire::ModelCatalog::Loading => None,
            wire::ModelCatalog::Ready(models) => list_pointer_fault::<ModelInfoDto>(models),
            wire::ModelCatalog::Failed(message) => text_fault(message, "catalogFailed"),
            wire::ModelCatalog::Unknown(value) => Some(
                RpcConversionError::UnknownUnion { name: "ModelCatalog", value },
            ),
        }
    }

    open spec fn reads(wire: wire::ModelCatalog, value: ModelCatalogState) -> bool {
        match (wire, value) {
            (wire::ModelCatalog::Loading, ModelCatalogState::Loading) => true,
            (wire::ModelCatalog::Ready(list), ModelCatalogState::Ready(models)) => list_pointer_reads::<
                ModelInfoDto,
            >(list, models@),
            (wire::ModelCatalog::Failed(text), ModelCatalogState::Failed(message)) => message@
                == text_of(text),
            _ => false,
        }
    }

    open spec fn unfit(value: ModelCatalogState) -> Option<RpcConversionError> {
        match value {
            ModelCatalogState::Loading => None,
            ModelCatalogState::Ready(models) => struct_items_unfit::<ModelInfoDto>(
                models@,
                wire::MODEL_INFO_WORDS as int,
                "ready",
            ),
            ModelCatalogState::Failed(message) => text_unfit(message@, "catalogFailed"),
        }
    }

    open spec fn writes(value: ModelCatalogState, wire: wire::ModelCatalog) -> bool {
        match (wire, value) {
            (wire::ModelCatalog::Loading, ModelCatalogState::Loading) => true,
            (
                wire::ModelCatalog::Ready(list),
                ModelCatalogState::Ready(models),
            ) => list_pointer_writes::<ModelInfoDto>(models@, list),
            (wire::ModelCatalog::Failed(text), ModelCatalogState::Failed(message)) => text_written(
                text,
                message@,
            ),
            _ => false,
        }
    }

    open spec fn survives(value: ModelCatalogState) -> bool {
        true
    }

    fn from_wire(wire: &wire::ModelCatalog) -> (result: Result<ModelCatalogState, RpcConversionError>) {
        match wire {
            wire::ModelCatalog::Loading => Ok(ModelCatalogState::Loading),
            wire::ModelCatalog::Ready(models) => Ok(
                ModelCatalogState::Ready(read_list_pointer::<ModelInfoDto>(models)?),
            ),
            wire::ModelCatalog::Failed(message) => Ok(
                ModelCatalogState::Failed(read_text(message, "catalogFailed")?),
            ),
            wire::ModelCatalog::Unknown(value) => Err(
                RpcConversionError::UnknownUnion { name: "ModelCatalog", value: *value },
            ),
        }
    }

    fn to_wire(value: &ModelCatalogState) -> (result: Result<wire::ModelCatalog, RpcConversionError>) {
        match value {
            ModelCatalogState::Loading => Ok(wire::ModelCatalog::Loading),
            ModelCatalogState::Ready(models) => Ok(
                wire::ModelCatalog::Ready(
                    write_struct_list::<ModelInfoDto>(models, wire::MODEL_INFO_WORDS, "ready")?,
                ),
            ),
            ModelCatalogState::Failed(message) => Ok(
                wire::ModelCatalog::Failed(checked_text(message, "catalogFailed")?),
            ),
        }
    }

    proof fn round_trip(value: ModelCatalogState, wire: wire::ModelCatalog) {
        lemma_texts_round_trip();
        match (wire, value) {
            (wire::ModelCatalog::Ready(list), ModelCatalogState::Ready(models)) => {
                lemma_list_pointer_round_trip::<ModelInfoDto>(models@, list);
            },
            _ => {},
        }
    }
}

/// Writes the state of the model catalog.
pub fn write_model_catalog(value: &ModelCatalogState) -> (result: Result<wire::ModelCatalog, RpcConversionError>)
    ensures
        write_outcome::<ModelCatalogState>(*value, result),
{
    ModelCatalogState::to_wire(value)
}

/// Reads the state of the model catalog.
pub fn read_model_catalog(reader: &wire::ModelCatalog) -> (result: Result<ModelCatalogState, RpcConversionError>)
    ensures
        read_outcome::<ModelCatalogState>(*reader, result),
{
    ModelCatalogState::from_wire(reader)
}

impl Conversion for DraftDefaults {
    type Wire = wire::DraftDefaults;

    open spec fn fault(wire: wire::DraftDefaults) -> Option<RpcConversionError> {
        either(
            inbound_data_fault(wire.cwd, MAX_RPC_CWD_BYTES as int, "cwd"),
            either(
                pointer_fault::<SessionSettings>(wire.settings),
                pointer_fault::<ModelCatalogState>(wire.catalog),
            ),
        )
    }

    open spec fn reads(wire: wire::DraftDefaults, value: DraftDefaults) -> bool {
        &&& value.cwd@ == data_of(wire.cwd)
        &&& pointer_reads::<SessionSettings>(wire.settings, value.settings)
        &&& pointer_reads::<ModelCatalogState>(wire.catalog, value.catalog)
    }

    open spec fn unfit(value: DraftDefaults) -> Option<RpcConversionError> {
        either(
            data_unfit(value.cwd@, "cwd"),
            either(
                SessionSettings::unfit(value.settings),
                ModelCatalogState::unfit(value.catalog),
            ),
        )
    }

    open spec fn writes(value: DraftDefaults, wire: wire::DraftDefaults) -> bool {
        &&& data_written(wire.cwd, value.cwd@)
        &&& pointer_writes::<SessionSettings>(value.settings, wire.settings)
        &&& pointer_writes::<ModelCatalogState>(value.catalog, wire.catalog)
    }

    open spec fn survives(value: DraftDefaults) -> bool {
        value.cwd@.len() <= MAX_RPC_CWD_BYTES
    }

    fn from_wire(wire: &wire::DraftDefaults) -> (result: Result<DraftDefaults, RpcConversionError>) {
        let cwd = read_inbound_data(&wire.cwd, MAX_RPC_CWD_BYTES, "cwd")?;
        let settings = read_pointer::<SessionSettings>(&wire.settings)?;
        let catalog = read_pointer::<ModelCatalogState>(&wire.catalog)?;
        Ok(DraftDefaults { cwd, settings, catalog })
    }

    fn to_wire(value: &DraftDefaults) -> (result: Result<wire::DraftDefaults, RpcConversionError>) {
        let cwd = checked_data(&value.cwd, "cwd")?;
        let settings = write_pointer::<SessionSettings>(&value.settings)?;
        let catalog = write_pointer::<ModelCatalogState>(&value.catalog)?;
        Ok(wire::DraftDefaults { cwd, settings, catalog })
    }

    proof fn round_trip(value: DraftDefaults, wire: wire::DraftDefaults) {
        lemma_pointer_round_trip::<SessionSettings>(value.settings, wire.settings);
        lemma_pointer_round_trip::<ModelCatalogState>(value.catalog, wire.catalog);
    }
}

/// Writes the defaults of a chat that is not durable yet.
pub fn write_draft_defaults(value: &DraftDefaults) -> (result: Result<wire::DraftDefaults, RpcConversionError>)
    ensures
        write_outcome::<DraftDefaults>(*value, result),
{
    DraftDefaults::to_wire(value)
}

/// Reads the defaults of a chat that is not durable yet.
pub fn read_draft_defaults(reader: &wire::DraftDefaults) -> (result: Result<DraftDefaults, RpcConversionError>)
    ensures
        read_outcome::<DraftDefaults>(*reader, result),
{
    DraftDefaults::from_wire(reader)
}

impl Conversion for SessionSummary {
    type Wire = wire::SessionSummary;

    open spec fn fault(wire: wire::SessionSummary) -> Option<RpcConversionError> {
        either(
            text_fault(wire.id, "id"),
            either(
                session_id_fault(text_of(wire.id)),
                either(
                    text_fault(wire.title, "title"),
                    either(
                        title_fault(text_of(wire.title)),
                        either(
                            inbound_data_fault(wire.cwd, MAX_RPC_CWD_BYTES as int, "cwd"),
                            either(
                                text_fault(wire.cwd_display, "cwdDisplay"),
                                timestamp_fault(wire.last_activity, "lastActivity"),
                            ),
                        ),
                    ),
                ),
            ),
        )
    }

    open spec fn reads(wire: wire::SessionSummary, value: SessionSummary) -> bool {
        &&& session_id_of(text_of(wire.id)) == Some(value.id)
        &&& title_reads(text_of(wire.title), value.title)
        &&& value.title_revision == wire.title_revision
        &&& value.cwd@ == data_of(wire.cwd)
        &&& value.cwd_display@ == text_of(wire.cwd_display)
        &&& value.running_jobs == wire.running_jobs
        &&& value.running == wire.running
        &&& value.busy == wire.busy
        &&& value.attached_clients == wire.attached_clients
        &&& timestamp_reads(wire.last_activity, value.last_activity)
    }

    open spec fn unfit(value: SessionSummary) -> Option<RpcConversionError> {
        either(
            text_unfit(session_id_text(value.id), "id"),
            either(
                text_unfit(value.title.value@, "title"),
                either(
                    data_unfit(value.cwd@, "cwd"),
                    either(
                        text_unfit(value.cwd_display@, "cwdDisplay"),
                        timestamp_unfit(value.last_activity, "lastActivity"),
                    ),
                ),
            ),
        )
    }

    open spec fn writes(value: SessionSummary, wire: wire::SessionSummary) -> bool {
        &&& text_written(wire.id, session_id_text(value.id))
        &&& text_written(wire.title, value.title.value@)
        &&& wire.title_revision == value.title_revision
        &&& data_written(wire.cwd, value.cwd@)
        &&& text_written(wire.cwd_display, value.cwd_display@)
        &&& wire.running_jobs == value.running_jobs
        &&& wire.running == value.running
        &&& wire.busy == value.busy
        &&& wire.attached_clients == value.attached_clients
        &&& timestamp_written(wire.last_activity, value.last_activity)
    }

    open spec fn survives(value: SessionSummary) -> bool {
        &&& value.title.valid()
        &&& value.cwd@.len() <= MAX_RPC_CWD_BYTES
        &&& timestamp_survives(value.last_activity)
    }

    fn from_wire(wire: &wire::SessionSummary) -> (result: Result<SessionSummary, RpcConversionError>) {
        let id_text = read_text(&wire.id, "id")?;
        let id = parse_id(&id_text)?;
        let title_text = read_text(&wire.title, "title")?;
        let title = parse_title(&title_text)?;
        let cwd = read_inbound_data(&wire.cwd, MAX_RPC_CWD_BYTES, "cwd")?;
        let cwd_display = read_text(&wire.cwd_display, "cwdDisplay")?;
        let last_activity = read_timestamp(&wire.last_activity, "lastActivity")?;
        Ok(
            SessionSummary {
                id,
                title,
                title_revision: wire.title_revision,
                cwd,
                cwd_display,
                running_jobs: wire.running_jobs,
                running: wire.running,
                busy: wire.busy,
                attached_clients: wire.attached_clients,
                last_activity,
            },
        )
    }

    fn to_wire(value: &SessionSummary) -> (result: Result<wire::SessionSummary, RpcConversionError>) {
        let id_text = value.id.text();
        let id = checked_text(&id_text, "id")?;
        let title = checked_text(value.title.as_str(), "title")?;
        let cwd = checked_data(&value.cwd, "cwd")?;
        let cwd_display = checked_text(&value.cwd_display, "cwdDisplay")?;
        let last_activity = write_timestamp(value.last_activity, "lastActivity")?;
        Ok(
            wire::SessionSummary {
                id,
                title,
                cwd,
                cwd_display,
                title_revision: value.title_revision,
                busy: value.busy,
                attached_clients: value.attached_clients,
                last_activity,
                running: value.running,
                running_jobs: value.running_jobs,
            },
        )
    }

    proof fn round_trip(value: SessionSummary, wire: wire::SessionSummary) {
        lemma_texts_round_trip();
        lemma_session_id_text_is_read_back(value.id);
    }
}

/// Writes list-facing session state.
pub fn write_session_summary(value: &SessionSummary) -> (result: Result<wire::SessionSummary, RpcConversionError>)
    ensures
        write_outcome::<SessionSummary>(*value, result),
{
    SessionSummary::to_wire(value)
}

/// Reads list-facing session state.
pub fn read_session_summary(reader: &wire::SessionSummary) -> (result: Result<SessionSummary, RpcConversionError>)
    ensures
        read_outcome::<SessionSummary>(*reader, result),
{
    SessionSummary::from_wire(reader)
}

/// The wire value of a failure category.
pub open spec fn failure_kind_on_wire(kind: RunFailureKind) -> wire::RunFailureKind {
    match kind {
        RunFailureKind::Authentication => wire::RunFailureKind::Authentication,
        RunFailureKind::Transport => wire::RunFailureKind::Transport,
        RunFailureKind::HttpRejected { .. } => wire::RunFailureKind::HttpRejected,
        RunFailureKind::Protocol => wire::RunFailureKind::Protocol,
        RunFailureKind::EmptyResponse => wire::RunFailureKind::EmptyResponse,
        RunFailureKind::BudgetExhausted => wire::RunFailureKind::BudgetExhausted,
        RunFailureKind::RuntimeInfrastructure => wire::RunFailureKind::RuntimeInfrastructure,
        RunFailureKind::ToolInfrastructure => wire::RunFailureKind::ToolInfrastructure,
    }
}

/// The HTTP status of a failure category.
pub open spec fn http_status_of(kind: RunFailureKind) -> Option<u16> {
    match kind {
        RunFailureKind::HttpRejected { status } => Some(status),
        _ => None,
    }
}

fn wire_failure_kind(kind: RunFailureKind) -> (wire: (wire::RunFailureKind, Option<u16>))
    ensures
        wire == (failure_kind_on_wire(kind), http_status_of(kind)),
{
    match kind {
        RunFailureKind::Authentication => (wire::RunFailureKind::Authentication, None),
        RunFailureKind::Transport => (wire::RunFailureKind::Transport, None),
        RunFailureKind::HttpRejected { status } => {
            (wire::RunFailureKind::HttpRejected, Some(status))
        },
        RunFailureKind::Protocol => (wire::RunFailureKind::Protocol, None),
        RunFailureKind::EmptyResponse => (wire::RunFailureKind::EmptyResponse, None),
        RunFailureKind::BudgetExhausted => (wire::RunFailureKind::BudgetExhausted, None),
        RunFailureKind::RuntimeInfrastructure => {
            (wire::RunFailureKind::RuntimeInfrastructure, None)
        },
        RunFailureKind::ToolInfrastructure => (wire::RunFailureKind::ToolInfrastructure, None),
    }
}

/// What is wrong with a failure category in a message: it has an HTTP status exactly where the
/// provider answered with one.
pub open spec fn failure_kind_fault(wire: wire::RunFailure) -> Option<RpcConversionError> {
    match wire.kind {
        Schema::Unknown(value) => Some(
            RpcConversionError::UnknownEnum { name: "RunFailureKind", value },
        ),
        Schema::Known(kind) => if wire.has_http_status == (kind
            == wire::RunFailureKind::HttpRejected) {
            None
        } else {
            Some(RpcConversionError::InvalidHttpStatusGuard)
        },
    }
}

fn read_failure_kind(wire: &wire::RunFailure) -> (result: Result<
    RunFailureKind,
    RpcConversionError,
>)
    ensures
        match result {
            Ok(kind) => failure_kind_fault(*wire) is None && wire.kind == Schema::Known(
                failure_kind_on_wire(kind),
            ) && http_status_of(kind) == if wire.has_http_status {
                Some(wire.http_status)
            } else {
                None
            },
            Err(error) => failure_kind_fault(*wire) == Some(error),
        },
{
    match &wire.kind {
        Schema::Unknown(value) => Err(
            RpcConversionError::UnknownEnum { name: "RunFailureKind", value: *value },
        ),
        Schema::Known(kind) => {
            if wire.has_http_status != (*kind == wire::RunFailureKind::HttpRejected) {
                return Err(RpcConversionError::InvalidHttpStatusGuard);
            }
            Ok(match kind {
                wire::RunFailureKind::Authentication => RunFailureKind::Authentication,
                wire::RunFailureKind::Transport => RunFailureKind::Transport,
                wire::RunFailureKind::HttpRejected => {
                    RunFailureKind::HttpRejected { status: wire.http_status }
                },
                wire::RunFailureKind::Protocol => RunFailureKind::Protocol,
                wire::RunFailureKind::EmptyResponse => RunFailureKind::EmptyResponse,
                wire::RunFailureKind::BudgetExhausted => RunFailureKind::BudgetExhausted,
                wire::RunFailureKind::RuntimeInfrastructure => {
                    RunFailureKind::RuntimeInfrastructure
                },
                wire::RunFailureKind::ToolInfrastructure => RunFailureKind::ToolInfrastructure,
            })
        },
    }
}

impl Conversion for RunFailureSnapshot {
    type Wire = wire::RunFailure;

    open spec fn fault(wire: wire::RunFailure) -> Option<RpcConversionError> {
        either(
            failure_kind_fault(wire),
            either(
                run_stage_fault(wire.stage),
                text_fault(wire.message, "message"),
            ),
        )
    }

    open spec fn reads(wire: wire::RunFailure, value: RunFailureSnapshot) -> bool {
        &&& value.stage == run_stage_from_wire(wire.stage->Known_0)
        &&& wire.kind == Schema::Known(failure_kind_on_wire(value.kind))
        &&& http_status_of(value.kind) == if wire.has_http_status {
            Some(wire.http_status)
        } else {
            None
        }
        &&& value.retryable == wire.retryable
        &&& value.message@ == text_of(wire.message)
    }

    open spec fn unfit(value: RunFailureSnapshot) -> Option<RpcConversionError> {
        text_unfit(value.message@, "message")
    }

    open spec fn writes(value: RunFailureSnapshot, wire: wire::RunFailure) -> bool {
        &&& wire.stage == Schema::Known(run_stage_on_wire(value.stage))
        &&& wire.kind == Schema::Known(failure_kind_on_wire(value.kind))
        &&& wire.has_http_status == (http_status_of(value.kind) is Some)
        &&& wire.http_status == match http_status_of(value.kind) {
            Some(status) => status,
            None => 0,
        }
        &&& wire.retryable == value.retryable
        &&& text_written(wire.message, value.message@)
    }

    open spec fn survives(value: RunFailureSnapshot) -> bool {
        true
    }

    fn from_wire(wire: &wire::RunFailure) -> (result: Result<RunFailureSnapshot, RpcConversionError>) {
        let kind = read_failure_kind(wire)?;
        let stage = domain_run_stage(&wire.stage)?;
        let message = read_text(&wire.message, "message")?;
        Ok(RunFailureSnapshot { stage, kind, retryable: wire.retryable, message })
    }

    fn to_wire(value: &RunFailureSnapshot) -> (result: Result<wire::RunFailure, RpcConversionError>) {
        let (kind, status) = wire_failure_kind(value.kind);
        let message = checked_text(&value.message, "message")?;
        Ok(
            wire::RunFailure {
                stage: Schema::Known(wire_run_stage(value.stage)),
                kind: Schema::Known(kind),
                has_http_status: status.is_some(),
                http_status: match status {
                    Some(status) => status,
                    None => 0,
                },
                retryable: value.retryable,
                message,
            },
        )
    }

    proof fn round_trip(value: RunFailureSnapshot, wire: wire::RunFailure) {
        lemma_texts_round_trip();
    }
}

/// Writes a transport-safe run failure and its guarded HTTP status.
pub fn write_run_failure(value: &RunFailureSnapshot) -> (result: Result<wire::RunFailure, RpcConversionError>)
    ensures
        write_outcome::<RunFailureSnapshot>(*value, result),
{
    RunFailureSnapshot::to_wire(value)
}

/// Reads a transport-safe run failure and its guarded HTTP status.
pub fn read_run_failure(reader: &wire::RunFailure) -> (result: Result<RunFailureSnapshot, RpcConversionError>)
    ensures
        read_outcome::<RunFailureSnapshot>(*reader, result),
{
    RunFailureSnapshot::from_wire(reader)
}

impl Conversion for PlanItem {
    type Wire = wire::PlanItem;

    open spec fn fault(wire: wire::PlanItem) -> Option<RpcConversionError> {
        either(
            text_fault(wire.step, "plan.step"),
            either(
                plan_status_fault(wire.status),
                if is_label(text_of(wire.step), MAX_STEP_CHARACTERS as int) {
                    None
                } else {
                    Some(RpcConversionError::InvalidPlanItem)
                },
            ),
        )
    }

    open spec fn reads(wire: wire::PlanItem, value: PlanItem) -> bool {
        &&& is_label(text_of(wire.step), MAX_STEP_CHARACTERS as int)
        &&& value.step@ == text_of(wire.step)
        &&& value.status == plan_status_from_wire(wire.status->Known_0)
    }

    open spec fn unfit(value: PlanItem) -> Option<RpcConversionError> {
        text_unfit(value.step@, "plan.step")
    }

    open spec fn writes(value: PlanItem, wire: wire::PlanItem) -> bool {
        &&& text_written(wire.step, value.step@)
        &&& wire.status == Schema::Known(plan_status_on_wire(value.status))
    }

    open spec fn survives(value: PlanItem) -> bool {
        value.valid()
    }

    fn from_wire(wire: &wire::PlanItem) -> (result: Result<PlanItem, RpcConversionError>) {
        let step = read_text(&wire.step, "plan.step")?;
        let status = read_plan_status(&wire.status)?;
        match PlanItem::parse(&step, status) {
            Ok(item) => Ok(item),
            Err(_) => Err(RpcConversionError::InvalidPlanItem),
        }
    }

    fn to_wire(value: &PlanItem) -> (result: Result<wire::PlanItem, RpcConversionError>) {
        let step = checked_text(value.step(), "plan.step")?;
        Ok(wire::PlanItem { step, status: Schema::Known(write_plan_status(value.status())) })
    }

    proof fn round_trip(value: PlanItem, wire: wire::PlanItem) {
        lemma_texts_round_trip();
    }
}

impl Conversion for JobSnapshotDto {
    type Wire = wire::JobSnapshot;

    open spec fn fault(wire: wire::JobSnapshot) -> Option<RpcConversionError> {
        either(
            text_fault(wire.completed_at, "completedAt"),
            either(
                if text_of(wire.completed_at).len() == 0 {
                    None
                } else {
                    timestamp_fault(wire.completed_at, "completedAt")
                },
                either(
                    text_fault(wire.id, "id"),
                    either(
                        job_kind_fault(wire.kind),
                        either(
                            job_state_fault(wire.state),
                            either(
                                text_fault(wire.title, "title"),
                                either(
                                    timestamp_fault(wire.started_at, "startedAt"),
                                    text_fault(wire.details, "details"),
                                ),
                            ),
                        ),
                    ),
                ),
            ),
        )
    }

    open spec fn reads(wire: wire::JobSnapshot, value: JobSnapshotDto) -> bool {
        &&& value.id@ == text_of(wire.id)
        &&& value.kind == job_kind_from_wire(wire.kind->Known_0)
        &&& value.state == job_state_from_wire(wire.state->Known_0)
        &&& value.title@ == text_of(wire.title)
        &&& timestamp_reads(wire.started_at, value.started_at)
        &&& match value.completed_at {
            Some(instant) => text_of(wire.completed_at).len() > 0 && timestamp_reads(
                wire.completed_at,
                instant,
            ),
            None => text_of(wire.completed_at).len() == 0,
        }
        &&& value.details@ == text_of(wire.details)
    }

    open spec fn unfit(value: JobSnapshotDto) -> Option<RpcConversionError> {
        either(
            text_unfit(value.id@, "id"),
            either(
                text_unfit(value.title@, "title"),
                either(
                    timestamp_unfit(value.started_at, "startedAt"),
                    either(
                        match value.completed_at {
                            Some(instant) => timestamp_unfit(instant, "completedAt"),
                            None => None,
                        },
                        text_unfit(value.details@, "details"),
                    ),
                ),
            ),
        )
    }

    open spec fn writes(value: JobSnapshotDto, wire: wire::JobSnapshot) -> bool {
        &&& text_written(wire.id, value.id@)
        &&& wire.kind == Schema::Known(job_kind_on_wire(value.kind))
        &&& wire.state == Schema::Known(job_state_on_wire(value.state))
        &&& text_written(wire.title, value.title@)
        &&& timestamp_written(wire.started_at, value.started_at)
        &&& match value.completed_at {
            Some(instant) => timestamp_written(wire.completed_at, instant),
            None => text_written(wire.completed_at, Seq::empty()),
        }
        &&& text_written(wire.details, value.details@)
    }

    open spec fn survives(value: JobSnapshotDto) -> bool {
        &&& timestamp_survives(value.started_at)
        &&& match value.completed_at {
            Some(instant) => timestamp_survives(instant),
            None => true,
        }
    }

    fn from_wire(wire: &wire::JobSnapshot) -> (result: Result<JobSnapshotDto, RpcConversionError>) {
        let completed_text = read_text(&wire.completed_at, "completedAt")?;
        let completed_at = if completed_text.as_str().is_empty() {
            None
        } else {
            Some(read_timestamp(&wire.completed_at, "completedAt")?)
        };
        let id = read_text(&wire.id, "id")?;
        let kind = domain_job_kind(&wire.kind)?;
        let state = domain_job_state(&wire.state)?;
        let title = read_text(&wire.title, "title")?;
        let started_at = read_timestamp(&wire.started_at, "startedAt")?;
        let details = read_text(&wire.details, "details")?;
        Ok(JobSnapshotDto { id, kind, state, title, started_at, completed_at, details })
    }

    fn to_wire(value: &JobSnapshotDto) -> (result: Result<wire::JobSnapshot, RpcConversionError>) {
        let id = checked_text(&value.id, "id")?;
        let title = checked_text(&value.title, "title")?;
        let started_at = write_timestamp(value.started_at, "startedAt")?;
        let completed_at = match value.completed_at {
            Some(instant) => write_timestamp(instant, "completedAt")?,
            None => {
                proof {
                    reveal(encode_utf8);
                    assert(encode_utf8(Seq::<char>::empty()) =~= Seq::<u8>::empty());
                }
                Pointer::Value(Vec::new())
            },
        };
        let details = checked_text(&value.details, "details")?;
        Ok(
            wire::JobSnapshot {
                id,
                kind: Schema::Known(wire_job_kind(value.kind)),
                state: Schema::Known(wire_job_state(value.state)),
                title,
                started_at,
                completed_at,
                details,
            },
        )
    }

    proof fn round_trip(value: JobSnapshotDto, wire: wire::JobSnapshot) {
        lemma_texts_round_trip();
    }
}

/// Writes a transport-safe job snapshot.
pub fn write_job_snapshot(value: &JobSnapshotDto) -> (result: Result<wire::JobSnapshot, RpcConversionError>)
    ensures
        write_outcome::<JobSnapshotDto>(*value, result),
{
    JobSnapshotDto::to_wire(value)
}

/// Reads a transport-safe job snapshot.
pub fn read_job_snapshot(reader: &wire::JobSnapshot) -> (result: Result<JobSnapshotDto, RpcConversionError>)
    ensures
        read_outcome::<JobSnapshotDto>(*reader, result),
{
    JobSnapshotDto::from_wire(reader)
}

/// What is wrong with a started tool call in a message.
pub open spec fn tool_started_fault(wire: wire::ToolStartedRecord) -> Option<RpcConversionError> {
    either(
        text_fault(wire.arguments_json, "argumentsJson"),
        either(
            if json_compact(text_of(wire.arguments_json)) is Some {
                None
            } else {
                Some(RpcConversionError::InvalidToolArguments)
            },
            either(text_fault(wire.call_id, "callId"), text_fault(wire.name, "name")),
        ),
    )
}

/// What keeps a started tool call from being written.
pub open spec fn tool_started_unfit(
    call_id: Seq<char>,
    name: Seq<char>,
    arguments: Seq<char>,
) -> Option<RpcConversionError> {
    match json_compact(arguments) {
        None => Some(RpcConversionError::InvalidToolArguments),
        Some(compact) => either(
            text_unfit(call_id, "callId"),
            either(text_unfit(name, "name"), text_unfit(compact, "argumentsJson")),
        ),
    }
}

/// A started tool call as it is read.
#[derive(Debug)]
pub struct ToolCall {
    pub run_id: u64,
    pub call_id: String,
    pub name: String,
    pub arguments: String,
}

/// A record that is read as a tool call.
pub open spec fn tool_started_reads(
    wire: wire::ToolStartedRecord,
    run_id: u64,
    call_id: Seq<char>,
    name: Seq<char>,
    arguments: Seq<char>,
) -> bool {
    &&& run_id == wire.run_id
    &&& call_id == text_of(wire.call_id)
    &&& name == text_of(wire.name)
    &&& json_compact(text_of(wire.arguments_json)) == Some(arguments)
}

/// A record that holds a tool call.
pub open spec fn tool_started_writes(
    wire: wire::ToolStartedRecord,
    run_id: u64,
    call_id: Seq<char>,
    name: Seq<char>,
    arguments: Seq<char>,
) -> bool {
    &&& wire.run_id == run_id
    &&& text_written(wire.call_id, call_id)
    &&& text_written(wire.name, name)
    &&& json_compact(arguments) is Some
    &&& text_written(wire.arguments_json, json_compact(arguments)->0)
}

fn write_tool_started(run_id: u64, call_id: &str, name: &str, arguments: &str) -> (result: Result<
    Pointer<wire::ToolStartedRecord>,
    RpcConversionError,
>)
    ensures
        match result {
            Ok(pointer) => tool_started_unfit(call_id@, name@, arguments@) is None && pointer is Value
                && tool_started_writes(pointer->Value_0, run_id, call_id@, name@, arguments@),
            Err(error) => tool_started_unfit(call_id@, name@, arguments@) == Some(error),
        },
{
    match compact_json(arguments) {
        None => Err(RpcConversionError::InvalidToolArguments),
        Some(compact) => {
            let call_id = checked_text(call_id, "callId")?;
            let name = checked_text(name, "name")?;
            let arguments_json = checked_text(&compact, "argumentsJson")?;
            Ok(Pointer::Value(wire::ToolStartedRecord { run_id, call_id, name, arguments_json }))
        },
    }
}

/// What is wrong with a pointer to a started tool call.
pub open spec fn tool_pointer_fault(pointer: Pointer<wire::ToolStartedRecord>) -> Option<
    RpcConversionError,
> {
    match pointer {
        Pointer::Unreadable(fault) => Some(RpcConversionError::Capnp(fault)),
        Pointer::Value(wire) => tool_started_fault(wire),
    }
}

fn read_tool_started(pointer: &Pointer<wire::ToolStartedRecord>) -> (result: Result<
    ToolCall,
    RpcConversionError,
>)
    ensures
        match result {
            Ok(call) => tool_pointer_fault(*pointer) is None && pointer is Value
                && tool_started_reads(
                pointer->Value_0,
                call.run_id,
                call.call_id@,
                call.name@,
                call.arguments@,
            ),
            Err(error) => tool_pointer_fault(*pointer) == Some(error),
        },
{
    match pointer {
        Pointer::Unreadable(fault) => Err(RpcConversionError::Capnp(fault.duplicate())),
        Pointer::Value(wire) => {
            let text = read_text(&wire.arguments_json, "argumentsJson")?;
            match compact_json(&text) {
                None => Err(RpcConversionError::InvalidToolArguments),
                Some(arguments) => {
                    let call_id = read_text(&wire.call_id, "callId")?;
                    let name = read_text(&wire.name, "name")?;
                    Ok(ToolCall { run_id: wire.run_id, call_id, name, arguments })
                },
            }
        },
    }
}

/// What is wrong with a pointer to a failed run.
pub open spec fn failed_pointer_fault(pointer: Pointer<wire::FailedRecord>) -> Option<
    RpcConversionError,
> {
    match pointer {
        Pointer::Unreadable(fault) => Some(RpcConversionError::Capnp(fault)),
        Pointer::Value(wire) => pointer_fault::<RunFailureSnapshot>(wire.failure),
    }
}

/// A pointer that is read as a failed run.
pub open spec fn failed_pointer_reads(
    pointer: Pointer<wire::FailedRecord>,
    run_id: u64,
    failure: RunFailureSnapshot,
) -> bool {
    &&& pointer is Value
    &&& run_id == pointer->Value_0.run_id
    &&& pointer_reads::<RunFailureSnapshot>(pointer->Value_0.failure, failure)
}

/// A pointer to a written failed run.
pub open spec fn failed_pointer_writes(
    pointer: Pointer<wire::FailedRecord>,
    run_id: u64,
    failure: RunFailureSnapshot,
) -> bool {
    &&& pointer is Value
    &&& pointer->Value_0.run_id == run_id
    &&& pointer_writes::<RunFailureSnapshot>(failure, pointer->Value_0.failure)
}

fn read_failed(pointer: &Pointer<wire::FailedRecord>) -> (result: Result<
    (u64, RunFailureSnapshot),
    RpcConversionError,
>)
    ensures
        match result {
            Ok((run_id, failure)) => failed_pointer_fault(*pointer) is None
                && failed_pointer_reads(*pointer, run_id, failure),
            Err(error) => failed_pointer_fault(*pointer) == Some(error),
        },
{
    match pointer {
        Pointer::Unreadable(fault) => Err(RpcConversionError::Capnp(fault.duplicate())),
        Pointer::Value(wire) => {
            let failure = read_pointer::<RunFailureSnapshot>(&wire.failure)?;
            Ok((wire.run_id, failure))
        },
    }
}

fn write_failed(run_id: u64, failure: &RunFailureSnapshot) -> (result: Result<
    Pointer<wire::FailedRecord>,
    RpcConversionError,
>)
    ensures
        match result {
            Ok(pointer) => RunFailureSnapshot::unfit(*failure) is None && failed_pointer_writes(
                pointer,
                run_id,
                *failure,
            ),
            Err(error) => RunFailureSnapshot::unfit(*failure) == Some(error),
        },
{
    let failure = write_pointer::<RunFailureSnapshot>(failure)?;
    Ok(Pointer::Value(wire::FailedRecord { run_id, failure }))
}

/// Tool arguments that are compact JSON already, and that serde_json reads back unchanged.
pub open spec fn arguments_survive(arguments: Seq<char>) -> bool {
    json_compact(arguments) == Some(arguments)
}

impl Conversion for TranscriptItem {
    type Wire = wire::TranscriptItem;

    open spec fn fault(wire: wire::TranscriptItem) -> Option<RpcConversionError> {
        match wire {
            wire::TranscriptItem::User(text) => text_fault(text, "user"),
            wire::TranscriptItem::Assistant(text) => text_fault(text, "assistant"),
            wire::TranscriptItem::ToolStarted(tool) => tool_pointer_fault(tool),
            wire::TranscriptItem::Failed(failed) => failed_pointer_fault(failed),
            wire::TranscriptItem::CancelledRunId(_) => None,
            wire::TranscriptItem::Unknown(value) => Some(
                RpcConversionError::UnknownUnion { name: "TranscriptItem", value },
            ),
        }
    }

    open spec fn reads(wire: wire::TranscriptItem, value: TranscriptItem) -> bool {
        match (wire, value) {
            (wire::TranscriptItem::User(text), TranscriptItem::User(value)) => value@ == text_of(text),
            (wire::TranscriptItem::Assistant(text), TranscriptItem::Assistant(value)) => value@
                == text_of(text),
            (
                wire::TranscriptItem::ToolStarted(tool),
                TranscriptItem::ToolStarted { run_id, call_id, name, arguments },
            ) => tool is Value && tool_started_reads(
                tool->Value_0,
                run_id,
                call_id@,
                name@,
                arguments@,
            ),
            (
                wire::TranscriptItem::Failed(failed),
                TranscriptItem::Failed { run_id, failure },
            ) => failed_pointer_reads(failed, run_id, failure),
            (
                wire::TranscriptItem::CancelledRunId(id),
                TranscriptItem::Cancelled { run_id },
            ) => run_id == id,
            _ => false,
        }
    }

    open spec fn unfit(value: TranscriptItem) -> Option<RpcConversionError> {
        match value {
            TranscriptItem::User(text) => text_unfit(text@, "user"),
            TranscriptItem::Assistant(text) => text_unfit(text@, "assistant"),
            TranscriptItem::ToolStarted { call_id, name, arguments, .. } => tool_started_unfit(
                call_id@,
                name@,
                arguments@,
            ),
            TranscriptItem::Failed { failure, .. } => RunFailureSnapshot::unfit(failure),
            TranscriptItem::Cancelled { .. } => None,
        }
    }

    open spec fn writes(value: TranscriptItem, wire: wire::TranscriptItem) -> bool {
        match (wire, value) {
            (wire::TranscriptItem::User(text), TranscriptItem::User(value)) => text_written(
                text,
                value@,
            ),
            (wire::TranscriptItem::Assistant(text), TranscriptItem::Assistant(value)) => text_written(
                text,
                value@,
            ),
            (
                wire::TranscriptItem::ToolStarted(tool),
                TranscriptItem::ToolStarted { run_id, call_id, name, arguments },
            ) => tool is Value && tool_started_writes(
                tool->Value_0,
                run_id,
                call_id@,
                name@,
                arguments@,
            ),
            (
                wire::TranscriptItem::Failed(failed),
                TranscriptItem::Failed { run_id, failure },
            ) => failed_pointer_writes(failed, run_id, failure),
            (
                wire::TranscriptItem::CancelledRunId(id),
                TranscriptItem::Cancelled { run_id },
            ) => run_id == id,
            _ => false,
        }
    }

    open spec fn survives(value: TranscriptItem) -> bool {
        match value {
            TranscriptItem::ToolStarted { arguments, .. } => arguments_survive(arguments@),
            _ => true,
        }
    }

    fn from_wire(wire: &wire::TranscriptItem) -> (result: Result<TranscriptItem, RpcConversionError>) {
        match wire {
            wire::TranscriptItem::User(text) => Ok(TranscriptItem::User(read_text(text, "user")?)),
            wire::TranscriptItem::Assistant(text) => Ok(
                TranscriptItem::Assistant(read_text(text, "assistant")?),
            ),
            wire::TranscriptItem::ToolStarted(tool) => {
                let call = read_tool_started(tool)?;
                Ok(
                    TranscriptItem::ToolStarted {
                        run_id: call.run_id,
                        call_id: call.call_id,
                        name: call.name,
                        arguments: call.arguments,
                    },
                )
            },
            wire::TranscriptItem::Failed(failed) => {
                let (run_id, failure) = read_failed(failed)?;
                Ok(TranscriptItem::Failed { run_id, failure })
            },
            wire::TranscriptItem::CancelledRunId(run_id) => Ok(
                TranscriptItem::Cancelled { run_id: *run_id },
            ),
            wire::TranscriptItem::Unknown(value) => Err(
                RpcConversionError::UnknownUnion { name: "TranscriptItem", value: *value },
            ),
        }
    }

    fn to_wire(value: &TranscriptItem) -> (result: Result<wire::TranscriptItem, RpcConversionError>) {
        match value {
            TranscriptItem::User(text) => Ok(wire::TranscriptItem::User(checked_text(text, "user")?)),
            TranscriptItem::Assistant(text) => Ok(
                wire::TranscriptItem::Assistant(checked_text(text, "assistant")?),
            ),
            TranscriptItem::ToolStarted { run_id, call_id, name, arguments } => Ok(
                wire::TranscriptItem::ToolStarted(
                    write_tool_started(*run_id, call_id, name, arguments)?,
                ),
            ),
            TranscriptItem::Failed { run_id, failure } => Ok(
                wire::TranscriptItem::Failed(write_failed(*run_id, failure)?),
            ),
            TranscriptItem::Cancelled { run_id } => Ok(wire::TranscriptItem::CancelledRunId(*run_id)),
        }
    }

    proof fn round_trip(value: TranscriptItem, wire: wire::TranscriptItem) {
        lemma_texts_round_trip();
        match (wire, value) {
            (wire::TranscriptItem::Failed(failed), TranscriptItem::Failed { failure, .. }) => {
                lemma_pointer_round_trip::<RunFailureSnapshot>(failure, failed->Value_0.failure);
            },
            _ => {},
        }
    }
}

/// Writes one transcript item.
pub fn write_transcript_item(value: &TranscriptItem) -> (result: Result<wire::TranscriptItem, RpcConversionError>)
    ensures
        write_outcome::<TranscriptItem>(*value, result),
{
    TranscriptItem::to_wire(value)
}

/// Reads one transcript item.
pub fn read_transcript_item(reader: &wire::TranscriptItem) -> (result: Result<TranscriptItem, RpcConversionError>)
    ensures
        read_outcome::<TranscriptItem>(*reader, result),
{
    TranscriptItem::from_wire(reader)
}

impl Conversion for ActiveRunSnapshot {
    type Wire = wire::ActiveRun;

    open spec fn fault(wire: wire::ActiveRun) -> Option<RpcConversionError> {
        either(
            text_fault(wire.prompt, "prompt"),
            text_fault(wire.assistant_text, "assistantText"),
        )
    }

    open spec fn reads(wire: wire::ActiveRun, value: ActiveRunSnapshot) -> bool {
        &&& value.run_id == wire.run_id
        &&& value.prompt@ == text_of(wire.prompt)
        &&& value.assistant_text@ == text_of(wire.assistant_text)
    }

    open spec fn unfit(value: ActiveRunSnapshot) -> Option<RpcConversionError> {
        either(
            text_unfit(value.prompt@, "prompt"),
            text_unfit(value.assistant_text@, "assistantText"),
        )
    }

    open spec fn writes(value: ActiveRunSnapshot, wire: wire::ActiveRun) -> bool {
        &&& wire.run_id == value.run_id
        &&& text_written(wire.prompt, value.prompt@)
        &&& text_written(wire.assistant_text, value.assistant_text@)
    }

    open spec fn survives(value: ActiveRunSnapshot) -> bool {
        true
    }

    fn from_wire(wire: &wire::ActiveRun) -> (result: Result<ActiveRunSnapshot, RpcConversionError>) {
        let prompt = read_text(&wire.prompt, "prompt")?;
        let assistant_text = read_text(&wire.assistant_text, "assistantText")?;
        Ok(ActiveRunSnapshot { run_id: wire.run_id, prompt, assistant_text })
    }

    fn to_wire(value: &ActiveRunSnapshot) -> (result: Result<wire::ActiveRun, RpcConversionError>) {
        let prompt = checked_text(&value.prompt, "prompt")?;
        let assistant_text = checked_text(&value.assistant_text, "assistantText")?;
        Ok(wire::ActiveRun { run_id: value.run_id, prompt, assistant_text })
    }

    proof fn round_trip(value: ActiveRunSnapshot, wire: wire::ActiveRun) {
        lemma_texts_round_trip();
    }
}

/// Writes the run in progress.
pub fn write_active_run(value: &ActiveRunSnapshot) -> (result: Result<wire::ActiveRun, RpcConversionError>)
    ensures
        write_outcome::<ActiveRunSnapshot>(*value, result),
{
    ActiveRunSnapshot::to_wire(value)
}

/// Reads the run in progress.
pub fn read_active_run(reader: &wire::ActiveRun) -> (result: Result<ActiveRunSnapshot, RpcConversionError>)
    ensures
        read_outcome::<ActiveRunSnapshot>(*reader, result),
{
    ActiveRunSnapshot::from_wire(reader)
}

/// The text of an optional warning: empty where there is none.
pub open spec fn warning_text(warning: Option<String>) -> Seq<char> {
    match warning {
        Some(text) => text@,
        None => Seq::empty(),
    }
}

/// A warning field that is read as an optional warning.
pub open spec fn warning_reads(text: Seq<char>, warning: Option<String>) -> bool {
    match warning {
        Some(warning) => text.len() > 0 && warning@ == text,
        None => text.len() == 0,
    }
}

fn write_warning(warning: &Option<String>) -> (result: Result<Text, RpcConversionError>)
    ensures
        match result {
            Ok(text) => text_unfit(warning_text(*warning), "persistenceWarning") is None
                && text_written(text, warning_text(*warning)),
            Err(error) => text_unfit(warning_text(*warning), "persistenceWarning") == Some(error),
        },
{
    match warning {
        Some(warning) => checked_text(warning, "persistenceWarning"),
        None => {
            let empty = String::new();
            checked_text(&empty, "persistenceWarning")
        },
    }
}

fn read_warning(text: &Text) -> (result: Result<Option<String>, RpcConversionError>)
    ensures
        match result {
            Ok(warning) => text_fault(*text, "persistenceWarning") is None && warning_reads(
                text_of(*text),
                warning,
            ),
            Err(error) => text_fault(*text, "persistenceWarning") == Some(error),
        },
{
    let warning = read_text(text, "persistenceWarning")?;
    if warning.as_str().is_empty() {
        Ok(None)
    } else {
        Ok(Some(warning))
    }
}

impl Conversion for SessionSnapshot {
    type Wire = wire::SessionSnapshot;

    open spec fn fault(wire: wire::SessionSnapshot) -> Option<RpcConversionError> {
        either(
            list_pointer_fault::<TranscriptItem>(wire.transcript),
            either(
                match wire.active_run {
                    Some(run) => pointer_fault::<ActiveRunSnapshot>(run),
                    None => None,
                },
                either(
                    text_fault(wire.persistence_warning, "persistenceWarning"),
                    either(
                        pointer_fault::<SessionSummary>(wire.summary),
                        either(
                            pointer_fault::<SessionSettings>(wire.settings),
                            either(
                                pointer_fault::<ModelCatalogState>(wire.catalog),
                                either(
                                    list_pointer_fault::<PlanItem>(wire.plan),
                                    list_pointer_fault::<JobSnapshotDto>(wire.jobs),
                                ),
                            ),
                        ),
                    ),
                ),
            ),
        )
    }

    open spec fn reads(wire: wire::SessionSnapshot, value: SessionSnapshot) -> bool {
        &&& pointer_reads::<SessionSummary>(wire.summary, value.summary)
        &&& list_pointer_reads::<TranscriptItem>(wire.transcript, value.transcript@)
        &&& match (wire.active_run, value.active_run) {
            (Some(run), Some(active)) => pointer_reads::<ActiveRunSnapshot>(run, active),
            (None, None) => true,
            _ => false,
        }
        &&& pointer_reads::<SessionSettings>(wire.settings, value.settings)
        &&& pointer_reads::<ModelCatalogState>(wire.catalog, value.catalog)
        &&& list_pointer_reads::<PlanItem>(wire.plan, value.plan@)
        &&& list_pointer_reads::<JobSnapshotDto>(wire.jobs, value.jobs@)
        &&& warning_reads(text_of(wire.persistence_warning), value.persistence_warning)
        &&& value.sequence == wire.sequence
        &&& value.busy == wire.busy
    }

    open spec fn unfit(value: SessionSnapshot) -> Option<RpcConversionError> {
        either(
            SessionSummary::unfit(value.summary),
            either(
                struct_items_unfit::<TranscriptItem>(value.transcript@, wire::TRANSCRIPT_ITEM_WORDS as int, "transcript"),
                either(
                    match value.active_run {
                        Some(run) => ActiveRunSnapshot::unfit(run),
                        None => None,
                    },
                    either(
                        SessionSettings::unfit(value.settings),
                        either(
                            ModelCatalogState::unfit(value.catalog),
                            either(
                                struct_items_unfit::<PlanItem>(value.plan@, wire::PLAN_ITEM_WORDS as int, "plan"),
                                either(
                                    struct_items_unfit::<JobSnapshotDto>(value.jobs@, wire::JOB_SNAPSHOT_WORDS as int, "jobs"),
                                    text_unfit(warning_text(value.persistence_warning), "persistenceWarning"),
                                ),
                            ),
                        ),
                    ),
                ),
            ),
        )
    }

    open spec fn writes(value: SessionSnapshot, wire: wire::SessionSnapshot) -> bool {
        &&& pointer_writes::<SessionSummary>(value.summary, wire.summary)
        &&& list_pointer_writes::<TranscriptItem>(value.transcript@, wire.transcript)
        &&& match (wire.active_run, value.active_run) {
            (Some(run), Some(active)) => pointer_writes::<ActiveRunSnapshot>(active, run),
            (None, None) => true,
            _ => false,
        }
        &&& pointer_writes::<SessionSettings>(value.settings, wire.settings)
        &&& pointer_writes::<ModelCatalogState>(value.catalog, wire.catalog)
        &&& list_pointer_writes::<PlanItem>(value.plan@, wire.plan)
        &&& list_pointer_writes::<JobSnapshotDto>(value.jobs@, wire.jobs)
        &&& text_written(wire.persistence_warning, warning_text(value.persistence_warning))
        &&& wire.sequence == value.sequence
        &&& wire.busy == value.busy
    }

    open spec fn survives(value: SessionSnapshot) -> bool {
        &&& SessionSummary::survives(value.summary)
        &&& list_survives::<TranscriptItem>(value.transcript@)
        &&& list_survives::<PlanItem>(value.plan@)
        &&& list_survives::<JobSnapshotDto>(value.jobs@)
        &&& match value.persistence_warning {
            Some(warning) => warning@.len() > 0,
            None => true,
        }
    }

    fn from_wire(wire: &wire::SessionSnapshot) -> (result: Result<SessionSnapshot, RpcConversionError>) {
        let transcript = read_list_pointer::<TranscriptItem>(&wire.transcript)?;
        let active_run = match &wire.active_run {
            Some(run) => Some(read_pointer::<ActiveRunSnapshot>(run)?),
            None => None,
        };
        let persistence_warning = read_warning(&wire.persistence_warning)?;
        let summary = read_pointer::<SessionSummary>(&wire.summary)?;
        let settings = read_pointer::<SessionSettings>(&wire.settings)?;
        let catalog = read_pointer::<ModelCatalogState>(&wire.catalog)?;
        let plan = read_list_pointer::<PlanItem>(&wire.plan)?;
        let jobs = read_list_pointer::<JobSnapshotDto>(&wire.jobs)?;
        Ok(
            SessionSnapshot {
                summary,
                transcript,
                active_run,
                settings,
                catalog,
                plan,
                jobs,
                persistence_warning,
                sequence: wire.sequence,
                busy: wire.busy,
            },
        )
    }

    fn to_wire(value: &SessionSnapshot) -> (result: Result<wire::SessionSnapshot, RpcConversionError>) {
        let summary = write_pointer::<SessionSummary>(&value.summary)?;
        let transcript = write_struct_list::<TranscriptItem>(
            &value.transcript,
            wire::TRANSCRIPT_ITEM_WORDS,
            "transcript",
        )?;
        let active_run = match &value.active_run {
            Some(run) => Some(write_pointer::<ActiveRunSnapshot>(run)?),
            None => None,
        };
        let settings = write_pointer::<SessionSettings>(&value.settings)?;
        let catalog = write_pointer::<ModelCatalogState>(&value.catalog)?;
        let plan = write_struct_list::<PlanItem>(&value.plan, wire::PLAN_ITEM_WORDS, "plan")?;
        let jobs = write_struct_list::<JobSnapshotDto>(
            &value.jobs,
            wire::JOB_SNAPSHOT_WORDS,
            "jobs",
        )?;
        let persistence_warning = write_warning(&value.persistence_warning)?;
        Ok(
            wire::SessionSnapshot {
                summary,
                transcript,
                active_run,
                settings,
                catalog,
                plan,
                jobs,
                persistence_warning,
                sequence: value.sequence,
                busy: value.busy,
            },
        )
    }

    proof fn round_trip(value: SessionSnapshot, wire: wire::SessionSnapshot) {
        lemma_texts_round_trip();
        lemma_pointer_round_trip::<SessionSummary>(value.summary, wire.summary);
        lemma_list_pointer_round_trip::<TranscriptItem>(value.transcript@, wire.transcript);
        if let (Some(run), Some(active)) = (wire.active_run, value.active_run) {
            lemma_pointer_round_trip::<ActiveRunSnapshot>(active, run);
        }
        lemma_pointer_round_trip::<SessionSettings>(value.settings, wire.settings);
        lemma_pointer_round_trip::<ModelCatalogState>(value.catalog, wire.catalog);
        lemma_list_pointer_round_trip::<PlanItem>(value.plan@, wire.plan);
        lemma_list_pointer_round_trip::<JobSnapshotDto>(value.jobs@, wire.jobs);
    }
}

/// Writes a session snapshot.
pub fn write_session_snapshot(value: &SessionSnapshot) -> (result: Result<wire::SessionSnapshot, RpcConversionError>)
    ensures
        write_outcome::<SessionSnapshot>(*value, result),
{
    SessionSnapshot::to_wire(value)
}

/// Reads a session snapshot.
pub fn read_session_snapshot(reader: &wire::SessionSnapshot) -> (result: Result<SessionSnapshot, RpcConversionError>)
    ensures
        read_outcome::<SessionSnapshot>(*reader, result),
{
    SessionSnapshot::from_wire(reader)
}

fn present<T>(pointer: &Pointer<T>) -> (result: Result<&T, RpcConversionError>)
    ensures
        match *pointer {
            Pointer::Value(value) => result is Ok && *result->Ok_0 == value,
            Pointer::Unreadable(fault) => result == Err::<&T, RpcConversionError>(
                RpcConversionError::Capnp(fault),
            ),
        },
{
    match pointer {
        Pointer::Value(value) => Ok(value),
        Pointer::Unreadable(fault) => Err(RpcConversionError::Capnp(fault.duplicate())),
    }
}

impl Conversion for SessionEvent {
    type Wire = wire::Event;

    open spec fn fault(wire: wire::Event) -> Option<RpcConversionError> {
        match wire {
            wire::Event::TitleChanged(pointer) => match pointer {
                Pointer::Unreadable(fault) => Some(RpcConversionError::Capnp(fault)),
                Pointer::Value(event) => either(text_fault(event.title, "title"), title_fault(text_of(event.title))),
            },
            wire::Event::Started(pointer) => match pointer {
                Pointer::Unreadable(fault) => Some(RpcConversionError::Capnp(fault)),
                Pointer::Value(event) => text_fault(event.prompt, "prompt"),
            },
            wire::Event::AssistantDelta(pointer) => match pointer {
                Pointer::Unreadable(fault) => Some(RpcConversionError::Capnp(fault)),
                Pointer::Value(event) => text_fault(event.text, "text"),
            },
            wire::Event::ContextUsage(pointer) => match pointer {
                Pointer::Unreadable(fault) => Some(RpcConversionError::Capnp(fault)),
                Pointer::Value(event) => timestamp_fault(event.last_activity, "lastActivity"),
            },
            wire::Event::ToolStarted(pointer) => tool_pointer_fault(pointer),
            wire::Event::ToolFinished(pointer) => match pointer {
                Pointer::Unreadable(fault) => Some(RpcConversionError::Capnp(fault)),
                Pointer::Value(event) => either(text_fault(event.call_id, "callId"), text_fault(event.name, "name")),
            },
            wire::Event::Completed(pointer) => match pointer {
                Pointer::Unreadable(fault) => Some(RpcConversionError::Capnp(fault)),
                Pointer::Value(event) => either(text_fault(event.response, "response"), timestamp_fault(event.last_activity, "lastActivity")),
            },
            wire::Event::Failed(pointer) => failed_pointer_fault(pointer),
            wire::Event::CancelledRunId(_) => None,
            wire::Event::SettingsChanged(pointer) => match pointer {
                Pointer::Unreadable(fault) => Some(RpcConversionError::Capnp(fault)),
                Pointer::Value(event) => either(pointer_fault::<SessionSettings>(event.settings), timestamp_fault(event.last_activity, "lastActivity")),
            },
            wire::Event::PlanChanged(plan) => list_pointer_fault::<PlanItem>(plan),
            wire::Event::JobsChanged(jobs) => list_pointer_fault::<JobSnapshotDto>(jobs),
            wire::Event::CatalogChanged(catalog) => pointer_fault::<ModelCatalogState>(catalog),
            wire::Event::PersistenceWarning(text) => text_fault(text, "persistenceWarning"),
            wire::Event::Deleted(pointer) => match pointer {
                Pointer::Unreadable(fault) => Some(RpcConversionError::Capnp(fault)),
                Pointer::Value(event) => either(text_fault(event.session_id, "sessionId"), session_id_fault(text_of(event.session_id))),
            },
            wire::Event::Unknown(value) => Some(
                RpcConversionError::UnknownUnion { name: "EventEnvelope", value },
            ),
        }
    }

    open spec fn reads(wire: wire::Event, value: SessionEvent) -> bool {
        match (wire, value) {
            (wire::Event::TitleChanged(pointer), SessionEvent::TitleChanged { title, title_revision }) => {
                &&& pointer is Value
                &&& title_reads(text_of(pointer->Value_0.title), title)
                &&& title_revision == pointer->Value_0.title_revision
            },
            (wire::Event::Started(pointer), SessionEvent::Started { run_id, prompt }) => {
                &&& pointer is Value
                &&& run_id == pointer->Value_0.run_id
                &&& prompt@ == text_of(pointer->Value_0.prompt)
            },
            (wire::Event::AssistantDelta(pointer), SessionEvent::AssistantDelta { run_id, text }) => {
                &&& pointer is Value
                &&& run_id == pointer->Value_0.run_id
                &&& text@ == text_of(pointer->Value_0.text)
            },
            (wire::Event::ContextUsage(pointer), SessionEvent::ContextUsage { run_id, input_tokens, last_activity }) => {
                &&& pointer is Value
                &&& run_id == pointer->Value_0.run_id
                &&& input_tokens == pointer->Value_0.input_tokens
                &&& timestamp_reads(pointer->Value_0.last_activity, last_activity)
            },
            (wire::Event::ToolStarted(pointer), SessionEvent::ToolStarted { run_id, call_id, name, arguments }) => {
                &&& pointer is Value
                &&& tool_started_reads(pointer->Value_0, run_id, call_id@, name@, arguments@)
            },
            (wire::Event::ToolFinished(pointer), SessionEvent::ToolFinished { run_id, call_id, name }) => {
                &&& pointer is Value
                &&& run_id == pointer->Value_0.run_id
                &&& call_id@ == text_of(pointer->Value_0.call_id)
                &&& name@ == text_of(pointer->Value_0.name)
            },
            (wire::Event::Completed(pointer), SessionEvent::Completed { run_id, response, last_activity }) => {
                &&& pointer is Value
                &&& run_id == pointer->Value_0.run_id
                &&& response@ == text_of(pointer->Value_0.response)
                &&& timestamp_reads(pointer->Value_0.last_activity, last_activity)
            },
            (wire::Event::SettingsChanged(pointer), SessionEvent::SettingsChanged { settings, last_activity }) => {
                &&& pointer is Value
                &&& pointer_reads::<SessionSettings>(pointer->Value_0.settings, settings)
                &&& timestamp_reads(pointer->Value_0.last_activity, last_activity)
            },
            (wire::Event::Deleted(pointer), SessionEvent::Deleted { session_id }) => {
                &&& pointer is Value
                &&& session_id_of(text_of(pointer->Value_0.session_id)) == Some(session_id)
            },
            (wire::Event::Failed(pointer), SessionEvent::Failed { run_id, failure }) => failed_pointer_reads(
                pointer,
                run_id,
                failure,
            ),
            (wire::Event::CancelledRunId(id), SessionEvent::Cancelled { run_id }) => run_id == id,
            (wire::Event::PlanChanged(pointer), SessionEvent::PlanChanged(plan)) => list_pointer_reads::<PlanItem>(pointer, plan@),
            (wire::Event::JobsChanged(pointer), SessionEvent::JobsChanged(jobs)) => list_pointer_reads::<JobSnapshotDto>(pointer, jobs@),
            (wire::Event::CatalogChanged(pointer), SessionEvent::CatalogChanged(catalog)) => pointer_reads::<ModelCatalogState>(pointer, catalog),
            (
                wire::Event::PersistenceWarning(text),
                SessionEvent::PersistenceWarning(warning),
            ) => warning_reads(text_of(text), warning),
            _ => false,
        }
    }

    open spec fn unfit(value: SessionEvent) -> Option<RpcConversionError> {
        match value {
            SessionEvent::TitleChanged { title, .. } => text_unfit(title.value@, "title"),
            SessionEvent::Started { prompt, .. } => text_unfit(prompt@, "prompt"),
            SessionEvent::AssistantDelta { text, .. } => text_unfit(text@, "text"),
            SessionEvent::ContextUsage { last_activity, .. } => timestamp_unfit(
                last_activity,
                "lastActivity",
            ),
            SessionEvent::ToolStarted { call_id, name, arguments, .. } => tool_started_unfit(
                call_id@,
                name@,
                arguments@,
            ),
            SessionEvent::ToolFinished { call_id, name, .. } => either(
                text_unfit(call_id@, "callId"),
                text_unfit(name@, "name"),
            ),
            SessionEvent::Completed { response, last_activity, .. } => either(
                text_unfit(response@, "response"),
                timestamp_unfit(last_activity, "lastActivity"),
            ),
            SessionEvent::Failed { failure, .. } => RunFailureSnapshot::unfit(failure),
            SessionEvent::Cancelled { .. } => None,
            SessionEvent::SettingsChanged { settings, last_activity } => either(
                SessionSettings::unfit(settings),
                timestamp_unfit(last_activity, "lastActivity"),
            ),
            SessionEvent::PlanChanged(plan) => struct_items_unfit::<PlanItem>(
                plan@,
                wire::PLAN_ITEM_WORDS as int,
                "planChanged",
            ),
            SessionEvent::JobsChanged(jobs) => struct_items_unfit::<JobSnapshotDto>(
                jobs@,
                wire::JOB_SNAPSHOT_WORDS as int,
                "jobsChanged",
            ),
            SessionEvent::CatalogChanged(catalog) => ModelCatalogState::unfit(catalog),
            SessionEvent::PersistenceWarning(warning) => text_unfit(
                warning_text(warning),
                "persistenceWarning",
            ),
            SessionEvent::Deleted { session_id } => text_unfit(
                session_id_text(session_id),
                "sessionId",
            ),
        }
    }

    open spec fn writes(value: SessionEvent, wire: wire::Event) -> bool {
        match (wire, value) {
            (wire::Event::TitleChanged(pointer), SessionEvent::TitleChanged { title, title_revision }) => {
                &&& pointer is Value
                &&& text_written(pointer->Value_0.title, title.value@)
                &&& pointer->Value_0.title_revision == title_revision
            },
            (wire::Event::Started(pointer), SessionEvent::Started { run_id, prompt }) => {
                &&& pointer is Value
                &&& pointer->Value_0.run_id == run_id
                &&& text_written(pointer->Value_0.prompt, prompt@)
            },
            (wire::Event::AssistantDelta(pointer), SessionEvent::AssistantDelta { run_id, text }) => {
                &&& pointer is Value
                &&& pointer->Value_0.run_id == run_id
                &&& text_written(pointer->Value_0.text, text@)
            },
            (wire::Event::ContextUsage(pointer), SessionEvent::ContextUsage { run_id, input_tokens, last_activity }) => {
                &&& pointer is Value
                &&& pointer->Value_0.run_id == run_id
                &&& pointer->Value_0.input_tokens == input_tokens
                &&& timestamp_written(pointer->Value_0.last_activity, last_activity)
            },
            (wire::Event::ToolStarted(pointer), SessionEvent::ToolStarted { run_id, call_id, name, arguments }) => {
                &&& pointer is Value
                &&& tool_started_writes(pointer->Value_0, run_id, call_id@, name@, arguments@)
            },
            (wire::Event::ToolFinished(pointer), SessionEvent::ToolFinished { run_id, call_id, name }) => {
                &&& pointer is Value
                &&& pointer->Value_0.run_id == run_id
                &&& text_written(pointer->Value_0.call_id, call_id@)
                &&& text_written(pointer->Value_0.name, name@)
            },
            (wire::Event::Completed(pointer), SessionEvent::Completed { run_id, response, last_activity }) => {
                &&& pointer is Value
                &&& pointer->Value_0.run_id == run_id
                &&& text_written(pointer->Value_0.response, response@)
                &&& timestamp_written(pointer->Value_0.last_activity, last_activity)
            },
            (wire::Event::SettingsChanged(pointer), SessionEvent::SettingsChanged { settings, last_activity }) => {
                &&& pointer is Value
                &&& pointer_writes::<SessionSettings>(settings, pointer->Value_0.settings)
                &&& timestamp_written(pointer->Value_0.last_activity, last_activity)
            },
            (wire::Event::Deleted(pointer), SessionEvent::Deleted { session_id }) => {
                &&& pointer is Value
                &&& text_written(pointer->Value_0.session_id, session_id_text(session_id))
            },
            (wire::Event::Failed(pointer), SessionEvent::Failed { run_id, failure }) => failed_pointer_writes(
                pointer,
                run_id,
                failure,
            ),
            (wire::Event::CancelledRunId(id), SessionEvent::Cancelled { run_id }) => run_id == id,
            (wire::Event::PlanChanged(pointer), SessionEvent::PlanChanged(plan)) => list_pointer_writes::<PlanItem>(plan@, pointer),
            (wire::Event::JobsChanged(pointer), SessionEvent::JobsChanged(jobs)) => list_pointer_writes::<JobSnapshotDto>(jobs@, pointer),
            (wire::Event::CatalogChanged(pointer), SessionEvent::CatalogChanged(catalog)) => pointer_writes::<ModelCatalogState>(catalog, pointer),
            (
                wire::Event::PersistenceWarning(text),
                SessionEvent::PersistenceWarning(warning),
            ) => text_written(text, warning_text(warning)),
            _ => false,
        }
    }

    open spec fn survives(value: SessionEvent) -> bool {
        match value {
            SessionEvent::TitleChanged { title, .. } => title.valid(),
            SessionEvent::ContextUsage { last_activity, .. } => timestamp_survives(last_activity),
            SessionEvent::ToolStarted { arguments, .. } => arguments_survive(arguments@),
            SessionEvent::Completed { last_activity, .. } => timestamp_survives(last_activity),
            SessionEvent::SettingsChanged { last_activity, .. } => timestamp_survives(last_activity),
            SessionEvent::PlanChanged(plan) => list_survives::<PlanItem>(plan@),
            SessionEvent::JobsChanged(jobs) => list_survives::<JobSnapshotDto>(jobs@),
            SessionEvent::PersistenceWarning(Some(warning)) => warning@.len() > 0,
            _ => true,
        }
    }

    fn from_wire(wire: &wire::Event) -> (result: Result<SessionEvent, RpcConversionError>) {
        match wire {
            wire::Event::TitleChanged(pointer) => {
                let event = present(pointer)?;
                let text = read_text(&event.title, "title")?;
                let title = parse_title(&text)?;
                Ok(SessionEvent::TitleChanged { title, title_revision: event.title_revision })
            },
            wire::Event::Started(pointer) => {
                let event = present(pointer)?;
                let prompt = read_text(&event.prompt, "prompt")?;
                Ok(SessionEvent::Started { run_id: event.run_id, prompt })
            },
            wire::Event::AssistantDelta(pointer) => {
                let event = present(pointer)?;
                let text = read_text(&event.text, "text")?;
                Ok(SessionEvent::AssistantDelta { run_id: event.run_id, text })
            },
            wire::Event::ContextUsage(pointer) => {
                let event = present(pointer)?;
                let last_activity = read_timestamp(&event.last_activity, "lastActivity")?;
                Ok(
                    SessionEvent::ContextUsage {
                        run_id: event.run_id,
                        input_tokens: event.input_tokens,
                        last_activity,
                    },
                )
            },
            wire::Event::ToolStarted(pointer) => {
                let call = read_tool_started(pointer)?;
                Ok(
                    SessionEvent::ToolStarted {
                        run_id: call.run_id,
                        call_id: call.call_id,
                        name: call.name,
                        arguments: call.arguments,
                    },
                )
            },
            wire::Event::ToolFinished(pointer) => {
                let event = present(pointer)?;
                let call_id = read_text(&event.call_id, "callId")?;
                let name = read_text(&event.name, "name")?;
                Ok(SessionEvent::ToolFinished { run_id: event.run_id, call_id, name })
            },
            wire::Event::Completed(pointer) => {
                let event = present(pointer)?;
                let response = read_text(&event.response, "response")?;
                let last_activity = read_timestamp(&event.last_activity, "lastActivity")?;
                Ok(SessionEvent::Completed { run_id: event.run_id, response, last_activity })
            },
            wire::Event::Failed(pointer) => {
                let (run_id, failure) = read_failed(pointer)?;
                Ok(SessionEvent::Failed { run_id, failure })
            },
            wire::Event::CancelledRunId(run_id) => Ok(SessionEvent::Cancelled { run_id: *run_id }),
            wire::Event::SettingsChanged(pointer) => {
                let event = present(pointer)?;
                let settings = read_pointer::<SessionSettings>(&event.settings)?;
                let last_activity = read_timestamp(&event.last_activity, "lastActivity")?;
                Ok(SessionEvent::SettingsChanged { settings, last_activity })
            },
            wire::Event::PlanChanged(plan) => Ok(
                SessionEvent::PlanChanged(read_list_pointer::<PlanItem>(plan)?),
            ),
            wire::Event::JobsChanged(jobs) => Ok(
                SessionEvent::JobsChanged(read_list_pointer::<JobSnapshotDto>(jobs)?),
            ),
            wire::Event::CatalogChanged(catalog) => Ok(
                SessionEvent::CatalogChanged(read_pointer::<ModelCatalogState>(catalog)?),
            ),
            wire::Event::PersistenceWarning(text) => Ok(
                SessionEvent::PersistenceWarning(read_warning(text)?),
            ),
            wire::Event::Deleted(pointer) => {
                let event = present(pointer)?;
                let text = read_text(&event.session_id, "sessionId")?;
                let session_id = parse_id(&text)?;
                Ok(SessionEvent::Deleted { session_id })
            },
            wire::Event::Unknown(value) => Err(
                RpcConversionError::UnknownUnion { name: "EventEnvelope", value: *value },
            ),
        }
    }

    fn to_wire(value: &SessionEvent) -> (result: Result<wire::Event, RpcConversionError>) {
        match value {
            SessionEvent::TitleChanged { title, title_revision } => {
                let title = checked_text(title.as_str(), "title")?;
                Ok(
                    wire::Event::TitleChanged(
                        Pointer::Value(
                            wire::TitleChanged { title, title_revision: *title_revision },
                        ),
                    ),
                )
            },
            SessionEvent::Started { run_id, prompt } => {
                let prompt = checked_text(prompt, "prompt")?;
                Ok(wire::Event::Started(Pointer::Value(wire::Started { run_id: *run_id, prompt })))
            },
            SessionEvent::AssistantDelta { run_id, text } => {
                let text = checked_text(text, "text")?;
                Ok(
                    wire::Event::AssistantDelta(
                        Pointer::Value(wire::AssistantDelta { run_id: *run_id, text }),
                    ),
                )
            },
            SessionEvent::ContextUsage { run_id, input_tokens, last_activity } => {
                let last_activity = write_timestamp(*last_activity, "lastActivity")?;
                Ok(
                    wire::Event::ContextUsage(
                        Pointer::Value(
                            wire::ContextUsage {
                                run_id: *run_id,
                                input_tokens: *input_tokens,
                                last_activity,
                            },
                        ),
                    ),
                )
            },
            SessionEvent::ToolStarted { run_id, call_id, name, arguments } => Ok(
                wire::Event::ToolStarted(write_tool_started(*run_id, call_id, name, arguments)?),
            ),
            SessionEvent::ToolFinished { run_id, call_id, name } => {
                let call_id = checked_text(call_id, "callId")?;
                let name = checked_text(name, "name")?;
                Ok(
                    wire::Event::ToolFinished(
                        Pointer::Value(wire::ToolFinished { run_id: *run_id, call_id, name }),
                    ),
                )
            },
            SessionEvent::Completed { run_id, response, last_activity } => {
                let response = checked_text(response, "response")?;
                let last_activity = write_timestamp(*last_activity, "lastActivity")?;
                Ok(
                    wire::Event::Completed(
                        Pointer::Value(wire::Completed { run_id: *run_id, response, last_activity }),
                    ),
                )
            },
            SessionEvent::Failed { run_id, failure } => Ok(
                wire::Event::Failed(write_failed(*run_id, failure)?),
            ),
            SessionEvent::Cancelled { run_id } => Ok(wire::Event::CancelledRunId(*run_id)),
            SessionEvent::SettingsChanged { settings, last_activity } => {
                let settings = write_pointer::<SessionSettings>(settings)?;
                let last_activity = write_timestamp(*last_activity, "lastActivity")?;
                Ok(
                    wire::Event::SettingsChanged(
                        Pointer::Value(wire::SettingsChanged { settings, last_activity }),
                    ),
                )
            },
            SessionEvent::PlanChanged(plan) => Ok(
                wire::Event::PlanChanged(
                    write_struct_list::<PlanItem>(plan, wire::PLAN_ITEM_WORDS, "planChanged")?,
                ),
            ),
            SessionEvent::JobsChanged(jobs) => Ok(
                wire::Event::JobsChanged(
                    write_struct_list::<JobSnapshotDto>(
                        jobs,
                        wire::JOB_SNAPSHOT_WORDS,
                        "jobsChanged",
                    )?,
                ),
            ),
            SessionEvent::CatalogChanged(catalog) => Ok(
                wire::Event::CatalogChanged(write_pointer::<ModelCatalogState>(catalog)?),
            ),
            SessionEvent::PersistenceWarning(warning) => Ok(
                wire::Event::PersistenceWarning(write_warning(warning)?),
            ),
            SessionEvent::Deleted { session_id } => {
                let text = session_id.text();
                let session_id = checked_text(&text, "sessionId")?;
                Ok(wire::Event::Deleted(Pointer::Value(wire::Deleted { session_id })))
            },
        }
    }

    proof fn round_trip(value: SessionEvent, wire: wire::Event) {
        lemma_texts_round_trip();
        match (wire, value) {
            (wire::Event::Failed(pointer), SessionEvent::Failed { failure, .. }) => {
                lemma_pointer_round_trip::<RunFailureSnapshot>(failure, pointer->Value_0.failure);
            },
            (wire::Event::SettingsChanged(pointer), SessionEvent::SettingsChanged { settings, .. }) => {
                lemma_pointer_round_trip::<SessionSettings>(settings, pointer->Value_0.settings);
            },
            (wire::Event::PlanChanged(pointer), SessionEvent::PlanChanged(plan)) => {
                lemma_list_pointer_round_trip::<PlanItem>(plan@, pointer);
            },
            (wire::Event::JobsChanged(pointer), SessionEvent::JobsChanged(jobs)) => {
                lemma_list_pointer_round_trip::<JobSnapshotDto>(jobs@, pointer);
            },
            (wire::Event::CatalogChanged(pointer), SessionEvent::CatalogChanged(catalog)) => {
                lemma_pointer_round_trip::<ModelCatalogState>(catalog, pointer);
            },
            (wire::Event::Deleted(_), SessionEvent::Deleted { session_id }) => {
                lemma_session_id_text_is_read_back(session_id);
            },
            _ => {},
        }
    }
}

impl Conversion for SessionEventEnvelope {
    type Wire = wire::EventEnvelope;

    open spec fn fault(wire: wire::EventEnvelope) -> Option<RpcConversionError> {
        SessionEvent::fault(wire.event)
    }

    open spec fn reads(wire: wire::EventEnvelope, value: SessionEventEnvelope) -> bool {
        &&& SessionEvent::reads(wire.event, value.event)
        &&& value.sequence == wire.sequence
    }

    open spec fn unfit(value: SessionEventEnvelope) -> Option<RpcConversionError> {
        SessionEvent::unfit(value.event)
    }

    open spec fn writes(value: SessionEventEnvelope, wire: wire::EventEnvelope) -> bool {
        &&& SessionEvent::writes(value.event, wire.event)
        &&& wire.sequence == value.sequence
    }

    open spec fn survives(value: SessionEventEnvelope) -> bool {
        SessionEvent::survives(value.event)
    }

    fn from_wire(wire: &wire::EventEnvelope) -> (result: Result<SessionEventEnvelope, RpcConversionError>) {
        let event = SessionEvent::from_wire(&wire.event)?;
        Ok(SessionEventEnvelope { sequence: wire.sequence, event })
    }

    fn to_wire(value: &SessionEventEnvelope) -> (result: Result<wire::EventEnvelope, RpcConversionError>) {
        let event = SessionEvent::to_wire(&value.event)?;
        Ok(wire::EventEnvelope { sequence: value.sequence, event })
    }

    proof fn round_trip(value: SessionEventEnvelope, wire: wire::EventEnvelope) {
        SessionEvent::round_trip(value.event, wire.event);
    }
}

/// Writes one sequenced session event.
pub fn write_event_envelope(value: &SessionEventEnvelope) -> (result: Result<wire::EventEnvelope, RpcConversionError>)
    ensures
        write_outcome::<SessionEventEnvelope>(*value, result),
{
    SessionEventEnvelope::to_wire(value)
}

/// Reads one sequenced session event.
pub fn read_event_envelope(reader: &wire::EventEnvelope) -> (result: Result<SessionEventEnvelope, RpcConversionError>)
    ensures
        read_outcome::<SessionEventEnvelope>(*reader, result),
{
    SessionEventEnvelope::from_wire(reader)
}

/// A successfully opened session and its snapshot at attachment.
#[derive(Debug)]
pub struct OpenSuccess {
    /// Session command capability.
    pub session: wire::SessionCapability,
    /// State at the attachment sequence.
    pub snapshot: SessionSnapshot,
}

/// Successful startup selection.
#[derive(Debug)]
pub enum StartupSuccess {
    /// No running project session exists, so the client remains local.
    Draft(DraftDefaults),
    /// The newest running project session was attached.
    Attached(OpenSuccess),
}

/// A newly durable session and its first run.
#[derive(Debug)]
pub struct MaterializeSuccess {
    /// Session command capability.
    pub session: wire::SessionCapability,
    /// State at the attachment sequence.
    pub snapshot: SessionSnapshot,
    /// Run identifier assigned to the first prompt.
    pub run_id: u64,
}

/// Result of opening or creating a session.
pub type OpenResult = Result<OpenSuccess, CommandError>;

/// Result of selecting startup state.
pub type StartupResult = Result<StartupSuccess, CommandError>;

/// Result of obtaining fresh draft defaults.
pub type DraftDefaultsResult = Result<DraftDefaults, CommandError>;

/// Result of making a first prompt durable.
pub type MaterializeResult = Result<MaterializeSuccess, CommandError>;

/// Result of listing sessions.
pub type SessionListResult = Result<Vec<SessionSummary>, CommandError>;

/// Result of submitting a prompt.
pub type SubmitResult = Result<u64, CommandError>;

/// Result of a command without a success value.
pub type CommandResult = Result<(), CommandError>;

/// Result of an exact detach: the number of clients still attached.
pub type DetachResult = Result<u32, CommandError>;

/// Result of listing jobs.
pub type JobListResult = Result<Vec<JobSnapshotDto>, CommandError>;

/// Result of a job command.
pub type JobResult = Result<JobSnapshotDto, CommandError>;

/// What is wrong with a capability pointer.
pub open spec fn capability_fault(pointer: Pointer<wire::SessionCapability>) -> Option<
    RpcConversionError,
> {
    match pointer {
        Pointer::Unreadable(fault) => Some(RpcConversionError::Capnp(fault)),
        Pointer::Value(_) => None,
    }
}

impl Conversion for OpenSuccess {
    type Wire = wire::OpenSuccess;

    open spec fn fault(wire: wire::OpenSuccess) -> Option<RpcConversionError> {
        either(
            capability_fault(wire.session),
            pointer_fault::<SessionSnapshot>(wire.snapshot),
        )
    }

    open spec fn reads(wire: wire::OpenSuccess, value: OpenSuccess) -> bool {
        &&& wire.session == Pointer::Value(value.session)
        &&& pointer_reads::<SessionSnapshot>(wire.snapshot, value.snapshot)
    }

    open spec fn unfit(value: OpenSuccess) -> Option<RpcConversionError> {
        SessionSnapshot::unfit(value.snapshot)
    }

    open spec fn writes(value: OpenSuccess, wire: wire::OpenSuccess) -> bool {
        &&& wire.session == Pointer::Value(value.session)
        &&& pointer_writes::<SessionSnapshot>(value.snapshot, wire.snapshot)
    }

    open spec fn survives(value: OpenSuccess) -> bool {
        SessionSnapshot::survives(value.snapshot)
    }

    fn from_wire(wire: &wire::OpenSuccess) -> (result: Result<OpenSuccess, RpcConversionError>) {
        let session = *present(&wire.session)?;
        let snapshot = read_pointer::<SessionSnapshot>(&wire.snapshot)?;
        Ok(OpenSuccess { session, snapshot })
    }

    fn to_wire(value: &OpenSuccess) -> (result: Result<wire::OpenSuccess, RpcConversionError>) {
        let snapshot = write_pointer::<SessionSnapshot>(&value.snapshot)?;
        Ok(wire::OpenSuccess { session: Pointer::Value(value.session), snapshot })
    }

    proof fn round_trip(value: OpenSuccess, wire: wire::OpenSuccess) {
        lemma_pointer_round_trip::<SessionSnapshot>(value.snapshot, wire.snapshot);
    }
}

/// Writes a successful open.
pub fn write_open_success(value: &OpenSuccess) -> (result: Result<wire::OpenSuccess, RpcConversionError>)
    ensures
        write_outcome::<OpenSuccess>(*value, result),
{
    OpenSuccess::to_wire(value)
}

/// Reads a successful open.
pub fn read_open_success(reader: &wire::OpenSuccess) -> (result: Result<OpenSuccess, RpcConversionError>)
    ensures
        read_outcome::<OpenSuccess>(*reader, result),
{
    OpenSuccess::from_wire(reader)
}

impl Conversion for MaterializeSuccess {
    type Wire = wire::MaterializeSuccess;

    open spec fn fault(wire: wire::MaterializeSuccess) -> Option<RpcConversionError> {
        either(
            capability_fault(wire.session),
            pointer_fault::<SessionSnapshot>(wire.snapshot),
        )
    }

    open spec fn reads(wire: wire::MaterializeSuccess, value: MaterializeSuccess) -> bool {
        &&& wire.session == Pointer::Value(value.session)
        &&& pointer_reads::<SessionSnapshot>(wire.snapshot, value.snapshot)
        &&& value.run_id == wire.run_id
    }

    open spec fn unfit(value: MaterializeSuccess) -> Option<RpcConversionError> {
        SessionSnapshot::unfit(value.snapshot)
    }

    open spec fn writes(value: MaterializeSuccess, wire: wire::MaterializeSuccess) -> bool {
        &&& wire.session == Pointer::Value(value.session)
        &&& pointer_writes::<SessionSnapshot>(value.snapshot, wire.snapshot)
        &&& wire.run_id == value.run_id
    }

    open spec fn survives(value: MaterializeSuccess) -> bool {
        SessionSnapshot::survives(value.snapshot)
    }

    fn from_wire(wire: &wire::MaterializeSuccess) -> (result: Result<MaterializeSuccess, RpcConversionError>) {
        let session = *present(&wire.session)?;
        let snapshot = read_pointer::<SessionSnapshot>(&wire.snapshot)?;
        Ok(MaterializeSuccess { session, snapshot, run_id: wire.run_id })
    }

    fn to_wire(value: &MaterializeSuccess) -> (result: Result<wire::MaterializeSuccess, RpcConversionError>) {
        let snapshot = write_pointer::<SessionSnapshot>(&value.snapshot)?;
        Ok(
            wire::MaterializeSuccess {
                session: Pointer::Value(value.session),
                snapshot,
                run_id: value.run_id,
            },
        )
    }

    proof fn round_trip(value: MaterializeSuccess, wire: wire::MaterializeSuccess) {
        lemma_pointer_round_trip::<SessionSnapshot>(value.snapshot, wire.snapshot);
    }
}

/// Writes a newly durable session.
pub fn write_materialize_success(value: &MaterializeSuccess) -> (result: Result<wire::MaterializeSuccess, RpcConversionError>)
    ensures
        write_outcome::<MaterializeSuccess>(*value, result),
{
    MaterializeSuccess::to_wire(value)
}

/// Reads a newly durable session.
pub fn read_materialize_success(reader: &wire::MaterializeSuccess) -> (result: Result<MaterializeSuccess, RpcConversionError>)
    ensures
        read_outcome::<MaterializeSuccess>(*reader, result),
{
    MaterializeSuccess::from_wire(reader)
}

impl Conversion for Vec<SessionSummary> {
    type Wire = Vec<wire::SessionSummary>;

    open spec fn fault(wire: Vec<wire::SessionSummary>) -> Option<RpcConversionError> {
        list_fault::<SessionSummary>(wire@)
    }

    open spec fn reads(wire: Vec<wire::SessionSummary>, value: Vec<SessionSummary>) -> bool {
        list_reads::<SessionSummary>(wire@, value@)
    }

    open spec fn unfit(value: Vec<SessionSummary>) -> Option<RpcConversionError> {
        struct_items_unfit::<SessionSummary>(value@, wire::SESSION_SUMMARY_WORDS as int, "sessions")
    }

    open spec fn writes(value: Vec<SessionSummary>, wire: Vec<wire::SessionSummary>) -> bool {
        list_writes::<SessionSummary>(value@, wire@)
    }

    open spec fn survives(value: Vec<SessionSummary>) -> bool {
        list_survives::<SessionSummary>(value@)
    }

    fn from_wire(wire: &Vec<wire::SessionSummary>) -> (result: Result<Vec<SessionSummary>, RpcConversionError>) {
        read_list::<SessionSummary>(wire)
    }

    fn to_wire(value: &Vec<SessionSummary>) -> (result: Result<Vec<wire::SessionSummary>, RpcConversionError>) {
        validate_wire_inline_composite_list_length(value.len(), wire::SESSION_SUMMARY_WORDS, "sessions")?;
        write_list::<SessionSummary>(value)
    }

    proof fn round_trip(value: Vec<SessionSummary>, wire: Vec<wire::SessionSummary>) {
        lemma_list_round_trip::<SessionSummary>(value@, wire@);
    }
}

impl Conversion for Vec<JobSnapshotDto> {
    type Wire = Vec<wire::JobSnapshot>;

    open spec fn fault(wire: Vec<wire::JobSnapshot>) -> Option<RpcConversionError> {
        list_fault::<JobSnapshotDto>(wire@)
    }

    open spec fn reads(wire: Vec<wire::JobSnapshot>, value: Vec<JobSnapshotDto>) -> bool {
        list_reads::<JobSnapshotDto>(wire@, value@)
    }

    open spec fn unfit(value: Vec<JobSnapshotDto>) -> Option<RpcConversionError> {
        struct_items_unfit::<JobSnapshotDto>(value@, wire::JOB_SNAPSHOT_WORDS as int, "jobs")
    }

    open spec fn writes(value: Vec<JobSnapshotDto>, wire: Vec<wire::JobSnapshot>) -> bool {
        list_writes::<JobSnapshotDto>(value@, wire@)
    }

    open spec fn survives(value: Vec<JobSnapshotDto>) -> bool {
        list_survives::<JobSnapshotDto>(value@)
    }

    fn from_wire(wire: &Vec<wire::JobSnapshot>) -> (result: Result<Vec<JobSnapshotDto>, RpcConversionError>) {
        read_list::<JobSnapshotDto>(wire)
    }

    fn to_wire(value: &Vec<JobSnapshotDto>) -> (result: Result<Vec<wire::JobSnapshot>, RpcConversionError>) {
        validate_wire_inline_composite_list_length(value.len(), wire::JOB_SNAPSHOT_WORDS, "jobs")?;
        write_list::<JobSnapshotDto>(value)
    }

    proof fn round_trip(value: Vec<JobSnapshotDto>, wire: Vec<wire::JobSnapshot>) {
        lemma_list_round_trip::<JobSnapshotDto>(value@, wire@);
    }
}

/// What is wrong with a result union.
pub open spec fn result_fault<T: Conversion>(
    wire: wire::ResultUnion<T::Wire>,
    name: &'static str,
) -> Option<RpcConversionError> {
    match wire {
        wire::ResultUnion::Success(success) => pointer_fault::<T>(success),
        wire::ResultUnion::Error(error) => pointer_fault::<CommandError>(error),
        wire::ResultUnion::Unknown(value) => Some(
            RpcConversionError::UnknownUnion { name, value },
        ),
    }
}

/// A result union that is read as a result.
pub open spec fn result_reads<T: Conversion>(
    wire: wire::ResultUnion<T::Wire>,
    value: Result<T, CommandError>,
) -> bool {
    match (wire, value) {
        (wire::ResultUnion::Success(pointer), Ok(success)) => pointer_reads::<T>(pointer, success),
        (wire::ResultUnion::Error(pointer), Err(error)) => pointer_reads::<CommandError>(
            pointer,
            error,
        ),
        _ => false,
    }
}

/// What keeps a result from being written.
pub open spec fn result_unfit<T: Conversion>(value: Result<T, CommandError>) -> Option<
    RpcConversionError,
> {
    match value {
        Ok(success) => T::unfit(success),
        Err(error) => CommandError::unfit(error),
    }
}

/// A result union that holds a result.
pub open spec fn result_writes<T: Conversion>(
    value: Result<T, CommandError>,
    wire: wire::ResultUnion<T::Wire>,
) -> bool {
    match (wire, value) {
        (wire::ResultUnion::Success(pointer), Ok(success)) => pointer_writes::<T>(success, pointer),
        (wire::ResultUnion::Error(pointer), Err(error)) => pointer_writes::<CommandError>(
            error,
            pointer,
        ),
        _ => false,
    }
}

/// What reading a result union of some name gives.
pub open spec fn read_result_outcome<T: Conversion>(
    wire: wire::ResultUnion<T::Wire>,
    name: &'static str,
    result: Result<Result<T, CommandError>, RpcConversionError>,
) -> bool {
    match result {
        Ok(value) => result_fault::<T>(wire, name) is None && result_reads::<T>(wire, value),
        Err(error) => result_fault::<T>(wire, name) == Some(error),
    }
}

/// What writing a result gives.
pub open spec fn write_result_outcome<T: Conversion>(
    value: Result<T, CommandError>,
    result: Result<wire::ResultUnion<T::Wire>, RpcConversionError>,
) -> bool {
    match result {
        Ok(wire) => result_unfit::<T>(value) is None && result_writes::<T>(value, wire),
        Err(error) => result_unfit::<T>(value) == Some(error),
    }
}

fn read_result<T: Conversion>(wire: &wire::ResultUnion<T::Wire>, name: &'static str) -> (result:
    Result<Result<T, CommandError>, RpcConversionError>)
    ensures
        read_result_outcome::<T>(*wire, name, result),
{
    match wire {
        wire::ResultUnion::Success(success) => Ok(Ok(read_pointer::<T>(success)?)),
        wire::ResultUnion::Error(error) => Ok(Err(read_pointer::<CommandError>(error)?)),
        wire::ResultUnion::Unknown(value) => Err(
            RpcConversionError::UnknownUnion { name, value: *value },
        ),
    }
}

fn write_result<T: Conversion>(value: &Result<T, CommandError>) -> (result: Result<
    wire::ResultUnion<T::Wire>,
    RpcConversionError,
>)
    ensures
        write_result_outcome::<T>(*value, result),
{
    match value {
        Ok(success) => Ok(wire::ResultUnion::Success(write_pointer::<T>(success)?)),
        Err(error) => Ok(wire::ResultUnion::Error(write_pointer::<CommandError>(error)?)),
    }
}

/// A written result is read back, whatever the union is called.
pub proof fn lemma_result_is_read_back<T: Conversion>(
    value: Result<T, CommandError>,
    wire: wire::ResultUnion<T::Wire>,
    name: &'static str,
)
    requires
        value is Ok ==> T::survives(value->Ok_0),
        write_result_outcome::<T>(value, Ok(wire)),
    ensures
        read_result_outcome::<T>(wire, name, Ok(value)),
{
    match (wire, value) {
        (wire::ResultUnion::Success(pointer), Ok(success)) => {
            lemma_pointer_round_trip::<T>(success, pointer);
        },
        (wire::ResultUnion::Error(pointer), Err(error)) => {
            lemma_pointer_round_trip::<CommandError>(error, pointer);
        },
        _ => {},
    }
}

/// Writes the result of obtaining draft defaults.
pub fn write_draft_defaults_result(value: &DraftDefaultsResult) -> (result: Result<wire::ResultUnion<wire::DraftDefaults>, RpcConversionError>)
    ensures
        write_result_outcome::<DraftDefaults>(*value, result),
{
    write_result::<DraftDefaults>(value)
}

/// Reads the result of obtaining draft defaults.
pub fn read_draft_defaults_result(reader: &wire::ResultUnion<wire::DraftDefaults>) -> (result: Result<DraftDefaultsResult, RpcConversionError>)
    ensures
        read_result_outcome::<DraftDefaults>(*reader, "DraftDefaultsResult", result),
{
    read_result::<DraftDefaults>(reader, "DraftDefaultsResult")
}

/// Writes the result of opening a session.
pub fn write_open_result(value: &OpenResult) -> (result: Result<wire::ResultUnion<wire::OpenSuccess>, RpcConversionError>)
    ensures
        write_result_outcome::<OpenSuccess>(*value, result),
{
    write_result::<OpenSuccess>(value)
}

/// Reads the result of opening a session.
pub fn read_open_result(reader: &wire::ResultUnion<wire::OpenSuccess>) -> (result: Result<OpenResult, RpcConversionError>)
    ensures
        read_result_outcome::<OpenSuccess>(*reader, "OpenResult", result),
{
    read_result::<OpenSuccess>(reader, "OpenResult")
}

/// Writes the result of making a session durable.
pub fn write_materialize_result(value: &MaterializeResult) -> (result: Result<wire::ResultUnion<wire::MaterializeSuccess>, RpcConversionError>)
    ensures
        write_result_outcome::<MaterializeSuccess>(*value, result),
{
    write_result::<MaterializeSuccess>(value)
}

/// Reads the result of making a session durable.
pub fn read_materialize_result(reader: &wire::ResultUnion<wire::MaterializeSuccess>) -> (result: Result<MaterializeResult, RpcConversionError>)
    ensures
        read_result_outcome::<MaterializeSuccess>(*reader, "MaterializeResult", result),
{
    read_result::<MaterializeSuccess>(reader, "MaterializeResult")
}

/// Writes the result of listing sessions.
pub fn write_session_list_result(value: &SessionListResult) -> (result: Result<wire::ResultUnion<Vec<wire::SessionSummary>>, RpcConversionError>)
    ensures
        write_result_outcome::<Vec<SessionSummary>>(*value, result),
{
    write_result::<Vec<SessionSummary>>(value)
}

/// Reads the result of listing sessions.
pub fn read_session_list_result(reader: &wire::ResultUnion<Vec<wire::SessionSummary>>) -> (result: Result<SessionListResult, RpcConversionError>)
    ensures
        read_result_outcome::<Vec<SessionSummary>>(*reader, "SessionListResult", result),
{
    read_result::<Vec<SessionSummary>>(reader, "SessionListResult")
}

/// Writes the result of listing jobs.
pub fn write_job_list_result(value: &JobListResult) -> (result: Result<wire::ResultUnion<Vec<wire::JobSnapshot>>, RpcConversionError>)
    ensures
        write_result_outcome::<Vec<JobSnapshotDto>>(*value, result),
{
    write_result::<Vec<JobSnapshotDto>>(value)
}

/// Reads the result of listing jobs.
pub fn read_job_list_result(reader: &wire::ResultUnion<Vec<wire::JobSnapshot>>) -> (result: Result<JobListResult, RpcConversionError>)
    ensures
        read_result_outcome::<Vec<JobSnapshotDto>>(*reader, "JobListResult", result),
{
    read_result::<Vec<JobSnapshotDto>>(reader, "JobListResult")
}

/// Writes the result of a job command.
pub fn write_job_result(value: &JobResult) -> (result: Result<wire::ResultUnion<wire::JobSnapshot>, RpcConversionError>)
    ensures
        write_result_outcome::<JobSnapshotDto>(*value, result),
{
    write_result::<JobSnapshotDto>(value)
}

/// Reads the result of a job command.
pub fn read_job_result(reader: &wire::ResultUnion<wire::JobSnapshot>) -> (result: Result<JobResult, RpcConversionError>)
    ensures
        read_result_outcome::<JobSnapshotDto>(*reader, "JobResult", result),
{
    read_result::<JobSnapshotDto>(reader, "JobResult")
}

impl Conversion for StartupResult {
    type Wire = wire::StartupResult;

    open spec fn fault(wire: wire::StartupResult) -> Option<RpcConversionError> {
        match wire {
            wire::StartupResult::Draft(draft) => pointer_fault::<DraftDefaults>(draft),
            wire::StartupResult::Attached(attached) => pointer_fault::<OpenSuccess>(attached),
            wire::StartupResult::Error(error) => pointer_fault::<CommandError>(error),
            wire::StartupResult::Unknown(value) => Some(
                RpcConversionError::UnknownUnion { name: "StartupResult", value },
            ),
        }
    }

    open spec fn reads(wire: wire::StartupResult, value: StartupResult) -> bool {
        match (wire, value) {
            (wire::StartupResult::Draft(pointer), Ok(StartupSuccess::Draft(draft))) => pointer_reads::<
                DraftDefaults,
            >(pointer, draft),
            (
                wire::StartupResult::Attached(pointer),
                Ok(StartupSuccess::Attached(attached)),
            ) => pointer_reads::<OpenSuccess>(pointer, attached),
            (wire::StartupResult::Error(pointer), Err(error)) => pointer_reads::<CommandError>(
                pointer,
                error,
            ),
            _ => false,
        }
    }

    open spec fn unfit(value: StartupResult) -> Option<RpcConversionError> {
        match value {
            Ok(StartupSuccess::Draft(draft)) => DraftDefaults::unfit(draft),
            Ok(StartupSuccess::Attached(attached)) => OpenSuccess::unfit(attached),
            Err(error) => CommandError::unfit(error),
        }
    }

    open spec fn writes(value: StartupResult, wire: wire::StartupResult) -> bool {
        match (wire, value) {
            (wire::StartupResult::Draft(pointer), Ok(StartupSuccess::Draft(draft))) => pointer_writes::<
                DraftDefaults,
            >(draft, pointer),
            (
                wire::StartupResult::Attached(pointer),
                Ok(StartupSuccess::Attached(attached)),
            ) => pointer_writes::<OpenSuccess>(attached, pointer),
            (wire::StartupResult::Error(pointer), Err(error)) => pointer_writes::<CommandError>(
                error,
                pointer,
            ),
            _ => false,
        }
    }

    open spec fn survives(value: StartupResult) -> bool {
        match value {
            Ok(StartupSuccess::Draft(draft)) => DraftDefaults::survives(draft),
            Ok(StartupSuccess::Attached(attached)) => OpenSuccess::survives(attached),
            Err(error) => true,
        }
    }

    fn from_wire(wire: &wire::StartupResult) -> (result: Result<StartupResult, RpcConversionError>) {
        match wire {
            wire::StartupResult::Draft(draft) => Ok(
                Ok(StartupSuccess::Draft(read_pointer::<DraftDefaults>(draft)?)),
            ),
            wire::StartupResult::Attached(attached) => Ok(
                Ok(StartupSuccess::Attached(read_pointer::<OpenSuccess>(attached)?)),
            ),
            wire::StartupResult::Error(error) => Ok(Err(read_pointer::<CommandError>(error)?)),
            wire::StartupResult::Unknown(value) => Err(
                RpcConversionError::UnknownUnion { name: "StartupResult", value: *value },
            ),
        }
    }

    fn to_wire(value: &StartupResult) -> (result: Result<wire::StartupResult, RpcConversionError>) {
        match value {
            Ok(StartupSuccess::Draft(draft)) => Ok(
                wire::StartupResult::Draft(write_pointer::<DraftDefaults>(draft)?),
            ),
            Ok(StartupSuccess::Attached(attached)) => Ok(
                wire::StartupResult::Attached(write_pointer::<OpenSuccess>(attached)?),
            ),
            Err(error) => Ok(wire::StartupResult::Error(write_pointer::<CommandError>(error)?)),
        }
    }

    proof fn round_trip(value: StartupResult, wire: wire::StartupResult) {
        match (wire, value) {
            (wire::StartupResult::Draft(pointer), Ok(StartupSuccess::Draft(draft))) => {
                lemma_pointer_round_trip::<DraftDefaults>(draft, pointer);
            },
            (wire::StartupResult::Attached(pointer), Ok(StartupSuccess::Attached(attached))) => {
                lemma_pointer_round_trip::<OpenSuccess>(attached, pointer);
            },
            (wire::StartupResult::Error(pointer), Err(error)) => {
                lemma_pointer_round_trip::<CommandError>(error, pointer);
            },
            _ => {},
        }
    }
}

/// Writes the result of selecting startup state.
pub fn write_startup_result(value: &StartupResult) -> (result: Result<wire::StartupResult, RpcConversionError>)
    ensures
        write_outcome::<StartupResult>(*value, result),
{
    StartupResult::to_wire(value)
}

/// Reads the result of selecting startup state.
pub fn read_startup_result(reader: &wire::StartupResult) -> (result: Result<StartupResult, RpcConversionError>)
    ensures
        read_outcome::<StartupResult>(*reader, result),
{
    StartupResult::from_wire(reader)
}

impl Conversion for SubmitResult {
    type Wire = wire::SubmitResult;

    open spec fn fault(wire: wire::SubmitResult) -> Option<RpcConversionError> {
        match wire {
            wire::SubmitResult::RunId(_) => None,
            wire::SubmitResult::Error(error) => pointer_fault::<CommandError>(error),
            wire::SubmitResult::Unknown(value) => Some(
                RpcConversionError::UnknownUnion { name: "SubmitResult", value },
            ),
        }
    }

    open spec fn reads(wire: wire::SubmitResult, value: SubmitResult) -> bool {
        match (wire, value) {
            (wire::SubmitResult::RunId(id), Ok(run_id)) => run_id == id,
            (wire::SubmitResult::Error(pointer), Err(error)) => pointer_reads::<CommandError>(
                pointer,
                error,
            ),
            _ => false,
        }
    }

    open spec fn unfit(value: SubmitResult) -> Option<RpcConversionError> {
        match value {
            Ok(_) => None,
            Err(error) => CommandError::unfit(error),
        }
    }

    open spec fn writes(value: SubmitResult, wire: wire::SubmitResult) -> bool {
        match (wire, value) {
            (wire::SubmitResult::RunId(id), Ok(run_id)) => run_id == id,
            (wire::SubmitResult::Error(pointer), Err(error)) => pointer_writes::<CommandError>(
                error,
                pointer,
            ),
            _ => false,
        }
    }

    open spec fn survives(value: SubmitResult) -> bool {
        true
    }

    fn from_wire(wire: &wire::SubmitResult) -> (result: Result<SubmitResult, RpcConversionError>) {
        match wire {
            wire::SubmitResult::RunId(run_id) => Ok(Ok(*run_id)),
            wire::SubmitResult::Error(error) => Ok(Err(read_pointer::<CommandError>(error)?)),
            wire::SubmitResult::Unknown(value) => Err(
                RpcConversionError::UnknownUnion { name: "SubmitResult", value: *value },
            ),
        }
    }

    fn to_wire(value: &SubmitResult) -> (result: Result<wire::SubmitResult, RpcConversionError>) {
        match value {
            Ok(run_id) => Ok(wire::SubmitResult::RunId(*run_id)),
            Err(error) => Ok(wire::SubmitResult::Error(write_pointer::<CommandError>(error)?)),
        }
    }

    proof fn round_trip(value: SubmitResult, wire: wire::SubmitResult) {
        if let (wire::SubmitResult::Error(pointer), Err(error)) = (wire, value) {
            lemma_pointer_round_trip::<CommandError>(error, pointer);
        }
    }
}

/// Writes the result of submitting a prompt.
pub fn write_submit_result(value: &SubmitResult) -> (result: Result<wire::SubmitResult, RpcConversionError>)
    ensures
        write_outcome::<SubmitResult>(*value, result),
{
    SubmitResult::to_wire(value)
}

/// Reads the result of submitting a prompt.
pub fn read_submit_result(reader: &wire::SubmitResult) -> (result: Result<SubmitResult, RpcConversionError>)
    ensures
        read_outcome::<SubmitResult>(*reader, result),
{
    SubmitResult::from_wire(reader)
}

impl Conversion for CommandResult {
    type Wire = wire::CommandResult;

    open spec fn fault(wire: wire::CommandResult) -> Option<RpcConversionError> {
        match wire.union {
            wire::CommandUnion::Success => None,
            wire::CommandUnion::Error(error) => pointer_fault::<CommandError>(error),
            wire::CommandUnion::Unknown(value) => Some(
                RpcConversionError::UnknownUnion { name: "CommandResult", value },
            ),
        }
    }

    open spec fn reads(wire: wire::CommandResult, value: CommandResult) -> bool {
        match (wire.union, value) {
            (wire::CommandUnion::Success, Ok(_)) => true,
            (wire::CommandUnion::Error(pointer), Err(error)) => pointer_reads::<CommandError>(
                pointer,
                error,
            ),
            _ => false,
        }
    }

    open spec fn unfit(value: CommandResult) -> Option<RpcConversionError> {
        match value {
            Ok(_) => None,
            Err(error) => CommandError::unfit(error),
        }
    }

    open spec fn writes(value: CommandResult, wire: wire::CommandResult) -> bool {
        match (wire.union, value) {
            (wire::CommandUnion::Success, Ok(_)) => wire.attached_clients == 0,
            (wire::CommandUnion::Error(pointer), Err(error)) => wire.attached_clients == 0
                && pointer_writes::<CommandError>(error, pointer),
            _ => false,
        }
    }

    open spec fn survives(value: CommandResult) -> bool {
        true
    }

    fn from_wire(wire: &wire::CommandResult) -> (result: Result<CommandResult, RpcConversionError>) {
        match &wire.union {
            wire::CommandUnion::Success => Ok(Ok(())),
            wire::CommandUnion::Error(error) => Ok(Err(read_pointer::<CommandError>(error)?)),
            wire::CommandUnion::Unknown(value) => Err(
                RpcConversionError::UnknownUnion { name: "CommandResult", value: *value },
            ),
        }
    }

    fn to_wire(value: &CommandResult) -> (result: Result<wire::CommandResult, RpcConversionError>) {
        match value {
            Ok(_) => Ok(
                wire::CommandResult { union: wire::CommandUnion::Success, attached_clients: 0 },
            ),
            Err(error) => Ok(
                wire::CommandResult {
                    union: wire::CommandUnion::Error(write_pointer::<CommandError>(error)?),
                    attached_clients: 0,
                },
            ),
        }
    }

    proof fn round_trip(value: CommandResult, wire: wire::CommandResult) {
        if let (wire::CommandUnion::Error(pointer), Err(error)) = (wire.union, value) {
            lemma_pointer_round_trip::<CommandError>(error, pointer);
        }
    }
}

/// Writes the result of a command without a success value.
pub fn write_command_result(value: &CommandResult) -> (result: Result<wire::CommandResult, RpcConversionError>)
    ensures
        write_outcome::<CommandResult>(*value, result),
{
    CommandResult::to_wire(value)
}

/// Reads the result of a command without a success value.
pub fn read_command_result(reader: &wire::CommandResult) -> (result: Result<CommandResult, RpcConversionError>)
    ensures
        read_outcome::<CommandResult>(*reader, result),
{
    CommandResult::from_wire(reader)
}

impl Conversion for DetachResult {
    type Wire = wire::CommandResult;

    open spec fn fault(wire: wire::CommandResult) -> Option<RpcConversionError> {
        match wire.union {
            wire::CommandUnion::Success => None,
            wire::CommandUnion::Error(error) => pointer_fault::<CommandError>(error),
            wire::CommandUnion::Unknown(value) => Some(
                RpcConversionError::UnknownUnion { name: "CommandResult", value },
            ),
        }
    }

    open spec fn reads(wire: wire::CommandResult, value: DetachResult) -> bool {
        match (wire.union, value) {
            (wire::CommandUnion::Success, Ok(clients)) => clients == wire.attached_clients,
            (wire::CommandUnion::Error(pointer), Err(error)) => pointer_reads::<CommandError>(
                pointer,
                error,
            ),
            _ => false,
        }
    }

    open spec fn unfit(value: DetachResult) -> Option<RpcConversionError> {
        match value {
            Ok(_) => None,
            Err(error) => CommandError::unfit(error),
        }
    }

    open spec fn writes(value: DetachResult, wire: wire::CommandResult) -> bool {
        match (wire.union, value) {
            (wire::CommandUnion::Success, Ok(clients)) => wire.attached_clients == clients,
            (wire::CommandUnion::Error(pointer), Err(error)) => wire.attached_clients == 0
                && pointer_writes::<CommandError>(error, pointer),
            _ => false,
        }
    }

    open spec fn survives(value: DetachResult) -> bool {
        true
    }

    fn from_wire(wire: &wire::CommandResult) -> (result: Result<DetachResult, RpcConversionError>) {
        match &wire.union {
            wire::CommandUnion::Success => Ok(Ok(wire.attached_clients)),
            wire::CommandUnion::Error(error) => Ok(Err(read_pointer::<CommandError>(error)?)),
            wire::CommandUnion::Unknown(value) => Err(
                RpcConversionError::UnknownUnion { name: "CommandResult", value: *value },
            ),
        }
    }

    fn to_wire(value: &DetachResult) -> (result: Result<wire::CommandResult, RpcConversionError>) {
        match value {
            Ok(clients) => Ok(
                wire::CommandResult { union: wire::CommandUnion::Success, attached_clients: *clients },
            ),
            Err(error) => Ok(
                wire::CommandResult {
                    union: wire::CommandUnion::Error(write_pointer::<CommandError>(error)?),
                    attached_clients: 0,
                },
            ),
        }
    }

    proof fn round_trip(value: DetachResult, wire: wire::CommandResult) {
        if let (wire::CommandUnion::Error(pointer), Err(error)) = (wire.union, value) {
            lemma_pointer_round_trip::<CommandError>(error, pointer);
        }
    }
}

/// Writes the result of an exact detach.
pub fn write_detach_result(value: &DetachResult) -> (result: Result<wire::CommandResult, RpcConversionError>)
    ensures
        write_outcome::<DetachResult>(*value, result),
{
    DetachResult::to_wire(value)
}

/// Reads the result of an exact detach.
pub fn read_detach_result(reader: &wire::CommandResult) -> (result: Result<DetachResult, RpcConversionError>)
    ensures
        read_outcome::<DetachResult>(*reader, result),
{
    DetachResult::from_wire(reader)
}

/// Every value of the session has the wire value of the same name, one to one.
pub proof fn lemma_wire_values_keep_their_names(value: ErrorCode, level: ReasoningLevel)
    ensures
        value == ErrorCode::Busy <==> error_code_on_wire(value) == wire::ErrorCode::Busy,
        value == ErrorCode::NotRunning <==> error_code_on_wire(value) == wire::ErrorCode::NotRunning,
        value == ErrorCode::SessionNotFound <==> error_code_on_wire(value)
            == wire::ErrorCode::SessionNotFound,
        value == ErrorCode::AmbiguousTitle <==> error_code_on_wire(value)
            == wire::ErrorCode::AmbiguousTitle,
        value == ErrorCode::SessionNameConflict <==> error_code_on_wire(value)
            == wire::ErrorCode::SessionNameConflict,
        value == ErrorCode::InvalidArgument <==> error_code_on_wire(value)
            == wire::ErrorCode::InvalidArgument,
        value == ErrorCode::ModelNotFound <==> error_code_on_wire(value)
            == wire::ErrorCode::ModelNotFound,
        value == ErrorCode::UnsupportedReasoning <==> error_code_on_wire(value)
            == wire::ErrorCode::UnsupportedReasoning,
        value == ErrorCode::JobNotFound <==> error_code_on_wire(value)
            == wire::ErrorCode::JobNotFound,
        value == ErrorCode::BackendStarting <==> error_code_on_wire(value)
            == wire::ErrorCode::BackendStarting,
        value == ErrorCode::BackendUnavailable <==> error_code_on_wire(value)
            == wire::ErrorCode::BackendUnavailable,
        value == ErrorCode::Persistence <==> error_code_on_wire(value)
            == wire::ErrorCode::Persistence,
        value == ErrorCode::SessionDeleting <==> error_code_on_wire(value)
            == wire::ErrorCode::SessionDeleting,
        value == ErrorCode::SessionDeleted <==> error_code_on_wire(value)
            == wire::ErrorCode::SessionDeleted,
        value == ErrorCode::Internal <==> error_code_on_wire(value) == wire::ErrorCode::Internal,
        level == ReasoningLevel::NoReasoning <==> reasoning_level_on_wire(level)
            == wire::ReasoningLevel::NoReasoning,
        level == ReasoningLevel::Minimal <==> reasoning_level_on_wire(level)
            == wire::ReasoningLevel::Minimal,
        level == ReasoningLevel::Low <==> reasoning_level_on_wire(level)
            == wire::ReasoningLevel::Low,
        level == ReasoningLevel::Medium <==> reasoning_level_on_wire(level)
            == wire::ReasoningLevel::Medium,
        level == ReasoningLevel::High <==> reasoning_level_on_wire(level)
            == wire::ReasoningLevel::High,
        level == ReasoningLevel::Xhigh <==> reasoning_level_on_wire(level)
            == wire::ReasoningLevel::Xhigh,
        level == ReasoningLevel::Max <==> reasoning_level_on_wire(level)
            == wire::ReasoningLevel::Max,
{
}

/// The states of jobs and steps have the wire values of the same names.
pub proof fn lemma_wire_states_keep_their_names(state: JobState, status: PlanStatus, stage: RunStage)
    ensures
        state == JobState::Running <==> job_state_on_wire(state) == wire::JobState::Running,
        state == JobState::Completed <==> job_state_on_wire(state) == wire::JobState::Completed,
        state == JobState::Failed <==> job_state_on_wire(state) == wire::JobState::Failed,
        state == JobState::Cancelled <==> job_state_on_wire(state) == wire::JobState::Cancelled,
        status == PlanStatus::Pending <==> plan_status_on_wire(status)
            == wire::PlanStatus::Pending,
        status == PlanStatus::InProgress <==> plan_status_on_wire(status)
            == wire::PlanStatus::InProgress,
        status == PlanStatus::Completed <==> plan_status_on_wire(status)
            == wire::PlanStatus::Completed,
        status == PlanStatus::Blocked <==> plan_status_on_wire(status)
            == wire::PlanStatus::Blocked,
        status == PlanStatus::Cancelled <==> plan_status_on_wire(status)
            == wire::PlanStatus::Cancelled,
        stage == RunStage::Startup <==> run_stage_on_wire(stage) == wire::RunStage::Startup,
        stage == RunStage::ModelRequest <==> run_stage_on_wire(stage)
            == wire::RunStage::ModelRequest,
        stage == RunStage::ToolExecution <==> run_stage_on_wire(stage)
            == wire::RunStage::ToolExecution,
        stage == RunStage::Finalization <==> run_stage_on_wire(stage)
            == wire::RunStage::Finalization,
{
}

/// A refused command is reported in the category of its failure, with its own words.
pub proof fn lemma_commands_are_refused_in_their_category()
    ensures
        forall|error: &SessionCommandError, reported: CommandError| #[trigger]
            call_ensures(CommandError::from_session, (error,), reported) ==> {
                let failure = error->Local_failure;
                &&& error is Reported ==> reported.code == error->Reported_code
                    && reported.message@ == error->Reported_message@
                &&& error is Local ==> reported.message@ == error->Local_message@
                &&& error is Local && failure == SessionFailure::Busy ==> reported.code
                    == ErrorCode::Busy
                &&& error is Local && failure == SessionFailure::NotRunning ==> reported.code
                    == ErrorCode::NotRunning
                &&& error is Local && failure == SessionFailure::ModelNotFound ==> reported.code
                    == ErrorCode::ModelNotFound
                &&& error is Local && failure == SessionFailure::UnsupportedReasoning
                    ==> reported.code == ErrorCode::UnsupportedReasoning
                &&& error is Local && (failure == SessionFailure::InvalidJobId || failure
                    == SessionFailure::InvalidPrompt) ==> reported.code
                    == ErrorCode::InvalidArgument
                &&& error is Local && failure == SessionFailure::JobNotFound ==> reported.code
                    == ErrorCode::JobNotFound
                &&& error is Local && failure == SessionFailure::Persistence ==> reported.code
                    == ErrorCode::Persistence
                &&& error is Local && failure == SessionFailure::Deleting ==> reported.code
                    == ErrorCode::SessionDeleting
                &&& error is Local && failure == SessionFailure::Unavailable ==> reported.code
                    == ErrorCode::BackendUnavailable
                &&& error is Local && (failure == SessionFailure::RunIdExhausted || failure
                    == SessionFailure::Job || failure == SessionFailure::Projection)
                    ==> reported.code == ErrorCode::Internal
                &&& reported.ids@.len() == 0
            },
{
}

/// A summary and the settings travel in the fields of the same names.
pub proof fn lemma_summaries_travel_field_by_field(
    summary: SessionSummary,
    sent: wire::SessionSummary,
    settings: SessionSettings,
    written: wire::SessionSettings,
)
    ensures
        SessionSummary::writes(summary, sent) ==> {
            &&& sent.id->Value_0@ == encode_utf8(session_id_text(summary.id))
            &&& sent.title->Value_0@ == encode_utf8(summary.title.value@)
            &&& sent.cwd->Value_0@ == summary.cwd@
            &&& sent.cwd_display->Value_0@ == encode_utf8(summary.cwd_display@)
            &&& sent.title_revision == summary.title_revision
            &&& sent.busy == summary.busy && sent.running == summary.running
            &&& sent.attached_clients == summary.attached_clients && sent.running_jobs
                == summary.running_jobs
        },
        SessionSummary::reads(sent, summary) ==> {
            &&& summary.cwd@ == sent.cwd->Value_0@
            &&& summary.title_revision == sent.title_revision
            &&& summary.busy == sent.busy && summary.running == sent.running
            &&& summary.attached_clients == sent.attached_clients && summary.running_jobs
                == sent.running_jobs
            &&& summary.cwd_display@ == text_of(sent.cwd_display)
            &&& session_id_of(text_of(sent.id)) == Some(summary.id)
        },
        SessionSettings::writes(settings, written) ==> written.model->Value_0@ == encode_utf8(
            settings.model@,
        ) && written.context_tokens == settings.context_tokens && written.reasoning
            == Schema::Known(reasoning_level_on_wire(settings.reasoning)),
{
}

} // verus!
