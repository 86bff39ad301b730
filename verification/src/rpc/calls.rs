//! The calls of a client: what is sent for each, and what its answer means.
//!
//! The caller sends the arguments and hands over the answer, or why the connection gave none.

use vstd::prelude::*;

use super::client::{
    negotiate, negotiated, reported_error, reported_result, AttachmentIds, FollowStep,
    ObserverMessage, RecoveredAttachment, RpcBackendInfo, RpcClientError, SessionFollower,
};
use super::convert::{
    read_command_result, read_detach_result, read_draft_defaults_result, read_event_envelope,
    read_job_list_result, read_job_result, read_materialize_result, read_open_result,
    read_protocol_info, read_result_outcome, read_session_list_result, read_startup_result,
    read_submit_result, scope_unfit, scope_writes, write_reasoning_level,
    write_session_list_scope, CommandError, CommandResult, MaterializeSuccess, OpenSuccess,
    ProtocolInfo, StartupResult, StartupSuccess, SubmitResult,
};
use super::fields::{
    read_outcome, validate_inbound_field_length, write_outcome, Conversion, RpcConversionError,
    MAX_RPC_CWD_BYTES, MAX_RPC_PROMPT_BYTES,
};
use super::params::{
    write_cancel_job_params, write_delete_session_params, write_draft_defaults_params,
    write_materialize_params, write_open_session_params, write_rename_session_params,
    write_select_model_params, write_startup_params, write_submit_params, CancelJobRequest,
    DeleteSessionRequest, DraftDefaultsRequest, MaterializeRequest, OpenSessionRequest,
    RenameSessionRequest, SelectModelRequest, StartupRequest, SubmitRequest,
};
use super::wire;
use crate::client::session::SessionUpdate;
use crate::session::{
    AttachmentId, DraftDefaults, JobSnapshotDto, ReasoningLevel, SessionEventEnvelope, SessionId,
    SessionListScope, SessionSelector, SessionSettings, SessionSnapshot, SessionSummary, SessionTitle,
};

verus! {

/// The result of a call by what was read of its answer.
pub open spec fn call_result<T>(read: Result<Result<T, CommandError>, RpcConversionError>) -> Result<
    T,
    RpcClientError,
> {
    match read {
        Err(error) => Err(RpcClientError::Conversion(error)),
        Ok(Err(error)) => Err(reported_error(error)),
        Ok(Ok(value)) => Ok(value),
    }
}

fn result_of<T>(read: Result<Result<T, CommandError>, RpcConversionError>) -> (result: Result<
    T,
    RpcClientError,
>)
    ensures
        result == call_result(read),
{
    match read {
        Err(error) => Err(RpcClientError::Conversion(error)),
        Ok(result) => reported_result(result),
    }
}

/// Arguments are sent as they are written, or refused where they cannot be.
pub open spec fn sends<T: Conversion>(value: T, result: Result<T::Wire, RpcClientError>) -> bool {
    match result {
        Ok(wire) => write_outcome::<T>(value, Ok(wire)),
        Err(RpcClientError::Conversion(error)) => write_outcome::<T>(value, Err(error)),
        Err(_) => false,
    }
}

fn sent<W>(written: Result<W, RpcConversionError>) -> (result: Result<W, RpcClientError>)
    ensures
        result == match written {
            Ok(wire) => Ok::<W, RpcClientError>(wire),
            Err(error) => Err(RpcClientError::Conversion(error)),
        },
{
    match written {
        Ok(wire) => Ok(wire),
        Err(error) => Err(RpcClientError::Conversion(error)),
    }
}

/// An answer with its own conversion, or why none came, gives a result.
pub open spec fn answers<T>(
    reply: Result<<Result<T, CommandError> as Conversion>::Wire, String>,
    result: Result<T, RpcClientError>,
) -> bool where Result<T, CommandError>: Conversion {
    match reply {
        Err(source) => result == Err::<T, RpcClientError>(RpcClientError::Connection(source)),
        Ok(wire) => exists|read: Result<Result<T, CommandError>, RpcConversionError>| #[trigger]
            read_outcome::<Result<T, CommandError>>(wire, read) && result == call_result(read),
    }
}

/// An answer that is a union of one success and an error, or why none came, gives a result.
pub open spec fn answers_in_union<T: Conversion>(
    reply: Result<wire::ResultUnion<T::Wire>, String>,
    name: &'static str,
    result: Result<T, RpcClientError>,
) -> bool {
    match reply {
        Err(source) => result == Err::<T, RpcClientError>(RpcClientError::Connection(source)),
        Ok(wire) => exists|read: Result<Result<T, CommandError>, RpcConversionError>| #[trigger]
            read_result_outcome::<T>(wire, name, read) && result == call_result(read),
    }
}

/// The answer to a request for draft defaults.
pub fn draft_defaults_reply(reply: Result<wire::ResultUnion<wire::DraftDefaults>, String>) -> (result: Result<DraftDefaults, RpcClientError>)
    ensures
        answers_in_union::<DraftDefaults>(reply, "DraftDefaultsResult", result),
{
    match reply {
        Err(source) => Err(RpcClientError::Connection(source)),
        Ok(wire) => {
            let read = read_draft_defaults_result(&wire);
            assert(read_result_outcome::<DraftDefaults>(wire, "DraftDefaultsResult", read));
            result_of(read)
        },
    }
}

/// The answer to a request for a list of sessions.
pub fn session_list_reply(reply: Result<wire::ResultUnion<Vec<wire::SessionSummary>>, String>) -> (result: Result<Vec<SessionSummary>, RpcClientError>)
    ensures
        answers_in_union::<Vec<SessionSummary>>(reply, "SessionListResult", result),
{
    match reply {
        Err(source) => Err(RpcClientError::Connection(source)),
        Ok(wire) => {
            let read = read_session_list_result(&wire);
            assert(read_result_outcome::<Vec<SessionSummary>>(wire, "SessionListResult", read));
            result_of(read)
        },
    }
}

/// The answer to a request for the jobs of a session.
pub fn job_list_reply(reply: Result<wire::ResultUnion<Vec<wire::JobSnapshot>>, String>) -> (result: Result<Vec<JobSnapshotDto>, RpcClientError>)
    ensures
        answers_in_union::<Vec<JobSnapshotDto>>(reply, "JobListResult", result),
{
    match reply {
        Err(source) => Err(RpcClientError::Connection(source)),
        Ok(wire) => {
            let read = read_job_list_result(&wire);
            assert(read_result_outcome::<Vec<JobSnapshotDto>>(wire, "JobListResult", read));
            result_of(read)
        },
    }
}

/// The answer to a request to stop a job.
pub fn job_reply(reply: Result<wire::ResultUnion<wire::JobSnapshot>, String>) -> (result: Result<JobSnapshotDto, RpcClientError>)
    ensures
        answers_in_union::<JobSnapshotDto>(reply, "JobResult", result),
{
    match reply {
        Err(source) => Err(RpcClientError::Connection(source)),
        Ok(wire) => {
            let read = read_job_result(&wire);
            assert(read_result_outcome::<JobSnapshotDto>(wire, "JobResult", read));
            result_of(read)
        },
    }
}

/// The answer to a command without a value.
pub fn command_reply(reply: Result<wire::CommandResult, String>) -> (result: Result<(), RpcClientError>)
    ensures
        answers::<()>(reply, result),
{
    match reply {
        Err(source) => Err(RpcClientError::Connection(source)),
        Ok(wire) => {
            let read = read_command_result(&wire);
            assert(read_outcome::<Result<(), CommandError>>(wire, read));
            result_of(read)
        },
    }
}

/// The answer to a prompt: the number of its run.
pub fn submit_reply(reply: Result<wire::SubmitResult, String>) -> (result: Result<u64, RpcClientError>)
    ensures
        answers::<u64>(reply, result),
{
    match reply {
        Err(source) => Err(RpcClientError::Connection(source)),
        Ok(wire) => {
            let read = read_submit_result(&wire);
            assert(read_outcome::<Result<u64, CommandError>>(wire, read));
            result_of(read)
        },
    }
}

/// The answer to a detach: the number of clients that are still attached.
pub fn detach_reply(reply: Result<wire::CommandResult, String>) -> (result: Result<u32, RpcClientError>)
    ensures
        answers::<u32>(reply, result),
{
    match reply {
        Err(source) => Err(RpcClientError::Connection(source)),
        Ok(wire) => {
            let read = read_detach_result(&wire);
            assert(read_outcome::<Result<u32, CommandError>>(wire, read));
            result_of(read)
        },
    }
}

/// A session that a client is attached to.
#[derive(Debug)]
pub struct RpcSessionClient {
    session: wire::SessionCapability,
    follower: SessionFollower,
}

/// What a startup selected.
#[derive(Debug)]
pub enum RpcStartup {
    Draft(DraftDefaults),
    Attached(RpcSessionClient),
}

/// A session that a first prompt made durable.
#[derive(Debug)]
pub struct MaterializedSession {
    pub session: RpcSessionClient,
    pub run_id: u64,
}

/// A client is attached to the opened session, from its snapshot on.
pub open spec fn is_attached(
    client: RpcSessionClient,
    session: wire::SessionCapability,
    snapshot: SessionSnapshot,
    attachment: u64,
) -> bool {
    client.capability() == session && client.follower().state()
        == super::client::FollowerView::from(snapshot.deep_view(), attachment)
}

impl RpcSessionClient {
    /// The capability of the session.
    pub closed spec fn capability(&self) -> wire::SessionCapability {
        self.session
    }

    /// The state of following the session.
    pub closed spec fn follower(&self) -> SessionFollower {
        self.follower
    }

    fn new(
        session: wire::SessionCapability,
        snapshot: SessionSnapshot,
        attachment: u64,
    ) -> (client: Self)
        ensures
            is_attached(client, session, snapshot, attachment),
    {
        RpcSessionClient { session, follower: SessionFollower::new(snapshot, attachment) }
    }

    /// The snapshot of the latest attachment.
    pub fn snapshot(&self) -> (snapshot: &SessionSnapshot)
        ensures
            snapshot.deep_view() == self.follower().state().snapshot,
    {
        self.follower.snapshot()
    }

    /// The session that every call goes to.
    pub fn session(&self) -> (session: wire::SessionCapability)
        ensures
            session == self.capability(),
    {
        self.session
    }

    /// The number of the current attachment.
    pub fn attachment_id(&self) -> (id: u64)
        ensures
            id == self.follower().state().attachment_id,
    {
        self.follower.attachment_id()
    }

    /// How the session is attached again: by the identifier of the first attachment.
    pub fn reattach_selector(&self) -> (selector: SessionSelector)
        ensures
            selector == SessionSelector::Id(self.follower().state().session_id),
    {
        self.follower.reattach_selector()
    }

    /// Decides what to do for the next update.
    pub fn next(&mut self, connection_closed: bool) -> (step: FollowStep)
        ensures
            old(self).follower().state().goes_on(
                connection_closed,
                step,
                final(self).follower().state(),
            ),
            final(self).capability() == old(self).capability(),
    {
        self.follower.next(connection_closed)
    }

    /// Takes a callback, or `None` where the observer was closed.
    pub fn received(&mut self, message: Option<ObserverMessage>) -> (step: FollowStep)
        ensures
            old(self).follower().state().receives(message, step, final(self).follower().state()),
            final(self).capability() == old(self).capability(),
    {
        self.follower.received(message)
    }

    /// Takes the end of a recovery: where it succeeded, every later call goes to the session that
    /// was opened.
    pub fn recovered(&mut self, result: Result<RecoveredAttachment, RpcClientError>) -> (update:
        Result<SessionUpdate, RpcClientError>)
        ensures
            old(self).follower().state().recovers(result, update, final(self).follower().state()),
            final(self).capability() == match result {
                Ok(recovered) => recovered.session,
                Err(_) => old(self).capability(),
            },
    {
        if let Ok(recovered) = &result {
            self.session = recovered.session;
        }
        self.follower.recovered(result)
    }

    /// The arguments that submit a prompt.
    pub fn submit(&self, prompt: String) -> (result: Result<wire::SubmitParams, RpcClientError>)
        ensures
            sends::<SubmitRequest>(SubmitRequest { prompt }, result),
    {
        sent(write_submit_params(&SubmitRequest { prompt }))
    }

    /// The arguments that select a model.
    pub fn select_model(&self, model: String) -> (result: Result<
        wire::SelectModelParams,
        RpcClientError,
    >)
        ensures
            sends::<SelectModelRequest>(SelectModelRequest { model }, result),
    {
        sent(write_select_model_params(&SelectModelRequest { model }))
    }

    /// The argument that selects a reasoning level.
    pub fn select_reasoning(&self, level: ReasoningLevel) -> (wire: wire::ReasoningLevel)
        ensures
            wire == super::convert::reasoning_level_on_wire(level),
    {
        write_reasoning_level(level)
    }

    /// The arguments that stop a job.
    pub fn cancel_job(&self, job_id: String) -> (result: Result<
        wire::CancelJobParams,
        RpcClientError,
    >)
        ensures
            sends::<CancelJobRequest>(CancelJobRequest { job_id }, result),
    {
        sent(write_cancel_job_params(&CancelJobRequest { job_id }))
    }

    /// The session that is detached from, and the number of the attachment.
    pub fn detach(self) -> (detached: (wire::SessionCapability, u64))
        ensures
            detached == (self.capability(), self.follower().state().attachment_id),
    {
        (self.session, self.follower.attachment_id())
    }
}

/// The answer to a request to open a session under an attachment.
pub fn open_reply(
    reply: Result<wire::ResultUnion<wire::OpenSuccess>, String>,
    attachment: u64,
) -> (result: Result<RpcSessionClient, RpcClientError>)
    ensures
        match result {
            Ok(client) => exists|opened: OpenSuccess| #[trigger]
                answers_in_union::<OpenSuccess>(reply, "OpenResult", Ok(opened)) && is_attached(
                    client,
                    opened.session,
                    opened.snapshot,
                    attachment,
                ),
            Err(error) => answers_in_union::<OpenSuccess>(reply, "OpenResult", Err(error)),
        },
{
    match reply {
        Err(source) => Err(RpcClientError::Connection(source)),
        Ok(wire) => {
            let read = read_open_result(&wire);
            assert(read_result_outcome::<OpenSuccess>(wire, "OpenResult", read));
            match result_of(read) {
                Ok(opened) => {
                    assert(answers_in_union::<OpenSuccess>(reply, "OpenResult", Ok(opened)));
                    Ok(RpcSessionClient::new(opened.session, opened.snapshot, attachment))
                },
                Err(error) => Err(error),
            }
        },
    }
}

/// The answer to a request for a startup under an attachment.
pub fn startup_reply(reply: Result<wire::StartupResult, String>, attachment: u64) -> (result: Result<
    RpcStartup,
    RpcClientError,
>)
    ensures
        match result {
            Ok(RpcStartup::Draft(draft)) => answers::<StartupSuccess>(
                reply,
                Ok(StartupSuccess::Draft(draft)),
            ),
            Ok(RpcStartup::Attached(client)) => exists|opened: OpenSuccess| #[trigger]
                answers::<StartupSuccess>(reply, Ok(StartupSuccess::Attached(opened)))
                    && is_attached(client, opened.session, opened.snapshot, attachment),
            Err(error) => answers::<StartupSuccess>(reply, Err(error)),
        },
{
    match reply {
        Err(source) => Err(RpcClientError::Connection(source)),
        Ok(wire) => {
            let read = read_startup_result(&wire);
            assert(read_outcome::<StartupResult>(wire, read));
            match result_of(read) {
                Ok(StartupSuccess::Draft(draft)) => Ok(RpcStartup::Draft(draft)),
                Ok(StartupSuccess::Attached(opened)) => {
                    assert(answers::<StartupSuccess>(reply, Ok(StartupSuccess::Attached(opened))));
                    Ok(
                        RpcStartup::Attached(
                            RpcSessionClient::new(opened.session, opened.snapshot, attachment),
                        ),
                    )
                },
                Err(error) => Err(error),
            }
        },
    }
}

/// The answer to a request that makes a first prompt durable under an attachment.
pub fn materialize_reply(
    reply: Result<wire::ResultUnion<wire::MaterializeSuccess>, String>,
    attachment: u64,
) -> (result: Result<MaterializedSession, RpcClientError>)
    ensures
        match result {
            Ok(materialized) => exists|success: MaterializeSuccess| #[trigger]
                answers_in_union::<MaterializeSuccess>(reply, "MaterializeResult", Ok(success))
                    && is_attached(
                    materialized.session,
                    success.session,
                    success.snapshot,
                    attachment,
                ) && materialized.run_id == success.run_id,
            Err(error) => answers_in_union::<MaterializeSuccess>(
                reply,
                "MaterializeResult",
                Err(error),
            ),
        },
{
    match reply {
        Err(source) => Err(RpcClientError::Connection(source)),
        Ok(wire) => {
            let read = read_materialize_result(&wire);
            assert(read_result_outcome::<MaterializeSuccess>(wire, "MaterializeResult", read));
            match result_of(read) {
                Ok(success) => {
                    assert(answers_in_union::<MaterializeSuccess>(
                        reply,
                        "MaterializeResult",
                        Ok(success),
                    ));
                    Ok(
                        MaterializedSession {
                            session: RpcSessionClient::new(
                                success.session,
                                success.snapshot,
                                attachment,
                            ),
                            run_id: success.run_id,
                        },
                    )
                },
                Err(error) => Err(error),
            }
        },
    }
}

/// What an observer hands on of a callback, and what it reports to the backend where the event
/// cannot be read.
pub fn publish(attachment_id: u64, event: &wire::EventEnvelope) -> (published: (
    ObserverMessage,
    Option<String>,
))
    ensures
        (published.0).attachment_id == attachment_id,
        read_outcome::<SessionEventEnvelope>(*event, (published.0).event),
        match (published.0).event {
            Ok(_) => published.1 is None,
            Err(error) => published.1 is Some && (published.1)->0@ == error.description(),
        },
{
    let event = read_event_envelope(event);
    let fault = match &event {
        Ok(_) => None,
        Err(error) => Some(error.message()),
    };
    (ObserverMessage { attachment_id, event }, fault)
}

/// A connection to a backend that was accepted.
#[derive(Debug)]
pub struct RpcBackendClient {
    info: RpcBackendInfo,
    attachment_ids: AttachmentIds,
}

/// Arguments under a new attachment are refused before the attachment is counted where a bounded
/// field is too long, and after it for any other reason.
pub open spec fn sends_attached<T: Conversion>(
    before: u64,
    after: u64,
    too_long: Option<RpcConversionError>,
    value: spec_fn(AttachmentId) -> T,
    result: Result<(u64, T::Wire), RpcClientError>,
) -> bool {
    if too_long is Some {
        after == before && result == Err::<(u64, T::Wire), RpcClientError>(
            RpcClientError::Conversion(too_long->0),
        )
    } else if before == u64::MAX {
        after == before && result == Err::<(u64, T::Wire), RpcClientError>(
            RpcClientError::AttachmentIdExhausted,
        )
    } else {
        after == before + 1 && match result {
            Ok((attachment, wire)) => attachment == after && write_outcome::<T>(
                value(AttachmentId(after)),
                Ok(wire),
            ),
            Err(RpcClientError::Conversion(error)) => write_outcome::<T>(
                value(AttachmentId(after)),
                Err(error),
            ),
            Err(_) => false,
        }
    }
}

/// What is wrong with a field that is longer than its limit.
pub open spec fn too_long(length: int, limit: int, field: &'static str) -> Option<
    RpcConversionError,
> {
    if length > limit {
        Some(RpcConversionError::FieldTooLong { field })
    } else {
        None
    }
}

impl RpcBackendClient {
    /// What the backend told of itself.
    pub closed spec fn backend(&self) -> RpcBackendInfo {
        self.info
    }

    /// The attachment that was counted last.
    pub closed spec fn last_attachment(&self) -> u64 {
        self.attachment_ids.last()
    }

    /// Accepts a backend by what it tells of itself, or why the connection told nothing.
    pub fn connect(reply: Result<wire::ProtocolInfo, String>) -> (result: Result<
        Self,
        RpcClientError,
    >)
        ensures
            result is Ok ==> result->Ok_0.last_attachment() == 0,
            match reply {
                Err(source) => result == Err::<RpcBackendClient, RpcClientError>(
                    RpcClientError::Connection(source),
                ),
                Ok(wire) => exists|read: Result<ProtocolInfo, RpcConversionError>| #[trigger]
                    read_outcome::<ProtocolInfo>(wire, read) && match (read, result) {
                        (Err(fault), Err(RpcClientError::Conversion(error))) => fault == error,
                        (Ok(info), Ok(client)) => negotiated(info, Ok(client.backend())),
                        (Ok(info), Err(error)) => negotiated(info, Err(error)),
                        _ => false,
                    },
            },
    {
        match reply {
            Err(source) => Err(RpcClientError::Connection(source)),
            Ok(wire) => {
                let read = read_protocol_info(&wire);
                assert(read_outcome::<ProtocolInfo>(wire, read));
                match read {
                    Err(error) => Err(RpcClientError::Conversion(error)),
                    Ok(info) => match negotiate(info) {
                        Ok(info) => Ok(
                            RpcBackendClient { info, attachment_ids: AttachmentIds::default() },
                        ),
                        Err(error) => Err(error),
                    },
                }
            },
        }
    }

    /// What the backend told of itself.
    pub fn info(&self) -> (info: &RpcBackendInfo)
        ensures
            *info == self.backend(),
    {
        &self.info
    }

    /// The arguments that ask for draft defaults.
    pub fn draft_defaults(&self, cwd: Vec<u8>) -> (result: Result<
        wire::DraftDefaultsParams,
        RpcClientError,
    >)
        ensures
            sends::<DraftDefaultsRequest>(DraftDefaultsRequest { cwd }, result),
    {
        sent(write_draft_defaults_params(&DraftDefaultsRequest { cwd }))
    }

    /// The arguments that ask for a startup, under a new attachment.
    pub fn startup(&mut self, cwd: Vec<u8>) -> (result: Result<
        (u64, wire::StartupParams),
        RpcClientError,
    >)
        ensures
            final(self).backend() == old(self).backend(),
            sends_attached::<StartupRequest>(
                old(self).last_attachment(),
                final(self).last_attachment(),
                too_long(cwd@.len() as int, MAX_RPC_CWD_BYTES as int, "cwd"),
                |attachment: AttachmentId| StartupRequest { cwd, attachment },
                result,
            ),
    {
        sent(validate_inbound_field_length(cwd.len(), MAX_RPC_CWD_BYTES, "cwd"))?;
        let id: u64 = self.attachment_ids.allocate()?;
        let request = StartupRequest { cwd, attachment: AttachmentId(id) };
        match write_startup_params(&request) {
            Ok(wire) => Ok((id, wire)),
            Err(error) => Err(RpcClientError::Conversion(error)),
        }
    }

    /// The arguments that make a first prompt durable, under a new attachment.
    pub fn materialize(&mut self, cwd: Vec<u8>, prompt: String, settings: SessionSettings) -> (result:
        Result<(u64, wire::MaterializeParams), RpcClientError>)
        ensures
            final(self).backend() == old(self).backend(),
            sends_attached::<MaterializeRequest>(
                old(self).last_attachment(),
                final(self).last_attachment(),
                if cwd@.len() > MAX_RPC_CWD_BYTES {
                    too_long(cwd@.len() as int, MAX_RPC_CWD_BYTES as int, "cwd")
                } else {
                    too_long(
                        vstd::utf8::encode_utf8(prompt@).len() as int,
                        MAX_RPC_PROMPT_BYTES as int,
                        "prompt",
                    )
                },
                |attachment: AttachmentId|
                    MaterializeRequest { cwd, prompt, settings, attachment },
                result,
            ),
    {
        sent(validate_inbound_field_length(cwd.len(), MAX_RPC_CWD_BYTES, "cwd"))?;
        sent(
            validate_inbound_field_length(
                prompt.as_str().as_bytes().len(),
                MAX_RPC_PROMPT_BYTES,
                "prompt",
            ),
        )?;
        let id: u64 = self.attachment_ids.allocate()?;
        let request = MaterializeRequest { cwd, prompt, settings, attachment: AttachmentId(id) };
        match write_materialize_params(&request) {
            Ok(wire) => Ok((id, wire)),
            Err(error) => Err(RpcClientError::Conversion(error)),
        }
    }

    /// The arguments that open a session, under a new attachment.
    pub fn open_session(&mut self, selector: SessionSelector, cwd_for_title: Vec<u8>) -> (result:
        Result<(u64, wire::OpenSessionParams), RpcClientError>)
        ensures
            final(self).backend() == old(self).backend(),
            sends_attached::<OpenSessionRequest>(
                old(self).last_attachment(),
                final(self).last_attachment(),
                too_long(cwd_for_title@.len() as int, MAX_RPC_CWD_BYTES as int, "cwdForTitle"),
                |attachment: AttachmentId|
                    OpenSessionRequest { selector, cwd_for_title, attachment },
                result,
            ),
    {
        sent(validate_inbound_field_length(cwd_for_title.len(), MAX_RPC_CWD_BYTES, "cwdForTitle"))?;
        let id: u64 = self.attachment_ids.allocate()?;
        let request = OpenSessionRequest { selector, cwd_for_title, attachment: AttachmentId(id) };
        match write_open_session_params(&request) {
            Ok(wire) => Ok((id, wire)),
            Err(error) => Err(RpcClientError::Conversion(error)),
        }
    }

    /// The arguments that list sessions.
    pub fn list_sessions(&self, scope: SessionListScope) -> (result: Result<
        (wire::SessionListScope, wire::Data),
        RpcClientError,
    >)
        ensures
            match result {
                Ok((kind, cwd)) => scope_unfit(scope) is None && scope_writes(scope, kind, cwd),
                Err(RpcClientError::Conversion(error)) => scope_unfit(scope) == Some(error),
                Err(_) => false,
            },
    {
        sent(write_session_list_scope(&scope))
    }

    /// The arguments that rename a session.
    pub fn rename_session(&self, session_id: SessionId, title: SessionTitle) -> (result: Result<
        wire::RenameSessionParams,
        RpcClientError,
    >)
        ensures
            sends::<RenameSessionRequest>(RenameSessionRequest { session_id, title }, result),
    {
        sent(write_rename_session_params(&RenameSessionRequest { session_id, title }))
    }

    /// The arguments that delete a session.
    pub fn delete_session(&self, session_id: SessionId) -> (result: Result<
        wire::DeleteSessionParams,
        RpcClientError,
    >)
        ensures
            sends::<DeleteSessionRequest>(DeleteSessionRequest { session_id }, result),
    {
        sent(write_delete_session_params(&DeleteSessionRequest { session_id }))
    }
}

/// No two attachments of a connection have the same number.
pub proof fn lemma_attachments_are_unique<T: Conversion, U: Conversion>(
    before: u64,
    between: u64,
    after: u64,
    first: Result<(u64, T::Wire), RpcClientError>,
    first_too_long: Option<RpcConversionError>,
    first_value: spec_fn(AttachmentId) -> T,
    second: Result<(u64, U::Wire), RpcClientError>,
    second_too_long: Option<RpcConversionError>,
    second_value: spec_fn(AttachmentId) -> U,
)
    requires
        sends_attached::<T>(before, between, first_too_long, first_value, first),
        sends_attached::<U>(between, after, second_too_long, second_value, second),
        first is Ok,
        second is Ok,
    ensures
        (first->Ok_0).0 < (second->Ok_0).0,
{
}

/// What a call comes to: the value that was sent, the error that the backend reported, a value
/// that could not be read, or a connection that failed.
pub proof fn lemma_calls_come_to_what_was_answered(
    reply: Result<wire::CommandResult, String>,
    result: Result<(), RpcClientError>,
    read: Result<Result<u64, CommandError>, RpcConversionError>,
)
    ensures
        answers::<()>(reply, result) && reply is Err ==> result == Err::<(), RpcClientError>(
            RpcClientError::Connection(reply->Err_0),
        ),
        answers::<()>(reply, result) && result is Ok ==> reply is Ok,
        read is Ok && read->Ok_0 is Ok ==> call_result(read) == Ok::<u64, RpcClientError>(
            read->Ok_0->Ok_0,
        ),
        read is Err ==> call_result(read) == Err::<u64, RpcClientError>(
            RpcClientError::Conversion(read->Err_0),
        ),
        read is Ok && read->Ok_0 is Err && read->Ok_0->Err_0.code
            == crate::session::ErrorCode::AmbiguousTitle ==> call_result(read)->Err_0
            is AmbiguousTitle && call_result(read)->Err_0->ids == read->Ok_0->Err_0.ids,
        read is Ok && read->Ok_0 is Err && read->Ok_0->Err_0.code
            != crate::session::ErrorCode::AmbiguousTitle ==> call_result(read)->Err_0 is Command,
{
}

/// A session that was opened is followed from the snapshot that came with it, under the attachment
/// that was asked for and the capability that was answered.
pub proof fn lemma_opened_sessions_are_followed(
    client: RpcSessionClient,
    session: wire::SessionCapability,
    snapshot: SessionSnapshot,
    attachment: u64,
)
    requires
        is_attached(client, session, snapshot, attachment),
    ensures
        client.capability() == session,
        client.follower().state().attachment_id == attachment,
        client.follower().state().session_id == snapshot.summary.id,
        client.follower().state().expected_sequence == snapshot.sequence,
        client.follower().state().snapshot == snapshot.deep_view(),
        client.follower().state().recovery is None,
{
}

/// Session calls go to the session that is followed: a recovery moves them to the capability that
/// it brought, and detaching names the attachment of the moment.
pub proof fn lemma_calls_go_to_the_followed_session()
    ensures
        forall|
            client: &mut RpcSessionClient,
            result: Result<RecoveredAttachment, RpcClientError>,
            update: Result<SessionUpdate, RpcClientError>,
        | #[trigger]
            call_ensures(RpcSessionClient::recovered, (client, result), update) ==> {
                &&& result is Ok ==> final(client).capability() == result->Ok_0.session && final(
                    client).follower().state().attachment_id == result->Ok_0.attachment_id
                &&& result is Err ==> final(client).capability() == client.capability()
            },
        forall|client: RpcSessionClient, detached: (wire::SessionCapability, u64)| #[trigger]
            call_ensures(RpcSessionClient::detach, (client,), detached) ==> detached.0
                == client.capability() && detached.1 == client.follower().state().attachment_id,
        forall|attachment: u64, event: &wire::EventEnvelope, published: (
            ObserverMessage,
            Option<String>,
        )| #[trigger]
            call_ensures(publish, (attachment, event), published) ==> (
            published.0).attachment_id == attachment && ((published.0).event is Ok
                <==> published.1 is None),
        forall|client: &mut RpcBackendClient, cwd: Vec<u8>, result: Result<
            (u64, wire::StartupParams),
            RpcClientError,
        >| #[trigger]
            call_ensures(RpcBackendClient::startup, (client, cwd), result) ==> {
                &&& result is Ok ==> (result->Ok_0).0 == client.last_attachment() + 1 && final(
                    client).last_attachment() == (result->Ok_0).0
                    && (result->Ok_0).1.attachment_id == (result->Ok_0).0
                    && (result->Ok_0).1.cwd->Value_0@ == cwd@
                &&& cwd@.len() > 16384 ==> result is Err && final(client).last_attachment()
                    == client.last_attachment()
                &&& cwd@.len() <= 16384 && client.last_attachment() < u64::MAX ==> result is Ok
            },
{
}

} // verus!
