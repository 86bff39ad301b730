//! The arguments of the protocol's methods.

use vstd::prelude::*;

use super::convert::{
    parse_id, parse_title, session_id_fault, title_fault, title_reads, write_attachment_id,
    read_attachment_id,
};
use super::fields::{
    bounded_data, bounded_text, data_of, data_written, either, inbound_data_fault,
    inbound_text_fault, lemma_pointer_round_trip, lemma_texts_round_trip, outbound_data_unfit,
    outbound_text_unfit, pointer_fault, pointer_reads, pointer_writes, read_inbound_data,
    read_inbound_text, read_outcome, read_pointer, text_of, text_written, write_outcome,
    write_pointer, Conversion, RpcConversionError, MAX_RPC_CWD_BYTES, MAX_RPC_IDENTIFIER_BYTES,
    MAX_RPC_PROMPT_BYTES, MAX_RPC_TITLE_BYTES,
};
use super::wire;
use crate::session::{
    lemma_session_id_text_is_read_back, session_id_of, session_id_text, AttachmentId, SessionId,
    SessionSelector, SessionSettings, SessionTitle,
};

verus! {

/// What is wrong with an attachment identifier: zero is reserved.
pub open spec fn attachment_fault(id: u64) -> Option<RpcConversionError> {
    if id == 0 {
        Some(RpcConversionError::InvalidAttachmentId)
    } else {
        None
    }
}

/// A request for draft defaults: `backend.draftDefaults`.
#[derive(Debug)]
pub struct DraftDefaultsRequest {
    pub cwd: Vec<u8>,
}

impl Conversion for DraftDefaultsRequest {
    type Wire = wire::DraftDefaultsParams;

    open spec fn fault(wire: wire::DraftDefaultsParams) -> Option<RpcConversionError> {
        inbound_data_fault(wire.cwd, MAX_RPC_CWD_BYTES as int, "cwd")
    }

    open spec fn reads(wire: wire::DraftDefaultsParams, value: DraftDefaultsRequest) -> bool {
        value.cwd@ == data_of(wire.cwd)
    }

    open spec fn unfit(value: DraftDefaultsRequest) -> Option<RpcConversionError> {
        outbound_data_unfit(value.cwd@, MAX_RPC_CWD_BYTES as int, "cwd")
    }

    open spec fn writes(value: DraftDefaultsRequest, wire: wire::DraftDefaultsParams) -> bool {
        data_written(wire.cwd, value.cwd@)
    }

    open spec fn survives(value: DraftDefaultsRequest) -> bool {
        true
    }

    fn from_wire(wire: &wire::DraftDefaultsParams) -> (result: Result<DraftDefaultsRequest, RpcConversionError>) {
        let cwd = read_inbound_data(&wire.cwd, MAX_RPC_CWD_BYTES, "cwd")?;
        Ok(DraftDefaultsRequest { cwd })
    }

    fn to_wire(value: &DraftDefaultsRequest) -> (result: Result<wire::DraftDefaultsParams, RpcConversionError>) {
        let cwd = bounded_data(&value.cwd, MAX_RPC_CWD_BYTES, "cwd")?;
        Ok(wire::DraftDefaultsParams { cwd })
    }

    proof fn round_trip(value: DraftDefaultsRequest, wire: wire::DraftDefaultsParams) {
        lemma_texts_round_trip();
    }
}

/// Writes the arguments of backend.draftDefaults.
pub fn write_draft_defaults_params(value: &DraftDefaultsRequest) -> (result: Result<wire::DraftDefaultsParams, RpcConversionError>)
    ensures
        write_outcome::<DraftDefaultsRequest>(*value, result),
{
    DraftDefaultsRequest::to_wire(value)
}

/// Reads the arguments of backend.draftDefaults.
pub fn read_draft_defaults_params(reader: &wire::DraftDefaultsParams) -> (result: Result<DraftDefaultsRequest, RpcConversionError>)
    ensures
        read_outcome::<DraftDefaultsRequest>(*reader, result),
{
    DraftDefaultsRequest::from_wire(reader)
}

/// A request for startup selection: `backend.startup`.
#[derive(Debug)]
pub struct StartupRequest {
    pub cwd: Vec<u8>,
    pub attachment: AttachmentId,
}

impl Conversion for StartupRequest {
    type Wire = wire::StartupParams;

    open spec fn fault(wire: wire::StartupParams) -> Option<RpcConversionError> {
        either(
            inbound_data_fault(wire.cwd, MAX_RPC_CWD_BYTES as int, "cwd"),
            attachment_fault(wire.attachment_id),
        )
    }

    open spec fn reads(wire: wire::StartupParams, value: StartupRequest) -> bool {
        &&& value.cwd@ == data_of(wire.cwd)
        &&& value.attachment == AttachmentId(wire.attachment_id)
    }

    open spec fn unfit(value: StartupRequest) -> Option<RpcConversionError> {
        either(
            outbound_data_unfit(value.cwd@, MAX_RPC_CWD_BYTES as int, "cwd"),
            attachment_fault(value.attachment.0),
        )
    }

    open spec fn writes(value: StartupRequest, wire: wire::StartupParams) -> bool {
        &&& data_written(wire.cwd, value.cwd@)
        &&& wire.attachment_id == value.attachment.0
    }

    open spec fn survives(value: StartupRequest) -> bool {
        true
    }

    fn from_wire(wire: &wire::StartupParams) -> (result: Result<StartupRequest, RpcConversionError>) {
        let cwd = read_inbound_data(&wire.cwd, MAX_RPC_CWD_BYTES, "cwd")?;
        let attachment = read_attachment_id(wire.attachment_id)?;
        Ok(StartupRequest { cwd, attachment })
    }

    fn to_wire(value: &StartupRequest) -> (result: Result<wire::StartupParams, RpcConversionError>) {
        let cwd = bounded_data(&value.cwd, MAX_RPC_CWD_BYTES, "cwd")?;
        let attachment_id = write_attachment_id(value.attachment)?;
        Ok(wire::StartupParams { cwd, attachment_id })
    }

    proof fn round_trip(value: StartupRequest, wire: wire::StartupParams) {
        lemma_texts_round_trip();
    }
}

/// Writes the arguments of backend.startup.
pub fn write_startup_params(value: &StartupRequest) -> (result: Result<wire::StartupParams, RpcConversionError>)
    ensures
        write_outcome::<StartupRequest>(*value, result),
{
    StartupRequest::to_wire(value)
}

/// Reads the arguments of backend.startup.
pub fn read_startup_params(reader: &wire::StartupParams) -> (result: Result<StartupRequest, RpcConversionError>)
    ensures
        read_outcome::<StartupRequest>(*reader, result),
{
    StartupRequest::from_wire(reader)
}

/// A request that makes a first prompt durable: `backend.materialize`.
#[derive(Debug)]
pub struct MaterializeRequest {
    pub cwd: Vec<u8>,
    pub prompt: String,
    pub settings: SessionSettings,
    pub attachment: AttachmentId,
}

impl Conversion for MaterializeRequest {
    type Wire = wire::MaterializeParams;

    open spec fn fault(wire: wire::MaterializeParams) -> Option<RpcConversionError> {
        either(
            inbound_data_fault(wire.cwd, MAX_RPC_CWD_BYTES as int, "cwd"),
            either(
                inbound_text_fault(wire.prompt, MAX_RPC_PROMPT_BYTES as int, "prompt"),
                either(
                    pointer_fault::<SessionSettings>(wire.settings),
                    attachment_fault(wire.attachment_id),
                ),
            ),
        )
    }

    open spec fn reads(wire: wire::MaterializeParams, value: MaterializeRequest) -> bool {
        &&& value.cwd@ == data_of(wire.cwd)
        &&& value.prompt@ == text_of(wire.prompt)
        &&& pointer_reads::<SessionSettings>(wire.settings, value.settings)
        &&& value.attachment == AttachmentId(wire.attachment_id)
    }

    open spec fn unfit(value: MaterializeRequest) -> Option<RpcConversionError> {
        either(
            outbound_data_unfit(value.cwd@, MAX_RPC_CWD_BYTES as int, "cwd"),
            either(
                outbound_text_unfit(value.prompt@, MAX_RPC_PROMPT_BYTES as int, "prompt"),
                either(
                    SessionSettings::unfit(value.settings),
                    attachment_fault(value.attachment.0),
                ),
            ),
        )
    }

    open spec fn writes(value: MaterializeRequest, wire: wire::MaterializeParams) -> bool {
        &&& data_written(wire.cwd, value.cwd@)
        &&& text_written(wire.prompt, value.prompt@)
        &&& pointer_writes::<SessionSettings>(value.settings, wire.settings)
        &&& wire.attachment_id == value.attachment.0
    }

    open spec fn survives(value: MaterializeRequest) -> bool {
        SessionSettings::survives(value.settings)
    }

    fn from_wire(wire: &wire::MaterializeParams) -> (result: Result<MaterializeRequest, RpcConversionError>) {
        let cwd = read_inbound_data(&wire.cwd, MAX_RPC_CWD_BYTES, "cwd")?;
        let prompt = read_inbound_text(&wire.prompt, MAX_RPC_PROMPT_BYTES, "prompt")?;
        let settings = read_pointer::<SessionSettings>(&wire.settings)?;
        let attachment = read_attachment_id(wire.attachment_id)?;
        Ok(MaterializeRequest { cwd, prompt, settings, attachment })
    }

    fn to_wire(value: &MaterializeRequest) -> (result: Result<wire::MaterializeParams, RpcConversionError>) {
        let cwd = bounded_data(&value.cwd, MAX_RPC_CWD_BYTES, "cwd")?;
        let prompt = bounded_text(&value.prompt, MAX_RPC_PROMPT_BYTES, "prompt")?;
        let settings = write_pointer::<SessionSettings>(&value.settings)?;
        let attachment_id = write_attachment_id(value.attachment)?;
        Ok(wire::MaterializeParams { cwd, prompt, settings, attachment_id })
    }

    proof fn round_trip(value: MaterializeRequest, wire: wire::MaterializeParams) {
        lemma_texts_round_trip();
        lemma_pointer_round_trip::<SessionSettings>(value.settings, wire.settings);
    }
}

/// Writes the arguments of backend.materialize.
pub fn write_materialize_params(value: &MaterializeRequest) -> (result: Result<wire::MaterializeParams, RpcConversionError>)
    ensures
        write_outcome::<MaterializeRequest>(*value, result),
{
    MaterializeRequest::to_wire(value)
}

/// Reads the arguments of backend.materialize.
pub fn read_materialize_params(reader: &wire::MaterializeParams) -> (result: Result<MaterializeRequest, RpcConversionError>)
    ensures
        read_outcome::<MaterializeRequest>(*reader, result),
{
    MaterializeRequest::from_wire(reader)
}

/// A request that opens a session: `backend.openSession`.
#[derive(Debug)]
pub struct OpenSessionRequest {
    pub selector: SessionSelector,
    pub cwd_for_title: Vec<u8>,
    pub attachment: AttachmentId,
}

impl Conversion for OpenSessionRequest {
    type Wire = wire::OpenSessionParams;

    open spec fn fault(wire: wire::OpenSessionParams) -> Option<RpcConversionError> {
        either(
            pointer_fault::<SessionSelector>(wire.selector),
            either(
                inbound_data_fault(wire.cwd_for_title, MAX_RPC_CWD_BYTES as int, "cwdForTitle"),
                attachment_fault(wire.attachment_id),
            ),
        )
    }

    open spec fn reads(wire: wire::OpenSessionParams, value: OpenSessionRequest) -> bool {
        &&& pointer_reads::<SessionSelector>(wire.selector, value.selector)
        &&& value.cwd_for_title@ == data_of(wire.cwd_for_title)
        &&& value.attachment == AttachmentId(wire.attachment_id)
    }

    open spec fn unfit(value: OpenSessionRequest) -> Option<RpcConversionError> {
        either(
            SessionSelector::unfit(value.selector),
            either(
                outbound_data_unfit(value.cwd_for_title@, MAX_RPC_CWD_BYTES as int, "cwdForTitle"),
                attachment_fault(value.attachment.0),
            ),
        )
    }

    open spec fn writes(value: OpenSessionRequest, wire: wire::OpenSessionParams) -> bool {
        &&& pointer_writes::<SessionSelector>(value.selector, wire.selector)
        &&& data_written(wire.cwd_for_title, value.cwd_for_title@)
        &&& wire.attachment_id == value.attachment.0
    }

    open spec fn survives(value: OpenSessionRequest) -> bool {
        SessionSelector::survives(value.selector)
    }

    fn from_wire(wire: &wire::OpenSessionParams) -> (result: Result<OpenSessionRequest, RpcConversionError>) {
        let selector = read_pointer::<SessionSelector>(&wire.selector)?;
        let cwd_for_title = read_inbound_data(&wire.cwd_for_title, MAX_RPC_CWD_BYTES, "cwdForTitle")?;
        let attachment = read_attachment_id(wire.attachment_id)?;
        Ok(OpenSessionRequest { selector, cwd_for_title, attachment })
    }

    fn to_wire(value: &OpenSessionRequest) -> (result: Result<wire::OpenSessionParams, RpcConversionError>) {
        let selector = write_pointer::<SessionSelector>(&value.selector)?;
        let cwd_for_title = bounded_data(&value.cwd_for_title, MAX_RPC_CWD_BYTES, "cwdForTitle")?;
        let attachment_id = write_attachment_id(value.attachment)?;
        Ok(wire::OpenSessionParams { selector, cwd_for_title, attachment_id })
    }

    proof fn round_trip(value: OpenSessionRequest, wire: wire::OpenSessionParams) {
        lemma_texts_round_trip();
        lemma_pointer_round_trip::<SessionSelector>(value.selector, wire.selector);
    }
}

/// Writes the arguments of backend.openSession.
pub fn write_open_session_params(value: &OpenSessionRequest) -> (result: Result<wire::OpenSessionParams, RpcConversionError>)
    ensures
        write_outcome::<OpenSessionRequest>(*value, result),
{
    OpenSessionRequest::to_wire(value)
}

/// Reads the arguments of backend.openSession.
pub fn read_open_session_params(reader: &wire::OpenSessionParams) -> (result: Result<OpenSessionRequest, RpcConversionError>)
    ensures
        read_outcome::<OpenSessionRequest>(*reader, result),
{
    OpenSessionRequest::from_wire(reader)
}

/// A request that renames a session: `backend.renameSession`.
#[derive(Debug)]
pub struct RenameSessionRequest {
    pub session_id: SessionId,
    pub title: SessionTitle,
}

impl Conversion for RenameSessionRequest {
    type Wire = wire::RenameSessionParams;

    open spec fn fault(wire: wire::RenameSessionParams) -> Option<RpcConversionError> {
        either(
            inbound_text_fault(wire.id, MAX_RPC_IDENTIFIER_BYTES as int, "id"),
            either(
                session_id_fault(text_of(wire.id)),
                either(
                    inbound_text_fault(wire.title, MAX_RPC_TITLE_BYTES as int, "title"),
                    title_fault(text_of(wire.title)),
                ),
            ),
        )
    }

    open spec fn reads(wire: wire::RenameSessionParams, value: RenameSessionRequest) -> bool {
        &&& session_id_of(text_of(wire.id)) == Some(value.session_id)
        &&& title_reads(text_of(wire.title), value.title)
    }

    open spec fn unfit(value: RenameSessionRequest) -> Option<RpcConversionError> {
        either(
            outbound_text_unfit(session_id_text(value.session_id), MAX_RPC_IDENTIFIER_BYTES as int, "id"),
            outbound_text_unfit(value.title.value@, MAX_RPC_TITLE_BYTES as int, "title"),
        )
    }

    open spec fn writes(value: RenameSessionRequest, wire: wire::RenameSessionParams) -> bool {
        &&& text_written(wire.id, session_id_text(value.session_id))
        &&& text_written(wire.title, value.title.value@)
    }

    open spec fn survives(value: RenameSessionRequest) -> bool {
        value.title.valid()
    }

    fn from_wire(wire: &wire::RenameSessionParams) -> (result: Result<RenameSessionRequest, RpcConversionError>) {
        let id_text = read_inbound_text(&wire.id, MAX_RPC_IDENTIFIER_BYTES, "id")?;
        let session_id = parse_id(&id_text)?;
        let title_text = read_inbound_text(&wire.title, MAX_RPC_TITLE_BYTES, "title")?;
        let title = parse_title(&title_text)?;
        Ok(RenameSessionRequest { session_id, title })
    }

    fn to_wire(value: &RenameSessionRequest) -> (result: Result<wire::RenameSessionParams, RpcConversionError>) {
        let id_text = value.session_id.text();
        let id = bounded_text(&id_text, MAX_RPC_IDENTIFIER_BYTES, "id")?;
        let title = bounded_text(value.title.as_str(), MAX_RPC_TITLE_BYTES, "title")?;
        Ok(wire::RenameSessionParams { id, title })
    }

    proof fn round_trip(value: RenameSessionRequest, wire: wire::RenameSessionParams) {
        lemma_texts_round_trip();
        lemma_session_id_text_is_read_back(value.session_id);
    }
}

/// Writes the arguments of backend.renameSession.
pub fn write_rename_session_params(value: &RenameSessionRequest) -> (result: Result<wire::RenameSessionParams, RpcConversionError>)
    ensures
        write_outcome::<RenameSessionRequest>(*value, result),
{
    RenameSessionRequest::to_wire(value)
}

/// Reads the arguments of backend.renameSession.
pub fn read_rename_session_params(reader: &wire::RenameSessionParams) -> (result: Result<RenameSessionRequest, RpcConversionError>)
    ensures
        read_outcome::<RenameSessionRequest>(*reader, result),
{
    RenameSessionRequest::from_wire(reader)
}

/// A request that deletes a session: `backend.deleteSession`.
#[derive(Debug)]
pub struct DeleteSessionRequest {
    pub session_id: SessionId,
}

impl Conversion for DeleteSessionRequest {
    type Wire = wire::DeleteSessionParams;

    open spec fn fault(wire: wire::DeleteSessionParams) -> Option<RpcConversionError> {
        either(
            inbound_text_fault(wire.id, MAX_RPC_IDENTIFIER_BYTES as int, "id"),
            session_id_fault(text_of(wire.id)),
        )
    }

    open spec fn reads(wire: wire::DeleteSessionParams, value: DeleteSessionRequest) -> bool {
        session_id_of(text_of(wire.id)) == Some(value.session_id)
    }

    open spec fn unfit(value: DeleteSessionRequest) -> Option<RpcConversionError> {
        outbound_text_unfit(session_id_text(value.session_id), MAX_RPC_IDENTIFIER_BYTES as int, "id")
    }

    open spec fn writes(value: DeleteSessionRequest, wire: wire::DeleteSessionParams) -> bool {
        text_written(wire.id, session_id_text(value.session_id))
    }

    open spec fn survives(value: DeleteSessionRequest) -> bool {
        true
    }

    fn from_wire(wire: &wire::DeleteSessionParams) -> (result: Result<DeleteSessionRequest, RpcConversionError>) {
        let id_text = read_inbound_text(&wire.id, MAX_RPC_IDENTIFIER_BYTES, "id")?;
        let session_id = parse_id(&id_text)?;
        Ok(DeleteSessionRequest { session_id })
    }

    fn to_wire(value: &DeleteSessionRequest) -> (result: Result<wire::DeleteSessionParams, RpcConversionError>) {
        let id_text = value.session_id.text();
        let id = bounded_text(&id_text, MAX_RPC_IDENTIFIER_BYTES, "id")?;
        Ok(wire::DeleteSessionParams { id })
    }

    proof fn round_trip(value: DeleteSessionRequest, wire: wire::DeleteSessionParams) {
        lemma_texts_round_trip();
        lemma_session_id_text_is_read_back(value.session_id);
    }
}

/// Writes the arguments of backend.deleteSession.
pub fn write_delete_session_params(value: &DeleteSessionRequest) -> (result: Result<wire::DeleteSessionParams, RpcConversionError>)
    ensures
        write_outcome::<DeleteSessionRequest>(*value, result),
{
    DeleteSessionRequest::to_wire(value)
}

/// Reads the arguments of backend.deleteSession.
pub fn read_delete_session_params(reader: &wire::DeleteSessionParams) -> (result: Result<DeleteSessionRequest, RpcConversionError>)
    ensures
        read_outcome::<DeleteSessionRequest>(*reader, result),
{
    DeleteSessionRequest::from_wire(reader)
}

/// A request that submits a prompt: `session.submit`.
#[derive(Debug)]
pub struct SubmitRequest {
    pub prompt: String,
}

impl Conversion for SubmitRequest {
    type Wire = wire::SubmitParams;

    open spec fn fault(wire: wire::SubmitParams) -> Option<RpcConversionError> {
        inbound_text_fault(wire.prompt, MAX_RPC_PROMPT_BYTES as int, "prompt")
    }

    open spec fn reads(wire: wire::SubmitParams, value: SubmitRequest) -> bool {
        value.prompt@ == text_of(wire.prompt)
    }

    open spec fn unfit(value: SubmitRequest) -> Option<RpcConversionError> {
        outbound_text_unfit(value.prompt@, MAX_RPC_PROMPT_BYTES as int, "prompt")
    }

    open spec fn writes(value: SubmitRequest, wire: wire::SubmitParams) -> bool {
        text_written(wire.prompt, value.prompt@)
    }

    open spec fn survives(value: SubmitRequest) -> bool {
        true
    }

    fn from_wire(wire: &wire::SubmitParams) -> (result: Result<SubmitRequest, RpcConversionError>) {
        let prompt = read_inbound_text(&wire.prompt, MAX_RPC_PROMPT_BYTES, "prompt")?;
        Ok(SubmitRequest { prompt })
    }

    fn to_wire(value: &SubmitRequest) -> (result: Result<wire::SubmitParams, RpcConversionError>) {
        let prompt = bounded_text(&value.prompt, MAX_RPC_PROMPT_BYTES, "prompt")?;
        Ok(wire::SubmitParams { prompt })
    }

    proof fn round_trip(value: SubmitRequest, wire: wire::SubmitParams) {
        lemma_texts_round_trip();
    }
}

/// Writes the arguments of session.submit.
pub fn write_submit_params(value: &SubmitRequest) -> (result: Result<wire::SubmitParams, RpcConversionError>)
    ensures
        write_outcome::<SubmitRequest>(*value, result),
{
    SubmitRequest::to_wire(value)
}

/// Reads the arguments of session.submit.
pub fn read_submit_params(reader: &wire::SubmitParams) -> (result: Result<SubmitRequest, RpcConversionError>)
    ensures
        read_outcome::<SubmitRequest>(*reader, result),
{
    SubmitRequest::from_wire(reader)
}

/// A request that selects a model: `session.selectModel`.
#[derive(Debug)]
pub struct SelectModelRequest {
    pub model: String,
}

impl Conversion for SelectModelRequest {
    type Wire = wire::SelectModelParams;

    open spec fn fault(wire: wire::SelectModelParams) -> Option<RpcConversionError> {
        inbound_text_fault(wire.model_id, MAX_RPC_IDENTIFIER_BYTES as int, "modelId")
    }

    open spec fn reads(wire: wire::SelectModelParams, value: SelectModelRequest) -> bool {
        value.model@ == text_of(wire.model_id)
    }

    open spec fn unfit(value: SelectModelRequest) -> Option<RpcConversionError> {
        outbound_text_unfit(value.model@, MAX_RPC_IDENTIFIER_BYTES as int, "modelId")
    }

    open spec fn writes(value: SelectModelRequest, wire: wire::SelectModelParams) -> bool {
        text_written(wire.model_id, value.model@)
    }

    open spec fn survives(value: SelectModelRequest) -> bool {
        true
    }

    fn from_wire(wire: &wire::SelectModelParams) -> (result: Result<SelectModelRequest, RpcConversionError>) {
        let model = read_inbound_text(&wire.model_id, MAX_RPC_IDENTIFIER_BYTES, "modelId")?;
        Ok(SelectModelRequest { model })
    }

    fn to_wire(value: &SelectModelRequest) -> (result: Result<wire::SelectModelParams, RpcConversionError>) {
        let model_id = bounded_text(&value.model, MAX_RPC_IDENTIFIER_BYTES, "modelId")?;
        Ok(wire::SelectModelParams { model_id })
    }

    proof fn round_trip(value: SelectModelRequest, wire: wire::SelectModelParams) {
        lemma_texts_round_trip();
    }
}

/// Writes the arguments of session.selectModel.
pub fn write_select_model_params(value: &SelectModelRequest) -> (result: Result<wire::SelectModelParams, RpcConversionError>)
    ensures
        write_outcome::<SelectModelRequest>(*value, result),
{
    SelectModelRequest::to_wire(value)
}

/// Reads the arguments of session.selectModel.
pub fn read_select_model_params(reader: &wire::SelectModelParams) -> (result: Result<SelectModelRequest, RpcConversionError>)
    ensures
        read_outcome::<SelectModelRequest>(*reader, result),
{
    SelectModelRequest::from_wire(reader)
}

/// A request that cancels a job: `session.cancelJob`.
#[derive(Debug)]
pub struct CancelJobRequest {
    pub job_id: String,
}

impl Conversion for CancelJobRequest {
    type Wire = wire::CancelJobParams;

    open spec fn fault(wire: wire::CancelJobParams) -> Option<RpcConversionError> {
        inbound_text_fault(wire.job_id, MAX_RPC_IDENTIFIER_BYTES as int, "jobId")
    }

    open spec fn reads(wire: wire::CancelJobParams, value: CancelJobRequest) -> bool {
        value.job_id@ == text_of(wire.job_id)
    }

    open spec fn unfit(value: CancelJobRequest) -> Option<RpcConversionError> {
        outbound_text_unfit(value.job_id@, MAX_RPC_IDENTIFIER_BYTES as int, "jobId")
    }

    open spec fn writes(value: CancelJobRequest, wire: wire::CancelJobParams) -> bool {
        text_written(wire.job_id, value.job_id@)
    }

    open spec fn survives(value: CancelJobRequest) -> bool {
        true
    }

    fn from_wire(wire: &wire::CancelJobParams) -> (result: Result<CancelJobRequest, RpcConversionError>) {
        let job_id = read_inbound_text(&wire.job_id, MAX_RPC_IDENTIFIER_BYTES, "jobId")?;
        Ok(CancelJobRequest { job_id })
    }

    fn to_wire(value: &CancelJobRequest) -> (result: Result<wire::CancelJobParams, RpcConversionError>) {
        let job_id = bounded_text(&value.job_id, MAX_RPC_IDENTIFIER_BYTES, "jobId")?;
        Ok(wire::CancelJobParams { job_id })
    }

    proof fn round_trip(value: CancelJobRequest, wire: wire::CancelJobParams) {
        lemma_texts_round_trip();
    }
}

/// Writes the arguments of session.cancelJob.
pub fn write_cancel_job_params(value: &CancelJobRequest) -> (result: Result<wire::CancelJobParams, RpcConversionError>)
    ensures
        write_outcome::<CancelJobRequest>(*value, result),
{
    CancelJobRequest::to_wire(value)
}

/// Reads the arguments of session.cancelJob.
pub fn read_cancel_job_params(reader: &wire::CancelJobParams) -> (result: Result<CancelJobRequest, RpcConversionError>)
    ensures
        read_outcome::<CancelJobRequest>(*reader, result),
{
    CancelJobRequest::from_wire(reader)
}

/// Requests carry what they name: the directory and the attachment that is to receive the events,
/// which is never number zero, and a prompt of at most 256 KiB.
pub proof fn lemma_requests_carry_what_they_name()
    ensures
        forall|reader: &wire::StartupParams, result: Result<StartupRequest, RpcConversionError>|
         #[trigger]
            call_ensures(read_startup_params, (reader,), result) ==> {
                &&& result is Ok <==> reader.cwd is Value && reader.cwd->Value_0@.len() <= 16384
                    && reader.attachment_id != 0
                &&& result is Ok ==> result->Ok_0.cwd@ == reader.cwd->Value_0@
                    && result->Ok_0.attachment == AttachmentId(reader.attachment_id)
            },
        forall|value: &StartupRequest, result: Result<wire::StartupParams, RpcConversionError>|
         #[trigger]
            call_ensures(write_startup_params, (value,), result) ==> {
                &&& result is Ok <==> value.cwd@.len() <= 16384 && value.attachment.0 != 0
                &&& result is Ok ==> result->Ok_0.cwd is Value && result->Ok_0.cwd->Value_0@
                    == value.cwd@ && result->Ok_0.attachment_id == value.attachment.0
            },
        forall|reader: &wire::SubmitParams, result: Result<SubmitRequest, RpcConversionError>|
         #[trigger]
            call_ensures(read_submit_params, (reader,), result) ==> {
                &&& result is Ok ==> reader.prompt is Value && reader.prompt->Value_0@.len()
                    <= 262144 && result->Ok_0.prompt@ == text_of(reader.prompt)
                &&& reader.prompt is Value && reader.prompt->Value_0@.len() > 262144 ==> result
                    == Err::<SubmitRequest, RpcConversionError>(
                    RpcConversionError::FieldTooLong { field: "prompt" },
                )
            },
        forall|value: &SubmitRequest, result: Result<wire::SubmitParams, RpcConversionError>|
         #[trigger]
            call_ensures(write_submit_params, (value,), result) ==> {
                &&& result is Ok ==> text_written(result->Ok_0.prompt, value.prompt@)
                &&& result is Ok <==> vstd::utf8::encode_utf8(value.prompt@).len() <= 262144
            },
        forall|reader: &wire::MaterializeParams, result: Result<
            MaterializeRequest,
            RpcConversionError,
        >| #[trigger]
            call_ensures(read_materialize_params, (reader,), result) && result is Ok
                ==> result->Ok_0.cwd@ == reader.cwd->Value_0@ && result->Ok_0.prompt@ == text_of(
                reader.prompt,
            ) && result->Ok_0.attachment == AttachmentId(reader.attachment_id)
                && reader.attachment_id != 0 && reader.cwd->Value_0@.len() <= 16384
                && reader.prompt->Value_0@.len() <= 262144,
{
}

/// Sessions, models and jobs are named in requests by their identifiers.
pub proof fn lemma_requests_name_by_identifier()
    ensures
        forall|value: &RenameSessionRequest, result: Result<
            wire::RenameSessionParams,
            RpcConversionError,
        >| #[trigger]
            call_ensures(write_rename_session_params, (value,), result) && result is Ok
                ==> text_written(result->Ok_0.id, session_id_text(value.session_id))
                && text_written(result->Ok_0.title, value.title.value@),
        forall|value: &DeleteSessionRequest, result: Result<
            wire::DeleteSessionParams,
            RpcConversionError,
        >| #[trigger]
            call_ensures(write_delete_session_params, (value,), result) && result is Ok
                ==> text_written(result->Ok_0.id, session_id_text(value.session_id)),
        forall|reader: &wire::RenameSessionParams, result: Result<
            RenameSessionRequest,
            RpcConversionError,
        >| #[trigger]
            call_ensures(read_rename_session_params, (reader,), result) && result is Ok
                ==> session_id_of(text_of(reader.id)) == Some(result->Ok_0.session_id)
                && crate::session::label_of(text_of(reader.title), 64) == Some(
                result->Ok_0.title.value@,
            ),
        forall|reader: &wire::DeleteSessionParams, result: Result<
            DeleteSessionRequest,
            RpcConversionError,
        >| #[trigger]
            call_ensures(read_delete_session_params, (reader,), result) && result is Ok
                ==> session_id_of(text_of(reader.id)) == Some(result->Ok_0.session_id),
        forall|reader: &wire::SelectModelParams, result: Result<
            SelectModelRequest,
            RpcConversionError,
        >| #[trigger]
            call_ensures(read_select_model_params, (reader,), result) && result is Ok
                ==> result->Ok_0.model@ == text_of(reader.model_id),
        forall|reader: &wire::CancelJobParams, result: Result<CancelJobRequest, RpcConversionError>|
         #[trigger]
            call_ensures(read_cancel_job_params, (reader,), result) && result is Ok
                ==> result->Ok_0.job_id@ == text_of(reader.job_id),
{
}

} // verus!
