//! The chat that the client presents, and how session updates change it.

use vstd::prelude::*;

use crate::session::{
    ActiveRunSnapshot, DraftDefaults, JobSnapshotDto, JobState, ModelCatalogState,
    SessionEvent, SessionEventEnvelope, SessionId, SessionSelector,
    SessionSettings, SessionSnapshot, TranscriptItem,
};
use crate::snapshot::{
    duplicate_list, duplicate_text, ActiveRunView, CatalogView, Duplicate,
    JobView, SessionEventView, SettingsView, SnapshotView, SummaryView, TranscriptView,
};

verus! {

/// How the client starts.
#[derive(Debug, PartialEq, Eq)]
pub enum LaunchMode {
    /// Attach to the newest running session of the project, or open a draft.
    Startup,
    /// Open a fresh draft.
    NewDraft,
    /// Open one session.
    Session(SessionSelector),
}

/// A failure that is safe to show.
#[derive(Debug, PartialEq, Eq)]
pub struct ClientSessionError {
    pub message: String,
    pub backend_starting: bool,
}

impl ClientSessionError {
    /// A failure with a message.
    pub fn message(message: &str) -> (error: Self)
        ensures
            error.message@ == message@,
            !error.backend_starting,
    {
        ClientSessionError { message: message.to_owned(), backend_starting: false }
    }

    /// Whether the backend asked to try again.
    pub fn is_backend_starting(&self) -> (starting: bool)
        ensures
            starting == self.backend_starting,
    {
        self.backend_starting
    }
}

/// A chat that has no durable identity yet.
#[derive(Debug, PartialEq, Eq)]
pub struct DraftState {
    pub cwd: Vec<u8>,
    pub settings: SessionSettings,
    pub catalog: ModelCatalogState,
}

/// [`DraftState`] as contracts see it.
pub ghost struct DraftView {
    pub cwd: Seq<u8>,
    pub settings: SettingsView,
    pub catalog: CatalogView,
}

impl DeepView for DraftState {
    type V = DraftView;

    open spec fn deep_view(&self) -> DraftView {
        DraftView {
            cwd: self.cwd@,
            settings: self.settings.deep_view(),
            catalog: self.catalog.deep_view(),
        }
    }
}

impl DraftState {
    /// A draft with the defaults of the backend.
    pub fn from_defaults(defaults: DraftDefaults) -> (draft: Self)
        ensures
            draft.cwd == defaults.cwd,
            draft.settings == defaults.settings,
            draft.catalog == defaults.catalog,
    {
        DraftState { cwd: defaults.cwd, settings: defaults.settings, catalog: defaults.catalog }
    }
}

/// The one chat that the client presents.
#[derive(Debug, PartialEq, Eq)]
pub enum ChatProjection {
    Draft(DraftState),
    Session(SessionSnapshot),
}

/// [`ChatProjection`] as contracts see it.
pub ghost enum ProjectionView {
    Draft(DraftView),
    Session(SnapshotView),
}

impl DeepView for ChatProjection {
    type V = ProjectionView;

    open spec fn deep_view(&self) -> ProjectionView {
        match self {
            ChatProjection::Draft(draft) => ProjectionView::Draft(draft.deep_view()),
            ChatProjection::Session(snapshot) => ProjectionView::Session(snapshot.deep_view()),
        }
    }
}

impl ProjectionView {
    /// The working directory of the chat.
    pub open spec fn cwd(self) -> Seq<u8> {
        match self {
            ProjectionView::Draft(draft) => draft.cwd,
            ProjectionView::Session(snapshot) => snapshot.summary.cwd,
        }
    }

    /// The settings of the chat.
    pub open spec fn settings(self) -> SettingsView {
        match self {
            ProjectionView::Draft(draft) => draft.settings,
            ProjectionView::Session(snapshot) => snapshot.settings,
        }
    }

    /// The model catalog of the chat.
    pub open spec fn catalog(self) -> CatalogView {
        match self {
            ProjectionView::Draft(draft) => draft.catalog,
            ProjectionView::Session(snapshot) => snapshot.catalog,
        }
    }

    /// A fresh draft with the settings of this chat.
    pub open spec fn draft_for(self, cwd: Seq<u8>) -> DraftView {
        DraftView {
            cwd,
            settings: SettingsView { context_tokens: 0, ..self.settings() },
            catalog: self.catalog(),
        }
    }

    /// Whether a run is active.
    pub open spec fn is_busy(self) -> bool {
        match self {
            ProjectionView::Draft(_) => false,
            ProjectionView::Session(snapshot) => snapshot.busy,
        }
    }

    /// The durable identity of the chat.
    pub open spec fn session_id(self) -> Option<SessionId> {
        match self {
            ProjectionView::Draft(_) => None,
            ProjectionView::Session(snapshot) => Some(snapshot.summary.id),
        }
    }
}

impl ChatProjection {
    /// The catalog of the chat.
    pub fn catalog(&self) -> (catalog: &ModelCatalogState)
        ensures
            catalog.deep_view() == self.deep_view().catalog(),
    {
        match self {
            ChatProjection::Draft(draft) => &draft.catalog,
            ChatProjection::Session(snapshot) => &snapshot.catalog,
        }
    }

    /// The settings of the chat.
    pub fn settings(&self) -> (settings: &SessionSettings)
        ensures
            settings.deep_view() == self.deep_view().settings(),
    {
        match self {
            ChatProjection::Draft(draft) => &draft.settings,
            ChatProjection::Session(snapshot) => &snapshot.settings,
        }
    }

    /// Whether the chat is a draft.
    pub fn is_draft(&self) -> (draft: bool)
        ensures
            draft == (self.deep_view() is Draft),
    {
        match self {
            ChatProjection::Draft(_) => true,
            ChatProjection::Session(_) => false,
        }
    }

    /// Whether a run is active.
    pub fn is_busy(&self) -> (busy: bool)
        ensures
            busy == self.deep_view().is_busy(),
    {
        match self {
            ChatProjection::Draft(_) => false,
            ChatProjection::Session(snapshot) => snapshot.busy,
        }
    }

    /// The working directory of the chat.
    pub fn cwd(&self) -> (cwd: &Vec<u8>)
        ensures
            cwd@ == self.deep_view().cwd(),
    {
        match self {
            ChatProjection::Draft(draft) => &draft.cwd,
            ChatProjection::Session(snapshot) => &snapshot.summary.cwd,
        }
    }

    /// The durable identity of the chat.
    pub fn session_id(&self) -> (id: Option<SessionId>)
        ensures
            id == self.deep_view().session_id(),
    {
        match self {
            ChatProjection::Draft(_) => None,
            ChatProjection::Session(snapshot) => Some(snapshot.summary.id),
        }
    }

    /// A fresh draft with the settings of this chat.
    pub fn draft_for(&self, cwd: Vec<u8>) -> (draft: DraftState)
        ensures
            draft.deep_view() == self.deep_view().draft_for(cwd@),
    {
        let mut settings = self.settings().duplicate();
        settings.context_tokens = 0;
        DraftState { cwd, settings, catalog: self.catalog().duplicate() }
    }
}

/// A change of the attached session.
#[derive(Debug, PartialEq, Eq)]
pub enum SessionUpdate {
    /// The next event after the last one seen.
    Event(SessionEventEnvelope),
    /// A fresh snapshot that replaces everything seen before.
    SnapshotReplaced(SessionSnapshot),
    /// A problem while cleaning up after a recovery.
    Warning(String),
    /// The session was deleted.
    Deleted { session_id: SessionId, cwd: Vec<u8> },
}

/// A change of the presented chat.
#[derive(Debug, PartialEq, Eq)]
pub enum WorkspaceUpdate {
    Session(SessionUpdate),
    Deleted { session_id: SessionId, cwd: Vec<u8> },
    Warning(String),
}

/// A snapshot whose three ways to tell whether a run is active agree.
pub open spec fn consistent_busy(snapshot: SnapshotView) -> bool {
    snapshot.busy == snapshot.summary.busy && snapshot.busy == (snapshot.active_run is Some)
}

/// The number of running jobs.
pub open spec fn running_job_count(jobs: Seq<JobView>) -> nat
    decreases jobs.len(),
{
    if jobs.len() == 0 {
        0
    } else {
        running_job_count(jobs.drop_last()) + if jobs.last().state == JobState::Running {
            1nat
        } else {
            0nat
        }
    }
}

/// The number of running jobs as a summary holds it.
pub open spec fn summary_job_count(jobs: Seq<JobView>) -> u32 {
    if running_job_count(jobs) > u32::MAX {
        u32::MAX
    } else {
        running_job_count(jobs) as u32
    }
}

/// A snapshot whose summary counts its jobs and says whether anything runs.
pub open spec fn consistent_running(snapshot: SnapshotView) -> bool {
    &&& snapshot.summary.running_jobs == summary_job_count(snapshot.jobs)
    &&& snapshot.summary.running == (snapshot.active_run is Some || snapshot.summary.running_jobs
        > 0)
}

/// The snapshot with its summary counted again.
pub open spec fn with_running_summary(snapshot: SnapshotView) -> SnapshotView {
    let running_jobs = summary_job_count(snapshot.jobs);
    SnapshotView {
        summary: SummaryView {
            running_jobs,
            running: snapshot.active_run is Some || running_jobs > 0,
            ..snapshot.summary
        },
        ..snapshot
    }
}

/// The snapshot after a run ended with an entry of the transcript.
pub open spec fn with_run_ended(snapshot: SnapshotView, entry: TranscriptView) -> SnapshotView {
    with_running_summary(
        SnapshotView {
            transcript: snapshot.transcript.push(entry),
            active_run: None,
            busy: false,
            summary: SummaryView { busy: false, ..snapshot.summary },
            ..snapshot
        },
    )
}

/// The run that an event belongs to.
pub open spec fn event_run(event: SessionEventView) -> Option<u64> {
    match event {
        SessionEventView::AssistantDelta { run_id, .. } => Some(run_id),
        SessionEventView::ContextUsage { run_id, .. } => Some(run_id),
        SessionEventView::ToolStarted { run_id, .. } => Some(run_id),
        SessionEventView::ToolFinished { run_id, .. } => Some(run_id),
        SessionEventView::Completed { run_id, .. } => Some(run_id),
        SessionEventView::Failed { run_id, .. } => Some(run_id),
        SessionEventView::Cancelled { run_id } => Some(run_id),
        _ => None,
    }
}

/// Why an event does not follow a snapshot.
pub open spec fn run_refusal(snapshot: SnapshotView, event: SessionEventView) -> Option<Seq<char>> {
    if event is Deleted {
        Some("deleted session event requires startup fallback"@)
    } else if event is Started && snapshot.active_run is Some {
        Some("a run started while another was active"@)
    } else if event_run(event) is None {
        None
    } else if snapshot.active_run is None {
        Some("session run event arrived while idle"@)
    } else if snapshot.active_run->0.run_id != event_run(event)->0 {
        Some("session event run identifier does not match"@)
    } else {
        None
    }
}

/// Why a sequenced event does not follow a snapshot.
pub open spec fn event_refusal(
    snapshot: SnapshotView,
    sequence: u64,
    event: SessionEventView,
) -> Option<Seq<char>> {
    if snapshot.sequence + 1 != sequence {
        Some("session event sequence is not contiguous"@)
    } else {
        run_refusal(snapshot, event)
    }
}

/// The snapshot after an event that follows it.
pub open spec fn after_event(snapshot: SnapshotView, event: SessionEventView) -> SnapshotView {
    match event {
        SessionEventView::TitleChanged { title, title_revision } => SnapshotView {
            summary: SummaryView { title, title_revision, ..snapshot.summary },
            ..snapshot
        },
        SessionEventView::Started { run_id, prompt } => with_running_summary(
            SnapshotView {
                transcript: snapshot.transcript.push(TranscriptView::User(prompt)),
                active_run: Some(
                    ActiveRunView { run_id, prompt, assistant_text: Seq::empty() },
                ),
                busy: true,
                summary: SummaryView { busy: true, ..snapshot.summary },
                ..snapshot
            },
        ),
        SessionEventView::AssistantDelta { text, .. } => SnapshotView {
            active_run: Some(
                ActiveRunView {
                    assistant_text: snapshot.active_run->0.assistant_text + text,
                    ..snapshot.active_run->0
                },
            ),
            ..snapshot
        },
        SessionEventView::ContextUsage { input_tokens, last_activity, .. } => SnapshotView {
            settings: SettingsView { context_tokens: input_tokens, ..snapshot.settings },
            summary: SummaryView { last_activity, ..snapshot.summary },
            ..snapshot
        },
        SessionEventView::ToolStarted { run_id, call_id, name, arguments } => SnapshotView {
            transcript: snapshot.transcript.push(
                TranscriptView::ToolStarted { run_id, call_id, name, arguments },
            ),
            ..snapshot
        },
        SessionEventView::ToolFinished { .. } => snapshot,
        SessionEventView::Completed { response, last_activity, .. } => with_run_ended(
            SnapshotView {
                summary: SummaryView { last_activity, ..snapshot.summary },
                ..snapshot
            },
            TranscriptView::Assistant(response),
        ),
        SessionEventView::Failed { run_id, failure } => with_run_ended(
            snapshot,
            TranscriptView::Failed { run_id, failure },
        ),
        SessionEventView::Cancelled { run_id } => with_run_ended(
            snapshot,
            TranscriptView::Cancelled { run_id },
        ),
        SessionEventView::SettingsChanged { settings, last_activity } => SnapshotView {
            settings,
            summary: SummaryView { last_activity, ..snapshot.summary },
            ..snapshot
        },
        SessionEventView::JobsChanged(jobs) => with_running_summary(
            SnapshotView { jobs, ..snapshot },
        ),
        SessionEventView::PlanChanged(plan) => SnapshotView { plan, ..snapshot },
        SessionEventView::CatalogChanged(catalog) => SnapshotView { catalog, ..snapshot },
        SessionEventView::PersistenceWarning(persistence_warning) => SnapshotView {
            persistence_warning,
            ..snapshot
        },
        SessionEventView::Deleted { .. } => snapshot,
    }
}

/// The snapshot after a sequenced event: a refused one changes nothing.
pub open spec fn after_envelope(
    snapshot: SnapshotView,
    sequence: u64,
    event: SessionEventView,
) -> SnapshotView {
    if event_refusal(snapshot, sequence, event) is Some {
        snapshot
    } else {
        SnapshotView { sequence, ..after_event(snapshot, event) }
    }
}

/// Whether a run is active stays consistent under every event.
pub proof fn lemma_events_keep_busy_consistent(
    snapshot: SnapshotView,
    sequence: u64,
    event: SessionEventView,
)
    requires
        consistent_busy(snapshot),
    ensures
        consistent_busy(after_envelope(snapshot, sequence, event)),
{
}

/// The job count and the running mark of the summary stay right under every event.
pub proof fn lemma_events_keep_summary_consistent(
    snapshot: SnapshotView,
    sequence: u64,
    event: SessionEventView,
)
    requires
        consistent_running(snapshot),
    ensures
        consistent_running(after_envelope(snapshot, sequence, event)),
{
}

/// No event changes or drops an entry of the transcript, and the durable identity stays.
pub proof fn lemma_events_keep_transcript_and_identity(
    snapshot: SnapshotView,
    sequence: u64,
    event: SessionEventView,
)
    ensures
        snapshot.transcript.is_prefix_of(after_envelope(snapshot, sequence, event).transcript),
        after_envelope(snapshot, sequence, event).summary.id == snapshot.summary.id,
        after_envelope(snapshot, sequence, event).summary.cwd == snapshot.summary.cwd,
{
}

/// An accepted event takes the sequence on by one; a refused one leaves it.
pub proof fn lemma_sequence_is_contiguous(
    snapshot: SnapshotView,
    sequence: u64,
    event: SessionEventView,
)
    ensures
        event_refusal(snapshot, sequence, event) is None ==> after_envelope(
            snapshot,
            sequence,
            event,
        ).sequence == snapshot.sequence + 1,
        event_refusal(snapshot, sequence, event) is Some ==> after_envelope(
            snapshot,
            sequence,
            event,
        ) == snapshot,
{
}

/// An accepted event cannot be accepted again.
pub proof fn lemma_event_is_accepted_once(
    snapshot: SnapshotView,
    sequence: u64,
    event: SessionEventView,
)
    requires
        event_refusal(snapshot, sequence, event) is None,
    ensures
        event_refusal(after_envelope(snapshot, sequence, event), sequence, event) is Some,
{
}

/// Checks that a replacement snapshot is consistent.
pub fn validate_snapshot(snapshot: &SessionSnapshot) -> (result: Result<(), ClientSessionError>)
    ensures
        match result {
            Ok(()) => consistent_busy(snapshot.deep_view()),
            Err(error) => !consistent_busy(snapshot.deep_view()) && error.message@
                == "replacement snapshot has inconsistent busy state"@ && !error.backend_starting,
        },
{
    if snapshot.busy != snapshot.summary.busy || snapshot.busy != snapshot.active_run.is_some() {
        return Err(
            ClientSessionError::message("replacement snapshot has inconsistent busy state"),
        );
    }
    Ok(())
}

fn count_running(jobs: &Vec<JobSnapshotDto>) -> (count: u32)
    ensures
        count == summary_job_count(jobs.deep_view()),
{
    let mut count: u32 = 0;
    let mut index: usize = 0;
    let ghost named = jobs.deep_view();
    while index < jobs.len()
        invariant
            index <= jobs@.len(),
            named == jobs.deep_view(),
            count == summary_job_count(named.subrange(0, index as int)),
        decreases jobs@.len() - index,
    {
        proof {
            let seen = named.subrange(0, index + 1);
            assert(seen.drop_last() =~= named.subrange(0, index as int));
            assert(seen.last() == jobs@[index as int].deep_view());
        }
        if jobs[index].state == JobState::Running {
            count = count.saturating_add(1);
        }
        index += 1;
    }
    assert(named.subrange(0, index as int) =~= named);
    count
}

fn refresh_running_summary(projection: &mut SessionSnapshot)
    ensures
        final(projection).deep_view() == with_running_summary(old(projection).deep_view()),
{
    projection.summary.running_jobs = count_running(&projection.jobs);
    projection.summary.running = projection.active_run.is_some()
        || projection.summary.running_jobs > 0;
}

fn end_run(projection: &mut SessionSnapshot, entry: TranscriptItem)
    ensures
        final(projection).deep_view() == with_run_ended(
            old(projection).deep_view(),
            entry.deep_view(),
        ),
{
    projection.transcript.push(entry);
    assert(projection.transcript.deep_view() =~= old(projection).transcript.deep_view().push(
        entry.deep_view(),
    ));
    projection.active_run = None;
    projection.busy = false;
    projection.summary.busy = false;
    refresh_running_summary(projection);
}

fn validate_event_run(projection: &SessionSnapshot, event: &SessionEvent) -> (result: Result<
    (),
    ClientSessionError,
>)
    ensures
        match result {
            Ok(()) => run_refusal(projection.deep_view(), event.deep_view()) is None,
            Err(error) => run_refusal(projection.deep_view(), event.deep_view()) == Some(
                error.message@,
            ) && !error.backend_starting,
        },
{
    let run_id: u64 = match event {
        SessionEvent::Started { .. } => {
            if projection.active_run.is_some() {
                return Err(
                    ClientSessionError::message("a run started while another was active"),
                );
            }
            return Ok(());
        },
        SessionEvent::TitleChanged { .. } | SessionEvent::SettingsChanged { .. }
        | SessionEvent::JobsChanged(_) | SessionEvent::PlanChanged(_)
        | SessionEvent::CatalogChanged(_) | SessionEvent::PersistenceWarning(_) => {
            return Ok(());
        },
        SessionEvent::Deleted { .. } => {
            return Err(
                ClientSessionError::message("deleted session event requires startup fallback"),
            );
        },
        SessionEvent::AssistantDelta { run_id, .. } => *run_id,
        SessionEvent::ContextUsage { run_id, .. } => *run_id,
        SessionEvent::ToolStarted { run_id, .. } => *run_id,
        SessionEvent::ToolFinished { run_id, .. } => *run_id,
        SessionEvent::Completed { run_id, .. } => *run_id,
        SessionEvent::Failed { run_id, .. } => *run_id,
        SessionEvent::Cancelled { run_id } => *run_id,
    };
    match &projection.active_run {
        Some(active) => {
            if active.run_id == run_id {
                Ok(())
            } else {
                Err(ClientSessionError::message("session event run identifier does not match"))
            }
        },
        None => Err(ClientSessionError::message("session run event arrived while idle")),
    }
}

/// Applies a sequenced event to a snapshot.
pub fn apply_session_event(
    projection: &mut SessionSnapshot,
    envelope: &SessionEventEnvelope,
) -> (result: Result<(), ClientSessionError>)
    ensures
        final(projection).deep_view() == after_envelope(
            old(projection).deep_view(),
            envelope.sequence,
            envelope.event.deep_view(),
        ),
        match result {
            Ok(()) => event_refusal(
                old(projection).deep_view(),
                envelope.sequence,
                envelope.event.deep_view(),
            ) is None,
            Err(error) => event_refusal(
                old(projection).deep_view(),
                envelope.sequence,
                envelope.event.deep_view(),
            ) == Some(error.message@) && !error.backend_starting,
        },
{
    if projection.sequence == u64::MAX || projection.sequence + 1 != envelope.sequence {
        return Err(ClientSessionError::message("session event sequence is not contiguous"));
    }
    validate_event_run(projection, &envelope.event)?;
    let ghost before = *projection;
    match &envelope.event {
        SessionEvent::TitleChanged { title, title_revision } => {
            projection.summary.title = title.duplicate();
            projection.summary.title_revision = *title_revision;
        },
        SessionEvent::Started { run_id, prompt } => {
            let entry = TranscriptItem::User(prompt.clone());
            projection.transcript.push(entry);
            assert(projection.transcript.deep_view() =~= before.transcript.deep_view().push(
                entry.deep_view(),
            ));
            projection.active_run = Some(
                ActiveRunSnapshot {
                    run_id: *run_id,
                    prompt: prompt.clone(),
                    assistant_text: String::new(),
                },
            );
            projection.busy = true;
            projection.summary.busy = true;
            refresh_running_summary(projection);
        },
        SessionEvent::AssistantDelta { text, .. } => {
            if let Some(mut active) = projection.active_run.take() {
                active.assistant_text.push_str(text);
                projection.active_run = Some(active);
            }
        },
        SessionEvent::ContextUsage { input_tokens, last_activity, .. } => {
            projection.settings.context_tokens = *input_tokens;
            projection.summary.last_activity = *last_activity;
        },
        SessionEvent::ToolStarted { run_id, call_id, name, arguments } => {
            let entry = TranscriptItem::ToolStarted {
                run_id: *run_id,
                call_id: call_id.clone(),
                name: name.clone(),
                arguments: arguments.clone(),
            };
            projection.transcript.push(entry);
            assert(projection.transcript.deep_view() =~= before.transcript.deep_view().push(
                entry.deep_view(),
            ));
        },
        SessionEvent::ToolFinished { .. } => {},
        SessionEvent::Completed { response, last_activity, .. } => {
            projection.summary.last_activity = *last_activity;
            end_run(projection, TranscriptItem::Assistant(response.clone()));
        },
        SessionEvent::Failed { run_id, failure } => {
            end_run(
                projection,
                TranscriptItem::Failed { run_id: *run_id, failure: failure.duplicate() },
            );
        },
        SessionEvent::Cancelled { run_id } => {
            end_run(projection, TranscriptItem::Cancelled { run_id: *run_id });
        },
        SessionEvent::SettingsChanged { settings, last_activity } => {
            projection.settings = settings.duplicate();
            projection.summary.last_activity = *last_activity;
        },
        SessionEvent::JobsChanged(jobs) => {
            projection.jobs = duplicate_list(jobs);
            refresh_running_summary(projection);
        },
        SessionEvent::PlanChanged(plan) => {
            projection.plan = duplicate_list(plan);
        },
        SessionEvent::CatalogChanged(catalog) => {
            projection.catalog = catalog.duplicate();
        },
        SessionEvent::PersistenceWarning(warning) => {
            projection.persistence_warning = duplicate_text(warning);
        },
        SessionEvent::Deleted { .. } => {},
    }
    projection.sequence = envelope.sequence;
    Ok(())
}

/// Why an update cannot be applied to the presented chat.
pub open spec fn update_refusal(projection: ProjectionView, update: SessionUpdate) -> Option<
    Seq<char>,
> {
    match projection {
        ProjectionView::Draft(_) => Some("received a session update while presenting a draft"@),
        ProjectionView::Session(current) => match update {
            SessionUpdate::SnapshotReplaced(snapshot) => if consistent_busy(snapshot.deep_view()) {
                None
            } else {
                Some("replacement snapshot has inconsistent busy state"@)
            },
            SessionUpdate::Event(envelope) => event_refusal(
                current,
                envelope.sequence,
                envelope.event.deep_view(),
            ),
            SessionUpdate::Warning(_) => None,
            SessionUpdate::Deleted { .. } => Some(
                "deleted session update requires startup fallback"@,
            ),
        },
    }
}

/// The presented chat after an update; a refused one changes nothing.
pub open spec fn after_update(projection: ProjectionView, update: SessionUpdate) -> ProjectionView {
    if update_refusal(projection, update) is Some {
        projection
    } else {
        match (projection, update) {
            (
                ProjectionView::Session(_),
                SessionUpdate::SnapshotReplaced(snapshot),
            ) => ProjectionView::Session(snapshot.deep_view()),
            (
                ProjectionView::Session(current),
                SessionUpdate::Event(envelope),
            ) => ProjectionView::Session(
                after_envelope(current, envelope.sequence, envelope.event.deep_view()),
            ),
            _ => projection,
        }
    }
}

/// Applies an update to the presented chat.
pub fn apply_projection_update(projection: &mut ChatProjection, update: &SessionUpdate) -> (result:
    Result<(), ClientSessionError>)
    ensures
        final(projection).deep_view() == after_update(old(projection).deep_view(), *update),
        match result {
            Ok(()) => update_refusal(old(projection).deep_view(), *update) is None,
            Err(error) => update_refusal(old(projection).deep_view(), *update) == Some(
                error.message@,
            ) && !error.backend_starting,
        },
{
    match projection {
        ChatProjection::Draft(_) => Err(
            ClientSessionError::message("received a session update while presenting a draft"),
        ),
        ChatProjection::Session(current) => match update {
            SessionUpdate::SnapshotReplaced(snapshot) => {
                validate_snapshot(snapshot)?;
                *current = snapshot.duplicate();
                Ok(())
            },
            SessionUpdate::Event(envelope) => apply_session_event(current, envelope),
            SessionUpdate::Warning(_) => Ok(()),
            SessionUpdate::Deleted { .. } => Err(
                ClientSessionError::message("deleted session update requires startup fallback"),
            ),
        },
    }
}

/// Texts one behind the other.
pub open spec fn concatenated(texts: Seq<Seq<char>>) -> Seq<char>
    decreases texts.len(),
{
    if texts.len() == 0 {
        Seq::empty()
    } else {
        concatenated(texts.drop_last()) + texts.last()
    }
}

/// The snapshot after pieces of an answer came one behind the other.
pub open spec fn after_deltas(snapshot: SnapshotView, run_id: u64, texts: Seq<Seq<char>>) -> SnapshotView
    decreases texts.len(),
{
    if texts.len() == 0 {
        snapshot
    } else {
        let before = after_deltas(snapshot, run_id, texts.drop_last());
        after_envelope(
            before,
            (before.sequence + 1) as u64,
            SessionEventView::AssistantDelta { run_id, text: texts.last() },
        )
    }
}

/// The pieces of an answer accumulate: each is accepted in its turn, the text of the run is what
/// it was with all of them behind it in order, and nothing else of the chat changes.
pub proof fn lemma_deltas_accumulate(snapshot: SnapshotView, run_id: u64, texts: Seq<Seq<char>>)
    requires
        snapshot.active_run is Some,
        snapshot.active_run->0.run_id == run_id,
        snapshot.sequence + texts.len() <= u64::MAX,
    ensures
        ({
            let after = after_deltas(snapshot, run_id, texts);
            &&& after.active_run is Some
            &&& after.active_run->0.assistant_text == snapshot.active_run->0.assistant_text
                + concatenated(texts)
            &&& after.active_run->0.run_id == run_id
            &&& after.active_run->0.prompt == snapshot.active_run->0.prompt
            &&& after.sequence == snapshot.sequence + texts.len()
            &&& after.transcript == snapshot.transcript
            &&& after.summary == snapshot.summary
            &&& after.settings == snapshot.settings
            &&& after.catalog == snapshot.catalog
            &&& after.plan == snapshot.plan
            &&& after.jobs == snapshot.jobs
            &&& after.persistence_warning == snapshot.persistence_warning
            &&& after.busy == snapshot.busy
        }),
        texts.len() > 0 ==> event_refusal(
            after_deltas(snapshot, run_id, texts.drop_last()),
            (snapshot.sequence + texts.len()) as u64,
            SessionEventView::AssistantDelta { run_id, text: texts.last() },
        ) is None,
    decreases texts.len(),
{
    if texts.len() > 0 {
        lemma_deltas_accumulate(snapshot, run_id, texts.drop_last());
        assert(snapshot.active_run->0.assistant_text + concatenated(texts)
            =~= snapshot.active_run->0.assistant_text + concatenated(texts.drop_last())
            + texts.last());
    } else {
        assert(snapshot.active_run->0.assistant_text + Seq::empty()
            =~= snapshot.active_run->0.assistant_text);
    }
}

/// An answer streams from an empty text on: after a run started, its text is all the pieces that
/// came since, in order.
pub proof fn lemma_answers_stream_from_nothing(
    snapshot: SnapshotView,
    run_id: u64,
    prompt: Seq<char>,
    texts: Seq<Seq<char>>,
)
    requires
        snapshot.active_run is None,
        snapshot.sequence + 1 + texts.len() <= u64::MAX,
    ensures
        ({
            let started = after_envelope(
                snapshot,
                (snapshot.sequence + 1) as u64,
                SessionEventView::Started { run_id, prompt },
            );
            let after = after_deltas(started, run_id, texts);
            &&& after.active_run is Some
            &&& after.active_run->0.assistant_text == concatenated(texts)
            &&& after.active_run->0.prompt == prompt
            &&& after.transcript == snapshot.transcript.push(TranscriptView::User(prompt))
            &&& after.busy && after.summary.busy && after.summary.running
        }),
{
    let started = after_envelope(
        snapshot,
        (snapshot.sequence + 1) as u64,
        SessionEventView::Started { run_id, prompt },
    );
    lemma_deltas_accumulate(started, run_id, texts);
    assert(Seq::<char>::empty() + concatenated(texts) =~= concatenated(texts));
}

/// What each event that is accepted leaves: the run that started or ended, the entry that the
/// transcript has gained, and the setting, title, plan, jobs, catalog or warning that it brings.
pub proof fn lemma_events_bring_what_they_name(
    snapshot: SnapshotView,
    sequence: u64,
    event: SessionEventView,
)
    requires
        event_refusal(snapshot, sequence, event) is None,
    ensures
        ({
            let after = after_envelope(snapshot, sequence, event);
            let gained = after.transcript.skip(snapshot.transcript.len() as int);
            &&& after.sequence == sequence
            &&& match event {
                SessionEventView::TitleChanged { title, title_revision } => {
                    after.summary.title == title && after.summary.title_revision == title_revision
                        && gained.len() == 0 && after.active_run == snapshot.active_run
                },
                SessionEventView::Started { run_id, prompt } => {
                    &&& gained == seq![TranscriptView::User(prompt)]
                    &&& after.active_run is Some && after.active_run->0.run_id == run_id
                    &&& after.active_run->0.prompt == prompt
                    &&& after.active_run->0.assistant_text.len() == 0
                    &&& after.busy && after.summary.busy && after.summary.running
                },
                SessionEventView::AssistantDelta { text, .. } => {
                    &&& after.active_run->0.assistant_text
                        == snapshot.active_run->0.assistant_text + text
                    &&& gained.len() == 0
                },
                SessionEventView::ContextUsage { input_tokens, last_activity, .. } => {
                    &&& after.settings.context_tokens == input_tokens
                    &&& after.settings.model == snapshot.settings.model
                    &&& after.settings.reasoning == snapshot.settings.reasoning
                    &&& after.summary.last_activity == last_activity
                    &&& gained.len() == 0 && after.active_run == snapshot.active_run
                },
                SessionEventView::ToolStarted { run_id, call_id, name, arguments } => {
                    &&& gained == seq![
                        TranscriptView::ToolStarted { run_id, call_id, name, arguments },
                    ]
                    &&& after.active_run == snapshot.active_run
                },
                SessionEventView::ToolFinished { .. } => after == (SnapshotView {
                    sequence,
                    ..snapshot
                }),
                SessionEventView::Completed { response, last_activity, .. } => {
                    &&& gained == seq![TranscriptView::Assistant(response)]
                    &&& after.active_run is None && !after.busy && !after.summary.busy
                    &&& after.summary.last_activity == last_activity
                    &&& after.summary.running == (after.summary.running_jobs > 0)
                },
                SessionEventView::Failed { run_id, failure } => {
                    &&& gained == seq![TranscriptView::Failed { run_id, failure }]
                    &&& after.active_run is None && !after.busy && !after.summary.busy
                    &&& after.summary.running == (after.summary.running_jobs > 0)
                },
                SessionEventView::Cancelled { run_id } => {
                    &&& gained == seq![TranscriptView::Cancelled { run_id }]
                    &&& after.active_run is None && !after.busy && !after.summary.busy
                    &&& after.summary.running == (after.summary.running_jobs > 0)
                },
                SessionEventView::SettingsChanged { settings, last_activity } => {
                    after.settings == settings && after.summary.last_activity == last_activity
                        && gained.len() == 0 && after.active_run == snapshot.active_run
                },
                SessionEventView::JobsChanged(jobs) => {
                    after.jobs == jobs && gained.len() == 0 && after.active_run
                        == snapshot.active_run
                },
                SessionEventView::PlanChanged(plan) => {
                    after.plan == plan && gained.len() == 0 && after.active_run
                        == snapshot.active_run
                },
                SessionEventView::CatalogChanged(catalog) => {
                    after.catalog == catalog && gained.len() == 0 && after.active_run
                        == snapshot.active_run
                },
                SessionEventView::PersistenceWarning(warning) => {
                    after.persistence_warning == warning && gained.len() == 0
                        && after.active_run == snapshot.active_run
                },
                SessionEventView::Deleted { .. } => false,
            }
        }),
{
    let after = after_envelope(snapshot, sequence, event);
    let gained = after.transcript.skip(snapshot.transcript.len() as int);
    match event {
        SessionEventView::Started { prompt, .. } => {
            assert(gained =~= seq![TranscriptView::User(prompt)]);
        },
        SessionEventView::ToolStarted { run_id, call_id, name, arguments } => {
            assert(gained =~= seq![
                TranscriptView::ToolStarted { run_id, call_id, name, arguments },
            ]);
        },
        SessionEventView::Completed { response, .. } => {
            assert(gained =~= seq![TranscriptView::Assistant(response)]);
        },
        SessionEventView::Failed { run_id, failure } => {
            assert(gained =~= seq![TranscriptView::Failed { run_id, failure }]);
        },
        SessionEventView::Cancelled { run_id } => {
            assert(gained =~= seq![TranscriptView::Cancelled { run_id }]);
        },
        _ => {},
    }
}

/// What an event does not name it leaves: settings, catalog, plan, jobs, warning and title change
/// by their own events alone.
pub proof fn lemma_events_leave_what_they_do_not_name(
    snapshot: SnapshotView,
    sequence: u64,
    event: SessionEventView,
)
    ensures
        ({
            let after = after_envelope(snapshot, sequence, event);
            &&& after.plan != snapshot.plan ==> event is PlanChanged
            &&& after.jobs != snapshot.jobs ==> event is JobsChanged
            &&& after.catalog != snapshot.catalog ==> event is CatalogChanged
            &&& after.persistence_warning != snapshot.persistence_warning ==> event
                is PersistenceWarning
            &&& after.settings != snapshot.settings ==> event is SettingsChanged || event
                is ContextUsage
            &&& after.summary.title != snapshot.summary.title ==> event is TitleChanged
            &&& after.summary.attached_clients == snapshot.summary.attached_clients
            &&& after.summary.cwd_display == snapshot.summary.cwd_display
            &&& after.summary.last_activity != snapshot.summary.last_activity ==> event
                is ContextUsage || event is Completed || event is SettingsChanged
            &&& after.transcript.len() <= snapshot.transcript.len() + 1
        }),
{
}

/// Which events are refused: one out of sequence, a start during a run, one of a run while none is
/// active or another one is, and the deletion of the session. All others are accepted.
pub proof fn lemma_refused_events(snapshot: SnapshotView, sequence: u64, event: SessionEventView)
    ensures
        event_refusal(snapshot, sequence, event) is Some <==> {
            ||| sequence != snapshot.sequence + 1
            ||| event is Deleted
            ||| event is Started && snapshot.active_run is Some
            ||| match event {
                SessionEventView::AssistantDelta { run_id, .. }
                | SessionEventView::ContextUsage { run_id, .. }
                | SessionEventView::ToolStarted { run_id, .. }
                | SessionEventView::ToolFinished { run_id, .. }
                | SessionEventView::Completed { run_id, .. }
                | SessionEventView::Failed { run_id, .. }
                | SessionEventView::Cancelled { run_id } => snapshot.active_run is None
                    || snapshot.active_run->0.run_id != run_id,
                _ => false,
            }
        },
{
}

/// The jobs that a summary counts are the running ones: each running job adds one, each other one
/// nothing.
pub proof fn lemma_summary_counts_running_jobs(jobs: Seq<JobView>, job: JobView)
    ensures
        running_job_count(jobs.push(job)) == running_job_count(jobs) + (if job.state
            == JobState::Running {
            1nat
        } else {
            0nat
        }),
        running_job_count(Seq::empty()) == 0,
        running_job_count(jobs) <= jobs.len(),
        running_job_count(jobs) <= u32::MAX ==> summary_job_count(jobs) == running_job_count(jobs),
        running_job_count(jobs) > u32::MAX ==> summary_job_count(jobs) == u32::MAX,
    decreases jobs.len(),
{
    assert(jobs.push(job).drop_last() =~= jobs);
    if jobs.len() > 0 {
        lemma_summary_counts_running_jobs(jobs.drop_last(), job);
    }
}

/// A fresh snapshot takes the place of all that was shown, where it agrees with itself on whether a
/// run is active; a warning changes nothing. A draft takes no update of a session.
pub proof fn lemma_updates_replace_or_follow(
    projection: ProjectionView,
    current: SnapshotView,
    snapshot: SessionSnapshot,
    warning: String,
    update: SessionUpdate,
)
    ensures
        ({
            let replaced = SessionUpdate::SnapshotReplaced(snapshot);
            let agrees = snapshot.busy == snapshot.summary.busy && snapshot.busy
                == (snapshot.active_run is Some);
            &&& agrees ==> update_refusal(ProjectionView::Session(current), replaced) is None
                && after_update(ProjectionView::Session(current), replaced)
                == ProjectionView::Session(snapshot.deep_view())
            &&& !agrees ==> update_refusal(ProjectionView::Session(current), replaced) is Some
            &&& update_refusal(
                ProjectionView::Session(current),
                SessionUpdate::Warning(warning),
            ) is None
            &&& after_update(ProjectionView::Session(current), SessionUpdate::Warning(warning))
                == ProjectionView::Session(current)
        }),
        projection is Draft ==> update_refusal(projection, update) is Some && after_update(
            projection,
            update,
        ) == projection,
        update_refusal(projection, update) is Some ==> after_update(projection, update)
            == projection,
{
}

/// A fresh draft keeps model, effort and catalog of the chat that it follows, stands in the
/// directory that it is for, and has used no context.
pub proof fn lemma_drafts_inherit_settings(projection: ProjectionView, cwd: Seq<u8>)
    ensures
        ({
            let draft = projection.draft_for(cwd);
            let (settings, catalog) = match projection {
                ProjectionView::Draft(before) => (before.settings, before.catalog),
                ProjectionView::Session(before) => (before.settings, before.catalog),
            };
            &&& draft.cwd == cwd
            &&& draft.settings.model == settings.model
            &&& draft.settings.reasoning == settings.reasoning
            &&& draft.settings.context_tokens == 0
            &&& draft.catalog == catalog
        }),
{
}

/// What the chat tells of itself is what the draft or the snapshot holds.
pub proof fn lemma_chats_tell_what_they_hold(draft: DraftView, snapshot: SnapshotView)
    ensures
        ProjectionView::Draft(draft).cwd() == draft.cwd,
        ProjectionView::Session(snapshot).cwd() == snapshot.summary.cwd,
        !ProjectionView::Draft(draft).is_busy(),
        ProjectionView::Session(snapshot).is_busy() == snapshot.busy,
        ProjectionView::Draft(draft).session_id() is None,
        ProjectionView::Session(snapshot).session_id() == Some(snapshot.summary.id),
        ProjectionView::Draft(draft).settings() == draft.settings,
        ProjectionView::Session(snapshot).settings() == snapshot.settings,
        ProjectionView::Draft(draft).catalog() == draft.catalog,
        ProjectionView::Session(snapshot).catalog() == snapshot.catalog,
{
}

/// Of the operation itself: each accepted piece stands behind the text that was streamed before
/// it, and each accepted end of a run leaves its entry last in the transcript.
pub proof fn lemma_applied_events_are_shown()
    ensures
        forall|
            shown: &mut SessionSnapshot,
            envelope: &SessionEventEnvelope,
            result: Result<(), ClientSessionError>,
        |
            #[trigger] call_ensures(apply_session_event, (shown, envelope), result) && result is Ok
                ==> {
                let after = *final(shown);
                &&& after.sequence == shown.sequence + 1
                &&& match envelope.event {
                    SessionEvent::AssistantDelta { text, .. } => {
                        &&& shown.active_run is Some && after.active_run is Some
                        &&& after.active_run->0.assistant_text@
                            == shown.active_run->0.assistant_text@ + text@
                    },
                    SessionEvent::Started { run_id, prompt } => {
                        &&& shown.active_run is None && after.active_run is Some
                        &&& after.active_run->0.run_id == run_id
                        &&& after.active_run->0.assistant_text@.len() == 0
                        &&& after.transcript@.len() == shown.transcript@.len() + 1
                        &&& after.transcript@.last().deep_view() == TranscriptView::User(prompt@)
                        &&& after.busy
                    },
                    SessionEvent::Completed { response, .. } => {
                        &&& after.active_run is None && !after.busy
                        &&& after.transcript@.len() == shown.transcript@.len() + 1
                        &&& after.transcript@.last().deep_view() == TranscriptView::Assistant(
                            response@,
                        )
                    },
                    SessionEvent::TitleChanged { title, .. } => after.summary.title.value@
                        == title.value@,
                    SessionEvent::SettingsChanged { settings, .. } => after.settings.model@
                        == settings.model@ && after.settings.reasoning == settings.reasoning,
                    SessionEvent::ContextUsage { input_tokens, .. } => after.settings.context_tokens
                        == input_tokens,
                    _ => true,
                }
            },
        forall|
            shown: &mut SessionSnapshot,
            envelope: &SessionEventEnvelope,
            result: Result<(), ClientSessionError>,
        |
            #[trigger] call_ensures(apply_session_event, (shown, envelope), result) && result is Err
                ==> final(shown).deep_view() == shown.deep_view(),
{
    assert forall|
        shown: &mut SessionSnapshot,
        envelope: &SessionEventEnvelope,
        result: Result<(), ClientSessionError>,
    |
        #[trigger] call_ensures(apply_session_event, (shown, envelope), result) && result
            is Ok implies {
        let after = *final(shown);
        match envelope.event {
            SessionEvent::Started { prompt, .. } => after.transcript@.len()
                == shown.transcript@.len() + 1 && after.transcript@.last().deep_view()
                == TranscriptView::User(prompt@),
            SessionEvent::Completed { response, .. } => after.transcript@.len()
                == shown.transcript@.len() + 1 && after.transcript@.last().deep_view()
                == TranscriptView::Assistant(response@),
            _ => true,
        }
    } by {
        let after = *final(shown);
        assert(after.deep_view().transcript == after.transcript.deep_view());
        assert(shown.deep_view().transcript == shown.transcript.deep_view());
        if envelope.event is Started || envelope.event is Completed {
            let last = after.transcript@.len() - 1;
            assert(after.transcript.deep_view()[last] == after.transcript@[last].deep_view());
        }
    }
}

} // verus!
