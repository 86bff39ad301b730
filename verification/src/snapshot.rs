//! Session state as contracts see it, and copies of it.

use vstd::prelude::*;

use crate::harness::error::{RunFailureKind, RunStage};
use crate::session::{
    ActiveRunSnapshot, JobKind, JobSnapshotDto, JobState, ModelCatalogState, ModelInfoDto,
    PlanItem, PlanStatus, ReasoningLevel, RunFailureSnapshot, SessionEvent, SessionId,
    SessionSettings, SessionSnapshot, SessionSummary, Timestamp, TranscriptItem,
};

verus! {

/// A value with a copy that contracts cannot tell from it.
pub trait Duplicate: DeepView + Sized {
    /// Copies the value.
    fn duplicate(&self) -> (copy: Self)
        ensures
            copy.deep_view() == self.deep_view(),
    ;
}

/// Copies a list.
pub fn duplicate_list<T: Duplicate>(values: &Vec<T>) -> (copy: Vec<T>)
    ensures
        copy.deep_view() == values.deep_view(),
{
    let mut copy: Vec<T> = Vec::new();
    let mut index: usize = 0;
    while index < values.len()
        invariant
            index <= values@.len(),
            copy@.len() == index,
            forall|i: int|
                0 <= i < index ==> (#[trigger] copy@[i]).deep_view() == values@[i].deep_view(),
        decreases values@.len() - index,
    {
        copy.push(values[index].duplicate());
        index += 1;
    }
    assert(copy.deep_view() =~= values.deep_view());
    copy
}

/// Copies bytes.
pub fn duplicate_bytes(bytes: &Vec<u8>) -> (copy: Vec<u8>)
    ensures
        copy@ == bytes@,
{
    vstd::slice::slice_to_vec(bytes.as_slice())
}

/// The characters of an optional text.
pub open spec fn optional_text(text: Option<String>) -> Option<Seq<char>> {
    match text {
        Some(text) => Some(text@),
        None => None,
    }
}

/// Copies an optional text.
pub fn duplicate_text(text: &Option<String>) -> (copy: Option<String>)
    ensures
        optional_text(copy) == optional_text(*text),
{
    match text {
        Some(text) => Some(text.clone()),
        None => None,
    }
}

/// [`SessionSettings`] as contracts see them.
pub ghost struct SettingsView {
    pub model: Seq<char>,
    pub reasoning: ReasoningLevel,
    pub context_tokens: u64,
}

impl DeepView for SessionSettings {
    type V = SettingsView;

    open spec fn deep_view(&self) -> SettingsView {
        SettingsView {
            model: self.model@,
            reasoning: self.reasoning,
            context_tokens: self.context_tokens,
        }
    }
}

impl Duplicate for SessionSettings {
    fn duplicate(&self) -> (copy: Self) {
        SessionSettings {
            model: self.model.clone(),
            reasoning: self.reasoning,
            context_tokens: self.context_tokens,
        }
    }
}

/// [`ModelInfoDto`] as contracts see it.
pub ghost struct ModelView {
    pub id: Seq<char>,
    pub display_name: Seq<char>,
    pub description: Seq<char>,
    pub reasoning_efforts: Seq<ReasoningLevel>,
    pub default_reasoning: Option<ReasoningLevel>,
}

impl DeepView for ModelInfoDto {
    type V = ModelView;

    open spec fn deep_view(&self) -> ModelView {
        ModelView {
            id: self.id@,
            display_name: self.display_name@,
            description: self.description@,
            reasoning_efforts: self.reasoning_efforts@,
            default_reasoning: self.default_reasoning,
        }
    }
}

/// Copies a list of reasoning levels.
pub fn duplicate_levels(levels: &Vec<ReasoningLevel>) -> (copy: Vec<ReasoningLevel>)
    ensures
        copy@ == levels@,
{
    let mut copy: Vec<ReasoningLevel> = Vec::new();
    let mut index: usize = 0;
    while index < levels.len()
        invariant
            index <= levels@.len(),
            copy@ == levels@.subrange(0, index as int),
        decreases levels@.len() - index,
    {
        copy.push(levels[index]);
        index += 1;
        assert(copy@ =~= levels@.subrange(0, index as int));
    }
    assert(copy@ =~= levels@);
    copy
}

impl Duplicate for ModelInfoDto {
    fn duplicate(&self) -> (copy: Self) {
        ModelInfoDto {
            id: self.id.clone(),
            display_name: self.display_name.clone(),
            description: self.description.clone(),
            reasoning_efforts: duplicate_levels(&self.reasoning_efforts),
            default_reasoning: self.default_reasoning,
        }
    }
}

/// [`ModelCatalogState`] as contracts see it.
pub ghost enum CatalogView {
    Loading,
    Ready(Seq<ModelView>),
    Failed(Seq<char>),
}

impl DeepView for ModelCatalogState {
    type V = CatalogView;

    open spec fn deep_view(&self) -> CatalogView {
        match self {
            ModelCatalogState::Loading => CatalogView::Loading,
            ModelCatalogState::Ready(models) => CatalogView::Ready(models.deep_view()),
            ModelCatalogState::Failed(message) => CatalogView::Failed(message@),
        }
    }
}

impl Duplicate for ModelCatalogState {
    fn duplicate(&self) -> (copy: Self) {
        match self {
            ModelCatalogState::Loading => ModelCatalogState::Loading,
            ModelCatalogState::Ready(models) => ModelCatalogState::Ready(duplicate_list(models)),
            ModelCatalogState::Failed(message) => ModelCatalogState::Failed(message.clone()),
        }
    }
}

/// [`PlanItem`] as contracts see it.
pub ghost struct PlanView {
    pub step: Seq<char>,
    pub status: PlanStatus,
}

impl DeepView for PlanItem {
    type V = PlanView;

    open spec fn deep_view(&self) -> PlanView {
        PlanView { step: self.step@, status: self.status }
    }
}

impl Duplicate for PlanItem {
    fn duplicate(&self) -> (copy: Self) {
        PlanItem { step: self.step.clone(), status: self.status }
    }
}

/// [`JobSnapshotDto`] as contracts see it.
pub ghost struct JobView {
    pub id: Seq<char>,
    pub kind: JobKind,
    pub state: JobState,
    pub title: Seq<char>,
    pub started_at: Timestamp,
    pub completed_at: Option<Timestamp>,
    pub details: Seq<char>,
}

impl DeepView for JobSnapshotDto {
    type V = JobView;

    open spec fn deep_view(&self) -> JobView {
        JobView {
            id: self.id@,
            kind: self.kind,
            state: self.state,
            title: self.title@,
            started_at: self.started_at,
            completed_at: self.completed_at,
            details: self.details@,
        }
    }
}

impl Duplicate for JobSnapshotDto {
    fn duplicate(&self) -> (copy: Self) {
        JobSnapshotDto {
            id: self.id.clone(),
            kind: self.kind,
            state: self.state,
            title: self.title.clone(),
            started_at: self.started_at,
            completed_at: self.completed_at,
            details: self.details.clone(),
        }
    }
}

/// [`SessionSummary`] as contracts see it.
pub ghost struct SummaryView {
    pub id: SessionId,
    pub title: Seq<char>,
    pub title_revision: u64,
    pub cwd: Seq<u8>,
    pub cwd_display: Seq<char>,
    pub running_jobs: u32,
    pub running: bool,
    pub busy: bool,
    pub attached_clients: u32,
    pub last_activity: Timestamp,
}

impl DeepView for SessionSummary {
    type V = SummaryView;

    open spec fn deep_view(&self) -> SummaryView {
        SummaryView {
            id: self.id,
            title: self.title.value@,
            title_revision: self.title_revision,
            cwd: self.cwd@,
            cwd_display: self.cwd_display@,
            running_jobs: self.running_jobs,
            running: self.running,
            busy: self.busy,
            attached_clients: self.attached_clients,
            last_activity: self.last_activity,
        }
    }
}

impl Duplicate for SessionSummary {
    fn duplicate(&self) -> (copy: Self) {
        SessionSummary {
            id: self.id,
            title: self.title.duplicate(),
            title_revision: self.title_revision,
            cwd: duplicate_bytes(&self.cwd),
            cwd_display: self.cwd_display.clone(),
            running_jobs: self.running_jobs,
            running: self.running,
            busy: self.busy,
            attached_clients: self.attached_clients,
            last_activity: self.last_activity,
        }
    }
}

/// [`RunFailureSnapshot`] as contracts see it.
pub ghost struct FailureView {
    pub stage: RunStage,
    pub kind: RunFailureKind,
    pub retryable: bool,
    pub message: Seq<char>,
}

impl DeepView for RunFailureSnapshot {
    type V = FailureView;

    open spec fn deep_view(&self) -> FailureView {
        FailureView {
            stage: self.stage,
            kind: self.kind,
            retryable: self.retryable,
            message: self.message@,
        }
    }
}

impl Duplicate for RunFailureSnapshot {
    fn duplicate(&self) -> (copy: Self) {
        RunFailureSnapshot {
            stage: self.stage,
            kind: self.kind,
            retryable: self.retryable,
            message: self.message.clone(),
        }
    }
}

/// [`TranscriptItem`] as contracts see it.
pub ghost enum TranscriptView {
    User(Seq<char>),
    Assistant(Seq<char>),
    ToolStarted { run_id: u64, call_id: Seq<char>, name: Seq<char>, arguments: Seq<char> },
    Failed { run_id: u64, failure: FailureView },
    Cancelled { run_id: u64 },
}

impl DeepView for TranscriptItem {
    type V = TranscriptView;

    open spec fn deep_view(&self) -> TranscriptView {
        match self {
            TranscriptItem::User(text) => TranscriptView::User(text@),
            TranscriptItem::Assistant(text) => TranscriptView::Assistant(text@),
            TranscriptItem::ToolStarted { run_id, call_id, name, arguments } => {
                TranscriptView::ToolStarted {
                    run_id: *run_id,
                    call_id: call_id@,
                    name: name@,
                    arguments: arguments@,
                }
            },
            TranscriptItem::Failed { run_id, failure } => TranscriptView::Failed {
                run_id: *run_id,
                failure: failure.deep_view(),
            },
            TranscriptItem::Cancelled { run_id } => TranscriptView::Cancelled { run_id: *run_id },
        }
    }
}

impl Duplicate for TranscriptItem {
    fn duplicate(&self) -> (copy: Self) {
        match self {
            TranscriptItem::User(text) => TranscriptItem::User(text.clone()),
            TranscriptItem::Assistant(text) => TranscriptItem::Assistant(text.clone()),
            TranscriptItem::ToolStarted { run_id, call_id, name, arguments } => {
                TranscriptItem::ToolStarted {
                    run_id: *run_id,
                    call_id: call_id.clone(),
                    name: name.clone(),
                    arguments: arguments.clone(),
                }
            },
            TranscriptItem::Failed { run_id, failure } => TranscriptItem::Failed {
                run_id: *run_id,
                failure: failure.duplicate(),
            },
            TranscriptItem::Cancelled { run_id } => TranscriptItem::Cancelled { run_id: *run_id },
        }
    }
}

/// [`ActiveRunSnapshot`] as contracts see it.
pub ghost struct ActiveRunView {
    pub run_id: u64,
    pub prompt: Seq<char>,
    pub assistant_text: Seq<char>,
}

impl DeepView for ActiveRunSnapshot {
    type V = ActiveRunView;

    open spec fn deep_view(&self) -> ActiveRunView {
        ActiveRunView {
            run_id: self.run_id,
            prompt: self.prompt@,
            assistant_text: self.assistant_text@,
        }
    }
}

impl Duplicate for ActiveRunSnapshot {
    fn duplicate(&self) -> (copy: Self) {
        ActiveRunSnapshot {
            run_id: self.run_id,
            prompt: self.prompt.clone(),
            assistant_text: self.assistant_text.clone(),
        }
    }
}

/// [`SessionSnapshot`] as contracts see it.
pub ghost struct SnapshotView {
    pub summary: SummaryView,
    pub transcript: Seq<TranscriptView>,
    pub active_run: Option<ActiveRunView>,
    pub settings: SettingsView,
    pub catalog: CatalogView,
    pub plan: Seq<PlanView>,
    pub jobs: Seq<JobView>,
    pub persistence_warning: Option<Seq<char>>,
    pub sequence: u64,
    pub busy: bool,
}

impl DeepView for SessionSnapshot {
    type V = SnapshotView;

    open spec fn deep_view(&self) -> SnapshotView {
        SnapshotView {
            summary: self.summary.deep_view(),
            transcript: self.transcript.deep_view(),
            active_run: match self.active_run {
                Some(run) => Some(run.deep_view()),
                None => None,
            },
            settings: self.settings.deep_view(),
            catalog: self.catalog.deep_view(),
            plan: self.plan.deep_view(),
            jobs: self.jobs.deep_view(),
            persistence_warning: optional_text(self.persistence_warning),
            sequence: self.sequence,
            busy: self.busy,
        }
    }
}

impl Duplicate for SessionSnapshot {
    fn duplicate(&self) -> (copy: Self) {
        SessionSnapshot {
            summary: self.summary.duplicate(),
            transcript: duplicate_list(&self.transcript),
            active_run: match &self.active_run {
                Some(run) => Some(run.duplicate()),
                None => None,
            },
            settings: self.settings.duplicate(),
            catalog: self.catalog.duplicate(),
            plan: duplicate_list(&self.plan),
            jobs: duplicate_list(&self.jobs),
            persistence_warning: duplicate_text(&self.persistence_warning),
            sequence: self.sequence,
            busy: self.busy,
        }
    }
}

/// [`SessionEvent`] as contracts see it.
pub ghost enum SessionEventView {
    TitleChanged { title: Seq<char>, title_revision: u64 },
    Started { run_id: u64, prompt: Seq<char> },
    AssistantDelta { run_id: u64, text: Seq<char> },
    ContextUsage { run_id: u64, input_tokens: u64, last_activity: Timestamp },
    ToolStarted { run_id: u64, call_id: Seq<char>, name: Seq<char>, arguments: Seq<char> },
    ToolFinished { run_id: u64, call_id: Seq<char>, name: Seq<char> },
    Completed { run_id: u64, response: Seq<char>, last_activity: Timestamp },
    Failed { run_id: u64, failure: FailureView },
    Cancelled { run_id: u64 },
    SettingsChanged { settings: SettingsView, last_activity: Timestamp },
    PlanChanged(Seq<PlanView>),
    JobsChanged(Seq<JobView>),
    CatalogChanged(CatalogView),
    PersistenceWarning(Option<Seq<char>>),
    Deleted { session_id: SessionId },
}

impl DeepView for SessionEvent {
    type V = SessionEventView;

    open spec fn deep_view(&self) -> SessionEventView {
        match self {
            SessionEvent::TitleChanged { title, title_revision } => {
                SessionEventView::TitleChanged {
                    title: title.value@,
                    title_revision: *title_revision,
                }
            },
            SessionEvent::Started { run_id, prompt } => SessionEventView::Started {
                run_id: *run_id,
                prompt: prompt@,
            },
            SessionEvent::AssistantDelta { run_id, text } => SessionEventView::AssistantDelta {
                run_id: *run_id,
                text: text@,
            },
            SessionEvent::ContextUsage { run_id, input_tokens, last_activity } => {
                SessionEventView::ContextUsage {
                    run_id: *run_id,
                    input_tokens: *input_tokens,
                    last_activity: *last_activity,
                }
            },
            SessionEvent::ToolStarted { run_id, call_id, name, arguments } => {
                SessionEventView::ToolStarted {
                    run_id: *run_id,
                    call_id: call_id@,
                    name: name@,
                    arguments: arguments@,
                }
            },
            SessionEvent::ToolFinished { run_id, call_id, name } => {
                SessionEventView::ToolFinished {
                    run_id: *run_id,
                    call_id: call_id@,
                    name: name@,
                }
            },
            SessionEvent::Completed { run_id, response, last_activity } => {
                SessionEventView::Completed {
                    run_id: *run_id,
                    response: response@,
                    last_activity: *last_activity,
                }
            },
            SessionEvent::Failed { run_id, failure } => SessionEventView::Failed {
                run_id: *run_id,
                failure: failure.deep_view(),
            },
            SessionEvent::Cancelled { run_id } => SessionEventView::Cancelled { run_id: *run_id },
            SessionEvent::SettingsChanged { settings, last_activity } => {
                SessionEventView::SettingsChanged {
                    settings: settings.deep_view(),
                    last_activity: *last_activity,
                }
            },
            SessionEvent::PlanChanged(plan) => SessionEventView::PlanChanged(plan.deep_view()),
            SessionEvent::JobsChanged(jobs) => SessionEventView::JobsChanged(jobs.deep_view()),
            SessionEvent::CatalogChanged(catalog) => SessionEventView::CatalogChanged(
                catalog.deep_view(),
            ),
            SessionEvent::PersistenceWarning(warning) => SessionEventView::PersistenceWarning(
                optional_text(*warning),
            ),
            SessionEvent::Deleted { session_id } => SessionEventView::Deleted {
                session_id: *session_id,
            },
        }
    }
}

/// Contracts see every field: values that they cannot tell apart hold the same.
pub proof fn lemma_settings_and_models_are_seen_whole(
    settings: SessionSettings,
    other_settings: SessionSettings,
    model: ModelInfoDto,
    other_model: ModelInfoDto,
    job: JobSnapshotDto,
    other_job: JobSnapshotDto,
    item: PlanItem,
    other_item: PlanItem,
)
    ensures
        settings.deep_view() == other_settings.deep_view() ==> settings.model@
            == other_settings.model@ && settings.reasoning == other_settings.reasoning
            && settings.context_tokens == other_settings.context_tokens,
        model.deep_view() == other_model.deep_view() ==> model.id@ == other_model.id@
            && model.display_name@ == other_model.display_name@ && model.description@
            == other_model.description@ && model.reasoning_efforts@
            == other_model.reasoning_efforts@ && model.default_reasoning
            == other_model.default_reasoning,
        job.deep_view() == other_job.deep_view() ==> job.id@ == other_job.id@ && job.kind
            == other_job.kind && job.state == other_job.state && job.title@ == other_job.title@
            && job.started_at == other_job.started_at && job.completed_at == other_job.completed_at
            && job.details@ == other_job.details@,
        item.deep_view() == other_item.deep_view() ==> item.step@ == other_item.step@ && item.status
            == other_item.status,
{
}

/// Contracts see a session whole: two that they cannot tell apart have the same summary, the same
/// transcript item for item, the same run, settings, catalog, plan and jobs.
pub proof fn lemma_sessions_are_seen_whole(snapshot: SessionSnapshot, other: SessionSnapshot)
    requires
        snapshot.deep_view() == other.deep_view(),
    ensures
        snapshot.summary.id == other.summary.id,
        snapshot.summary.title.value@ == other.summary.title.value@,
        snapshot.summary.title_revision == other.summary.title_revision,
        snapshot.summary.cwd@ == other.summary.cwd@,
        snapshot.summary.cwd_display@ == other.summary.cwd_display@,
        snapshot.summary.running_jobs == other.summary.running_jobs,
        snapshot.summary.running == other.summary.running,
        snapshot.summary.busy == other.summary.busy,
        snapshot.summary.attached_clients == other.summary.attached_clients,
        snapshot.summary.last_activity == other.summary.last_activity,
        snapshot.transcript@.len() == other.transcript@.len(),
        forall|i: int|
            0 <= i < snapshot.transcript@.len() ==> (#[trigger] snapshot.transcript@[i]).deep_view()
                == other.transcript@[i].deep_view(),
        snapshot.active_run is Some <==> other.active_run is Some,
        snapshot.active_run is Some ==> snapshot.active_run->0.run_id == other.active_run->0.run_id
            && snapshot.active_run->0.prompt@ == other.active_run->0.prompt@
            && snapshot.active_run->0.assistant_text@ == other.active_run->0.assistant_text@,
        snapshot.settings.deep_view() == other.settings.deep_view(),
        snapshot.catalog.deep_view() == other.catalog.deep_view(),
        snapshot.plan.deep_view() == other.plan.deep_view(),
        snapshot.jobs.deep_view() == other.jobs.deep_view(),
        snapshot.persistence_warning is Some <==> other.persistence_warning is Some,
        snapshot.persistence_warning is Some ==> snapshot.persistence_warning->0@
            == other.persistence_warning->0@,
        snapshot.sequence == other.sequence,
        snapshot.busy == other.busy,
{
    assert(snapshot.transcript.deep_view().len() == other.transcript.deep_view().len());
    assert forall|i: int| 0 <= i < snapshot.transcript@.len() implies (
    #[trigger] snapshot.transcript@[i]).deep_view() == other.transcript@[i].deep_view() by {
        assert(snapshot.transcript.deep_view()[i] == other.transcript.deep_view()[i]);
    }
}

} // verus!
