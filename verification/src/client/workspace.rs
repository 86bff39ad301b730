//! The workspace: one backend connection, at most one attached session, and the chat shown.
//!
//! The caller talks to the backend. What it hears goes into a [`Workspace`], which decides what is
//! shown, which session stays attached and which one is detached.

use vstd::prelude::*;

use super::session::{
    after_update, apply_projection_update, update_refusal, ChatProjection, ClientSessionError,
    DraftState, DraftView, LaunchMode, ProjectionView, SessionUpdate, WorkspaceUpdate,
};
use crate::session::{
    ModelCatalogState, ModelInfoDto, ReasoningLevel, SessionId, SessionSelector, SessionSettings,
    SessionSnapshot,
};
use crate::snapshot::{
    duplicate_bytes, CatalogView, Duplicate, ModelView, SettingsView, SnapshotView,
};
use crate::text::same_text;

verus! {

/// The milliseconds after which a starting backend is asked again.
pub const BACKEND_READY_MILLISECONDS: u64 = 25;

/// What the backend selected at startup: `S` is the attached session.
pub enum WorkspaceStartup<S> {
    Draft(DraftState),
    Attached { session: S, snapshot: SessionSnapshot },
}

/// What to ask the backend first.
#[derive(Debug)]
pub enum LaunchRequest {
    DraftDefaults { cwd: Vec<u8> },
    Startup { cwd: Vec<u8> },
    Open { selector: SessionSelector, cwd: Vec<u8> },
}

/// What to do with the answer to a launch request.
pub enum LaunchStep<S> {
    /// Ask again after [`BACKEND_READY_MILLISECONDS`].
    Retry,
    Fail(ClientSessionError),
    Ready(Workspace<S>),
}

/// The first request of a launch.
pub fn launch_request(mode: LaunchMode, cwd: Vec<u8>) -> (request: LaunchRequest)
    ensures
        request == match mode {
            LaunchMode::NewDraft => LaunchRequest::DraftDefaults { cwd },
            LaunchMode::Startup => LaunchRequest::Startup { cwd },
            LaunchMode::Session(selector) => LaunchRequest::Open { selector, cwd },
        },
{
    match mode {
        LaunchMode::NewDraft => LaunchRequest::DraftDefaults { cwd },
        LaunchMode::Startup => LaunchRequest::Startup { cwd },
        LaunchMode::Session(selector) => LaunchRequest::Open { selector, cwd },
    }
}

/// Why a model cannot be selected for a draft, with the settings that are left.
pub open spec fn model_selected(draft: DraftView, model: Seq<char>) -> (
    DraftView,
    Option<Seq<char>>,
) {
    match draft.catalog {
        CatalogView::Ready(models) => match model_of(models, model) {
            None => (draft, Some("model is not available"@)),
            Some(selected) => {
                let named = SettingsView { model, ..draft.settings };
                match fitting_reasoning(selected, draft.settings.reasoning) {
                    Some(reasoning) => (
                        DraftView {
                            settings: SettingsView { reasoning, context_tokens: 0, ..named },
                            ..draft
                        },
                        None,
                    ),
                    None => (
                        DraftView { settings: named, ..draft },
                        Some("model has no supported reasoning effort"@),
                    ),
                }
            },
        },
        _ => (draft, Some("model catalog is not ready"@)),
    }
}

/// The reasoning level that a model is used with: the current one where it is supported, else the
/// default, else the first supported one.
pub open spec fn fitting_reasoning(model: ModelView, current: ReasoningLevel) -> Option<
    ReasoningLevel,
> {
    if model.reasoning_efforts.contains(current) {
        Some(current)
    } else if model.default_reasoning is Some {
        model.default_reasoning
    } else if model.reasoning_efforts.len() > 0 {
        Some(model.reasoning_efforts[0])
    } else {
        None
    }
}

/// The first model with an identifier.
pub open spec fn model_of(models: Seq<ModelView>, id: Seq<char>) -> Option<ModelView>
    decreases models.len(),
{
    if models.len() == 0 {
        None
    } else if models[0].id == id {
        Some(models[0])
    } else {
        model_of(models.drop_first(), id)
    }
}

/// Why a reasoning level cannot be selected for a draft, with the settings that are left.
pub open spec fn reasoning_selected(draft: DraftView, reasoning: ReasoningLevel) -> (
    DraftView,
    Option<Seq<char>>,
) {
    match draft.catalog {
        CatalogView::Ready(models) => match model_of(models, draft.settings.model) {
            Some(model) if model.reasoning_efforts.contains(reasoning) => (
                DraftView {
                    settings: SettingsView { reasoning, context_tokens: 0, ..draft.settings },
                    ..draft
                },
                None,
            ),
            _ => (draft, Some("reasoning effort is not supported by the active model"@)),
        },
        _ => (draft, Some("model catalog is not ready"@)),
    }
}

/// A selection that succeeds leaves a model of the catalog with a reasoning level that fits it, and
/// no counted context.
pub proof fn lemma_selected_model_is_in_the_catalog(draft: DraftView, model: Seq<char>)
    ensures
        model_selected(draft, model).1 is None ==> {
            let after = model_selected(draft, model).0;
            &&& draft.catalog is Ready
            &&& after.settings.model == model
            &&& model_of(draft.catalog->Ready_0, model) is Some
            &&& Some(after.settings.reasoning) == fitting_reasoning(
                model_of(draft.catalog->Ready_0, model)->0,
                draft.settings.reasoning,
            )
            &&& after.settings.context_tokens == 0
            &&& after.cwd == draft.cwd && after.catalog == draft.catalog
        },
{
}

fn find_model<'a>(models: &'a Vec<ModelInfoDto>, id: &str) -> (model: Option<&'a ModelInfoDto>)
    ensures
        match model {
            Some(model) => model_of(models.deep_view(), id@) == Some(model.deep_view()),
            None => model_of(models.deep_view(), id@) is None,
        },
{
    let ghost all = models.deep_view();
    let mut index: usize = 0;
    assert(all.skip(0) =~= all);
    while index < models.len()
        invariant
            index <= models@.len(),
            all == models.deep_view(),
            model_of(all, id@) == model_of(all.skip(index as int), id@),
        decreases models@.len() - index,
    {
        proof {
            let rest = all.skip(index as int);
            assert(rest[0] == models@[index as int].deep_view());
            assert(rest.drop_first() =~= all.skip(index + 1));
        }
        if same_text(&models[index].id, id) {
            return Some(&models[index]);
        }
        index += 1;
    }
    None
}

fn supports(model: &ModelInfoDto, level: ReasoningLevel) -> (supported: bool)
    ensures
        supported == model.deep_view().reasoning_efforts.contains(level),
{
    let levels = &model.reasoning_efforts;
    let mut index: usize = 0;
    while index < levels.len()
        invariant
            index <= levels@.len(),
            levels@ == model.deep_view().reasoning_efforts,
            forall|i: int| 0 <= i < index ==> levels@[i] != level,
        decreases levels@.len() - index,
    {
        if levels[index] == level {
            assert(levels@.contains(level));
            return true;
        }
        index += 1;
    }
    false
}

fn reasoning_for(model: &ModelInfoDto, current: ReasoningLevel) -> (level: Option<ReasoningLevel>)
    ensures
        level == fitting_reasoning(model.deep_view(), current),
{
    if supports(model, current) {
        Some(current)
    } else if model.default_reasoning.is_some() {
        model.default_reasoning
    } else if model.reasoning_efforts.len() > 0 {
        Some(model.reasoning_efforts[0])
    } else {
        None
    }
}

impl DraftState {
    /// Selects a model for the draft.
    pub fn select_model(&mut self, model: String) -> (result: Result<(), ClientSessionError>)
        ensures
            final(self).deep_view() == model_selected(old(self).deep_view(), model@).0,
            match result {
                Ok(()) => model_selected(old(self).deep_view(), model@).1 is None,
                Err(error) => model_selected(old(self).deep_view(), model@).1 == Some(
                    error.message@,
                ) && !error.backend_starting,
            },
    {
        let reasoning = match &self.catalog {
            ModelCatalogState::Ready(models) => match find_model(models, &model) {
                Some(selected) => reasoning_for(selected, self.settings.reasoning),
                None => {
                    return Err(ClientSessionError::message("model is not available"));
                },
            },
            _ => {
                return Err(ClientSessionError::message("model catalog is not ready"));
            },
        };
        self.settings.model = model;
        match reasoning {
            Some(reasoning) => {
                self.settings.reasoning = reasoning;
                self.settings.context_tokens = 0;
                Ok(())
            },
            None => Err(ClientSessionError::message("model has no supported reasoning effort")),
        }
    }

    /// Selects a reasoning level for the draft.
    pub fn select_reasoning(&mut self, reasoning: ReasoningLevel) -> (result: Result<
        (),
        ClientSessionError,
    >)
        ensures
            final(self).deep_view() == reasoning_selected(old(self).deep_view(), reasoning).0,
            match result {
                Ok(()) => reasoning_selected(old(self).deep_view(), reasoning).1 is None,
                Err(error) => reasoning_selected(old(self).deep_view(), reasoning).1 == Some(
                    error.message@,
                ) && !error.backend_starting,
            },
    {
        let supported = match &self.catalog {
            ModelCatalogState::Ready(models) => match find_model(models, &self.settings.model) {
                Some(model) => supports(model, reasoning),
                None => false,
            },
            _ => {
                return Err(ClientSessionError::message("model catalog is not ready"));
            },
        };
        if !supported {
            return Err(
                ClientSessionError::message(
                    "reasoning effort is not supported by the active model",
                ),
            );
        }
        self.settings.reasoning = reasoning;
        self.settings.context_tokens = 0;
        Ok(())
    }
}

/// One shown chat and at most one attached session `S`.
pub struct Workspace<S> {
    session: Option<S>,
    projection: ChatProjection,
    pending_warning: Option<String>,
}

/// [`Workspace`] as contracts see it.
pub ghost struct WorkspaceView<S> {
    pub session: Option<S>,
    pub projection: ProjectionView,
    pub pending_warning: Option<Seq<char>>,
}

impl<S> WorkspaceView<S> {
    /// A draft without a session.
    pub open spec fn on_draft(draft: DraftView) -> WorkspaceView<S> {
        WorkspaceView {
            session: None,
            projection: ProjectionView::Draft(draft),
            pending_warning: None,
        }
    }

    /// An attached session.
    pub open spec fn on_session(session: S, snapshot: SnapshotView) -> WorkspaceView<S> {
        WorkspaceView {
            session: Some(session),
            projection: ProjectionView::Session(snapshot),
            pending_warning: None,
        }
    }

    /// A session is attached exactly while one is shown.
    pub open spec fn wf(self) -> bool {
        self.session is Some <==> self.projection is Session
    }

    /// Another session in place of the current one.
    pub open spec fn with_session(self, session: S, snapshot: SnapshotView) -> WorkspaceView<S> {
        WorkspaceView {
            session: Some(session),
            projection: ProjectionView::Session(snapshot),
            ..self
        }
    }

    /// A draft in place of the current chat.
    pub open spec fn with_draft(self, draft: DraftView) -> WorkspaceView<S> {
        WorkspaceView { session: None, projection: ProjectionView::Draft(draft), ..self }
    }

    /// A warning to deliver later; only the first one is kept.
    pub open spec fn with_warning(self, warning: Seq<char>) -> WorkspaceView<S> {
        WorkspaceView {
            pending_warning: if self.pending_warning is Some {
                self.pending_warning
            } else {
                Some(warning)
            },
            ..self
        }
    }
}

/// How a prompt is submitted.
pub enum SubmitRoute<'a, S> {
    /// To the attached session.
    Session(&'a S),
    /// By making the draft durable.
    Materialize { cwd: Vec<u8>, settings: SessionSettings },
}

/// What to do for the next update.
#[derive(Debug)]
pub enum UpdateSource {
    /// Deliver a warning that was kept.
    Warning(String),
    /// Wait for the attached session.
    Session,
    /// Nothing will come.
    Never,
}

/// What to do with an update of the attached session.
#[derive(Debug)]
pub enum UpdateStep {
    Deliver(WorkspaceUpdate),
    /// Select another chat for the project, then deliver the deletion.
    Fallback { session_id: SessionId, cwd: Vec<u8> },
}

impl<S> Workspace<S> {
    /// The state of the workspace.
    pub closed spec fn state(&self) -> WorkspaceView<S> {
        WorkspaceView {
            session: self.session,
            projection: self.projection.deep_view(),
            pending_warning: crate::snapshot::optional_text(self.pending_warning),
        }
    }

    /// A workspace on a draft.
    pub fn from_draft(draft: DraftState) -> (workspace: Self)
        ensures
            workspace.state() == WorkspaceView::<S>::on_draft(draft.deep_view()),
            workspace.state().wf(),
    {
        Workspace {
            session: None,
            projection: ChatProjection::Draft(draft),
            pending_warning: None,
        }
    }

    /// A workspace on an attached session.
    pub fn from_session(session: S, snapshot: SessionSnapshot) -> (workspace: Self)
        ensures
            workspace.state() == WorkspaceView::on_session(session, snapshot.deep_view()),
            workspace.state().wf(),
    {
        Workspace {
            session: Some(session),
            projection: ChatProjection::Session(snapshot),
            pending_warning: None,
        }
    }

    /// A workspace on what the backend selected.
    pub fn from_startup(startup: WorkspaceStartup<S>) -> (workspace: Self)
        ensures
            workspace.state() == match startup {
                WorkspaceStartup::Draft(draft) => WorkspaceView::on_draft(draft.deep_view()),
                WorkspaceStartup::Attached { session, snapshot } => WorkspaceView::on_session(
                    session,
                    snapshot.deep_view(),
                ),
            },
            workspace.state().wf(),
    {
        match startup {
            WorkspaceStartup::Draft(draft) => Self::from_draft(draft),
            WorkspaceStartup::Attached { session, snapshot } => Self::from_session(
                session,
                snapshot,
            ),
        }
    }

    /// Decides on the answer to a launch request: a starting backend is asked again.
    pub fn launched(result: Result<WorkspaceStartup<S>, ClientSessionError>) -> (step: LaunchStep<S>)
        ensures
            match result {
                Err(error) => if error.backend_starting {
                    step is Retry
                } else {
                    step == LaunchStep::<S>::Fail(error)
                },
                Ok(startup) => step is Ready && step->Ready_0.state().wf()
                    && step->Ready_0.state() == match startup {
                    WorkspaceStartup::Draft(draft) => WorkspaceView::on_draft(draft.deep_view()),
                    WorkspaceStartup::Attached { session, snapshot } => WorkspaceView::on_session(
                        session,
                        snapshot.deep_view(),
                    ),
                },
            },
    {
        match result {
            Err(error) => {
                if error.is_backend_starting() {
                    LaunchStep::Retry
                } else {
                    LaunchStep::Fail(error)
                }
            },
            Ok(startup) => LaunchStep::Ready(Self::from_startup(startup)),
        }
    }

    /// The chat shown.
    pub fn current_projection(&self) -> (projection: &ChatProjection)
        ensures
            projection.deep_view() == self.state().projection,
    {
        &self.projection
    }

    /// The attached session.
    pub fn attached(&self) -> (session: Result<&S, ClientSessionError>)
        ensures
            match session {
                Ok(session) => self.state().session == Some(*session),
                Err(error) => self.state().session is None && error.message@
                    == "the current chat is not durable"@ && !error.backend_starting,
            },
    {
        match &self.session {
            Some(session) => Ok(session),
            None => Err(ClientSessionError::message("the current chat is not durable")),
        }
    }

    /// Keeps the first warning for later.
    pub fn retain_warning(&mut self, error: ClientSessionError)
        ensures
            final(self).state() == old(self).state().with_warning(error.message@),
    {
        if self.pending_warning.is_none() {
            self.pending_warning = Some(error.message);
        }
    }

    fn install_session(&mut self, session: S, snapshot: SessionSnapshot) -> (detached: Option<S>)
        ensures
            final(self).state() == old(self).state().with_session(session, snapshot.deep_view()),
            detached == old(self).state().session,
    {
        let detached = self.session.take();
        self.session = Some(session);
        self.projection = ChatProjection::Session(snapshot);
        detached
    }

    /// Where the next update comes from; a kept warning comes first, once.
    pub fn update_source(&mut self) -> (source: UpdateSource)
        ensures
            final(self).state() == (WorkspaceView { pending_warning: None, ..old(self).state() }),
            match old(self).state().pending_warning {
                Some(warning) => source is Warning && source->Warning_0@ == warning,
                None => if old(self).state().session is Some {
                    source is Session
                } else {
                    source is Never
                },
            },
    {
        match self.pending_warning.take() {
            Some(warning) => UpdateSource::Warning(warning),
            None => {
                if self.session.is_some() {
                    UpdateSource::Session
                } else {
                    UpdateSource::Never
                }
            },
        }
    }

    /// Takes an update of the attached session.
    pub fn take_update(&mut self, update: SessionUpdate) -> (result: Result<
        UpdateStep,
        ClientSessionError,
    >)
        ensures
            match update {
                SessionUpdate::Warning(warning) => final(self).state() == old(self).state()
                    && result == Ok::<UpdateStep, ClientSessionError>(
                    UpdateStep::Deliver(WorkspaceUpdate::Warning(warning)),
                ),
                SessionUpdate::Deleted { session_id, cwd } => final(self).state() == (
                WorkspaceView { session: None, ..old(self).state() }) && result == Ok::<
                    UpdateStep,
                    ClientSessionError,
                >(UpdateStep::Fallback { session_id, cwd }),
                _ => final(self).state() == (WorkspaceView {
                    projection: after_update(old(self).state().projection, update),
                    ..old(self).state()
                }) && match result {
                    Ok(step) => update_refusal(old(self).state().projection, update) is None
                        && step == UpdateStep::Deliver(WorkspaceUpdate::Session(update)),
                    Err(error) => update_refusal(old(self).state().projection, update) == Some(
                        error.message@,
                    ) && !error.backend_starting,
                },
            },
    {
        match update {
            SessionUpdate::Warning(warning) => Ok(
                UpdateStep::Deliver(WorkspaceUpdate::Warning(warning)),
            ),
            SessionUpdate::Deleted { session_id, cwd } => {
                self.session = None;
                Ok(UpdateStep::Fallback { session_id, cwd })
            },
            update => {
                apply_projection_update(&mut self.projection, &update)?;
                Ok(UpdateStep::Deliver(WorkspaceUpdate::Session(update)))
            },
        }
    }

    /// How a prompt is submitted.
    pub fn submit_route(&self) -> (route: Result<SubmitRoute<'_, S>, ClientSessionError>)
        ensures
            match self.state().projection {
                ProjectionView::Draft(draft) => match route {
                    Ok(SubmitRoute::Materialize { cwd, settings }) => cwd@ == draft.cwd
                        && settings.deep_view() == draft.settings,
                    _ => false,
                },
                ProjectionView::Session(_) => match route {
                    Ok(SubmitRoute::Session(session)) => self.state().session == Some(*session),
                    Ok(_) => false,
                    Err(error) => self.state().session is None && error.message@
                        == "the current chat is not durable"@ && !error.backend_starting,
                },
            },
    {
        match &self.projection {
            ChatProjection::Draft(draft) => Ok(
                SubmitRoute::Materialize {
                    cwd: duplicate_bytes(&draft.cwd),
                    settings: draft.settings.duplicate(),
                },
            ),
            ChatProjection::Session(_) => Ok(SubmitRoute::Session(self.attached()?)),
        }
    }

    /// Shows the session that the first prompt made durable.
    pub fn materialized(&mut self, session: S, snapshot: SessionSnapshot) -> (detached: Option<S>)
        ensures
            final(self).state() == old(self).state().with_session(session, snapshot.deep_view()),
            final(self).state().wf(),
            detached == old(self).state().session,
    {
        self.install_session(session, snapshot)
    }

    /// The draft, where one is shown.
    pub fn draft_mut(&mut self) -> (draft: Option<&mut DraftState>)
        ensures
            match old(self).state().projection {
                ProjectionView::Draft(before) => draft is Some && draft->0.deep_view() == before
                    && final(self).state() == (WorkspaceView {
                    projection: ProjectionView::Draft(final(draft->0).deep_view()),
                    ..old(self).state()
                }),
                ProjectionView::Session(_) => draft is None && final(self).state() == old(
                    self).state(),
            },
    {
        match &mut self.projection {
            ChatProjection::Draft(draft) => Some(draft),
            ChatProjection::Session(_) => None,
        }
    }

    /// Shows a fresh draft and returns the session to detach.
    pub fn new_draft(&mut self) -> (detached: Option<S>)
        ensures
            final(self).state() == old(self).state().with_draft(
                old(self).state().projection.draft_for(old(self).state().projection.cwd()),
            ),
            final(self).state().wf(),
            detached == old(self).state().session,
    {
        let cwd = duplicate_bytes(self.projection.cwd());
        let draft = self.projection.draft_for(cwd);
        let detached = self.session.take();
        self.projection = ChatProjection::Draft(draft);
        detached
    }

    /// Keeps a warning where detaching failed.
    pub fn detached(&mut self, result: Result<(), ClientSessionError>)
        ensures
            final(self).state() == match result {
                Ok(()) => old(self).state(),
                Err(error) => old(self).state().with_warning(error.message@),
            },
    {
        if let Err(error) = result {
            self.retain_warning(error);
        }
    }

    /// Takes the session opened for a switch. Where it is not the one asked for, nothing changes
    /// and it is handed back to be detached.
    pub fn switch_opened(&mut self, id: SessionId, session: S, snapshot: SessionSnapshot) -> (result:
        Result<Option<S>, (S, ClientSessionError)>)
        ensures
            if snapshot.summary.id == id {
                &&& result == Ok::<Option<S>, (S, ClientSessionError)>(old(self).state().session)
                &&& final(self).state() == old(self).state().with_session(
                    session,
                    snapshot.deep_view(),
                )
                &&& final(self).state().wf()
            } else {
                &&& final(self).state() == old(self).state()
                &&& match result {
                    Err((unexpected, error)) => unexpected == session && error.message@
                        == "backend opened an unexpected session"@ && !error.backend_starting,
                    Ok(_) => false,
                }
            },
    {
        if snapshot.summary.id != id {
            return Err(
                (session, ClientSessionError::message("backend opened an unexpected session")),
            );
        }
        Ok(self.install_session(session, snapshot))
    }

    /// The directory to select another chat for, where a deletion concerns the session shown.
    pub fn deletion_fallback(&self, id: SessionId) -> (cwd: Option<Vec<u8>>)
        ensures
            if self.state().projection.session_id() == Some(id) {
                cwd is Some && cwd->0@ == self.state().projection.cwd()
            } else {
                cwd is None
            },
    {
        match &self.projection {
            ChatProjection::Session(snapshot) => {
                if snapshot.summary.id == id {
                    Some(duplicate_bytes(&snapshot.summary.cwd))
                } else {
                    None
                }
            },
            ChatProjection::Draft(_) => None,
        }
    }

    /// Takes the session reopened after its deletion failed. `Ok` holds the session that it
    /// replaces, whose failed detaching is a warning; `Err` holds a session that is not the one
    /// asked for, which is let go of whatever becomes of it.
    pub fn deletion_reopened(
        &mut self,
        id: SessionId,
        reopened: Result<(S, SessionSnapshot), ClientSessionError>,
    ) -> (detached: Result<Option<S>, S>)
        ensures
            match reopened {
                Err(error) => detached == Ok::<Option<S>, S>(None) && final(self).state() == old(
                    self).state().with_warning(error.message@),
                Ok((session, snapshot)) => if snapshot.summary.id == id {
                    &&& detached == Ok::<Option<S>, S>(old(self).state().session)
                    &&& final(self).state() == old(self).state().with_session(
                        session,
                        snapshot.deep_view(),
                    )
                } else {
                    &&& detached == Err::<Option<S>, S>(session)
                    &&& final(self).state() == old(self).state().with_warning(
                        "backend reopened an unexpected session after deletion failed"@,
                    )
                },
            },
    {
        match reopened {
            Err(error) => {
                self.retain_warning(error);
                Ok(None)
            },
            Ok((session, snapshot)) => {
                if snapshot.summary.id == id {
                    Ok(self.install_session(session, snapshot))
                } else {
                    self.retain_warning(
                        ClientSessionError::message(
                            "backend reopened an unexpected session after deletion failed",
                        ),
                    );
                    Err(session)
                }
            },
        }
    }

    /// Shows a draft for a directory until the backend selected another chat.
    pub fn begin_fallback(&mut self, cwd: Vec<u8>)
        ensures
            final(self).state() == old(self).state().with_draft(
                old(self).state().projection.draft_for(cwd@),
            ),
            final(self).state().wf(),
    {
        let draft = self.projection.draft_for(cwd);
        self.session = None;
        self.projection = ChatProjection::Draft(draft);
    }

    /// Shows what the backend selected; where it failed the draft stays.
    pub fn finish_fallback(&mut self, result: Result<WorkspaceStartup<S>, ClientSessionError>)
        ensures
            final(self).state() == match result {
                Ok(WorkspaceStartup::Draft(draft)) => old(self).state().with_draft(
                    draft.deep_view(),
                ),
                Ok(WorkspaceStartup::Attached { session, snapshot }) => old(
                    self).state().with_session(session, snapshot.deep_view()),
                Err(error) => old(self).state().with_warning(error.message@),
            },
    {
        match result {
            Ok(WorkspaceStartup::Draft(draft)) => {
                self.session = None;
                self.projection = ChatProjection::Draft(draft);
            },
            Ok(WorkspaceStartup::Attached { session, snapshot }) => {
                let _ = self.install_session(session, snapshot);
            },
            Err(error) => self.retain_warning(error),
        }
    }

    /// Ends the workspace and returns the session to detach before the connection is closed.
    pub fn shutdown(self) -> (detached: Option<S>)
        ensures
            detached == self.state().session,
    {
        self.session
    }
}

/// The end of a workspace: the failure to detach comes before the failure to disconnect.
pub fn shutdown_result(
    detach: Result<(), ClientSessionError>,
    disconnect: Result<(), ClientSessionError>,
) -> (result: Result<(), ClientSessionError>)
    ensures
        result == if detach is Err {
            detach
        } else {
            disconnect
        },
{
    match detach {
        Err(error) => Err(error),
        Ok(()) => disconnect,
    }
}

/// After every way to leave a chat at most the session shown is attached: a fallback, a new draft
/// or a switch never leaves two.
pub proof fn lemma_a_session_is_attached_while_it_is_shown<S>(
    workspace: WorkspaceView<S>,
    session: S,
    snapshot: SnapshotView,
    cwd: Seq<u8>,
    warning: Seq<char>,
)
    requires
        workspace.wf(),
    ensures
        workspace.with_session(session, snapshot).wf(),
        workspace.with_draft(workspace.projection.draft_for(cwd)).wf(),
        workspace.with_warning(warning).wf(),
        workspace.with_draft(workspace.projection.draft_for(cwd)).with_session(
            session,
            snapshot,
        ).wf(),
{
}

/// A chat that was switched to gives its working directory to the next draft, with its settings
/// but for the tokens used.
pub proof fn lemma_switching_adopts_the_directory<S>(
    workspace: WorkspaceView<S>,
    session: S,
    snapshot: SnapshotView,
)
    ensures
        ({
            let switched = workspace.with_session(session, snapshot);
            let draft = switched.projection.draft_for(switched.projection.cwd());
            &&& draft.cwd == snapshot.summary.cwd
            &&& draft.settings == (SettingsView { context_tokens: 0, ..snapshot.settings })
            &&& draft.catalog == snapshot.catalog
        }),
{
}

/// A model is the first of a catalog with an identifier.
pub open spec fn is_first_with_id(models: Seq<ModelView>, id: Seq<char>, i: int) -> bool {
    &&& 0 <= i < models.len()
    &&& models[i].id == id
    &&& forall|j: int| 0 <= j < i ==> (#[trigger] models[j]).id != id
}

/// A model is looked up by its identifier: the first with it is found, and none where none has it.
pub proof fn lemma_models_are_found_by_id(models: Seq<ModelView>, id: Seq<char>)
    ensures
        match model_of(models, id) {
            Some(model) => exists|i: int|
                #[trigger] is_first_with_id(models, id, i) && models[i] == model,
            None => forall|i: int| 0 <= i < models.len() ==> (#[trigger] models[i]).id != id,
        },
    decreases models.len(),
{
    if models.len() > 0 {
        if models[0].id == id {
            assert(is_first_with_id(models, id, 0));
        } else {
            let rest = models.drop_first();
            lemma_models_are_found_by_id(rest, id);
            if let Some(model) = model_of(rest, id) {
                let i = choose|i: int|
                    #[trigger] is_first_with_id(rest, id, i) && rest[i] == model;
                assert forall|j: int| 0 <= j < i + 1 implies (#[trigger] models[j]).id != id by {
                    if j > 0 {
                        assert(rest[j - 1] == models[j]);
                    }
                }
                assert(rest[i] == models[i + 1]);
                assert(is_first_with_id(models, id, i + 1));
            } else {
                assert forall|i: int| 0 <= i < models.len() implies (#[trigger] models[i]).id
                    != id by {
                    if i > 0 {
                        assert(rest[i - 1] == models[i]);
                    }
                }
            }
        }
    }
}

proof fn lemma_first_with_id_is_found(models: Seq<ModelView>, id: Seq<char>, i: int)
    requires
        is_first_with_id(models, id, i),
    ensures
        model_of(models, id) == Some(models[i]),
{
    lemma_models_are_found_by_id(models, id);
    if model_of(models, id) is Some {
        let k = choose|k: int|
            #[trigger] is_first_with_id(models, id, k) && models[k] == model_of(models, id)->0;
        if k < i {
            assert(models[k].id != id);
        }
        if i < k {
            assert(models[i].id != id);
        }
    } else {
        assert(models[i].id != id);
    }
}

/// Selecting a model keeps the effort that was chosen where the model supports it. Where it does
/// not, the effort is the default of the model, and without one its first. Nothing but model,
/// effort and used context changes.
pub proof fn lemma_selection_keeps_a_supported_effort(draft: DraftView, id: Seq<char>, i: int)
    requires
        draft.catalog is Ready,
        is_first_with_id(draft.catalog->Ready_0, id, i),
    ensures
        ({
            let model = draft.catalog->Ready_0[i];
            let (after, refusal) = model_selected(draft, id);
            let supported = exists|k: int|
                0 <= k < model.reasoning_efforts.len() && #[trigger] model.reasoning_efforts[k]
                    == draft.settings.reasoning;
            &&& refusal is Some <==> model.reasoning_efforts.len() == 0
                && model.default_reasoning is None
            &&& after.settings.model == id
            &&& after.cwd == draft.cwd
            &&& after.catalog == draft.catalog
            &&& refusal is None ==> after.settings.context_tokens == 0
            &&& supported ==> after.settings.reasoning == draft.settings.reasoning
            &&& !supported && model.default_reasoning is Some ==> after.settings.reasoning
                == model.default_reasoning->0
            &&& !supported && model.default_reasoning is None && model.reasoning_efforts.len() > 0
                ==> after.settings.reasoning == model.reasoning_efforts[0]
            &&& refusal is Some ==> after.settings.reasoning == draft.settings.reasoning
        }),
{
    lemma_first_with_id_is_found(draft.catalog->Ready_0, id, i);
    let model = draft.catalog->Ready_0[i];
    if model.reasoning_efforts.contains(draft.settings.reasoning) {
        let k = choose|k: int|
            0 <= k < model.reasoning_efforts.len() && #[trigger] model.reasoning_efforts[k]
                == draft.settings.reasoning;
        assert(model.reasoning_efforts[k] == draft.settings.reasoning);
    }
}

/// A model that the catalog does not list is refused, and so is every model before the catalog is
/// there; the draft stays as it is.
pub proof fn lemma_unknown_models_are_refused(draft: DraftView, id: Seq<char>)
    requires
        draft.catalog is Ready ==> forall|i: int|
            0 <= i < draft.catalog->Ready_0.len() ==> (#[trigger] draft.catalog->Ready_0[i]).id
                != id,
    ensures
        model_selected(draft, id).1 is Some,
        model_selected(draft, id).0 == draft,
        draft.catalog is Ready ==> model_selected(draft, id).1->0 == "model is not available"@,
        !(draft.catalog is Ready) ==> model_selected(draft, id).1->0
            == "model catalog is not ready"@,
{
    if draft.catalog is Ready {
        lemma_models_are_found_by_id(draft.catalog->Ready_0, id);
    }
}

/// An effort is selected exactly where the active model is in the catalog and supports it; the
/// draft then has it, and stays as it is otherwise.
pub proof fn lemma_efforts_must_be_supported(draft: DraftView, effort: ReasoningLevel, i: int)
    requires
        draft.catalog is Ready,
        is_first_with_id(draft.catalog->Ready_0, draft.settings.model, i),
    ensures
        ({
            let efforts = draft.catalog->Ready_0[i].reasoning_efforts;
            let (after, refusal) = reasoning_selected(draft, effort);
            &&& refusal is None <==> exists|k: int|
                0 <= k < efforts.len() && #[trigger] efforts[k] == effort
            &&& refusal is None ==> after.settings.reasoning == effort
                && after.settings.context_tokens == 0 && after.settings.model
                == draft.settings.model && after.catalog == draft.catalog && after.cwd == draft.cwd
            &&& refusal is Some ==> after == draft
        }),
        !(draft.catalog is Ready) ==> reasoning_selected(draft, effort).1 is Some
            && reasoning_selected(draft, effort).0 == draft,
{
    lemma_first_with_id_is_found(draft.catalog->Ready_0, draft.settings.model, i);
    let efforts = draft.catalog->Ready_0[i].reasoning_efforts;
    if efforts.contains(effort) {
        let k = choose|k: int| 0 <= k < efforts.len() && #[trigger] efforts[k] == effort;
        assert(efforts[k] == effort);
    }
}

/// Of the operations themselves: a model that was selected is the one asked for, and an effort that
/// the user chose stays where the model supports it.
pub proof fn lemma_selections_are_kept_in_the_draft()
    ensures
        forall|draft: &mut DraftState, id: String, result: Result<(), ClientSessionError>|
            #[trigger] call_ensures(DraftState::select_model, (draft, id), result) && result is Ok
                ==> {
                let after = *final(draft);
                &&& after.settings.model@ == id@
                &&& after.settings.context_tokens == 0
                &&& after.cwd@ == draft.cwd@
                &&& draft.catalog is Ready
                &&& forall|i: int|
                    #![trigger is_first_with_id(draft.deep_view().catalog->Ready_0, id@, i)]
                    is_first_with_id(draft.deep_view().catalog->Ready_0, id@, i)
                        && draft.deep_view().catalog->Ready_0[i].reasoning_efforts.contains(
                        draft.settings.reasoning,
                    ) ==> after.settings.reasoning == draft.settings.reasoning
            },
        forall|draft: &mut DraftState, level: ReasoningLevel, result: Result<(), ClientSessionError>|
            #[trigger] call_ensures(DraftState::select_reasoning, (draft, level), result) ==> {
                let after = *final(draft);
                &&& result is Ok ==> after.settings.reasoning == level && after.settings.model@
                    == draft.settings.model@
                &&& result is Err ==> after.settings.reasoning == draft.settings.reasoning
            },
{
    assert forall|draft: &mut DraftState, id: String, result: Result<(), ClientSessionError>|
        #[trigger] call_ensures(DraftState::select_model, (draft, id), result) && result
            is Ok implies {
        let after = *final(draft);
        &&& after.settings.model@ == id@
        &&& after.settings.context_tokens == 0
        &&& after.cwd@ == draft.cwd@
        &&& draft.catalog is Ready
        &&& forall|i: int|
            #![trigger is_first_with_id(draft.deep_view().catalog->Ready_0, id@, i)]
            is_first_with_id(draft.deep_view().catalog->Ready_0, id@, i)
                && draft.deep_view().catalog->Ready_0[i].reasoning_efforts.contains(
                draft.settings.reasoning,
            ) ==> after.settings.reasoning == draft.settings.reasoning
    } by {
        let before = draft.deep_view();
        let after = *final(draft);
        assert(after.deep_view() == model_selected(before, id@).0);
        assert(after.deep_view().settings == after.settings.deep_view());
        assert forall|i: int|
            #![trigger is_first_with_id(before.catalog->Ready_0, id@, i)]
            is_first_with_id(before.catalog->Ready_0, id@, i)
                && before.catalog->Ready_0[i].reasoning_efforts.contains(
                draft.settings.reasoning,
            ) implies after.settings.reasoning == draft.settings.reasoning by {
            lemma_selection_keeps_a_supported_effort(before, id@, i);
            let efforts = before.catalog->Ready_0[i].reasoning_efforts;
            let k = choose|k: int|
                0 <= k < efforts.len() && #[trigger] efforts[k] == draft.settings.reasoning;
            assert(efforts[k] == before.settings.reasoning);
        }
    }
}

/// A warning that is kept is the first one, until it is delivered; a later one does not displace
/// it.
pub proof fn lemma_first_warning_is_kept<S>(
    workspace: WorkspaceView<S>,
    first: Seq<char>,
    second: Seq<char>,
)
    requires
        workspace.pending_warning is None,
    ensures
        workspace.with_warning(first).pending_warning == Some(first),
        workspace.with_warning(first).with_warning(second).pending_warning == Some(first),
        workspace.with_warning(first).session == workspace.session,
        workspace.with_warning(first).projection == workspace.projection,
{
}

/// A switch takes the place of the old chat only where the session that was asked for was opened;
/// then the old session is handed back to be detached. Otherwise the old chat stays, and the
/// session that was opened is handed back.
pub proof fn lemma_switches_open_before_they_detach<S>()
    ensures
        forall|
            workspace: &mut Workspace<S>,
            id: SessionId,
            session: S,
            snapshot: SessionSnapshot,
            result: Result<Option<S>, (S, ClientSessionError)>,
        |
            #[trigger] call_ensures(
                Workspace::<S>::switch_opened,
                (workspace, id, session, snapshot),
                result,
            ) ==> {
                let before = workspace.state();
                let after = final(workspace).state();
                &&& result is Ok <==> snapshot.summary.id == id
                &&& result is Ok ==> result->Ok_0 == before.session && after.session == Some(
                    session,
                ) && after.projection == ProjectionView::Session(snapshot.deep_view())
                &&& result is Err ==> result->Err_0.0 == session && after.session == before.session
                    && after.projection == before.projection
                &&& after.pending_warning == before.pending_warning
            },
{
}

/// A new chat shows a draft of the directory at hand with the settings at hand, and hands the
/// session back that was attached; a chat that became durable is shown as its session.
pub proof fn lemma_new_chats_detach_the_old<S>()
    ensures
        forall|workspace: &mut Workspace<S>, detached: Option<S>|
            #[trigger] call_ensures(Workspace::<S>::new_draft, (workspace,), detached) ==> {
                let before = workspace.state();
                let after = final(workspace).state();
                &&& detached == before.session
                &&& after.session is None
                &&& after.projection is Draft
                &&& after.projection->Draft_0.cwd == before.projection.cwd()
                &&& after.projection->Draft_0.settings.model == before.projection.settings().model
                &&& after.projection->Draft_0.settings.reasoning
                    == before.projection.settings().reasoning
                &&& after.projection->Draft_0.settings.context_tokens == 0
            },
        forall|
            workspace: &mut Workspace<S>,
            session: S,
            snapshot: SessionSnapshot,
            detached: Option<S>,
        |
            #[trigger] call_ensures(
                Workspace::<S>::materialized,
                (workspace, session, snapshot),
                detached,
            ) ==> detached == workspace.state().session && final(workspace).state().session == Some(
                session,
            ) && final(workspace).state().projection == ProjectionView::Session(
                snapshot.deep_view(),
            ),
{
}

/// A deletion concerns the chat shown only where it is that session; another chat is then selected
/// for its directory. What the backend selects is shown, and where it fails the draft stays with a
/// warning.
pub proof fn lemma_deletions_fall_back<S>()
    ensures
        forall|workspace: &Workspace<S>, id: SessionId, cwd: Option<Vec<u8>>|
            #[trigger] call_ensures(Workspace::<S>::deletion_fallback, (workspace, id), cwd) ==> (
            cwd is Some <==> workspace.state().projection is Session
                && workspace.state().projection->Session_0.summary.id == id) && (cwd is Some
                ==> cwd->0@ == workspace.state().projection->Session_0.summary.cwd),
        forall|workspace: &mut Workspace<S>, cwd: Vec<u8>|
            #[trigger] call_ensures(Workspace::<S>::begin_fallback, (workspace, cwd), ()) ==> {
                let after = final(workspace).state();
                after.session is None && after.projection is Draft && after.projection->Draft_0.cwd
                    == cwd@
            },
        forall|
            workspace: &mut Workspace<S>,
            result: Result<WorkspaceStartup<S>, ClientSessionError>,
        |
            #[trigger] call_ensures(Workspace::<S>::finish_fallback, (workspace, result), ()) ==> {
                let before = workspace.state();
                let after = final(workspace).state();
                match result {
                    Ok(WorkspaceStartup::Draft(draft)) => after.session is None && after.projection
                        == ProjectionView::Draft(draft.deep_view()),
                    Ok(WorkspaceStartup::Attached { session, snapshot }) => after.session == Some(
                        session,
                    ) && after.projection == ProjectionView::Session(snapshot.deep_view()),
                    Err(error) => after.session == before.session && after.projection
                        == before.projection && (before.pending_warning is None
                        ==> after.pending_warning == Some(error.message@)),
                }
            },
{
}

/// Updates reach the chat that is shown: a kept warning comes first and once, events change the
/// chat as they do, and the deletion of the session lets go of it.
pub proof fn lemma_updates_reach_the_chat<S>()
    ensures
        forall|workspace: &mut Workspace<S>, source: UpdateSource|
            #[trigger] call_ensures(Workspace::<S>::update_source, (workspace,), source) ==> {
                let before = workspace.state();
                let after = final(workspace).state();
                &&& after.pending_warning is None
                &&& after.session == before.session && after.projection == before.projection
                &&& before.pending_warning is Some <==> source is Warning
                &&& source is Warning ==> source->Warning_0@ == before.pending_warning->0
                &&& source is Session ==> before.session is Some
                &&& source is Never ==> before.session is None
            },
        forall|
            workspace: &mut Workspace<S>,
            update: SessionUpdate,
            result: Result<UpdateStep, ClientSessionError>,
        |
            #[trigger] call_ensures(Workspace::<S>::take_update, (workspace, update), result) ==> {
                let before = workspace.state();
                let after = final(workspace).state();
                &&& update is Deleted ==> after.session is None && result is Ok && result->Ok_0
                    is Fallback && result->Ok_0->Fallback_session_id
                    == update->Deleted_session_id && result->Ok_0->Fallback_cwd
                    == update->Deleted_cwd
                &&& update is Event || update is SnapshotReplaced ==> after.projection
                    == after_update(before.projection, update) && after.session == before.session
                    && (result is Ok <==> update_refusal(before.projection, update) is None)
                &&& update is Warning ==> after == before && result is Ok
            },
{
}

/// A starting backend is asked again, any other failure ends the launch, and an answer is shown as
/// it is.
pub proof fn lemma_launches_wait_for_the_backend<S>()
    ensures
        forall|
            result: Result<WorkspaceStartup<S>, ClientSessionError>,
            step: LaunchStep<S>,
        |
            #[trigger] call_ensures(Workspace::<S>::launched, (result,), step) ==> {
                &&& step is Retry <==> result is Err && result->Err_0.backend_starting
                &&& step is Fail <==> result is Err && !result->Err_0.backend_starting
                &&& step is Fail ==> step->Fail_0 == result->Err_0
                &&& result is Ok ==> step is Ready && match result->Ok_0 {
                    WorkspaceStartup::Draft(draft) => step->Ready_0.state().session is None
                        && step->Ready_0.state().projection == ProjectionView::Draft(
                        draft.deep_view(),
                    ),
                    WorkspaceStartup::Attached { session, snapshot } => {
                        step->Ready_0.state().session == Some(session)
                            && step->Ready_0.state().projection == ProjectionView::Session(
                            snapshot.deep_view(),
                        )
                    },
                }
            },
        forall|mode: LaunchMode, cwd: Vec<u8>, request: LaunchRequest|
            #[trigger] call_ensures(launch_request, (mode, cwd), request) ==> {
                &&& request is DraftDefaults <==> mode is NewDraft
                &&& request is Startup <==> mode is Startup
                &&& mode is Session ==> request == (LaunchRequest::Open {
                    selector: mode->Session_0,
                    cwd,
                })
                &&& request is DraftDefaults ==> request->DraftDefaults_cwd == cwd
                &&& request is Startup ==> request->Startup_cwd == cwd
            },
{
}

/// A prompt goes to the session that is attached; that of a draft makes it durable, in its
/// directory and with its settings.
pub proof fn lemma_prompts_go_to_their_chat<'a, S>()
    ensures
        forall|
            workspace: &'a Workspace<S>,
            route: Result<SubmitRoute<'a, S>, ClientSessionError>,
        |
            #[trigger] call_ensures(Workspace::<S>::submit_route, (workspace,), route) ==> {
                let before = workspace.state();
                &&& before.projection is Draft ==> route is Ok && route->Ok_0 is Materialize
                    && route->Ok_0->cwd@ == before.projection->Draft_0.cwd
                    && route->Ok_0->settings.deep_view() == before.projection->Draft_0.settings
                &&& before.projection is Session && before.session is Some ==> route is Ok
                    && route->Ok_0 is Session && *route->Ok_0->Session_0 == before.session->0
                &&& before.projection is Session && before.session is None ==> route is Err
            },
{
}

/// After a deletion that failed the same session is shown again, and the one before it is handed
/// back; any other answer leaves the chat as it is and is told.
pub proof fn lemma_failed_deletions_reopen_the_session<S>()
    ensures
        forall|
            workspace: &mut Workspace<S>,
            id: SessionId,
            reopened: Result<(S, SessionSnapshot), ClientSessionError>,
            detached: Result<Option<S>, S>,
        |
            #[trigger] call_ensures(
                Workspace::<S>::deletion_reopened,
                (workspace, id, reopened),
                detached,
            ) ==> {
                let before = workspace.state();
                let after = final(workspace).state();
                let same = reopened is Ok && (reopened->Ok_0).1.summary.id == id;
                &&& same ==> after.session == Some((reopened->Ok_0).0) && after.projection
                    == ProjectionView::Session((reopened->Ok_0).1.deep_view()) && detached == Ok::<
                    Option<S>,
                    S,
                >(before.session)
                &&& !same ==> after.session == before.session && after.projection
                    == before.projection && after.pending_warning is Some
                &&& reopened is Ok && !same ==> detached == Err::<Option<S>, S>((reopened->Ok_0).0)
                &&& reopened is Err ==> detached == Ok::<Option<S>, S>(None)
            },
{
}

} // verus!
