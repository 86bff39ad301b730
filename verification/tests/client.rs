//! The client: commands, events and the chat that is shown.

use moh::client::app::{
    begin_action, best_model_match, consume_workspace_update, finish_job_cancel, finish_job_list,
    finish_request, handle_event, matching_models, poll_milliseconds, resolve_submission,
    restore_after_application, AppAction, AppStep, ApplicationFailure, RefreshSchedule,
    RefreshStep, Request,
};
use moh::client::input::{Event, KeyCode, KeyEvent, KeyModifiers};
use moh::client::session::{
    apply_session_event, validate_snapshot, ChatProjection, ClientSessionError, DraftState,
    LaunchMode, SessionUpdate, WorkspaceUpdate,
};
use moh::client::ui::state::UiState;
use moh::client::ui::widgets::MenuKind;
use moh::client::workspace::{
    launch_request, shutdown_result, LaunchRequest, LaunchStep, SubmitRoute, UpdateSource,
    UpdateStep, Workspace, WorkspaceStartup,
};
use moh::session::{
    JobKind, JobSnapshotDto, JobState, ModelCatalogState, ModelInfoDto, ReasoningLevel,
    SessionEvent, SessionEventEnvelope, SessionId, SessionSettings, SessionSnapshot,
    SessionSummary, SessionTitle, Timestamp, TranscriptItem,
};
use moh::snapshot::Duplicate;

fn now() -> Timestamp {
    Timestamp { seconds: 5, nanoseconds: 0 }
}

fn model(id: &str, name: &str) -> ModelInfoDto {
    ModelInfoDto {
        id: id.to_owned(),
        display_name: name.to_owned(),
        description: "described".to_owned(),
        reasoning_efforts: vec![ReasoningLevel::Low, ReasoningLevel::High],
        default_reasoning: Some(ReasoningLevel::Low),
    }
}

fn catalog() -> ModelCatalogState {
    ModelCatalogState::Ready(vec![model("gpt-5.6-luna", "Luna"), model("gpt-5.6-terra", "Terra")])
}

fn settings() -> SessionSettings {
    SessionSettings {
        model: "gpt-5.6-luna".to_owned(),
        reasoning: ReasoningLevel::Low,
        context_tokens: 0,
    }
}

fn draft() -> DraftState {
    DraftState { cwd: b"/work".to_vec(), settings: settings(), catalog: catalog() }
}

fn snapshot(number: u64) -> SessionSnapshot {
    SessionSnapshot {
        summary: SessionSummary {
            id: SessionId { number },
            title: SessionTitle::parse("chat").unwrap(),
            title_revision: 0,
            cwd: b"/work".to_vec(),
            cwd_display: "/work".to_owned(),
            running_jobs: 0,
            running: false,
            busy: false,
            attached_clients: 1,
            last_activity: now(),
        },
        transcript: Vec::new(),
        active_run: None,
        settings: settings(),
        catalog: catalog(),
        plan: Vec::new(),
        jobs: Vec::new(),
        persistence_warning: None,
        sequence: 1,
        busy: false,
    }
}

fn session() -> ChatProjection {
    ChatProjection::Session(snapshot(7))
}

fn job(id: &str, state: JobState) -> JobSnapshotDto {
    JobSnapshotDto {
        id: id.to_owned(),
        kind: JobKind::Bash,
        state,
        title: "build".to_owned(),
        started_at: now(),
        completed_at: None,
        details: String::new(),
    }
}

fn key(code: KeyCode) -> Event {
    Event::Key(KeyEvent::new(code, KeyModifiers::none()))
}

fn control(character: char) -> Event {
    Event::Key(KeyEvent::new(KeyCode::Char(character), KeyModifiers::control()))
}

fn submitted(text: &str) -> AppAction<String> {
    resolve_submission(&UiState::new(), &session(), text.to_owned())
}

#[test]
fn typed_commands_are_understood() {
    assert!(matches!(submitted(" /quit "), AppAction::Exit));
    assert!(matches!(submitted("/exit"), AppAction::Exit));
    assert!(matches!(submitted("/cancel"), AppAction::Cancel));
    assert!(matches!(submitted("/new"), AppAction::NewDraft));
    assert!(matches!(submitted("/new thing"), AppAction::NewUsage));
    assert!(matches!(submitted("/sessions"), AppAction::OpenSessionBrowser));
    assert!(matches!(submitted("/model"), AppAction::OpenModelSelector));
    assert!(matches!(submitted("/model terra"), AppAction::SelectModel(id) if id == "gpt-5.6-terra"));
    assert!(matches!(submitted("/model xyz"), AppAction::ModelNotFound(query) if query == "xyz"));
    assert!(matches!(submitted("/effort high"), AppAction::SelectEffort(ReasoningLevel::High)));
    assert!(matches!(submitted("/effort max"), AppAction::EffortNotFound(query) if query == "max"));
    assert!(matches!(submitted("/ps"), AppAction::OpenProcessSelector));
    assert!(matches!(submitted("/kill"), AppAction::KillUsage));
    assert!(matches!(submitted("/kill job-3"), AppAction::Kill(id) if id == "job-3"));
    assert!(matches!(submitted(" hello "), AppAction::Submit(text) if text == " hello "));
}

#[test]
fn models_are_found_by_what_resembles_them() {
    let models = vec![model("gpt-5.6-luna", "Luna"), model("gpt-5.6-terra", "Terra")];
    assert_eq!(best_model_match("TERRA", &models).unwrap().id, "gpt-5.6-terra");
    assert!(best_model_match("  ", &models).is_none());
    assert_eq!(matching_models("gpt", &models).len(), 2);
    assert_eq!(matching_models("lun", &models).len(), 1);
}

#[test]
fn submitting_asks_the_backend_and_a_failure_brings_the_prompt_back() {
    let mut ui = UiState::new();
    let chat = ChatProjection::Draft(draft());
    let request = match begin_action(&mut ui, &chat, AppAction::Submit("hello".to_owned())) {
        AppStep::Ask(request) => request,
        _ => panic!("the backend should be asked"),
    };
    assert!(matches!(&request, Request::Submit { text, draft: true } if text == "hello"));
    finish_request(&mut ui, &chat, &request, Err(ClientSessionError::message("no backend")));
    assert_eq!(ui.editor().value(), "hello");
    assert!(ui.local_error());
    assert_eq!(ui.notices().as_slice(), ["no backend"]);
    let blank = begin_action(&mut ui, &chat, AppAction::Submit("  ".to_owned()));
    assert!(matches!(blank, AppStep::Continue));
}

#[test]
fn a_busy_session_keeps_the_prompt() {
    let mut busy = snapshot(7);
    busy.busy = true;
    busy.summary.busy = true;
    let chat = ChatProjection::Session(busy);
    let mut ui = UiState::new();
    let step = begin_action(&mut ui, &chat, AppAction::Submit("later".to_owned()));
    assert!(matches!(step, AppStep::Continue));
    assert_eq!(ui.editor().value(), "later");
    assert_eq!(poll_milliseconds(&chat), 0);
    assert_eq!(poll_milliseconds(&session()), 16);
}

#[test]
fn keys_drive_the_screen() {
    let mut ui = UiState::new();
    let chat = session();
    assert!(matches!(handle_event(&mut ui, &chat, &control('c')), AppStep::Exit));
    handle_event(&mut ui, &chat, &control('o'));
    assert!(ui.help_open());
    handle_event(&mut ui, &chat, &key(KeyCode::Esc));
    assert!(!ui.help_open());
    handle_event(&mut ui, &chat, &key(KeyCode::Char('/')));
    assert_eq!(ui.menu().kind(), Some(MenuKind::Commands));
    assert_eq!(ui.menu().items().len(), 8);
    handle_event(&mut ui, &chat, &key(KeyCode::Backspace));
    assert!(!ui.menu().is_open());
    handle_event(&mut ui, &chat, &control('l'));
    assert_eq!(ui.menu().kind(), Some(MenuKind::Models));
}

#[test]
fn escape_closes_every_menu() {
    let chat = session();
    let mut ui = UiState::new();
    handle_event(&mut ui, &chat, &key(KeyCode::Char('/')));
    assert_eq!(ui.menu().kind(), Some(MenuKind::Commands));
    assert!(ui.menu().is_open());
    ui.take_redraw();
    let step = handle_event(&mut ui, &chat, &key(KeyCode::Esc));
    assert!(matches!(step, AppStep::Continue));
    assert!(!ui.menu().is_open());
    assert_eq!(ui.menu().kind(), None);
    assert_eq!(ui.editor().value(), "/");
    assert!(ui.take_redraw());

    finish_job_list(&mut ui, &vec![job("job-1", JobState::Running)]);
    assert!(ui.menu().is_open());
    let step = handle_event(&mut ui, &chat, &key(KeyCode::Esc));
    assert!(matches!(step, AppStep::Continue));
    assert!(!ui.menu().is_open());
}

#[test]
fn processes_are_listed_and_stopped() {
    let mut ui = UiState::new();
    finish_job_list(&mut ui, &vec![job("job-1", JobState::Running)]);
    assert_eq!(ui.menu().kind(), Some(MenuKind::Processes));
    assert_eq!(ui.menu().items()[0].value(), "job-1");
    finish_job_cancel(&mut ui, &job("job-1", JobState::Cancelled));
    finish_job_cancel(&mut ui, &job("job-2", JobState::Completed));
    assert_eq!(
        ui.notices().as_slice(),
        ["Terminated job-1.", "job-2 is already completed."]
    );
}

#[test]
fn browsers_are_refreshed_on_request_and_once_a_second() {
    let mut schedule = RefreshSchedule::new();
    assert_eq!(schedule.plan(true, true, 0), RefreshStep::Start);
    assert_eq!(schedule.plan(true, false, 500), RefreshStep::Keep);
    schedule.finish();
    assert_eq!(schedule.plan(true, false, 1000), RefreshStep::Start);
    assert_eq!(schedule.plan(false, false, 1001), RefreshStep::Drop);
}

#[test]
fn neither_end_of_the_application_is_lost() {
    let both = restore_after_application(
        Err("no session".to_owned()),
        Err("no terminal".to_owned()),
    )
    .unwrap_err();
    assert_eq!(both.message(), "no session; terminal cleanup also failed: no terminal");
    assert!(matches!(
        restore_after_application::<String, String>(Ok(()), Err("t".to_owned())),
        Err(ApplicationFailure::Cleanup(_))
    ));
    assert!(restore_after_application::<String, String>(Ok(()), Ok(())).is_ok());
}

fn event(sequence: u64, event: SessionEvent) -> SessionEventEnvelope {
    SessionEventEnvelope { sequence, event }
}

#[test]
fn events_are_applied_in_order() {
    let mut shown = snapshot(7);
    let started = event(2, SessionEvent::Started { run_id: 1, prompt: "hello".to_owned() });
    apply_session_event(&mut shown, &started).unwrap();
    assert!(shown.busy && shown.summary.busy);
    let delta = event(3, SessionEvent::AssistantDelta { run_id: 1, text: "wor".to_owned() });
    apply_session_event(&mut shown, &delta).unwrap();
    assert_eq!(shown.active_run.as_ref().unwrap().assistant_text, "wor");
    let completed = event(
        4,
        SessionEvent::Completed { run_id: 1, response: "world".to_owned(), last_activity: now() },
    );
    apply_session_event(&mut shown, &completed).unwrap();
    assert_eq!(
        shown.transcript,
        [
            TranscriptItem::User("hello".to_owned()),
            TranscriptItem::Assistant("world".to_owned()),
        ]
    );
    assert!(!shown.busy);
    let gap = event(9, SessionEvent::PersistenceWarning(None));
    assert!(apply_session_event(&mut shown, &gap).is_err());
    assert!(validate_snapshot(&shown).is_ok());
    shown.busy = true;
    assert!(validate_snapshot(&shown).is_err());
}

#[test]
fn workspaces_launch_submit_and_switch() {
    assert!(matches!(
        launch_request(LaunchMode::NewDraft, b"/work".to_vec()),
        LaunchRequest::DraftDefaults { .. }
    ));
    let starting = ClientSessionError { backend_starting: true, ..ClientSessionError::message("x") };
    assert!(matches!(Workspace::<u8>::launched(Err(starting)), LaunchStep::Retry));
    let mut workspace = match Workspace::launched(Ok(WorkspaceStartup::Draft(draft()))) {
        LaunchStep::Ready(workspace) => workspace,
        _ => panic!("the workspace should be ready"),
    };
    assert!(matches!(workspace.submit_route(), Ok(SubmitRoute::Materialize { .. })));
    assert!(matches!(workspace.update_source(), UpdateSource::Never));
    assert_eq!(workspace.materialized(1u8, snapshot(7)), None);
    assert!(matches!(workspace.submit_route(), Ok(SubmitRoute::Session(1))));
    assert!(matches!(workspace.update_source(), UpdateSource::Session));
    let other = workspace.switch_opened(SessionId { number: 8 }, 2, snapshot(9));
    assert!(matches!(other, Err((2, _))));
    assert!(matches!(
        workspace.switch_opened(SessionId { number: 8 }, 2, snapshot(8)),
        Ok(Some(1))
    ));
    workspace.retain_warning(ClientSessionError::message("first"));
    workspace.retain_warning(ClientSessionError::message("second"));
    assert!(matches!(workspace.update_source(), UpdateSource::Warning(text) if text == "first"));
    assert_eq!(workspace.new_draft(), Some(2));
    assert!(workspace.current_projection().is_draft());
    assert_eq!(workspace.shutdown(), None);
}

#[test]
fn a_deleted_session_falls_back() {
    let mut workspace = Workspace::from_session(1u8, snapshot(7));
    let update = SessionUpdate::Deleted {
        session_id: SessionId { number: 7 },
        cwd: b"/work".to_vec(),
    };
    match workspace.take_update(update).unwrap() {
        UpdateStep::Fallback { session_id, cwd } => {
            assert_eq!(session_id.number, 7);
            assert_eq!(cwd, b"/work");
            workspace.begin_fallback(cwd);
        }
        UpdateStep::Deliver(_) => panic!("another chat should be selected"),
    }
    workspace.finish_fallback(Err(ClientSessionError::message("unreachable")));
    assert!(workspace.current_projection().is_draft());
    assert!(matches!(workspace.update_source(), UpdateSource::Warning(_)));
}

#[test]
fn the_first_failure_of_a_shutdown_is_reported() {
    let detach = ClientSessionError::message("detach");
    let disconnect = ClientSessionError::message("disconnect");
    assert_eq!(shutdown_result(Err(detach), Err(disconnect)).unwrap_err().message, "detach");
    assert!(shutdown_result(Ok(()), Ok(())).is_ok());
}

#[test]
fn drafts_select_models_and_efforts() {
    let mut chosen = draft();
    chosen.select_model("gpt-5.6-terra".to_owned()).unwrap();
    assert_eq!(chosen.settings.model, "gpt-5.6-terra");
    chosen.select_reasoning(ReasoningLevel::High).unwrap();
    assert_eq!(chosen.settings.reasoning, ReasoningLevel::High);
    assert!(chosen.select_reasoning(ReasoningLevel::Max).is_err());
    assert!(chosen.select_model("other".to_owned()).is_err());
    assert_eq!(chosen.settings.model, "gpt-5.6-terra");
}

#[test]
fn replaced_snapshots_reset_the_screen() {
    let mut ui = UiState::new();
    ui.push_error("old");
    let update = WorkspaceUpdate::Session(SessionUpdate::SnapshotReplaced(snapshot(7)));
    consume_workspace_update(&mut ui, &session(), &update).unwrap();
    assert!(!ui.local_error());
    assert!(ui.notices().is_empty());
    let warning = WorkspaceUpdate::Warning("careful".to_owned());
    consume_workspace_update(&mut ui, &session(), &warning).unwrap();
    assert_eq!(ui.notices().as_slice(), ["careful"]);
    assert_eq!(snapshot(7).duplicate(), snapshot(7));
}

#[test]
fn escape_cancels_an_active_run() {
    let mut busy = snapshot(7);
    busy.busy = true;
    busy.summary.busy = true;
    let mut ui = UiState::new();
    assert!(matches!(
        handle_event(&mut ui, &ChatProjection::Session(busy), &key(KeyCode::Esc)),
        AppStep::Ask(Request::Cancel)
    ));
}

#[test]
fn unknown_commands_are_submitted() {
    assert!(matches!(submitted("/models"), AppAction::Submit(text) if text == "/models"));
    assert!(matches!(submitted("/"), AppAction::Submit(text) if text == "/"));
}

#[test]
fn a_failed_switch_keeps_the_browser_open() {
    let mut ui = UiState::new();
    ui.session_browser_mut().open();
    let request = Request::Switch(SessionId { number: 9 });
    finish_request(&mut ui, &session(), &request, Err(ClientSessionError::message("gone\n")));
    assert!(ui.session_browser().is_open());
    assert_eq!(ui.session_browser().action_error(), Some("gone "));
}
