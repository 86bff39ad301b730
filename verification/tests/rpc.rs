//! Messages, the negotiation with the backend, and following a session.

use moh::client::session::{ClientSessionError, SessionUpdate};
use moh::harness::error::{RunFailureKind, RunStage};
use moh::rpc::calls::{
    command_reply, detach_reply, draft_defaults_reply, materialize_reply, open_reply, publish,
    session_list_reply, startup_reply, submit_reply, RpcBackendClient, RpcStartup,
};
use moh::rpc::client::{
    is_session_not_found, negotiate, reported_result, validate_protocol_major, AttachmentIds,
    FollowStep, ObserverMessage, RecoveredAttachment, RpcClientError, SessionFollower,
};
use moh::rpc::convert::{
    read_attachment_id, read_command_error, read_event_envelope, read_protocol_info,
    read_session_list_scope, read_session_selector, read_session_snapshot, read_session_summary,
    write_attachment_id, write_command_error, write_event_envelope, write_protocol_info,
    write_command_result, write_detach_result, write_draft_defaults_result,
    write_materialize_result, write_open_result, write_session_list_result,
    write_session_list_scope, write_session_selector, write_session_snapshot,
    write_session_summary, write_startup_result, write_submit_result, CommandError,
    MaterializeSuccess, OpenSuccess, ProtocolInfo, StartupSuccess, REQUIRED_FEATURES,
};
use moh::rpc::fields::{RpcConversionError, MAX_RPC_CWD_BYTES, MAX_RPC_PROMPT_BYTES};
use moh::rpc::params::{
    read_materialize_params, read_open_session_params, read_rename_session_params,
    read_startup_params, read_submit_params, write_submit_params, SubmitRequest,
};
use moh::backend::activity::ActivityTracker;
use moh::rpc::server::{
    answer, begin_request, combine_completion, is_terminal_event, manager_command_error,
    manager_result, prepare_materialize, prepare_open, prepare_startup, publishes_on,
    session_result, BackendContext, BackendReadiness, Begun, ReadinessStates, RpcServerError,
    SelectedStartup,
    SessionManagerError, SessionStoreError,
};
use moh::rpc::wire;
use moh::session::{
    ActiveRunSnapshot, AttachmentId, ConnectionId, DraftDefaults, ErrorCode, JobKind, JobSnapshotDto, JobState,
    ModelCatalogState, ModelInfoDto, PlanItem, PlanStatus, ReasoningLevel, RunFailureSnapshot,
    SessionCommandError, SessionEvent, SessionEventEnvelope, SessionId, SessionListScope,
    SessionSelector, SessionSettings, SessionSnapshot, SessionSummary, SessionTitle, Timestamp,
    TranscriptItem,
};
use moh::snapshot::Duplicate;

fn now() -> Timestamp {
    Timestamp { seconds: 1_787_832_000, nanoseconds: 250_000_000 }
}

fn summary() -> SessionSummary {
    SessionSummary {
        id: SessionId::parse("session-7").unwrap(),
        title: SessionTitle::parse("fixture chat").unwrap(),
        title_revision: 3,
        cwd: b"/work/non-utf8-\xff".to_vec(),
        cwd_display: "/work/non-utf8".into(),
        running_jobs: 1,
        running: true,
        busy: true,
        attached_clients: 2,
        last_activity: now(),
    }
}

fn snapshot(sequence: u64) -> SessionSnapshot {
    SessionSnapshot {
        summary: summary(),
        transcript: vec![
            TranscriptItem::User("prompt".into()),
            TranscriptItem::ToolStarted {
                run_id: 4,
                call_id: "call-1".into(),
                name: "read".into(),
                arguments: "{\"path\":\"a\"}".into(),
            },
            TranscriptItem::Failed {
                run_id: 4,
                failure: RunFailureSnapshot {
                    stage: RunStage::ModelRequest,
                    kind: RunFailureKind::HttpRejected { status: 429 },
                    retryable: true,
                    message: "slow down".into(),
                },
            },
            TranscriptItem::Cancelled { run_id: 5 },
        ],
        active_run: Some(ActiveRunSnapshot {
            run_id: 6,
            prompt: "next".into(),
            assistant_text: "partial".into(),
        }),
        settings: SessionSettings {
            model: "model".into(),
            reasoning: ReasoningLevel::Xhigh,
            context_tokens: 12,
        },
        catalog: ModelCatalogState::Ready(vec![ModelInfoDto {
            id: "model".into(),
            display_name: "Model".into(),
            description: "described".into(),
            reasoning_efforts: vec![ReasoningLevel::Low, ReasoningLevel::Xhigh],
            default_reasoning: Some(ReasoningLevel::Low),
        }]),
        plan: vec![PlanItem::parse("step", PlanStatus::Blocked).unwrap()],
        jobs: vec![JobSnapshotDto {
            id: "job-1".into(),
            kind: JobKind::Bash,
            state: JobState::Running,
            title: "build".into(),
            started_at: now(),
            completed_at: None,
            details: "details".into(),
        }],
        persistence_warning: Some("disk".into()),
        sequence,
        busy: true,
    }
}

fn text(value: &str) -> wire::Text {
    wire::Pointer::Value(value.as_bytes().to_vec())
}

#[test]
fn protocol_major_boundary_rejects_both_cross_version_directions() {
    let current = wire::PROTOCOL_MAJOR;
    assert_eq!(current, 2);
    assert!(matches!(
        validate_protocol_major(current, 1),
        Err(RpcClientError::IncompatibleProtocol { client: 2, server: 1 })
    ));
    assert!(matches!(
        validate_protocol_major(1, current),
        Err(RpcClientError::IncompatibleProtocol { client: 1, server: 2 })
    ));
}

#[test]
fn attachment_ids_fail_instead_of_wrapping() {
    let mut ids = AttachmentIds::after(u64::MAX - 1);
    assert_eq!(ids.allocate().unwrap(), u64::MAX);
    assert!(matches!(ids.allocate().unwrap_err(), RpcClientError::AttachmentIdExhausted));
}

#[test]
fn attachment_ids_begin_with_one() {
    let mut ids = AttachmentIds::default();
    assert_eq!(ids.allocate().unwrap(), 1);
    assert_eq!(ids.allocate().unwrap(), 2);
}

#[test]
fn snapshots_are_read_back() {
    let value = snapshot(14);
    let message = write_session_snapshot(&value).unwrap();
    assert_eq!(read_session_snapshot(&message).unwrap(), value);
}

#[test]
fn summaries_are_read_back_with_raw_directories() {
    let value = summary();
    let message = write_session_summary(&value).unwrap();
    assert_eq!(read_session_summary(&message).unwrap(), value);
}

#[test]
fn instants_are_written_in_utc_with_the_digits_they_need() {
    let message = write_session_summary(&summary()).unwrap();
    match message.last_activity {
        wire::Pointer::Value(bytes) => assert_eq!(bytes, b"2026-08-27T12:00:00.250Z"),
        wire::Pointer::Unreadable(_) => panic!("the instant should be there"),
    }
}

#[test]
fn leap_seconds_are_read_back() {
    let mut value = summary();
    value.last_activity = Timestamp { seconds: 1_483_228_799, nanoseconds: 1_250_000_000 };
    let message = write_session_summary(&value).unwrap();
    match &message.last_activity {
        wire::Pointer::Value(bytes) => assert_eq!(bytes, b"2016-12-31T23:59:60.250Z"),
        wire::Pointer::Unreadable(_) => panic!("the instant should be there"),
    }
    assert_eq!(read_session_summary(&message).unwrap(), value);
    value.last_activity = Timestamp { seconds: 1_483_228_798, nanoseconds: 1_250_000_000 };
    assert!(write_session_summary(&value).is_err());
}

#[test]
fn instants_with_an_offset_are_refused() {
    let mut message = write_session_summary(&summary()).unwrap();
    message.last_activity = text("2026-08-27T12:00:00+01:00");
    let error = read_session_summary(&message).unwrap_err();
    assert!(matches!(error, RpcConversionError::InvalidTimestamp { .. }));
    message.last_activity = text("yesterday");
    let error = read_session_summary(&message).unwrap_err();
    assert!(error.message().ends_with("is not a UTC RFC 3339 timestamp"));
}

#[test]
fn events_are_read_back() {
    for event in [
        SessionEvent::Started { run_id: 1, prompt: "hello".into() },
        SessionEvent::AssistantDelta { run_id: 1, text: "a".into() },
        SessionEvent::ToolStarted {
            run_id: 1,
            call_id: "c".into(),
            name: "bash".into(),
            arguments: "{\"command\":\"ls\"}".into(),
        },
        SessionEvent::Completed { run_id: 1, response: "done".into(), last_activity: now() },
        SessionEvent::PersistenceWarning(None),
        SessionEvent::PlanChanged(vec![PlanItem::parse("step", PlanStatus::Pending).unwrap()]),
        SessionEvent::Deleted { session_id: SessionId::parse("session-7").unwrap() },
    ] {
        let value = SessionEventEnvelope { sequence: 9, event };
        let message = write_event_envelope(&value).unwrap();
        assert_eq!(read_event_envelope(&message).unwrap(), value);
    }
}

#[test]
fn tool_arguments_are_compacted_and_must_be_json() {
    let event = |arguments: &str| SessionEventEnvelope {
        sequence: 1,
        event: SessionEvent::ToolStarted {
            run_id: 1,
            call_id: "c".into(),
            name: "bash".into(),
            arguments: arguments.into(),
        },
    };
    let message = write_event_envelope(&event("{ \"b\" : 1 }"));
    match message {
        Ok(message) => match read_event_envelope(&message).unwrap().event {
            SessionEvent::ToolStarted { arguments, .. } => assert_eq!(arguments, "{\"b\":1}"),
            _ => panic!("another event came back"),
        },
        Err(error) => panic!("{}", error.message()),
    }
    let error = write_event_envelope(&event("{")).unwrap_err();
    assert_eq!(error.message(), "RPC tool arguments are not valid JSON");
}

#[test]
fn selectors_and_scopes_are_read_back() {
    for selector in [
        SessionSelector::Id(SessionId::parse("session-12").unwrap()),
        SessionSelector::Title(SessionTitle::parse("a title").unwrap()),
    ] {
        let message = write_session_selector(&selector).unwrap();
        assert_eq!(read_session_selector(&message).unwrap(), selector);
    }
    for scope in [SessionListScope::All, SessionListScope::Project(b"/work\xff".to_vec())] {
        let (kind, cwd) = write_session_list_scope(&scope).unwrap();
        assert_eq!(read_session_list_scope(&wire::Schema::Known(kind), &cwd).unwrap(), scope);
    }
    let long = SessionListScope::Project(vec![b'a'; MAX_RPC_CWD_BYTES + 1]);
    assert_eq!(
        write_session_list_scope(&long).unwrap_err().message(),
        "RPC cwd field is too long"
    );
}

#[test]
fn malformed_selectors_are_refused() {
    let message = |selector: &wire::SessionSelector| {
        read_session_selector(selector).unwrap_err().message()
    };
    assert_eq!(
        message(&wire::SessionSelector::Id(text("session-x"))),
        "RPC session identifier is malformed"
    );
    assert_eq!(
        message(&wire::SessionSelector::Title(text(" "))),
        "RPC session title is malformed"
    );
    assert_eq!(
        message(&wire::SessionSelector::Unknown(9)),
        "unknown SessionSelector union value 9"
    );
    assert_eq!(
        message(&wire::SessionSelector::Id(wire::Pointer::Value(vec![0xff]))),
        "RPC field id is not valid UTF-8"
    );
    let fault = wire::WireFault { message: "out of bounds".into() };
    assert_eq!(
        message(&wire::SessionSelector::Id(wire::Pointer::Unreadable(fault))),
        "could not read Cap'n Proto value: out of bounds"
    );
}

#[test]
fn attachment_zero_is_reserved() {
    assert_eq!(write_attachment_id(AttachmentId(5)).unwrap(), 5);
    assert_eq!(read_attachment_id(5).unwrap(), AttachmentId(5));
    assert_eq!(
        read_attachment_id(0).unwrap_err().message(),
        "RPC attachment identifier must be nonzero"
    );
}

#[test]
fn long_prompts_are_refused() {
    let request = SubmitRequest { prompt: "a".repeat(MAX_RPC_PROMPT_BYTES) };
    let message = write_submit_params(&request).unwrap();
    assert_eq!(read_submit_params(&message).unwrap().prompt, request.prompt);
    let request = SubmitRequest { prompt: "a".repeat(MAX_RPC_PROMPT_BYTES + 1) };
    assert_eq!(
        write_submit_params(&request).unwrap_err().message(),
        "RPC prompt field is too long"
    );
}

#[test]
fn command_errors_are_read_back_and_reported() {
    let error = CommandError {
        code: ErrorCode::AmbiguousTitle,
        message: "two sessions".into(),
        ids: vec![SessionId { number: 1 }, SessionId { number: 2 }],
    };
    let message = write_command_error(&error).unwrap();
    let read = read_command_error(&message).unwrap();
    assert_eq!(read.code, ErrorCode::AmbiguousTitle);
    assert_eq!(read.message, "two sessions");
    assert_eq!(read.ids, error.ids);
    match reported_result::<()>(Err(read)) {
        Err(RpcClientError::AmbiguousTitle { message, ids }) => {
            assert_eq!(message, "two sessions");
            assert_eq!(ids.len(), 2);
        }
        _ => panic!("expected an ambiguous title"),
    }
    let missing = CommandError {
        code: ErrorCode::SessionNotFound,
        message: "gone".into(),
        ids: Vec::new(),
    };
    let reported = reported_result::<()>(Err(missing)).unwrap_err();
    assert!(is_session_not_found(&reported));
    assert_eq!(ClientSessionError::from_rpc(&reported).message, "gone");
    assert_eq!(reported_result(Ok(3)).unwrap(), 3);
}

fn info(features: &[&str]) -> ProtocolInfo {
    ProtocolInfo {
        major: 2,
        minor: 0,
        instance_id: "backend".into(),
        startup_warnings: vec!["warned".into()],
        features: features.iter().map(|feature| (*feature).to_owned()).collect(),
    }
}

#[test]
fn negotiation_needs_every_feature() {
    let agreed = negotiate(info(&REQUIRED_FEATURES)).unwrap();
    assert_eq!(agreed.instance_id, "backend");
    assert_eq!(agreed.startup_warnings, ["warned"]);
    let error = negotiate(info(&REQUIRED_FEATURES[1..])).unwrap_err();
    assert_eq!(
        error.message(),
        format!("RPC server does not advertise required feature {}", REQUIRED_FEATURES[0])
    );
    let mut other = info(&REQUIRED_FEATURES);
    other.major = 3;
    assert_eq!(
        negotiate(other).unwrap_err().message(),
        "incompatible RPC protocol major: client 2, server 3"
    );
    let message = write_protocol_info(&info(&REQUIRED_FEATURES)).unwrap();
    assert!(negotiate(read_protocol_info(&message).unwrap()).is_ok());
}

fn event(attachment_id: u64, sequence: u64) -> Option<ObserverMessage> {
    Some(ObserverMessage {
        attachment_id,
        event: Ok(SessionEventEnvelope {
            sequence,
            event: SessionEvent::AssistantDelta { run_id: 1, text: format!("{sequence}") },
        }),
    })
}

#[test]
fn a_follower_delivers_each_event_once_and_in_order() {
    let mut follower = SessionFollower::new(snapshot(14), 1);
    assert!(matches!(follower.next(false), FollowStep::Receive));
    assert!(matches!(follower.received(event(1, 14)), FollowStep::Receive));
    assert!(matches!(follower.received(event(2, 15)), FollowStep::Receive));
    assert!(matches!(
        follower.received(event(1, 15)),
        FollowStep::Deliver(SessionUpdate::Event(SessionEventEnvelope { sequence: 15, .. }))
    ));
    assert!(matches!(follower.received(event(1, 15)), FollowStep::Receive));
}

#[test]
fn a_gap_is_recovered_by_a_fresh_snapshot() {
    let mut follower = SessionFollower::new(snapshot(14), 1);
    assert!(matches!(follower.received(event(1, 17)), FollowStep::Recover));
    assert!(matches!(follower.next(false), FollowStep::Recover));
    assert_eq!(follower.reattach_selector(), SessionSelector::Id(SessionId { number: 7 }));
    let update = follower
        .recovered(Ok(RecoveredAttachment {
            session: wire::SessionCapability { index: 9 },
            snapshot: snapshot(20),
            attachment_id: 2,
            detached: Err(RpcClientError::ConnectionClosed),
        }))
        .unwrap();
    assert!(matches!(update, SessionUpdate::SnapshotReplaced(SessionSnapshot { sequence: 20, .. })));
    assert_eq!(follower.attachment_id(), 2);
    assert!(matches!(follower.next(false), FollowStep::Deliver(SessionUpdate::Warning(_))));
    assert!(matches!(follower.next(false), FollowStep::Receive));
    assert!(matches!(follower.received(event(1, 21)), FollowStep::Receive));
    assert!(matches!(follower.received(event(2, 21)), FollowStep::Deliver(_)));
}

#[test]
fn a_session_that_is_gone_counts_as_deleted() {
    let mut follower = SessionFollower::new(snapshot(14), 1);
    assert!(matches!(follower.received(None), FollowStep::Recover));
    let missing = RpcClientError::Command(SessionCommandError::Reported {
        code: ErrorCode::SessionNotFound,
        message: "gone".into(),
    });
    assert!(matches!(
        follower.recovered(Err(missing)),
        Ok(SessionUpdate::Deleted { session_id: SessionId { number: 7 }, .. })
    ));
}

#[test]
fn the_backend_tells_whether_it_is_ready() {
    let mut states = ReadinessStates::new();
    let readiness = BackendReadiness::starting(&mut states);
    let clone = readiness.clone();
    let other = BackendReadiness::ready(&mut states, 9);
    assert_eq!(readiness.manager(&states).unwrap_err().message, "backend is still starting");
    readiness.install(&mut states, 5);
    assert_eq!(*readiness.manager(&states).ok().unwrap(), 5);
    assert_eq!(*clone.manager(&states).ok().unwrap(), 5);
    clone.fail(&mut states);
    clone.fail(&mut states);
    let error = readiness.manager(&states).unwrap_err();
    assert_eq!(error.code, ErrorCode::BackendUnavailable);
    assert_eq!(error.message, "backend is unavailable");
    assert!(error.ids.is_empty());
    assert_eq!(*other.manager(&states).ok().unwrap(), 9);
    readiness.install(&mut states, 6);
    assert_eq!(*clone.manager(&states).ok().unwrap(), 6);
}

#[test]
fn details_of_the_store_and_the_runtime_stay_in_the_backend() {
    let report = |error| manager_command_error(&error);
    let persistence = report(SessionManagerError::Store(SessionStoreError::Other {
        message: "/secret/path".into(),
    }));
    assert_eq!(persistence.code, ErrorCode::Persistence);
    assert_eq!(persistence.message, "session persistence failed");
    let runtime = report(SessionManagerError::Runtime("details".into()));
    assert_eq!(runtime.code, ErrorCode::Internal);
    assert_eq!(runtime.message, "session runtime could not be initialized");
    let ambiguous = report(SessionManagerError::Store(SessionStoreError::AmbiguousTitle {
        message: "two".into(),
        ids: vec![SessionId { number: 1 }],
    }));
    assert_eq!(ambiguous.ids, [SessionId { number: 1 }]);
    assert_eq!(
        report(SessionManagerError::Unavailable).code,
        ErrorCode::BackendUnavailable
    );
}

#[test]
fn neither_end_of_a_connection_is_lost() {
    let both = combine_completion(Err("rpc".to_owned()), Err("cleanup".to_owned())).unwrap_err();
    assert_eq!(
        both.message(),
        "Cap'n Proto RPC system failed: rpc; RPC connection cleanup failed: cleanup"
    );
    let rpc = combine_completion(Err("rpc".to_owned()), Ok::<(), String>(())).unwrap_err();
    assert_eq!(rpc.message(), "Cap'n Proto RPC system failed: rpc");
    let cleanup: Result<(), RpcServerError<String, String>> =
        combine_completion(Ok(()), Err("cleanup".to_owned()));
    assert_eq!(cleanup.unwrap_err().message(), "RPC connection cleanup failed: cleanup");
    assert!(combine_completion::<String, String>(Ok(()), Ok(())).is_ok());
}

#[test]
fn nothing_is_published_after_a_deletion_or_a_failure() {
    let deleted = SessionEvent::Deleted { session_id: SessionId { number: 1 } };
    let cancelled = SessionEvent::Cancelled { run_id: 1 };
    assert!(is_terminal_event(&deleted));
    assert!(!publishes_on(&deleted, true, true));
    assert!(publishes_on(&cancelled, true, true));
    assert!(!publishes_on(&cancelled, false, true));
    assert!(!publishes_on(&cancelled, true, false));
}

#[test]
fn copies_of_snapshots_are_equal() {
    let value = snapshot(3);
    assert_eq!(value.duplicate(), value);
}

fn backend() -> RpcBackendClient {
    RpcBackendClient::connect(Ok(write_protocol_info(&info(&REQUIRED_FEATURES)).unwrap())).unwrap()
}

fn refused(code: ErrorCode) -> CommandError {
    CommandError { code, message: "refused".into(), ids: Vec::new() }
}

fn defaults() -> DraftDefaults {
    DraftDefaults {
        cwd: b"/work".to_vec(),
        settings: snapshot(1).settings,
        catalog: ModelCatalogState::Loading,
    }
}

#[test]
fn connections_begin_with_a_negotiation() {
    assert_eq!(backend().info().instance_id, "backend");
    assert!(matches!(
        RpcBackendClient::connect(Err("reset".into())),
        Err(RpcClientError::Connection(source)) if source == "reset"
    ));
    let lacking = write_protocol_info(&info(&[])).unwrap();
    assert!(matches!(
        RpcBackendClient::connect(Ok(lacking)),
        Err(RpcClientError::MissingFeature { .. })
    ));
}

#[test]
fn attachments_are_counted_once_their_arguments_are_bounded() {
    let mut client = backend();
    let long = vec![b'a'; MAX_RPC_CWD_BYTES + 1];
    assert!(matches!(
        client.startup(long.clone()),
        Err(RpcClientError::Conversion(RpcConversionError::FieldTooLong { field: "cwd" }))
    ));
    let (first, params) = client.startup(b"/work".to_vec()).unwrap();
    assert_eq!(first, 1);
    assert_eq!(read_startup_params(&params).unwrap().attachment, AttachmentId(1));
    let selector = SessionSelector::Id(SessionId { number: 7 });
    let (second, params) = client.open_session(selector, b"/work".to_vec()).unwrap();
    assert_eq!(second, 2);
    let read = read_open_session_params(&params).unwrap();
    assert_eq!(read.selector, SessionSelector::Id(SessionId { number: 7 }));
    assert_eq!(read.cwd_for_title, b"/work");
    let settings = snapshot(1).settings;
    let (third, params) =
        client.materialize(b"/work".to_vec(), "hello".into(), settings).unwrap();
    assert_eq!(third, 3);
    assert_eq!(read_materialize_params(&params).unwrap().prompt, "hello");
    let selector = SessionSelector::Id(SessionId { number: 7 });
    assert!(matches!(
        client.open_session(selector, long),
        Err(RpcClientError::Conversion(RpcConversionError::FieldTooLong { field: "cwdForTitle" }))
    ));
    assert!(client.draft_defaults(b"/work".to_vec()).is_ok());
    assert!(client.list_sessions(SessionListScope::All).is_ok());
    assert!(client.delete_session(SessionId { number: 7 }).is_ok());
    let title = SessionTitle::parse("renamed").unwrap();
    let params = client.rename_session(SessionId { number: 7 }, title).unwrap();
    assert_eq!(read_rename_session_params(&params).unwrap().title.as_str(), "renamed");
}

#[test]
fn answers_are_read_or_reported() {
    let answered = write_draft_defaults_result(&Ok(defaults())).unwrap();
    assert_eq!(draft_defaults_reply(Ok(answered)).unwrap(), defaults());
    let answered = write_session_list_result(&Ok(vec![summary()])).unwrap();
    assert_eq!(session_list_reply(Ok(answered)).unwrap(), [summary()]);
    let answered = write_command_result(&Err(refused(ErrorCode::Busy))).unwrap();
    assert!(matches!(
        command_reply(Ok(answered)),
        Err(RpcClientError::Command(SessionCommandError::Reported {
            code: ErrorCode::Busy,
            ..
        }))
    ));
    assert!(command_reply(Ok(write_command_result(&Ok(())).unwrap())).is_ok());
    assert_eq!(submit_reply(Ok(write_submit_result(&Ok(8)).unwrap())).unwrap(), 8);
    assert_eq!(detach_reply(Ok(write_detach_result(&Ok(3)).unwrap())).unwrap(), 3);
    assert_eq!(
        submit_reply(Err("reset".into())).unwrap_err().message(),
        "RPC connection failed"
    );
    assert!(matches!(
        session_list_reply(Ok(wire::ResultUnion::Unknown(9))),
        Err(RpcClientError::Conversion(RpcConversionError::UnknownUnion { value: 9, .. }))
    ));
}

#[test]
fn opened_sessions_are_followed_from_their_snapshot() {
    let session = wire::SessionCapability { index: 4 };
    let opened = OpenSuccess { session, snapshot: snapshot(14) };
    let mut client = open_reply(Ok(write_open_result(&Ok(opened)).unwrap()), 5).unwrap();
    assert_eq!(client.snapshot().sequence, 14);
    assert!(matches!(client.received(event(5, 15)), FollowStep::Deliver(_)));
    assert!(client.submit("hello".into()).is_ok());
    assert!(client.submit("a".repeat(MAX_RPC_PROMPT_BYTES + 1)).is_err());
    assert!(client.select_model("model".into()).is_ok());
    assert!(client.cancel_job("job-1".into()).is_ok());
    assert_eq!(client.detach(), (wire::SessionCapability { index: 4 }, 5));

    let draft = write_startup_result(&Ok(StartupSuccess::Draft(defaults()))).unwrap();
    assert!(matches!(startup_reply(Ok(draft), 6), Ok(RpcStartup::Draft(_))));
    let session = wire::SessionCapability { index: 4 };
    let success = MaterializeSuccess { session, snapshot: snapshot(2), run_id: 11 };
    let answered = write_materialize_result(&Ok(success)).unwrap();
    let materialized = materialize_reply(Ok(answered), 7).unwrap();
    assert_eq!(materialized.run_id, 11);
    assert_eq!(materialized.session.detach(), (wire::SessionCapability { index: 4 }, 7));
}

#[test]
fn calls_go_to_the_session_that_a_recovery_opened() {
    let opened = OpenSuccess {
        session: wire::SessionCapability { index: 4 },
        snapshot: snapshot(14),
    };
    let mut client = open_reply(Ok(write_open_result(&Ok(opened)).unwrap()), 5).unwrap();
    assert_eq!(client.session(), wire::SessionCapability { index: 4 });
    assert!(matches!(client.received(None), FollowStep::Recover));
    assert!(client.recovered(Err(RpcClientError::ConnectionClosed)).is_err());
    assert_eq!(client.session(), wire::SessionCapability { index: 4 });

    assert!(matches!(client.received(None), FollowStep::Recover));
    let mut another = snapshot(20);
    another.summary.id = SessionId { number: 8 };
    client
        .recovered(Ok(RecoveredAttachment {
            session: wire::SessionCapability { index: 9 },
            snapshot: another,
            attachment_id: 6,
            detached: Ok(1),
        }))
        .unwrap();
    assert_eq!(client.session(), wire::SessionCapability { index: 9 });
    assert_eq!(client.snapshot().summary.id, SessionId { number: 8 });
    assert_eq!(client.reattach_selector(), SessionSelector::Id(SessionId { number: 7 }));
    assert!(matches!(client.next(false), FollowStep::Receive));
    assert_eq!(client.detach(), (wire::SessionCapability { index: 9 }, 6));
}

#[test]
fn observers_hand_on_events_and_report_what_they_cannot_read() {
    let value = SessionEventEnvelope { sequence: 9, event: SessionEvent::Cancelled { run_id: 1 } };
    let (message, fault) = publish(3, &write_event_envelope(&value).unwrap());
    assert_eq!(message.attachment_id, 3);
    assert_eq!(message.event.unwrap(), value);
    assert!(fault.is_none());
}

#[test]
fn requests_are_read_before_the_services_are_asked() {
    let params = write_submit_params(&SubmitRequest { prompt: "hello".into() }).unwrap();
    let broken = wire::SubmitParams { prompt: wire::Pointer::Value(vec![0xff]) };
    let mut states = ReadinessStates::<u8>::new();
    let starting = BackendReadiness::starting(&mut states);
    let ready = BackendReadiness::ready(&mut states, 1);
    assert!(matches!(
        begin_request::<SubmitRequest, u8>(starting, &states, &broken),
        Begun::Fail(message) if message == "RPC field prompt is not valid UTF-8"
    ));
    assert!(matches!(
        begin_request::<SubmitRequest, u8>(starting, &states, &params),
        Begun::Refuse(error) if error.code == ErrorCode::BackendStarting
    ));
    assert!(matches!(
        begin_request::<SubmitRequest, u8>(ready, &states, &params),
        Begun::Ask(request) if request.prompt == "hello"
    ));
}

#[test]
fn results_are_reported_and_written() {
    assert_eq!(manager_result(Ok(4)).ok(), Some(4));
    let error = manager_result::<()>(Err(SessionManagerError::Unavailable)).unwrap_err();
    assert_eq!(error.message, "session manager is unavailable");
    let failed = session_result::<()>(Err(SessionCommandError::Reported {
        code: ErrorCode::Busy,
        message: "busy".into(),
    }));
    assert_eq!(failed.unwrap_err().code, ErrorCode::Busy);
    let mut bad = summary();
    bad.last_activity = Timestamp { seconds: i64::MAX, nanoseconds: 0 };
    assert!(answer(&bad).is_err());
    assert!(answer(&summary()).is_ok());
}

#[test]
fn events_are_published_only_for_attached_sessions() {
    let session = || wire::SessionCapability { index: 1 };
    let (draft, publishes) = prepare_startup(Ok(SelectedStartup::Draft(defaults())), session());
    assert!(matches!(draft, Ok(StartupSuccess::Draft(_))));
    assert!(!publishes);
    let (attached, publishes) =
        prepare_startup(Ok(SelectedStartup::Attached(snapshot(1))), session());
    assert!(matches!(attached, Ok(StartupSuccess::Attached(_))));
    assert!(publishes);
    assert!(prepare_open(Err(refused(ErrorCode::Busy)), session()).is_err());
    assert_eq!(prepare_open(Ok(snapshot(3)), session()).unwrap().snapshot.sequence, 3);
    assert_eq!(prepare_materialize(Ok((snapshot(3), 9)), session()).unwrap().run_id, 9);
}

#[test]
fn a_connection_counts_until_it_ended() {
    let mut states = ReadinessStates::<u8>::new();
    let (mut context, readiness) =
        BackendContext::starting(&mut states, ActivityTracker::new(), info(&REQUIRED_FEATURES));
    assert!(context.readiness.manager(&states).is_err());
    readiness.install(&mut states, 3);
    assert_eq!(*context.readiness.manager(&states).ok().unwrap(), 3);
    context.connection_opened(ConnectionId(1));
    assert_eq!(context.activity.snapshot().connections, 1);
    let ended = context.connection_closed::<String, String>(
        ConnectionId(1),
        Err("reset".into()),
        Some(Err("stuck".into())),
    );
    assert!(matches!(ended, Err(RpcServerError::RpcAndCleanup { .. })));
    assert!(context.activity.snapshot().is_idle());
    let ready =
        BackendContext::new(&mut states, 1, ActivityTracker::new(), info(&REQUIRED_FEATURES));
    assert_eq!(*ready.readiness.manager(&states).ok().unwrap(), 1);
}
