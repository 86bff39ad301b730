//! The modes of the program and its list of sessions.

use moh::cli::{
    dispatch, format_sessions, parse, parse_selector, CliArguments, CliCommand, CliMode, Dispatch,
    SelectorError,
};
use moh::client::session::LaunchMode;
use moh::rpc::client::{is_backend_starting, RpcClientError};
use moh::session::{
    ErrorCode, SessionCommandError, SessionId, SessionSelector, SessionSummary, SessionTitle,
    Timestamp,
};

fn arguments(new: bool, resume: Option<&str>, command: Option<CliCommand>) -> CliArguments {
    CliArguments { new, resume: resume.map(str::to_owned), command }
}

#[test]
fn backend_starting_retry_is_keyed_only_by_the_stable_error_code() {
    let starting = RpcClientError::Command(SessionCommandError::Reported {
        code: ErrorCode::BackendStarting,
        message: "safe startup message".into(),
    });
    let busy = RpcClientError::Command(SessionCommandError::Reported {
        code: ErrorCode::Busy,
        message: "busy".into(),
    });

    assert!(is_backend_starting(&starting));
    assert!(!is_backend_starting(&busy));
}

#[test]
fn list_output_orders_by_most_recent_activity() {
    let earlier = Timestamp { seconds: 1_787_828_400, nanoseconds: 0 };
    let later = Timestamp { seconds: 1_787_832_000, nanoseconds: 0 };
    let summary = |id: &str, title: &str, running, clients, activity| SessionSummary {
        id: SessionId::parse(id).unwrap(),
        title: SessionTitle::parse(title).unwrap(),
        title_revision: 0,
        cwd: b"/work/moh".to_vec(),
        cwd_display: "/work/moh".into(),
        running_jobs: 0,
        running,
        busy: running,
        attached_clients: clients,
        last_activity: activity,
    };

    let lines = format_sessions(vec![
        summary("session-2", "older", false, 0, earlier),
        summary("session-1", "Untitled session", false, 1, earlier),
        summary("session-3", "newer", true, 2, later),
    ]);

    assert_eq!(
        lines,
        [
            "session-3\tnewer\trunning\tclients=2\t2026-08-27T12:00:00+00:00",
            "session-1\tUntitled session\tidle\tclients=1\t2026-08-27T11:00:00+00:00",
            "session-2\tolder\tidle\tclients=0\t2026-08-27T11:00:00+00:00",
        ]
    );
}

#[test]
fn an_instant_beyond_the_calendar_prints_no_date() {
    let lines = format_sessions(vec![SessionSummary {
        id: SessionId::parse("session-1").unwrap(),
        title: SessionTitle::parse("far").unwrap(),
        title_revision: 0,
        cwd: b"/".to_vec(),
        cwd_display: "/".into(),
        running_jobs: 0,
        running: false,
        busy: false,
        attached_clients: 0,
        last_activity: Timestamp { seconds: i64::MAX, nanoseconds: 0 },
    }]);
    assert_eq!(lines, ["session-1\tfar\tidle\tclients=0\t"]);
}

#[test]
fn arguments_become_modes() {
    assert_eq!(parse(arguments(false, None, None)), Ok(CliMode::Default));
    assert_eq!(parse(arguments(true, None, None)), Ok(CliMode::New));
    assert_eq!(
        parse(arguments(false, Some("session-7"), None)),
        Ok(CliMode::Session {
            selector: SessionSelector::Id(SessionId::parse("session-7").unwrap())
        })
    );
    assert_eq!(
        parse(arguments(false, None, Some(CliCommand::Sessions))),
        Ok(CliMode::Sessions)
    );
    assert_eq!(
        parse(arguments(false, None, Some(CliCommand::Server { internal_detached: true }))),
        Ok(CliMode::Server { detached: true })
    );
}

#[test]
fn selectors_are_identifiers_or_titles() {
    assert_eq!(
        parse_selector("  My work "),
        Ok(SessionSelector::Title(SessionTitle::parse("My work").unwrap()))
    );
    assert_eq!(parse_selector("session-"), Err(SelectorError::SessionId));
    assert_eq!(parse_selector("session-07"), Err(SelectorError::SessionId));
    assert_eq!(parse_selector("   "), Err(SelectorError::SessionTitle));
    assert_eq!(parse_selector("two\nlines"), Err(SelectorError::SessionTitle));
}

#[test]
fn modes_are_dispatched() {
    assert!(matches!(
        dispatch(CliMode::Server { detached: false }),
        Dispatch::Server { detached: false }
    ));
    assert!(matches!(dispatch(CliMode::Sessions), Dispatch::List));
    assert!(matches!(dispatch(CliMode::Default), Dispatch::Client(LaunchMode::Startup)));
    assert!(matches!(dispatch(CliMode::New), Dispatch::Client(LaunchMode::NewDraft)));
    let selector = SessionSelector::Id(SessionId::parse("session-3").unwrap());
    assert!(matches!(
        dispatch(CliMode::Session { selector }),
        Dispatch::Client(LaunchMode::Session(SessionSelector::Id(SessionId { number: 3 })))
    ));
}
