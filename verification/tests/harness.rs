//! Runs and their history.

use moh::harness::error::{HarnessError, RunFailure, RunFailureKind, RunStage};
use moh::harness::state::Harness;
use moh::harness::types::{EngineEvent, Message, Role, RunContext, RunEvent};

fn context() -> RunContext {
    RunContext { cwd: b"/work".to_vec(), plan: Vec::new() }
}

fn failure() -> RunFailure {
    RunFailure::new(
        RunStage::ModelRequest,
        RunFailureKind::Transport,
        true,
        "connection lost".to_owned(),
    )
    .with_source("reset by peer".to_owned())
}

#[test]
fn a_completed_run_is_committed() {
    let mut harness = Harness::new();
    let (started, request) = harness.submit("hello".to_owned(), context()).unwrap();
    let run_id = match started {
        RunEvent::Started { run_id } => run_id,
        _ => panic!("a run should start"),
    };
    assert_eq!(run_id.get(), 0);
    assert_eq!(request.prompt, "hello");
    assert!(request.history.is_empty());
    assert!(harness.is_running());
    assert_eq!(
        harness.next_event(Some(Ok(EngineEvent::AssistantDelta("wor".to_owned())))),
        Some(RunEvent::AssistantDelta { run_id, text: "wor".to_owned() })
    );
    assert!(harness.history().is_empty());
    assert_eq!(
        harness.next_event(Some(Ok(EngineEvent::Completed("world".to_owned())))),
        Some(RunEvent::Completed { run_id, response: "world".to_owned() })
    );
    assert!(!harness.is_running());
    assert_eq!(
        harness.history(),
        [
            Message::new(Role::User, "hello".to_owned()),
            Message::new(Role::Assistant, "world".to_owned()),
        ]
    );
    let (_, request) = harness.submit("again".to_owned(), context()).unwrap();
    assert_eq!(request.history.len(), 2);
}

#[test]
fn failed_and_cancelled_runs_leave_no_trace() {
    let mut harness = Harness::new();
    harness.submit("one".to_owned(), context()).unwrap();
    match harness.next_event(Some(Err(failure()))) {
        Some(RunEvent::Failed { run_id, failure }) => {
            assert_eq!(run_id.get(), 0);
            assert_eq!(failure.message(), "connection lost");
            assert_eq!(failure.stage(), RunStage::ModelRequest);
            assert!(failure.retryable());
        }
        _ => panic!("the run should fail"),
    }
    harness.submit("two".to_owned(), context()).unwrap();
    assert!(matches!(harness.cancel(), Ok(RunEvent::Cancelled { run_id }) if run_id.get() == 1));
    assert!(harness.history().is_empty());
    assert_eq!(harness.next_event(None), None);
}

#[test]
fn a_stream_that_ends_early_is_a_failure() {
    let mut harness = Harness::new();
    harness.submit("one".to_owned(), context()).unwrap();
    assert!(matches!(harness.next_event(None), Some(RunEvent::Failed { .. })));
    assert!(!harness.is_running());
}

#[test]
fn commands_at_the_wrong_time_are_refused() {
    let mut harness = Harness::with_history(vec![Message::new(Role::User, "old".to_owned())]);
    assert_eq!(harness.cancel().unwrap_err(), HarnessError::NotRunning);
    harness.submit("one".to_owned(), context()).unwrap();
    assert_eq!(harness.submit("two".to_owned(), context()).unwrap_err(), HarnessError::Busy);
    assert_eq!(harness.history().len(), 1);
    assert!(!HarnessError::Busy.message().is_empty());
    assert!(!HarnessError::NotRunning.message().is_empty());
    assert!(!HarnessError::RunIdExhausted.message().is_empty());
}
