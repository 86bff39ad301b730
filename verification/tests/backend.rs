//! Activity, serving and shutting down.

use moh::backend::activity::{ActivityTracker, IdleStep, IdleWaiter};
use moh::backend::server::{
    connection_result, flush_for_idle_shutdown, instance_id, record_first, same_idle_generation,
    shutdown_outcome, shutdown_tasks, unlinks_bound_socket, BackendError, BackendServe,
    ConnectionIdAllocator, ConnectionIdExhausted, ServeAction, ServeEvent, ShutdownReason,
    ShutdownTask, ShutdownVeto, SocketIdentity,
};
use moh::backend::activity::IdleDeadline;
use moh::local::paths::FileFacts;
use moh::rpc::server::RpcServerError;
use moh::session::{ConnectionId, SessionId};

#[test]
fn real_changes_of_the_activity_are_counted() {
    let mut tracker = ActivityTracker::new();
    assert!(tracker.snapshot().is_idle());
    assert!(tracker.set_connection(ConnectionId(1), true));
    assert!(!tracker.set_connection(ConnectionId(1), true));
    assert!(tracker.set_run(SessionId { number: 1 }, true));
    assert!(tracker.set_running_jobs(SessionId { number: 1 }, 2));
    assert!(tracker.set_running_jobs(SessionId { number: 2 }, 3));
    assert!(!tracker.set_running_jobs(SessionId { number: 2 }, 3));
    tracker.begin_title_task();
    let snapshot = tracker.snapshot();
    assert_eq!(snapshot.connections, 1);
    assert_eq!(snapshot.active_runs, 1);
    assert_eq!(snapshot.running_jobs, 5);
    assert_eq!(snapshot.title_tasks, 1);
    assert_eq!(snapshot.generation, 5);
    tracker.finish_title_task();
    tracker.set_running_jobs(SessionId { number: 1 }, 0);
    tracker.set_running_jobs(SessionId { number: 2 }, 0);
    tracker.set_run(SessionId { number: 1 }, false);
    tracker.set_connection(ConnectionId(1), false);
    assert!(tracker.snapshot().is_idle());
    assert_eq!(tracker.snapshot().generation, 10);
}

#[test]
fn only_an_unchanged_idle_generation_runs_out() {
    let mut tracker = ActivityTracker::new();
    let mut waiter = IdleWaiter::new();
    assert_eq!(waiter.observe(tracker.snapshot()), IdleStep::AwaitTimeout);
    tracker.set_connection(ConnectionId(1), true);
    assert_eq!(waiter.timeout(tracker.snapshot()), None);
    assert_eq!(waiter.observe(tracker.snapshot()), IdleStep::AwaitChange);
    tracker.set_connection(ConnectionId(1), false);
    assert_eq!(waiter.observe(tracker.snapshot()), IdleStep::AwaitTimeout);
    assert_eq!(
        waiter.timeout(tracker.snapshot()),
        Some(IdleDeadline { snapshot: tracker.snapshot() })
    );
}

#[test]
fn connection_ids_are_exhausted_and_not_reused() {
    let mut ids = ConnectionIdAllocator::starting_at(ConnectionId(u64::MAX));
    assert_eq!(ids.allocate(), Ok(ConnectionId(u64::MAX)));
    assert_eq!(ids.allocate(), Err(ConnectionIdExhausted));
    assert_eq!(ids.allocate(), Err(ConnectionIdExhausted));
}

#[test]
fn dirty_sessions_veto_the_shutdown() {
    assert_eq!(flush_for_idle_shutdown(true), Ok(()));
    assert_eq!(flush_for_idle_shutdown(false), Err(ShutdownVeto::DirtySessions));
    assert_eq!(
        ShutdownVeto::DirtySessions.message(),
        "one or more dirty sessions could not be persisted"
    );
}

fn idle_deadline() -> IdleDeadline {
    IdleDeadline { snapshot: ActivityTracker::new().snapshot() }
}

#[test]
fn an_idle_backend_flushes_and_stops() {
    let idle = idle_deadline();
    let mut serve = BackendServe::new();
    assert!(matches!(serve.handle(ServeEvent::Initialized(Ok(()))), ServeAction::InstallManager));
    assert!(matches!(serve.handle(ServeEvent::Idle(idle)), ServeAction::AcceptQueued));
    assert!(matches!(
        serve.handle(ServeEvent::QueueEmpty(idle.snapshot)),
        ServeAction::Flush
    ));
    assert!(matches!(
        serve.handle(ServeEvent::Flushed { success: true, current: idle.snapshot }),
        ServeAction::AcceptQueued
    ));
    assert!(matches!(
        serve.handle(ServeEvent::QueueEmpty(idle.snapshot)),
        ServeAction::Stop(Ok(ShutdownReason::Idle))
    ));
}

#[test]
fn a_waiting_client_or_a_failed_flush_keeps_the_backend() {
    let idle = idle_deadline();
    let mut serve = BackendServe::new();
    serve.handle(ServeEvent::Initialized(Ok(())));
    serve.handle(ServeEvent::Idle(idle));
    assert!(matches!(
        serve.handle(ServeEvent::Accepted(Ok(()))),
        ServeAction::RetainAndRestartIdle(_)
    ));
    serve.handle(ServeEvent::Idle(idle));
    serve.handle(ServeEvent::QueueEmpty(idle.snapshot));
    assert!(matches!(
        serve.handle(ServeEvent::Flushed { success: false, current: idle.snapshot }),
        ServeAction::RestartIdle
    ));
    assert!(matches!(
        serve.handle(ServeEvent::Signalled(Ok(()))),
        ServeAction::Stop(Ok(ShutdownReason::Signal))
    ));
}

#[test]
fn failures_stop_the_backend() {
    let message = |event| match BackendServe::new().handle(event) {
        ServeAction::Stop(Err(error)) => error.message(),
        _ => panic!("the backend should stop"),
    };
    assert_eq!(
        message(ServeEvent::Initialized(Err("secret".to_owned()))),
        "backend runtime initialization failed"
    );
    assert_eq!(
        message(ServeEvent::Accepted(Err("io".to_owned()))),
        "could not accept a local backend connection: io"
    );
    assert_eq!(
        message(ServeEvent::Signalled(Err("io".to_owned()))),
        "could not install backend shutdown signal handling: io"
    );
    assert_eq!(
        message(ServeEvent::Completed(Err("panicked".to_owned()))),
        "backend RPC connection task failed: panicked"
    );
}

#[test]
fn a_broken_transport_is_no_failure_of_the_backend() {
    assert!(connection_result(Ok(Ok(()))).is_ok());
    assert!(connection_result(Ok(Err(RpcServerError::Rpc("reset".to_owned())))).is_ok());
    assert_eq!(
        connection_result(Ok(Err(RpcServerError::Cleanup("stuck".to_owned()))))
            .unwrap_err()
            .message(),
        "RPC connection cleanup failed: stuck"
    );
}

#[test]
fn everything_is_shut_down_in_order() {
    assert_eq!(
        shutdown_tasks(true),
        [
            ShutdownTask::FailReadiness,
            ShutdownTask::CloseListener,
            ShutdownTask::ShutdownManager,
            ShutdownTask::JoinManager,
            ShutdownTask::DrainRefreshes,
            ShutdownTask::CloseConnections,
            ShutdownTask::JoinConnections,
            ShutdownTask::CloseRepository,
            ShutdownTask::UnlinkSocket,
        ]
    );
    assert_eq!(shutdown_tasks(false).len(), 7);
}

#[test]
fn the_first_error_is_reported() {
    let mut first = None;
    record_first(&mut first, BackendError::Accept("one".to_owned()));
    record_first(&mut first, BackendError::Accept("two".to_owned()));
    assert!(matches!(&first, Some(BackendError::Accept(text)) if text == "one"));
    let served = Err(BackendError::Signal("three".to_owned()));
    assert!(matches!(shutdown_outcome(served, first), Err(BackendError::Signal(_))));
    let cleanup = BackendError::SocketCleanup { path: b"/s".to_vec(), source: "io".to_owned() };
    assert_eq!(
        shutdown_outcome(Ok(ShutdownReason::Idle), Some(cleanup)).unwrap_err().message(),
        "could not clean up local backend socket /s: io"
    );
    assert!(matches!(
        shutdown_outcome(Ok(ShutdownReason::Idle), None),
        Ok(ShutdownReason::Idle)
    ));
}

#[test]
fn only_the_bound_socket_is_unlinked() {
    let identity = SocketIdentity { device: 1, inode: 2 };
    let facts = FileFacts {
        uid: 0,
        is_directory: false,
        is_socket: true,
        device: 1,
        inode: 2,
        changed_at_seconds: 0,
        changed_at_nanoseconds: 0,
    };
    assert!(unlinks_bound_socket(Some(facts), identity));
    assert!(!unlinks_bound_socket(Some(FileFacts { inode: 3, ..facts }), identity));
    assert!(!unlinks_bound_socket(Some(FileFacts { is_socket: false, ..facts }), identity));
    assert!(!unlinks_bound_socket(None, identity));
    assert!(!instance_id(7, identity).is_empty());
}

#[test]
fn idle_generations_are_compared() {
    let mut tracker = ActivityTracker::new();
    let before = tracker.snapshot();
    assert!(same_idle_generation(before, before));
    tracker.set_connection(ConnectionId(1), true);
    assert!(!same_idle_generation(tracker.snapshot(), before));
    tracker.set_connection(ConnectionId(1), false);
    assert!(!same_idle_generation(tracker.snapshot(), before));
}
