//! Paths, configuration and launching.

use moh::local::config::{ConfigError, MohConfig, ServerConfig, Timeout};
use moh::local::launch::{
    first_attempt_step, handshake_step, locked_attempt_step, may_remove_socket, spawn_error,
    socket_connection_step, stale_result_step, stale_socket_step, startup_lock_step,
    BackendCommand, BackendWait, ConnectAttempt, Launch, LaunchEvent, LaunchProgress,
    LocalLaunchError, LockAttempt, LockStep, SocketConnection, StaleStep,
};
use moh::local::paths::{
    FileFacts, LocalPathError, LocalPaths, PathRoots, SocketCandidateIdentity, StateDirAction,
    StateDirReply,
};
use moh::rpc::client::RpcClientError;

fn roots() -> PathRoots {
    PathRoots {
        runtime_dir: Some(b"/run/user/1000/moh".to_vec()),
        temp_dir: b"/tmp".to_vec(),
        config_dir: b"/home/u/.config/moh".to_vec(),
        state_dir: b"/home/u/.local/state/moh".to_vec(),
        effective_uid: 1000,
    }
}

fn paths() -> LocalPaths {
    LocalPaths::from_roots(roots())
}

fn socket(inode: u64) -> FileFacts {
    FileFacts {
        uid: 1000,
        is_directory: false,
        is_socket: true,
        device: 3,
        inode,
        changed_at_seconds: 10,
        changed_at_nanoseconds: 0,
    }
}

fn directory(uid: u32) -> FileFacts {
    FileFacts { is_directory: true, is_socket: false, uid, ..socket(1) }
}

#[test]
fn paths_come_from_their_roots() {
    let paths = paths();
    assert_eq!(paths.runtime_dir(), b"/run/user/1000/moh");
    assert_eq!(paths.socket_path(), b"/run/user/1000/moh/backend.sock");
    assert_eq!(paths.spawn_lock_path(), b"/run/user/1000/moh/backend.lock");
    assert_eq!(paths.config_path(), b"/home/u/.config/moh/config.toml");
    assert_eq!(paths.state_dir(), b"/home/u/.local/state/moh");
    assert_eq!(paths.server_log_path(), b"/home/u/.local/state/moh/server.log");
    assert_eq!(paths.effective_uid(), 1000);
    let fallback = LocalPaths::from_roots(PathRoots { runtime_dir: None, ..roots() });
    assert_eq!(fallback.runtime_dir(), b"/tmp/moh-1000");
}

#[test]
fn stale_cleanup_preserves_a_replacement_socket_with_a_different_identity() {
    let paths = paths();
    let original = paths.socket_candidate_identity(Ok(Some(socket(7)))).ok().unwrap();
    let replacement = paths.socket_candidate_identity(Ok(Some(socket(8)))).ok().unwrap();

    assert_eq!(stale_socket_step(original, replacement), StaleStep::Replaced);
    assert!(!may_remove_socket(original.unwrap(), socket(8)));
    assert!(matches!(stale_result_step::<()>(false), LaunchProgress::Wait));

    assert_eq!(stale_socket_step(original, original), StaleStep::Recheck);
    assert!(may_remove_socket(original.unwrap(), socket(7)));
    assert_eq!(stale_socket_step(None, replacement), StaleStep::Replaced);
    assert_eq!(stale_socket_step(original, None), StaleStep::Gone);
    assert!(matches!(stale_result_step::<()>(true), LaunchProgress::Spawn));
}

#[test]
fn socket_candidates_are_sockets_of_the_user() {
    let paths = paths();
    assert_eq!(
        paths.socket_candidate_identity(Ok(Some(socket(7)))).ok().unwrap(),
        Some(SocketCandidateIdentity {
            device: 3,
            inode: 7,
            changed_at_seconds: 10,
            changed_at_nanoseconds: 0,
        })
    );
    assert_eq!(paths.socket_candidate_identity(Ok(None)).ok().unwrap(), None);
    let message = |facts| paths.socket_candidate_identity(facts).err().unwrap().message();
    assert_eq!(
        message(Ok(Some(directory(1000)))),
        "socket candidate /run/user/1000/moh/backend.sock has an unexpected type; expected an owned Unix socket"
    );
    assert_eq!(
        message(Ok(Some(FileFacts { uid: 0, ..socket(1) }))),
        "socket candidate /run/user/1000/moh/backend.sock has unexpected owner uid 0; expected uid 1000"
    );
    assert_eq!(
        message(Err("denied".to_owned())),
        "could not inspect local path /run/user/1000/moh/backend.sock: denied"
    );
}

#[test]
fn the_runtime_directory_belongs_to_the_user() {
    let paths = paths();
    assert!(paths.validate_runtime_directory(directory(1000)).is_ok());
    assert!(matches!(
        paths.validate_runtime_directory(socket(1)),
        Err(LocalPathError::RuntimeDirectoryType { .. })
    ));
    assert!(matches!(
        paths.validate_runtime_directory(directory(5)),
        Err(LocalPathError::RuntimeDirectoryOwner { found: 5, expected: 1000, .. })
    ));
}

#[test]
fn the_state_directory_is_prepared_component_by_component() {
    let paths = LocalPaths::from_roots(PathRoots { state_dir: b"/a/b".to_vec(), ..roots() });
    let mut setup = paths.prepare_state_dir().ok().unwrap();
    assert_eq!(setup.action(), StateDirAction::OpenStart { absolute: true });
    setup.reply(StateDirReply::Done).ok().unwrap();
    assert_eq!(setup.action(), StateDirAction::Create(0));
    assert_eq!(setup.component(0).unwrap(), b"a");
    setup.reply(StateDirReply::Exists).ok().unwrap();
    assert_eq!(setup.action(), StateDirAction::Open { index: 0, created: false });
    setup.reply(StateDirReply::Done).ok().unwrap();
    assert_eq!(setup.action(), StateDirAction::Create(1));
    setup.reply(StateDirReply::Done).ok().unwrap();
    assert_eq!(setup.action(), StateDirAction::RestrictCreated(1));
    setup.reply(StateDirReply::Done).ok().unwrap();
    assert_eq!(setup.action(), StateDirAction::Open { index: 1, created: true });
    setup.reply(StateDirReply::Done).ok().unwrap();
    assert_eq!(setup.action(), StateDirAction::Inspect(1));
    let fault = setup.reply(StateDirReply::Facts(directory(9))).err().unwrap();
    assert_eq!(
        paths.state_dir_error(fault).message(),
        "state directory /a/b has unexpected owner uid 9; expected uid 1000"
    );
    setup.reply(StateDirReply::Facts(directory(1000))).ok().unwrap();
    assert_eq!(setup.action(), StateDirAction::Restrict(1));
    setup.reply(StateDirReply::Done).ok().unwrap();
    assert_eq!(setup.action(), StateDirAction::Finished);
}

#[test]
fn unsafe_state_directories_are_refused() {
    for path in [b"/".to_vec(), b"/a/../b".to_vec()] {
        let paths = LocalPaths::from_roots(PathRoots { state_dir: path, ..roots() });
        assert!(matches!(
            paths.prepare_state_dir(),
            Err(LocalPathError::UnsafeStateDirectory { .. })
        ));
    }
}

fn config(seconds: u64) -> MohConfig {
    MohConfig { server: ServerConfig { idle_timeout: Timeout { seconds, nanoseconds: 0 } } }
}

#[test]
fn configuration_is_checked() {
    let path = b"/etc/moh.toml".to_vec();
    assert_eq!(MohConfig::load(Ok(None), path.clone()).ok().unwrap(), config(900));
    assert_eq!(MohConfig::parse(Ok(config(5)), path.clone()).ok().unwrap(), config(5));
    let message = |read| MohConfig::load(read, b"/etc/moh.toml".to_vec()).err().unwrap().message();
    assert_eq!(
        message(Ok(Some(Ok(config(0))))),
        "configuration /etc/moh.toml has an invalid server.idle_timeout; it must be greater than zero"
    );
    assert_eq!(
        message(Err("denied".to_owned())),
        "could not read configuration /etc/moh.toml: denied"
    );
    match MohConfig::parse(
        Err("unknown field `unknown`, expected `server`".to_owned()),
        path,
    ) {
        Err(ConfigError::Parse { field, message, .. }) => {
            assert_eq!(field, "unknown");
            assert_eq!(message, "unknown field");
        }
        _ => panic!("the configuration should be refused"),
    }
}

#[test]
fn commands_keep_their_arguments_and_environment() {
    let command = BackendCommand::<()>::detached(b"/bin/moh".to_vec())
        .args(vec![b"server".to_vec(), b"--internal-detached".to_vec()])
        .env(b"KEY".to_vec(), b"value".to_vec());
    assert_eq!(command.program().unwrap(), b"/bin/moh");
    assert_eq!(command.arguments().unwrap().len(), 2);
    let injected = BackendCommand::injected(7);
    assert!(injected.program().is_none());
}

#[test]
fn locks_are_retried_until_the_time_is_up() {
    let paths = paths();
    assert_eq!(
        startup_lock_step(&paths, LockAttempt::Locked, true).ok().unwrap(),
        LockStep::Acquired
    );
    assert_eq!(
        startup_lock_step(&paths, LockAttempt::WouldBlock, false).ok().unwrap(),
        LockStep::Retry
    );
    assert_eq!(
        startup_lock_step(&paths, LockAttempt::WouldBlock, true).err().unwrap().message(),
        "local backend did not become ready at /run/user/1000/moh/backend.sock within five seconds; startup lock /run/user/1000/moh/backend.lock; diagnostic log /home/u/.local/state/moh/server.log"
    );
    assert_eq!(
        startup_lock_step(&paths, LockAttempt::Failed("io".to_owned()), false)
            .err()
            .unwrap()
            .message(),
        "could not acquire local backend startup lock /run/user/1000/moh/backend.lock: io"
    );
    assert_eq!(
        spawn_error(&paths, "io".to_owned()).message(),
        "could not start local backend for socket /run/user/1000/moh/backend.sock; startup lock /run/user/1000/moh/backend.lock; diagnostic log /home/u/.local/state/moh/server.log"
    );
}

fn reset<C>() -> ConnectAttempt<C> {
    ConnectAttempt::Reset(RpcClientError::Connection("reset".to_owned()))
}

#[test]
fn connections_count_only_while_the_socket_stays_the_same() {
    let paths = paths();
    let first = paths.socket_candidate_identity(Ok(Some(socket(1)))).ok().unwrap();
    let second = paths.socket_candidate_identity(Ok(Some(socket(2)))).ok().unwrap();
    let step = |connection, after| {
        socket_connection_step(&paths, connection, first, after)
    };
    assert!(step(SocketConnection::Connected, first).ok().unwrap());
    assert!(!step(SocketConnection::Connected, second).ok().unwrap());
    assert!(!step(SocketConnection::NotFoundOrRefused, first).ok().unwrap());
    assert!(matches!(
        step(SocketConnection::Failed("io".to_owned()), first),
        Err(LocalLaunchError::Spawn { .. })
    ));
    assert!(matches!(
        step(SocketConnection::TimedOut, first),
        Err(LocalLaunchError::StartupTimeout { .. })
    ));
}

#[test]
fn one_broken_handshake_is_forgiven() {
    let paths = paths();
    assert!(matches!(
        handshake_step(&paths, Some(Ok(4))),
        Ok(ConnectAttempt::Connected(4))
    ));
    assert!(matches!(
        handshake_step::<()>(&paths, Some(Err(RpcClientError::Connection("reset".to_owned())))),
        Ok(ConnectAttempt::Reset(_))
    ));
    assert!(matches!(
        handshake_step::<()>(&paths, Some(Err(RpcClientError::ConnectionClosed))),
        Err(LocalLaunchError::Rpc(RpcClientError::ConnectionClosed))
    ));
    assert!(matches!(
        handshake_step::<()>(&paths, None),
        Err(LocalLaunchError::StartupTimeout { .. })
    ));
    assert!(matches!(first_attempt_step(ConnectAttempt::Connected(4)), LaunchProgress::Connected(4)));
    assert!(matches!(first_attempt_step::<()>(reset()), LaunchProgress::TakeLock));
    assert!(matches!(locked_attempt_step::<()>(reset()), Err(LocalLaunchError::Rpc(_))));
    assert!(matches!(
        locked_attempt_step::<()>(ConnectAttempt::Absent),
        Ok(LaunchProgress::RemoveStale)
    ));
    let mut wait = BackendWait::new();
    assert!(matches!(wait.attempted::<()>(ConnectAttempt::Absent), Ok(None)));
    assert!(matches!(wait.attempted::<()>(reset()), Ok(None)));
    assert!(matches!(wait.attempted(ConnectAttempt::Connected(4)), Ok(Some(4))));
    assert!(matches!(wait.attempted::<()>(reset()), Err(LocalLaunchError::Rpc(_))));
}

#[test]
fn paths_that_are_no_text_are_shown_with_replacements() {
    let error = LocalPathError::Inspect { path: b"/x\xffy".to_vec(), source: "io".to_owned() };
    assert_eq!(error.message(), "could not inspect local path /x\u{fffd}y: io");
}

#[test]
fn a_backend_is_started_under_the_lock_where_none_is() {
    let absent = || LaunchEvent::Attempted(Ok(ConnectAttempt::<u8>::Absent));
    let launch = Launch::new().advance(absent());
    assert!(matches!(launch, Launch::Locking));
    let launch = launch.advance(LaunchEvent::Locked(Ok(())));
    assert!(matches!(launch, Launch::Rechecking));
    let launch = launch.advance(absent());
    assert!(matches!(launch, Launch::Removing));
    let launch = launch.advance(LaunchEvent::Removed(Ok(true)));
    assert!(matches!(launch, Launch::Spawning));
    let launch = launch.advance(LaunchEvent::Spawned(Ok(())));
    assert!(matches!(launch, Launch::Waiting(_)));
    let launch = launch.advance(absent());
    let launch = launch.advance(LaunchEvent::Attempted(Ok(ConnectAttempt::Connected(4))));
    assert!(matches!(launch, Launch::Finished(Ok(4))));
}

#[test]
fn a_socket_of_another_backend_is_waited_for() {
    let launch = Launch::<u8>::Removing.advance(LaunchEvent::Removed(Ok(false)));
    assert!(matches!(launch, Launch::Waiting(BackendWait { observed_reset: false })));
    let launch = launch.advance(LaunchEvent::Attempted(Ok(reset())));
    let launch = launch.advance(LaunchEvent::Attempted(Ok(reset())));
    assert!(matches!(launch, Launch::Finished(Err(LocalLaunchError::Rpc(_)))));
}
