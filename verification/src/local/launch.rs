//! Finding the local backend, or starting it.
//!
//! The caller connects, locks, removes and starts; the decisions are here.

use vstd::prelude::*;

use super::paths::{around, FileFacts, LocalPathError, LocalPaths, PathsView, SocketCandidateIdentity};
use crate::rpc::client::RpcClientError;
use crate::snapshot::duplicate_bytes;
use crate::text::{text_from_utf8_lossy, utf8_lossy};

verus! {

/// The milliseconds that a connection or the startup lock may take.
pub const CONNECT_TIMEOUT_MILLISECONDS: u64 = 5000;

/// The milliseconds between two attempts.
pub const RETRY_INTERVAL_MILLISECONDS: u64 = 25;

/// A command that starts a detached process.
#[derive(Debug)]
pub struct DetachedCommand {
    pub program: Vec<u8>,
    pub arguments: Vec<Vec<u8>>,
    pub environment: Vec<(Vec<u8>, Vec<u8>)>,
}

/// How the backend is started: by a detached process, or by `I` in its place.
pub struct BackendCommand<I> {
    pub kind: BackendCommandKind<I>,
}

/// The two ways to start the backend.
pub enum BackendCommandKind<I> {
    Injected(I),
    Detached(DetachedCommand),
}

impl<I> BackendCommand<I> {
    /// A command that `spawn` stands in for.
    pub fn injected(spawn: I) -> (command: Self)
        ensures
            command.kind == BackendCommandKind::Injected(spawn),
    {
        BackendCommand { kind: BackendCommandKind::Injected(spawn) }
    }

    /// A command that starts a program without arguments.
    pub fn detached(program: Vec<u8>) -> (command: Self)
        ensures
            match command.kind {
                BackendCommandKind::Detached(detached) => detached.program == program
                    && detached.arguments@.len() == 0 && detached.environment@.len() == 0,
                BackendCommandKind::Injected(_) => false,
            },
    {
        BackendCommand {
            kind: BackendCommandKind::Detached(
                DetachedCommand {
                    program,
                    arguments: Vec::new(),
                    environment: Vec::new(),
                },
            ),
        }
    }

    /// The command with more arguments; an injected one has none.
    pub fn args(self, arguments: Vec<Vec<u8>>) -> (command: Self)
        ensures
            match (self.kind, command.kind) {
                (BackendCommandKind::Detached(before), BackendCommandKind::Detached(after)) => {
                    &&& after.program == before.program
                    &&& after.environment == before.environment
                    &&& after.arguments@ == before.arguments@ + arguments@
                },
                (BackendCommandKind::Injected(before), BackendCommandKind::Injected(after)) => {
                    before == after
                },
                _ => false,
            },
    {
        match self.kind {
            BackendCommandKind::Detached(detached) => {
                let mut all = detached.arguments;
                let mut more = arguments;
                all.append(&mut more);
                BackendCommand {
                    kind: BackendCommandKind::Detached(
                        DetachedCommand {
                            program: detached.program,
                            arguments: all,
                            environment: detached.environment,
                        },
                    ),
                }
            },
            BackendCommandKind::Injected(spawn) => BackendCommand {
                kind: BackendCommandKind::Injected(spawn),
            },
        }
    }

    /// The command with one more environment entry; an injected one has none.
    pub fn env(self, key: Vec<u8>, value: Vec<u8>) -> (command: Self)
        ensures
            match (self.kind, command.kind) {
                (BackendCommandKind::Detached(before), BackendCommandKind::Detached(after)) => {
                    &&& after.program == before.program
                    &&& after.arguments == before.arguments
                    &&& after.environment@ == before.environment@.push((key, value))
                },
                (BackendCommandKind::Injected(before), BackendCommandKind::Injected(after)) => {
                    before == after
                },
                _ => false,
            },
    {
        match self.kind {
            BackendCommandKind::Detached(detached) => {
                let mut all = detached.environment;
                all.push((key, value));
                BackendCommand {
                    kind: BackendCommandKind::Detached(
                        DetachedCommand {
                            program: detached.program,
                            arguments: detached.arguments,
                            environment: all,
                        },
                    ),
                }
            },
            BackendCommandKind::Injected(spawn) => BackendCommand {
                kind: BackendCommandKind::Injected(spawn),
            },
        }
    }

    /// The program of a detached command.
    pub fn program(&self) -> (program: Option<&Vec<u8>>)
        ensures
            match self.kind {
                BackendCommandKind::Detached(detached) => program is Some && *program->0
                    == detached.program,
                BackendCommandKind::Injected(_) => program is None,
            },
    {
        match &self.kind {
            BackendCommandKind::Detached(detached) => Some(&detached.program),
            BackendCommandKind::Injected(_) => None,
        }
    }

    /// The arguments of a detached command.
    pub fn arguments(&self) -> (arguments: Option<&Vec<Vec<u8>>>)
        ensures
            match self.kind {
                BackendCommandKind::Detached(detached) => arguments is Some && *arguments->0
                    == detached.arguments,
                BackendCommandKind::Injected(_) => arguments is None,
            },
    {
        match &self.kind {
            BackendCommandKind::Detached(detached) => Some(&detached.arguments),
            BackendCommandKind::Injected(_) => None,
        }
    }
}

/// Why no backend could be reached. A source is the description of a system error.
#[derive(Debug)]
pub enum LocalLaunchError {
    /// A path was not trusted or could not be prepared.
    Endpoint(LocalPathError),
    /// The startup lock could not be opened or acquired.
    StartupLock { path: Vec<u8>, source: String },
    /// A stale socket could not be removed.
    RemoveStaleSocket { path: Vec<u8>, source: String },
    /// The backend could not be started.
    Spawn { socket: Vec<u8>, lock: Vec<u8>, log: Vec<u8>, source: String },
    /// The backend was not ready in time.
    StartupTimeout { socket: Vec<u8>, lock: Vec<u8>, log: Vec<u8> },
    /// A connected backend did not complete the handshake.
    Rpc(RpcClientError),
}

/// The words on the startup lock and the log.
pub open spec fn lock_and_log(lock: Seq<u8>, log: Seq<u8>) -> Seq<char> {
    around("; startup lock "@, lock, around("; diagnostic log "@, log, Seq::empty()))
}

impl LocalLaunchError {
    /// The description of an error.
    pub open spec fn description(self) -> Seq<char> {
        match self {
            LocalLaunchError::Endpoint(error) => error.description(),
            LocalLaunchError::StartupLock { path, source } => around(
                "could not acquire local backend startup lock "@,
                path@,
                ": "@ + source@,
            ),
            LocalLaunchError::RemoveStaleSocket { path, source } => around(
                "could not remove stale local backend socket "@,
                path@,
                ": "@ + source@,
            ),
            LocalLaunchError::Spawn { socket, lock, log, .. } => around(
                "could not start local backend for socket "@,
                socket@,
                lock_and_log(lock@, log@),
            ),
            LocalLaunchError::StartupTimeout { socket, lock, log } => around(
                "local backend did not become ready at "@,
                socket@,
                " within five seconds"@ + lock_and_log(lock@, log@),
            ),
            LocalLaunchError::Rpc(error) => error.description(),
        }
    }

    /// Describes the error.
    pub fn message(&self) -> (text: String)
        ensures
            text@ == self.description(),
    {
        let mut text = String::new();
        match self {
            LocalLaunchError::Endpoint(error) => {
                return error.message();
            },
            LocalLaunchError::StartupLock { path, source } => {
                text.push_str("could not acquire local backend startup lock ");
                push_path(&mut text, path);
                text.push_str(": ");
                text.push_str(source);
            },
            LocalLaunchError::RemoveStaleSocket { path, source } => {
                text.push_str("could not remove stale local backend socket ");
                push_path(&mut text, path);
                text.push_str(": ");
                text.push_str(source);
            },
            LocalLaunchError::Spawn { socket, lock, log, .. } => {
                text.push_str("could not start local backend for socket ");
                push_path(&mut text, socket);
                text.push_str("; startup lock ");
                push_path(&mut text, lock);
                text.push_str("; diagnostic log ");
                push_path(&mut text, log);
            },
            LocalLaunchError::StartupTimeout { socket, lock, log } => {
                text.push_str("local backend did not become ready at ");
                push_path(&mut text, socket);
                text.push_str(" within five seconds");
                text.push_str("; startup lock ");
                push_path(&mut text, lock);
                text.push_str("; diagnostic log ");
                push_path(&mut text, log);
            },
            LocalLaunchError::Rpc(error) => {
                return error.message();
            },
        }
        assert(text@ =~= self.description());
        text
    }
}

fn push_path(text: &mut String, path: &Vec<u8>)
    ensures
        final(text)@ == old(text)@ + utf8_lossy(path@),
{
    let shown = text_from_utf8_lossy(path.as_slice());
    text.push_str(&shown);
}

/// An error that names the socket, the lock and the log of some paths.
pub open spec fn is_spawn_error(error: LocalLaunchError, paths: PathsView, source: String) -> bool {
    match error {
        LocalLaunchError::Spawn { socket, lock, log, source: shown } => socket@
            == paths.socket_path && lock@ == paths.spawn_lock_path && log@ == paths.server_log_path
            && shown == source,
        _ => false,
    }
}

/// A timeout that names the socket, the lock and the log of some paths.
pub open spec fn is_timeout(error: LocalLaunchError, paths: PathsView) -> bool {
    match error {
        LocalLaunchError::StartupTimeout { socket, lock, log } => socket@ == paths.socket_path
            && lock@ == paths.spawn_lock_path && log@ == paths.server_log_path,
        _ => false,
    }
}

/// The error of a backend that could not be started.
pub fn spawn_error(paths: &LocalPaths, source: String) -> (error: LocalLaunchError)
    ensures
        is_spawn_error(error, paths.paths(), source),
{
    LocalLaunchError::Spawn {
        socket: duplicate_bytes(paths.socket_path()),
        lock: duplicate_bytes(paths.spawn_lock_path()),
        log: duplicate_bytes(paths.server_log_path()),
        source,
    }
}

/// The error of a backend that was not ready in time.
pub fn startup_timeout(paths: &LocalPaths) -> (error: LocalLaunchError)
    ensures
        is_timeout(error, paths.paths()),
{
    LocalLaunchError::StartupTimeout {
        socket: duplicate_bytes(paths.socket_path()),
        lock: duplicate_bytes(paths.spawn_lock_path()),
        log: duplicate_bytes(paths.server_log_path()),
    }
}

/// What became of an attempt to lock.
#[derive(Debug)]
pub enum LockAttempt {
    Locked,
    WouldBlock,
    Failed(String),
}

/// What to do about the startup lock.
#[derive(Clone, Copy, Debug, PartialEq, Eq, Structural)]
pub enum LockStep {
    Acquired,
    /// Try again after [`RETRY_INTERVAL_MILLISECONDS`].
    Retry,
}

/// Decides on an attempt to lock; `expired` tells whether the time is up.
pub fn startup_lock_step(paths: &LocalPaths, attempt: LockAttempt, expired: bool) -> (result: Result<
    LockStep,
    LocalLaunchError,
>)
    ensures
        match attempt {
            LockAttempt::Locked => result == Ok::<LockStep, LocalLaunchError>(LockStep::Acquired),
            LockAttempt::WouldBlock => if expired {
                result is Err && is_timeout(result->Err_0, paths.paths())
            } else {
                result == Ok::<LockStep, LocalLaunchError>(LockStep::Retry)
            },
            LockAttempt::Failed(source) => match result {
                Err(LocalLaunchError::StartupLock { path, source: shown }) => path@
                    == paths.paths().spawn_lock_path && shown == source,
                _ => false,
            },
        },
{
    match attempt {
        LockAttempt::Locked => Ok(LockStep::Acquired),
        LockAttempt::WouldBlock => {
            if expired {
                Err(startup_timeout(paths))
            } else {
                Ok(LockStep::Retry)
            }
        },
        LockAttempt::Failed(source) => Err(
            LocalLaunchError::StartupLock {
                path: duplicate_bytes(paths.spawn_lock_path()),
                source,
            },
        ),
    }
}

/// What became of connecting to the socket.
#[derive(Debug)]
pub enum SocketConnection {
    Connected,
    /// Nothing listens there.
    NotFoundOrRefused,
    Failed(String),
    TimedOut,
}

/// Whether to go on with a connection: the socket must still be the one that was checked before.
/// `false` is an absent backend.
pub fn socket_connection_step(
    paths: &LocalPaths,
    connection: SocketConnection,
    before: Option<SocketCandidateIdentity>,
    after: Option<SocketCandidateIdentity>,
) -> (result: Result<bool, LocalLaunchError>)
    ensures
        match connection {
            SocketConnection::Connected => result == Ok::<bool, LocalLaunchError>(before == after),
            SocketConnection::NotFoundOrRefused => result == Ok::<bool, LocalLaunchError>(false),
            SocketConnection::Failed(source) => result is Err && is_spawn_error(
                result->Err_0,
                paths.paths(),
                source,
            ),
            SocketConnection::TimedOut => result is Err && is_timeout(
                result->Err_0,
                paths.paths(),
            ),
        },
{
    match connection {
        SocketConnection::Connected => Ok(same_identity(before, after)),
        SocketConnection::NotFoundOrRefused => Ok(false),
        SocketConnection::Failed(source) => Err(spawn_error(paths, source)),
        SocketConnection::TimedOut => Err(startup_timeout(paths)),
    }
}

fn same_identity(
    left: Option<SocketCandidateIdentity>,
    right: Option<SocketCandidateIdentity>,
) -> (same: bool)
    ensures
        same == (left == right),
{
    match (left, right) {
        (Some(left), Some(right)) => left == right,
        (None, None) => true,
        _ => false,
    }
}

/// What became of an attempt to reach the backend, with the client `C` of a successful one.
#[derive(Debug)]
pub enum ConnectAttempt<C> {
    Connected(C),
    Absent,
    /// The connection broke during the handshake.
    Reset(RpcClientError),
}

/// What became of the handshake: `None` where the time was up.
pub fn handshake_step<C>(paths: &LocalPaths, handshake: Option<Result<C, RpcClientError>>) -> (result:
    Result<ConnectAttempt<C>, LocalLaunchError>)
    ensures
        match handshake {
            None => result is Err && is_timeout(result->Err_0, paths.paths()),
            Some(Ok(client)) => result == Ok::<ConnectAttempt<C>, LocalLaunchError>(
                ConnectAttempt::Connected(client),
            ),
            Some(Err(error)) => if error is Connection {
                result == Ok::<ConnectAttempt<C>, LocalLaunchError>(ConnectAttempt::Reset(error))
            } else {
                result == Err::<ConnectAttempt<C>, LocalLaunchError>(LocalLaunchError::Rpc(error))
            },
        },
{
    match handshake {
        None => Err(startup_timeout(paths)),
        Some(Ok(client)) => Ok(ConnectAttempt::Connected(client)),
        Some(Err(error)) => {
            let reset = match &error {
                RpcClientError::Connection(_) => true,
                _ => false,
            };
            if reset {
                Ok(ConnectAttempt::Reset(error))
            } else {
                Err(LocalLaunchError::Rpc(error))
            }
        },
    }
}

/// How a launch goes on.
#[derive(Debug)]
pub enum LaunchProgress<C> {
    Connected(C),
    /// Take the startup lock and try again.
    TakeLock,
    /// Remove a stale socket, then start the backend.
    RemoveStale,
    /// Start the backend and wait for it.
    Spawn,
    /// Wait for the backend that someone else started.
    Wait,
}

/// Decides on the first attempt, made without the lock.
pub fn first_attempt_step<C>(attempt: ConnectAttempt<C>) -> (progress: LaunchProgress<C>)
    ensures
        progress == match attempt {
            ConnectAttempt::Connected(client) => LaunchProgress::Connected(client),
            _ => LaunchProgress::TakeLock,
        },
{
    match attempt {
        ConnectAttempt::Connected(client) => LaunchProgress::Connected(client),
        _ => LaunchProgress::TakeLock,
    }
}

/// Decides on the attempt made under the lock.
pub fn locked_attempt_step<C>(attempt: ConnectAttempt<C>) -> (result: Result<
    LaunchProgress<C>,
    LocalLaunchError,
>)
    ensures
        result == match attempt {
            ConnectAttempt::Connected(client) => Ok::<LaunchProgress<C>, LocalLaunchError>(
                LaunchProgress::Connected(client),
            ),
            ConnectAttempt::Reset(error) => Err(LocalLaunchError::Rpc(error)),
            ConnectAttempt::Absent => Ok(LaunchProgress::RemoveStale),
        },
{
    match attempt {
        ConnectAttempt::Connected(client) => Ok(LaunchProgress::Connected(client)),
        ConnectAttempt::Reset(error) => Err(LocalLaunchError::Rpc(error)),
        ConnectAttempt::Absent => Ok(LaunchProgress::RemoveStale),
    }
}

/// What to do about the socket that is there.
#[derive(Clone, Copy, Debug, PartialEq, Eq, Structural)]
pub enum StaleStep {
    /// Nothing is in the way.
    Gone,
    /// Another backend put its socket there.
    Replaced,
    /// It may be the stale one: look at it once more.
    Recheck,
}

/// Decides on the socket: only the very one seen before anything was attempted may be stale.
pub fn stale_socket_step(
    original: Option<SocketCandidateIdentity>,
    current: Option<SocketCandidateIdentity>,
) -> (step: StaleStep)
    ensures
        step == match (original, current) {
            (_, None) => StaleStep::Gone,
            (None, Some(_)) => StaleStep::Replaced,
            (Some(original), Some(current)) => if original == current {
                StaleStep::Recheck
            } else {
                StaleStep::Replaced
            },
        },
{
    match (original, current) {
        (_, None) => StaleStep::Gone,
        (None, Some(_)) => StaleStep::Replaced,
        (Some(original), Some(current)) => {
            if original == current {
                StaleStep::Recheck
            } else {
                StaleStep::Replaced
            }
        },
    }
}

/// Whether the socket may be removed: it still is the file that was seen before.
pub fn may_remove_socket(original: SocketCandidateIdentity, facts: FileFacts) -> (remove: bool)
    ensures
        remove == (facts.device == original.device && facts.inode == original.inode),
{
    facts.device == original.device && facts.inode == original.inode
}

/// How a launch goes on after the stale socket: the backend is started only where nothing is in
/// the way.
pub fn stale_result_step<C>(removed: bool) -> (progress: LaunchProgress<C>)
    ensures
        progress == if removed {
            LaunchProgress::<C>::Spawn
        } else {
            LaunchProgress::<C>::Wait
        },
{
    if removed {
        LaunchProgress::Spawn
    } else {
        LaunchProgress::Wait
    }
}

/// Waits for a backend that was started.
#[derive(Clone, Copy, Debug, PartialEq, Eq, Structural)]
pub struct BackendWait {
    /// A connection broke during the handshake once.
    pub observed_reset: bool,
}

impl BackendWait {
    /// A wait that has seen nothing.
    pub fn new() -> (wait: Self)
        ensures
            !wait.observed_reset,
    {
        BackendWait { observed_reset: false }
    }

    /// Decides on an attempt: `None` is to try again. One broken handshake is forgiven.
    pub fn attempted<C>(&mut self, attempt: ConnectAttempt<C>) -> (result: Result<
        Option<C>,
        LocalLaunchError,
    >)
        ensures
            match attempt {
                ConnectAttempt::Connected(client) => result == Ok::<Option<C>, LocalLaunchError>(
                    Some(client),
                ) && *final(self) == *old(self),
                ConnectAttempt::Absent => result == Ok::<Option<C>, LocalLaunchError>(None)
                    && *final(self) == *old(self),
                ConnectAttempt::Reset(error) => if old(self).observed_reset {
                    result == Err::<Option<C>, LocalLaunchError>(LocalLaunchError::Rpc(error))
                        && *final(self) == *old(self)
                } else {
                    result == Ok::<Option<C>, LocalLaunchError>(None) && final(self).observed_reset
                },
            },
    {
        match attempt {
            ConnectAttempt::Connected(client) => Ok(Some(client)),
            ConnectAttempt::Absent => Ok(None),
            ConnectAttempt::Reset(error) => {
                if self.observed_reset {
                    Err(LocalLaunchError::Rpc(error))
                } else {
                    self.observed_reset = true;
                    Ok(None)
                }
            },
        }
    }
}

/// A launch, by what it waits for.
#[derive(Debug)]
pub enum Launch<C> {
    /// An attempt to reach a backend, without the lock.
    Connecting,
    /// The startup lock.
    Locking,
    /// Another attempt, under the lock.
    Rechecking,
    /// The removal of a stale socket.
    Removing,
    /// The start of a backend.
    Spawning,
    /// An attempt to reach a backend that was started.
    Waiting(BackendWait),
    /// Nothing any more.
    Finished(Result<C, LocalLaunchError>),
}

/// What a launch waited for.
#[derive(Debug)]
pub enum LaunchEvent<C> {
    Attempted(Result<ConnectAttempt<C>, LocalLaunchError>),
    Locked(Result<(), LocalLaunchError>),
    /// Whether nothing is in the way any more.
    Removed(Result<bool, LocalLaunchError>),
    Spawned(Result<(), LocalLaunchError>),
}

/// An event is the one that a launch waits for.
pub open spec fn is_awaited<C>(launch: Launch<C>, event: LaunchEvent<C>) -> bool {
    match launch {
        Launch::Connecting => event is Attempted,
        Launch::Locking => event is Locked,
        Launch::Rechecking => event is Attempted,
        Launch::Removing => event is Removed,
        Launch::Spawning => event is Spawned,
        Launch::Waiting(_) => event is Attempted,
        Launch::Finished(_) => false,
    }
}

impl<C> Launch<C> {
    /// What follows an event: a backend is started only under the lock, where none was reached and
    /// nothing is in the way.
    pub open spec fn after(self, event: LaunchEvent<C>) -> Launch<C> {
        match (self, event) {
            (_, LaunchEvent::Attempted(Err(error))) => Launch::Finished(Err(error)),
            (_, LaunchEvent::Attempted(Ok(ConnectAttempt::Connected(client)))) => Launch::Finished(
                Ok(client),
            ),
            (Launch::Connecting, LaunchEvent::Attempted(Ok(_))) => Launch::Locking,
            (Launch::Rechecking, LaunchEvent::Attempted(Ok(ConnectAttempt::Absent))) => {
                Launch::Removing
            },
            (Launch::Rechecking, LaunchEvent::Attempted(Ok(ConnectAttempt::Reset(error)))) => {
                Launch::Finished(Err(LocalLaunchError::Rpc(error)))
            },
            (Launch::Waiting(wait), LaunchEvent::Attempted(Ok(ConnectAttempt::Absent))) => {
                Launch::Waiting(wait)
            },
            (Launch::Waiting(wait), LaunchEvent::Attempted(Ok(ConnectAttempt::Reset(error)))) => {
                if wait.observed_reset {
                    Launch::Finished(Err(LocalLaunchError::Rpc(error)))
                } else {
                    Launch::Waiting(BackendWait { observed_reset: true })
                }
            },
            (Launch::Locking, LaunchEvent::Locked(Ok(_))) => Launch::Rechecking,
            (Launch::Locking, LaunchEvent::Locked(Err(error))) => Launch::Finished(Err(error)),
            (Launch::Removing, LaunchEvent::Removed(Ok(removed))) => if removed {
                Launch::Spawning
            } else {
                Launch::Waiting(BackendWait { observed_reset: false })
            },
            (Launch::Removing, LaunchEvent::Removed(Err(error))) => Launch::Finished(Err(error)),
            (Launch::Spawning, LaunchEvent::Spawned(Ok(_))) => Launch::Waiting(
                BackendWait { observed_reset: false },
            ),
            (Launch::Spawning, LaunchEvent::Spawned(Err(error))) => Launch::Finished(Err(error)),
            (launch, _) => launch,
        }
    }

    /// Begins a launch.
    pub fn new() -> (launch: Self)
        ensures
            launch is Connecting,
    {
        Launch::Connecting
    }

    /// Goes on with an event.
    pub fn advance(self, event: LaunchEvent<C>) -> (next: Launch<C>)
        requires
            is_awaited(self, event),
        ensures
            next == self.after(event),
    {
        match (self, event) {
            (Launch::Connecting, LaunchEvent::Attempted(Ok(attempt))) => {
                match first_attempt_step(attempt) {
                    LaunchProgress::Connected(client) => Launch::Finished(Ok(client)),
                    _ => Launch::Locking,
                }
            },
            (Launch::Rechecking, LaunchEvent::Attempted(Ok(attempt))) => {
                match locked_attempt_step(attempt) {
                    Ok(LaunchProgress::Connected(client)) => Launch::Finished(Ok(client)),
                    Ok(_) => Launch::Removing,
                    Err(error) => Launch::Finished(Err(error)),
                }
            },
            (Launch::Waiting(wait), LaunchEvent::Attempted(Ok(attempt))) => {
                let mut wait = wait;
                match wait.attempted(attempt) {
                    Ok(Some(client)) => Launch::Finished(Ok(client)),
                    Ok(None) => Launch::Waiting(wait),
                    Err(error) => Launch::Finished(Err(error)),
                }
            },
            (_, LaunchEvent::Attempted(Err(error))) => Launch::Finished(Err(error)),
            (Launch::Locking, LaunchEvent::Locked(Ok(_))) => Launch::Rechecking,
            (Launch::Locking, LaunchEvent::Locked(Err(error))) => Launch::Finished(Err(error)),
            (Launch::Removing, LaunchEvent::Removed(Ok(removed))) => {
                match stale_result_step::<C>(removed) {
                    LaunchProgress::Spawn => Launch::Spawning,
                    _ => Launch::Waiting(BackendWait::new()),
                }
            },
            (Launch::Removing, LaunchEvent::Removed(Err(error))) => Launch::Finished(Err(error)),
            (Launch::Spawning, LaunchEvent::Spawned(Ok(_))) => Launch::Waiting(BackendWait::new()),
            (Launch::Spawning, LaunchEvent::Spawned(Err(error))) => Launch::Finished(Err(error)),
            (launch, _) => launch,
        }
    }
}

/// A launch after several events.
pub open spec fn launched<C>(events: Seq<LaunchEvent<C>>) -> Launch<C>
    decreases events.len(),
{
    if events.len() == 0 {
        Launch::Connecting
    } else {
        launched(events.drop_last()).after(events.last())
    }
}

/// The events that a launch waited for, one after the other.
pub open spec fn are_awaited<C>(events: Seq<LaunchEvent<C>>) -> bool {
    forall|i: int|
        0 <= i < events.len() ==> #[trigger] is_awaited(launched(events.take(i)), events[i])
}

/// The startup lock was taken among some events.
pub open spec fn took_lock<C>(events: Seq<LaunchEvent<C>>) -> bool {
    exists|i: int|
        0 <= i < events.len() && (#[trigger] events[i]) is Locked && events[i]->Locked_0 is Ok
}

/// A backend is started, and a stale socket removed, only once the startup lock was taken.
pub proof fn lemma_backends_start_under_the_lock<C>(events: Seq<LaunchEvent<C>>)
    requires
        are_awaited(events),
    ensures
        launched(events) is Spawning || launched(events) is Removing || launched(
            events,
        ) is Rechecking || launched(events) is Waiting ==> took_lock(events),
    decreases events.len(),
{
    if events.len() > 0 {
        let before = events.drop_last();
        assert(events.take(events.len() - 1) =~= before);
        assert(is_awaited(launched(events.take(events.len() - 1)), events[events.len() - 1]));
        assert forall|i: int| 0 <= i < before.len() implies #[trigger] is_awaited(
            launched(before.take(i)),
            before[i],
        ) by {
            assert(before.take(i) =~= events.take(i));
            assert(is_awaited(launched(events.take(i)), events[i]));
        }
        lemma_backends_start_under_the_lock(before);
        if took_lock(before) {
            let k = choose|k: int|
                0 <= k < before.len() && (#[trigger] before[k]) is Locked && before[k]->Locked_0 is Ok;
            assert(events[k] == before[k]);
        }
        if events.last() is Locked && events.last()->Locked_0 is Ok {
            assert(events[events.len() - 1] is Locked);
        }
    }
}

/// A backend is started only where none was reached under the lock and no socket of another one is
/// in the way.
pub proof fn lemma_backends_start_where_none_is<C>(launch: Launch<C>, event: LaunchEvent<C>)
    requires
        is_awaited(launch, event),
    ensures
        launch.after(event) is Spawning ==> launch is Removing && event
            == LaunchEvent::<C>::Removed(Ok(true)),
        launch.after(event) is Removing ==> launch is Rechecking && event
            == LaunchEvent::<C>::Attempted(Ok(ConnectAttempt::Absent)),
{
}

/// A backend that answers is used, under the lock or not; a failure that is not only an absence
/// ends the launch. One connection that breaks while a backend starts is forgiven, a second is not.
pub proof fn lemma_launches_use_what_answers()
    ensures
        forall|launch: Launch<u64>, event: LaunchEvent<u64>, next: Launch<u64>| #[trigger]
            call_ensures(Launch::<u64>::advance, (launch, event), next) && is_awaited(launch, event)
                ==> {
                let attempt = event->Attempted_0->Ok_0;
                &&& event is Attempted && event->Attempted_0 is Ok && attempt is Connected ==> next
                    == Launch::Finished(Ok::<u64, LocalLaunchError>(attempt->Connected_0))
                &&& event is Attempted && event->Attempted_0 is Err ==> next == Launch::Finished(
                    Err::<u64, LocalLaunchError>(event->Attempted_0->Err_0),
                )
                &&& event is Attempted && event->Attempted_0 is Ok && attempt is Absent ==> {
                    &&& launch is Connecting ==> next is Locking
                    &&& launch is Rechecking ==> next is Removing
                    &&& launch is Waiting ==> next == launch
                }
                &&& event is Attempted && event->Attempted_0 is Ok && attempt is Reset ==> {
                    &&& launch is Connecting ==> next is Locking
                    &&& launch is Rechecking ==> next is Finished && next->Finished_0 is Err
                    &&& launch is Waiting && !launch->Waiting_0.observed_reset ==> next is Waiting
                        && next->Waiting_0.observed_reset
                    &&& launch is Waiting && launch->Waiting_0.observed_reset ==> next
                        == Launch::Finished(
                        Err::<u64, LocalLaunchError>(LocalLaunchError::Rpc(attempt->Reset_0)),
                    )
                }
                &&& event is Locked && event->Locked_0 is Ok ==> next is Rechecking
                &&& event is Removed && event->Removed_0 is Ok ==> (next is Spawning
                    <==> event->Removed_0->Ok_0) && (next is Waiting <==> !event->Removed_0->Ok_0)
                &&& event is Spawned && event->Spawned_0 is Ok ==> next is Waiting
                    && !next->Waiting_0.observed_reset
                &&& event is Locked && event->Locked_0 is Err ==> next == Launch::Finished(
                    Err::<u64, LocalLaunchError>(event->Locked_0->Err_0),
                )
                &&& event is Removed && event->Removed_0 is Err ==> next == Launch::Finished(
                    Err::<u64, LocalLaunchError>(event->Removed_0->Err_0),
                )
                &&& event is Spawned && event->Spawned_0 is Err ==> next == Launch::Finished(
                    Err::<u64, LocalLaunchError>(event->Spawned_0->Err_0),
                )
                &&& next is Finished && next->Finished_0 is Ok ==> event is Attempted
            },
{
}

/// A connection counts only where the socket stayed the same file; a socket is only removed where
/// it still is the stale one, and what took its place is never.
pub proof fn lemma_other_sockets_are_left_alone()
    ensures
        forall|
            paths: &LocalPaths,
            connection: SocketConnection,
            before: Option<SocketCandidateIdentity>,
            after: Option<SocketCandidateIdentity>,
            result: Result<bool, LocalLaunchError>,
        | #[trigger]
            call_ensures(socket_connection_step, (paths, connection, before, after), result) ==> {
                &&& result == Ok::<bool, LocalLaunchError>(true) <==> connection is Connected
                    && before == after
                &&& result is Err <==> connection is Failed || connection is TimedOut
                &&& connection is TimedOut ==> result->Err_0 is StartupTimeout
                &&& connection is Failed ==> result->Err_0 is Spawn && result->Err_0->Spawn_source
                    == connection->Failed_0
            },
        forall|
            original: Option<SocketCandidateIdentity>,
            current: Option<SocketCandidateIdentity>,
            step: StaleStep,
        | #[trigger]
            call_ensures(stale_socket_step, (original, current), step) ==> {
                &&& step is Gone <==> current is None
                &&& step is Recheck <==> current is Some && original == current
                &&& step is Replaced <==> current is Some && original != current
            },
        forall|original: SocketCandidateIdentity, facts: FileFacts, remove: bool| #[trigger]
            call_ensures(may_remove_socket, (original, facts), remove) ==> (remove <==> facts.device
                == original.device && facts.inode == original.inode),
        forall|paths: &LocalPaths, attempt: LockAttempt, expired: bool, result: Result<
            LockStep,
            LocalLaunchError,
        >| #[trigger]
            call_ensures(startup_lock_step, (paths, attempt, expired), result) ==> {
                &&& result == Ok::<LockStep, LocalLaunchError>(LockStep::Acquired)
                    <==> attempt is Locked
                &&& result == Ok::<LockStep, LocalLaunchError>(LockStep::Retry)
                    <==> attempt is WouldBlock && !expired
                &&& attempt is WouldBlock && expired ==> result->Err_0 is StartupTimeout
                &&& attempt is Failed ==> result->Err_0 is StartupLock
                    && result->Err_0->StartupLock_source == attempt->Failed_0
            },
        forall|
            paths: &LocalPaths,
            handshake: Option<Result<u64, RpcClientError>>,
            result: Result<ConnectAttempt<u64>, LocalLaunchError>,
        | #[trigger]
            call_ensures(handshake_step::<u64>, (paths, handshake), result) ==> {
                &&& handshake is None ==> result is Err && result->Err_0 is StartupTimeout
                &&& handshake is Some && handshake->0 is Ok ==> result == Ok::<
                    ConnectAttempt<u64>,
                    LocalLaunchError,
                >(ConnectAttempt::Connected(handshake->0->Ok_0))
                &&& handshake is Some && handshake->0 is Err && handshake->0->Err_0 is Connection
                    ==> result == Ok::<ConnectAttempt<u64>, LocalLaunchError>(
                    ConnectAttempt::Reset(handshake->0->Err_0),
                )
                &&& handshake is Some && handshake->0 is Err && !(
                handshake->0->Err_0 is Connection) ==> result == Err::<
                    ConnectAttempt<u64>,
                    LocalLaunchError,
                >(LocalLaunchError::Rpc(handshake->0->Err_0))
            },
{
}

/// A command keeps its program, and takes arguments and variables in the order in which they are
/// given.
pub proof fn lemma_commands_are_built_in_order()
    ensures
        forall|program: Vec<u8>, command: BackendCommand<u64>| #[trigger]
            call_ensures(BackendCommand::<u64>::detached, (program,), command)
                ==> command.kind is Detached && command.kind->Detached_0.program == program
                && command.kind->Detached_0.arguments@.len() == 0,
        forall|command: BackendCommand<u64>, arguments: Vec<Vec<u8>>, next: BackendCommand<u64>|
         #[trigger]
            call_ensures(BackendCommand::<u64>::args, (command, arguments), next)
                && command.kind is Detached ==> next.kind is Detached
                && next.kind->Detached_0.program == command.kind->Detached_0.program
                && next.kind->Detached_0.arguments@ == command.kind->Detached_0.arguments@
                + arguments@,
        forall|command: BackendCommand<u64>, key: Vec<u8>, value: Vec<u8>, next: BackendCommand<u64>|
         #[trigger]
            call_ensures(BackendCommand::<u64>::env, (command, key, value), next)
                && command.kind is Detached ==> next.kind is Detached
                && next.kind->Detached_0.arguments == command.kind->Detached_0.arguments
                && next.kind->Detached_0.environment@
                == command.kind->Detached_0.environment@.push((key, value)),
        forall|spawn: u64, command: BackendCommand<u64>| #[trigger]
            call_ensures(BackendCommand::<u64>::injected, (spawn,), command) ==> command.kind
                == BackendCommandKind::<u64>::Injected(spawn),
        forall|removed: bool, progress: LaunchProgress<u64>| #[trigger]
            call_ensures(stale_result_step::<u64>, (removed,), progress) ==> (progress is Spawn
                <==> removed) && (progress is Wait <==> !removed),
        forall|wait: &mut BackendWait, attempt: ConnectAttempt<u64>, result: Result<
            Option<u64>,
            LocalLaunchError,
        >| #[trigger]
            call_ensures(BackendWait::attempted::<u64>, (wait, attempt), result) ==> {
                &&& attempt is Connected ==> result == Ok::<Option<u64>, LocalLaunchError>(
                    Some(attempt->Connected_0),
                )
                &&& attempt is Absent ==> result == Ok::<Option<u64>, LocalLaunchError>(None)
                    && final(wait).observed_reset == wait.observed_reset
                &&& attempt is Reset && !wait.observed_reset ==> result == Ok::<
                    Option<u64>,
                    LocalLaunchError,
                >(None) && final(wait).observed_reset
                &&& attempt is Reset && wait.observed_reset ==> result is Err
            },
        forall|paths: &LocalPaths, error: LocalLaunchError| #[trigger]
            call_ensures(startup_timeout, (paths,), error) ==> error is StartupTimeout
                && error->StartupTimeout_socket@ == paths.paths().socket_path
                && error->StartupTimeout_lock@ == paths.paths().spawn_lock_path
                && error->StartupTimeout_log@ == paths.paths().server_log_path,
        forall|paths: &LocalPaths, source: String, error: LocalLaunchError| #[trigger]
            call_ensures(spawn_error, (paths, source), error) ==> error is Spawn
                && error->Spawn_socket@ == paths.paths().socket_path && error->Spawn_lock@
                == paths.paths().spawn_lock_path && error->Spawn_log@
                == paths.paths().server_log_path && error->Spawn_source == source,
{
}

} // verus!
