//! The backend process: accepting clients, stopping when idle, and shutting down in order.
//!
//! The caller accepts, initializes, flushes and joins; what happens next is decided here.

use vstd::prelude::*;

use super::activity::{ActivitySnapshot, IdleDeadline};
use crate::local::config::ServerConfig;
use crate::local::paths::{around, FileFacts, LocalPathError, LocalPaths};
use crate::rpc::server::RpcServerError;
use crate::session::ConnectionId;
use crate::snapshot::duplicate_bytes;
use crate::text::{decimal, decimal_text, text_from_utf8_lossy};

verus! {

/// Why the backend does not stop by itself although it is idle.
#[derive(Clone, Copy, Debug, PartialEq, Eq, Structural)]
pub enum ShutdownVeto {
    /// A session could not be persisted.
    DirtySessions,
}

impl ShutdownVeto {
    /// Describes the veto.
    pub fn message(self) -> (text: &'static str)
        ensures
            text@ == "one or more dirty sessions could not be persisted"@,
    {
        "one or more dirty sessions could not be persisted"
    }
}

/// Whether idle shutdown may go on after every session was flushed.
pub fn flush_for_idle_shutdown(flushed: bool) -> (result: Result<(), ShutdownVeto>)
    ensures
        result == if flushed {
            Ok::<(), ShutdownVeto>(())
        } else {
            Err(ShutdownVeto::DirtySessions)
        },
{
    if flushed {
        Ok(())
    } else {
        Err(ShutdownVeto::DirtySessions)
    }
}

/// No connection identifier is left.
#[derive(Clone, Copy, Debug, PartialEq, Eq, Structural)]
pub struct ConnectionIdExhausted;

/// Numbers the connections of one process.
#[derive(Clone, Copy, Debug, PartialEq, Eq, Structural)]
pub struct ConnectionIdAllocator {
    next: Option<ConnectionId>,
}

impl ConnectionIdAllocator {
    /// The next identifier, `None` once all were given out.
    pub closed spec fn next(&self) -> Option<ConnectionId> {
        self.next
    }

    /// The identifier after another one.
    pub open spec fn successor(id: ConnectionId) -> Option<ConnectionId> {
        if id.0 == u64::MAX {
            None
        } else {
            Some(ConnectionId((id.0 + 1) as u64))
        }
    }

    /// Identifiers from `first` on.
    pub fn starting_at(first: ConnectionId) -> (ids: Self)
        ensures
            ids.next() == Some(first),
    {
        ConnectionIdAllocator { next: Some(first) }
    }

    /// Gives out the next identifier; none is given out twice.
    pub fn allocate(&mut self) -> (result: Result<ConnectionId, ConnectionIdExhausted>)
        ensures
            match old(self).next() {
                Some(id) => result == Ok::<ConnectionId, ConnectionIdExhausted>(id) && final(
                    self).next() == Self::successor(id),
                None => result is Err && final(self).next() is None,
            },
    {
        match self.next {
            Some(id) => {
                self.next = match id.0.checked_add(1) {
                    Some(next) => Some(ConnectionId(next)),
                    None => None,
                };
                Ok(id)
            },
            None => Err(ConnectionIdExhausted),
        }
    }
}

impl Default for ConnectionIdAllocator {
    fn default() -> (ids: Self)
        ensures
            ids.next() == Some(ConnectionId(1)),
    {
        Self::starting_at(ConnectionId(1))
    }
}

/// What a backend process is made of: `F` initializes its runtime, `R` stores its sessions.
pub struct BackendOptions<F, R> {
    pub paths: LocalPaths,
    pub config: ServerConfig,
    pub runtime_factory: F,
    pub repository: R,
}

/// Why the backend stopped without an error.
#[derive(Clone, Copy, Debug, PartialEq, Eq, Structural)]
pub enum ShutdownReason {
    /// Nothing happened for the whole idle timeout.
    Idle,
    /// The process was asked to end.
    Signal,
}

/// Why the backend failed. A text describes the cause.
#[derive(Debug)]
pub enum BackendError {
    Paths(LocalPathError),
    Bind { path: Vec<u8>, source: String },
    SocketPermissions { path: Vec<u8>, source: String },
    RuntimeInitialization { source: String },
    Accept(String),
    RetainConnection(String),
    ConnectionId(ConnectionIdExhausted),
    Connection(RpcServerError<String, String>),
    ConnectionTask(String),
    ManagerShutdown(String),
    ManagerLifecycle(String),
    Signal(String),
    SocketCleanup { path: Vec<u8>, source: String },
}

impl BackendError {
    /// The description of an error; that of a failed initialization says no more than that.
    pub open spec fn description(self) -> Seq<char> {
        match self {
            BackendError::Paths(error) => error.description(),
            BackendError::Bind { path, source } => around(
                "could not bind local backend socket "@,
                path@,
                ": "@ + source@,
            ),
            BackendError::SocketPermissions { path, source } => around(
                "could not restrict local backend socket "@,
                path@,
                " to owner-only access: "@ + source@,
            ),
            BackendError::RuntimeInitialization { .. } => "backend runtime initialization failed"@,
            BackendError::Accept(source) => "could not accept a local backend connection: "@
                + source@,
            BackendError::RetainConnection(source) => {
                "could not retain a local backend connection for orderly shutdown: "@ + source@
            },
            BackendError::ConnectionId(_) => "backend connection identifier space is exhausted"@,
            BackendError::Connection(error) => error.description(),
            BackendError::ConnectionTask(source) => "backend RPC connection task failed: "@
                + source@,
            BackendError::ManagerShutdown(source) => "backend session-manager shutdown failed: "@
                + source@,
            BackendError::ManagerLifecycle(source) => "backend session-manager lifecycle failed: "@
                + source@,
            BackendError::Signal(source) => {
                "could not install backend shutdown signal handling: "@ + source@
            },
            BackendError::SocketCleanup { path, source } => around(
                "could not clean up local backend socket "@,
                path@,
                ": "@ + source@,
            ),
        }
    }

    /// Describes the error.
    pub fn message(&self) -> (text: String)
        ensures
            text@ == self.description(),
    {
        let mut text = String::new();
        match self {
            BackendError::Paths(error) => {
                text = error.message();
            },
            BackendError::Bind { path, source } => {
                let path = text_from_utf8_lossy(path.as_slice());
                text.push_str("could not bind local backend socket ");
                text.push_str(&path);
                text.push_str(": ");
                text.push_str(source);
            },
            BackendError::SocketPermissions { path, source } => {
                let path = text_from_utf8_lossy(path.as_slice());
                text.push_str("could not restrict local backend socket ");
                text.push_str(&path);
                text.push_str(" to owner-only access: ");
                text.push_str(source);
            },
            BackendError::RuntimeInitialization { .. } => {
                text.push_str("backend runtime initialization failed");
            },
            BackendError::Accept(source) => {
                text.push_str("could not accept a local backend connection: ");
                text.push_str(source);
            },
            BackendError::RetainConnection(source) => {
                text.push_str("could not retain a local backend connection for orderly shutdown: ");
                text.push_str(source);
            },
            BackendError::ConnectionId(_) => {
                text.push_str("backend connection identifier space is exhausted");
            },
            BackendError::Connection(error) => {
                text = error.message();
            },
            BackendError::ConnectionTask(source) => {
                text.push_str("backend RPC connection task failed: ");
                text.push_str(source);
            },
            BackendError::ManagerShutdown(source) => {
                text.push_str("backend session-manager shutdown failed: ");
                text.push_str(source);
            },
            BackendError::ManagerLifecycle(source) => {
                text.push_str("backend session-manager lifecycle failed: ");
                text.push_str(source);
            },
            BackendError::Signal(source) => {
                text.push_str("could not install backend shutdown signal handling: ");
                text.push_str(source);
            },
            BackendError::SocketCleanup { path, source } => {
                let path = text_from_utf8_lossy(path.as_slice());
                text.push_str("could not clean up local backend socket ");
                text.push_str(&path);
                text.push_str(": ");
                text.push_str(source);
            },
        }
        assert(text@ =~= self.description());
        text
    }
}

/// What became of a connection's task: its own end, or why it could not be joined.
pub type ConnectionCompletion = Result<Result<(), RpcServerError<String, String>>, String>;

/// The failure of the backend that the end of a connection is: a broken transport is none.
pub open spec fn connection_failure(result: ConnectionCompletion) -> Option<BackendError> {
    match result {
        Ok(Ok(_)) => None,
        Ok(Err(RpcServerError::Rpc(_))) => None,
        Ok(Err(source)) => Some(BackendError::Connection(source)),
        Err(source) => Some(BackendError::ConnectionTask(source)),
    }
}

/// Decides whether the end of a connection is a failure of the backend.
pub fn connection_result(result: ConnectionCompletion) -> (checked: Result<(), BackendError>)
    ensures
        match checked {
            Ok(()) => connection_failure(result) is None,
            Err(error) => connection_failure(result) == Some(error),
        },
{
    match result {
        Ok(Ok(_)) => Ok(()),
        Ok(Err(RpcServerError::Rpc(_))) => Ok(()),
        Ok(Err(source)) => Err(BackendError::Connection(source)),
        Err(source) => Err(BackendError::ConnectionTask(source)),
    }
}

/// Keeps the first error.
pub fn record_first(first: &mut Option<BackendError>, error: BackendError)
    ensures
        *final(first) == match *old(first) {
            Some(kept) => Some(kept),
            None => Some(error),
        },
{
    if first.is_none() {
        *first = Some(error);
    }
}

/// Whether the activity is still the idle one that the deadline was for.
pub fn same_idle_generation(current: ActivitySnapshot, expected: ActivitySnapshot) -> (same: bool)
    ensures
        same == (current == expected && expected.idle()),
{
    current == expected && expected.is_idle()
}

/// How far the backend is in serving.
#[derive(Clone, Copy, Debug, PartialEq, Eq, Structural)]
pub enum ServePhase {
    Serving,
    /// The idle timeout ran out; a waiting client is looked for.
    QueueBeforeFlush(ActivitySnapshot),
    /// Every session is flushed.
    Flushing(ActivitySnapshot),
    /// A waiting client is looked for once more.
    QueueAfterFlush(ActivitySnapshot),
    Stopped,
}

/// Something that happened to the backend.
#[derive(Debug)]
pub enum ServeEvent {
    /// A client connected, or accepting failed.
    Accepted(Result<(), String>),
    /// A connection that was to be retained could not be.
    RetainFailed(String),
    /// The runtime was initialized, or failed to be.
    Initialized(Result<(), String>),
    /// The process was asked to end, or its signals could not be watched.
    Signalled(Result<(), String>),
    /// A connection ended.
    Completed(ConnectionCompletion),
    /// The idle timeout ran out.
    Idle(IdleDeadline),
    /// No client was waiting; the activity at that time.
    QueueEmpty(ActivitySnapshot),
    /// Every session was flushed, or not; the activity at that time.
    Flushed { success: bool, current: ActivitySnapshot },
}

/// What the backend does next.
#[derive(Debug)]
pub enum ServeAction {
    /// Wait for the next event.
    Wait,
    /// Serve the accepted connection under an identifier.
    Retain(ConnectionId),
    /// Serve the accepted connection, and begin the idle timeout anew.
    RetainAndRestartIdle(ConnectionId),
    /// Start the session services and the idle timeout.
    InstallManager,
    /// Accept a client that is waiting already, or tell that none is.
    AcceptQueued,
    Flush,
    RestartIdle,
    /// Make the session services unavailable and shut down.
    Stop(Result<ShutdownReason, BackendError>),
}

/// The state of serving.
pub ghost struct ServeView {
    pub next_id: Option<ConnectionId>,
    pub phase: ServePhase,
}

/// Whether the idle phases go on: the activity is still the idle one of the deadline.
pub open spec fn still_idle(current: ActivitySnapshot, deadline: ActivitySnapshot) -> bool {
    current == deadline && deadline.idle()
}

impl ServeView {
    pub open spec fn at(self, phase: ServePhase) -> ServeView {
        ServeView { phase, ..self }
    }

    /// The state and the action after a client connected.
    pub open spec fn retaining(self) -> (ServeView, ServeAction) {
        match self.next_id {
            None => (
                self.at(ServePhase::Stopped),
                ServeAction::Stop(Err(BackendError::ConnectionId(ConnectionIdExhausted))),
            ),
            Some(id) => (
                ServeView {
                    next_id: ConnectionIdAllocator::successor(id),
                    phase: ServePhase::Serving,
                },
                if self.phase == ServePhase::Serving {
                    ServeAction::Retain(id)
                } else {
                    ServeAction::RetainAndRestartIdle(id)
                },
            ),
        }
    }

    /// The state and the action after an event. Nothing happens once the backend stopped.
    pub open spec fn after(self, event: ServeEvent) -> (ServeView, ServeAction) {
        if self.phase == ServePhase::Stopped {
            (self, ServeAction::Wait)
        } else {
            match event {
                ServeEvent::Accepted(Ok(_)) => self.retaining(),
                ServeEvent::Accepted(Err(source)) => (
                    self.at(ServePhase::Stopped),
                    ServeAction::Stop(Err(BackendError::Accept(source))),
                ),
                ServeEvent::RetainFailed(source) => (
                    self.at(ServePhase::Stopped),
                    ServeAction::Stop(Err(BackendError::RetainConnection(source))),
                ),
                ServeEvent::Initialized(Ok(_)) => (self, ServeAction::InstallManager),
                ServeEvent::Initialized(Err(source)) => (
                    self.at(ServePhase::Stopped),
                    ServeAction::Stop(Err(BackendError::RuntimeInitialization { source })),
                ),
                ServeEvent::Signalled(Ok(_)) => (
                    self.at(ServePhase::Stopped),
                    ServeAction::Stop(Ok(ShutdownReason::Signal)),
                ),
                ServeEvent::Signalled(Err(source)) => (
                    self.at(ServePhase::Stopped),
                    ServeAction::Stop(Err(BackendError::Signal(source))),
                ),
                ServeEvent::Completed(result) => match connection_failure(result) {
                    Some(error) => (
                        self.at(ServePhase::Stopped),
                        ServeAction::Stop(Err(error)),
                    ),
                    None => (self, ServeAction::Wait),
                },
                ServeEvent::Idle(deadline) => (
                    self.at(ServePhase::QueueBeforeFlush(deadline.snapshot)),
                    ServeAction::AcceptQueued,
                ),
                ServeEvent::QueueEmpty(current) => match self.phase {
                    ServePhase::QueueBeforeFlush(deadline) => if still_idle(current, deadline) {
                        (self.at(ServePhase::Flushing(deadline)), ServeAction::Flush)
                    } else {
                        (self.at(ServePhase::Serving), ServeAction::RestartIdle)
                    },
                    ServePhase::QueueAfterFlush(_) => (
                        self.at(ServePhase::Stopped),
                        ServeAction::Stop(Ok(ShutdownReason::Idle)),
                    ),
                    _ => (self, ServeAction::Wait),
                },
                ServeEvent::Flushed { success, current } => match self.phase {
                    ServePhase::Flushing(deadline) => if success && still_idle(
                        current,
                        deadline,
                    ) {
                        (
                            self.at(ServePhase::QueueAfterFlush(deadline)),
                            ServeAction::AcceptQueued,
                        )
                    } else {
                        (self.at(ServePhase::Serving), ServeAction::RestartIdle)
                    },
                    _ => (self, ServeAction::Wait),
                },
            }
        }
    }

    /// The state after some events.
    pub open spec fn after_all(self, events: Seq<ServeEvent>) -> ServeView
        decreases events.len(),
    {
        if events.len() == 0 {
            self
        } else {
            self.after_all(events.drop_last()).after(events.last()).0
        }
    }
}

/// The backend stops by itself only after a flush that succeeded, at an idle activity that did not
/// change over the flush, and with no client waiting.
pub proof fn lemma_idle_stop_is_flushed_and_unchanged(state: ServeView, event: ServeEvent)
    requires
        state.after(event).1 == ServeAction::Stop(Ok(ShutdownReason::Idle)),
    ensures
        state.phase is QueueAfterFlush,
        event is QueueEmpty,
{
}

/// The last look for a waiting client comes only from a flush that succeeded at the unchanged idle
/// activity of the deadline.
pub proof fn lemma_last_look_follows_the_flush(
    state: ServeView,
    event: ServeEvent,
    deadline: ActivitySnapshot,
)
    requires
        !(state.phase is QueueAfterFlush),
        state.after(event).0.phase == ServePhase::QueueAfterFlush(deadline),
    ensures
        state.phase == ServePhase::Flushing(deadline),
        match event {
            ServeEvent::Flushed { success, current } => success && current == deadline
                && deadline.idle(),
            _ => false,
        },
{
}

/// A flush begins only at the unchanged idle activity of a deadline, with no client waiting.
pub proof fn lemma_flush_follows_an_idle_deadline(
    state: ServeView,
    event: ServeEvent,
    deadline: ActivitySnapshot,
)
    requires
        !(state.phase is Flushing),
        state.after(event).0.phase == ServePhase::Flushing(deadline),
    ensures
        state.phase == ServePhase::QueueBeforeFlush(deadline),
        event == ServeEvent::QueueEmpty(deadline),
        deadline.idle(),
{
}

/// A client that connects while the backend is about to stop keeps it running.
pub proof fn lemma_waiting_clients_keep_the_backend(state: ServeView)
    requires
        state.phase != ServePhase::Stopped,
        state.next_id is Some,
    ensures
        state.after(ServeEvent::Accepted(Ok(()))).0.phase == ServePhase::Serving,
        !(state.after(ServeEvent::Accepted(Ok(()))).1 is Stop),
{
}

proof fn lemma_next_id_grows(state: ServeView, events: Seq<ServeEvent>, id: ConnectionId)
    requires
        state.next_id is Some ==> (state.next_id->0).0 > id.0,
    ensures
        state.after_all(events).next_id is Some ==> (state.after_all(events).next_id->0).0 > id.0,
    decreases events.len(),
{
    if events.len() > 0 {
        lemma_next_id_grows(state, events.drop_last(), id);
    }
}

/// No connection identifier is given out twice.
pub proof fn lemma_connection_ids_are_unique(state: ServeView, events: Seq<ServeEvent>)
    requires
        state.phase != ServePhase::Stopped,
        state.next_id is Some,
    ensures
        ({
            let later = state.after(ServeEvent::Accepted(Ok(()))).0.after_all(events);
            later.next_id is Some ==> (later.next_id->0).0 > (state.next_id->0).0
        }),
{
    lemma_next_id_grows(
        state.after(ServeEvent::Accepted(Ok(()))).0,
        events,
        state.next_id->0,
    );
}

/// The backend while it serves.
#[derive(Debug)]
pub struct BackendServe {
    ids: ConnectionIdAllocator,
    phase: ServePhase,
}

impl BackendServe {
    /// The state of serving.
    pub closed spec fn state(&self) -> ServeView {
        ServeView { next_id: self.ids.next(), phase: self.phase }
    }

    /// A backend that has accepted nobody.
    pub fn new() -> (serve: Self)
        ensures
            serve.state() == (ServeView {
                next_id: Some(ConnectionId(1)),
                phase: ServePhase::Serving,
            }),
    {
        BackendServe { ids: ConnectionIdAllocator::default(), phase: ServePhase::Serving }
    }

    fn retain(&mut self) -> (action: ServeAction)
        ensures
            (final(self).state(), action) == old(self).state().retaining(),
    {
        match self.ids.allocate() {
            Ok(id) => {
                let serving = self.phase == ServePhase::Serving;
                self.phase = ServePhase::Serving;
                if serving {
                    ServeAction::Retain(id)
                } else {
                    ServeAction::RetainAndRestartIdle(id)
                }
            },
            Err(error) => {
                self.phase = ServePhase::Stopped;
                ServeAction::Stop(Err(BackendError::ConnectionId(error)))
            },
        }
    }

    fn stop(&mut self, result: Result<ShutdownReason, BackendError>) -> (action: ServeAction)
        ensures
            final(self).state() == old(self).state().at(ServePhase::Stopped),
            action == ServeAction::Stop(result),
    {
        self.phase = ServePhase::Stopped;
        ServeAction::Stop(result)
    }

    /// Takes an event and decides what to do.
    pub fn handle(&mut self, event: ServeEvent) -> (action: ServeAction)
        ensures
            (final(self).state(), action) == old(self).state().after(event),
    {
        if self.phase == ServePhase::Stopped {
            return ServeAction::Wait;
        }
        match event {
            ServeEvent::Accepted(Ok(_)) => self.retain(),
            ServeEvent::Accepted(Err(source)) => self.stop(Err(BackendError::Accept(source))),
            ServeEvent::RetainFailed(source) => self.stop(
                Err(BackendError::RetainConnection(source)),
            ),
            ServeEvent::Initialized(Ok(_)) => ServeAction::InstallManager,
            ServeEvent::Initialized(Err(source)) => self.stop(
                Err(BackendError::RuntimeInitialization { source }),
            ),
            ServeEvent::Signalled(Ok(_)) => self.stop(Ok(ShutdownReason::Signal)),
            ServeEvent::Signalled(Err(source)) => self.stop(Err(BackendError::Signal(source))),
            ServeEvent::Completed(result) => match connection_result(result) {
                Ok(()) => ServeAction::Wait,
                Err(error) => self.stop(Err(error)),
            },
            ServeEvent::Idle(deadline) => {
                self.phase = ServePhase::QueueBeforeFlush(deadline.snapshot);
                ServeAction::AcceptQueued
            },
            ServeEvent::QueueEmpty(current) => match self.phase {
                ServePhase::QueueBeforeFlush(deadline) => {
                    if same_idle_generation(current, deadline) {
                        self.phase = ServePhase::Flushing(deadline);
                        ServeAction::Flush
                    } else {
                        self.phase = ServePhase::Serving;
                        ServeAction::RestartIdle
                    }
                },
                ServePhase::QueueAfterFlush(_) => self.stop(Ok(ShutdownReason::Idle)),
                _ => ServeAction::Wait,
            },
            ServeEvent::Flushed { success, current } => match self.phase {
                ServePhase::Flushing(deadline) => {
                    if success && same_idle_generation(current, deadline) {
                        self.phase = ServePhase::QueueAfterFlush(deadline);
                        ServeAction::AcceptQueued
                    } else {
                        self.phase = ServePhase::Serving;
                        ServeAction::RestartIdle
                    }
                },
                _ => ServeAction::Wait,
            },
        }
    }
}

/// A task of the shutdown.
#[derive(Clone, Copy, Debug, PartialEq, Eq, Structural)]
pub enum ShutdownTask {
    /// Make the session services unavailable to clients.
    FailReadiness,
    CloseListener,
    /// Shut every session down.
    ShutdownManager,
    JoinManager,
    /// Wait for credential refreshes that were begun.
    DrainRefreshes,
    /// Close every connection, then wait for it.
    CloseConnections,
    JoinConnections,
    /// Close the session store.
    CloseRepository,
    UnlinkSocket,
}

/// The tasks of the shutdown in their order; the session services only where they were started.
pub open spec fn shutdown_order(manager_ready: bool) -> Seq<ShutdownTask> {
    seq![ShutdownTask::FailReadiness, ShutdownTask::CloseListener] + (if manager_ready {
        seq![ShutdownTask::ShutdownManager, ShutdownTask::JoinManager]
    } else {
        Seq::empty()
    }) + seq![
        ShutdownTask::DrainRefreshes,
        ShutdownTask::CloseConnections,
        ShutdownTask::JoinConnections,
        ShutdownTask::CloseRepository,
        ShutdownTask::UnlinkSocket,
    ]
}

/// The tasks of the shutdown. Every one is done, whatever becomes of the others.
pub fn shutdown_tasks(manager_ready: bool) -> (tasks: Vec<ShutdownTask>)
    ensures
        tasks@ == shutdown_order(manager_ready),
{
    let mut tasks: Vec<ShutdownTask> = Vec::new();
    tasks.push(ShutdownTask::FailReadiness);
    tasks.push(ShutdownTask::CloseListener);
    if manager_ready {
        tasks.push(ShutdownTask::ShutdownManager);
        tasks.push(ShutdownTask::JoinManager);
    }
    tasks.push(ShutdownTask::DrainRefreshes);
    tasks.push(ShutdownTask::CloseConnections);
    tasks.push(ShutdownTask::JoinConnections);
    tasks.push(ShutdownTask::CloseRepository);
    tasks.push(ShutdownTask::UnlinkSocket);
    assert(tasks@ =~= shutdown_order(manager_ready));
    tasks
}

/// How the backend ends: the error that stopped it comes before the first one of the shutdown.
pub fn shutdown_outcome(
    served: Result<ShutdownReason, BackendError>,
    shutdown_error: Option<BackendError>,
) -> (result: Result<ShutdownReason, BackendError>)
    ensures
        result == match (served, shutdown_error) {
            (Err(error), _) => Err::<ShutdownReason, BackendError>(error),
            (Ok(_), Some(error)) => Err(error),
            (Ok(reason), None) => Ok(reason),
        },
{
    match served {
        Err(error) => Err(error),
        Ok(reason) => match shutdown_error {
            Some(error) => Err(error),
            None => Ok(reason),
        },
    }
}

/// The file that is the bound socket.
#[derive(Clone, Copy, Debug, PartialEq, Eq, Structural)]
pub struct SocketIdentity {
    pub device: u64,
    pub inode: u64,
}

/// Identifies the socket that was just bound.
pub fn bound_socket_identity(paths: &LocalPaths, facts: Result<FileFacts, String>) -> (result: Result<
    SocketIdentity,
    BackendError,
>)
    ensures
        match (facts, result) {
            (Ok(facts), Ok(identity)) => facts.is_socket && identity.device == facts.device
                && identity.inode == facts.inode,
            (Ok(facts), Err(BackendError::SocketCleanup { path, source })) => !facts.is_socket
                && path@ == paths.paths().socket_path && source@
                == "bound endpoint is no longer a Unix socket"@,
            (Err(cause), Err(BackendError::SocketCleanup { path, source })) => path@
                == paths.paths().socket_path && source == cause,
            _ => false,
        },
{
    let facts = match facts {
        Ok(facts) => facts,
        Err(source) => {
            return Err(
                BackendError::SocketCleanup { path: duplicate_bytes(paths.socket_path()), source },
            );
        },
    };
    if !facts.is_socket {
        return Err(
            BackendError::SocketCleanup {
                path: duplicate_bytes(paths.socket_path()),
                source: "bound endpoint is no longer a Unix socket".to_owned(),
            },
        );
    }
    Ok(SocketIdentity { device: facts.device, inode: facts.inode })
}

/// Whether to unlink what is at the socket's path: only the very socket that was bound.
pub fn unlinks_bound_socket(facts: Option<FileFacts>, identity: SocketIdentity) -> (unlink: bool)
    ensures
        unlink == match facts {
            Some(facts) => facts.is_socket && facts.device == identity.device && facts.inode
                == identity.inode,
            None => false,
        },
{
    match facts {
        Some(facts) => facts.is_socket && facts.device == identity.device && facts.inode
            == identity.inode,
        None => false,
    }
}

/// The identifier of a backend process.
pub fn instance_id(process: u32, identity: SocketIdentity) -> (id: String)
    ensures
        id@ == "backend-"@ + decimal(process as nat) + "-"@ + decimal(identity.device as nat)
            + "-"@ + decimal(identity.inode as nat),
{
    let mut id = "backend-".to_owned();
    let process = decimal_text(process as u64);
    id.push_str(&process);
    id.push_str("-");
    let device = decimal_text(identity.device);
    id.push_str(&device);
    id.push_str("-");
    let inode = decimal_text(identity.inode);
    id.push_str(&inode);
    id
}

/// Nothing is connected and nothing runs.
pub open spec fn nothing_left(activity: ActivitySnapshot) -> bool {
    activity.connections == 0 && activity.active_runs == 0 && activity.running_jobs == 0
        && activity.title_tasks == 0
}

/// Among some events, every session was flushed at an activity, and no client came after that.
pub open spec fn flushed_last(events: Seq<ServeEvent>, activity: ActivitySnapshot, k: int) -> bool {
    &&& 0 <= k < events.len()
    &&& events[k] == (ServeEvent::Flushed { success: true, current: activity })
    &&& forall|later: int| k < later < events.len() ==> !(#[trigger] events[later] is Accepted)
}

proof fn lemma_phases_are_founded(start: ServeView, events: Seq<ServeEvent>)
    requires
        start.phase == ServePhase::Serving,
    ensures
        match start.after_all(events).phase {
            ServePhase::Flushing(activity) => nothing_left(activity),
            ServePhase::QueueAfterFlush(activity) => nothing_left(activity) && exists|k: int|
                #[trigger] flushed_last(events, activity, k),
            _ => true,
        },
    decreases events.len(),
{
    if events.len() > 0 {
        let earlier = events.drop_last();
        lemma_phases_are_founded(start, earlier);
        let before = start.after_all(earlier);
        let event = events.last();
        if let ServePhase::QueueAfterFlush(activity) = before.after(event).0.phase {
            if before.phase is QueueAfterFlush {
                let k = choose|k: int| #[trigger] flushed_last(earlier, activity, k);
                assert forall|later: int| k < later < events.len() implies !(
                #[trigger] events[later] is Accepted) by {
                    if later < earlier.len() {
                        assert(events[later] == earlier[later]);
                    }
                }
                assert(flushed_last(events, activity, k));
            } else {
                assert(flushed_last(events, activity, events.len() - 1));
            }
        }
    }
}

/// A backend that stopped by itself had no connection, no run, no job and no title task, had
/// flushed every session with success at that activity, and had no client come since.
pub proof fn lemma_idle_stop_leaves_nothing_behind(
    start: ServeView,
    events: Seq<ServeEvent>,
    event: ServeEvent,
)
    requires
        start.phase == ServePhase::Serving,
        start.after_all(events).after(event).1 == ServeAction::Stop(Ok(ShutdownReason::Idle)),
    ensures
        event is QueueEmpty,
        exists|activity: ActivitySnapshot, k: int|
            {
                &&& #[trigger] flushed_last(events, activity, k)
                &&& activity.connections == 0
                &&& activity.active_runs == 0
                &&& activity.running_jobs == 0
                &&& activity.title_tasks == 0
            },
{
    lemma_phases_are_founded(start, events);
    let activity = start.after_all(events).phase->QueueAfterFlush_0;
    let k = choose|k: int| #[trigger] flushed_last(events, activity, k);
    assert(flushed_last(events, activity, k));
}

/// An activity with anything left, or another one than that of the deadline, ends the attempt to
/// stop: the backend serves on and the idle timeout begins anew. So does a flush that failed.
pub proof fn lemma_activity_and_failed_flushes_veto(
    state: ServeView,
    deadline: ActivitySnapshot,
    current: ActivitySnapshot,
    success: bool,
)
    ensures
        state.phase == ServePhase::QueueBeforeFlush(deadline) && (current != deadline
            || current.connections > 0 || current.active_runs > 0 || current.running_jobs > 0
            || current.title_tasks > 0) ==> {
            let (after, action) = state.after(ServeEvent::QueueEmpty(current));
            after.phase == ServePhase::Serving && action is RestartIdle && after.next_id
                == state.next_id
        },
        state.phase == ServePhase::Flushing(deadline) && (!success || current != deadline
            || current.connections > 0 || current.active_runs > 0 || current.running_jobs > 0
            || current.title_tasks > 0) ==> {
            let (after, action) = state.after(ServeEvent::Flushed { success, current });
            after.phase == ServePhase::Serving && action is RestartIdle && after.next_id
                == state.next_id
        },
{
}

/// An idle backend does stop: a deadline at which nothing is left leads, through a flush that
/// succeeds and with no client waiting, to the end.
pub proof fn lemma_idle_backend_stops(state: ServeView, activity: ActivitySnapshot)
    requires
        state.phase == ServePhase::Serving,
        activity.connections == 0,
        activity.active_runs == 0,
        activity.running_jobs == 0,
        activity.title_tasks == 0,
    ensures
        ({
            let deadline = ServeEvent::Idle(IdleDeadline { snapshot: activity });
            let (first, looks) = state.after(deadline);
            let (second, flushes) = first.after(ServeEvent::QueueEmpty(activity));
            let (third, looks_again) = second.after(
                ServeEvent::Flushed { success: true, current: activity },
            );
            let (last, stops) = third.after(ServeEvent::QueueEmpty(activity));
            &&& looks is AcceptQueued
            &&& flushes is Flush
            &&& looks_again is AcceptQueued
            &&& stops == ServeAction::Stop(Ok(ShutdownReason::Idle))
            &&& last.phase == ServePhase::Stopped
        }),
{
}

/// What stops a backend that serves: a request to end, and each failure as itself. A client whose
/// transport broke does not, nor does one that ended well.
pub proof fn lemma_what_stops_the_backend(
    state: ServeView,
    source: String,
    broken: String,
    error: RpcServerError<String, String>,
)
    requires
        state.phase != ServePhase::Stopped,
        !(error is Rpc),
    ensures
        state.after(ServeEvent::Signalled(Ok(()))).1 == ServeAction::Stop(
            Ok(ShutdownReason::Signal),
        ),
        state.after(ServeEvent::Signalled(Err(source))).1 == ServeAction::Stop(
            Err(BackendError::Signal(source)),
        ),
        state.after(ServeEvent::Accepted(Err(source))).1 == ServeAction::Stop(
            Err(BackendError::Accept(source)),
        ),
        state.after(ServeEvent::RetainFailed(source)).1 == ServeAction::Stop(
            Err(BackendError::RetainConnection(source)),
        ),
        state.after(ServeEvent::Initialized(Err(source))).1 == ServeAction::Stop(
            Err(BackendError::RuntimeInitialization { source }),
        ),
        state.after(ServeEvent::Completed(Ok(Err(error)))).1 == ServeAction::Stop(
            Err(BackendError::Connection(error)),
        ),
        state.after(ServeEvent::Completed(Err(source))).1 == ServeAction::Stop(
            Err(BackendError::ConnectionTask(source)),
        ),
        state.after(ServeEvent::Completed(Ok(Err(RpcServerError::Rpc(broken))))) == (
            state,
            ServeAction::Wait,
        ),
        state.after(ServeEvent::Completed(Ok(Ok(())))) == (state, ServeAction::Wait),
        state.after(ServeEvent::Initialized(Ok(()))) == (state, ServeAction::InstallManager),
{
}

/// A client is served under the next identifier, and begins the idle timeout anew where the
/// backend was about to stop. Without an identifier left the backend stops.
pub proof fn lemma_clients_are_served(state: ServeView)
    requires
        state.phase != ServePhase::Stopped,
    ensures
        ({
            let (after, action) = state.after(ServeEvent::Accepted(Ok(())));
            match state.next_id {
                Some(id) => {
                    &&& after.phase == ServePhase::Serving
                    &&& state.phase == ServePhase::Serving ==> action == ServeAction::Retain(id)
                    &&& state.phase != ServePhase::Serving ==> action
                        == ServeAction::RetainAndRestartIdle(id)
                    &&& id.0 < u64::MAX ==> after.next_id == Some(ConnectionId((id.0 + 1) as u64))
                    &&& id.0 == u64::MAX ==> after.next_id is None
                },
                None => after.phase == ServePhase::Stopped && action == ServeAction::Stop(
                    Err(BackendError::ConnectionId(ConnectionIdExhausted)),
                ),
            }
        }),
{
}

/// A stopped backend stays as it is.
pub proof fn lemma_stopped_backend_does_nothing(state: ServeView, event: ServeEvent)
    requires
        state.phase == ServePhase::Stopped,
    ensures
        state.after(event) == (state, ServeAction::Wait),
{
}

/// The shutdown begins by turning clients away and ends by unlinking the socket. Sessions are shut
/// down, where there are any, before the connections are closed, and both come before the store is
/// closed. No task is done twice.
pub proof fn lemma_shutdown_is_in_order(manager_ready: bool, tasks: Vec<ShutdownTask>)
    requires
        call_ensures(shutdown_tasks, (manager_ready,), tasks),
    ensures
        tasks@.no_duplicates(),
        tasks@.first() == ShutdownTask::FailReadiness,
        tasks@.last() == ShutdownTask::UnlinkSocket,
        tasks@.contains(ShutdownTask::CloseListener),
        tasks@.contains(ShutdownTask::DrainRefreshes),
        tasks@.contains(ShutdownTask::CloseConnections),
        tasks@.contains(ShutdownTask::JoinConnections),
        tasks@.contains(ShutdownTask::CloseRepository),
        tasks@.contains(ShutdownTask::ShutdownManager) == manager_ready,
        tasks@.contains(ShutdownTask::JoinManager) == manager_ready,
        forall|i: int, j: int|
            0 <= i < tasks@.len() && 0 <= j < tasks@.len() ==> {
                let (former, latter) = (#[trigger] tasks@[i], #[trigger] tasks@[j]);
                &&& former == ShutdownTask::CloseListener && latter
                    == ShutdownTask::CloseConnections ==> i < j
                &&& former == ShutdownTask::ShutdownManager && latter == ShutdownTask::JoinManager
                    ==> i < j
                &&& former == ShutdownTask::JoinManager && latter == ShutdownTask::DrainRefreshes
                    ==> i < j
                &&& former == ShutdownTask::DrainRefreshes && latter
                    == ShutdownTask::CloseConnections ==> i < j
                &&& former == ShutdownTask::CloseConnections && latter
                    == ShutdownTask::JoinConnections ==> i < j
                &&& former == ShutdownTask::JoinConnections && latter
                    == ShutdownTask::CloseRepository ==> i < j
            },
{
    let order = tasks@;
    let last = order.len() - 1;
    assert(order[last - 4] == ShutdownTask::DrainRefreshes);
    assert(order[last - 3] == ShutdownTask::CloseConnections);
    assert(order[last - 2] == ShutdownTask::JoinConnections);
    assert(order[last - 1] == ShutdownTask::CloseRepository);
    assert(order[1] == ShutdownTask::CloseListener);
    if manager_ready {
        assert(order[2] == ShutdownTask::ShutdownManager);
        assert(order[3] == ShutdownTask::JoinManager);
    }
}

/// The first error is kept whatever comes after it, and an orderly end is told only where neither
/// serving nor the shutdown failed.
pub proof fn lemma_first_error_wins(
    served: Result<ShutdownReason, BackendError>,
    shutdown_error: Option<BackendError>,
    result: Result<ShutdownReason, BackendError>,
)
    requires
        call_ensures(shutdown_outcome, (served, shutdown_error), result),
    ensures
        result is Ok <==> served is Ok && shutdown_error is None,
        result is Ok ==> result->Ok_0 == served->Ok_0,
        served is Err ==> result is Err && result->Err_0 == served->Err_0,
        served is Ok && shutdown_error is Some ==> result is Err && result->Err_0
            == shutdown_error->0,
{
}

/// Nothing but the very socket that was bound is unlinked.
pub proof fn lemma_other_files_are_not_unlinked(
    facts: Option<FileFacts>,
    identity: SocketIdentity,
    unlink: bool,
)
    requires
        call_ensures(unlinks_bound_socket, (facts, identity), unlink),
    ensures
        unlink ==> facts is Some && facts->0.is_socket && facts->0.device == identity.device
            && facts->0.inode == identity.inode,
        facts is Some && facts->0.is_socket && facts->0.device == identity.device
            && facts->0.inode == identity.inode ==> unlink,
{
}

} // verus!
