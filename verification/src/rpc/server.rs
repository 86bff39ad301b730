//! The backend's end of a connection: readiness, reported failures and completion.

use vstd::prelude::*;

use super::convert::{
    command_error_code, command_error_message, CommandError, MaterializeSuccess, OpenSuccess,
    ProtocolInfo, StartupSuccess,
};
use super::fields::Conversion;
use super::wire::SessionCapability;
use crate::backend::activity::ActivityTracker;
use crate::session::{
    ConnectionId, DraftDefaults, ErrorCode, SessionCommandError, SessionEvent, SessionId,
    SessionSnapshot,
};

verus! {

/// Whether the session services `M` are there.
#[derive(Debug)]
pub enum ReadinessState<M> {
    Starting,
    Ready(M),
    Failed,
}

/// The states that readiness handles share.
#[derive(Debug)]
pub struct ReadinessStates<M> {
    states: Vec<ReadinessState<M>>,
}

impl<M> View for ReadinessStates<M> {
    type V = Seq<ReadinessState<M>>;

    closed spec fn view(&self) -> Seq<ReadinessState<M>> {
        self.states@
    }
}

impl<M> ReadinessStates<M> {
    /// No states yet.
    pub fn new() -> (states: Self)
        ensures
            states@ == Seq::<ReadinessState<M>>::empty(),
    {
        ReadinessStates { states: Vec::new() }
    }
}

/// The readiness of the session services: a handle, all of whose clones speak of one state.
#[derive(Clone, Copy, Debug, PartialEq, Eq, Structural)]
pub struct BackendReadiness {
    index: usize,
}

/// A failure without identifiers.
pub open spec fn is_plain_error(error: CommandError, code: ErrorCode, message: Seq<char>) -> bool {
    error.code == code && error.message@ == message && error.ids@.len() == 0
}

fn plain_error(code: ErrorCode, message: &str) -> (error: CommandError)
    ensures
        is_plain_error(error, code, message@),
{
    CommandError { code, message: message.to_owned(), ids: Vec::new() }
}

/// What is told of session services in a state.
pub open spec fn told_of<M>(state: ReadinessState<M>, told: Result<M, CommandError>) -> bool {
    match (state, told) {
        (ReadinessState::Ready(ready), Ok(manager)) => manager == ready,
        (ReadinessState::Starting, Err(error)) => is_plain_error(
            error,
            ErrorCode::BackendStarting,
            "backend is still starting"@,
        ),
        (ReadinessState::Failed, Err(error)) => is_plain_error(
            error,
            ErrorCode::BackendUnavailable,
            "backend is unavailable"@,
        ),
        _ => false,
    }
}

impl BackendReadiness {
    /// Where the state of a handle stands.
    pub closed spec fn place(self) -> int {
        self.index as int
    }

    /// The state of a handle is among some.
    pub open spec fn is_among<M>(self, states: Seq<ReadinessState<M>>) -> bool {
        0 <= self.place() < states.len()
    }

    /// The states with that of a handle replaced.
    pub open spec fn replaced<M>(
        self,
        states: Seq<ReadinessState<M>>,
        state: ReadinessState<M>,
    ) -> Seq<ReadinessState<M>> {
        states.update(self.place(), state)
    }

    /// A handle of a new state: session services that are being initialized.
    pub fn starting<M>(states: &mut ReadinessStates<M>) -> (readiness: Self)
        ensures
            readiness.place() == old(states)@.len(),
            final(states)@ == old(states)@.push(ReadinessState::Starting),
    {
        let index: usize = states.states.len();
        states.states.push(ReadinessState::Starting);
        BackendReadiness { index }
    }

    /// A handle of a new state: session services that are there.
    pub fn ready<M>(states: &mut ReadinessStates<M>, manager: M) -> (readiness: Self)
        ensures
            readiness.place() == old(states)@.len(),
            final(states)@ == old(states)@.push(ReadinessState::Ready(manager)),
    {
        let index: usize = states.states.len();
        states.states.push(ReadinessState::Ready(manager));
        BackendReadiness { index }
    }

    /// Installs the session services, for every clone of the handle.
    pub fn install<M>(&self, states: &mut ReadinessStates<M>, manager: M)
        requires
            self.is_among(old(states)@),
        ensures
            final(states)@ == self.replaced(old(states)@, ReadinessState::Ready(manager)),
    {
        states.states.set(self.index, ReadinessState::Ready(manager));
    }

    /// Marks the session services as unavailable, for every clone of the handle and without saying
    /// why.
    pub fn fail<M>(&self, states: &mut ReadinessStates<M>)
        requires
            self.is_among(old(states)@),
        ensures
            final(states)@ == self.replaced(old(states)@, ReadinessState::Failed),
    {
        states.states.set(self.index, ReadinessState::Failed);
    }

    /// The session services, or what a client is told.
    pub fn manager<'a, M>(&self, states: &'a ReadinessStates<M>) -> (manager: Result<
        &'a M,
        CommandError,
    >)
        requires
            self.is_among(states@),
        ensures
            told_of(
                states@[self.place()],
                match manager {
                    Ok(manager) => Ok(*manager),
                    Err(error) => Err(error),
                },
            ),
    {
        match &states.states[self.index] {
            ReadinessState::Ready(manager) => Ok(manager),
            ReadinessState::Starting => Err(
                plain_error(ErrorCode::BackendStarting, "backend is still starting"),
            ),
            ReadinessState::Failed => Err(
                plain_error(ErrorCode::BackendUnavailable, "backend is unavailable"),
            ),
        }
    }
}

/// What is installed through one handle is there for every clone of it, whatever the state was
/// before, and nothing changes for a handle of another state.
pub proof fn lemma_clones_share_what_is_installed<M>(
    readiness: BackendReadiness,
    clone: BackendReadiness,
    other: BackendReadiness,
    states: Seq<ReadinessState<M>>,
    manager: M,
    told: Result<M, CommandError>,
)
    requires
        readiness.is_among(states),
        cloned(readiness, clone),
    ensures
        ({
            let after = readiness.replaced(states, ReadinessState::Ready(manager));
            &&& clone.is_among(after)
            &&& told_of(after[readiness.place()], told) <==> told == Ok::<M, CommandError>(manager)
            &&& told_of(after[clone.place()], told) <==> told == Ok::<M, CommandError>(manager)
            &&& other.is_among(states) && other.place() != readiness.place()
                ==> after[other.place()] == states[other.place()]
        }),
{
}

/// What fails through one handle has failed for every clone of it, whatever the state was before;
/// nothing more is told, and failing again changes nothing.
pub proof fn lemma_clones_share_a_failure<M>(
    readiness: BackendReadiness,
    clone: BackendReadiness,
    states: Seq<ReadinessState<M>>,
    told: Result<M, CommandError>,
)
    requires
        readiness.is_among(states),
        cloned(readiness, clone),
    ensures
        ({
            let after = readiness.replaced(states, ReadinessState::Failed);
            &&& clone.is_among(after)
            &&& told_of(after[readiness.place()], told) <==> told is Err && is_plain_error(
                told->Err_0,
                ErrorCode::BackendUnavailable,
                "backend is unavailable"@,
            )
            &&& after[clone.place()] == after[readiness.place()]
            &&& clone.replaced(after, ReadinessState::Failed) == after
        }),
{
    let after = readiness.replaced(states, ReadinessState::Failed);
    assert(clone.replaced(after, ReadinessState::Failed) =~= after);
}

/// A failure of the session store; `message` describes it.
#[derive(Debug)]
pub enum SessionStoreError {
    NotFound { message: String },
    AmbiguousTitle { message: String, ids: Vec<SessionId> },
    NameConflict { message: String },
    ValueOutOfRange { message: String },
    /// A failure whose details stay in the backend.
    Other { message: String },
}

/// A failure of the session services.
#[derive(Debug)]
pub enum SessionManagerError {
    Store(SessionStoreError),
    /// A failure whose details stay in the backend.
    Runtime(String),
    Session(SessionCommandError),
    Unavailable,
}

/// What a client is told of a failure of the session services: details of the store and the
/// runtime stay in the backend.
pub open spec fn manager_report(error: SessionManagerError) -> (ErrorCode, Seq<char>) {
    match error {
        SessionManagerError::Store(SessionStoreError::NotFound { message }) => (
            ErrorCode::SessionNotFound,
            message@,
        ),
        SessionManagerError::Store(SessionStoreError::AmbiguousTitle { message, .. }) => (
            ErrorCode::AmbiguousTitle,
            message@,
        ),
        SessionManagerError::Store(SessionStoreError::NameConflict { message }) => (
            ErrorCode::SessionNameConflict,
            message@,
        ),
        SessionManagerError::Store(SessionStoreError::ValueOutOfRange { message }) => (
            ErrorCode::InvalidArgument,
            message@,
        ),
        SessionManagerError::Store(SessionStoreError::Other { .. }) => (
            ErrorCode::Persistence,
            "session persistence failed"@,
        ),
        SessionManagerError::Runtime(_) => (
            ErrorCode::Internal,
            "session runtime could not be initialized"@,
        ),
        SessionManagerError::Session(error) => (
            command_error_code(error),
            command_error_message(error),
        ),
        SessionManagerError::Unavailable => (
            ErrorCode::BackendUnavailable,
            "session manager is unavailable"@,
        ),
    }
}

/// The sessions that a client is told of: those that an ambiguous title matches.
pub open spec fn manager_ids(error: SessionManagerError) -> Seq<SessionId> {
    match error {
        SessionManagerError::Store(SessionStoreError::AmbiguousTitle { ids, .. }) => ids@,
        _ => Seq::empty(),
    }
}

fn duplicate_ids(ids: &Vec<SessionId>) -> (copy: Vec<SessionId>)
    ensures
        copy@ == ids@,
{
    let mut copy: Vec<SessionId> = Vec::new();
    let mut index: usize = 0;
    while index < ids.len()
        invariant
            index <= ids@.len(),
            copy@ == ids@.subrange(0, index as int),
        decreases ids@.len() - index,
    {
        copy.push(ids[index]);
        index += 1;
        assert(copy@ =~= ids@.subrange(0, index as int));
    }
    assert(copy@ =~= ids@);
    copy
}

/// Reports a failure of the session services.
pub fn manager_command_error(error: &SessionManagerError) -> (reported: CommandError)
    ensures
        (reported.code, reported.message@) == manager_report(*error),
        reported.ids@ == manager_ids(*error),
{
    match error {
        SessionManagerError::Store(SessionStoreError::NotFound { message }) => plain_error(
            ErrorCode::SessionNotFound,
            message,
        ),
        SessionManagerError::Store(SessionStoreError::AmbiguousTitle { message, ids }) => {
            CommandError {
                code: ErrorCode::AmbiguousTitle,
                message: message.clone(),
                ids: duplicate_ids(ids),
            }
        },
        SessionManagerError::Store(SessionStoreError::NameConflict { message }) => plain_error(
            ErrorCode::SessionNameConflict,
            message,
        ),
        SessionManagerError::Store(SessionStoreError::ValueOutOfRange { message }) => plain_error(
            ErrorCode::InvalidArgument,
            message,
        ),
        SessionManagerError::Store(SessionStoreError::Other { .. }) => plain_error(
            ErrorCode::Persistence,
            "session persistence failed",
        ),
        SessionManagerError::Runtime(_) => plain_error(
            ErrorCode::Internal,
            "session runtime could not be initialized",
        ),
        SessionManagerError::Session(error) => CommandError::from_session(error),
        SessionManagerError::Unavailable => plain_error(
            ErrorCode::BackendUnavailable,
            "session manager is unavailable",
        ),
    }
}

/// How a connection ended that did not end well: `R` failed in the transport, `C` while the
/// connection's observers were detached.
#[derive(Debug)]
pub enum RpcServerError<R, C> {
    Rpc(R),
    Cleanup(C),
    RpcAndCleanup { rpc: R, cleanup: C },
}

impl RpcServerError<String, String> {
    /// The description of an error.
    pub open spec fn description(self) -> Seq<char> {
        match self {
            RpcServerError::Rpc(rpc) => "Cap'n Proto RPC system failed: "@ + rpc@,
            RpcServerError::Cleanup(cleanup) => "RPC connection cleanup failed: "@ + cleanup@,
            RpcServerError::RpcAndCleanup { rpc, cleanup } => "Cap'n Proto RPC system failed: "@
                + rpc@ + "; RPC connection cleanup failed: "@ + cleanup@,
        }
    }

    /// Describes the error.
    pub fn message(&self) -> (text: String)
        ensures
            text@ == self.description(),
    {
        let mut text = String::new();
        match self {
            RpcServerError::Rpc(rpc) => {
                text.push_str("Cap'n Proto RPC system failed: ");
                text.push_str(rpc);
            },
            RpcServerError::Cleanup(cleanup) => {
                text.push_str("RPC connection cleanup failed: ");
                text.push_str(cleanup);
            },
            RpcServerError::RpcAndCleanup { rpc, cleanup } => {
                text.push_str("Cap'n Proto RPC system failed: ");
                text.push_str(rpc);
                text.push_str("; RPC connection cleanup failed: ");
                text.push_str(cleanup);
            },
        }
        assert(text@ =~= self.description());
        text
    }
}

/// Combines the end of the transport with that of the cleanup; neither error is lost.
pub fn combine_completion<R, C>(rpc: Result<(), R>, cleanup: Result<(), C>) -> (result: Result<
    (),
    RpcServerError<R, C>,
>)
    ensures
        result == match (rpc, cleanup) {
            (Ok(_), Ok(_)) => Ok::<(), RpcServerError<R, C>>(()),
            (Err(rpc), Ok(_)) => Err(RpcServerError::Rpc(rpc)),
            (Ok(_), Err(cleanup)) => Err(RpcServerError::Cleanup(cleanup)),
            (Err(rpc), Err(cleanup)) => Err(RpcServerError::RpcAndCleanup { rpc, cleanup }),
        },
{
    match (rpc, cleanup) {
        (Ok(_), Ok(_)) => Ok(()),
        (Err(rpc), Ok(_)) => Err(RpcServerError::Rpc(rpc)),
        (Ok(_), Err(cleanup)) => Err(RpcServerError::Cleanup(cleanup)),
        (Err(rpc), Err(cleanup)) => Err(RpcServerError::RpcAndCleanup { rpc, cleanup }),
    }
}

/// Whether an event is the last one that its observer gets.
pub fn is_terminal_event(event: &SessionEvent) -> (terminal: bool)
    ensures
        terminal == (*event is Deleted),
{
    match event {
        SessionEvent::Deleted { .. } => true,
        _ => false,
    }
}

/// Whether to publish further events after one: not after the last, nor after a failure to write
/// or to send it.
pub fn publishes_on(event: &SessionEvent, written: bool, sent: bool) -> (on: bool)
    ensures
        on == (written && sent && !(*event is Deleted)),
{
    written && sent && !is_terminal_event(event)
}

/// The answer to an open request. Its events are published once it was written, where it
/// succeeded.
pub fn prepare_open(
    opened: Result<SessionSnapshot, CommandError>,
    session: SessionCapability,
) -> (result: Result<OpenSuccess, CommandError>)
    ensures
        result == match opened {
            Ok(snapshot) => Ok::<OpenSuccess, CommandError>(OpenSuccess { session, snapshot }),
            Err(error) => Err(error),
        },
{
    match opened {
        Ok(snapshot) => Ok(OpenSuccess { session, snapshot }),
        Err(error) => Err(error),
    }
}

/// What the session services selected at startup.
#[derive(Debug)]
pub enum SelectedStartup {
    Draft(DraftDefaults),
    Attached(SessionSnapshot),
}

/// The answer to a startup request, and whether events are published after it was written.
pub fn prepare_startup(
    started: Result<SelectedStartup, CommandError>,
    session: SessionCapability,
) -> (result: (Result<StartupSuccess, CommandError>, bool))
    ensures
        result == match started {
            Ok(SelectedStartup::Draft(draft)) => (
                Ok::<StartupSuccess, CommandError>(StartupSuccess::Draft(draft)),
                false,
            ),
            Ok(SelectedStartup::Attached(snapshot)) => (
                Ok(StartupSuccess::Attached(OpenSuccess { session, snapshot })),
                true,
            ),
            Err(error) => (Err(error), false),
        },
{
    match started {
        Ok(SelectedStartup::Draft(draft)) => (Ok(StartupSuccess::Draft(draft)), false),
        Ok(SelectedStartup::Attached(snapshot)) => (
            Ok(StartupSuccess::Attached(OpenSuccess { session, snapshot })),
            true,
        ),
        Err(error) => (Err(error), false),
    }
}

/// The answer to a request that made a first prompt durable.
pub fn prepare_materialize(
    materialized: Result<(SessionSnapshot, u64), CommandError>,
    session: SessionCapability,
) -> (result: Result<MaterializeSuccess, CommandError>)
    ensures
        result == match materialized {
            Ok((snapshot, run_id)) => Ok::<MaterializeSuccess, CommandError>(
                MaterializeSuccess { session, snapshot, run_id },
            ),
            Err(error) => Err(error),
        },
{
    match materialized {
        Ok((snapshot, run_id)) => Ok(MaterializeSuccess { session, snapshot, run_id }),
        Err(error) => Err(error),
    }
}

/// How a request goes on.
#[derive(Debug)]
pub enum Begun<R> {
    /// The session services are asked.
    Ask(R),
    /// The request is answered with an error.
    Refuse(CommandError),
    /// The call fails, for a reason that is told to the client.
    Fail(String),
}

/// Arguments that cannot be read fail the call; otherwise the session services must be ready.
pub open spec fn begins<R: Conversion, M>(
    state: ReadinessState<M>,
    params: R::Wire,
    begun: Begun<R>,
) -> bool {
    match begun {
        Begun::Fail(message) => R::fault(params) is Some && message@
            == R::fault(params)->0.description(),
        Begun::Refuse(error) => R::fault(params) is None && told_of(state, Err(error)),
        Begun::Ask(request) => R::fault(params) is None && R::reads(params, request)
            && state is Ready,
    }
}

/// Begins a request of a client.
pub fn begin_request<R: Conversion, M>(
    readiness: BackendReadiness,
    states: &ReadinessStates<M>,
    params: &R::Wire,
) -> (begun: Begun<R>)
    requires
        readiness.is_among(states@),
    ensures
        begins::<R, M>(states@[readiness.place()], *params, begun),
{
    match R::from_wire(params) {
        Err(error) => Begun::Fail(error.message()),
        Ok(request) => match readiness.manager(states) {
            Ok(_) => Begun::Ask(request),
            Err(error) => Begun::Refuse(error),
        },
    }
}

/// What a client is told of a result of the session services.
pub open spec fn is_reported<T>(
    result: Result<T, SessionManagerError>,
    reported: Result<T, CommandError>,
) -> bool {
    match (result, reported) {
        (Ok(value), Ok(shown)) => value == shown,
        (Err(error), Err(shown)) => (shown.code, shown.message@) == manager_report(error)
            && shown.ids@ == manager_ids(error),
        _ => false,
    }
}

/// Reports a result of the session services.
pub fn manager_result<T>(result: Result<T, SessionManagerError>) -> (reported: Result<
    T,
    CommandError,
>)
    ensures
        is_reported(result, reported),
{
    match result {
        Ok(value) => Ok(value),
        Err(error) => Err(manager_command_error(&error)),
    }
}

/// What a client is told of a result of one session.
pub fn session_result<T>(result: Result<T, SessionCommandError>) -> (reported: Result<
    T,
    CommandError,
>)
    ensures
        match (result, reported) {
            (Ok(value), Ok(shown)) => value == shown,
            (Err(error), Err(shown)) => shown.code == command_error_code(error) && shown.message@
                == command_error_message(error) && shown.ids@.len() == 0,
            _ => false,
        },
{
    match result {
        Ok(value) => Ok(value),
        Err(error) => Err(CommandError::from_session(&error)),
    }
}

/// Writes an answer; one that cannot be written fails the call, for a reason that is told.
pub fn answer<T: Conversion>(value: &T) -> (result: Result<T::Wire, String>)
    ensures
        match result {
            Ok(wire) => T::unfit(*value) is None && T::writes(*value, wire),
            Err(message) => T::unfit(*value) is Some && message@ == T::unfit(
                *value,
            )->0.description(),
        },
{
    match T::to_wire(value) {
        Ok(wire) => Ok(wire),
        Err(error) => Err(error.message()),
    }
}

/// What every request of one backend process shares.
pub struct BackendContext {
    pub readiness: BackendReadiness,
    pub activity: ActivityTracker,
    pub protocol_info: ProtocolInfo,
}

impl BackendContext {
    /// A context whose session services are ready.
    pub fn new<M>(
        states: &mut ReadinessStates<M>,
        manager: M,
        activity: ActivityTracker,
        protocol_info: ProtocolInfo,
    ) -> (context: Self)
        ensures
            context.readiness.place() == old(states)@.len(),
            final(states)@ == old(states)@.push(ReadinessState::Ready(manager)),
            context.activity == activity,
            context.protocol_info == protocol_info,
    {
        let readiness = BackendReadiness::ready(states, manager);
        BackendContext { readiness, activity, protocol_info }
    }

    /// A context that tells of itself while its session services start, and its readiness, through
    /// which they are installed.
    pub fn starting<M>(
        states: &mut ReadinessStates<M>,
        activity: ActivityTracker,
        protocol_info: ProtocolInfo,
    ) -> (started: (Self, BackendReadiness))
        ensures
            started.0.readiness == started.1,
            started.1.place() == old(states)@.len(),
            final(states)@ == old(states)@.push(ReadinessState::Starting),
            started.0.activity == activity,
            started.0.protocol_info == protocol_info,
    {
        let readiness = BackendReadiness::starting(states);
        (BackendContext { readiness, activity, protocol_info }, readiness)
    }

    /// Records a connection before it is served.
    pub fn connection_opened(&mut self, id: ConnectionId)
        requires
            old(self).activity.wf(),
            !old(self).activity.activity().connections.contains(id.0) ==> old(
                self).activity.activity().generation < u64::MAX,
        ensures
            final(self).activity.wf(),
            final(self).activity.activity() == old(self).activity.activity().with_connection(
                id,
                true,
            ),
            final(self).readiness == old(self).readiness,
            final(self).protocol_info == old(self).protocol_info,
    {
        let _ = self.activity.set_connection(id, true);
    }

    /// Records the end of a connection, whatever became of it and of its cleanup, which is `None`
    /// where the session services were not ready.
    pub fn connection_closed<R, C>(
        &mut self,
        id: ConnectionId,
        rpc: Result<(), R>,
        cleanup: Option<Result<(), C>>,
    ) -> (result: Result<(), RpcServerError<R, C>>)
        requires
            old(self).activity.wf(),
            old(self).activity.activity().connections.contains(id.0) ==> old(
                self).activity.activity().generation < u64::MAX,
        ensures
            final(self).activity.wf(),
            final(self).activity.activity() == old(self).activity.activity().with_connection(
                id,
                false,
            ),
            final(self).readiness == old(self).readiness,
            final(self).protocol_info == old(self).protocol_info,
            result == match (rpc, cleanup) {
                (Ok(_), Some(Err(cleanup))) => Err::<(), RpcServerError<R, C>>(
                    RpcServerError::Cleanup(cleanup),
                ),
                (Err(rpc), Some(Err(cleanup))) => Err(
                    RpcServerError::RpcAndCleanup { rpc, cleanup },
                ),
                (Err(rpc), _) => Err(RpcServerError::Rpc(rpc)),
                (Ok(_), _) => Ok(()),
            },
    {
        let _ = self.activity.set_connection(id, false);
        let cleanup = match cleanup {
            Some(cleanup) => cleanup,
            None => Ok(()),
        };
        combine_completion(rpc, cleanup)
    }
}

/// A backend that is not ready says so, and one that is hands out the manager that was installed
/// last; installing or failing one leaves every other backend as it was.
pub proof fn lemma_readiness_is_told<M>(
    readiness: BackendReadiness,
    other: BackendReadiness,
    states: Seq<ReadinessState<M>>,
    manager: M,
    told: Result<M, CommandError>,
)
    requires
        readiness.is_among(states),
        other.is_among(states),
    ensures
        told_of(readiness.replaced(states, ReadinessState::Ready(manager))[readiness.place()], told)
            ==> told == Ok::<M, CommandError>(manager),
        told_of(readiness.replaced(states, ReadinessState::Failed)[readiness.place()], told)
            ==> told is Err && told->Err_0.code == ErrorCode::BackendUnavailable,
        told_of(states.push(ReadinessState::Starting)[states.len() as int], told) ==> told is Err
            && told->Err_0.code == ErrorCode::BackendStarting,
        other.place() != readiness.place() ==> readiness.replaced(
            states,
            ReadinessState::Ready(manager),
        )[other.place()] == states[other.place()] && readiness.replaced(
            states,
            ReadinessState::Failed,
        )[other.place()] == states[other.place()],
        told is Ok && told_of(states[readiness.place()], told) ==> states[readiness.place()]
            is Ready,
{
}

/// Every failure of the session services reaches the client in its category. What names the
/// request is told in its own words; what went wrong inside the backend is not.
pub proof fn lemma_failures_keep_their_category()
    ensures
        forall|error: &SessionManagerError, reported: CommandError| #[trigger]
            call_ensures(manager_command_error, (error,), reported) ==> match error {
                SessionManagerError::Store(SessionStoreError::NotFound { message }) => reported.code
                    == ErrorCode::SessionNotFound && reported.message@ == message@
                    && reported.ids@.len() == 0,
                SessionManagerError::Store(SessionStoreError::AmbiguousTitle { message, ids }) => {
                    reported.code == ErrorCode::AmbiguousTitle && reported.message@ == message@
                        && reported.ids@ == ids@
                },
                SessionManagerError::Store(SessionStoreError::NameConflict { message }) => {
                    reported.code == ErrorCode::SessionNameConflict && reported.message@
                        == message@ && reported.ids@.len() == 0
                },
                SessionManagerError::Store(SessionStoreError::ValueOutOfRange { message }) => {
                    reported.code == ErrorCode::InvalidArgument && reported.message@ == message@
                        && reported.ids@.len() == 0
                },
                SessionManagerError::Store(SessionStoreError::Other { .. }) => reported.code
                    == ErrorCode::Persistence && reported.message@ == "session persistence failed"@,
                SessionManagerError::Runtime(_) => reported.code == ErrorCode::Internal
                    && reported.message@ == "session runtime could not be initialized"@,
                SessionManagerError::Unavailable => reported.code == ErrorCode::BackendUnavailable,
                SessionManagerError::Session(SessionCommandError::Reported { code, message }) => {
                    reported.code == *code && reported.message@ == message@
                },
                SessionManagerError::Session(_) => reported.ids@.len() == 0,
            },
{
}

/// A request with a fault is answered with it whatever the backend does; one without is asked of
/// a backend that is ready, with what was read, and refused by any other.
pub proof fn lemma_only_ready_backends_are_asked<R: Conversion, M>(
    state: ReadinessState<M>,
    params: R::Wire,
    begun: Begun<R>,
)
    requires
        begins::<R, M>(state, params, begun),
    ensures
        begun is Ask <==> R::fault(params) is None && state is Ready,
        begun is Ask ==> R::reads(params, begun->Ask_0),
        begun is Fail <==> R::fault(params) is Some,
        begun is Refuse ==> (state is Starting ==> begun->Refuse_0.code
            == ErrorCode::BackendStarting) && (state is Failed ==> begun->Refuse_0.code
            == ErrorCode::BackendUnavailable),
{
}

/// Events are published until the session is deleted or one could not be written or sent; the
/// deletion itself is the last.
pub proof fn lemma_the_deletion_is_published_last()
    ensures
        forall|event: &SessionEvent, written: bool, sent: bool, on: bool| #[trigger]
            call_ensures(publishes_on, (event, written, sent), on) ==> {
                &&& event is Deleted || !written || !sent ==> !on
                &&& !(event is Deleted) && written && sent ==> on
            },
        forall|event: &SessionEvent, terminal: bool| #[trigger]
            call_ensures(is_terminal_event, (event,), terminal) ==> (terminal
                <==> event is Deleted),
{
}

/// The end of a connection is a success exactly when the connection and its cleanup were, and
/// tells each failure that there was.
pub proof fn lemma_connections_tell_both_failures()
    ensures
        forall|
            rpc: Result<(), String>,
            cleanup: Result<(), String>,
            result: Result<(), RpcServerError<String, String>>,
        | #[trigger]
            call_ensures(combine_completion::<String, String>, (rpc, cleanup), result) ==> {
                &&& result is Ok <==> rpc is Ok && cleanup is Ok
                &&& rpc is Err && cleanup is Ok ==> result->Err_0 == RpcServerError::<
                    String,
                    String,
                >::Rpc(rpc->Err_0)
                &&& rpc is Ok && cleanup is Err ==> result->Err_0 == RpcServerError::<
                    String,
                    String,
                >::Cleanup(cleanup->Err_0)
                &&& rpc is Err && cleanup is Err ==> result->Err_0 == (RpcServerError::RpcAndCleanup {
                    rpc: rpc->Err_0,
                    cleanup: cleanup->Err_0,
                })
            },
{
}

/// A backend begins as starting or as ready, beside those that are there; what is installed or
/// failed later is its own state alone.
pub proof fn lemma_backends_have_a_state_of_their_own()
    ensures
        forall|states: &mut ReadinessStates<u64>, readiness: BackendReadiness| #[trigger]
            call_ensures(BackendReadiness::starting::<u64>, (states,), readiness) ==> {
                &&& readiness.place() == states@.len()
                &&& final(states)@.len() == states@.len() + 1
                &&& final(states)@.last() is Starting
                &&& final(states)@.drop_last() == states@
            },
        forall|states: &mut ReadinessStates<u64>, manager: u64, readiness: BackendReadiness|
         #[trigger]
            call_ensures(BackendReadiness::ready::<u64>, (states, manager), readiness) ==> {
                &&& readiness.place() == states@.len()
                &&& final(states)@.len() == states@.len() + 1
                &&& final(states)@.last() == ReadinessState::Ready(manager)
                &&& final(states)@.drop_last() == states@
            },
        forall|readiness: &BackendReadiness, states: &mut ReadinessStates<u64>, manager: u64, done: ()|
         #[trigger]
            call_ensures(BackendReadiness::install::<u64>, (readiness, states, manager), done)
                && readiness.is_among(states@) ==> {
                &&& final(states)@.len() == states@.len()
                &&& final(states)@[readiness.place()] == ReadinessState::Ready(manager)
                &&& forall|i: int|
                    0 <= i < states@.len() && i != readiness.place() ==> #[trigger] final(states)@[i]
                        == states@[i]
            },
        forall|readiness: &BackendReadiness, states: &mut ReadinessStates<u64>, done: ()| #[trigger]
            call_ensures(BackendReadiness::fail::<u64>, (readiness, states), done)
                && readiness.is_among(states@) ==> {
                &&& final(states)@.len() == states@.len()
                &&& final(states)@[readiness.place()] is Failed
                &&& forall|i: int|
                    0 <= i < states@.len() && i != readiness.place() ==> #[trigger] final(states)@[i]
                        == states@[i]
            },
        forall|readiness: &BackendReadiness, states: &ReadinessStates<u64>, manager: Result<
            &u64,
            CommandError,
        >| #[trigger]
            call_ensures(BackendReadiness::manager::<u64>, (readiness, states), manager) ==> {
                let state = states@[readiness.place()];
                &&& state is Ready ==> manager is Ok && *manager->Ok_0 == state->Ready_0
                &&& state is Starting ==> manager is Err && manager->Err_0.code
                    == ErrorCode::BackendStarting
                &&& state is Failed ==> manager is Err && manager->Err_0.code
                    == ErrorCode::BackendUnavailable
            },
{
    assert forall|states: &mut ReadinessStates<u64>, readiness: BackendReadiness| #[trigger]
        call_ensures(BackendReadiness::starting::<u64>, (states,), readiness) implies final(
        states)@.drop_last() == states@ by {
        assert(final(states)@.drop_last() =~= states@);
    }
    assert forall|states: &mut ReadinessStates<u64>, manager: u64, readiness: BackendReadiness|
     #[trigger]
        call_ensures(BackendReadiness::ready::<u64>, (states, manager), readiness) implies final(
        states)@.drop_last() == states@ by {
        assert(final(states)@.drop_last() =~= states@);
    }
}

/// Connections count as activity while they are open, and only they do.
pub proof fn lemma_open_connections_are_activity()
    ensures
        forall|context: &mut BackendContext, id: ConnectionId, done: ()| #[trigger]
            call_ensures(BackendContext::connection_opened, (context, id), done) ==> {
                &&& final(context).activity.activity().connections.contains(id.0)
                &&& final(context).activity.activity().active_runs
                    == context.activity.activity().active_runs
                &&& final(context).readiness == context.readiness
                &&& final(context).protocol_info == context.protocol_info
            },
        forall|
            context: &mut BackendContext,
            id: ConnectionId,
            rpc: Result<(), u64>,
            cleanup: Option<Result<(), u64>>,
            result: Result<(), RpcServerError<u64, u64>>,
        | #[trigger]
            call_ensures(
                BackendContext::connection_closed::<u64, u64>,
                (context, id, rpc, cleanup),
                result,
            ) ==> {
                &&& !final(context).activity.activity().connections.contains(id.0)
                &&& final(context).activity.activity().active_runs
                    == context.activity.activity().active_runs
                &&& final(context).readiness == context.readiness
                &&& result is Ok <==> rpc is Ok && (cleanup is None || cleanup->0 is Ok)
            },
{
}

} // verus!
