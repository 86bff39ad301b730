//! The client's end of a connection: negotiation, reported failures, and following a session
//! without losing or repeating an event.

use vstd::prelude::*;

use super::convert::{required_features, CommandError, ProtocolInfo, REQUIRED_FEATURES};
use super::fields::RpcConversionError;
use super::wire;
use crate::client::session::{ClientSessionError, SessionUpdate};
use crate::session::{
    ErrorCode, SessionCommandError, SessionEvent, SessionEventEnvelope, SessionId, SessionSelector,
    SessionSnapshot,
};
use crate::snapshot::{duplicate_bytes, Duplicate, SnapshotView, SummaryView};
use crate::text::{decimal, decimal_text, same_text};

verus! {

/// What the backend said about itself.
#[derive(Debug)]
pub struct RpcBackendInfo {
    pub protocol_major: u16,
    pub protocol_minor: u16,
    pub instance_id: String,
    pub startup_warnings: Vec<String>,
    pub features: Vec<String>,
}

/// A failed command, conversion, negotiation or connection. The text of a connection failure
/// describes its cause.
#[derive(Debug)]
pub enum RpcClientError {
    IncompatibleProtocol { client: u16, server: u16 },
    MissingFeature { feature: String },
    /// A title matched more than one session.
    AmbiguousTitle { message: String, ids: Vec<SessionId> },
    Command(SessionCommandError),
    Conversion(RpcConversionError),
    Connection(String),
    ConnectionTask(String),
    ConnectionClosed,
    ObserverClosed,
    AttachmentIdExhausted,
    SequenceExhausted,
}

impl RpcClientError {
    /// The description of an error.
    pub open spec fn description(self) -> Seq<char> {
        match self {
            RpcClientError::IncompatibleProtocol { client, server } => {
                "incompatible RPC protocol major: client "@ + decimal(client as nat)
                    + ", server "@ + decimal(server as nat)
            },
            RpcClientError::MissingFeature { feature } => {
                "RPC server does not advertise required feature "@ + feature@
            },
            RpcClientError::AmbiguousTitle { message, .. } => message@,
            RpcClientError::Command(error) => super::convert::command_error_message(error),
            RpcClientError::Conversion(error) => error.description(),
            RpcClientError::Connection(_) => "RPC connection failed"@,
            RpcClientError::ConnectionTask(_) => "RPC connection task failed"@,
            RpcClientError::ConnectionClosed => {
                "RPC connection closed while waiting for a session update"@
            },
            RpcClientError::ObserverClosed => "RPC session observer closed"@,
            RpcClientError::AttachmentIdExhausted => {
                "RPC attachment identifier space is exhausted"@
            },
            RpcClientError::SequenceExhausted => "RPC session event sequence is exhausted"@,
        }
    }

    /// Describes the error.
    pub fn message(&self) -> (text: String)
        ensures
            text@ == self.description(),
    {
        match self {
            RpcClientError::IncompatibleProtocol { client, server } => {
                let mut text = "incompatible RPC protocol major: client ".to_owned();
                let client = decimal_text(*client as u64);
                text.push_str(&client);
                text.push_str(", server ");
                let server = decimal_text(*server as u64);
                text.push_str(&server);
                text
            },
            RpcClientError::MissingFeature { feature } => {
                let mut text = "RPC server does not advertise required feature ".to_owned();
                text.push_str(feature);
                text
            },
            RpcClientError::AmbiguousTitle { message, .. } => message.clone(),
            RpcClientError::Command(SessionCommandError::Reported { message, .. }) => {
                message.clone()
            },
            RpcClientError::Command(SessionCommandError::Local { message, .. }) => message.clone(),
            RpcClientError::Conversion(error) => error.message(),
            RpcClientError::Connection(_) => "RPC connection failed".to_owned(),
            RpcClientError::ConnectionTask(_) => "RPC connection task failed".to_owned(),
            RpcClientError::ConnectionClosed => {
                "RPC connection closed while waiting for a session update".to_owned()
            },
            RpcClientError::ObserverClosed => "RPC session observer closed".to_owned(),
            RpcClientError::AttachmentIdExhausted => {
                "RPC attachment identifier space is exhausted".to_owned()
            },
            RpcClientError::SequenceExhausted => {
                "RPC session event sequence is exhausted".to_owned()
            },
        }
    }
}

/// A failure that the backend reported under a category.
pub open spec fn reports(error: RpcClientError, code: ErrorCode) -> bool {
    match error {
        RpcClientError::Command(SessionCommandError::Reported { code: reported, .. }) => reported
            == code,
        _ => false,
    }
}

fn is_reported(error: &RpcClientError, code: ErrorCode) -> (reported: bool)
    ensures
        reported == reports(*error, code),
{
    match error {
        RpcClientError::Command(SessionCommandError::Reported { code: reported, .. }) => *reported
            == code,
        _ => false,
    }
}

/// Whether the session that was asked for does not exist.
pub fn is_session_not_found(error: &RpcClientError) -> (missing: bool)
    ensures
        missing == reports(*error, ErrorCode::SessionNotFound),
{
    is_reported(error, ErrorCode::SessionNotFound)
}

/// Whether the backend is still starting, by its category alone.
pub fn is_backend_starting(error: &RpcClientError) -> (starting: bool)
    ensures
        starting == reports(*error, ErrorCode::BackendStarting),
{
    is_reported(error, ErrorCode::BackendStarting)
}

impl ClientSessionError {
    /// The failure that is shown for a failed call.
    pub fn from_rpc(error: &RpcClientError) -> (shown: Self)
        ensures
            shown.message@ == error.description(),
            shown.backend_starting == reports(*error, ErrorCode::BackendStarting),
    {
        ClientSessionError {
            message: error.message(),
            backend_starting: is_backend_starting(error),
        }
    }
}

/// Accepts a backend of the same major version only.
pub fn validate_protocol_major(client: u16, server: u16) -> (result: Result<(), RpcClientError>)
    ensures
        result == if client == server {
            Ok::<(), RpcClientError>(())
        } else {
            Err(RpcClientError::IncompatibleProtocol { client, server })
        },
{
    if client == server {
        Ok(())
    } else {
        Err(RpcClientError::IncompatibleProtocol { client, server })
    }
}

/// The first required feature that is not among some features, from `index` on.
pub open spec fn missing_feature(features: Seq<Seq<char>>, index: int) -> Option<Seq<char>>
    decreases required_features().len() - index,
{
    if index >= required_features().len() {
        None
    } else if features.contains(required_features()[index]) {
        missing_feature(features, index + 1)
    } else {
        Some(required_features()[index])
    }
}

fn has_feature(features: &Vec<String>, wanted: &str) -> (found: bool)
    ensures
        found == features.deep_view().contains(wanted@),
{
    let ghost all = features.deep_view();
    let mut index: usize = 0;
    while index < features.len()
        invariant
            index <= features@.len(),
            all == features.deep_view(),
            forall|i: int| 0 <= i < index ==> all[i] != wanted@,
        decreases features@.len() - index,
    {
        assert(all[index as int] == features@[index as int]@);
        if same_text(&features[index], wanted) {
            return true;
        }
        index += 1;
    }
    false
}

/// A backend of this major version that has every required feature is accepted.
pub open spec fn negotiated(info: ProtocolInfo, result: Result<RpcBackendInfo, RpcClientError>) -> bool {
    if info.major != wire::PROTOCOL_MAJOR {
        result == Err::<RpcBackendInfo, RpcClientError>(
            RpcClientError::IncompatibleProtocol {
                client: wire::PROTOCOL_MAJOR,
                server: info.major,
            },
        )
    } else {
        match missing_feature(info.features.deep_view(), 0) {
            Some(feature) => match result {
                Err(RpcClientError::MissingFeature { feature: shown }) => shown@ == feature,
                _ => false,
            },
            None => result == Ok::<RpcBackendInfo, RpcClientError>(
                RpcBackendInfo {
                    protocol_major: info.major,
                    protocol_minor: info.minor,
                    instance_id: info.instance_id,
                    startup_warnings: info.startup_warnings,
                    features: info.features,
                },
            ),
        }
    }
}

/// Decides whether a backend is accepted.
pub fn negotiate(info: ProtocolInfo) -> (result: Result<RpcBackendInfo, RpcClientError>)
    ensures
        negotiated(info, result),
{
    validate_protocol_major(wire::PROTOCOL_MAJOR, info.major)?;
    let required = REQUIRED_FEATURES;
    let mut index: usize = 0;
    while index < 17
        invariant
            index <= 17,
            required == REQUIRED_FEATURES,
            info.major == wire::PROTOCOL_MAJOR,
            missing_feature(info.features.deep_view(), 0) == missing_feature(
                info.features.deep_view(),
                index as int,
            ),
        decreases 17 - index,
    {
        assert(required_features()[index as int] == required@[index as int]@);
        if !has_feature(&info.features, required[index]) {
            return Err(RpcClientError::MissingFeature { feature: required[index].to_owned() });
        }
        index += 1;
    }
    Ok(
        RpcBackendInfo {
            protocol_major: info.major,
            protocol_minor: info.minor,
            instance_id: info.instance_id,
            startup_warnings: info.startup_warnings,
            features: info.features,
        },
    )
}

/// A backend that advertises what this protocol version requires is accepted.
pub proof fn lemma_own_features_suffice(features: Seq<Seq<char>>, index: int)
    requires
        features == required_features(),
        0 <= index <= required_features().len(),
    ensures
        missing_feature(features, index) is None,
    decreases required_features().len() - index,
{
    if index < required_features().len() {
        assert(features[index] == required_features()[index]);
        lemma_own_features_suffice(features, index + 1);
    }
}

/// The failure of a call that the backend refused: an ambiguous title comes with the sessions that
/// it matches.
pub open spec fn reported_error(error: CommandError) -> RpcClientError {
    if error.code == ErrorCode::AmbiguousTitle {
        RpcClientError::AmbiguousTitle { message: error.message, ids: error.ids }
    } else {
        RpcClientError::Command(
            SessionCommandError::Reported { code: error.code, message: error.message },
        )
    }
}

/// The result of a call that the backend answered.
pub fn reported_result<T>(result: Result<T, CommandError>) -> (reported: Result<T, RpcClientError>)
    ensures
        reported == match result {
            Ok(value) => Ok::<T, RpcClientError>(value),
            Err(error) => Err(reported_error(error)),
        },
{
    match result {
        Ok(value) => Ok(value),
        Err(error) => {
            if error.code == ErrorCode::AmbiguousTitle {
                Err(RpcClientError::AmbiguousTitle { message: error.message, ids: error.ids })
            } else {
                Err(
                    RpcClientError::Command(
                        SessionCommandError::Reported { code: error.code, message: error.message },
                    ),
                )
            }
        },
    }
}

/// Numbers the attachments of one process, from one on.
#[derive(Debug)]
pub struct AttachmentIds {
    last: u64,
}

impl AttachmentIds {
    /// The last number given out.
    pub closed spec fn last(&self) -> u64 {
        self.last
    }

    /// Numbers that go on after `last`.
    pub fn after(last: u64) -> (ids: Self)
        ensures
            ids.last() == last,
    {
        AttachmentIds { last }
    }

    /// Gives out the next number, none twice.
    pub fn allocate(&mut self) -> (result: Result<u64, RpcClientError>)
        ensures
            if old(self).last() == u64::MAX {
                result == Err::<u64, RpcClientError>(RpcClientError::AttachmentIdExhausted)
                    && final(self).last() == old(self).last()
            } else {
                result == Ok::<u64, RpcClientError>((old(self).last() + 1) as u64) && final(
                    self).last() == old(self).last() + 1
            },
    {
        match self.last.checked_add(1) {
            Some(id) => {
                self.last = id;
                Ok(id)
            },
            None => Err(RpcClientError::AttachmentIdExhausted),
        }
    }
}

impl Default for AttachmentIds {
    fn default() -> (ids: Self)
        ensures
            ids.last() == 0,
    {
        AttachmentIds { last: 0 }
    }
}

/// Why a session is attached again.
#[derive(Clone, Copy, Debug, PartialEq, Eq, Structural)]
pub enum RecoveryReason {
    SequenceGap,
    SequenceOverflow,
    ObserverClosed,
}

/// A callback of an attachment.
#[derive(Debug)]
pub struct ObserverMessage {
    pub attachment_id: u64,
    pub event: Result<SessionEventEnvelope, RpcConversionError>,
}

/// A fresh attachment, and what became of detaching the old one.
#[derive(Debug)]
pub struct RecoveredAttachment {
    /// The session that was opened, which takes the place of the old one.
    pub session: wire::SessionCapability,
    pub snapshot: SessionSnapshot,
    pub attachment_id: u64,
    /// The number of clients still attached.
    pub detached: Result<u32, RpcClientError>,
}

/// What to do for the next update of a session.
#[derive(Debug)]
pub enum FollowStep {
    /// Wait for a callback or the end of the connection.
    Receive,
    /// Attach again under the same identifier, then detach the old attachment.
    Recover,
    Deliver(SessionUpdate),
    Fail(RpcClientError),
}

/// Follows one attached session.
#[derive(Debug)]
pub struct SessionFollower {
    session_id: SessionId,
    snapshot: SessionSnapshot,
    attachment_id: u64,
    expected_sequence: u64,
    recovery: Option<RecoveryReason>,
    pending_warning: Option<String>,
    sequence_exhausted: bool,
}

/// [`SessionFollower`] as contracts see it.
pub ghost struct FollowerView {
    /// The session of the first attachment.
    pub session_id: SessionId,
    pub snapshot: SnapshotView,
    pub attachment_id: u64,
    pub expected_sequence: u64,
    pub recovery: Option<RecoveryReason>,
    pub pending_warning: Option<Seq<char>>,
    pub sequence_exhausted: bool,
}

impl FollowerView {
    /// A session followed from a snapshot on.
    pub open spec fn from(snapshot: SnapshotView, attachment_id: u64) -> FollowerView {
        FollowerView {
            session_id: snapshot.summary.id,
            snapshot,
            attachment_id,
            expected_sequence: snapshot.sequence,
            recovery: None,
            pending_warning: None,
            sequence_exhausted: false,
        }
    }

    pub open spec fn recovering(self, reason: RecoveryReason) -> FollowerView {
        FollowerView { recovery: Some(reason), ..self }
    }

    /// The decision on the next update: a kept warning comes first, then a recovery that was begun;
    /// the end of all sequence numbers is tried once more with a fresh attachment.
    pub open spec fn goes_on(
        self,
        connection_closed: bool,
        step: FollowStep,
        after: FollowerView,
    ) -> bool {
        match self.pending_warning {
            Some(warning) => {
                &&& after == (FollowerView { pending_warning: None, ..self })
                &&& match step {
                    FollowStep::Deliver(SessionUpdate::Warning(text)) => text@ == warning,
                    _ => false,
                }
            },
            None => if self.recovery is Some {
                step is Recover && after == self
            } else if self.expected_sequence == u64::MAX {
                if self.sequence_exhausted {
                    step == FollowStep::Fail(RpcClientError::SequenceExhausted) && after
                        == self
                } else {
                    step is Recover && after == self.recovering(
                        RecoveryReason::SequenceOverflow,
                    )
                }
            } else if connection_closed {
                step == FollowStep::Fail(RpcClientError::ConnectionClosed) && after
                    == self
            } else {
                step is Receive && after == self
            },
        }
    }

    /// The taking of a callback, or of the end of the observer: only the next event of the current
    /// attachment is delivered, earlier ones are dropped, and a gap begins a recovery.
    pub open spec fn receives(
        self,
        message: Option<ObserverMessage>,
        step: FollowStep,
        after: FollowerView,
    ) -> bool {
        match message {
            None => step is Recover && after == self.recovering(
                RecoveryReason::ObserverClosed,
            ),
            Some(message) => if message.attachment_id != self.attachment_id {
                step is Receive && after == self
            } else {
                match message.event {
                    Err(error) => step == FollowStep::Fail(
                        RpcClientError::Conversion(error),
                    ) && after == self,
                    Ok(event) => if event.event is Deleted {
                        &&& after == self
                        &&& match step {
                            FollowStep::Deliver(
                                SessionUpdate::Deleted { session_id, cwd },
                            ) => session_id == event.event->Deleted_session_id && cwd@
                                == self.snapshot.summary.cwd,
                            _ => false,
                        }
                    } else if event.sequence <= self.expected_sequence {
                        step is Receive && after == self
                    } else if event.sequence == self.expected_sequence + 1 {
                        &&& step == FollowStep::Deliver(SessionUpdate::Event(event))
                        &&& after == (FollowerView {
                            expected_sequence: event.sequence,
                            ..self
                        })
                    } else {
                        step is Recover && after == self.recovering(
                            RecoveryReason::SequenceGap,
                        )
                    },
                }
            },
        }
    }

    /// The end of a recovery: a session that is gone counts as deleted, and another one is followed
    /// from its snapshot on.
    pub open spec fn recovers(
        self,
        result: Result<RecoveredAttachment, RpcClientError>,
        update: Result<SessionUpdate, RpcClientError>,
        after: FollowerView,
    ) -> bool {
        match result {
            Err(error) => {
                &&& after == (FollowerView { recovery: None, ..self })
                &&& if reports(error, ErrorCode::SessionNotFound) {
                    match update {
                        Ok(SessionUpdate::Deleted { session_id, cwd }) => session_id
                            == self.snapshot.summary.id && cwd@
                            == self.snapshot.summary.cwd,
                        _ => false,
                    }
                } else {
                    update == Err::<SessionUpdate, RpcClientError>(error)
                }
            },
            Ok(recovered) => {
                &&& after == (FollowerView {
                    pending_warning: match recovered.detached {
                        Ok(_) => None,
                        Err(error) => Some(detach_warning(error)),
                    },
                    sequence_exhausted: self.recovery == Some(
                        RecoveryReason::SequenceOverflow,
                    ) && recovered.snapshot.sequence == u64::MAX,
                    session_id: self.session_id,
                    ..FollowerView::from(
                        recovered_snapshot(recovered),
                        recovered.attachment_id,
                    )
                })
                &&& match update {
                    Ok(SessionUpdate::SnapshotReplaced(snapshot)) => snapshot.deep_view()
                        == after.snapshot,
                    _ => false,
                }
            },
        }
    }
}

/// The text of a failure to detach the old attachment.
pub open spec fn detach_warning(error: RpcClientError) -> Seq<char> {
    "old session attachment could not be detached after recovery: "@ + error.description()
}

/// The snapshot of a fresh attachment, with the number of clients after the old one was detached.
pub open spec fn recovered_snapshot(recovered: RecoveredAttachment) -> SnapshotView {
    let snapshot = recovered.snapshot.deep_view();
    match recovered.detached {
        Ok(attached_clients) => SnapshotView {
            summary: SummaryView { attached_clients, ..snapshot.summary },
            ..snapshot
        },
        Err(_) => snapshot,
    }
}

impl SessionFollower {
    /// The state of the follower.
    pub closed spec fn state(&self) -> FollowerView {
        FollowerView {
            session_id: self.session_id,
            snapshot: self.snapshot.deep_view(),
            attachment_id: self.attachment_id,
            expected_sequence: self.expected_sequence,
            recovery: self.recovery,
            pending_warning: crate::snapshot::optional_text(self.pending_warning),
            sequence_exhausted: self.sequence_exhausted,
        }
    }

    /// Follows a session from its snapshot on.
    pub fn new(snapshot: SessionSnapshot, attachment_id: u64) -> (follower: Self)
        ensures
            follower.state() == FollowerView::from(snapshot.deep_view(), attachment_id),
    {
        let expected_sequence: u64 = snapshot.sequence;
        SessionFollower {
            session_id: snapshot.summary.id,
            snapshot,
            attachment_id,
            expected_sequence,
            recovery: None,
            pending_warning: None,
            sequence_exhausted: false,
        }
    }

    /// The snapshot of the latest attachment.
    pub fn snapshot(&self) -> (snapshot: &SessionSnapshot)
        ensures
            snapshot.deep_view() == self.state().snapshot,
    {
        &self.snapshot
    }

    /// The number of the current attachment.
    pub fn attachment_id(&self) -> (id: u64)
        ensures
            id == self.state().attachment_id,
    {
        self.attachment_id
    }

    /// How the session is attached again: by the identifier of the first attachment.
    pub fn reattach_selector(&self) -> (selector: SessionSelector)
        ensures
            selector == SessionSelector::Id(self.state().session_id),
    {
        SessionSelector::Id(self.session_id)
    }

    /// Decides what to do for the next update: a kept warning comes first, then a recovery that
    /// was begun; the end of all sequence numbers is tried once more with a fresh attachment.
    pub fn next(&mut self, connection_closed: bool) -> (step: FollowStep)
        ensures
            old(self).state().goes_on(connection_closed, step, final(self).state()),
    {
        if let Some(warning) = self.pending_warning.take() {
            return FollowStep::Deliver(SessionUpdate::Warning(warning));
        }
        if self.recovery.is_some() {
            return FollowStep::Recover;
        }
        if self.expected_sequence == u64::MAX {
            if self.sequence_exhausted {
                return FollowStep::Fail(RpcClientError::SequenceExhausted);
            }
            self.recovery = Some(RecoveryReason::SequenceOverflow);
            return FollowStep::Recover;
        }
        if connection_closed {
            return FollowStep::Fail(RpcClientError::ConnectionClosed);
        }
        FollowStep::Receive
    }

    /// Takes a callback, or `None` where the observer was closed: only the next event of the
    /// current attachment is delivered, earlier ones are dropped, and a gap begins a recovery.
    /// [`FollowStep::Receive`] is to wait for the next callback.
    pub fn received(&mut self, message: Option<ObserverMessage>) -> (step: FollowStep)
        ensures
            old(self).state().receives(message, step, final(self).state()),
    {
        let message = match message {
            Some(message) => message,
            None => {
                self.recovery = Some(RecoveryReason::ObserverClosed);
                return FollowStep::Recover;
            },
        };
        if message.attachment_id != self.attachment_id {
            return FollowStep::Receive;
        }
        let event = match message.event {
            Ok(event) => event,
            Err(error) => {
                return FollowStep::Fail(RpcClientError::Conversion(error));
            },
        };
        if let SessionEvent::Deleted { session_id } = &event.event {
            return FollowStep::Deliver(
                SessionUpdate::Deleted {
                    session_id: *session_id,
                    cwd: duplicate_bytes(&self.snapshot.summary.cwd),
                },
            );
        }
        if event.sequence <= self.expected_sequence {
            return FollowStep::Receive;
        }
        if event.sequence - 1 == self.expected_sequence {
            self.expected_sequence = event.sequence;
            return FollowStep::Deliver(SessionUpdate::Event(event));
        }
        self.recovery = Some(RecoveryReason::SequenceGap);
        FollowStep::Recover
    }

    /// Takes the end of a recovery: a session that is gone counts as deleted.
    pub fn recovered(&mut self, result: Result<RecoveredAttachment, RpcClientError>) -> (update:
        Result<SessionUpdate, RpcClientError>)
        ensures
            old(self).state().recovers(result, update, final(self).state()),
    {
        let reason = self.recovery.take();
        let recovered = match result {
            Ok(recovered) => recovered,
            Err(error) => {
                if is_session_not_found(&error) {
                    return Ok(
                        SessionUpdate::Deleted {
                            session_id: self.snapshot.summary.id,
                            cwd: duplicate_bytes(&self.snapshot.summary.cwd),
                        },
                    );
                }
                return Err(error);
            },
        };
        let mut snapshot = recovered.snapshot;
        self.pending_warning = match recovered.detached {
            Ok(attached_clients) => {
                snapshot.summary.attached_clients = attached_clients;
                None
            },
            Err(error) => {
                let mut warning =
                    "old session attachment could not be detached after recovery: ".to_owned();
                let message = error.message();
                warning.push_str(&message);
                Some(warning)
            },
        };
        let overflow = match reason {
            Some(RecoveryReason::SequenceOverflow) => true,
            _ => false,
        };
        self.sequence_exhausted = overflow && snapshot.sequence == u64::MAX;
        self.expected_sequence = snapshot.sequence;
        self.attachment_id = recovered.attachment_id;
        let shown = snapshot.duplicate();
        self.snapshot = snapshot;
        Ok(SessionUpdate::SnapshotReplaced(shown))
    }
}

/// Whatever comes, a session is attached again under the identifier of its first attachment, also
/// where a backend answered with another session.
pub proof fn lemma_identifier_is_fixed(
    before: FollowerView,
    connection_closed: bool,
    message: Option<ObserverMessage>,
    result: Result<RecoveredAttachment, RpcClientError>,
    step: FollowStep,
    update: Result<SessionUpdate, RpcClientError>,
    after: FollowerView,
)
    requires
        before.goes_on(connection_closed, step, after) || before.receives(message, step, after)
            || before.recovers(result, update, after),
    ensures
        after.session_id == before.session_id,
{
}

proof fn lemma_missing_feature_is_required(features: Seq<Seq<char>>, index: int)
    requires
        0 <= index <= required_features().len(),
    ensures
        match missing_feature(features, index) {
            Some(feature) => !features.contains(feature) && required_features().contains(feature)
                && exists|place: int|
                index <= place < required_features().len() && #[trigger] required_features()[place]
                    == feature && forall|i: int|
                    index <= i < place ==> features.contains(#[trigger] required_features()[i]),
            None => forall|i: int|
                index <= i < required_features().len() ==> features.contains(
                    #[trigger] required_features()[i],
                ),
        },
    decreases required_features().len() - index,
{
    if index < required_features().len() {
        let required = required_features()[index];
        if features.contains(required) {
            lemma_missing_feature_is_required(features, index + 1);
            if let Some(feature) = missing_feature(features, index + 1) {
                let place = choose|place: int|
                    index + 1 <= place < required_features().len()
                        && #[trigger] required_features()[place] == feature && forall|i: int|
                        index + 1 <= i < place ==> features.contains(
                            #[trigger] required_features()[i],
                        );
                assert(required_features()[place] == feature);
                assert forall|i: int| index <= i < place implies features.contains(
                    #[trigger] required_features()[i],
                ) by {
                    if i == index {
                        assert(features.contains(required));
                    }
                }
            }
        } else {
            assert(required_features()[index] == required);
        }
    }
}

/// A server is taken exactly when it speaks major version 2 and offers every feature that the
/// client needs; then what it said of itself is kept. Otherwise the reason is told: the versions,
/// or the first feature that is missing.
pub proof fn lemma_servers_must_offer_every_feature()
    ensures
        forall|info: ProtocolInfo, result: Result<RpcBackendInfo, RpcClientError>| #[trigger]
            call_ensures(negotiate, (info,), result) ==> {
                &&& result is Ok <==> info.major == 2 && forall|i: int|
                    0 <= i < required_features().len() ==> info.features.deep_view().contains(
                        #[trigger] required_features()[i],
                    )
                &&& result is Ok ==> result->Ok_0.protocol_major == info.major
                    && result->Ok_0.protocol_minor == info.minor && result->Ok_0.instance_id
                    == info.instance_id && result->Ok_0.startup_warnings == info.startup_warnings
                    && result->Ok_0.features == info.features
                &&& info.major != 2 ==> result == Err::<RpcBackendInfo, RpcClientError>(
                    RpcClientError::IncompatibleProtocol { client: 2, server: info.major },
                )
                &&& info.major == 2 && result is Err ==> result->Err_0 is MissingFeature
                    && required_features().contains(result->Err_0->feature@)
                    && !info.features.deep_view().contains(result->Err_0->feature@)
            },
        required_features().len() == 17,
{
    assert forall|info: ProtocolInfo, result: Result<RpcBackendInfo, RpcClientError>| #[trigger]
        call_ensures(negotiate, (info,), result) implies {
        &&& result is Ok <==> info.major == 2 && forall|i: int|
            0 <= i < required_features().len() ==> info.features.deep_view().contains(
                #[trigger] required_features()[i],
            )
        &&& result is Ok ==> result->Ok_0.protocol_major == info.major
            && result->Ok_0.protocol_minor == info.minor && result->Ok_0.instance_id
            == info.instance_id && result->Ok_0.startup_warnings == info.startup_warnings
            && result->Ok_0.features == info.features
        &&& info.major != 2 ==> result == Err::<RpcBackendInfo, RpcClientError>(
            RpcClientError::IncompatibleProtocol { client: 2, server: info.major },
        )
        &&& info.major == 2 && result is Err ==> result->Err_0 is MissingFeature
            && required_features().contains(result->Err_0->feature@)
            && !info.features.deep_view().contains(result->Err_0->feature@)
    } by {
        lemma_missing_feature_is_required(info.features.deep_view(), 0);
    }
}

/// Every attachment has a number that no earlier one had, as long as there are any.
pub proof fn lemma_attachment_numbers_only_rise()
    ensures
        forall|ids: &mut AttachmentIds, result: Result<u64, RpcClientError>| #[trigger]
            call_ensures(AttachmentIds::allocate, (ids,), result) ==> {
                &&& result is Ok ==> result->Ok_0 > ids.last() && final(ids).last() == result->Ok_0
                    && result->Ok_0 == ids.last() + 1
                &&& result is Err <==> ids.last() == u64::MAX
                &&& result is Err ==> result->Err_0 is AttachmentIdExhausted && final(ids).last()
                    == ids.last()
            },
{
}

/// Events of a session are handed on in their order, each once: the next one is delivered, one
/// that was seen is passed over, and a gap makes the session attach again. Callbacks of another
/// attachment count for nothing.
pub proof fn lemma_events_are_delivered_in_order()
    ensures
        forall|
            follower: &mut SessionFollower,
            message: Option<ObserverMessage>,
            step: FollowStep,
        | #[trigger]
            call_ensures(SessionFollower::received, (follower, message), step) ==> {
                let before = follower.state();
                let after = final(follower).state();
                &&& after.snapshot == before.snapshot && after.attachment_id
                    == before.attachment_id
                &&& message is None ==> step is Recover && after.recovery == Some(
                    RecoveryReason::ObserverClosed,
                )
                &&& message is Some && message->0.attachment_id != before.attachment_id
                    ==> step is Receive && after == before
                &&& message is Some && message->0.attachment_id == before.attachment_id
                    && message->0.event is Err ==> step is Fail && after == before
                &&& message is Some && message->0.attachment_id == before.attachment_id
                    && message->0.event is Ok ==> {
                    let event = message->0.event->Ok_0;
                    &&& event.event is Deleted ==> step is Deliver && step->Deliver_0 is Deleted
                        && step->Deliver_0->Deleted_session_id
                        == event.event->Deleted_session_id && step->Deliver_0->Deleted_cwd@
                        == before.snapshot.summary.cwd && after.expected_sequence
                        == before.expected_sequence
                    &&& !(event.event is Deleted) && event.sequence == before.expected_sequence + 1
                        ==> step is Deliver && step->Deliver_0 == SessionUpdate::Event(event)
                        && after.expected_sequence == event.sequence
                    &&& !(event.event is Deleted) && event.sequence <= before.expected_sequence
                        ==> step is Receive && after == before
                    &&& !(event.event is Deleted) && event.sequence > before.expected_sequence + 1
                        ==> step is Recover && after.recovery == Some(RecoveryReason::SequenceGap)
                        && after.expected_sequence == before.expected_sequence
                }
                &&& step is Deliver && step->Deliver_0 is Event
                    ==> step->Deliver_0->Event_0.sequence == before.expected_sequence + 1
            },
{
}

/// What a follower does next: a warning that is due comes first, then a recovery that is due; it
/// waits only on an open connection, and a sequence at its end is recovered once and then fails.
pub proof fn lemma_followers_recover_before_they_wait()
    ensures
        forall|follower: &mut SessionFollower, closed: bool, step: FollowStep| #[trigger]
            call_ensures(SessionFollower::next, (follower, closed), step) ==> {
                let before = follower.state();
                let after = final(follower).state();
                &&& after.snapshot == before.snapshot && after.expected_sequence
                    == before.expected_sequence && after.attachment_id == before.attachment_id
                &&& after.pending_warning is None
                &&& before.pending_warning is Some ==> step is Deliver
                    && step->Deliver_0 is Warning && step->Deliver_0->Warning_0@
                    == before.pending_warning->0 && after.recovery == before.recovery
                &&& before.pending_warning is None && before.recovery is Some ==> step is Recover
                    && after == before
                &&& step is Receive ==> !closed && before.recovery is None
                    && before.pending_warning is None && before.expected_sequence < u64::MAX
                &&& before.pending_warning is None && before.recovery is None
                    && before.expected_sequence < u64::MAX ==> (closed ==> step
                    == FollowStep::Fail(RpcClientError::ConnectionClosed)) && (!closed
                    ==> step is Receive)
                &&& before.pending_warning is None && before.recovery is None
                    && before.expected_sequence == u64::MAX ==> (if before.sequence_exhausted {
                    step == FollowStep::Fail(RpcClientError::SequenceExhausted)
                } else {
                    step is Recover && after.recovery == Some(RecoveryReason::SequenceOverflow)
                })
            },
        forall|snapshot: SessionSnapshot, attachment: u64, follower: SessionFollower| #[trigger]
            call_ensures(SessionFollower::new, (snapshot, attachment), follower) ==> {
                &&& follower.state().expected_sequence == snapshot.sequence
                &&& follower.state().attachment_id == attachment
                &&& follower.state().snapshot == snapshot.deep_view()
                &&& follower.state().recovery is None && follower.state().pending_warning is None
            },
{
}

/// A recovered session shows the fresh snapshot and goes on after it under the new attachment; one
/// that is gone is told as deleted, and any other failure as itself. Neither is tried again by
/// itself.
pub proof fn lemma_recoveries_start_from_the_snapshot()
    ensures
        forall|
            follower: &mut SessionFollower,
            result: Result<RecoveredAttachment, RpcClientError>,
            update: Result<SessionUpdate, RpcClientError>,
        | #[trigger]
            call_ensures(SessionFollower::recovered, (follower, result), update) ==> {
                let before = follower.state();
                let after = final(follower).state();
                &&& after.recovery is None
                &&& result is Ok ==> {
                    let fresh = result->Ok_0;
                    &&& update is Ok && update->Ok_0 is SnapshotReplaced
                    &&& update->Ok_0->SnapshotReplaced_0.deep_view() == after.snapshot
                    &&& after.attachment_id == fresh.attachment_id
                    &&& after.expected_sequence == fresh.snapshot.sequence
                    &&& after.snapshot.transcript == fresh.snapshot.transcript.deep_view()
                    &&& after.snapshot.summary.id == fresh.snapshot.summary.id
                    &&& fresh.detached is Ok ==> after.pending_warning is None
                        && after.snapshot.summary.attached_clients == fresh.detached->Ok_0
                    &&& fresh.detached is Err ==> after.pending_warning is Some
                        && after.snapshot == fresh.snapshot.deep_view()
                }
                &&& result is Err ==> {
                    let missing = result->Err_0 is Command && result->Err_0->Command_0 is Reported
                        && result->Err_0->Command_0->Reported_code == ErrorCode::SessionNotFound;
                    &&& after.snapshot == before.snapshot && after.attachment_id
                        == before.attachment_id
                    &&& missing ==> update is Ok && update->Ok_0 is Deleted
                        && update->Ok_0->Deleted_session_id == before.snapshot.summary.id
                        && update->Ok_0->Deleted_cwd@ == before.snapshot.summary.cwd
                    &&& !missing ==> update == Err::<SessionUpdate, RpcClientError>(result->Err_0)
                }
            },
{
}

/// What the backend reports keeps its category and its text, and an ambiguous title the sessions
/// that it may mean; a backend that is starting is told apart from every other failure.
pub proof fn lemma_reports_keep_what_they_say()
    ensures
        forall|result: Result<(), CommandError>, reported: Result<(), RpcClientError>| #[trigger]
            call_ensures(reported_result::<()>, (result,), reported) ==> {
                &&& result is Ok <==> reported is Ok
                &&& result is Err && result->Err_0.code == ErrorCode::AmbiguousTitle
                    ==> reported->Err_0 is AmbiguousTitle && reported->Err_0->ids
                    == result->Err_0.ids && reported->Err_0->AmbiguousTitle_message
                    == result->Err_0.message
                &&& result is Err && result->Err_0.code != ErrorCode::AmbiguousTitle
                    ==> reported->Err_0 == RpcClientError::Command(
                    SessionCommandError::Reported {
                        code: result->Err_0.code,
                        message: result->Err_0.message,
                    },
                )
            },
        forall|error: &RpcClientError, starting: bool| #[trigger]
            call_ensures(is_backend_starting, (error,), starting) ==> (starting
                <==> error is Command && error->Command_0 is Reported
                && error->Command_0->Reported_code == ErrorCode::BackendStarting),
        forall|error: &RpcClientError, missing: bool| #[trigger]
            call_ensures(is_session_not_found, (error,), missing) ==> (missing
                <==> error is Command && error->Command_0 is Reported
                && error->Command_0->Reported_code == ErrorCode::SessionNotFound),
{
}

/// Versions agree exactly when their major numbers are the same.
pub proof fn lemma_major_versions_must_agree()
    ensures
        forall|client: u16, server: u16, result: Result<(), RpcClientError>| #[trigger]
            call_ensures(validate_protocol_major, (client, server), result) ==> {
                &&& result is Ok <==> client == server
                &&& result is Err ==> result->Err_0 == (RpcClientError::IncompatibleProtocol {
                    client,
                    server,
                })
            },
{
}

} // verus!
