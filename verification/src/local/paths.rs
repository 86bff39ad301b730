//! Moh's files and directories, and the rules under which they are trusted.
//!
//! Paths are the bytes of a Unix path. The caller makes the system calls.

use vstd::prelude::*;

use crate::snapshot::duplicate_bytes;
use crate::text::{decimal, decimal_text, text_from_utf8_lossy, utf8_lossy};

verus! {

/// The access of a private directory: its owner alone.
pub const PRIVATE_DIRECTORY_MODE: u32 = 0o700;

/// The access of a private file: its owner alone.
pub const PRIVATE_FILE_MODE: u32 = 0o600;

/// The directories that Moh's paths are resolved in.
#[derive(Debug)]
pub struct PathRoots {
    /// The runtime directory of the user, where there is one.
    pub runtime_dir: Option<Vec<u8>>,
    /// The temporary directory of the system.
    pub temp_dir: Vec<u8>,
    /// The configuration directory.
    pub config_dir: Vec<u8>,
    /// The state directory.
    pub state_dir: Vec<u8>,
    /// The effective user, who owns all trusted paths.
    pub effective_uid: u32,
}

/// Why a path is not trusted or could not be prepared. A source is the description of a system
/// error.
#[derive(Debug)]
pub enum LocalPathError {
    PlatformDirectoriesUnavailable,
    Inspect { path: Vec<u8>, source: String },
    CreateRuntimeDirectory { path: Vec<u8>, source: String },
    OpenRuntimeDirectory { path: Vec<u8>, source: String },
    RuntimeDirectoryType { path: Vec<u8> },
    RuntimeDirectoryOwner { path: Vec<u8>, found: u32, expected: u32 },
    RestrictRuntimeDirectory { path: Vec<u8>, source: String },
    CreateStateDirectory { path: Vec<u8>, source: String },
    OpenStateDirectory { path: Vec<u8>, source: String },
    StateDirectoryType { path: Vec<u8> },
    StateDirectoryOwner { path: Vec<u8>, found: u32, expected: u32 },
    RestrictStateDirectory { path: Vec<u8>, source: String },
    UnsafeStateDirectory { path: Vec<u8>, reason: &'static str },
    SocketType { path: Vec<u8> },
    SocketOwner { path: Vec<u8>, found: u32, expected: u32 },
}

/// A text with a path in it.
pub open spec fn around(before: Seq<char>, path: Seq<u8>, after: Seq<char>) -> Seq<char> {
    before + utf8_lossy(path) + after
}

fn text_around(before: &str, path: &Vec<u8>, after: &str) -> (text: String)
    ensures
        text@ == around(before@, path@, after@),
{
    let mut text = before.to_owned();
    let shown = text_from_utf8_lossy(path.as_slice());
    text.push_str(&shown);
    text.push_str(after);
    text
}

/// The words on an owner that was not expected.
pub open spec fn owner_words(found: u32, expected: u32) -> Seq<char> {
    " has unexpected owner uid "@ + decimal(found as nat) + "; expected uid "@ + decimal(
        expected as nat,
    )
}

fn owner_text(found: u32, expected: u32) -> (text: String)
    ensures
        text@ == owner_words(found, expected),
{
    let mut text = " has unexpected owner uid ".to_owned();
    let found = decimal_text(found as u64);
    text.push_str(&found);
    text.push_str("; expected uid ");
    let expected = decimal_text(expected as u64);
    text.push_str(&expected);
    text
}

impl LocalPathError {
    /// The description of an error.
    pub open spec fn description(self) -> Seq<char> {
        match self {
            LocalPathError::PlatformDirectoriesUnavailable => {
                "could not resolve Moh's platform directories"@
            },
            LocalPathError::Inspect { path, source } => around(
                "could not inspect local path "@,
                path@,
                ": "@ + source@,
            ),
            LocalPathError::CreateRuntimeDirectory { path, source } => around(
                "could not create runtime directory "@,
                path@,
                ": "@ + source@,
            ),
            LocalPathError::OpenRuntimeDirectory { path, source } => around(
                "could not open secure runtime directory "@,
                path@,
                ": "@ + source@,
            ),
            LocalPathError::RuntimeDirectoryType { path } => around(
                "runtime directory "@,
                path@,
                " has an unexpected type; expected an owned directory"@,
            ),
            LocalPathError::RuntimeDirectoryOwner { path, found, expected } => around(
                "runtime directory "@,
                path@,
                owner_words(found, expected),
            ),
            LocalPathError::RestrictRuntimeDirectory { path, source } => around(
                "could not restrict runtime directory "@,
                path@,
                " to owner-only access: "@ + source@,
            ),
            LocalPathError::CreateStateDirectory { path, source } => around(
                "could not create state directory "@,
                path@,
                ": "@ + source@,
            ),
            LocalPathError::OpenStateDirectory { path, source } => around(
                "could not open secure state directory "@,
                path@,
                ": "@ + source@,
            ),
            LocalPathError::StateDirectoryType { path } => around(
                "state directory "@,
                path@,
                " has an unexpected type; expected an owned directory"@,
            ),
            LocalPathError::StateDirectoryOwner { path, found, expected } => around(
                "state directory "@,
                path@,
                owner_words(found, expected),
            ),
            LocalPathError::RestrictStateDirectory { path, source } => around(
                "could not restrict state directory "@,
                path@,
                " to owner-only access: "@ + source@,
            ),
            LocalPathError::UnsafeStateDirectory { path, reason } => around(
                "state directory "@,
                path@,
                " cannot be prepared securely: "@ + reason@,
            ),
            LocalPathError::SocketType { path } => around(
                "socket candidate "@,
                path@,
                " has an unexpected type; expected an owned Unix socket"@,
            ),
            LocalPathError::SocketOwner { path, found, expected } => around(
                "socket candidate "@,
                path@,
                owner_words(found, expected),
            ),
        }
    }

    /// Describes the error.
    pub fn message(&self) -> (text: String)
        ensures
            text@ == self.description(),
    {
        match self {
            LocalPathError::PlatformDirectoriesUnavailable => {
                "could not resolve Moh's platform directories".to_owned()
            },
            LocalPathError::Inspect { path, source } => {
                let after = joined(": ", source);
                text_around("could not inspect local path ", path, &after)
            },
            LocalPathError::CreateRuntimeDirectory { path, source } => {
                let after = joined(": ", source);
                text_around("could not create runtime directory ", path, &after)
            },
            LocalPathError::OpenRuntimeDirectory { path, source } => {
                let after = joined(": ", source);
                text_around("could not open secure runtime directory ", path, &after)
            },
            LocalPathError::RuntimeDirectoryType { path } => text_around(
                "runtime directory ",
                path,
                " has an unexpected type; expected an owned directory",
            ),
            LocalPathError::RuntimeDirectoryOwner { path, found, expected } => {
                let after = owner_text(*found, *expected);
                text_around("runtime directory ", path, &after)
            },
            LocalPathError::RestrictRuntimeDirectory { path, source } => {
                let after = joined(" to owner-only access: ", source);
                text_around("could not restrict runtime directory ", path, &after)
            },
            LocalPathError::CreateStateDirectory { path, source } => {
                let after = joined(": ", source);
                text_around("could not create state directory ", path, &after)
            },
            LocalPathError::OpenStateDirectory { path, source } => {
                let after = joined(": ", source);
                text_around("could not open secure state directory ", path, &after)
            },
            LocalPathError::StateDirectoryType { path } => text_around(
                "state directory ",
                path,
                " has an unexpected type; expected an owned directory",
            ),
            LocalPathError::StateDirectoryOwner { path, found, expected } => {
                let after = owner_text(*found, *expected);
                text_around("state directory ", path, &after)
            },
            LocalPathError::RestrictStateDirectory { path, source } => {
                let after = joined(" to owner-only access: ", source);
                text_around("could not restrict state directory ", path, &after)
            },
            LocalPathError::UnsafeStateDirectory { path, reason } => {
                let after = joined(" cannot be prepared securely: ", reason);
                text_around("state directory ", path, &after)
            },
            LocalPathError::SocketType { path } => text_around(
                "socket candidate ",
                path,
                " has an unexpected type; expected an owned Unix socket",
            ),
            LocalPathError::SocketOwner { path, found, expected } => {
                let after = owner_text(*found, *expected);
                text_around("socket candidate ", path, &after)
            },
        }
    }
}

fn joined(before: &str, after: &str) -> (text: String)
    ensures
        text@ == before@ + after@,
{
    let mut text = before.to_owned();
    text.push_str(after);
    text
}

/// The separator of path components.
pub const SEPARATOR: u8 = 0x2f;

/// A path below a directory.
pub open spec fn below(directory: Seq<u8>, name: Seq<u8>) -> Seq<u8> {
    if directory.len() == 0 || directory.last() == SEPARATOR {
        directory + name
    } else {
        directory.push(SEPARATOR) + name
    }
}

/// Joins a directory and a relative name.
pub fn join_path(directory: &Vec<u8>, name: &str) -> (path: Vec<u8>)
    ensures
        path@ == below(directory@, name_bytes(name@)),
{
    let mut path = duplicate_bytes(directory);
    if path.len() > 0 && path[path.len() - 1] != SEPARATOR {
        path.push(SEPARATOR);
    }
    let mut bytes = vstd::slice::slice_to_vec(name.as_bytes());
    path.append(&mut bytes);
    path
}

/// The resolved paths of one user.
pub struct LocalPaths {
    runtime_dir: Vec<u8>,
    socket_path: Vec<u8>,
    spawn_lock_path: Vec<u8>,
    config_path: Vec<u8>,
    state_dir: Vec<u8>,
    server_log_path: Vec<u8>,
    effective_uid: u32,
}

/// [`LocalPaths`] as contracts see them.
pub ghost struct PathsView {
    pub runtime_dir: Seq<u8>,
    pub socket_path: Seq<u8>,
    pub spawn_lock_path: Seq<u8>,
    pub config_path: Seq<u8>,
    pub state_dir: Seq<u8>,
    pub server_log_path: Seq<u8>,
    pub effective_uid: u32,
}

/// The bytes of a name.
pub open spec fn name_bytes(name: Seq<char>) -> Seq<u8> {
    vstd::utf8::encode_utf8(name)
}

/// The runtime directory that some roots give: without one, a directory of the temporary directory
/// that is named after the user.
pub open spec fn runtime_dir_of(roots: PathRoots) -> Seq<u8> {
    match roots.runtime_dir {
        Some(directory) => directory@,
        None => below(
            roots.temp_dir@,
            name_bytes("moh-"@ + decimal(roots.effective_uid as nat)),
        ),
    }
}

/// The paths that some roots give.
pub open spec fn paths_of(roots: PathRoots) -> PathsView {
    PathsView {
        runtime_dir: runtime_dir_of(roots),
        socket_path: below(runtime_dir_of(roots), name_bytes("backend.sock"@)),
        spawn_lock_path: below(runtime_dir_of(roots), name_bytes("backend.lock"@)),
        config_path: below(roots.config_dir@, name_bytes("config.toml"@)),
        state_dir: roots.state_dir@,
        server_log_path: below(roots.state_dir@, name_bytes("server.log"@)),
        effective_uid: roots.effective_uid,
    }
}

/// What the system says about a file.
#[derive(Clone, Copy, Debug, PartialEq, Eq, Structural)]
pub struct FileFacts {
    pub uid: u32,
    pub is_directory: bool,
    pub is_socket: bool,
    pub device: u64,
    pub inode: u64,
    pub changed_at_seconds: i64,
    pub changed_at_nanoseconds: i64,
}

/// The identity of a socket.
#[derive(Clone, Copy, Debug, PartialEq, Eq, Structural)]
pub struct SocketCandidateIdentity {
    pub device: u64,
    pub inode: u64,
    pub changed_at_seconds: i64,
    pub changed_at_nanoseconds: i64,
}

/// The identity that facts give.
pub open spec fn identity_of(facts: FileFacts) -> SocketCandidateIdentity {
    SocketCandidateIdentity {
        device: facts.device,
        inode: facts.inode,
        changed_at_seconds: facts.changed_at_seconds,
        changed_at_nanoseconds: facts.changed_at_nanoseconds,
    }
}

/// The names in a path that are neither empty nor the current directory.
pub open spec fn components(path: Seq<u8>) -> Seq<Seq<u8>> {
    components_from(path, 0, 0)
}

/// The components from `index` on, of which the current one began at `start`.
pub open spec fn components_from(path: Seq<u8>, start: int, index: int) -> Seq<Seq<u8>>
    decreases path.len() - index,
{
    if index >= path.len() {
        component(path.subrange(start, path.len() as int))
    } else if path[index] == SEPARATOR {
        component(path.subrange(start, index)) + components_from(path, index + 1, index + 1)
    } else {
        components_from(path, start, index + 1)
    }
}

/// A name as a component: none where it is empty or the current directory.
pub open spec fn component(name: Seq<u8>) -> Seq<Seq<u8>> {
    if name.len() == 0 || name == seq![0x2eu8] {
        Seq::empty()
    } else {
        seq![name]
    }
}

/// The name of the parent directory.
pub open spec fn is_parent(name: Seq<u8>) -> bool {
    name == seq![0x2eu8, 0x2eu8]
}

/// Why a state directory cannot be prepared safely.
pub open spec fn unsafe_reason(path: Seq<u8>) -> Option<Seq<char>> {
    if exists|i: int| 0 <= i < components(path).len() && is_parent(#[trigger] components(path)[i]) {
        Some("parent-directory components are not allowed"@)
    } else if components(path).len() == 0 {
        Some("the filesystem root or current directory is not a valid state path"@)
    } else {
        None
    }
}

/// The bytes of some names.
pub open spec fn names(list: Seq<Vec<u8>>) -> Seq<Seq<u8>> {
    Seq::new(list.len(), |i: int| list[i]@)
}

fn push_component(list: &mut Vec<Vec<u8>>, path: &Vec<u8>, start: usize, end: usize)
    requires
        start <= end <= path@.len(),
    ensures
        names(final(list)@) == names(old(list)@) + component(
            path@.subrange(start as int, end as int),
        ),
{
    let mut name: Vec<u8> = Vec::new();
    let mut index: usize = start;
    while index < end
        invariant
            start <= index <= end <= path@.len(),
            name@ == path@.subrange(start as int, index as int),
        decreases end - index,
    {
        name.push(path[index]);
        index += 1;
        assert(name@ =~= path@.subrange(start as int, index as int));
    }
    if name.len() == 0 || (name.len() == 1 && name[0] == 0x2e) {
        proof {
            if name@.len() == 1 {
                assert(name@ =~= seq![0x2eu8]);
            }
            assert(names(list@) + component(name@) =~= names(list@));
        }
        return;
    }
    proof {
        if name@ == seq![0x2eu8] {
            assert(name@[0] == 0x2eu8);
        }
    }
    list.push(name);
    assert(names(list@) =~= names(old(list)@) + component(name@));
}

fn split_path(path: &Vec<u8>) -> (list: Vec<Vec<u8>>)
    ensures
        names(list@) == components(path@),
{
    let mut list: Vec<Vec<u8>> = Vec::new();
    let mut start: usize = 0;
    let mut index: usize = 0;
    assert(names(list@) + components_from(path@, 0, 0) =~= components(path@));
    while index < path.len()
        invariant
            start <= index <= path@.len(),
            components(path@) == names(list@) + components_from(path@, start as int, index as int),
        decreases path@.len() - index,
    {
        if path[index] == SEPARATOR {
            let ghost before = names(list@);
            let ghost name = component(path@.subrange(start as int, index as int));
            let ghost rest = components_from(path@, index + 1, index + 1);
            push_component(&mut list, path, start, index);
            start = index + 1;
            assert(before + (name + rest) =~= (before + name) + rest);
        }
        index += 1;
    }
    push_component(&mut list, path, start, index);
    list
}

/// What a system call on the state directory answered.
#[derive(Debug)]
pub enum StateDirReply {
    /// It succeeded; a directory was created.
    Done,
    /// The directory to create was there already.
    Exists,
    /// The facts of an opened directory.
    Facts(FileFacts),
    /// It failed.
    Failed(String),
}

/// The next system call on the state directory. Every directory is opened without following
/// symbolic links, and an index counts its components.
#[derive(Clone, Copy, Debug, PartialEq, Eq, Structural)]
pub enum StateDirAction {
    /// Open the filesystem root, or the current directory for a relative path.
    OpenStart { absolute: bool },
    /// Create a component with [`PRIVATE_DIRECTORY_MODE`] in the opened directory.
    Create(usize),
    /// Restrict a created component to [`PRIVATE_DIRECTORY_MODE`].
    RestrictCreated(usize),
    /// Open a component; `created` where it was created just now.
    Open { index: usize, created: bool },
    /// Read the facts of the opened component.
    Inspect(usize),
    /// Restrict the opened component to [`PRIVATE_DIRECTORY_MODE`], then go on below it.
    Restrict(usize),
    Finished,
}

/// The action after the component `index` was prepared.
pub open spec fn action_below(index: usize, count: int) -> StateDirAction {
    if index + 1 >= count {
        StateDirAction::Finished
    } else {
        StateDirAction::Create((index + 1) as usize)
    }
}

/// What is wrong with the state directory. A source is the description of a system error.
#[derive(Debug)]
pub enum StateDirFault {
    Create(String),
    Open(String),
    Inspect(String),
    Restrict(String),
    Owner(u32),
    NotADirectory,
}

/// The next action, or what is wrong: created components and the last one must be directories of
/// the effective user and are restricted to them.
pub open spec fn state_dir_step(
    count: int,
    uid: u32,
    action: StateDirAction,
    reply: StateDirReply,
) -> Result<StateDirAction, StateDirFault> {
    match (action, reply) {
        (StateDirAction::OpenStart { .. }, StateDirReply::Failed(source)) => Err(
            StateDirFault::Open(source),
        ),
        (StateDirAction::OpenStart { .. }, _) => Ok(StateDirAction::Create(0)),
        (StateDirAction::Create(_), StateDirReply::Failed(source)) => Err(
            StateDirFault::Create(source),
        ),
        (StateDirAction::Create(index), StateDirReply::Exists) => Ok(
            StateDirAction::Open { index, created: false },
        ),
        (StateDirAction::Create(index), _) => Ok(StateDirAction::RestrictCreated(index)),
        (StateDirAction::RestrictCreated(_), StateDirReply::Failed(source)) => Err(
            StateDirFault::Restrict(source),
        ),
        (StateDirAction::RestrictCreated(index), _) => Ok(
            StateDirAction::Open { index, created: true },
        ),
        (StateDirAction::Open { .. }, StateDirReply::Failed(source)) => Err(
            StateDirFault::Open(source),
        ),
        (StateDirAction::Open { index, created }, _) => Ok(
            if created || index + 1 >= count {
                StateDirAction::Inspect(index)
            } else {
                action_below(index, count)
            },
        ),
        (StateDirAction::Inspect(_), StateDirReply::Failed(source)) => Err(
            StateDirFault::Inspect(source),
        ),
        (StateDirAction::Inspect(index), StateDirReply::Facts(facts)) => if facts.uid != uid {
            Err(StateDirFault::Owner(facts.uid))
        } else if !facts.is_directory {
            Err(StateDirFault::NotADirectory)
        } else {
            Ok(StateDirAction::Restrict(index))
        },
        (StateDirAction::Inspect(index), _) => Ok(StateDirAction::Inspect(index)),
        (StateDirAction::Restrict(_), StateDirReply::Failed(source)) => Err(
            StateDirFault::Restrict(source),
        ),
        (StateDirAction::Restrict(index), _) => Ok(action_below(index, count)),
        (StateDirAction::Finished, _) => Ok(StateDirAction::Finished),
    }
}

/// A preparation of the state directory ends only with its last component checked and restricted.
pub proof fn lemma_preparation_ends_with_the_last_component(
    count: int,
    uid: u32,
    action: StateDirAction,
    reply: StateDirReply,
)
    requires
        action != StateDirAction::Finished,
        state_dir_step(count, uid, action, reply) == Ok::<StateDirAction, StateDirFault>(
            StateDirAction::Finished,
        ),
    ensures
        match action {
            StateDirAction::Restrict(index) => index + 1 >= count && !(reply is Failed),
            _ => false,
        },
{
}

/// Nothing is restricted that was not found to be a directory of the effective user.
pub proof fn lemma_only_owned_directories_are_restricted(
    count: int,
    uid: u32,
    action: StateDirAction,
    reply: StateDirReply,
    index: usize,
)
    requires
        state_dir_step(count, uid, action, reply) == Ok::<StateDirAction, StateDirFault>(
            StateDirAction::Restrict(index),
        ),
    ensures
        action == StateDirAction::Inspect(index),
        match reply {
            StateDirReply::Facts(facts) => facts.uid == uid && facts.is_directory,
            _ => false,
        },
{
}

/// The error of a fault of the state directory.
pub open spec fn fault_error(
    error: LocalPathError,
    state_dir: Seq<u8>,
    uid: u32,
    fault: StateDirFault,
) -> bool {
    match (fault, error) {
        (
            StateDirFault::Create(source),
            LocalPathError::CreateStateDirectory { path, source: shown },
        ) => path@ == state_dir && shown == source,
        (
            StateDirFault::Open(source),
            LocalPathError::OpenStateDirectory { path, source: shown },
        ) => path@ == state_dir && shown == source,
        (StateDirFault::Inspect(source), LocalPathError::Inspect { path, source: shown }) => path@
            == state_dir && shown == source,
        (
            StateDirFault::Restrict(source),
            LocalPathError::RestrictStateDirectory { path, source: shown },
        ) => path@ == state_dir && shown == source,
        (
            StateDirFault::Owner(uid_found),
            LocalPathError::StateDirectoryOwner { path, found, expected },
        ) => path@ == state_dir && found == uid_found && expected == uid,
        (StateDirFault::NotADirectory, LocalPathError::StateDirectoryType { path }) => path@
            == state_dir,
        _ => false,
    }
}

/// The preparation of the state directory.
pub struct StateDirSetup {
    components: Vec<Vec<u8>>,
    uid: u32,
    action: StateDirAction,
}

impl StateDirSetup {
    /// The components of the state directory.
    pub closed spec fn components(&self) -> Seq<Seq<u8>> {
        names(self.components@)
    }

    /// The effective user.
    pub closed spec fn uid(&self) -> u32 {
        self.uid
    }

    /// The next action.
    pub closed spec fn next(&self) -> StateDirAction {
        self.action
    }

    /// The next system call to make.
    pub fn action(&self) -> (action: StateDirAction)
        ensures
            action == self.next(),
    {
        self.action
    }

    /// The name of a component.
    pub fn component(&self, index: usize) -> (name: Option<&Vec<u8>>)
        ensures
            match name {
                Some(name) => index < self.components().len() && name@
                    == self.components()[index as int],
                None => index >= self.components().len(),
            },
    {
        if index < self.components.len() {
            Some(&self.components[index])
        } else {
            None
        }
    }

    /// Takes the answer to the last system call.
    pub fn reply(&mut self, reply: StateDirReply) -> (result: Result<(), StateDirFault>)
        ensures
            final(self).components() == old(self).components(),
            final(self).uid() == old(self).uid(),
            match state_dir_step(
                old(self).components().len() as int,
                old(self).uid(),
                old(self).next(),
                reply,
            ) {
                Ok(next) => result is Ok && final(self).next() == next,
                Err(fault) => result == Err::<(), StateDirFault>(fault) && final(self).next()
                    == old(self).next(),
            },
    {
        let count: usize = self.components.len();
        let next = match (self.action, reply) {
            (StateDirAction::OpenStart { .. }, StateDirReply::Failed(source)) => {
                return Err(StateDirFault::Open(source));
            },
            (StateDirAction::OpenStart { .. }, _) => StateDirAction::Create(0),
            (StateDirAction::Create(_), StateDirReply::Failed(source)) => {
                return Err(StateDirFault::Create(source));
            },
            (StateDirAction::Create(index), StateDirReply::Exists) => {
                StateDirAction::Open { index, created: false }
            },
            (StateDirAction::Create(index), _) => StateDirAction::RestrictCreated(index),
            (StateDirAction::RestrictCreated(_), StateDirReply::Failed(source)) => {
                return Err(StateDirFault::Restrict(source));
            },
            (StateDirAction::RestrictCreated(index), _) => {
                StateDirAction::Open { index, created: true }
            },
            (StateDirAction::Open { .. }, StateDirReply::Failed(source)) => {
                return Err(StateDirFault::Open(source));
            },
            (StateDirAction::Open { index, created }, _) => {
                if created || index >= count || index == count - 1 {
                    StateDirAction::Inspect(index)
                } else {
                    StateDirAction::Create(index + 1)
                }
            },
            (StateDirAction::Inspect(_), StateDirReply::Failed(source)) => {
                return Err(StateDirFault::Inspect(source));
            },
            (StateDirAction::Inspect(index), StateDirReply::Facts(facts)) => {
                if facts.uid != self.uid {
                    return Err(StateDirFault::Owner(facts.uid));
                }
                if !facts.is_directory {
                    return Err(StateDirFault::NotADirectory);
                }
                StateDirAction::Restrict(index)
            },
            (StateDirAction::Inspect(index), _) => StateDirAction::Inspect(index),
            (StateDirAction::Restrict(_), StateDirReply::Failed(source)) => {
                return Err(StateDirFault::Restrict(source));
            },
            (StateDirAction::Restrict(index), _) => {
                if index >= count || index == count - 1 {
                    StateDirAction::Finished
                } else {
                    StateDirAction::Create(index + 1)
                }
            },
            (StateDirAction::Finished, _) => StateDirAction::Finished,
        };
        self.action = next;
        Ok(())
    }
}

/// What is wrong with the facts of the runtime directory.
pub open spec fn runtime_dir_error(
    error: LocalPathError,
    paths: PathsView,
    facts: FileFacts,
) -> bool {
    match error {
        LocalPathError::RuntimeDirectoryOwner { path, found, expected } => facts.uid
            != paths.effective_uid && path@ == paths.runtime_dir && found == facts.uid && expected
            == paths.effective_uid,
        LocalPathError::RuntimeDirectoryType { path } => facts.uid == paths.effective_uid
            && !facts.is_directory && path@ == paths.runtime_dir,
        _ => false,
    }
}

/// What is wrong with a socket: it must be a socket of the effective user.
pub open spec fn socket_error(error: LocalPathError, paths: PathsView, facts: FileFacts) -> bool {
    match error {
        LocalPathError::SocketOwner { path, found, expected } => facts.uid != paths.effective_uid
            && path@ == paths.socket_path && found == facts.uid && expected == paths.effective_uid,
        LocalPathError::SocketType { path } => facts.uid == paths.effective_uid && !facts.is_socket
            && path@ == paths.socket_path,
        _ => false,
    }
}

impl LocalPaths {
    /// The paths.
    pub closed spec fn paths(&self) -> PathsView {
        PathsView {
            runtime_dir: self.runtime_dir@,
            socket_path: self.socket_path@,
            spawn_lock_path: self.spawn_lock_path@,
            config_path: self.config_path@,
            state_dir: self.state_dir@,
            server_log_path: self.server_log_path@,
            effective_uid: self.effective_uid,
        }
    }

    /// Resolves the paths in some roots.
    pub fn from_roots(roots: PathRoots) -> (paths: Self)
        ensures
            paths.paths() == paths_of(roots),
    {
        let runtime_dir = match &roots.runtime_dir {
            Some(directory) => duplicate_bytes(directory),
            None => {
                let mut name = "moh-".to_owned();
                let uid = decimal_text(roots.effective_uid as u64);
                name.push_str(&uid);
                join_path(&roots.temp_dir, &name)
            },
        };
        LocalPaths {
            socket_path: join_path(&runtime_dir, "backend.sock"),
            spawn_lock_path: join_path(&runtime_dir, "backend.lock"),
            config_path: join_path(&roots.config_dir, "config.toml"),
            server_log_path: join_path(&roots.state_dir, "server.log"),
            runtime_dir,
            state_dir: roots.state_dir,
            effective_uid: roots.effective_uid,
        }
    }

    /// The runtime directory.
    pub fn runtime_dir(&self) -> (path: &Vec<u8>)
        ensures
            path@ == self.paths().runtime_dir,
    {
        &self.runtime_dir
    }

    /// The socket of the backend.
    pub fn socket_path(&self) -> (path: &Vec<u8>)
        ensures
            path@ == self.paths().socket_path,
    {
        &self.socket_path
    }

    /// The lock under which a backend is started.
    pub fn spawn_lock_path(&self) -> (path: &Vec<u8>)
        ensures
            path@ == self.paths().spawn_lock_path,
    {
        &self.spawn_lock_path
    }

    /// The configuration file.
    pub fn config_path(&self) -> (path: &Vec<u8>)
        ensures
            path@ == self.paths().config_path,
    {
        &self.config_path
    }

    /// The state directory.
    pub fn state_dir(&self) -> (path: &Vec<u8>)
        ensures
            path@ == self.paths().state_dir,
    {
        &self.state_dir
    }

    /// The diagnostic log of a detached backend.
    pub fn server_log_path(&self) -> (path: &Vec<u8>)
        ensures
            path@ == self.paths().server_log_path,
    {
        &self.server_log_path
    }

    /// The effective user.
    pub fn effective_uid(&self) -> (uid: u32)
        ensures
            uid == self.paths().effective_uid,
    {
        self.effective_uid
    }

    /// Begins to prepare the state directory, or says why its path cannot be prepared safely.
    pub fn prepare_state_dir(&self) -> (result: Result<StateDirSetup, LocalPathError>)
        ensures
            match result {
                Ok(setup) => {
                    &&& unsafe_reason(self.paths().state_dir) is None
                    &&& setup.components() == components(self.paths().state_dir)
                    &&& setup.uid() == self.paths().effective_uid
                    &&& setup.next() == (StateDirAction::OpenStart {
                        absolute: self.paths().state_dir[0] == SEPARATOR,
                    })
                },
                Err(LocalPathError::UnsafeStateDirectory { path, reason }) => path@
                    == self.paths().state_dir && unsafe_reason(self.paths().state_dir) == Some(
                    reason@,
                ),
                Err(_) => false,
            },
    {
        let list = split_path(&self.state_dir);
        let ghost named = components(self.state_dir@);
        let mut index: usize = 0;
        while index < list.len()
            invariant
                index <= list@.len(),
                names(list@) == named,
                named == components(self.paths().state_dir),
                self.state_dir@ == self.paths().state_dir,
                forall|i: int| 0 <= i < index ==> !is_parent(#[trigger] named[i]),
            decreases list@.len() - index,
        {
            let name = &list[index];
            assert(names(list@)[index as int] == name@);
            if name.len() == 2 && name[0] == 0x2e && name[1] == 0x2e {
                assert(name@ =~= seq![0x2eu8, 0x2eu8]);
                assert(is_parent(named[index as int]));
                return Err(
                    LocalPathError::UnsafeStateDirectory {
                        path: duplicate_bytes(&self.state_dir),
                        reason: "parent-directory components are not allowed",
                    },
                );
            }
            proof {
                if is_parent(name@) {
                    assert(name@[0] == 0x2eu8 && name@[1] == 0x2eu8);
                }
            }
            index += 1;
        }
        assert(named.len() == list@.len());
        if list.len() == 0 {
            return Err(
                LocalPathError::UnsafeStateDirectory {
                    path: duplicate_bytes(&self.state_dir),
                    reason: "the filesystem root or current directory is not a valid state path",
                },
            );
        }
        proof {
            if self.state_dir@.len() == 0 {
                assert(component(self.state_dir@.subrange(0, 0)).len() == 0);
            }
        }
        let absolute = self.state_dir[0] == SEPARATOR;
        Ok(
            StateDirSetup {
                components: list,
                uid: self.effective_uid,
                action: StateDirAction::OpenStart { absolute },
            },
        )
    }

    /// The error of a fault of the state directory.
    pub fn state_dir_error(&self, fault: StateDirFault) -> (error: LocalPathError)
        ensures
            fault_error(error, self.paths().state_dir, self.paths().effective_uid, fault),
    {
        let path = duplicate_bytes(&self.state_dir);
        match fault {
            StateDirFault::Create(source) => LocalPathError::CreateStateDirectory { path, source },
            StateDirFault::Open(source) => LocalPathError::OpenStateDirectory { path, source },
            StateDirFault::Inspect(source) => LocalPathError::Inspect { path, source },
            StateDirFault::Restrict(source) => LocalPathError::RestrictStateDirectory {
                path,
                source,
            },
            StateDirFault::Owner(found) => LocalPathError::StateDirectoryOwner {
                path,
                found,
                expected: self.effective_uid,
            },
            StateDirFault::NotADirectory => LocalPathError::StateDirectoryType { path },
        }
    }

    /// Checks the facts of the opened runtime directory.
    pub fn validate_runtime_directory(&self, facts: FileFacts) -> (result: Result<
        (),
        LocalPathError,
    >)
        ensures
            match result {
                Ok(()) => facts.uid == self.paths().effective_uid && facts.is_directory,
                Err(error) => runtime_dir_error(error, self.paths(), facts),
            },
    {
        if facts.uid != self.effective_uid {
            return Err(
                LocalPathError::RuntimeDirectoryOwner {
                    path: duplicate_bytes(&self.runtime_dir),
                    found: facts.uid,
                    expected: self.effective_uid,
                },
            );
        }
        if !facts.is_directory {
            return Err(
                LocalPathError::RuntimeDirectoryType { path: duplicate_bytes(&self.runtime_dir) },
            );
        }
        Ok(())
    }

    /// Checks and identifies the socket by the facts of its path, which are `None` where nothing
    /// is there: that is the normal state before a backend starts.
    pub fn socket_candidate_identity(&self, facts: Result<Option<FileFacts>, String>) -> (result:
        Result<Option<SocketCandidateIdentity>, LocalPathError>)
        ensures
            match (facts, result) {
                (Err(source), Err(LocalPathError::Inspect { path, source: shown })) => path@
                    == self.paths().socket_path && shown == source,
                (Ok(None), Ok(None)) => true,
                (Ok(Some(facts)), Ok(Some(identity))) => facts.uid == self.paths().effective_uid
                    && facts.is_socket && identity == identity_of(facts),
                (Ok(Some(facts)), Err(error)) => socket_error(error, self.paths(), facts),
                _ => false,
            },
    {
        let facts = match facts {
            Ok(Some(facts)) => facts,
            Ok(None) => {
                return Ok(None);
            },
            Err(source) => {
                return Err(
                    LocalPathError::Inspect { path: duplicate_bytes(&self.socket_path), source },
                );
            },
        };
        if facts.uid != self.effective_uid {
            return Err(
                LocalPathError::SocketOwner {
                    path: duplicate_bytes(&self.socket_path),
                    found: facts.uid,
                    expected: self.effective_uid,
                },
            );
        }
        if !facts.is_socket {
            return Err(LocalPathError::SocketType { path: duplicate_bytes(&self.socket_path) });
        }
        Ok(
            Some(
                SocketCandidateIdentity {
                    device: facts.device,
                    inode: facts.inode,
                    changed_at_seconds: facts.changed_at_seconds,
                    changed_at_nanoseconds: facts.changed_at_nanoseconds,
                },
            ),
        )
    }

    /// Checks that a socket that is there is one of the effective user.
    pub fn validate_socket_candidate(&self, facts: Result<Option<FileFacts>, String>) -> (result:
        Result<(), LocalPathError>)
        ensures
            match (facts, result) {
                (Err(source), Err(LocalPathError::Inspect { path, source: shown })) => path@
                    == self.paths().socket_path && shown == source,
                (Ok(None), Ok(())) => true,
                (Ok(Some(facts)), Ok(())) => facts.uid == self.paths().effective_uid
                    && facts.is_socket,
                (Ok(Some(facts)), Err(error)) => socket_error(error, self.paths(), facts),
                _ => false,
            },
    {
        match self.socket_candidate_identity(facts) {
            Ok(_) => Ok(()),
            Err(error) => Err(error),
        }
    }
}

/// A name below a directory is the directory, a slash and the name, with no second slash where the
/// directory ends in one.
pub proof fn lemma_names_are_below_their_directory(directory: Seq<u8>, name: Seq<u8>)
    ensures
        directory.is_prefix_of(below(directory, name)),
        name.is_suffix_of(below(directory, name)),
        directory.len() > 0 && directory.last() != 0x2f ==> below(directory, name) == directory
            + seq![0x2fu8] + name && below(directory.push(0x2f), name) == below(directory, name),
        below(Seq::empty(), name) == name,
{
    assert(directory.push(0x2f) =~= directory + seq![0x2fu8]);
    assert(below(directory, name).take(directory.len() as int) =~= directory);
    assert(Seq::<u8>::empty() + name =~= name);
    let path = below(directory, name);
    assert(path.subrange(path.len() - name.len(), path.len() as int) =~= name);
}

/// The files of a user: socket and lock in the runtime directory, the configuration and the log
/// where they belong. Without a runtime directory each user has one of their own.
pub proof fn lemma_files_have_their_places()
    ensures
        forall|roots: PathRoots, paths: LocalPaths| #[trigger]
            call_ensures(LocalPaths::from_roots, (roots,), paths) ==> {
                let places = paths.paths();
                &&& roots.runtime_dir is Some ==> places.runtime_dir == roots.runtime_dir->0@
                &&& roots.runtime_dir is None ==> places.runtime_dir == below(
                    roots.temp_dir@,
                    name_bytes("moh-"@ + decimal(roots.effective_uid as nat)),
                )
                &&& places.socket_path == below(places.runtime_dir, name_bytes("backend.sock"@))
                &&& places.spawn_lock_path == below(places.runtime_dir, name_bytes("backend.lock"@))
                &&& places.config_path == below(roots.config_dir@, name_bytes("config.toml"@))
                &&& places.state_dir == roots.state_dir@
                &&& places.server_log_path == below(roots.state_dir@, name_bytes("server.log"@))
                &&& places.effective_uid == roots.effective_uid
            },
{
}

/// A runtime directory and a socket are trusted exactly when they are what they should be and
/// belong to the user; what belongs to another is told with its owner.
pub proof fn lemma_only_owned_files_are_trusted()
    ensures
        forall|paths: &LocalPaths, facts: FileFacts, result: Result<(), LocalPathError>| #[trigger]
            call_ensures(LocalPaths::validate_runtime_directory, (paths, facts), result) ==> {
                &&& result is Ok <==> facts.uid == paths.paths().effective_uid && facts.is_directory
                &&& facts.uid != paths.paths().effective_uid
                    ==> result->Err_0 is RuntimeDirectoryOwner
                    && result->Err_0->RuntimeDirectoryOwner_found == facts.uid
                    && result->Err_0->RuntimeDirectoryOwner_expected
                    == paths.paths().effective_uid
                &&& facts.uid == paths.paths().effective_uid && !facts.is_directory
                    ==> result->Err_0 is RuntimeDirectoryType
            },
        forall|
            paths: &LocalPaths,
            facts: Result<Option<FileFacts>, String>,
            result: Result<(), LocalPathError>,
        | #[trigger]
            call_ensures(LocalPaths::validate_socket_candidate, (paths, facts), result) ==> {
                &&& result is Ok <==> facts is Ok && (facts->Ok_0 is Some ==> facts->Ok_0->0.uid
                    == paths.paths().effective_uid && facts->Ok_0->0.is_socket)
                &&& facts is Ok && facts->Ok_0 is Some && facts->Ok_0->0.uid
                    != paths.paths().effective_uid ==> result->Err_0 is SocketOwner
                    && result->Err_0->SocketOwner_found == facts->Ok_0->0.uid
            },
        forall|
            paths: &LocalPaths,
            facts: Result<Option<FileFacts>, String>,
            result: Result<Option<SocketCandidateIdentity>, LocalPathError>,
        | #[trigger]
            call_ensures(LocalPaths::socket_candidate_identity, (paths, facts), result) ==> {
                &&& result is Ok <==> facts is Ok && (facts->Ok_0 is Some ==> facts->Ok_0->0.uid
                    == paths.paths().effective_uid && facts->Ok_0->0.is_socket)
                &&& result is Ok ==> (result->Ok_0 is Some <==> facts->Ok_0 is Some)
                &&& result is Ok && result->Ok_0 is Some ==> result->Ok_0->0.device
                    == facts->Ok_0->0.device && result->Ok_0->0.inode == facts->Ok_0->0.inode
                    && result->Ok_0->0.changed_at_seconds == facts->Ok_0->0.changed_at_seconds
                    && result->Ok_0->0.changed_at_nanoseconds
                    == facts->Ok_0->0.changed_at_nanoseconds
            },
{
}

proof fn lemma_components_of(path: Seq<u8>, start: int, index: int)
    requires
        0 <= start <= index <= path.len(),
        forall|i: int| start <= i < index ==> path[i] != SEPARATOR,
    ensures
        forall|k: int|
            0 <= k < components_from(path, start, index).len() ==> is_component(
                #[trigger] components_from(path, start, index)[k],
            ),
    decreases path.len() - index,
{
    let all = components_from(path, start, index);
    if index >= path.len() {
        lemma_component_of(path, start, path.len() as int);
        assert(all == component(path.subrange(start, path.len() as int)));
    } else if path[index] == SEPARATOR {
        lemma_component_of(path, start, index);
        lemma_components_of(path, index + 1, index + 1);
        let first = component(path.subrange(start, index));
        let rest = components_from(path, index + 1, index + 1);
        assert(all == first + rest);
        assert forall|k: int| 0 <= k < all.len() implies is_component(#[trigger] all[k]) by {
            if k < first.len() {
                assert(all[k] == first[k]);
            } else {
                assert(all[k] == rest[k - first.len()]);
            }
        }
    } else {
        lemma_components_of(path, start, index + 1);
        assert(all == components_from(path, start, index + 1));
    }
}

proof fn lemma_component_of(path: Seq<u8>, start: int, end: int)
    requires
        0 <= start <= end <= path.len(),
        forall|i: int| start <= i < end ==> path[i] != SEPARATOR,
    ensures
        forall|k: int|
            0 <= k < component(path.subrange(start, end)).len() ==> is_component(
                #[trigger] component(path.subrange(start, end))[k],
            ),
{
    let name = path.subrange(start, end);
    assert forall|i: int| 0 <= i < name.len() implies #[trigger] name[i] != 0x2f by {
        assert(name[i] == path[start + i]);
    }
}

/// The name of a directory in a path: not empty, not the directory itself, without a slash.
pub open spec fn is_component(name: Seq<u8>) -> bool {
    &&& name.len() > 0
    &&& name != seq![0x2eu8]
    &&& forall|i: int| 0 <= i < name.len() ==> #[trigger] name[i] != 0x2f
}

/// The state directory is made component by component. A path that goes up, and one that names no
/// directory at all, is refused before anything is done.
pub proof fn lemma_state_paths_go_down_only()
    ensures
        forall|paths: &LocalPaths, result: Result<StateDirSetup, LocalPathError>| #[trigger]
            call_ensures(LocalPaths::prepare_state_dir, (paths,), result) ==> {
                &&& result is Ok ==> {
                    &&& result->Ok_0.components().len() > 0
                    &&& forall|i: int|
                        0 <= i < result->Ok_0.components().len() ==> is_component(
                            #[trigger] result->Ok_0.components()[i],
                        ) && result->Ok_0.components()[i] != seq![0x2eu8, 0x2eu8]
                    &&& result->Ok_0.next() == (StateDirAction::OpenStart {
                        absolute: paths.paths().state_dir[0] == 0x2f,
                    })
                    &&& result->Ok_0.uid() == paths.paths().effective_uid
                }
                &&& result is Err ==> result->Err_0 is UnsafeStateDirectory
            },
{
    assert forall|paths: &LocalPaths, result: Result<StateDirSetup, LocalPathError>| #[trigger]
        call_ensures(LocalPaths::prepare_state_dir, (paths,), result) && result is Ok implies {
        &&& result->Ok_0.components().len() > 0
        &&& forall|i: int|
            0 <= i < result->Ok_0.components().len() ==> is_component(
                #[trigger] result->Ok_0.components()[i],
            ) && result->Ok_0.components()[i] != seq![0x2eu8, 0x2eu8]
    } by {
        let path = paths.paths().state_dir;
        lemma_components_of(path, 0, 0);
        assert forall|i: int| 0 <= i < components(path).len() implies is_component(
            #[trigger] components(path)[i],
        ) && components(path)[i] != seq![0x2eu8, 0x2eu8] by {
            assert(!is_parent(components(path)[i]));
        }
    }
}

/// How the state directory is made: what is missing is created and restricted, what is there is
/// only opened, and the last one must belong to the user and is restricted in any case. The first
/// failure ends it.
pub proof fn lemma_the_state_directory_is_made_private(
    count: int,
    uid: u32,
    action: StateDirAction,
    reply: StateDirReply,
)
    ensures
        ({
            let next = state_dir_step(count, uid, action, reply);
            &&& reply is Failed && !(action is Finished) ==> next is Err
            &&& action is OpenStart && !(reply is Failed) ==> next == Ok::<
                StateDirAction,
                StateDirFault,
            >(StateDirAction::Create(0))
            &&& action is Create && reply is Done ==> next == Ok::<StateDirAction, StateDirFault>(
                StateDirAction::RestrictCreated(action->Create_0),
            )
            &&& action is Create && reply is Exists ==> next == Ok::<StateDirAction, StateDirFault>(
                StateDirAction::Open { index: action->Create_0, created: false },
            )
            &&& action is RestrictCreated && !(reply is Failed) ==> next == Ok::<
                StateDirAction,
                StateDirFault,
            >(StateDirAction::Open { index: action->RestrictCreated_0, created: true })
            &&& action is Open && !(reply is Failed) && (action->created || action->index + 1
                >= count) ==> next == Ok::<StateDirAction, StateDirFault>(
                StateDirAction::Inspect(action->index),
            )
            &&& action is Open && !(reply is Failed) && !action->created && action->index + 1
                < count ==> next == Ok::<StateDirAction, StateDirFault>(
                StateDirAction::Create((action->index + 1) as usize),
            )
            &&& action is Inspect && reply is Facts ==> (next is Ok <==> reply->Facts_0.uid == uid
                && reply->Facts_0.is_directory)
            &&& action is Inspect && reply is Facts && next is Ok ==> next->Ok_0
                == StateDirAction::Restrict(action->Inspect_0)
            &&& action is Inspect && reply is Facts && reply->Facts_0.uid != uid ==> next->Err_0
                == StateDirFault::Owner(reply->Facts_0.uid)
            &&& action is Restrict && !(reply is Failed) && action->Restrict_0 + 1 >= count
                ==> next == Ok::<StateDirAction, StateDirFault>(StateDirAction::Finished)
            &&& action is Restrict && !(reply is Failed) && action->Restrict_0 + 1 < count
                ==> next == Ok::<StateDirAction, StateDirFault>(
                StateDirAction::Create((action->Restrict_0 + 1) as usize),
            )
        }),
{
}

proof fn lemma_components_go_on(
    path: Seq<u8>,
    name: Seq<u8>,
    start: int,
    index: int,
)
    requires
        0 <= start <= index <= path.len(),
        is_component(name),
    ensures
        components_from(path + seq![SEPARATOR] + name, start, index) == components_from(
            path,
            start,
            index,
        ).push(name),
    decreases path.len() - index,
{
    let longer = path + seq![SEPARATOR] + name;
    let all = components_from(path, start, index);
    if index < path.len() {
        assert(longer[index] == path[index]);
        if path[index] == SEPARATOR {
            lemma_components_go_on(path, name, index + 1, index + 1);
            assert(longer.subrange(start, index) =~= path.subrange(start, index));
            let first = component(path.subrange(start, index));
            let rest = components_from(path, index + 1, index + 1);
            assert(all == first + rest);
            assert(components_from(longer, start, index) == first + rest.push(name));
            assert(first + rest.push(name) =~= all.push(name));
        } else {
            lemma_components_go_on(path, name, start, index + 1);
        }
    } else {
        assert(longer[index] == SEPARATOR);
        assert(longer.subrange(start, index) =~= path.subrange(start, index));
        lemma_last_component(longer, index + 1, index + 1);
        assert(longer.subrange(index + 1, longer.len() as int) =~= name);
        let first = component(path.subrange(start, path.len() as int));
        assert(all == first);
        assert(components_from(longer, index + 1, index + 1) == seq![name]);
        assert(first + seq![name] =~= first.push(name));
    }
}

proof fn lemma_last_component(path: Seq<u8>, start: int, index: int)
    requires
        0 <= start <= index <= path.len(),
        forall|i: int| index <= i < path.len() ==> path[i] != SEPARATOR,
    ensures
        components_from(path, start, index) == component(
            path.subrange(start, path.len() as int),
        ),
    decreases path.len() - index,
{
    if index < path.len() {
        lemma_last_component(path, start, index + 1);
    }
}

/// A path names its directories one after the other: what stands below a directory is named after
/// all that the directory names, and slashes alone name nothing.
pub proof fn lemma_paths_name_their_directories(path: Seq<u8>, name: Seq<u8>)
    requires
        is_component(name),
    ensures
        components(path + seq![0x2fu8] + name) == components(path).push(name),
        components(name) == seq![name],
        components(Seq::empty()).len() == 0,
{
    lemma_components_go_on(path, name, 0, 0);
    lemma_last_component(name, 0, 0);
    assert(name.subrange(0, name.len() as int) =~= name);
}

} // verus!
