//! Sessions as every part of the library knows them: identity, settings, plan, jobs, transcript,
//! snapshots and events.

use vstd::prelude::*;

use crate::harness::error::{RunFailureKind, RunStage};
use crate::text::{
    char_to_digit, chars_of, decimal, digit_char, digit_of, is_control, is_control_char,
    is_whitespace, lemma_trim_is_trimmed, lemma_trimming_takes_the_blank_edges, same_text, trim,
    trim_text,
};

verus! {

/// A stable session identifier, written `session-N`.
#[derive(Clone, Copy, Debug, PartialEq, Eq, Structural)]
pub struct SessionId {
    pub number: u64,
}

/// The text of a session identifier.
pub open spec fn session_id_text(id: SessionId) -> Seq<char> {
    "session-"@ + decimal(id.number as nat)
}

/// The identifier that a text spells.
pub open spec fn session_id_of(text: Seq<char>) -> Option<SessionId> {
    if exists|id: SessionId| session_id_text(id) == text {
        Some(choose|id: SessionId| session_id_text(id) == text)
    } else {
        None
    }
}

proof fn lemma_decimal_length(number: nat)
    ensures
        decimal(number).len() >= 1,
        forall|i: int|
            0 <= i < decimal(number).len() ==> digit_of(#[trigger] decimal(number)[i]) is Some,
        number > 0 ==> decimal(number)[0] != '0',
    decreases number,
{
    if number >= 10 {
        lemma_decimal_length(number / 10);
    }
}

/// Different numbers have different decimal digits.
pub proof fn lemma_decimal_is_injective(left: nat, right: nat)
    requires
        decimal(left) == decimal(right),
    ensures
        left == right,
{
    lemma_value_of_decimal(left);
    lemma_value_of_decimal(right);
}

/// A text spells at most one identifier, and the text of an identifier spells it.
pub proof fn lemma_session_id_text_is_read_back(id: SessionId)
    ensures
        session_id_of(session_id_text(id)) == Some(id),
{
    let text = session_id_text(id);
    let found = choose|found: SessionId| session_id_text(found) == text;
    assert(session_id_text(found) == text);
    let prefix = "session-"@.len() as int;
    assert(text.skip(prefix) =~= decimal(id.number as nat));
    assert(text.skip(prefix) =~= decimal(found.number as nat));
    lemma_decimal_is_injective(id.number as nat, found.number as nat);
}

/// The value of decimal digits.
spec fn digits_value(digits: Seq<char>) -> nat
    decreases digits.len(),
{
    if digits.len() == 0 {
        0
    } else {
        digits_value(digits.drop_last()) * 10 + digit_of(digits.last())->0
    }
}

spec fn all_digits(digits: Seq<char>) -> bool {
    forall|i: int| 0 <= i < digits.len() ==> digit_of(#[trigger] digits[i]) is Some
}

proof fn lemma_digits_spell_their_value(digits: Seq<char>)
    requires
        digits.len() > 0,
        all_digits(digits),
        digits.len() > 1 ==> digits[0] != '0',
    ensures
        decimal(digits_value(digits)) == digits,
        digits.len() > 1 ==> digits_value(digits) >= 10,
        digits[0] != '0' ==> digits_value(digits) >= 1,
    decreases digits.len(),
{
    let head = digits.drop_last();
    assert(digit_of(digits[digits.len() - 1]) is Some);
    let digit = digit_of(digits.last())->0;
    assert(digit_char(digit) == digits.last());
    if digits.len() == 1 {
        assert(head =~= Seq::empty());
        assert(digits_value(head) == 0);
        assert(decimal(digits_value(digits)) =~= digits);
    } else {
        assert forall|i: int| 0 <= i < head.len() implies digit_of(
            #[trigger] head[i],
        ) is Some by {
            assert(head[i] == digits[i]);
        }
        assert(head[0] == digits[0]);
        lemma_digits_spell_their_value(head);
        assert(digits_value(digits) / 10 == digits_value(head));
        assert(digits_value(digits) % 10 == digit);
        assert(head.push(digits.last()) =~= digits);
    }
}

proof fn lemma_value_of_decimal(number: nat)
    ensures
        all_digits(decimal(number)),
        digits_value(decimal(number)) == number,
    decreases number,
{
    lemma_decimal_length(number);
    if number < 10 {
        assert(decimal(number).drop_last() =~= Seq::<char>::empty());
        assert(digits_value(Seq::<char>::empty()) == 0);
        assert(decimal(number).last() == digit_char(number));
        assert(digits_value(decimal(number)) == digit_of(digit_char(number))->0);
    } else {
        lemma_value_of_decimal(number / 10);
        assert(decimal(number).drop_last() =~= decimal(number / 10));
        assert(decimal(number).last() == digit_char(number % 10));
        assert(digit_of(digit_char(number % 10)) == Some(number % 10));
    }
}

proof fn lemma_value_grows(digits: Seq<char>, count: int)
    requires
        0 <= count <= digits.len(),
        all_digits(digits),
    ensures
        digits_value(digits.subrange(0, count)) <= digits_value(digits),
    decreases digits.len(),
{
    if count == digits.len() {
        assert(digits.subrange(0, count) =~= digits);
    } else {
        let head = digits.drop_last();
        assert forall|i: int| 0 <= i < head.len() implies digit_of(
            #[trigger] head[i],
        ) is Some by {
            assert(head[i] == digits[i]);
        }
        lemma_value_grows(head, count);
        assert(head.subrange(0, count) =~= digits.subrange(0, count));
    }
}

impl SessionId {
    /// Reads a `session-N` text.
    pub fn parse(text: &str) -> (id: Option<SessionId>)
        ensures
            id == session_id_of(text@),
    {
        let characters = chars_of(text);
        let prefix = chars_of("session-");
        let ghost digits = characters@.skip(prefix@.len() as int);
        let mut index: usize = 0;
        while index < prefix.len()
            invariant
                index <= prefix@.len(),
                prefix@ == "session-"@,
                characters@ == text@,
                index <= characters@.len(),
                characters@.subrange(0, index as int) =~= prefix@.subrange(0, index as int),
            decreases prefix@.len() - index,
        {
            if index >= characters.len() || characters[index] != prefix[index] {
                proof {
                    assert forall|id: SessionId| session_id_text(id) != text@ by {
                        if session_id_text(id) == text@ {
                            assert(text@[index as int] == prefix@[index as int]);
                        }
                    }
                }
                return None;
            }
            index += 1;
        }
        assert(prefix@.subrange(0, index as int) =~= prefix@);
        assert forall|i: int| 0 <= i < prefix@.len() implies characters@[i] == prefix@[i] by {
            assert(characters@.subrange(0, index as int)[i] == prefix@.subrange(0, index as int)[i]);
        }
        assert(characters@ =~= prefix@ + digits);
        let start: usize = index;
        proof {
            assert forall|id: SessionId| session_id_text(id) == text@ implies digits == decimal(
                id.number as nat,
            ) by {
                assert(text@.skip(prefix@.len() as int) =~= decimal(id.number as nat));
            }
        }
        if index == characters.len() || (characters[index] == '0' && index + 1
            < characters.len()) {
            proof {
                assert forall|id: SessionId| session_id_text(id) != text@ by {
                    lemma_decimal_length(id.number as nat);
                    if session_id_text(id) == text@ {
                        assert(digits[0] == characters@[index as int]);
                        if id.number == 0 {
                            assert(decimal(0).len() == 1);
                        }
                    }
                }
            }
            return None;
        }
        let mut number: u64 = 0;
        assert(digits.subrange(0, 0) =~= Seq::empty());
        while index < characters.len()
            invariant
                prefix@ == "session-"@,
                start == prefix@.len(),
                start <= index <= characters@.len(),
                characters@ == text@,
                digits == characters@.skip(start as int),
                number == digits_value(digits.subrange(0, index - start)),
                all_digits(digits.subrange(0, index - start)),
                forall|id: SessionId|
                    session_id_text(id) == text@ ==> digits == #[trigger] decimal(
                        id.number as nat,
                    ),
            decreases characters@.len() - index,
        {
            let ghost seen = digits.subrange(0, index - start + 1);
            proof {
                assert(seen.drop_last() =~= digits.subrange(0, index - start));
                assert(seen.last() == characters@[index as int]);
                assert(digits[index - start] == characters@[index as int]);
            }
            let digit: u64 = match char_to_digit(characters[index]) {
                Some(digit) => digit,
                None => {
                    proof {
                        assert forall|id: SessionId| session_id_text(id) != text@ by {
                            lemma_decimal_length(id.number as nat);
                            assert(decimal(id.number as nat).len() > index - start ==> digit_of(
                                decimal(id.number as nat)[index - start],
                            ) is Some);
                        }
                    }
                    return None;
                },
            };
            if number > (u64::MAX - digit) / 10 {
                proof {
                    assert(digits_value(seen) > u64::MAX);
                    assert forall|id: SessionId| session_id_text(id) != text@ by {
                        if session_id_text(id) == text@ {
                            lemma_value_of_decimal(id.number as nat);
                            lemma_value_grows(digits, index - start + 1);
                        }
                    }
                }
                return None;
            }
            number = number * 10 + digit;
            index += 1;
            assert(all_digits(seen)) by {
                assert forall|i: int| 0 <= i < seen.len() implies digit_of(
                    #[trigger] seen[i],
                ) is Some by {
                    if i < seen.len() - 1 {
                        assert(seen[i] == digits.subrange(0, index - 1 - start)[i]);
                    }
                }
            }
        }
        let id = SessionId { number };
        proof {
            assert(digits.subrange(0, digits.len() as int) =~= digits);
            lemma_digits_spell_their_value(digits);
            assert(session_id_text(id) =~= text@);
            lemma_session_id_text_is_read_back(id);
        }
        Some(id)
    }

    /// Writes the `session-N` text.
    pub fn text(&self) -> (text: String)
        ensures
            text@ == session_id_text(*self),
    {
        let mut text = "session-".to_owned();
        let digits = crate::text::decimal_text(self.number);
        text.push_str(&digits);
        text
    }
}

/// The largest number of characters in a session title.
pub const MAX_TITLE_CHARACTERS: usize = 64;

/// The largest number of characters in a plan step.
pub const MAX_STEP_CHARACTERS: usize = 256;

/// A trimmed text of one line with a bounded number of characters.
pub open spec fn is_label(text: Seq<char>, limit: int) -> bool {
    &&& trim(text) == text
    &&& 1 <= text.len() <= limit
    &&& forall|i: int| 0 <= i < text.len() ==> !is_control(#[trigger] text[i])
}

/// The label that a text gives once trimmed.
pub open spec fn label_of(text: Seq<char>, limit: int) -> Option<Seq<char>> {
    if is_label(trim(text), limit) {
        Some(trim(text))
    } else {
        None
    }
}

fn parse_label(text: &str, limit: usize) -> (label: Option<String>)
    ensures
        match label_of(text@, limit as int) {
            Some(expected) => label is Some && label->0@ == expected,
            None => label is None,
        },
{
    let trimmed = trim_text(text);
    proof {
        lemma_trim_is_trimmed(text@);
    }
    let characters = chars_of(&trimmed);
    if characters.len() == 0 || characters.len() > limit {
        return None;
    }
    let mut index: usize = 0;
    while index < characters.len()
        invariant
            index <= characters@.len(),
            characters@ == trim(text@),
            forall|i: int| 0 <= i < index ==> !is_control(#[trigger] characters@[i]),
        decreases characters@.len() - index,
    {
        if is_control_char(characters[index]) {
            assert(is_control(trim(text@)[index as int]));
            return None;
        }
        index += 1;
    }
    Some(trimmed)
}

/// A session title.
#[derive(Debug, PartialEq, Eq)]
pub struct SessionTitle {
    pub value: String,
}

/// A text that is not a valid session title.
#[derive(Clone, Copy, Debug, PartialEq, Eq, Structural)]
pub struct InvalidSessionTitle;

impl SessionTitle {
    /// The title is a trimmed line of bounded length.
    pub open spec fn valid(&self) -> bool {
        is_label(self.value@, MAX_TITLE_CHARACTERS as int)
    }

    /// Trims and validates a title.
    pub fn parse(text: &str) -> (title: Result<SessionTitle, InvalidSessionTitle>)
        ensures
            match label_of(text@, MAX_TITLE_CHARACTERS as int) {
                Some(label) => title is Ok && title->Ok_0.value@ == label && title->Ok_0.valid(),
                None => title is Err,
            },
    {
        match parse_label(text, MAX_TITLE_CHARACTERS) {
            Some(value) => Ok(SessionTitle { value }),
            None => Err(InvalidSessionTitle),
        }
    }

    /// The text of the title.
    pub fn as_str(&self) -> (text: &str)
        ensures
            text@ == self.value@,
    {
        self.value.as_str()
    }

    /// Another title with the same text.
    pub fn duplicate(&self) -> (title: SessionTitle)
        ensures
            title == *self,
    {
        SessionTitle { value: self.value.clone() }
    }
}

/// The state of a plan step.
#[derive(Clone, Copy, Debug, PartialEq, Eq, Structural)]
pub enum PlanStatus {
    Pending,
    InProgress,
    Completed,
    Blocked,
    Cancelled,
}

/// A step of the execution plan.
#[derive(Debug, PartialEq, Eq)]
pub struct PlanItem {
    pub step: String,
    pub status: PlanStatus,
}

/// A step text that is not valid.
#[derive(Clone, Copy, Debug, PartialEq, Eq, Structural)]
pub struct InvalidPlanStep;

impl PlanItem {
    /// The step is a trimmed line of bounded length.
    pub open spec fn valid(&self) -> bool {
        is_label(self.step@, MAX_STEP_CHARACTERS as int)
    }

    /// Validates a step. One with outer blanks is refused.
    pub fn parse(step: &str, status: PlanStatus) -> (item: Result<PlanItem, InvalidPlanStep>)
        ensures
            match item {
                Ok(item) => is_label(step@, MAX_STEP_CHARACTERS as int) && item.step@ == step@
                    && item.status == status && item.valid(),
                Err(_) => !is_label(step@, MAX_STEP_CHARACTERS as int),
            },
    {
        match parse_label(step, MAX_STEP_CHARACTERS) {
            Some(label) => {
                if !same_text(&label, step) {
                    return Err(InvalidPlanStep);
                }
                Ok(PlanItem { step: label, status })
            },
            None => Err(InvalidPlanStep),
        }
    }

    /// The text of the step.
    pub fn step(&self) -> (step: &str)
        ensures
            step@ == self.step@,
    {
        self.step.as_str()
    }

    /// The state of the step.
    pub fn status(&self) -> (status: PlanStatus)
        ensures
            status == self.status,
    {
        self.status
    }
}

/// How much reasoning a model is asked for.
#[derive(Clone, Copy, Debug, PartialEq, Eq, Structural)]
pub enum ReasoningLevel {
    NoReasoning,
    Minimal,
    Low,
    Medium,
    High,
    Xhigh,
    Max,
}

/// The name of a reasoning level.
pub open spec fn reasoning_name(level: ReasoningLevel) -> Seq<char> {
    match level {
        ReasoningLevel::NoReasoning => "none"@,
        ReasoningLevel::Minimal => "minimal"@,
        ReasoningLevel::Low => "low"@,
        ReasoningLevel::Medium => "medium"@,
        ReasoningLevel::High => "high"@,
        ReasoningLevel::Xhigh => "xhigh"@,
        ReasoningLevel::Max => "max"@,
    }
}

/// The reasoning level of a name.
pub open spec fn reasoning_of(name: Seq<char>) -> Option<ReasoningLevel> {
    if name == "none"@ {
        Some(ReasoningLevel::NoReasoning)
    } else if name == "minimal"@ {
        Some(ReasoningLevel::Minimal)
    } else if name == "low"@ {
        Some(ReasoningLevel::Low)
    } else if name == "medium"@ {
        Some(ReasoningLevel::Medium)
    } else if name == "high"@ {
        Some(ReasoningLevel::High)
    } else if name == "xhigh"@ {
        Some(ReasoningLevel::Xhigh)
    } else if name == "max"@ {
        Some(ReasoningLevel::Max)
    } else {
        None
    }
}

/// The name of a reasoning level is read back as that level.
pub proof fn lemma_reasoning_name_is_read_back(level: ReasoningLevel)
    ensures
        reasoning_of(reasoning_name(level)) == Some(level),
{
    reveal_strlit("none");
    reveal_strlit("minimal");
    reveal_strlit("low");
    reveal_strlit("medium");
    reveal_strlit("high");
    reveal_strlit("xhigh");
    reveal_strlit("max");
    assert("none"@[0] == 'n' && "high"@[0] == 'h' && "low"@[0] == 'l' && "max"@[0] == 'm');
    assert("medium"@[0] == 'm' && "medium"@.len() == 6 && "minimal"@.len() == 7);
    assert("xhigh"@.len() == 5 && "none"@.len() == 4 && "low"@.len() == 3);
}

impl ReasoningLevel {
    /// The name of this level.
    pub fn as_str(self) -> (name: &'static str)
        ensures
            name@ == reasoning_name(self),
    {
        match self {
            ReasoningLevel::NoReasoning => "none",
            ReasoningLevel::Minimal => "minimal",
            ReasoningLevel::Low => "low",
            ReasoningLevel::Medium => "medium",
            ReasoningLevel::High => "high",
            ReasoningLevel::Xhigh => "xhigh",
            ReasoningLevel::Max => "max",
        }
    }

    /// Reads the name of a level.
    pub fn parse(name: &str) -> (level: Option<ReasoningLevel>)
        ensures
            level == reasoning_of(name@),
    {
        if same_text(name, "none") {
            Some(ReasoningLevel::NoReasoning)
        } else if same_text(name, "minimal") {
            Some(ReasoningLevel::Minimal)
        } else if same_text(name, "low") {
            Some(ReasoningLevel::Low)
        } else if same_text(name, "medium") {
            Some(ReasoningLevel::Medium)
        } else if same_text(name, "high") {
            Some(ReasoningLevel::High)
        } else if same_text(name, "xhigh") {
            Some(ReasoningLevel::Xhigh)
        } else if same_text(name, "max") {
            Some(ReasoningLevel::Max)
        } else {
            None
        }
    }
}

/// A stable category of command failures.
#[derive(Clone, Copy, Debug, PartialEq, Eq, Structural)]
pub enum ErrorCode {
    Busy,
    NotRunning,
    SessionNotFound,
    AmbiguousTitle,
    SessionNameConflict,
    InvalidArgument,
    ModelNotFound,
    UnsupportedReasoning,
    JobNotFound,
    BackendStarting,
    BackendUnavailable,
    Persistence,
    SessionDeleting,
    SessionDeleted,
    Internal,
}

/// Why a session itself refused a command.
#[derive(Clone, Copy, Debug, PartialEq, Eq, Structural)]
pub enum SessionFailure {
    Busy,
    NotRunning,
    ModelNotFound,
    UnsupportedReasoning,
    InvalidJobId,
    InvalidPrompt,
    JobNotFound,
    Persistence,
    Deleting,
    Unavailable,
    RunIdExhausted,
    Job,
    Projection,
}

/// A refused session command.
#[derive(Debug, PartialEq, Eq)]
pub enum SessionCommandError {
    /// A failure that the backend reported under a stable category.
    Reported { code: ErrorCode, message: String },
    /// A failure of the session itself, with its description.
    Local { failure: SessionFailure, message: String },
}

/// An instant in UTC: seconds since the Unix epoch and the nanoseconds after them.
#[derive(Clone, Copy, Debug, PartialEq, Eq, Structural)]
pub struct Timestamp {
    pub seconds: i64,
    pub nanoseconds: u32,
}

impl Timestamp {
    /// An instant before another one.
    pub open spec fn spec_before(self, other: Timestamp) -> bool {
        self.seconds < other.seconds || self.seconds == other.seconds && self.nanoseconds
            < other.nanoseconds
    }

    /// Whether this instant is before another one.
    pub fn before(self, other: Timestamp) -> (before: bool)
        ensures
            before == self.spec_before(other),
    {
        self.seconds < other.seconds || self.seconds == other.seconds && self.nanoseconds
            < other.nanoseconds
    }
}

/// How a session is named in a request.
#[derive(Debug, PartialEq, Eq)]
pub enum SessionSelector {
    Id(SessionId),
    Title(SessionTitle),
}

/// Which sessions a listing covers.
#[derive(Debug, PartialEq, Eq)]
pub enum SessionListScope {
    /// The sessions of one working directory.
    Project(Vec<u8>),
    /// Every session.
    All,
}

/// An observer of a session.
#[derive(Clone, Copy, Debug, PartialEq, Eq, Structural)]
pub struct AttachmentId(pub u64);

/// A client connection.
#[derive(Clone, Copy, Debug, PartialEq, Eq, Structural)]
pub struct ConnectionId(pub u64);

/// Durable model settings.
#[derive(Debug, PartialEq, Eq)]
pub struct SessionSettings {
    pub model: String,
    pub reasoning: ReasoningLevel,
    pub context_tokens: u64,
}

/// A selectable model.
#[derive(Debug, PartialEq, Eq)]
pub struct ModelInfoDto {
    pub id: String,
    pub display_name: String,
    pub description: String,
    pub reasoning_efforts: Vec<ReasoningLevel>,
    pub default_reasoning: Option<ReasoningLevel>,
}

/// The state of the asynchronously loaded model catalog.
#[derive(Debug, PartialEq, Eq)]
pub enum ModelCatalogState {
    Loading,
    Ready(Vec<ModelInfoDto>),
    Failed(String),
}

/// Defaults of a chat that is not durable yet.
#[derive(Debug, PartialEq, Eq)]
pub struct DraftDefaults {
    pub cwd: Vec<u8>,
    pub settings: SessionSettings,
    pub catalog: ModelCatalogState,
}

/// A session as listings show it.
#[derive(Debug, PartialEq, Eq)]
pub struct SessionSummary {
    pub id: SessionId,
    pub title: SessionTitle,
    pub title_revision: u64,
    pub cwd: Vec<u8>,
    pub cwd_display: String,
    pub running_jobs: u32,
    pub running: bool,
    pub busy: bool,
    pub attached_clients: u32,
    pub last_activity: Timestamp,
}

/// What a background job runs.
#[derive(Clone, Copy, Debug, PartialEq, Eq, Structural)]
pub enum JobKind {
    Bash,
}

/// The state of a background job.
#[derive(Clone, Copy, Debug, PartialEq, Eq, Structural)]
pub enum JobState {
    Running,
    Completed,
    Failed,
    Cancelled,
}

/// A background job.
#[derive(Debug, PartialEq, Eq)]
pub struct JobSnapshotDto {
    pub id: String,
    pub kind: JobKind,
    pub state: JobState,
    pub title: String,
    pub started_at: Timestamp,
    pub completed_at: Option<Timestamp>,
    pub details: String,
}

/// A failed run.
#[derive(Debug, PartialEq, Eq)]
pub struct RunFailureSnapshot {
    pub stage: RunStage,
    pub kind: RunFailureKind,
    pub retryable: bool,
    pub message: String,
}

/// An entry of the visible transcript. Tool arguments are JSON text.
#[derive(Debug, PartialEq, Eq)]
pub enum TranscriptItem {
    User(String),
    Assistant(String),
    ToolStarted { run_id: u64, call_id: String, name: String, arguments: String },
    Failed { run_id: u64, failure: RunFailureSnapshot },
    Cancelled { run_id: u64 },
}

/// The run in progress.
#[derive(Debug, PartialEq, Eq)]
pub struct ActiveRunSnapshot {
    pub run_id: u64,
    pub prompt: String,
    pub assistant_text: String,
}

/// The state of a session at one sequence number.
#[derive(Debug, PartialEq, Eq)]
pub struct SessionSnapshot {
    pub summary: SessionSummary,
    pub transcript: Vec<TranscriptItem>,
    pub active_run: Option<ActiveRunSnapshot>,
    pub settings: SessionSettings,
    pub catalog: ModelCatalogState,
    pub plan: Vec<PlanItem>,
    pub jobs: Vec<JobSnapshotDto>,
    pub persistence_warning: Option<String>,
    pub sequence: u64,
    pub busy: bool,
}

/// A change of a session. Tool arguments are JSON text.
#[derive(Debug, PartialEq, Eq)]
pub enum SessionEvent {
    TitleChanged { title: SessionTitle, title_revision: u64 },
    Started { run_id: u64, prompt: String },
    AssistantDelta { run_id: u64, text: String },
    ContextUsage { run_id: u64, input_tokens: u64, last_activity: Timestamp },
    ToolStarted { run_id: u64, call_id: String, name: String, arguments: String },
    ToolFinished { run_id: u64, call_id: String, name: String },
    Completed { run_id: u64, response: String, last_activity: Timestamp },
    Failed { run_id: u64, failure: RunFailureSnapshot },
    Cancelled { run_id: u64 },
    SettingsChanged { settings: SessionSettings, last_activity: Timestamp },
    PlanChanged(Vec<PlanItem>),
    JobsChanged(Vec<JobSnapshotDto>),
    CatalogChanged(ModelCatalogState),
    PersistenceWarning(Option<String>),
    Deleted { session_id: SessionId },
}

/// A change of a session with its sequence number.
#[derive(Debug, PartialEq, Eq)]
pub struct SessionEventEnvelope {
    pub sequence: u64,
    pub event: SessionEvent,
}

/// A title is one line of 1 to 64 characters with no blank at either end; blanks around what was
/// typed are taken off, and nothing else is changed or accepted.
pub proof fn lemma_titles_are_short_lines()
    ensures
        forall|text: &str, title: Result<SessionTitle, InvalidSessionTitle>| #[trigger]
            call_ensures(SessionTitle::parse, (text,), title) ==> {
                &&& title is Ok ==> {
                    let value = title->Ok_0.value@;
                    &&& 1 <= value.len() <= 64
                    &&& !is_whitespace(value[0]) && !is_whitespace(value.last())
                    &&& forall|i: int| 0 <= i < value.len() ==> !is_control(#[trigger] value[i])
                    &&& exists|head: Seq<char>, tail: Seq<char>| #[trigger]
                        crate::text::is_trimmed_of(text@, head, tail, value)
                }
                &&& 1 <= text@.len() <= 64 && !is_whitespace(text@[0]) && !is_whitespace(
                    text@.last(),
                ) && (forall|i: int| 0 <= i < text@.len() ==> !is_control(#[trigger] text@[i]))
                    ==> title is Ok && title->Ok_0.value@ == text@
            },
{
    assert forall|text: &str, title: Result<SessionTitle, InvalidSessionTitle>| #[trigger]
        call_ensures(SessionTitle::parse, (text,), title) implies {
        &&& title is Ok ==> {
            let value = title->Ok_0.value@;
            &&& 1 <= value.len() <= 64
            &&& !is_whitespace(value[0]) && !is_whitespace(value.last())
            &&& forall|i: int| 0 <= i < value.len() ==> !is_control(#[trigger] value[i])
            &&& exists|head: Seq<char>, tail: Seq<char>| #[trigger]
                crate::text::is_trimmed_of(text@, head, tail, value)
        }
        &&& 1 <= text@.len() <= 64 && !is_whitespace(text@[0]) && !is_whitespace(text@.last()) && (
        forall|i: int| 0 <= i < text@.len() ==> !is_control(#[trigger] text@[i])) ==> title is Ok
            && title->Ok_0.value@ == text@
    } by {
        lemma_trimming_takes_the_blank_edges(text@);
        if text@.len() > 0 && !is_whitespace(text@[0]) && !is_whitespace(text@.last()) {
            assert(trim(text@) == text@);
        }
    }
}

/// A step of a plan is one line of 1 to 256 characters with no blank at either end, taken as it
/// is; anything else is refused.
pub proof fn lemma_steps_are_short_lines()
    ensures
        forall|step: &str, status: PlanStatus, item: Result<PlanItem, InvalidPlanStep>| #[trigger]
            call_ensures(PlanItem::parse, (step, status), item) ==> {
                &&& item is Ok <==> 1 <= step@.len() <= 256 && !is_whitespace(step@[0])
                    && !is_whitespace(step@.last()) && (forall|i: int|
                    0 <= i < step@.len() ==> !is_control(#[trigger] step@[i]))
                &&& item is Ok ==> item->Ok_0.step@ == step@ && item->Ok_0.status == status
            },
{
    assert forall|step: &str, status: PlanStatus, item: Result<PlanItem, InvalidPlanStep>| #[trigger]
        call_ensures(PlanItem::parse, (step, status), item) implies {
        &&& item is Ok <==> 1 <= step@.len() <= 256 && !is_whitespace(step@[0]) && !is_whitespace(
            step@.last(),
        ) && (forall|i: int| 0 <= i < step@.len() ==> !is_control(#[trigger] step@[i]))
        &&& item is Ok ==> item->Ok_0.step@ == step@ && item->Ok_0.status == status
    } by {
        lemma_trimming_takes_the_blank_edges(step@);
        if step@.len() > 0 && !is_whitespace(step@[0]) && !is_whitespace(step@.last()) {
            assert(trim(step@) == step@);
        }
        if trim(step@) == step@ && step@.len() > 0 {
            let (head, tail) = choose|head: Seq<char>, tail: Seq<char>| #[trigger]
                crate::text::is_trimmed_of(step@, head, tail, trim(step@));
            assert(!is_whitespace(step@[0]) && !is_whitespace(step@.last()));
        }
    }
}

/// A session is written `session-` and its number, and only that is read, as the same session.
pub proof fn lemma_identifiers_are_written_and_read()
    ensures
        forall|text: &str, id: Option<SessionId>, number: u64|
            #![trigger call_ensures(SessionId::parse, (text,), id), decimal(number as nat)]
            call_ensures(SessionId::parse, (text,), id) ==> (id == Some(SessionId { number })
                <==> text@ == "session-"@ + decimal(number as nat)),
        forall|id: &SessionId, text: String| #[trigger]
            call_ensures(SessionId::text, (id,), text) ==> text@ == "session-"@ + decimal(
                id.number as nat,
            ),
{
    assert forall|text: &str, id: Option<SessionId>, number: u64|
        #![trigger call_ensures(SessionId::parse, (text,), id), decimal(number as nat)]
        call_ensures(SessionId::parse, (text,), id) implies (id == Some(SessionId { number })
        <==> text@ == "session-"@ + decimal(number as nat)) by {
        lemma_session_id_text_is_read_back(SessionId { number });
        if id is Some {
            let found = choose|found: SessionId| session_id_text(found) == text@;
            assert(session_id_text(found) == text@);
        }
    }
}

/// An effort is read from its own name alone, and no two share one.
pub proof fn lemma_efforts_are_read_by_their_name()
    ensures
        forall|name: &str, level: Option<ReasoningLevel>| #[trigger]
            call_ensures(ReasoningLevel::parse, (name,), level) ==> (level is Some ==> name@
                == reasoning_name(level->0)),
        forall|level: ReasoningLevel, name: &str, read: Option<ReasoningLevel>|
            #![trigger call_ensures(ReasoningLevel::parse, (name,), read), reasoning_name(level)]
            call_ensures(ReasoningLevel::parse, (name,), read) && name@ == reasoning_name(level)
                ==> read == Some(level),
        reasoning_name(ReasoningLevel::NoReasoning) == "none"@,
        reasoning_name(ReasoningLevel::Minimal) == "minimal"@,
        reasoning_name(ReasoningLevel::Low) == "low"@,
        reasoning_name(ReasoningLevel::Medium) == "medium"@,
        reasoning_name(ReasoningLevel::High) == "high"@,
        reasoning_name(ReasoningLevel::Xhigh) == "xhigh"@,
        reasoning_name(ReasoningLevel::Max) == "max"@,
{
    assert forall|level: ReasoningLevel, name: &str, read: Option<ReasoningLevel>|
        #![trigger call_ensures(ReasoningLevel::parse, (name,), read), reasoning_name(level)]
        call_ensures(ReasoningLevel::parse, (name,), read) && name@ == reasoning_name(
            level,
        ) implies read == Some(level) by {
        lemma_reasoning_name_is_read_back(level);
    }
}

/// Instants are ordered by their seconds and, within one, by their nanoseconds.
pub proof fn lemma_instants_are_ordered()
    ensures
        forall|first: Timestamp, second: Timestamp, before: bool| #[trigger]
            call_ensures(Timestamp::before, (first, second), before) ==> {
                &&& first.seconds < second.seconds ==> before
                &&& first.seconds > second.seconds ==> !before
                &&& first.seconds == second.seconds ==> (before <==> first.nanoseconds
                    < second.nanoseconds)
            },
{
}

} // verus!
