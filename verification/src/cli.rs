//! The modes of the program and the list of sessions that it prints.

use vstd::prelude::*;

use crate::client::session::LaunchMode;
use crate::instant::{format_with_offset, offset_text};
use crate::session::{
    label_of, session_id_of, session_id_text, SessionId, SessionSelector, SessionSummary,
    SessionTitle, Timestamp, MAX_TITLE_CHARACTERS,
};
use crate::snapshot::SummaryView;
use crate::text::{after_prefix, decimal, decimal_text, strip_prefix};

verus! {

/// What the program is to do.
#[derive(Debug, PartialEq, Eq)]
pub enum CliMode {
    /// Attach to a running session of the working directory, or open a draft.
    Default,
    /// Open a fresh draft.
    New,
    /// Attach to one session.
    Session { selector: SessionSelector },
    /// List the sessions of the working directory.
    Sessions,
    /// Run the backend.
    Server { detached: bool },
}

/// A subcommand.
#[derive(Clone, Copy, Debug, PartialEq, Eq, Structural)]
pub enum CliCommand {
    Sessions,
    Server { internal_detached: bool },
}

/// The arguments of the program.
#[derive(Debug, PartialEq, Eq)]
pub struct CliArguments {
    pub new: bool,
    pub resume: Option<String>,
    pub command: Option<CliCommand>,
}

/// A selector that names no session.
#[derive(Clone, Copy, Debug, PartialEq, Eq, Structural)]
pub enum SelectorError {
    SessionId,
    SessionTitle,
}

/// At most one of the arguments is given.
pub open spec fn is_consistent(arguments: CliArguments) -> bool {
    &&& arguments.new ==> arguments.resume is None && arguments.command is None
    &&& arguments.resume is Some ==> arguments.command is None
}

/// What a selector means: an identifier where it begins like one, else a title.
pub open spec fn selects(text: Seq<char>, selector: Result<SessionSelector, SelectorError>) -> bool {
    if after_prefix(text, "session-"@) is Some {
        selector == match session_id_of(text) {
            Some(id) => Ok::<SessionSelector, SelectorError>(SessionSelector::Id(id)),
            None => Err::<SessionSelector, SelectorError>(SelectorError::SessionId),
        }
    } else {
        match label_of(text, MAX_TITLE_CHARACTERS as int) {
            Some(label) => selector is Ok && selector->Ok_0 is Title && selector->Ok_0->Title_0.value@
                == label && selector->Ok_0->Title_0.valid(),
            None => selector == Err::<SessionSelector, SelectorError>(SelectorError::SessionTitle),
        }
    }
}

/// Reads a selector.
pub fn parse_selector(text: &str) -> (selector: Result<SessionSelector, SelectorError>)
    ensures
        selects(text@, selector),
{
    if strip_prefix(text, "session-").is_some() {
        return match SessionId::parse(text) {
            Some(id) => Ok(SessionSelector::Id(id)),
            None => Err(SelectorError::SessionId),
        };
    }
    match SessionTitle::parse(text) {
        Ok(title) => Ok(SessionSelector::Title(title)),
        Err(_) => Err(SelectorError::SessionTitle),
    }
}

/// Decides the mode that the arguments mean.
pub fn parse(arguments: CliArguments) -> (mode: Result<CliMode, SelectorError>)
    requires
        is_consistent(arguments),
    ensures
        match (arguments.resume, arguments.command) {
            (Some(text), _) => match mode {
                Ok(CliMode::Session { selector }) => selects(
                    text@,
                    Ok::<SessionSelector, SelectorError>(selector),
                ),
                Ok(_) => false,
                Err(error) => selects(text@, Err::<SessionSelector, SelectorError>(error)),
            },
            (None, Some(CliCommand::Sessions)) => mode == Ok::<CliMode, SelectorError>(
                CliMode::Sessions,
            ),
            (None, Some(CliCommand::Server { internal_detached })) => mode == Ok::<
                CliMode,
                SelectorError,
            >(CliMode::Server { detached: internal_detached }),
            (None, None) => mode == Ok::<CliMode, SelectorError>(
                if arguments.new {
                    CliMode::New
                } else {
                    CliMode::Default
                },
            ),
        },
{
    if let Some(text) = arguments.resume {
        return match parse_selector(&text) {
            Ok(selector) => Ok(CliMode::Session { selector }),
            Err(error) => Err(error),
        };
    }
    match arguments.command {
        Some(CliCommand::Sessions) => Ok(CliMode::Sessions),
        Some(CliCommand::Server { internal_detached }) => Ok(
            CliMode::Server { detached: internal_detached },
        ),
        None => Ok(if arguments.new { CliMode::New } else { CliMode::Default }),
    }
}

/// What runs in a mode.
#[derive(Debug, PartialEq, Eq)]
pub enum Dispatch {
    /// The backend, which needs the configuration but no working directory.
    Server { detached: bool },
    /// The list of sessions, which needs the working directory but no configuration.
    List,
    /// The client, which needs the working directory but no configuration.
    Client(LaunchMode),
}

/// Decides what runs in a mode.
pub fn dispatch(mode: CliMode) -> (runs: Dispatch)
    ensures
        runs == match mode {
            CliMode::Server { detached } => Dispatch::Server { detached },
            CliMode::Sessions => Dispatch::List,
            CliMode::Default => Dispatch::Client(LaunchMode::Startup),
            CliMode::New => Dispatch::Client(LaunchMode::NewDraft),
            CliMode::Session { selector } => Dispatch::Client(LaunchMode::Session(selector)),
        },
{
    match mode {
        CliMode::Server { detached } => Dispatch::Server { detached },
        CliMode::Sessions => Dispatch::List,
        CliMode::Default => Dispatch::Client(LaunchMode::Startup),
        CliMode::New => Dispatch::Client(LaunchMode::NewDraft),
        CliMode::Session { selector } => Dispatch::Client(LaunchMode::Session(selector)),
    }
}

/// A session that is printed before another: the one active later, of two active at once the one
/// with the smaller identifier.
pub open spec fn is_printed_before(left: SummaryView, right: SummaryView) -> bool {
    if left.last_activity != right.last_activity {
        right.last_activity.spec_before(left.last_activity)
    } else {
        left.id.number < right.id.number
    }
}

/// A list with a session put in its place, behind those that it is not printed before.
pub open spec fn put_in_place(list: Seq<SummaryView>, session: SummaryView) -> Seq<SummaryView>
    decreases list.len(),
{
    if list.len() > 0 && is_printed_before(session, list.last()) {
        put_in_place(list.drop_last(), session).push(list.last())
    } else {
        list.push(session)
    }
}

/// The sessions in the order in which they are printed.
pub open spec fn print_order(sessions: Seq<SummaryView>) -> Seq<SummaryView>
    decreases sessions.len(),
{
    if sessions.len() == 0 {
        Seq::empty()
    } else {
        put_in_place(print_order(sessions.drop_last()), sessions.last())
    }
}

/// An instant with its offset from UTC; nothing where there is no such date.
pub open spec fn printed_instant(instant: Timestamp) -> Seq<char> {
    match offset_text(instant.seconds, instant.nanoseconds) {
        Some(text) => text,
        None => Seq::empty(),
    }
}

/// The line of a session: identifier, title, state, clients and last activity, with tabs between.
pub open spec fn session_line(session: SummaryView) -> Seq<char> {
    session_id_text(session.id) + "\t"@ + session.title + "\t"@ + (if session.running {
        "running"@
    } else {
        "idle"@
    }) + "\tclients="@ + decimal(session.attached_clients as nat) + "\t"@ + printed_instant(
        session.last_activity,
    )
}

fn format_session(session: &SessionSummary) -> (line: String)
    ensures
        line@ == session_line(session.deep_view()),
{
    let clients = decimal_text(session.attached_clients as u64);
    let activity = match format_with_offset(
        session.last_activity.seconds,
        session.last_activity.nanoseconds,
    ) {
        Some(text) => text,
        None => String::new(),
    };
    assert(activity@ =~= printed_instant(session.last_activity));
    let mut line = session.id.text();
    line.push_str("\t");
    line.push_str(session.title.as_str());
    line.push_str("\t");
    line.push_str(if session.running { "running" } else { "idle" });
    line.push_str("\tclients=");
    line.push_str(&clients);
    line.push_str("\t");
    line.push_str(&activity);
    assert(line@ =~= session_line(session.deep_view()));
    line
}

fn prints_before(left: &SessionSummary, right: &SessionSummary) -> (before: bool)
    ensures
        before == is_printed_before(left.deep_view(), right.deep_view()),
{
    if left.last_activity != right.last_activity {
        right.last_activity.before(left.last_activity)
    } else {
        left.id.number < right.id.number
    }
}

fn insert_session(list: &mut Vec<SessionSummary>, session: SessionSummary)
    ensures
        final(list).deep_view() == put_in_place(old(list).deep_view(), session.deep_view()),
{
    let mut index: usize = list.len();
    let ghost all = list.deep_view();
    let ghost new = session.deep_view();
    assert(all.take(index as int) =~= all);
    assert(put_in_place(all, new) =~= put_in_place(all, new) + all.skip(index as int));
    while index > 0 && prints_before(&session, &list[index - 1])
        invariant
            index <= list@.len(),
            all == list.deep_view(),
            new == session.deep_view(),
            put_in_place(all, new) == put_in_place(all.take(index as int), new) + all.skip(
                index as int,
            ),
        decreases index,
    {
        proof {
            let head = all.take(index as int);
            assert(head.last() == list@[index - 1].deep_view());
            assert(head.drop_last() =~= all.take(index - 1));
            assert(put_in_place(head, new) + all.skip(index as int) =~= put_in_place(
                all.take(index - 1),
                new,
            ) + all.skip(index - 1));
        }
        index -= 1;
    }
    proof {
        let head = all.take(index as int);
        if index > 0 {
            assert(head.last() == list@[index - 1].deep_view());
        }
        assert(put_in_place(head, new) == head.push(new));
    }
    list.insert(index, session);
    assert(list.deep_view() =~= put_in_place(all, new));
}

/// Composes the lines of the sessions, in the order in which they are printed.
pub fn format_sessions(sessions: Vec<SessionSummary>) -> (lines: Vec<String>)
    ensures
        lines.deep_view() == print_order(sessions.deep_view()).map_values(
            |session: SummaryView| session_line(session),
        ),
{
    let ghost all = sessions.deep_view();
    let mut left = sessions;
    let mut reversed: Vec<SessionSummary> = Vec::new();
    assert(all =~= left.deep_view() + reversed.deep_view().reverse());
    while left.len() > 0
        invariant
            all == left.deep_view() + reversed.deep_view().reverse(),
        decreases left@.len(),
    {
        let ghost before = left.deep_view();
        let ghost taken = reversed.deep_view();
        if let Some(session) = left.pop() {
            reversed.push(session);
            assert(before =~= left.deep_view().push(session.deep_view()));
            assert(reversed.deep_view() =~= taken.push(session.deep_view()));
            assert(reversed.deep_view().reverse() =~= seq![session.deep_view()] + taken.reverse());
            assert(all =~= left.deep_view() + reversed.deep_view().reverse());
        }
    }
    assert(left.deep_view() =~= Seq::empty());
    assert(all =~= reversed.deep_view().reverse());
    let mut ordered: Vec<SessionSummary> = Vec::new();
    assert(ordered.deep_view() =~= print_order(all.take(0)));
    while reversed.len() > 0
        invariant
            reversed@.len() <= all.len(),
            reversed.deep_view().reverse() == all.skip(all.len() - reversed@.len()),
            ordered.deep_view() == print_order(all.take(all.len() - reversed@.len())),
        decreases reversed@.len(),
    {
        let ghost before = reversed.deep_view();
        let ghost done = all.len() - reversed@.len();
        if let Some(session) = reversed.pop() {
            proof {
                assert(before =~= reversed.deep_view().push(session.deep_view()));
                assert(before.reverse()[0] == session.deep_view());
                assert(all.skip(done)[0] == all[done]);
                let longer = all.take(done + 1);
                assert(longer.drop_last() =~= all.take(done));
                assert(longer.last() == session.deep_view());
                assert(reversed.deep_view().reverse() =~= before.reverse().skip(1));
                assert(all.skip(done).skip(1) =~= all.skip(done + 1));
            }
            insert_session(&mut ordered, session);
        }
    }
    assert(all.take(all.len() as int) =~= all);
    let ghost printed = print_order(all).map_values(|session: SummaryView| session_line(session));
    let mut lines: Vec<String> = Vec::new();
    let mut index: usize = 0;
    while index < ordered.len()
        invariant
            index <= ordered@.len(),
            printed == ordered.deep_view().map_values(
                |session: SummaryView| session_line(session),
            ),
            lines.deep_view() == printed.take(index as int),
        decreases ordered@.len() - index,
    {
        let line = format_session(&ordered[index]);
        let ghost before = lines.deep_view();
        lines.push(line);
        index += 1;
        assert(lines.deep_view() =~= before.push(line@));
        assert(lines.deep_view() =~= printed.take(index as int));
    }
    assert(lines.deep_view() =~= printed);
    lines
}

/// A list in which no session is printed before an earlier one.
pub open spec fn in_print_order(list: Seq<SummaryView>) -> bool {
    forall|i: int, j: int|
        0 <= i < j < list.len() ==> !is_printed_before(#[trigger] list[j], #[trigger] list[i])
}

proof fn lemma_put_in_place(list: Seq<SummaryView>, session: SummaryView)
    requires
        in_print_order(list),
    ensures
        in_print_order(put_in_place(list, session)),
        put_in_place(list, session).to_multiset() == list.to_multiset().insert(session),
        forall|i: int|
            0 <= i < put_in_place(list, session).len() ==> (#[trigger] put_in_place(
                list,
                session,
            )[i]) == session || list.contains(put_in_place(list, session)[i]),
    decreases list.len(),
{
    broadcast use vstd::seq_lib::group_to_multiset_ensures;

    let result = put_in_place(list, session);
    if list.len() > 0 && is_printed_before(session, list.last()) {
        let before = list.drop_last();
        let shorter = put_in_place(before, session);
        lemma_put_in_place(before, session);
        assert(before.push(list.last()) =~= list);
        assert forall|i: int, j: int| 0 <= i < j < result.len() implies !is_printed_before(
            #[trigger] result[j],
            #[trigger] result[i],
        ) by {
            assert(result[i] == shorter[i]);
            if j < shorter.len() {
                assert(result[j] == shorter[j]);
            } else if shorter[i] != session {
                let k = choose|k: int| 0 <= k < before.len() && before[k] == shorter[i];
                assert(before[k] == list[k]);
                assert(!is_printed_before(list[list.len() - 1], list[k]));
            }
        }
        assert forall|i: int| 0 <= i < result.len() implies (#[trigger] result[i]) == session
            || list.contains(result[i]) by {
            if i < shorter.len() {
                assert(result[i] == shorter[i]);
                if shorter[i] != session {
                    let k = choose|k: int| 0 <= k < before.len() && before[k] == shorter[i];
                    assert(list[k] == shorter[i]);
                }
            } else {
                assert(list[list.len() - 1] == result[i]);
            }
        }
        assert(result.to_multiset() =~= list.to_multiset().insert(session));
    } else {
        assert forall|i: int, j: int| 0 <= i < j < result.len() implies !is_printed_before(
            #[trigger] result[j],
            #[trigger] result[i],
        ) by {
            assert(result[i] == list[i]);
            if j < list.len() {
                assert(result[j] == list[j]);
            } else if i < list.len() - 1 {
                assert(!is_printed_before(list[list.len() - 1], list[i]));
            }
        }
        assert forall|i: int| 0 <= i < result.len() implies (#[trigger] result[i]) == session
            || list.contains(result[i]) by {
            if i < list.len() {
                assert(list[i] == result[i]);
            }
        }
    }
}

/// The printed sessions are those given, ordered by activity, latest first.
pub proof fn lemma_printed_sessions_are_ordered(sessions: Seq<SummaryView>)
    ensures
        in_print_order(print_order(sessions)),
        print_order(sessions).to_multiset() == sessions.to_multiset(),
    decreases sessions.len(),
{
    broadcast use vstd::seq_lib::group_to_multiset_ensures;

    if sessions.len() > 0 {
        lemma_printed_sessions_are_ordered(sessions.drop_last());
        lemma_put_in_place(print_order(sessions.drop_last()), sessions.last());
        assert(sessions.drop_last().push(sessions.last()) =~= sessions);
    } else {
        assert(print_order(sessions) =~= sessions);
    }
}

/// Arguments say what runs: a session is resumed by its identifier or else by its title, and
/// nothing else is read into them.
pub proof fn lemma_arguments_say_what_runs()
    ensures
        forall|arguments: CliArguments, mode: Result<CliMode, SelectorError>| #[trigger]
            call_ensures(parse, (arguments,), mode) && is_consistent(arguments) ==> {
                &&& arguments.resume is None ==> mode is Ok
                &&& arguments.resume is None && arguments.command is None && !arguments.new
                    ==> mode->Ok_0 == CliMode::Default
                &&& arguments.new ==> mode->Ok_0 == CliMode::New
                &&& arguments.resume is None && arguments.command is Some
                    && arguments.command->0 is Sessions ==> mode->Ok_0 == CliMode::Sessions
                &&& arguments.resume is None && arguments.command is Some
                    && arguments.command->0 is Server ==> mode->Ok_0 == (CliMode::Server {
                    detached: arguments.command->0->internal_detached,
                })
                &&& arguments.resume is Some && mode is Ok ==> mode->Ok_0 is Session
            },
        forall|mode: CliMode, runs: Dispatch| #[trigger]
            call_ensures(dispatch, (mode,), runs) ==> {
                &&& runs is Server <==> mode is Server
                &&& mode is Server ==> runs->Server_detached == mode->detached
                &&& runs is List <==> mode is Sessions
                &&& mode is Default ==> runs->Client_0 is Startup
                &&& mode is New ==> runs->Client_0 is NewDraft
                &&& mode is Session ==> runs == Dispatch::Client(
                    LaunchMode::Session(mode->selector),
                )
            },
{
}

/// A text that begins as an identifier is one or is refused; any other is a title or is refused.
pub proof fn lemma_selectors_are_identifiers_or_titles(number: u64, rest: Seq<char>)
    ensures
        forall|text: &str, selector: Result<SessionSelector, SelectorError>| #[trigger]
            call_ensures(parse_selector, (text,), selector) ==> {
                &&& text@ == "session-"@ + decimal(number as nat) ==> selector == Ok::<
                    SessionSelector,
                    SelectorError,
                >(SessionSelector::Id(SessionId { number }))
                &&& text@ == "session-"@ + rest ==> selector is Ok && selector->Ok_0 is Id
                    || selector == Err::<SessionSelector, SelectorError>(SelectorError::SessionId)
                &&& selector is Ok && selector->Ok_0 is Id ==> text@ == "session-"@ + decimal(
                    selector->Ok_0->Id_0.number as nat,
                )
                &&& selector is Ok && selector->Ok_0 is Title ==> label_of(text@, 64) == Some(
                    selector->Ok_0->Title_0.value@,
                )
                &&& !"session-"@.is_prefix_of(text@) && label_of(text@, 64) is Some ==> selector is Ok
                    && selector->Ok_0 is Title
            },
{
    assert forall|text: &str, selector: Result<SessionSelector, SelectorError>| #[trigger]
        call_ensures(parse_selector, (text,), selector) implies {
        &&& text@ == "session-"@ + decimal(number as nat) ==> selector == Ok::<
            SessionSelector,
            SelectorError,
        >(SessionSelector::Id(SessionId { number }))
        &&& text@ == "session-"@ + rest ==> selector is Ok && selector->Ok_0 is Id || selector
            == Err::<SessionSelector, SelectorError>(SelectorError::SessionId)
        &&& selector is Ok && selector->Ok_0 is Id ==> text@ == "session-"@ + decimal(
            selector->Ok_0->Id_0.number as nat,
        )
        &&& selector is Ok && selector->Ok_0 is Title ==> label_of(text@, 64) == Some(
            selector->Ok_0->Title_0.value@,
        )
        &&& !"session-"@.is_prefix_of(text@) && label_of(text@, 64) is Some ==> selector is Ok
            && selector->Ok_0 is Title
    } by {
        crate::text::lemma_prefixes_are_taken_off(text@, "session-"@, rest);
        crate::text::lemma_prefixes_are_taken_off(text@, "session-"@, decimal(number as nat));
        crate::session::lemma_session_id_text_is_read_back(SessionId { number });
        if session_id_of(text@) is Some {
            let found = choose|found: SessionId| session_id_text(found) == text@;
            assert(session_id_text(found) == text@);
        }
    }
}

/// The list of sessions has one line for each, the latest activity first and, at the same instant,
/// the lower number first.
pub proof fn lemma_latest_sessions_are_printed_first(
    sessions: Seq<SummaryView>,
    first: int,
    second: int,
)
    requires
        0 <= first < second < print_order(sessions).len(),
    ensures
        print_order(sessions).len() == sessions.len(),
        ({
            let above = print_order(sessions)[first];
            let below = print_order(sessions)[second];
            &&& above.last_activity.seconds >= below.last_activity.seconds
            &&& above.last_activity.seconds == below.last_activity.seconds
                ==> above.last_activity.nanoseconds >= below.last_activity.nanoseconds
            &&& above.last_activity == below.last_activity ==> above.id.number <= below.id.number
        }),
{
    broadcast use vstd::seq_lib::group_to_multiset_ensures;

    lemma_printed_sessions_are_ordered(sessions);
    assert(print_order(sessions).to_multiset().len() == sessions.to_multiset().len());
    let above = print_order(sessions)[first];
    let below = print_order(sessions)[second];
    assert(!is_printed_before(below, above));
}

/// A line tells a session apart by tabs: its identifier, title, whether it runs, its clients and
/// when it was last active.
pub proof fn lemma_lines_tell_the_session(session: SummaryView)
    ensures
        ("session-"@ + decimal(session.id.number as nat) + "\t"@ + session.title).is_prefix_of(
            session_line(session),
        ),
        session.running ==> session_line(session) == "session-"@ + decimal(
            session.id.number as nat,
        ) + "\t"@ + session.title + "\t"@ + "running"@ + "\tclients="@ + decimal(
            session.attached_clients as nat,
        ) + "\t"@ + printed_instant(session.last_activity),
        !session.running ==> session_line(session) == "session-"@ + decimal(
            session.id.number as nat,
        ) + "\t"@ + session.title + "\t"@ + "idle"@ + "\tclients="@ + decimal(
            session.attached_clients as nat,
        ) + "\t"@ + printed_instant(session.last_activity),
        offset_text(session.last_activity.seconds, session.last_activity.nanoseconds) is Some
            ==> offset_text(
            session.last_activity.seconds,
            session.last_activity.nanoseconds,
        )->0.is_suffix_of(session_line(session)),
{
    let line = session_line(session);
    let start = "session-"@ + decimal(session.id.number as nat) + "\t"@ + session.title;
    assert(line.take(start.len() as int) =~= start);
    let instant = printed_instant(session.last_activity);
    assert(line.subrange(line.len() - instant.len(), line.len() as int) =~= instant);
}

} // verus!
