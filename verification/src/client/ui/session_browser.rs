//! The session browser: filtering, ordering, grouping, selection and its dialogs.

use vstd::prelude::*;

use super::editor::{
    shows_window, EditorOutcome, EditorState, EditorWindow, PromptEditor,
};
use super::fuzzy::{fuzzy_score, fuzzy_subsequence_score, normalize_fuzzy_text, normalized};
use crate::client::input::{
    Event, EventView, KeyCode, KeyEvent, KeyEventKind, KeyModifiers, MouseEventKind,
};
use crate::session::{session_id_text, SessionId, SessionSummary, SessionTitle};
use crate::snapshot::{duplicate_bytes, optional_text, Duplicate, SummaryView};

verus! {

/// The session rows that one turn of the mouse wheel moves over.
pub const WHEEL_SELECTABLE_ROWS: usize = 3;

/// Which sessions the browser lists.
#[derive(Clone, Copy, Debug, PartialEq, Eq, Structural)]
pub enum BrowserMode {
    /// The sessions of the working directory.
    Project,
    /// Every session, grouped by working directory.
    Global,
}

/// What an event asks of the client.
#[derive(Debug)]
pub enum BrowserAction {
    Nothing,
    Refresh,
    Switch(SessionId),
    Rename { session_id: SessionId, title: String },
    Delete(SessionId),
}

/// [`BrowserAction`] as contracts see it.
pub ghost enum ActionView {
    Nothing,
    Refresh,
    Switch(SessionId),
    Rename { session_id: SessionId, title: Seq<char> },
    Delete(SessionId),
}

impl DeepView for BrowserAction {
    type V = ActionView;

    open spec fn deep_view(&self) -> ActionView {
        match self {
            BrowserAction::Nothing => ActionView::Nothing,
            BrowserAction::Refresh => ActionView::Refresh,
            BrowserAction::Switch(id) => ActionView::Switch(*id),
            BrowserAction::Rename { session_id, title } => ActionView::Rename {
                session_id: *session_id,
                title: title@,
            },
            BrowserAction::Delete(id) => ActionView::Delete(*id),
        }
    }
}

/// A dialog of the browser.
pub enum BrowserLayer {
    List,
    Rename { session_id: SessionId, editor: PromptEditor, error: Option<String> },
    ConfirmDelete { session_id: SessionId, title: SessionTitle },
}

/// [`BrowserLayer`] as contracts see it.
pub ghost enum LayerView {
    List,
    Rename { session_id: SessionId, editor: EditorState, error: Option<Seq<char>> },
    ConfirmDelete { session_id: SessionId, title: Seq<char> },
}

impl DeepView for BrowserLayer {
    type V = LayerView;

    open spec fn deep_view(&self) -> LayerView {
        match self {
            BrowserLayer::List => LayerView::List,
            BrowserLayer::Rename { session_id, editor, error } => LayerView::Rename {
                session_id: *session_id,
                editor: editor.state(),
                error: optional_text(*error),
            },
            BrowserLayer::ConfirmDelete { session_id, title } => LayerView::ConfirmDelete {
                session_id: *session_id,
                title: title.value@,
            },
        }
    }
}

/// A row of the list.
#[derive(Debug)]
pub enum BrowserRow {
    Group { cwd: Vec<u8>, cwd_display: String },
    Session(SessionSummary),
}

/// [`BrowserRow`] as contracts see it.
pub ghost enum RowView {
    Group { cwd: Seq<u8>, cwd_display: Seq<char> },
    Session(SummaryView),
}

impl DeepView for BrowserRow {
    type V = RowView;

    open spec fn deep_view(&self) -> RowView {
        match self {
            BrowserRow::Group { cwd, cwd_display } => RowView::Group {
                cwd: cwd@,
                cwd_display: cwd_display@,
            },
            BrowserRow::Session(summary) => RowView::Session(summary.deep_view()),
        }
    }
}

/// The session of a row.
pub open spec fn row_id(row: RowView) -> Option<SessionId> {
    match row {
        RowView::Group { .. } => None,
        RowView::Session(summary) => Some(summary.id),
    }
}

impl BrowserRow {
    /// The session of this row.
    pub fn session_id(&self) -> (id: Option<SessionId>)
        ensures
            id == row_id(self.deep_view()),
    {
        match self {
            BrowserRow::Group { .. } => None,
            BrowserRow::Session(summary) => Some(summary.id),
        }
    }
}

/// The order of byte strings, as of words in a dictionary.
pub open spec fn bytes_before(left: Seq<u8>, right: Seq<u8>) -> bool
    decreases left.len(),
{
    if right.len() == 0 {
        false
    } else if left.len() == 0 {
        true
    } else if left[0] != right[0] {
        left[0] < right[0]
    } else {
        bytes_before(left.drop_first(), right.drop_first())
    }
}

/// A session that is listed before another: the one active later, of two active at once the one
/// with the larger identifier.
pub open spec fn comes_before(left: SummaryView, right: SummaryView) -> bool {
    if left.last_activity != right.last_activity {
        right.last_activity.spec_before(left.last_activity)
    } else if left.id != right.id {
        left.id.number > right.id.number
    } else {
        bytes_before(left.cwd, right.cwd)
    }
}

/// A list with a session put in its place, behind those that it does not come before.
pub open spec fn placed(list: Seq<SummaryView>, session: SummaryView) -> Seq<SummaryView>
    decreases list.len(),
{
    if list.len() > 0 && comes_before(session, list.last()) {
        placed(list.drop_last(), session).push(list.last())
    } else {
        list.push(session)
    }
}

/// A session that a normalized query finds by title, identifier or displayed path.
pub open spec fn summary_matches(summary: SummaryView, query: Seq<char>) -> bool {
    ||| query.len() == 0
    ||| fuzzy_score(query, normalized(summary.title)) is Some
    ||| fuzzy_score(query, normalized(session_id_text(summary.id))) is Some
    ||| fuzzy_score(query, normalized(summary.cwd_display)) is Some
}

/// A session that the list shows.
pub open spec fn is_listed(
    summary: SummaryView,
    mode: BrowserMode,
    query: Seq<char>,
    cwd: Seq<u8>,
) -> bool {
    (mode == BrowserMode::Global || summary.cwd == cwd) && summary_matches(summary, query)
}

/// The listed sessions in their order.
pub open spec fn listed(
    sessions: Seq<SummaryView>,
    mode: BrowserMode,
    query: Seq<char>,
    cwd: Seq<u8>,
) -> Seq<SummaryView>
    decreases sessions.len(),
{
    if sessions.len() == 0 {
        Seq::empty()
    } else {
        let before = listed(sessions.drop_last(), mode, query, cwd);
        if is_listed(sessions.last(), mode, query, cwd) {
            placed(before, sessions.last())
        } else {
            before
        }
    }
}

proof fn lemma_bytes_order(left: Seq<u8>, middle: Seq<u8>, right: Seq<u8>)
    ensures
        bytes_before(left, middle) && bytes_before(middle, right) ==> bytes_before(left, right),
        !bytes_before(left, middle) && !bytes_before(middle, left) ==> left == middle,
        bytes_before(left, middle) ==> !bytes_before(middle, left),
    decreases left.len() + middle.len() + right.len(),
{
    if left.len() == 0 && middle.len() == 0 {
        assert(left =~= middle);
    }
    if left.len() > 0 && middle.len() > 0 {
        if right.len() > 0 {
            lemma_bytes_order(left.drop_first(), middle.drop_first(), right.drop_first());
        } else {
            lemma_bytes_order(left.drop_first(), middle.drop_first(), right);
        }
        if left[0] == middle[0] && left.drop_first() == middle.drop_first() {
            assert(left =~= seq![left[0]] + left.drop_first());
            assert(middle =~= seq![middle[0]] + middle.drop_first());
        }
    }
}

proof fn lemma_order_is_transitive(left: SummaryView, middle: SummaryView, right: SummaryView)
    ensures
        !comes_before(middle, left) && !comes_before(right, middle) ==> !comes_before(right, left),
        comes_before(left, middle) ==> !comes_before(middle, left),
{
    lemma_bytes_order(left.cwd, middle.cwd, right.cwd);
    lemma_bytes_order(right.cwd, left.cwd, middle.cwd);
    lemma_bytes_order(middle.cwd, right.cwd, left.cwd);
    lemma_bytes_order(right.cwd, middle.cwd, left.cwd);
    lemma_bytes_order(middle.cwd, left.cwd, right.cwd);
}

/// A list in which no session comes before an earlier one.
pub open spec fn ordered(list: Seq<SummaryView>) -> bool {
    forall|i: int, j: int|
        0 <= i < j < list.len() ==> !comes_before(#[trigger] list[j], #[trigger] list[i])
}

proof fn lemma_placed_is_ordered(list: Seq<SummaryView>, session: SummaryView)
    requires
        ordered(list),
    ensures
        ordered(placed(list, session)),
        placed(list, session).to_multiset() == list.to_multiset().insert(session),
        forall|i: int|
            0 <= i < placed(list, session).len() ==> (#[trigger] placed(list, session)[i])
                == session || list.contains(placed(list, session)[i]),
    decreases list.len(),
{
    broadcast use vstd::seq_lib::group_to_multiset_ensures;

    let result = placed(list, session);
    if list.len() > 0 && comes_before(session, list.last()) {
        let before = list.drop_last();
        let shorter = placed(before, session);
        lemma_placed_is_ordered(before, session);
        assert(before.push(list.last()) =~= list);
        assert forall|i: int, j: int| 0 <= i < j < result.len() implies !comes_before(
            #[trigger] result[j],
            #[trigger] result[i],
        ) by {
            if j < shorter.len() {
                assert(result[j] == shorter[j]);
                assert(result[i] == shorter[i]);
            } else {
                assert(result[i] == shorter[i]);
                if shorter[i] == session {
                    lemma_order_is_transitive(session, list.last(), list.last());
                } else {
                    let k = choose|k: int| 0 <= k < before.len() && before[k] == shorter[i];
                    assert(before[k] == list[k]);
                    assert(!comes_before(list[list.len() - 1], list[k]));
                }
            }
        }
        assert forall|i: int| 0 <= i < result.len() implies (#[trigger] result[i]) == session
            || list.contains(result[i]) by {
            if i < shorter.len() {
                assert(result[i] == shorter[i]);
                if shorter[i] != session {
                    let k = choose|k: int| 0 <= k < before.len() && before[k] == shorter[i];
                    assert(list[k] == shorter[i]);
                }
            } else {
                assert(list[list.len() - 1] == result[i]);
            }
        }
        assert(result.to_multiset() =~= list.to_multiset().insert(session));
    } else {
        assert forall|i: int, j: int| 0 <= i < j < result.len() implies !comes_before(
            #[trigger] result[j],
            #[trigger] result[i],
        ) by {
            if j < list.len() {
                assert(result[j] == list[j] && result[i] == list[i]);
            } else {
                assert(result[i] == list[i]);
                if i < list.len() - 1 {
                    assert(!comes_before(list[list.len() - 1], list[i]));
                    lemma_order_is_transitive(list[i], list.last(), session);
                }
            }
        }
        assert forall|i: int| 0 <= i < result.len() implies (#[trigger] result[i]) == session
            || list.contains(result[i]) by {
            if i < list.len() {
                assert(list[i] == result[i]);
            }
        }
    }
}

/// The listed sessions are ordered by activity and hold each listed session as often as it was
/// given.
pub proof fn lemma_listed_sessions_are_ordered(
    sessions: Seq<SummaryView>,
    mode: BrowserMode,
    query: Seq<char>,
    cwd: Seq<u8>,
)
    ensures
        ordered(listed(sessions, mode, query, cwd)),
        listed(sessions, mode, query, cwd).to_multiset() == sessions.filter(
            |summary: SummaryView| is_listed(summary, mode, query, cwd),
        ).to_multiset(),
    decreases sessions.len(),
{
    broadcast use vstd::seq_lib::group_to_multiset_ensures;

    let keep = |summary: SummaryView| is_listed(summary, mode, query, cwd);
    reveal(Seq::filter);
    if sessions.len() > 0 {
        lemma_listed_sessions_are_ordered(sessions.drop_last(), mode, query, cwd);
        lemma_placed_is_ordered(
            listed(sessions.drop_last(), mode, query, cwd),
            sessions.last(),
        );
        assert(sessions.filter(keep) == if keep(sessions.last()) {
            sessions.drop_last().filter(keep).push(sessions.last())
        } else {
            sessions.drop_last().filter(keep)
        });
    }
}

/// The rows of the sessions of one working directory.
pub open spec fn session_rows(list: Seq<SummaryView>, cwd: Seq<u8>) -> Seq<RowView>
    decreases list.len(),
{
    if list.len() == 0 {
        Seq::empty()
    } else if list.last().cwd == cwd {
        session_rows(list.drop_last(), cwd).push(RowView::Session(list.last()))
    } else {
        session_rows(list.drop_last(), cwd)
    }
}

/// The rows of all sessions.
pub open spec fn all_rows(list: Seq<SummaryView>) -> Seq<RowView> {
    Seq::new(list.len(), |i: int| RowView::Session(list[i]))
}

/// The displayed path of the first session of a working directory.
pub open spec fn group_display(list: Seq<SummaryView>, cwd: Seq<u8>) -> Seq<char>
    decreases list.len(),
{
    if list.len() == 0 {
        Seq::empty()
    } else if list[0].cwd == cwd {
        list[0].cwd_display
    } else {
        group_display(list.drop_first(), cwd)
    }
}

/// The working directories of a list but `current`, in the order of their first sessions.
pub open spec fn other_groups(list: Seq<SummaryView>, current: Seq<u8>) -> Seq<Seq<u8>>
    decreases list.len(),
{
    if list.len() == 0 {
        Seq::empty()
    } else {
        let before = other_groups(list.drop_last(), current);
        if list.last().cwd == current || before.contains(list.last().cwd) {
            before
        } else {
            before.push(list.last().cwd)
        }
    }
}

/// The working directories of a list: `current` first, then in the order of their first sessions.
pub open spec fn groups(list: Seq<SummaryView>, current: Seq<u8>) -> Seq<Seq<u8>> {
    if exists|i: int| 0 <= i < list.len() && (#[trigger] list[i]).cwd == current {
        seq![current] + other_groups(list, current)
    } else {
        other_groups(list, current)
    }
}

/// The rows of some groups: each under the displayed path of its first session.
pub open spec fn group_rows(list: Seq<SummaryView>, order: Seq<Seq<u8>>) -> Seq<RowView>
    decreases order.len(),
{
    if order.len() == 0 {
        Seq::empty()
    } else {
        let cwd = order.last();
        group_rows(list, order.drop_last()).push(
            RowView::Group { cwd, cwd_display: group_display(list, cwd) },
        ) + session_rows(list, cwd)
    }
}

/// The rows of the browser.
pub open spec fn browser_rows(
    sessions: Seq<SummaryView>,
    mode: BrowserMode,
    query: Seq<char>,
    cwd: Seq<u8>,
) -> Seq<RowView> {
    let list = listed(sessions, mode, query, cwd);
    match mode {
        BrowserMode::Project => all_rows(list),
        BrowserMode::Global => group_rows(list, groups(list, cwd)),
    }
}

/// The first session row at or after `from`, or the number of rows where there is none.
pub open spec fn row_from(rows: Seq<RowView>, from: int) -> int
    decreases rows.len() - from,
{
    if from >= rows.len() {
        rows.len() as int
    } else if row_id(rows[from]) is Some {
        from
    } else {
        row_from(rows, from + 1)
    }
}

/// The last session row before `end`, or -1 where there is none.
pub open spec fn row_before(rows: Seq<RowView>, end: int) -> int
    decreases end,
{
    if end <= 0 {
        -1
    } else if row_id(rows[end - 1]) is Some {
        end - 1
    } else {
        row_before(rows, end - 1)
    }
}

/// The first row of a session at or after `from`, or the number of rows where there is none.
pub open spec fn row_of(rows: Seq<RowView>, from: int, id: SessionId) -> int
    decreases rows.len() - from,
{
    if from >= rows.len() {
        rows.len() as int
    } else if row_id(rows[from]) == Some(id) {
        from
    } else {
        row_of(rows, from + 1, id)
    }
}

/// The session row `count` session rows after `index`, or the last one.
pub open spec fn rows_on(rows: Seq<RowView>, index: int, count: nat) -> int
    decreases count,
{
    if count == 0 || row_from(rows, index + 1) >= rows.len() {
        index
    } else {
        rows_on(rows, row_from(rows, index + 1), (count - 1) as nat)
    }
}

/// The session row `count` session rows before `index`, or the first one.
pub open spec fn rows_back(rows: Seq<RowView>, index: int, count: nat) -> int
    decreases count,
{
    if count == 0 || row_before(rows, index) < 0 {
        index
    } else {
        rows_back(rows, row_before(rows, index), (count - 1) as nat)
    }
}

/// The state of the browser.
pub ghost struct BrowserView {
    pub open: bool,
    pub mode: BrowserMode,
    pub query: EditorState,
    pub sessions: Seq<SummaryView>,
    pub visible: Seq<RowView>,
    pub selected: int,
    pub selected_id: Option<SessionId>,
    pub offset: int,
    pub layer: LayerView,
    pub refresh_warning: Option<Seq<char>>,
    pub action_error: Option<Seq<char>>,
    pub current_cwd: Seq<u8>,
    pub viewport_rows: int,
    pub refresh_requested: bool,
}

/// The smaller of two numbers.
pub open spec fn smaller(left: int, right: int) -> int {
    if left < right {
        left
    } else {
        right
    }
}

/// The difference of two numbers, at least zero.
pub open spec fn less(left: int, right: int) -> int {
    if left < right {
        0
    } else {
        left - right
    }
}

impl BrowserView {
    /// A browser that was never opened.
    pub open spec fn initial() -> BrowserView {
        BrowserView {
            open: false,
            mode: BrowserMode::Project,
            query: EditorState::empty(),
            sessions: Seq::empty(),
            visible: Seq::empty(),
            selected: 0,
            selected_id: None,
            offset: 0,
            layer: LayerView::List,
            refresh_warning: None,
            action_error: None,
            current_cwd: Seq::empty(),
            viewport_rows: 1,
            refresh_requested: false,
        }
    }

    /// The selection is a session row, or there is none.
    pub open spec fn wf(self) -> bool {
        &&& self.viewport_rows >= 1
        &&& self.offset >= 0
        &&& self.selected >= 0
        &&& match self.selected_id {
            Some(id) => self.selected < self.visible.len() && row_id(self.visible[self.selected])
                == Some(id),
            None => self.selected == 0,
        }
    }

    /// Scrolled as little as shows the selection and no row past the last.
    pub open spec fn scrolled(self) -> BrowserView {
        let last = less(self.visible.len() as int, self.viewport_rows);
        let offset = smaller(self.offset, last);
        let shown = if self.selected < offset {
            self.selected
        } else if self.selected >= offset + self.viewport_rows {
            self.selected + 1 - self.viewport_rows
        } else {
            offset
        };
        BrowserView { offset: smaller(shown, last), ..self }
    }

    /// Another session row selected.
    pub open spec fn with_selected(self, index: int) -> BrowserView {
        if 0 <= index < self.visible.len() && row_id(self.visible[index]) is Some {
            BrowserView {
                selected: index,
                selected_id: row_id(self.visible[index]),
                ..self
            }.scrolled()
        } else {
            self
        }
    }

    /// The rows computed again; the selected session stays selected where it is still listed.
    pub open spec fn rebuilt(self) -> BrowserView {
        let visible = browser_rows(
            self.sessions,
            self.mode,
            normalized(self.query.value),
            self.current_cwd,
        );
        let kept = match self.selected_id {
            Some(id) => row_of(visible, 0, id),
            None => visible.len() as int,
        };
        let selected = if kept < visible.len() {
            kept
        } else {
            row_from(visible, 0)
        };
        let found = selected < visible.len();
        BrowserView {
            visible,
            selected: if found {
                selected
            } else {
                0
            },
            selected_id: if found {
                row_id(visible[selected])
            } else {
                None
            },
            ..self
        }.scrolled()
    }

    pub open spec fn opened(self) -> BrowserView {
        BrowserView {
            open: true,
            mode: BrowserMode::Project,
            query: self.query.with_value(Seq::empty(), 0),
            selected: 0,
            selected_id: None,
            offset: 0,
            layer: LayerView::List,
            refresh_warning: None,
            action_error: None,
            refresh_requested: true,
            ..self
        }.rebuilt()
    }

    pub open spec fn closed_browser(self) -> BrowserView {
        BrowserView { open: false, refresh_requested: false, action_error: None, ..self }
    }

    pub open spec fn with_sessions(self, cwd: Seq<u8>, sessions: Seq<SummaryView>) -> BrowserView {
        BrowserView { current_cwd: cwd, sessions, refresh_warning: None, ..self }.rebuilt()
    }

    pub open spec fn toggled(self) -> BrowserView {
        BrowserView {
            mode: match self.mode {
                BrowserMode::Project => BrowserMode::Global,
                BrowserMode::Global => BrowserMode::Project,
            },
            refresh_requested: true,
            ..self
        }.rebuilt()
    }

    pub open spec fn with_next(self) -> BrowserView {
        if self.selected_id is None {
            self
        } else {
            self.with_selected(row_from(self.visible, self.selected + 1))
        }
    }

    pub open spec fn with_previous(self) -> BrowserView {
        self.with_selected(row_before(self.visible, self.selected))
    }

    pub open spec fn paged_down(self) -> BrowserView {
        let target = smaller(self.selected + self.viewport_rows, self.visible.len() - 1);
        let next = row_from(self.visible, target);
        if self.selected_id is None {
            self
        } else if next < self.visible.len() {
            self.with_selected(next)
        } else {
            self.with_selected(row_before(self.visible, target))
        }
    }

    pub open spec fn paged_up(self) -> BrowserView {
        let target = less(self.selected, self.viewport_rows);
        let previous = row_before(self.visible, target + 1);
        if self.selected_id is None {
            self
        } else if previous >= 0 {
            self.with_selected(previous)
        } else {
            self.with_selected(row_from(self.visible, target))
        }
    }

    pub open spec fn wheeled_down(self) -> BrowserView {
        if self.selected_id is None {
            self
        } else {
            self.with_selected(
                rows_on(self.visible, self.selected, WHEEL_SELECTABLE_ROWS as nat),
            )
        }
    }

    pub open spec fn wheeled_up(self) -> BrowserView {
        if self.selected_id is None {
            self
        } else {
            self.with_selected(
                rows_back(self.visible, self.selected, WHEEL_SELECTABLE_ROWS as nat),
            )
        }
    }

    /// The selected session.
    pub open spec fn selection(self) -> Option<SummaryView> {
        if self.selected < self.visible.len() {
            match self.visible[self.selected] {
                RowView::Session(summary) => Some(summary),
                RowView::Group { .. } => None,
            }
        } else {
            None
        }
    }

    pub open spec fn with_rename(self) -> BrowserView {
        if self.layer is List && self.selection() is Some {
            let title = super::editor::editor_text(self.selection()->0.title);
            BrowserView {
                layer: LayerView::Rename {
                    session_id: self.selection()->0.id,
                    editor: EditorState::empty().with_value(
                        title,
                        crate::text::graphemes(title).len() as int,
                    ),
                    error: None,
                },
                ..self
            }
        } else {
            self
        }
    }

    pub open spec fn with_confirmation(self) -> BrowserView {
        if self.layer is List && self.selection() is Some {
            BrowserView {
                layer: LayerView::ConfirmDelete {
                    session_id: self.selection()->0.id,
                    title: self.selection()->0.title,
                },
                ..self
            }
        } else {
            self
        }
    }

    /// Closes the dialog, or the browser where none is open.
    pub open spec fn escaped(self) -> BrowserView {
        if self.layer is List {
            self.closed_browser()
        } else {
            BrowserView { layer: LayerView::List, ..self }
        }
    }

    pub open spec fn with_query_event(self, event: EventView) -> BrowserView {
        let (query, outcome) = self.query.after(event);
        if outcome is Changed {
            BrowserView { query, ..self }.rebuilt()
        } else {
            BrowserView { query, ..self }
        }
    }

    pub open spec fn after_list_key(self, key: KeyEvent) -> (BrowserView, ActionView) {
        if key.modifiers == KeyModifiers::spec_none() {
            match key.code {
                KeyCode::Esc => (self.escaped(), ActionView::Nothing),
                KeyCode::Tab => (self.toggled(), ActionView::Refresh),
                KeyCode::Up => (self.with_previous(), ActionView::Nothing),
                KeyCode::Down => (self.with_next(), ActionView::Nothing),
                KeyCode::PageUp => (self.paged_up(), ActionView::Nothing),
                KeyCode::PageDown => (self.paged_down(), ActionView::Nothing),
                KeyCode::Enter => (
                    self,
                    match self.selected_id {
                        Some(id) => ActionView::Switch(id),
                        None => ActionView::Nothing,
                    },
                ),
                KeyCode::F(2) => (self.with_rename(), ActionView::Nothing),
                _ => (self.with_query_event(EventView::Key(key)), ActionView::Nothing),
            }
        } else if key.modifiers == KeyModifiers::spec_control() && (key.code == KeyCode::Char('d')
            || key.code == KeyCode::Char('D')) {
            (self.with_confirmation(), ActionView::Nothing)
        } else {
            (self.with_query_event(EventView::Key(key)), ActionView::Nothing)
        }
    }

    pub open spec fn after_list_event(self, event: EventView) -> (BrowserView, ActionView) {
        match event {
            EventView::Key(key) => self.after_list_key(key),
            EventView::Mouse(MouseEventKind::ScrollUp) => (self.wheeled_up(), ActionView::Nothing),
            EventView::Mouse(MouseEventKind::ScrollDown) => (
                self.wheeled_down(),
                ActionView::Nothing,
            ),
            EventView::Paste(_) => (self.with_query_event(event), ActionView::Nothing),
            _ => (self, ActionView::Nothing),
        }
    }

    pub open spec fn after_rename_event(self, event: EventView) -> (BrowserView, ActionView) {
        match self.layer {
            LayerView::Rename { session_id, editor, error } => {
                if event is Key && event->Key_0.modifiers == KeyModifiers::spec_none()
                    && event->Key_0.code == KeyCode::Esc {
                    (self.escaped(), ActionView::Nothing)
                } else if event is Key && event->Key_0.modifiers == KeyModifiers::spec_none()
                    && event->Key_0.code == KeyCode::Enter {
                    (self, ActionView::Rename { session_id, title: editor.value })
                } else {
                    (
                        BrowserView {
                            layer: LayerView::Rename {
                                session_id,
                                editor: editor.after(event).0,
                                error,
                            },
                            ..self
                        },
                        ActionView::Nothing,
                    )
                }
            },
            _ => (self, ActionView::Nothing),
        }
    }

    pub open spec fn after_confirmation_event(self, event: EventView) -> (BrowserView, ActionView) {
        match self.layer {
            LayerView::ConfirmDelete { session_id, .. } => {
                if !(event is Key) || event->Key_0.modifiers != KeyModifiers::spec_none() {
                    (self, ActionView::Nothing)
                } else {
                    match event->Key_0.code {
                        KeyCode::Esc | KeyCode::Char('n') | KeyCode::Char('N') => (
                            self.escaped(),
                            ActionView::Nothing,
                        ),
                        KeyCode::Enter | KeyCode::Char('y') | KeyCode::Char('Y') => (
                            self,
                            ActionView::Delete(session_id),
                        ),
                        _ => (self, ActionView::Nothing),
                    }
                }
            },
            _ => (self, ActionView::Nothing),
        }
    }

    /// What an event does: keys, pastes and the wheel dismiss the last error first.
    pub open spec fn after(self, event: EventView) -> (BrowserView, ActionView) {
        let seen = if event is Key || event is Paste || event == EventView::Mouse(
            MouseEventKind::ScrollUp,
        ) || event == EventView::Mouse(MouseEventKind::ScrollDown) {
            BrowserView { action_error: None, ..self }
        } else {
            self
        };
        match seen.layer {
            LayerView::List => seen.after_list_event(event),
            LayerView::Rename { .. } => seen.after_rename_event(event),
            LayerView::ConfirmDelete { .. } => seen.after_confirmation_event(event),
        }
    }
}

proof fn lemma_row_from(rows: Seq<RowView>, from: int)
    requires
        0 <= from,
    ensures
        from <= rows.len() ==> from <= row_from(rows, from) <= rows.len(),
        row_from(rows, from) < rows.len() ==> row_id(rows[row_from(rows, from)]) is Some,
    decreases rows.len() - from,
{
    if from < rows.len() && row_id(rows[from]) is None {
        lemma_row_from(rows, from + 1);
    }
}

proof fn lemma_row_of(rows: Seq<RowView>, from: int, id: SessionId)
    requires
        0 <= from <= rows.len(),
    ensures
        from <= row_of(rows, from, id) <= rows.len(),
        row_of(rows, from, id) < rows.len() ==> row_id(rows[row_of(rows, from, id)]) == Some(id),
        row_of(rows, from, id) == rows.len() ==> forall|i: int|
            from <= i < rows.len() ==> row_id(#[trigger] rows[i]) != Some(id),
    decreases rows.len() - from,
{
    if from < rows.len() && row_id(rows[from]) != Some(id) {
        lemma_row_of(rows, from + 1, id);
    }
}

/// Recomputing the rows leaves a session selected wherever one is listed, and keeps the selected
/// session selected while it is listed.
pub proof fn lemma_rebuilding_keeps_the_selection(browser: BrowserView)
    requires
        browser.viewport_rows >= 1,
        browser.offset >= 0,
    ensures
        browser.rebuilt().wf(),
        browser.selected_id is Some && (exists|i: int|
            0 <= i < browser.rebuilt().visible.len() && row_id(
                #[trigger] browser.rebuilt().visible[i],
            ) == browser.selected_id) ==> browser.rebuilt().selected_id == browser.selected_id,
{
    let visible = browser.rebuilt().visible;
    lemma_row_from(visible, 0);
    if browser.selected_id is Some {
        lemma_row_of(visible, 0, browser.selected_id->0);
    }
}

/// The selected row is in view after scrolling, wherever the view is at least one row high.
pub proof fn lemma_selection_is_in_view(browser: BrowserView)
    requires
        browser.wf(),
        browser.selected < browser.visible.len(),
    ensures
        browser.scrolled().offset <= browser.selected < browser.scrolled().offset
            + browser.viewport_rows,
{
}

#[verifier::rlimit(40)]
#[verifier::spinoff_prover]
proof fn lemma_list_events_keep_the_selection_valid(browser: BrowserView, event: EventView)
    requires
        browser.wf(),
    ensures
        browser.after_list_event(event).0.wf(),
{
    let (query, _) = browser.query.after(event);
    lemma_rebuilding_keeps_the_selection(BrowserView { query, ..browser });
    lemma_rebuilding_keeps_the_selection(
        BrowserView {
            mode: match browser.mode {
                BrowserMode::Project => BrowserMode::Global,
                BrowserMode::Global => BrowserMode::Project,
            },
            refresh_requested: true,
            ..browser
        },
    );
}

/// No event leaves the selection on anything but a session row.
#[verifier::spinoff_prover]
pub proof fn lemma_events_keep_the_selection_valid(browser: BrowserView, event: EventView)
    requires
        browser.wf(),
    ensures
        browser.after(event).0.wf(),
{
    let seen = BrowserView { action_error: None, ..browser };
    if browser.layer is List {
        lemma_list_events_keep_the_selection_valid(seen, event);
        lemma_list_events_keep_the_selection_valid(browser, event);
    }
}

/// Whether two byte strings are equal.
pub fn same_bytes(left: &Vec<u8>, right: &Vec<u8>) -> (same: bool)
    ensures
        same == (left@ == right@),
{
    if left.len() != right.len() {
        return false;
    }
    let mut index: usize = 0;
    while index < left.len()
        invariant
            index <= left@.len() == right@.len(),
            forall|i: int| 0 <= i < index ==> left@[i] == right@[i],
        decreases left@.len() - index,
    {
        if left[index] != right[index] {
            return false;
        }
        index += 1;
    }
    assert(left@ =~= right@);
    true
}

fn bytes_are_before(left: &Vec<u8>, right: &Vec<u8>) -> (before: bool)
    ensures
        before == bytes_before(left@, right@),
{
    let mut index: usize = 0;
    assert(left@.skip(0) =~= left@);
    assert(right@.skip(0) =~= right@);
    while index < left.len() && index < right.len()
        invariant
            index <= left@.len(),
            index <= right@.len(),
            bytes_before(left@, right@) == bytes_before(
                left@.skip(index as int),
                right@.skip(index as int),
            ),
        decreases left@.len() - index,
    {
        proof {
            assert(left@.skip(index as int).drop_first() =~= left@.skip(index + 1));
            assert(right@.skip(index as int).drop_first() =~= right@.skip(index + 1));
        }
        if left[index] != right[index] {
            return left[index] < right[index];
        }
        index += 1;
    }
    index < right.len()
}

fn session_comes_before(left: &SessionSummary, right: &SessionSummary) -> (before: bool)
    ensures
        before == comes_before(left.deep_view(), right.deep_view()),
{
    if left.last_activity != right.last_activity {
        right.last_activity.before(left.last_activity)
    } else if left.id != right.id {
        left.id.number > right.id.number
    } else {
        bytes_are_before(&left.cwd, &right.cwd)
    }
}

fn place(list: &mut Vec<SessionSummary>, session: SessionSummary)
    ensures
        final(list).deep_view() == placed(old(list).deep_view(), session.deep_view()),
{
    let mut index: usize = list.len();
    let ghost all = list.deep_view();
    let ghost new = session.deep_view();
    assert(all.subrange(0, index as int) =~= all);
    assert(placed(all, new) =~= placed(all, new) + all.subrange(index as int, index as int));
    while index > 0 && session_comes_before(&session, &list[index - 1])
        invariant
            index <= list@.len(),
            all == list.deep_view(),
            new == session.deep_view(),
            placed(all, new) == placed(all.subrange(0, index as int), new) + all.subrange(
                index as int,
                all.len() as int,
            ),
        decreases index,
    {
        proof {
            let head = all.subrange(0, index as int);
            assert(head.last() == list@[index - 1].deep_view());
            assert(head.drop_last() =~= all.subrange(0, index - 1));
            assert(placed(head, new) + all.subrange(index as int, all.len() as int) =~= placed(
                all.subrange(0, index - 1),
                new,
            ) + all.subrange(index - 1, all.len() as int));
        }
        index -= 1;
    }
    proof {
        let head = all.subrange(0, index as int);
        if index > 0 {
            assert(head.last() == list@[index - 1].deep_view());
        }
        assert(placed(head, new) == head.push(new));
    }
    list.insert(index, session);
    assert(list.deep_view() =~= placed(all, new));
}

fn matches_query(summary: &SessionSummary, query: &str) -> (found: bool)
    ensures
        found == summary_matches(summary.deep_view(), query@),
{
    if query.is_empty() {
        return true;
    }
    let title = normalize_fuzzy_text(summary.title.as_str());
    let id_text = summary.id.text();
    let id = normalize_fuzzy_text(&id_text);
    let path = normalize_fuzzy_text(&summary.cwd_display);
    fuzzy_subsequence_score(query, &title).is_some() || fuzzy_subsequence_score(
        query,
        &id,
    ).is_some() || fuzzy_subsequence_score(query, &path).is_some()
}

fn listed_sessions(
    sessions: &Vec<SessionSummary>,
    mode: BrowserMode,
    query: &str,
    cwd: &Vec<u8>,
) -> (list: Vec<SessionSummary>)
    ensures
        list.deep_view() == listed(sessions.deep_view(), mode, query@, cwd@),
{
    let mut list: Vec<SessionSummary> = Vec::new();
    let mut index: usize = 0;
    let ghost all = sessions.deep_view();
    assert(list.deep_view() =~= listed(all.subrange(0, 0), mode, query@, cwd@));
    while index < sessions.len()
        invariant
            index <= sessions@.len(),
            all == sessions.deep_view(),
            list.deep_view() == listed(all.subrange(0, index as int), mode, query@, cwd@),
        decreases sessions@.len() - index,
    {
        proof {
            let seen = all.subrange(0, index + 1);
            assert(seen.drop_last() =~= all.subrange(0, index as int));
            assert(seen.last() == sessions@[index as int].deep_view());
        }
        let summary = &sessions[index];
        if (mode == BrowserMode::Global || same_bytes(&summary.cwd, cwd)) && matches_query(
            summary,
            query,
        ) {
            place(&mut list, summary.duplicate());
        }
        index += 1;
    }
    assert(all.subrange(0, index as int) =~= all);
    list
}

fn push_row(rows: &mut Vec<BrowserRow>, row: BrowserRow)
    ensures
        final(rows).deep_view() == old(rows).deep_view().push(row.deep_view()),
{
    rows.push(row);
    assert(rows.deep_view() =~= old(rows).deep_view().push(row.deep_view()));
}

fn rows_of_all(list: &Vec<SessionSummary>) -> (rows: Vec<BrowserRow>)
    ensures
        rows.deep_view() == all_rows(list.deep_view()),
{
    let mut rows: Vec<BrowserRow> = Vec::new();
    let mut index: usize = 0;
    while index < list.len()
        invariant
            index <= list@.len(),
            rows@.len() == index,
            forall|i: int|
                0 <= i < index ==> (#[trigger] rows@[i]).deep_view() == RowView::Session(
                    list@[i].deep_view(),
                ),
        decreases list@.len() - index,
    {
        rows.push(BrowserRow::Session(list[index].duplicate()));
        index += 1;
    }
    assert(rows.deep_view() =~= all_rows(list.deep_view()));
    rows
}

fn contains_bytes(groups: &Vec<Vec<u8>>, from: usize, cwd: &Vec<u8>) -> (found: bool)
    requires
        from <= groups@.len(),
    ensures
        found == Seq::new((groups@.len() - from) as nat, |i: int| groups@[from + i]@).contains(
            cwd@,
        ),
{
    let ghost named = Seq::new((groups@.len() - from) as nat, |i: int| groups@[from + i]@);
    let mut index: usize = from;
    while index < groups.len()
        invariant
            from <= index <= groups@.len(),
            named == Seq::new((groups@.len() - from) as nat, |i: int| groups@[from + i]@),
            forall|i: int| 0 <= i < index - from ==> named[i] != cwd@,
        decreases groups@.len() - index,
    {
        if same_bytes(&groups[index], cwd) {
            assert(named[index - from] == cwd@);
            return true;
        }
        assert(named[index - from] != cwd@);
        index += 1;
    }
    false
}

fn group_order(list: &Vec<SessionSummary>, current: &Vec<u8>) -> (order: Vec<Vec<u8>>)
    ensures
        Seq::new(order@.len(), |i: int| order@[i]@) == groups(list.deep_view(), current@),
{
    let ghost all = list.deep_view();
    let mut order: Vec<Vec<u8>> = Vec::new();
    let mut index: usize = 0;
    let mut found = false;
    while index < list.len()
        invariant
            index <= list@.len(),
            all == list.deep_view(),
            found == exists|i: int| 0 <= i < index && (#[trigger] all[i]).cwd == current@,
        decreases list@.len() - index,
    {
        assert(all[index as int] == list@[index as int].deep_view());
        if same_bytes(&list[index].cwd, current) {
            found = true;
        }
        index += 1;
    }
    if found {
        order.push(duplicate_bytes(current));
    }
    let first: usize = order.len();
    let ghost head = Seq::new(first as nat, |i: int| order@[i]@);
    let mut index: usize = 0;
    assert(Seq::new((order@.len() - first) as nat, |i: int| order@[first + i]@) =~= other_groups(
        all.subrange(0, 0),
        current@,
    ));
    while index < list.len()
        invariant
            index <= list@.len(),
            all == list.deep_view(),
            first <= order@.len(),
            head.len() == first,
            forall|i: int| 0 <= i < first ==> head[i] == #[trigger] order@[i]@,
            Seq::new((order@.len() - first) as nat, |i: int| order@[first + i]@) == other_groups(
                all.subrange(0, index as int),
                current@,
            ),
        decreases list@.len() - index,
    {
        proof {
            let seen = all.subrange(0, index + 1);
            assert(seen.drop_last() =~= all.subrange(0, index as int));
            assert(seen.last() == list@[index as int].deep_view());
        }
        let ghost before = order@;
        if !same_bytes(&list[index].cwd, current) && !contains_bytes(
            &order,
            first,
            &list[index].cwd,
        ) {
            order.push(duplicate_bytes(&list[index].cwd));
            assert(Seq::new((order@.len() - first) as nat, |i: int| order@[first + i]@)
                =~= Seq::new((before.len() - first) as nat, |i: int| before[first + i]@).push(
                list@[index as int].cwd@,
            ));
        }
        index += 1;
    }
    proof {
        assert(all.subrange(0, index as int) =~= all);
        assert(Seq::new(order@.len(), |i: int| order@[i]@) =~= head + other_groups(all, current@));
        if found {
            assert(head =~= seq![current@]);
        } else {
            assert(head + other_groups(all, current@) =~= other_groups(all, current@));
        }
    }
    order
}

fn display_of_group(list: &Vec<SessionSummary>, cwd: &Vec<u8>) -> (display: String)
    ensures
        display@ == group_display(list.deep_view(), cwd@),
{
    let ghost all = list.deep_view();
    let mut index: usize = 0;
    assert(all.skip(0) =~= all);
    while index < list.len()
        invariant
            index <= list@.len(),
            all == list.deep_view(),
            group_display(all, cwd@) == group_display(all.skip(index as int), cwd@),
        decreases list@.len() - index,
    {
        proof {
            let rest = all.skip(index as int);
            assert(rest[0] == list@[index as int].deep_view());
            assert(rest.drop_first() =~= all.skip(index + 1));
        }
        if same_bytes(&list[index].cwd, cwd) {
            return list[index].cwd_display.clone();
        }
        index += 1;
    }
    String::new()
}

fn push_group_sessions(rows: &mut Vec<BrowserRow>, list: &Vec<SessionSummary>, cwd: &Vec<u8>)
    ensures
        final(rows).deep_view() == old(rows).deep_view() + session_rows(list.deep_view(), cwd@),
{
    let ghost all = list.deep_view();
    let ghost before = rows.deep_view();
    let mut index: usize = 0;
    assert(rows.deep_view() =~= before + session_rows(all.subrange(0, 0), cwd@));
    while index < list.len()
        invariant
            index <= list@.len(),
            all == list.deep_view(),
            rows.deep_view() == before + session_rows(all.subrange(0, index as int), cwd@),
        decreases list@.len() - index,
    {
        proof {
            let seen = all.subrange(0, index + 1);
            assert(seen.drop_last() =~= all.subrange(0, index as int));
            assert(seen.last() == list@[index as int].deep_view());
        }
        if same_bytes(&list[index].cwd, cwd) {
            push_row(rows, BrowserRow::Session(list[index].duplicate()));
            assert(rows.deep_view() =~= before + session_rows(
                all.subrange(0, index + 1),
                cwd@,
            ));
        }
        index += 1;
    }
    assert(all.subrange(0, index as int) =~= all);
}

fn grouped_rows(list: &Vec<SessionSummary>, current: &Vec<u8>) -> (rows: Vec<BrowserRow>)
    ensures
        rows.deep_view() == group_rows(list.deep_view(), groups(list.deep_view(), current@)),
{
    let order = group_order(list, current);
    let ghost all = list.deep_view();
    let ghost named = Seq::new(order@.len(), |i: int| order@[i]@);
    let mut rows: Vec<BrowserRow> = Vec::new();
    let mut index: usize = 0;
    assert(rows.deep_view() =~= group_rows(all, named.subrange(0, 0)));
    while index < order.len()
        invariant
            index <= order@.len(),
            all == list.deep_view(),
            named == Seq::new(order@.len(), |i: int| order@[i]@),
            rows.deep_view() == group_rows(all, named.subrange(0, index as int)),
        decreases order@.len() - index,
    {
        proof {
            let seen = named.subrange(0, index + 1);
            assert(seen.drop_last() =~= named.subrange(0, index as int));
            assert(seen.last() == order@[index as int]@);
        }
        let cwd_display = display_of_group(list, &order[index]);
        push_row(&mut rows, BrowserRow::Group { cwd: duplicate_bytes(&order[index]), cwd_display });
        push_group_sessions(&mut rows, list, &order[index]);
        index += 1;
    }
    assert(named.subrange(0, index as int) =~= named);
    rows
}

/// The session browser.
pub struct SessionBrowserState {
    open: bool,
    mode: BrowserMode,
    query: PromptEditor,
    sessions: Vec<SessionSummary>,
    visible: Vec<BrowserRow>,
    selected: usize,
    selected_id: Option<SessionId>,
    offset: usize,
    layer: BrowserLayer,
    refresh_warning: Option<String>,
    action_error: Option<String>,
    current_cwd: Vec<u8>,
    viewport_rows: usize,
    refresh_requested: bool,
}

impl SessionBrowserState {
    /// The state of this browser.
    pub closed spec fn state(&self) -> BrowserView {
        BrowserView {
            open: self.open,
            mode: self.mode,
            query: self.query.state(),
            sessions: self.sessions.deep_view(),
            visible: self.visible.deep_view(),
            selected: self.selected as int,
            selected_id: self.selected_id,
            offset: self.offset as int,
            layer: self.layer.deep_view(),
            refresh_warning: optional_text(self.refresh_warning),
            action_error: optional_text(self.action_error),
            current_cwd: self.current_cwd@,
            viewport_rows: self.viewport_rows as int,
            refresh_requested: self.refresh_requested,
        }
    }

    fn ensure_selection_visible(&mut self)
        requires
            old(self).state().wf(),
        ensures
            final(self).state() == old(self).state().scrolled(),
            final(self).state().wf(),
    {
        let last: usize = self.visible.len().saturating_sub(self.viewport_rows);
        if self.offset > last {
            self.offset = last;
        }
        if self.selected < self.offset {
            self.offset = self.selected;
        } else if self.selected - self.offset >= self.viewport_rows {
            self.offset = self.selected - (self.viewport_rows - 1);
        }
        if self.offset > last {
            self.offset = last;
        }
    }

    fn select(&mut self, index: usize)
        requires
            old(self).state().wf(),
        ensures
            final(self).state() == old(self).state().with_selected(index as int),
            final(self).state().wf(),
    {
        if index >= self.visible.len() {
            return;
        }
        if let Some(id) = self.visible[index].session_id() {
            self.selected = index;
            self.selected_id = Some(id);
            self.ensure_selection_visible();
        }
    }

    fn find_from(&self, from: usize) -> (index: usize)
        requires
            from <= self.state().visible.len(),
        ensures
            index == row_from(self.state().visible, from as int),
            from <= index <= self.state().visible.len(),
    {
        let mut index: usize = from;
        while index < self.visible.len()
            invariant
                from <= index <= self.visible@.len(),
                row_from(self.state().visible, from as int) == row_from(
                    self.state().visible,
                    index as int,
                ),
            decreases self.visible@.len() - index,
        {
            if self.visible[index].session_id().is_some() {
                return index;
            }
            index += 1;
        }
        index
    }

    fn find_before(&self, end: usize) -> (found: Option<usize>)
        requires
            end <= self.state().visible.len(),
        ensures
            match found {
                Some(index) => index == row_before(self.state().visible, end as int) && index < end,
                None => row_before(self.state().visible, end as int) == -1,
            },
    {
        let mut index: usize = end;
        while index > 0
            invariant
                index <= end <= self.visible@.len(),
                row_before(self.state().visible, end as int) == row_before(
                    self.state().visible,
                    index as int,
                ),
            decreases index,
        {
            if self.visible[index - 1].session_id().is_some() {
                return Some(index - 1);
            }
            index -= 1;
        }
        None
    }

    fn find_session(&self, id: SessionId) -> (index: usize)
        ensures
            index == row_of(self.state().visible, 0, id),
            index <= self.state().visible.len(),
    {
        let mut index: usize = 0;
        while index < self.visible.len()
            invariant
                index <= self.visible@.len(),
                row_of(self.state().visible, 0, id) == row_of(
                    self.state().visible,
                    index as int,
                    id,
                ),
            decreases self.visible@.len() - index,
        {
            if let Some(row) = self.visible[index].session_id() {
                if row == id {
                    return index;
                }
            }
            index += 1;
        }
        index
    }

    fn rebuild_visible(&mut self)
        requires
            old(self).state().viewport_rows >= 1,
            old(self).state().offset >= 0,
        ensures
            final(self).state() == old(self).state().rebuilt(),
            final(self).state().wf(),
    {
        proof {
            lemma_rebuilding_keeps_the_selection(self.state());
        }
        let query = normalize_fuzzy_text(self.query.value());
        let list = listed_sessions(&self.sessions, self.mode, &query, &self.current_cwd);
        self.visible = match self.mode {
            BrowserMode::Project => rows_of_all(&list),
            BrowserMode::Global => grouped_rows(&list, &self.current_cwd),
        };
        let count: usize = self.visible.len();
        let kept: usize = match self.selected_id {
            Some(id) => self.find_session(id),
            None => count,
        };
        let selected: usize = if kept < count { kept } else { self.find_from(0) };
        if selected < count {
            self.selected = selected;
            self.selected_id = self.visible[selected].session_id();
            proof {
                lemma_row_from(self.state().visible, 0);
                if old(self).selected_id is Some {
                    lemma_row_of(self.state().visible, 0, old(self).selected_id->0);
                }
            }
        } else {
            self.selected = 0;
            self.selected_id = None;
        }
        self.ensure_selection_visible();
    }

    /// Opens the browser on the sessions of the working directory.
    pub fn open(&mut self)
        requires
            old(self).state().wf(),
        ensures
            final(self).state() == old(self).state().opened(),
            final(self).state().wf(),
    {
        self.open = true;
        self.mode = BrowserMode::Project;
        self.query.clear();
        self.selected = 0;
        self.selected_id = None;
        self.offset = 0;
        self.layer = BrowserLayer::List;
        self.refresh_warning = None;
        self.action_error = None;
        self.refresh_requested = true;
        self.rebuild_visible();
    }

    /// Closes the browser.
    pub fn close(&mut self)
        requires
            old(self).state().wf(),
        ensures
            final(self).state() == old(self).state().closed_browser(),
            final(self).state().wf(),
    {
        self.open = false;
        self.refresh_requested = false;
        self.action_error = None;
    }

    /// Whether the browser is open.
    pub fn is_open(&self) -> (open: bool)
        ensures
            open == self.state().open,
    {
        self.open
    }

    /// Which sessions the browser lists.
    pub fn mode(&self) -> (mode: BrowserMode)
        ensures
            mode == self.state().mode,
    {
        self.mode
    }

    /// The dialog that is open.
    pub fn layer(&self) -> (layer: &BrowserLayer)
        ensures
            layer.deep_view() == self.state().layer,
    {
        &self.layer
    }

    /// The filter.
    pub fn query(&self) -> (query: &PromptEditor)
        ensures
            query.state() == self.state().query,
    {
        &self.query
    }

    /// Replaces the filter.
    pub fn set_query(&mut self, query: &str)
        requires
            old(self).state().wf(),
        ensures
            final(self).state() == (BrowserView {
                query: old(self).state().query.with_value(
                    super::editor::editor_text(query@),
                    crate::text::graphemes(super::editor::editor_text(query@)).len() as int,
                ),
                ..old(self).state()
            }).rebuilt(),
            final(self).state().wf(),
    {
        self.query.set_value(query);
        self.rebuild_visible();
    }

    /// Replaces the sessions.
    pub fn set_sessions(&mut self, current_cwd: &Vec<u8>, sessions: Vec<SessionSummary>)
        requires
            old(self).state().wf(),
        ensures
            final(self).state() == old(self).state().with_sessions(
                current_cwd@,
                sessions.deep_view(),
            ),
            final(self).state().wf(),
    {
        self.current_cwd = duplicate_bytes(current_cwd);
        self.sessions = sessions;
        self.refresh_warning = None;
        self.rebuild_visible();
    }

    /// Switches between the two lists.
    pub fn toggle_mode(&mut self)
        requires
            old(self).state().wf(),
        ensures
            final(self).state() == old(self).state().toggled(),
            final(self).state().wf(),
    {
        self.mode = match self.mode {
            BrowserMode::Project => BrowserMode::Global,
            BrowserMode::Global => BrowserMode::Project,
        };
        self.refresh_requested = true;
        self.rebuild_visible();
    }

    /// Whether a refresh was asked for since the last call.
    pub fn take_refresh_request(&mut self) -> (requested: bool)
        requires
            old(self).state().wf(),
        ensures
            requested == old(self).state().refresh_requested,
            final(self).state() == (BrowserView { refresh_requested: false, ..old(self).state() }),
            final(self).state().wf(),
    {
        let requested = self.refresh_requested;
        self.refresh_requested = false;
        requested
    }

    /// The rows of the list.
    pub fn visible_rows(&self) -> (rows: &Vec<BrowserRow>)
        ensures
            rows.deep_view() == self.state().visible,
    {
        &self.visible
    }

    /// The selected session.
    pub fn selected_id(&self) -> (id: Option<SessionId>)
        ensures
            id == self.state().selected_id,
    {
        self.selected_id
    }

    /// The summary of the selected session.
    pub fn selected_summary(&self) -> (summary: Option<&SessionSummary>)
        ensures
            match summary {
                Some(summary) => self.state().selection() == Some(summary.deep_view()),
                None => self.state().selection() is None,
            },
    {
        if self.selected < self.visible.len() {
            match &self.visible[self.selected] {
                BrowserRow::Session(summary) => Some(summary),
                BrowserRow::Group { .. } => None,
            }
        } else {
            None
        }
    }

    /// The selected row.
    pub fn selected(&self) -> (selected: usize)
        ensures
            selected == self.state().selected,
    {
        self.selected
    }

    /// The first row in view.
    pub fn offset(&self) -> (offset: usize)
        ensures
            offset == self.state().offset,
    {
        self.offset
    }

    /// The part of the filter around its cursor that fits a width.
    pub fn query_window(&mut self, width: u16) -> (window: EditorWindow)
        ensures
            final(self).state() == old(self).state(),
            shows_window(old(self).state().query, width, window),
    {
        self.query.display_window(width)
    }

    /// The part of the new title around its cursor that fits a width; empty where no session is
    /// renamed.
    pub fn rename_window(&mut self, width: u16) -> (window: EditorWindow)
        ensures
            final(self).state() == old(self).state(),
            match old(self).state().layer {
                LayerView::Rename { editor, .. } => shows_window(editor, width, window),
                _ => window.text@.len() == 0 && window.cursor_column == 0,
            },
    {
        match &mut self.layer {
            BrowserLayer::Rename { editor, .. } => editor.display_window(width),
            _ => EditorWindow { text: String::new(), cursor_column: 0 },
        }
    }

    /// Records the first row that the screen showed.
    pub fn record_offset(&mut self, offset: usize)
        requires
            old(self).state().wf(),
        ensures
            final(self).state() == (BrowserView { offset: offset as int, ..old(self).state() }),
            final(self).state().wf(),
    {
        self.offset = offset;
    }

    /// Records the height of the list.
    pub fn set_viewport_rows(&mut self, viewport_rows: usize)
        requires
            old(self).state().wf(),
        ensures
            final(self).state() == (BrowserView {
                viewport_rows: if viewport_rows == 0 {
                    1
                } else {
                    viewport_rows as int
                },
                ..old(self).state()
            }).scrolled(),
            final(self).state().wf(),
    {
        self.viewport_rows = if viewport_rows == 0 { 1 } else { viewport_rows };
        self.ensure_selection_visible();
    }

    /// Selects the next session.
    pub fn select_next(&mut self)
        requires
            old(self).state().wf(),
        ensures
            final(self).state() == old(self).state().with_next(),
            final(self).state().wf(),
    {
        if self.selected_id.is_none() {
            return;
        }
        let count: usize = self.visible.len();
        let next: usize = if self.selected < count { self.find_from(self.selected + 1) } else { count };
        self.select(next);
    }

    /// Selects the session before.
    pub fn select_previous(&mut self)
        requires
            old(self).state().wf(),
        ensures
            final(self).state() == old(self).state().with_previous(),
            final(self).state().wf(),
    {
        if self.selected_id.is_none() {
            return;
        }
        if let Some(previous) = self.find_before(self.selected) {
            self.select(previous);
        }
    }

    /// Selects a session one page further down.
    pub fn page_down(&mut self)
        requires
            old(self).state().wf(),
        ensures
            final(self).state() == old(self).state().paged_down(),
            final(self).state().wf(),
    {
        if self.selected_id.is_none() {
            return;
        }
        let last: usize = self.visible.len() - 1;
        let paged: usize = self.selected.saturating_add(self.viewport_rows);
        let target: usize = if paged < last { paged } else { last };
        let next: usize = self.find_from(target);
        if next < self.visible.len() {
            self.select(next);
        } else if let Some(previous) = self.find_before(target) {
            self.select(previous);
        }
    }

    /// Selects a session one page further up.
    pub fn page_up(&mut self)
        requires
            old(self).state().wf(),
        ensures
            final(self).state() == old(self).state().paged_up(),
            final(self).state().wf(),
    {
        if self.selected_id.is_none() {
            return;
        }
        let target: usize = self.selected.saturating_sub(self.viewport_rows);
        match self.find_before(target + 1) {
            Some(previous) => self.select(previous),
            None => {
                let next: usize = self.find_from(target);
                self.select(next);
            },
        }
    }

    /// Selects a session a few rows further down.
    pub fn wheel_down(&mut self)
        requires
            old(self).state().wf(),
        ensures
            final(self).state() == old(self).state().wheeled_down(),
            final(self).state().wf(),
    {
        if self.selected_id.is_none() {
            return;
        }
        let mut index: usize = self.selected;
        let mut left: usize = WHEEL_SELECTABLE_ROWS;
        let ghost visible = self.state().visible;
        let ghost target = rows_on(visible, index as int, left as nat);
        while left > 0
            invariant
                visible == self.state().visible,
                index < visible.len(),
                target == rows_on(visible, index as int, left as nat),
            ensures
                target == index,
            decreases left,
        {
            let count: usize = self.visible.len();
            let next: usize = if index < count { self.find_from(index + 1) } else { count };
            if next >= count {
                break;
            }
            index = next;
            left -= 1;
        }
        self.select(index);
    }

    /// Selects a session a few rows further up.
    pub fn wheel_up(&mut self)
        requires
            old(self).state().wf(),
        ensures
            final(self).state() == old(self).state().wheeled_up(),
            final(self).state().wf(),
    {
        if self.selected_id.is_none() {
            return;
        }
        let mut index: usize = self.selected;
        let mut left: usize = WHEEL_SELECTABLE_ROWS;
        let ghost visible = self.state().visible;
        let ghost target = rows_back(visible, index as int, left as nat);
        while left > 0
            invariant
                visible == self.state().visible,
                index < visible.len(),
                target == rows_back(visible, index as int, left as nat),
            ensures
                target == index,
            decreases left,
        {
            match self.find_before(index) {
                Some(previous) => {
                    index = previous;
                },
                None => {
                    break;
                },
            }
            left -= 1;
        }
        self.select(index);
    }

    /// Opens the rename dialog.
    pub fn start_rename(&mut self)
        requires
            old(self).state().wf(),
        ensures
            final(self).state() == old(self).state().with_rename(),
            final(self).state().wf(),
    {
        if let BrowserLayer::List = &self.layer {
            if let Some(summary) = self.selected_summary() {
                let session_id = summary.id;
                let mut editor = PromptEditor::new();
                editor.set_value(summary.title.as_str());
                self.layer = BrowserLayer::Rename { session_id, editor, error: None };
            }
        }
    }

    /// Opens the deletion dialog.
    pub fn start_delete_confirmation(&mut self)
        requires
            old(self).state().wf(),
        ensures
            final(self).state() == old(self).state().with_confirmation(),
            final(self).state().wf(),
    {
        if let BrowserLayer::List = &self.layer {
            if let Some(summary) = self.selected_summary() {
                let session_id = summary.id;
                let title = summary.title.duplicate();
                self.layer = BrowserLayer::ConfirmDelete { session_id, title };
            }
        }
    }

    /// Closes the dialog, or the browser where none is open.
    pub fn escape(&mut self)
        requires
            old(self).state().wf(),
        ensures
            final(self).state() == old(self).state().escaped(),
            final(self).state().wf(),
    {
        if let BrowserLayer::List = &self.layer {
            self.close();
        } else {
            self.layer = BrowserLayer::List;
        }
    }

    /// Shows that the last refresh failed.
    pub fn set_refresh_warning(&mut self, warning: String)
        requires
            old(self).state().wf(),
        ensures
            final(self).state() == (BrowserView {
                refresh_warning: Some(warning@),
                ..old(self).state()
            }),
            final(self).state().wf(),
    {
        self.refresh_warning = Some(warning);
    }

    /// Shows that the last action failed.
    pub fn set_action_error(&mut self, error: String)
        requires
            old(self).state().wf(),
        ensures
            final(self).state() == (BrowserView {
                action_error: Some(error@),
                ..old(self).state()
            }),
            final(self).state().wf(),
    {
        self.action_error = Some(error);
    }

    /// Ends the rename dialog after a rename.
    pub fn finish_rename(&mut self)
        requires
            old(self).state().wf(),
        ensures
            final(self).state() == if old(self).state().layer is Rename {
                BrowserView {
                    layer: LayerView::List,
                    refresh_requested: true,
                    ..old(self).state()
                }
            } else {
                old(self).state()
            },
            final(self).state().wf(),
    {
        if let BrowserLayer::Rename { .. } = &self.layer {
            self.layer = BrowserLayer::List;
            self.refresh_requested = true;
        }
    }

    /// Shows in the rename dialog why the rename failed.
    pub fn set_rename_error(&mut self, message: String)
        requires
            old(self).state().wf(),
        ensures
            final(self).state() == (BrowserView {
                layer: match old(self).state().layer {
                    LayerView::Rename { session_id, editor, .. } => LayerView::Rename {
                        session_id,
                        editor,
                        error: Some(message@),
                    },
                    layer => layer,
                },
                ..old(self).state()
            }),
            final(self).state().wf(),
    {
        if let BrowserLayer::Rename { error, .. } = &mut self.layer {
            *error = Some(message);
        }
    }

    /// Takes a deleted session out of the list.
    pub fn finish_delete(&mut self, session_id: SessionId)
        requires
            old(self).state().wf(),
        ensures
            final(self).state() == (BrowserView {
                sessions: without_session(old(self).state().sessions, session_id),
                layer: LayerView::List,
                refresh_requested: true,
                ..old(self).state()
            }).rebuilt(),
            final(self).state().wf(),
    {
        let mut kept: Vec<SessionSummary> = Vec::new();
        let ghost all = self.sessions.deep_view();
        let mut index: usize = 0;
        assert(kept.deep_view() =~= without_session(all.subrange(0, 0), session_id));
        while index < self.sessions.len()
            invariant
                index <= self.sessions@.len(),
                all == self.sessions.deep_view(),
                kept.deep_view() == without_session(all.subrange(0, index as int), session_id),
            decreases self.sessions@.len() - index,
        {
            proof {
                let seen = all.subrange(0, index + 1);
                assert(seen.drop_last() =~= all.subrange(0, index as int));
                assert(seen.last() == self.sessions@[index as int].deep_view());
            }
            if self.sessions[index].id != session_id {
                let ghost before = kept;
                kept.push(self.sessions[index].duplicate());
                assert(kept.deep_view() =~= before.deep_view().push(
                    self.sessions@[index as int].deep_view(),
                ));
            }
            index += 1;
        }
        assert(all.subrange(0, index as int) =~= all);
        self.sessions = kept;
        self.layer = BrowserLayer::List;
        self.refresh_requested = true;
        self.rebuild_visible();
    }

    /// Why the last refresh failed.
    pub fn refresh_warning(&self) -> (warning: Option<&str>)
        ensures
            match warning {
                Some(text) => self.state().refresh_warning == Some(text@),
                None => self.state().refresh_warning is None,
            },
    {
        match &self.refresh_warning {
            Some(text) => Some(text.as_str()),
            None => None,
        }
    }

    /// Why the last action failed.
    pub fn action_error(&self) -> (error: Option<&str>)
        ensures
            match error {
                Some(text) => self.state().action_error == Some(text@),
                None => self.state().action_error is None,
            },
    {
        match &self.action_error {
            Some(text) => Some(text.as_str()),
            None => None,
        }
    }

    /// The number of messages that are shown.
    pub fn message_count(&self) -> (count: u16)
        ensures
            count == (if self.state().action_error is Some {
                1int
            } else {
                0
            }) + (if self.state().refresh_warning is Some {
                1int
            } else {
                0
            }),
    {
        let errors: u16 = if self.action_error.is_some() { 1 } else { 0 };
        let warnings: u16 = if self.refresh_warning.is_some() { 1 } else { 0 };
        errors + warnings
    }

    fn edit_query(&mut self, event: &Event)
        requires
            old(self).state().wf(),
        ensures
            final(self).state() == old(self).state().with_query_event(event.deep_view()),
            final(self).state().wf(),
    {
        if let EditorOutcome::Changed = self.query.handle_event(event) {
            self.rebuild_visible();
        }
    }

    fn handle_list_event(&mut self, event: &Event) -> (action: BrowserAction)
        requires
            old(self).state().wf(),
        ensures
            (final(self).state(), action.deep_view()) == old(self).state().after_list_event(
                event.deep_view(),
            ),
            final(self).state().wf(),
    {
        match event {
            Event::Key(key) => {
                if key.modifiers == KeyModifiers::none() {
                    match key.code {
                        KeyCode::Esc => self.escape(),
                        KeyCode::Tab => {
                            self.toggle_mode();
                            return BrowserAction::Refresh;
                        },
                        KeyCode::Up => self.select_previous(),
                        KeyCode::Down => self.select_next(),
                        KeyCode::PageUp => self.page_up(),
                        KeyCode::PageDown => self.page_down(),
                        KeyCode::Enter => {
                            return match self.selected_id {
                                Some(id) => BrowserAction::Switch(id),
                                None => BrowserAction::Nothing,
                            };
                        },
                        KeyCode::F(2) => self.start_rename(),
                        _ => self.edit_query(event),
                    }
                } else if key.modifiers == KeyModifiers::control() && (key.code == KeyCode::Char(
                    'd',
                ) || key.code == KeyCode::Char('D')) {
                    self.start_delete_confirmation();
                } else {
                    self.edit_query(event);
                }
            },
            Event::Mouse(MouseEventKind::ScrollUp) => self.wheel_up(),
            Event::Mouse(MouseEventKind::ScrollDown) => self.wheel_down(),
            Event::Paste(_) => self.edit_query(event),
            _ => {},
        }
        BrowserAction::Nothing
    }

    fn handle_rename_event(&mut self, event: &Event) -> (action: BrowserAction)
        requires
            old(self).state().wf(),
            old(self).state().layer is Rename,
        ensures
            (final(self).state(), action.deep_view()) == old(self).state().after_rename_event(
                event.deep_view(),
            ),
            final(self).state().wf(),
    {
        if let Event::Key(key) = event {
            if key.modifiers == KeyModifiers::none() && key.code == KeyCode::Esc {
                self.escape();
                return BrowserAction::Nothing;
            }
            if key.modifiers == KeyModifiers::none() && key.code == KeyCode::Enter {
                if let BrowserLayer::Rename { session_id, editor, .. } = &self.layer {
                    return BrowserAction::Rename {
                        session_id: *session_id,
                        title: editor.value().to_owned(),
                    };
                }
            }
        }
        if let BrowserLayer::Rename { editor, .. } = &mut self.layer {
            let _ = editor.handle_event(event);
        }
        BrowserAction::Nothing
    }

    fn handle_confirmation_event(&mut self, event: &Event) -> (action: BrowserAction)
        requires
            old(self).state().wf(),
            old(self).state().layer is ConfirmDelete,
        ensures
            (final(self).state(), action.deep_view()) == old(self).state().after_confirmation_event(
                event.deep_view(),
            ),
            final(self).state().wf(),
    {
        if let Event::Key(key) = event {
            if key.modifiers == KeyModifiers::none() {
                match key.code {
                    KeyCode::Esc | KeyCode::Char('n') | KeyCode::Char('N') => self.escape(),
                    KeyCode::Enter | KeyCode::Char('y') | KeyCode::Char('Y') => {
                        if let BrowserLayer::ConfirmDelete { session_id, .. } = &self.layer {
                            return BrowserAction::Delete(*session_id);
                        }
                    },
                    _ => {},
                }
            }
        }
        BrowserAction::Nothing
    }

    /// Handles a terminal event.
    pub fn handle_event(&mut self, event: &Event) -> (action: BrowserAction)
        requires
            old(self).state().wf(),
        ensures
            (final(self).state(), action.deep_view()) == old(self).state().after(
                event.deep_view(),
            ),
            final(self).state().wf(),
    {
        let explicit = match event {
            Event::Key(_) | Event::Paste(_) => true,
            Event::Mouse(MouseEventKind::ScrollUp) | Event::Mouse(MouseEventKind::ScrollDown) => {
                true
            },
            _ => false,
        };
        if explicit {
            self.action_error = None;
        }
        match &self.layer {
            BrowserLayer::List => self.handle_list_event(event),
            BrowserLayer::Rename { .. } => self.handle_rename_event(event),
            BrowserLayer::ConfirmDelete { .. } => self.handle_confirmation_event(event),
        }
    }
}

/// The sessions but one.
pub open spec fn without_session(sessions: Seq<SummaryView>, id: SessionId) -> Seq<SummaryView>
    decreases sessions.len(),
{
    if sessions.len() == 0 {
        Seq::empty()
    } else if sessions.last().id == id {
        without_session(sessions.drop_last(), id)
    } else {
        without_session(sessions.drop_last(), id).push(sessions.last())
    }
}

impl Default for SessionBrowserState {
    fn default() -> (browser: Self)
        ensures
            browser.state() == BrowserView::initial(),
            browser.state().wf(),
    {
        let browser = SessionBrowserState {
            open: false,
            mode: BrowserMode::Project,
            query: PromptEditor::new(),
            sessions: Vec::new(),
            visible: Vec::new(),
            selected: 0,
            selected_id: None,
            offset: 0,
            layer: BrowserLayer::List,
            refresh_warning: None,
            action_error: None,
            current_cwd: Vec::new(),
            viewport_rows: 1,
            refresh_requested: false,
        };
        proof {
            assert(browser.sessions.deep_view() =~= Seq::empty());
            assert(browser.visible.deep_view() =~= Seq::empty());
            assert(browser.current_cwd@ =~= Seq::empty());
        }
        browser
    }
}

/// A session is deleted only once the dialog that names it was confirmed.
pub proof fn lemma_deletion_needs_confirmation(browser: BrowserView, event: EventView)
    ensures
        browser.after(event).1 is Delete ==> browser.layer is ConfirmDelete
            && browser.layer->ConfirmDelete_session_id == browser.after(event).1->Delete_0,
        !(browser.layer is ConfirmDelete) && browser.after(event).0.layer is ConfirmDelete
            ==> browser.selection() is Some && browser.after(event).0.layer
            == (LayerView::ConfirmDelete {
            session_id: browser.selection()->0.id,
            title: browser.selection()->0.title,
        }),
{
}

/// Escape closes a dialog before it closes the browser.
pub proof fn lemma_escape_closes_the_dialog_first(browser: BrowserView)
    requires
        browser.open,
    ensures
        ({
            let key = KeyEvent {
                code: KeyCode::Esc,
                modifiers: KeyModifiers::spec_none(),
                kind: KeyEventKind::Press,
            };
            let after = browser.after(EventView::Key(key)).0;
            &&& after.open == !(browser.layer is List)
            &&& after.layer is List
            &&& after.visible == browser.visible
            &&& after.selected_id == browser.selected_id
        }),
{
}

/// The sessions of some rows.
pub open spec fn sessions_in(rows: Seq<RowView>) -> Seq<SummaryView>
    decreases rows.len(),
{
    if rows.len() == 0 {
        Seq::empty()
    } else {
        match rows.last() {
            RowView::Session(summary) => sessions_in(rows.drop_last()).push(summary),
            RowView::Group { .. } => sessions_in(rows.drop_last()),
        }
    }
}

/// How often a list holds a session.
pub open spec fn times(list: Seq<SummaryView>, summary: SummaryView) -> nat
    decreases list.len(),
{
    if list.len() == 0 {
        0
    } else {
        times(list.drop_last(), summary) + if list.last() == summary {
            1nat
        } else {
            0
        }
    }
}

proof fn lemma_times_of_both(left: Seq<RowView>, right: Seq<RowView>, summary: SummaryView)
    ensures
        times(sessions_in(left + right), summary) == times(sessions_in(left), summary) + times(
            sessions_in(right),
            summary,
        ),
    decreases right.len(),
{
    if right.len() == 0 {
        assert(left + right =~= left);
    } else {
        lemma_times_of_both(left, right.drop_last(), summary);
        assert((left + right).drop_last() =~= left + right.drop_last());
        assert((left + right).last() == right.last());
        let before = sessions_in(left + right.drop_last());
        let after = sessions_in(right.drop_last());
        if let RowView::Session(last) = right.last() {
            assert(before.push(last).drop_last() =~= before);
            assert(after.push(last).drop_last() =~= after);
        }
    }
}

proof fn lemma_times_in_group(list: Seq<SummaryView>, cwd: Seq<u8>, summary: SummaryView)
    ensures
        times(sessions_in(session_rows(list, cwd)), summary) == if summary.cwd == cwd {
            times(list, summary)
        } else {
            0
        },
    decreases list.len(),
{
    if list.len() > 0 {
        lemma_times_in_group(list.drop_last(), cwd, summary);
        let rows = session_rows(list.drop_last(), cwd);
        if list.last().cwd == cwd {
            let longer = rows.push(RowView::Session(list.last()));
            assert(longer.drop_last() =~= rows);
            assert(sessions_in(longer) == sessions_in(rows).push(list.last()));
            assert(sessions_in(longer).drop_last() =~= sessions_in(rows));
        }
    }
}

proof fn lemma_times_in_groups(
    list: Seq<SummaryView>,
    order: Seq<Seq<u8>>,
    summary: SummaryView,
)
    requires
        order.no_duplicates(),
    ensures
        times(sessions_in(group_rows(list, order)), summary) == if order.contains(summary.cwd) {
            times(list, summary)
        } else {
            0
        },
    decreases order.len(),
{
    if order.len() > 0 {
        let before = order.drop_last();
        let cwd = order.last();
        lemma_times_in_groups(list, before, summary);
        lemma_times_in_group(list, cwd, summary);
        let rows = group_rows(list, before);
        let titled = rows.push(RowView::Group { cwd, cwd_display: group_display(list, cwd) });
        assert(titled.drop_last() =~= rows);
        lemma_times_of_both(titled, session_rows(list, cwd), summary);
        assert(before.push(cwd) =~= order);
        if before.contains(summary.cwd) {
            let k = choose|k: int| 0 <= k < before.len() && before[k] == summary.cwd;
            assert(order[k] == summary.cwd);
            assert(order[order.len() - 1] == cwd);
        }
        if order.contains(summary.cwd) && !before.contains(summary.cwd) {
            let k = choose|k: int| 0 <= k < order.len() && order[k] == summary.cwd;
            if k < before.len() {
                assert(before[k] == summary.cwd);
            }
        }
        if summary.cwd == cwd {
            assert(order[order.len() - 1] == summary.cwd);
        }
    }
}

proof fn lemma_other_groups(list: Seq<SummaryView>, current: Seq<u8>)
    ensures
        other_groups(list, current).no_duplicates(),
        !other_groups(list, current).contains(current),
        forall|i: int|
            0 <= i < list.len() && (#[trigger] list[i]).cwd != current ==> other_groups(
                list,
                current,
            ).contains(list[i].cwd),
    decreases list.len(),
{
    if list.len() > 0 {
        lemma_other_groups(list.drop_last(), current);
        let before = other_groups(list.drop_last(), current);
        let after = other_groups(list, current);
        let last = list.last().cwd;
        if after != before {
            assert(after == before.push(last));
            assert(after[before.len() as int] == last);
        }
        assert forall|i: int| 0 <= i < list.len() && (#[trigger] list[i]).cwd
            != current implies after.contains(list[i].cwd) by {
            if i < list.len() - 1 {
                assert(list.drop_last()[i] == list[i]);
                let k = choose|k: int| 0 <= k < before.len() && before[k] == list[i].cwd;
                assert(after[k] == list[i].cwd);
            }
        }
        assert forall|i: int, j: int| 0 <= i < after.len() && 0 <= j < after.len() && i
            != j implies after[i] != after[j] by {
            if i < before.len() && j < before.len() {
                assert(after[i] == before[i] && after[j] == before[j]);
            } else if i < before.len() {
                assert(after[i] == before[i]);
                assert(before.contains(before[i]));
            } else {
                assert(after[j] == before[j]);
                assert(before.contains(before[j]));
            }
        }
        assert(!after.contains(current)) by {
            if after.contains(current) {
                let k = choose|k: int| 0 <= k < after.len() && after[k] == current;
                if k < before.len() {
                    assert(before[k] == current);
                }
            }
        }
    }
}

proof fn lemma_times_of_member(list: Seq<SummaryView>, summary: SummaryView)
    ensures
        times(list, summary) > 0 ==> exists|i: int| 0 <= i < list.len() && #[trigger] list[i] == summary,
    decreases list.len(),
{
    if list.len() > 0 {
        lemma_times_of_member(list.drop_last(), summary);
        if list.last() == summary {
            assert(list[list.len() - 1] == summary);
        } else if times(list, summary) > 0 {
            let k = choose|k: int|
                0 <= k < list.drop_last().len() && list.drop_last()[k] == summary;
            assert(list[k] == summary);
        }
    }
}

proof fn lemma_times_in_all_rows(list: Seq<SummaryView>, summary: SummaryView)
    ensures
        times(sessions_in(all_rows(list)), summary) == times(list, summary),
    decreases list.len(),
{
    if list.len() > 0 {
        lemma_times_in_all_rows(list.drop_last(), summary);
        let before = sessions_in(all_rows(list.drop_last()));
        assert(all_rows(list).drop_last() =~= all_rows(list.drop_last()));
        assert(sessions_in(all_rows(list)) == before.push(list.last()));
        assert(before.push(list.last()).drop_last() =~= before);
    } else {
        assert(all_rows(list) =~= Seq::empty());
    }
}

/// The rows show each listed session as often as it is listed, grouped or not, and nothing else.
pub proof fn lemma_rows_show_every_listed_session(
    sessions: Seq<SummaryView>,
    mode: BrowserMode,
    query: Seq<char>,
    cwd: Seq<u8>,
    summary: SummaryView,
)
    ensures
        times(sessions_in(browser_rows(sessions, mode, query, cwd)), summary) == times(
            listed(sessions, mode, query, cwd),
            summary,
        ),
{
    let list = listed(sessions, mode, query, cwd);
    match mode {
        BrowserMode::Project => lemma_times_in_all_rows(list, summary),
        BrowserMode::Global => {
            let order = groups(list, cwd);
            let others = other_groups(list, cwd);
            lemma_other_groups(list, cwd);
            if order != others {
                assert(order == seq![cwd] + others);
                assert forall|i: int, j: int| 0 <= i < order.len() && 0 <= j < order.len() && i
                    != j implies order[i] != order[j] by {
                    if i == 0 {
                        assert(order[j] == others[j - 1]);
                        assert(others.contains(others[j - 1]));
                    } else if j == 0 {
                        assert(order[i] == others[i - 1]);
                        assert(others.contains(others[i - 1]));
                    } else {
                        assert(order[i] == others[i - 1] && order[j] == others[j - 1]);
                    }
                }
            }
            lemma_times_in_groups(list, order, summary);
            lemma_times_of_member(list, summary);
            if times(list, summary) > 0 {
                let k = choose|k: int| 0 <= k < list.len() && list[k] == summary;
                assert(list[k].cwd == summary.cwd);
                if summary.cwd == cwd {
                    assert(order[0] == cwd);
                } else {
                    let at = choose|at: int| 0 <= at < others.len() && others[at] == summary.cwd;
                    if order != others {
                        assert(order[at + 1] == summary.cwd);
                    } else {
                        assert(order[at] == summary.cwd);
                    }
                }
                assert(order.contains(summary.cwd));
            }
        },
    }
}

/// The session that was active last comes first; of those active at the same instant the one with
/// the higher number, and of the same session in several directories the one whose path is smaller.
pub proof fn lemma_recent_sessions_come_first(
    sessions: Seq<SummaryView>,
    mode: BrowserMode,
    query: Seq<char>,
    cwd: Seq<u8>,
    first: int,
    second: int,
)
    requires
        0 <= first < second < listed(sessions, mode, query, cwd).len(),
    ensures
        ({
            let above = listed(sessions, mode, query, cwd)[first];
            let below = listed(sessions, mode, query, cwd)[second];
            &&& above.last_activity.seconds >= below.last_activity.seconds
            &&& above.last_activity.seconds == below.last_activity.seconds
                ==> above.last_activity.nanoseconds >= below.last_activity.nanoseconds
            &&& above.last_activity == below.last_activity ==> above.id.number >= below.id.number
            &&& above.last_activity == below.last_activity && above.id == below.id
                && above.cwd.len() > 0 && below.cwd.len() > 0 ==> above.cwd[0] <= below.cwd[0]
        }),
{
    lemma_listed_sessions_are_ordered(sessions, mode, query, cwd);
    let above = listed(sessions, mode, query, cwd)[first];
    let below = listed(sessions, mode, query, cwd)[second];
    assert(!comes_before(below, above));
}

/// Without a query the whole scope is listed: every session in all directories, and those of the
/// working directory in the project. A query lists of these the ones that it finds by title, by
/// identifier or by path.
pub proof fn lemma_the_scope_is_listed(
    sessions: Seq<SummaryView>,
    mode: BrowserMode,
    query: Seq<char>,
    cwd: Seq<u8>,
)
    ensures
        mode == BrowserMode::Global && query.len() == 0 ==> listed(
            sessions,
            mode,
            query,
            cwd,
        ).to_multiset() == sessions.to_multiset(),
        forall|summary: SummaryView| #[trigger]
            listed(sessions, mode, query, cwd).contains(summary) <==> {
                &&& sessions.contains(summary)
                &&& mode == BrowserMode::Project ==> summary.cwd == cwd
                &&& query.len() == 0 || fuzzy_score(query, normalized(summary.title)) is Some
                    || fuzzy_score(query, normalized("session-"@ + crate::text::decimal(
                    summary.id.number as nat,
                ))) is Some || fuzzy_score(query, normalized(summary.cwd_display)) is Some
            },
{
    broadcast use vstd::seq_lib::group_to_multiset_ensures;

    lemma_listed_sessions_are_ordered(sessions, mode, query, cwd);
    let wanted = |summary: SummaryView| is_listed(summary, mode, query, cwd);
    let list = listed(sessions, mode, query, cwd);
    assert forall|summary: SummaryView| #[trigger] list.contains(summary) <==> sessions.contains(
        summary,
    ) && wanted(summary) by {
        assert(list.contains(summary) <==> list.to_multiset().count(summary) > 0);
        assert(sessions.filter(wanted).contains(summary) <==> sessions.filter(
            wanted,
        ).to_multiset().count(summary) > 0);
        lemma_filtered_members(sessions, wanted, summary);
    }
    if mode == BrowserMode::Global && query.len() == 0 {
        lemma_filter_of_all(sessions, wanted);
    }
}

/// The working directory comes first where it has a session, and each other one stands where its
/// first session does.
pub proof fn lemma_the_current_directory_comes_first(list: Seq<SummaryView>, current: Seq<u8>)
    ensures
        (exists|i: int| 0 <= i < list.len() && (#[trigger] list[i]).cwd == current) ==> groups(
            list,
            current,
        ).len() > 0 && groups(list, current)[0] == current,
        forall|i: int|
            0 <= i < list.len() ==> groups(list, current).contains((#[trigger] list[i]).cwd),
        forall|i: int|
            0 <= i < groups(list, current).len() ==> exists|k: int|
                0 <= k < list.len() && (#[trigger] list[k]).cwd == #[trigger] groups(
                    list,
                    current,
                )[i],
        list.len() > 0 && list[0].cwd != current && !(exists|i: int|
            0 <= i < list.len() && (#[trigger] list[i]).cwd == current) ==> groups(list, current)[0]
            == list[0].cwd,
{
    lemma_other_groups_hold_the_others(list, current);
    let order = groups(list, current);
    let others = other_groups(list, current);
    if exists|i: int| 0 <= i < list.len() && (#[trigger] list[i]).cwd == current {
        assert(order[0] == current);
        assert forall|i: int| 0 <= i < list.len() implies order.contains(
            (#[trigger] list[i]).cwd,
        ) by {
            if list[i].cwd != current {
                let k = choose|k: int| 0 <= k < others.len() && others[k] == list[i].cwd;
                assert(order[k + 1] == list[i].cwd);
            }
        }
        assert forall|i: int| 0 <= i < order.len() implies exists|k: int|
            0 <= k < list.len() && (#[trigger] list[k]).cwd == #[trigger] order[i] by {
            if i > 0 {
                assert(order[i] == others[i - 1]);
            }
        }
    }
}

proof fn lemma_other_groups_hold_the_others(list: Seq<SummaryView>, current: Seq<u8>)
    ensures
        forall|i: int|
            0 <= i < list.len() && (#[trigger] list[i]).cwd != current ==> other_groups(
                list,
                current,
            ).contains(list[i].cwd),
        forall|i: int|
            0 <= i < other_groups(list, current).len() ==> exists|k: int|
                0 <= k < list.len() && (#[trigger] list[k]).cwd == #[trigger] other_groups(
                    list,
                    current,
                )[i],
        list.len() > 0 && list[0].cwd != current ==> other_groups(list, current).len() > 0
            && other_groups(list, current)[0] == list[0].cwd,
    decreases list.len(),
{
    if list.len() > 0 {
        let shorter = list.drop_last();
        lemma_other_groups_hold_the_others(shorter, current);
        let before = other_groups(shorter, current);
        let after = other_groups(list, current);
        assert forall|i: int| 0 <= i < list.len() && (#[trigger] list[i]).cwd
            != current implies after.contains(list[i].cwd) by {
            if i < shorter.len() {
                assert(shorter[i] == list[i]);
                let k = choose|k: int| 0 <= k < before.len() && before[k] == list[i].cwd;
                assert(after[k] == list[i].cwd);
            } else if !before.contains(list[i].cwd) {
                assert(after[before.len() as int] == list[i].cwd);
            }
        }
        assert forall|i: int| 0 <= i < after.len() implies exists|k: int|
            0 <= k < list.len() && (#[trigger] list[k]).cwd == #[trigger] after[i] by {
            if i < before.len() {
                let k = choose|k: int|
                    0 <= k < shorter.len() && (#[trigger] shorter[k]).cwd == before[i];
                assert(list[k].cwd == after[i]);
            } else {
                assert(list[list.len() - 1].cwd == after[i]);
            }
        }
        if shorter.len() > 0 {
            assert(shorter[0] == list[0]);
        }
    }
}

proof fn lemma_filtered_members(
    sessions: Seq<SummaryView>,
    wanted: spec_fn(SummaryView) -> bool,
    summary: SummaryView,
)
    ensures
        sessions.filter(wanted).contains(summary) <==> sessions.contains(summary) && wanted(
            summary,
        ),
    decreases sessions.len(),
{
    reveal(Seq::filter);
    if sessions.len() > 0 {
        let shorter = sessions.drop_last();
        lemma_filtered_members(shorter, wanted, summary);
        let before = shorter.filter(wanted);
        let after = sessions.filter(wanted);
        assert(shorter.push(sessions.last()) =~= sessions);
        if shorter.contains(summary) {
            let k = choose|k: int| 0 <= k < shorter.len() && shorter[k] == summary;
            assert(sessions[k] == summary);
        }
        if sessions.contains(summary) && !shorter.contains(summary) {
            let k = choose|k: int| 0 <= k < sessions.len() && sessions[k] == summary;
            assert(k < shorter.len() ==> shorter[k] == summary);
        }
        if before.contains(summary) {
            let k = choose|k: int| 0 <= k < before.len() && before[k] == summary;
            assert(after[k] == summary);
        }
        if after.contains(summary) && !before.contains(summary) {
            let k = choose|k: int| 0 <= k < after.len() && after[k] == summary;
            assert(k < before.len() ==> before[k] == summary);
        }
        if wanted(sessions.last()) {
            assert(after[before.len() as int] == sessions.last());
        }
        assert(sessions[sessions.len() - 1] == sessions.last());
    }
}

proof fn lemma_filter_of_all(
    sessions: Seq<SummaryView>,
    wanted: spec_fn(SummaryView) -> bool,
)
    requires
        forall|summary: SummaryView| #[trigger] wanted(summary),
    ensures
        sessions.filter(wanted) == sessions,
    decreases sessions.len(),
{
    reveal(Seq::filter);
    if sessions.len() > 0 {
        lemma_filter_of_all(sessions.drop_last(), wanted);
        assert(wanted(sessions.last()));
        assert(sessions.drop_last().push(sessions.last()) =~= sessions);
    }
}

/// In the project each row is a session. In all directories each session stands under the heading
/// of its own directory, with only sessions of that directory in between.
pub proof fn lemma_sessions_stand_under_their_directory(
    list: Seq<SummaryView>,
    order: Seq<Seq<u8>>,
    index: int,
)
    requires
        0 <= index < group_rows(list, order).len(),
    ensures
        ({
            let rows = group_rows(list, order);
            match rows[index] {
                RowView::Group { cwd, .. } => order.contains(cwd),
                RowView::Session(summary) => exists|heading: int|
                    {
                        &&& 0 <= heading < index
                        &&& #[trigger] rows[heading] is Group
                        &&& rows[heading]->Group_cwd == summary.cwd
                        &&& forall|i: int|
                            heading < i < index ==> (#[trigger] rows[i]) is Session
                                && rows[i]->Session_0.cwd == summary.cwd
                    },
            }
        }),
    decreases order.len(),
{
    let rows = group_rows(list, order);
    let cwd = order.last();
    let before = group_rows(list, order.drop_last());
    let heading = RowView::Group { cwd, cwd_display: group_display(list, cwd) };
    let own = session_rows(list, cwd);
    assert(rows == before.push(heading) + own);
    lemma_session_rows_are_sessions(list, cwd);
    if index < before.len() {
        lemma_sessions_stand_under_their_directory(list, order.drop_last(), index);
        assert forall|i: int| 0 <= i < before.len() implies rows[i] == #[trigger] before[i] by {}
        match rows[index] {
            RowView::Group { cwd, .. } => {
                let k = choose|k: int|
                    0 <= k < order.drop_last().len() && order.drop_last()[k] == cwd;
                assert(order[k] == cwd);
            },
            RowView::Session(summary) => {
                let found = choose|found: int|
                    {
                        &&& 0 <= found < index
                        &&& #[trigger] before[found] is Group
                        &&& before[found]->Group_cwd == summary.cwd
                        &&& forall|i: int|
                            found < i < index ==> (#[trigger] before[i]) is Session
                                && before[i]->Session_0.cwd == summary.cwd
                    };
                assert(rows[found] == before[found]);
                assert forall|i: int| found < i < index implies (#[trigger] rows[i]) is Session
                    && rows[i]->Session_0.cwd == summary.cwd by {
                    assert(rows[i] == before[i]);
                }
            },
        }
    } else if index == before.len() {
        assert(rows[index] == heading);
        assert(order[order.len() - 1] == cwd);
    } else {
        let place = before.len() as int;
        assert(rows[place] == heading);
        assert(rows[index] == own[index - place - 1]);
        assert forall|i: int| place < i < index implies (#[trigger] rows[i]) is Session
            && rows[i]->Session_0.cwd == cwd by {
            assert(rows[i] == own[i - place - 1]);
        }
        assert(rows[place] is Group);
    }
}

proof fn lemma_session_rows_are_sessions(list: Seq<SummaryView>, cwd: Seq<u8>)
    ensures
        forall|i: int|
            0 <= i < session_rows(list, cwd).len() ==> (#[trigger] session_rows(
                list,
                cwd,
            )[i]) is Session && session_rows(list, cwd)[i]->Session_0.cwd == cwd,
    decreases list.len(),
{
    if list.len() > 0 {
        lemma_session_rows_are_sessions(list.drop_last(), cwd);
    }
}

proof fn lemma_rows_passed_are_groups(rows: Seq<RowView>, from: int)
    requires
        0 <= from <= rows.len(),
    ensures
        from <= row_from(rows, from) <= rows.len(),
        row_from(rows, from) < rows.len() ==> rows[row_from(rows, from)] is Session,
        forall|i: int| from <= i < row_from(rows, from) ==> (#[trigger] rows[i]) is Group,
    decreases rows.len() - from,
{
    if from < rows.len() && row_id(rows[from]) is None {
        lemma_rows_passed_are_groups(rows, from + 1);
    }
}

proof fn lemma_rows_passed_back_are_groups(rows: Seq<RowView>, end: int)
    requires
        0 <= end <= rows.len(),
    ensures
        -1 <= row_before(rows, end) < end,
        row_before(rows, end) >= 0 ==> rows[row_before(rows, end)] is Session,
        forall|i: int| row_before(rows, end) < i < end ==> (#[trigger] rows[i]) is Group,
    decreases end,
{
    if end > 0 && row_id(rows[end - 1]) is None {
        lemma_rows_passed_back_are_groups(rows, end - 1);
    }
}

/// Down selects the next session and up the one before, over headings; at the ends the selection
/// stays. The rows stay as they are.
pub proof fn lemma_the_selection_moves_to_the_next_session(browser: BrowserView)
    requires
        browser.wf(),
        browser.selected_id is Some,
    ensures
        ({
            let down = browser.with_next();
            &&& down.visible == browser.visible && down.sessions == browser.sessions
            &&& down.selected != browser.selected ==> {
                &&& browser.selected < down.selected < down.visible.len()
                &&& down.visible[down.selected] is Session
                &&& down.selected_id == Some(down.visible[down.selected]->Session_0.id)
                &&& forall|i: int|
                    browser.selected < i < down.selected ==> (#[trigger] down.visible[i]) is Group
            }
            &&& down.selected == browser.selected ==> forall|i: int|
                browser.selected < i < down.visible.len() ==> (#[trigger] down.visible[i]) is Group
        }),
        ({
            let up = browser.with_previous();
            &&& up.visible == browser.visible && up.sessions == browser.sessions
            &&& up.selected != browser.selected ==> {
                &&& 0 <= up.selected < browser.selected
                &&& up.visible[up.selected] is Session
                &&& up.selected_id == Some(up.visible[up.selected]->Session_0.id)
                &&& forall|i: int|
                    up.selected < i < browser.selected ==> (#[trigger] up.visible[i]) is Group
            }
            &&& up.selected == browser.selected ==> forall|i: int|
                0 <= i < browser.selected ==> (#[trigger] up.visible[i]) is Group
        }),
{
    lemma_rows_passed_are_groups(browser.visible, browser.selected + 1);
    lemma_rows_passed_back_are_groups(browser.visible, browser.selected);
}

/// A page moves the selection by the rows in view, to the session there or, where a heading stands
/// there, to the next one on the way, as far as there are any.
pub proof fn lemma_pages_move_by_the_rows_in_view(browser: BrowserView)
    requires
        browser.wf(),
        browser.selected_id is Some,
    ensures
        ({
            let down = browser.paged_down();
            let target = browser.selected + browser.viewport_rows;
            &&& down.visible == browser.visible
            &&& target < browser.visible.len() && browser.visible[target] is Session
                ==> down.selected == target
            &&& down.selected >= browser.selected
            &&& target < down.selected ==> forall|i: int|
                target <= i < down.selected ==> (#[trigger] down.visible[i]) is Group
            &&& target >= browser.visible.len() ==> forall|i: int|
                down.selected < i < down.visible.len() ==> (#[trigger] down.visible[i]) is Group
        }),
        ({
            let up = browser.paged_up();
            let target = browser.selected - browser.viewport_rows;
            &&& up.visible == browser.visible
            &&& target >= 0 && browser.visible[target] is Session ==> up.selected == target
            &&& up.selected <= browser.selected
            &&& 0 <= up.selected < target ==> forall|i: int|
                up.selected < i <= target ==> (#[trigger] up.visible[i]) is Group
            &&& target < 0 ==> forall|i: int|
                0 <= i < up.selected ==> (#[trigger] up.visible[i]) is Group
        }),
{
    let rows = browser.visible;
    let down = smaller(browser.selected + browser.viewport_rows, rows.len() - 1);
    lemma_rows_passed_are_groups(rows, down);
    lemma_rows_passed_back_are_groups(rows, down);
    let up = less(browser.selected, browser.viewport_rows);
    lemma_rows_passed_back_are_groups(rows, up + 1);
    lemma_rows_passed_are_groups(rows, up);
    assert(rows[browser.selected] is Session);
}

/// A turn of the wheel moves the selection as three steps do.
pub proof fn lemma_the_wheel_moves_three_sessions(browser: BrowserView)
    requires
        browser.wf(),
        browser.selected_id is Some,
    ensures
        browser.wheeled_down().selected == browser.with_next().with_next().with_next().selected,
        browser.wheeled_down().selected_id
            == browser.with_next().with_next().with_next().selected_id,
        browser.wheeled_up().selected
            == browser.with_previous().with_previous().with_previous().selected,
        browser.wheeled_up().selected_id
            == browser.with_previous().with_previous().with_previous().selected_id,
{
    reveal_with_fuel(rows_on, 4);
    reveal_with_fuel(rows_back, 4);
    let rows = browser.visible;
    lemma_rows_passed_are_groups(rows, browser.selected + 1);
    let first = browser.with_next();
    lemma_rows_passed_are_groups(rows, first.selected + 1);
    let second = first.with_next();
    lemma_rows_passed_are_groups(rows, second.selected + 1);
    lemma_rows_passed_back_are_groups(rows, browser.selected);
    let above = browser.with_previous();
    lemma_rows_passed_back_are_groups(rows, above.selected);
    let further = above.with_previous();
    lemma_rows_passed_back_are_groups(rows, further.selected);
}

/// Enter asks for the selected session, and for nothing where none is.
pub proof fn lemma_enter_switches_to_the_selected_session(browser: BrowserView, key: KeyEvent)
    requires
        browser.wf(),
        browser.layer is List,
        !key.modifiers.shift && !key.modifiers.control && !key.modifiers.alt
            && !key.modifiers.other,
        key.code == KeyCode::Enter,
    ensures
        browser.selected_id is Some ==> browser.after(EventView::Key(key)).1
            == ActionView::Switch(browser.visible[browser.selected]->Session_0.id),
        browser.selected_id is None ==> browser.after(EventView::Key(key)).1
            == ActionView::Nothing,
        browser.after(EventView::Key(key)).0.visible == browser.visible,
        browser.after(EventView::Key(key)).0.selected == browser.selected,
        browser.after(EventView::Key(key)).0.layer is List,
{
}

/// A dialog is about the session that was selected when it was opened: renaming begins with its
/// title, and what is confirmed is its deletion.
pub proof fn lemma_dialogs_are_about_the_selected_session(browser: BrowserView)
    requires
        browser.wf(),
        browser.layer is List,
        browser.selected_id is Some,
    ensures
        ({
            let summary = browser.visible[browser.selected]->Session_0;
            let rename = browser.with_rename().layer;
            let confirm = browser.with_confirmation().layer;
            &&& rename is Rename
            &&& rename->Rename_session_id == summary.id && Some(rename->Rename_session_id)
                == browser.selected_id
            &&& rename->Rename_editor.value == super::editor::editor_text(summary.title)
            &&& rename->Rename_editor.cursor == rename->Rename_editor.pieces().len()
            &&& rename->Rename_error is None
            &&& confirm is ConfirmDelete
            &&& confirm->ConfirmDelete_session_id == summary.id
            &&& confirm->ConfirmDelete_title == summary.title
            &&& browser.with_rename().selected_id == browser.selected_id
                && browser.with_confirmation().selected_id == browser.selected_id
        }),
{
}

/// In the rename dialog enter hands over what was typed for the session of the dialog, whatever is
/// selected; other input goes to the title.
pub proof fn lemma_renames_hand_over_what_was_typed(browser: BrowserView, event: EventView)
    requires
        browser.layer is Rename,
    ensures
        ({
            let (after, action) = browser.after(event);
            let plain = event is Key && !event->Key_0.modifiers.shift
                && !event->Key_0.modifiers.control && !event->Key_0.modifiers.alt
                && !event->Key_0.modifiers.other;
            &&& plain && event->Key_0.code == KeyCode::Enter ==> action == (ActionView::Rename {
                session_id: browser.layer->Rename_session_id,
                title: browser.layer->Rename_editor.value,
            }) && after.layer == browser.layer
            &&& !(plain && (event->Key_0.code == KeyCode::Enter || event->Key_0.code
                == KeyCode::Esc)) ==> {
                &&& action == ActionView::Nothing
                &&& after.layer is Rename
                &&& after.layer->Rename_session_id == browser.layer->Rename_session_id
                &&& after.layer->Rename_editor == browser.layer->Rename_editor.after(event).0
                &&& after.layer->Rename_error == browser.layer->Rename_error
            }
            &&& plain && event->Key_0.code == KeyCode::Esc ==> after.layer is List && action
                == ActionView::Nothing && after.open == browser.open
            &&& after.query == browser.query && after.visible == browser.visible && after.selected
                == browser.selected
        }),
{
}

/// The confirmation deletes the session that it names on enter or `y`, and on nothing else; escape
/// and `n` leave it.
pub proof fn lemma_confirmations_delete_what_they_name(browser: BrowserView, key: KeyEvent)
    requires
        browser.layer is ConfirmDelete,
        !key.modifiers.shift && !key.modifiers.control && !key.modifiers.alt
            && !key.modifiers.other,
    ensures
        ({
            let (after, action) = browser.after(EventView::Key(key));
            let yes = key.code == KeyCode::Enter || key.code == KeyCode::Char('y') || key.code
                == KeyCode::Char('Y');
            let no = key.code == KeyCode::Esc || key.code == KeyCode::Char('n') || key.code
                == KeyCode::Char('N');
            &&& yes ==> action == ActionView::Delete(browser.layer->ConfirmDelete_session_id)
                && after.layer == browser.layer
            &&& no ==> action == ActionView::Nothing && after.layer is List && after.open
                == browser.open
            &&& !yes && !no ==> action == ActionView::Nothing && after.layer == browser.layer
            &&& after.sessions == browser.sessions && after.visible == browser.visible
        }),
{
}

/// An error of the last action goes away with the next key, paste or turn of the wheel, and stays
/// through anything else.
pub proof fn lemma_input_clears_the_action_error(browser: BrowserView, event: EventView)
    ensures
        event is Key || event is Paste || event == EventView::Mouse(MouseEventKind::ScrollUp)
            || event == EventView::Mouse(MouseEventKind::ScrollDown) ==> browser.after(
            event,
        ).0.action_error is None,
        event is Resize || event is FocusGained || event is FocusLost ==> browser.after(event)
            == (browser, ActionView::Nothing),
{
}

/// Opening starts over in the project with an empty query and asks for a refresh; toggling changes
/// the scope, asks for a refresh and keeps the query.
pub proof fn lemma_the_browser_opens_in_the_project(browser: BrowserView)
    ensures
        ({
            let opened = browser.opened();
            &&& opened.open && opened.mode == BrowserMode::Project && opened.refresh_requested
            &&& opened.query.value.len() == 0 && opened.layer is List
            &&& opened.refresh_warning is None && opened.action_error is None
            &&& opened.sessions == browser.sessions && opened.current_cwd == browser.current_cwd
        }),
        ({
            let toggled = browser.toggled();
            &&& toggled.mode != browser.mode && toggled.toggled().mode == browser.mode
            &&& toggled.refresh_requested && toggled.query == browser.query && toggled.open
                == browser.open && toggled.sessions == browser.sessions
        }),
        ({
            let closed = browser.closed_browser();
            &&& !closed.open && !closed.refresh_requested && closed.action_error is None
            &&& closed.sessions == browser.sessions && closed.query == browser.query
                && closed.layer == browser.layer
        }),
{
}

/// A new listing replaces the old one and its warning, and keeps the query and the dialog.
pub proof fn lemma_listings_replace_the_old_one(
    browser: BrowserView,
    cwd: Seq<u8>,
    sessions: Seq<SummaryView>,
)
    ensures
        ({
            let after = browser.with_sessions(cwd, sessions);
            &&& after.sessions == sessions && after.current_cwd == cwd
            &&& after.refresh_warning is None && after.action_error == browser.action_error
            &&& after.query == browser.query && after.layer == browser.layer && after.mode
                == browser.mode && after.open == browser.open
            &&& after.mode == BrowserMode::Project ==> forall|i: int|
                0 <= i < after.visible.len() ==> (#[trigger] after.visible[i]) is Session
                    && after.visible[i]->Session_0.cwd == cwd
        }),
{
    let query = normalized(browser.query.value);
    lemma_the_scope_is_listed(sessions, browser.mode, query, cwd);
    let after = browser.with_sessions(cwd, sessions);
    let list = listed(sessions, browser.mode, query, cwd);
    if browser.mode == BrowserMode::Project {
        assert(after.visible == all_rows(list));
        assert forall|i: int| 0 <= i < after.visible.len() implies (
        #[trigger] after.visible[i]) is Session && after.visible[i]->Session_0.cwd == cwd by {
            assert(list.contains(list[i]));
        }
    }
}

/// A deleted session is gone from the list, and the others stay in their order.
pub proof fn lemma_deleted_sessions_leave_the_list(sessions: Seq<SummaryView>, id: SessionId)
    ensures
        forall|i: int|
            0 <= i < without_session(sessions, id).len() ==> (#[trigger] without_session(
                sessions,
                id,
            )[i]).id != id,
        without_session(sessions, id) == sessions.filter(|summary: SummaryView| summary.id != id),
        (forall|i: int| 0 <= i < sessions.len() ==> (#[trigger] sessions[i]).id != id)
            ==> without_session(sessions, id) == sessions,
    decreases sessions.len(),
{
    reveal(Seq::filter);
    if sessions.len() > 0 {
        let shorter = sessions.drop_last();
        lemma_deleted_sessions_leave_the_list(shorter, id);
        assert(shorter.push(sessions.last()) =~= sessions);
        if forall|i: int| 0 <= i < sessions.len() ==> (#[trigger] sessions[i]).id != id {
            assert forall|i: int| 0 <= i < shorter.len() implies (#[trigger] shorter[i]).id
                != id by {
                assert(shorter[i] == sessions[i]);
            }
            assert(sessions[sessions.len() - 1].id != id);
        }
    }
}

/// The moves of the selection keep the list, the query and the dialog, stay on sessions, and go in
/// the direction of their name.
pub proof fn lemma_moves_go_in_their_direction()
    ensures
        forall|browser: &mut SessionBrowserState, done: ()|
            (#[trigger] call_ensures(SessionBrowserState::select_next, (browser,), done)
                || call_ensures(SessionBrowserState::page_down, (browser,), done) || call_ensures(
                SessionBrowserState::wheel_down,
                (browser,),
                done,
            )) && browser.state().wf() ==> {
                let before = browser.state();
                let after = final(browser).state();
                &&& after.visible == before.visible && after.sessions == before.sessions
                    && after.query == before.query && after.layer == before.layer && after.open
                    == before.open
                &&& after.selected >= before.selected
                &&& before.selected_id is Some ==> after.selected_id is Some
            },
        forall|browser: &mut SessionBrowserState, done: ()|
            (#[trigger] call_ensures(SessionBrowserState::select_previous, (browser,), done)
                || call_ensures(SessionBrowserState::page_up, (browser,), done) || call_ensures(
                SessionBrowserState::wheel_up,
                (browser,),
                done,
            )) && browser.state().wf() ==> {
                let before = browser.state();
                let after = final(browser).state();
                &&& after.visible == before.visible && after.sessions == before.sessions
                    && after.query == before.query && after.layer == before.layer && after.open
                    == before.open
                &&& after.selected <= before.selected
                &&& before.selected_id is Some ==> after.selected_id is Some
            },
{
    assert forall|browser: &mut SessionBrowserState, done: ()|
        (#[trigger] call_ensures(SessionBrowserState::select_next, (browser,), done)
            || call_ensures(SessionBrowserState::page_down, (browser,), done) || call_ensures(
            SessionBrowserState::wheel_down,
            (browser,),
            done,
        )) && browser.state().wf() implies {
        let before = browser.state();
        let after = final(browser).state();
        &&& after.visible == before.visible && after.sessions == before.sessions && after.query
            == before.query && after.layer == before.layer && after.open == before.open
        &&& after.selected >= before.selected
        &&& before.selected_id is Some ==> after.selected_id is Some
    } by {
        let before = browser.state();
        if before.selected_id is Some {
            lemma_pages_move_by_the_rows_in_view(before);
            lemma_the_wheel_moves_three_sessions(before);
            lemma_the_selection_moves_to_the_next_session(before);
            let once = before.with_next();
            lemma_the_selection_moves_to_the_next_session(once);
            lemma_the_selection_moves_to_the_next_session(once.with_next());
        }
    }
    assert forall|browser: &mut SessionBrowserState, done: ()|
        (#[trigger] call_ensures(SessionBrowserState::select_previous, (browser,), done)
            || call_ensures(SessionBrowserState::page_up, (browser,), done) || call_ensures(
            SessionBrowserState::wheel_up,
            (browser,),
            done,
        )) && browser.state().wf() implies {
        let before = browser.state();
        let after = final(browser).state();
        &&& after.visible == before.visible && after.sessions == before.sessions && after.query
            == before.query && after.layer == before.layer && after.open == before.open
        &&& after.selected <= before.selected
        &&& before.selected_id is Some ==> after.selected_id is Some
    } by {
        let before = browser.state();
        if before.selected_id is Some {
            lemma_pages_move_by_the_rows_in_view(before);
            lemma_the_wheel_moves_three_sessions(before);
            lemma_the_selection_moves_to_the_next_session(before);
            let once = before.with_previous();
            lemma_the_selection_moves_to_the_next_session(once);
            lemma_the_selection_moves_to_the_next_session(once.with_previous());
        } else {
            lemma_rows_passed_back_are_groups(before.visible, before.selected);
        }
    }
}

/// Messages, listings and dialogs end up where they are shown, and closing a dialog comes before
/// closing the browser.
pub proof fn lemma_the_browser_keeps_what_it_is_told()
    ensures
        forall|browser: &mut SessionBrowserState, error: String, done: ()| #[trigger]
            call_ensures(SessionBrowserState::set_action_error, (browser, error), done) ==> final(
                browser).state().action_error == Some(error@) && final(browser).state().visible
                == browser.state().visible,
        forall|browser: &mut SessionBrowserState, warning: String, done: ()| #[trigger]
            call_ensures(SessionBrowserState::set_refresh_warning, (browser, warning), done)
                ==> final(browser).state().refresh_warning == Some(warning@) && final(
                browser).state().visible == browser.state().visible,
        forall|browser: &mut SessionBrowserState, message: String, done: ()| #[trigger]
            call_ensures(SessionBrowserState::set_rename_error, (browser, message), done)
                && browser.state().layer is Rename ==> final(browser).state().layer is Rename
                && final(browser).state().layer->Rename_error == Some(message@) && final(
                browser).state().layer->Rename_editor == browser.state().layer->Rename_editor,
        forall|browser: &mut SessionBrowserState, done: ()| #[trigger]
            call_ensures(SessionBrowserState::escape, (browser,), done) ==> (if browser.state().layer
                is List {
                !final(browser).state().open
            } else {
                final(browser).state().layer is List && final(browser).state().open
                    == browser.state().open
            }),
        forall|browser: &mut SessionBrowserState, done: ()| #[trigger]
            call_ensures(SessionBrowserState::open, (browser,), done) ==> final(
                browser).state().open && final(browser).state().mode == BrowserMode::Project
                && final(browser).state().query.value.len() == 0,
        forall|browser: &mut SessionBrowserState, done: ()| #[trigger]
            call_ensures(SessionBrowserState::close, (browser,), done) ==> !final(
                browser).state().open && final(browser).state().sessions
                == browser.state().sessions,
        forall|browser: &mut SessionBrowserState, done: ()| #[trigger]
            call_ensures(SessionBrowserState::toggle_mode, (browser,), done) ==> final(
                browser).state().mode != browser.state().mode && final(
                browser).state().refresh_requested,
        forall|browser: &mut SessionBrowserState, requested: bool| #[trigger]
            call_ensures(SessionBrowserState::take_refresh_request, (browser,), requested)
                ==> requested == browser.state().refresh_requested && !final(
                browser).state().refresh_requested,
        forall|browser: &mut SessionBrowserState, cwd: &Vec<u8>, sessions: Vec<SessionSummary>, done: ()|
         #[trigger]
            call_ensures(SessionBrowserState::set_sessions, (browser, cwd, sessions), done)
                ==> final(browser).state().sessions == sessions.deep_view() && final(
                browser).state().current_cwd == cwd@ && final(
                browser).state().refresh_warning is None,
        forall|browser: &mut SessionBrowserState, done: ()| #[trigger]
            call_ensures(SessionBrowserState::finish_rename, (browser,), done)
                && browser.state().layer is Rename ==> final(browser).state().layer is List && final(
                browser).state().refresh_requested,
        forall|browser: &mut SessionBrowserState, id: SessionId, done: ()| #[trigger]
            call_ensures(SessionBrowserState::finish_delete, (browser, id), done) ==> final(
                browser).state().layer is List && final(browser).state().refresh_requested && final(
                browser).state().sessions == without_session(browser.state().sessions, id),
        forall|browser: &SessionBrowserState, count: u16| #[trigger]
            call_ensures(SessionBrowserState::message_count, (browser,), count) ==> count <= 2 && (
            count == 0 <==> browser.state().action_error is None
                && browser.state().refresh_warning is None) && (count == 2
                <==> browser.state().action_error is Some
                && browser.state().refresh_warning is Some),
{
}

} // verus!
