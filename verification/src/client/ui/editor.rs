//! The multi-line prompt editor, which works on whole user-perceived characters.

use vstd::prelude::*;

use crate::client::input::{Event, EventView, KeyCode, KeyEvent, KeyEventKind, KeyModifiers};
use crate::text::{
    chars_of, concat, concat_text, display_width, graphemes, graphemes_of, is_blank, is_blank_text,
    is_control, is_control_char, is_terminal_safe, lemma_concat_split,
    lemma_line_ends_become_newlines, same_text, width_of, with_unix_newlines,
};

verus! {

/// What the editor keeps of one character.
pub open spec fn editor_character(character: char) -> Seq<char> {
    if character == '\n' {
        seq!['\n']
    } else if character == '\t' {
        seq![' ']
    } else if is_control(character) {
        Seq::empty()
    } else {
        seq![character]
    }
}

/// What the editor keeps of a text with unix newlines.
pub open spec fn editor_characters(text: Seq<char>) -> Seq<char>
    decreases text.len(),
{
    if text.len() == 0 {
        Seq::empty()
    } else {
        editor_characters(text.drop_last()) + editor_character(text.last())
    }
}

/// What the editor keeps of a text: lines end in `\n`, tabs are spaces, other control characters
/// are left out.
pub open spec fn editor_text(text: Seq<char>) -> Seq<char> {
    editor_characters(with_unix_newlines(text))
}

proof fn lemma_editor_characters_are_safe(text: Seq<char>)
    ensures
        is_terminal_safe(editor_characters(text)),
    decreases text.len(),
{
    if text.len() > 0 {
        lemma_editor_characters_are_safe(text.drop_last());
    }
}

proof fn lemma_safe_text_is_kept(text: Seq<char>)
    requires
        is_terminal_safe(text),
    ensures
        with_unix_newlines(text) == text,
        editor_characters(text) == text,
    decreases text.len(),
{
    if text.len() > 0 {
        let before = text.drop_last();
        assert forall|i: int| 0 <= i < before.len() implies !is_control(#[trigger] before[i])
            || before[i] == '\n' by {
            assert(before[i] == text[i]);
        }
        lemma_safe_text_is_kept(before);
        assert(!is_control(text[text.len() - 1]) || text.last() == '\n');
        if text.len() >= 2 {
            assert(!is_control(text[text.len() - 2]) || text[text.len() - 2] == '\n');
        }
        assert(before.push(text.last()) =~= text);
        assert(editor_characters(text) =~= text);
    } else {
        assert(text =~= Seq::empty());
    }
}

/// What the editor keeps cannot control the terminal, and is kept unchanged a second time.
pub proof fn lemma_editor_text_is_safe_and_stable(text: Seq<char>)
    ensures
        is_terminal_safe(editor_text(text)),
        editor_text(editor_text(text)) == editor_text(text),
{
    lemma_editor_characters_are_safe(with_unix_newlines(text));
    lemma_safe_text_is_kept(editor_text(text));
}

/// Sanitizes a text for the editor.
pub fn sanitize_editor_text(text: &str) -> (sanitized: String)
    ensures
        sanitized@ == editor_text(text@),
{
    let characters = chars_of(text);
    let mut sanitized = String::new();
    let mut index: usize = 0;
    while index < characters.len()
        invariant
            index <= characters@.len(),
            sanitized@ == editor_text(characters@.subrange(0, index as int)),
        decreases characters@.len() - index,
    {
        let character = characters[index];
        let ghost seen = characters@.subrange(0, index + 1);
        proof {
            let before = with_unix_newlines(seen.drop_last());
            assert(seen.drop_last() =~= characters@.subrange(0, index as int));
            assert(seen.last() == character);
            assert(before.push('\n').drop_last() =~= before);
            assert(before.push(character).drop_last() =~= before);
        }
        if character == '\r' {
            sanitized.push('\n');
        } else if character == '\n' {
            if index == 0 || characters[index - 1] != '\r' {
                sanitized.push('\n');
            }
        } else if character == '\t' {
            sanitized.push(' ');
        } else if !is_control_char(character) {
            sanitized.push(character);
        }
        index += 1;
        assert(sanitized@ =~= editor_text(seen));
    }
    assert(characters@.subrange(0, index as int) =~= text@);
    sanitized
}

/// What the editor did with an event.
#[derive(Debug, PartialEq, Eq)]
pub enum EditorOutcome {
    Ignored,
    Consumed,
    Changed,
    Submitted(String),
}

/// An [`EditorOutcome`] as contracts see it.
pub ghost enum EditorOutcomeView {
    Ignored,
    Consumed,
    Changed,
    Submitted(Seq<char>),
}

impl DeepView for EditorOutcome {
    type V = EditorOutcomeView;

    open spec fn deep_view(&self) -> EditorOutcomeView {
        match self {
            EditorOutcome::Ignored => EditorOutcomeView::Ignored,
            EditorOutcome::Consumed => EditorOutcomeView::Consumed,
            EditorOutcome::Changed => EditorOutcomeView::Changed,
            EditorOutcome::Submitted(text) => EditorOutcomeView::Submitted(text@),
        }
    }
}

/// The rows of the editor that fit on the screen.
#[derive(Debug, PartialEq, Eq)]
pub struct EditorRows {
    pub lines: Vec<String>,
    pub cursor_row: u16,
    pub cursor_column: u16,
}

/// A one-line cut of the editor around its cursor.
#[derive(Debug, PartialEq, Eq)]
pub struct EditorWindow {
    pub text: String,
    pub cursor_column: u16,
}

/// One row of the wrapped text: the graphemes `start..end`.
#[derive(Clone, Copy, Debug)]
pub struct VisualRow {
    pub start: usize,
    pub end: usize,
}

/// The smaller of a sum and the largest machine word.
pub open spec fn saturated(sum: int) -> int {
    if sum > usize::MAX {
        usize::MAX as int
    } else {
        sum
    }
}

/// The rows from grapheme `index` on, in a row that began at `start` and reached `column`.
pub open spec fn rows_from(
    pieces: Seq<Seq<char>>,
    width: int,
    index: int,
    start: int,
    column: int,
) -> Seq<VisualRow>
    decreases pieces.len() - index,
{
    if index >= pieces.len() {
        seq![VisualRow { start: start as usize, end: pieces.len() as usize }]
    } else if pieces[index] == "\n"@ {
        seq![VisualRow { start: start as usize, end: index as usize }] + rows_from(
            pieces,
            width,
            index + 1,
            index + 1,
            0,
        )
    } else if column > 0 && saturated(column + display_width(pieces[index])) > width {
        seq![VisualRow { start: start as usize, end: index as usize }] + rows_from(
            pieces,
            width,
            index + 1,
            index,
            display_width(pieces[index]) as int,
        )
    } else {
        rows_from(
            pieces,
            width,
            index + 1,
            start,
            saturated(column + display_width(pieces[index])),
        )
    }
}

/// The rows of a text at a screen width of at least one column.
pub open spec fn rows_of(pieces: Seq<Seq<char>>, width: u16) -> Seq<VisualRow> {
    rows_from(pieces, if width == 0 { 1 } else { width as int }, 0, 0, 0)
}

/// A row that holds the cursor position.
pub open spec fn row_holds(row: VisualRow, cursor: int) -> bool {
    row.start <= cursor <= row.end
}

/// The first row at or after `index` that holds the cursor, or the last row.
pub open spec fn cursor_row_from(rows: Seq<VisualRow>, cursor: int, index: int) -> int
    decreases rows.len() - index,
{
    if index >= rows.len() {
        rows.len() - 1
    } else if row_holds(rows[index], cursor) {
        index
    } else {
        cursor_row_from(rows, cursor, index + 1)
    }
}

/// The row of the cursor.
pub open spec fn cursor_row(rows: Seq<VisualRow>, cursor: int) -> int {
    cursor_row_from(rows, cursor, 0)
}

/// The column of the cursor in its row.
pub open spec fn cursor_column(
    pieces: Seq<Seq<char>>,
    rows: Seq<VisualRow>,
    cursor: int,
) -> usize {
    display_width(
        concat(pieces.subrange(rows[cursor_row(rows, cursor)].start as int, cursor)),
    )
}

/// The grapheme of a row, from `index` on, that stands at or before column `desired`.
pub open spec fn grapheme_at_column(
    pieces: Seq<Seq<char>>,
    index: int,
    end: int,
    column: int,
    desired: int,
) -> int
    decreases end - index,
{
    if index >= end || saturated(column + display_width(pieces[index])) > desired {
        index
    } else {
        grapheme_at_column(
            pieces,
            index + 1,
            end,
            saturated(column + display_width(pieces[index])),
            desired,
        )
    }
}

/// The position left of `index` over graphemes that all are, or all are not, white space.
pub open spec fn skip_left(pieces: Seq<Seq<char>>, index: int, whitespace: bool) -> int
    decreases index,
{
    if index > 0 && is_blank(pieces[index - 1]) == whitespace {
        skip_left(pieces, index - 1, whitespace)
    } else {
        index
    }
}

/// The position right of `index` over graphemes that all are, or all are not, white space.
pub open spec fn skip_right(pieces: Seq<Seq<char>>, index: int, whitespace: bool) -> int
    decreases pieces.len() - index,
{
    if index < pieces.len() && is_blank(pieces[index]) == whitespace {
        skip_right(pieces, index + 1, whitespace)
    } else {
        index
    }
}

/// The start of the logical line that holds position `index`.
pub open spec fn line_start_of(pieces: Seq<Seq<char>>, index: int) -> int
    decreases index,
{
    if index > 0 && pieces[index - 1] != "\n"@ {
        line_start_of(pieces, index - 1)
    } else {
        index
    }
}

/// The end of the logical line that holds position `index`.
pub open spec fn line_end_of(pieces: Seq<Seq<char>>, index: int) -> int
    decreases pieces.len() - index,
{
    if index < pieces.len() && pieces[index] != "\n"@ {
        line_end_of(pieces, index + 1)
    } else {
        index
    }
}

/// The number of leading pieces that begin before character `limit`.
pub open spec fn pieces_before(pieces: Seq<Seq<char>>, limit: int) -> int
    decreases pieces.len(),
{
    if pieces.len() == 0 || limit <= 0 {
        0
    } else {
        1 + pieces_before(pieces.drop_first(), limit - pieces[0].len())
    }
}

/// The state of the editor. The cursor counts graphemes.
pub ghost struct EditorState {
    pub value: Seq<char>,
    pub cursor: int,
    pub viewport_top: int,
    pub preferred_column: Option<usize>,
    pub last_width: Option<u16>,
}

impl EditorState {
    /// An empty editor.
    pub open spec fn empty() -> EditorState {
        EditorState {
            value: Seq::empty(),
            cursor: 0,
            viewport_top: 0,
            preferred_column: None,
            last_width: None,
        }
    }

    /// The user-perceived characters of the value.
    pub open spec fn pieces(self) -> Seq<Seq<char>> {
        graphemes(self.value)
    }

    /// The cursor stands on a grapheme boundary of the value.
    pub open spec fn cursor_in_value(self) -> bool {
        0 <= self.cursor <= self.pieces().len()
    }

    /// The state with another value and cursor, scrolled to the top.
    pub open spec fn with_value(self, value: Seq<char>, cursor: int) -> EditorState {
        EditorState { value, cursor, viewport_top: 0, preferred_column: None, ..self }
    }

    /// The state with another cursor, scrolled to the top.
    pub open spec fn with_cursor(self, cursor: int) -> EditorState {
        self.with_value(self.value, cursor)
    }

    /// A text typed or pasted at the cursor.
    pub open spec fn inserted(self, text: Seq<char>) -> EditorState {
        let kept = editor_text(text);
        let head = concat(self.pieces().subrange(0, self.cursor)) + kept;
        let value = head + concat(
            self.pieces().subrange(self.cursor, self.pieces().len() as int),
        );
        if kept.len() == 0 {
            self
        } else {
            self.with_value(value, pieces_before(graphemes(value), head.len() as int))
        }
    }

    /// The graphemes `from..to` removed, with the cursor where they were.
    pub open spec fn removed(self, from: int, to: int) -> EditorState {
        let value = concat(self.pieces().subrange(0, from)) + concat(
            self.pieces().subrange(to, self.pieces().len() as int),
        );
        self.with_value(
            value,
            if from <= graphemes(value).len() {
                from
            } else {
                graphemes(value).len() as int
            },
        )
    }

    /// The start of the word before the cursor.
    pub open spec fn word_start(self) -> int {
        skip_left(self.pieces(), skip_left(self.pieces(), self.cursor, true), false)
    }

    /// The start of the word after the cursor.
    pub open spec fn next_word(self) -> int {
        if self.cursor < self.pieces().len() && is_blank(self.pieces()[self.cursor]) {
            skip_right(self.pieces(), self.cursor, true)
        } else {
            skip_right(self.pieces(), skip_right(self.pieces(), self.cursor, false), true)
        }
    }

    /// The end of the word after the cursor, with the white space around it.
    pub open spec fn word_end(self) -> int {
        skip_right(
            self.pieces(),
            skip_right(self.pieces(), skip_right(self.pieces(), self.cursor, true), false),
            true,
        )
    }

    /// The rows at the width last shown.
    pub open spec fn shown_rows(self) -> Seq<VisualRow> {
        rows_of(
            self.pieces(),
            match self.last_width {
                Some(width) => width,
                None => u16::MAX,
            },
        )
    }

    /// The column that vertical movement keeps to.
    pub open spec fn desired_column(self) -> usize {
        match self.preferred_column {
            Some(column) => column,
            None => cursor_column(self.pieces(), self.shown_rows(), self.cursor),
        }
    }

    /// The cursor moved to a row.
    pub open spec fn moved_to_row(self, row: int) -> EditorState {
        let target = self.shown_rows()[row];
        EditorState {
            cursor: grapheme_at_column(
                self.pieces(),
                target.start as int,
                target.end as int,
                0,
                self.desired_column() as int,
            ),
            preferred_column: Some(self.desired_column()),
            ..self
        }
    }

    /// What a key does that is neither ignored for its modifiers nor a word shortcut.
    pub open spec fn after_plain_key(self, code: KeyCode, modifiers: KeyModifiers) -> (
        EditorState,
        EditorOutcomeView,
    ) {
        let row = cursor_row(self.shown_rows(), self.cursor);
        let count = self.pieces().len() as int;
        match code {
            KeyCode::Char(character) => self.after_text(seq![character]),
            KeyCode::Enter => if modifiers == KeyModifiers::spec_shift() {
                (self.inserted("\n"@), EditorOutcomeView::Changed)
            } else {
                (self.with_value(Seq::empty(), 0), EditorOutcomeView::Submitted(self.value))
            },
            KeyCode::Esc => (self, EditorOutcomeView::Consumed),
            KeyCode::Left => if self.cursor == 0 {
                (self, EditorOutcomeView::Consumed)
            } else {
                (self.with_cursor(self.cursor - 1), EditorOutcomeView::Changed)
            },
            KeyCode::Right => if self.cursor == count {
                (self, EditorOutcomeView::Consumed)
            } else {
                (self.with_cursor(self.cursor + 1), EditorOutcomeView::Changed)
            },
            KeyCode::Home => {
                let start = line_start_of(self.pieces(), self.cursor);
                if self.cursor == start {
                    (self, EditorOutcomeView::Consumed)
                } else {
                    (self.with_cursor(start), EditorOutcomeView::Changed)
                }
            },
            KeyCode::End => {
                let end = line_end_of(self.pieces(), self.cursor);
                if self.cursor == end {
                    (self, EditorOutcomeView::Consumed)
                } else {
                    (self.with_cursor(end), EditorOutcomeView::Changed)
                }
            },
            KeyCode::Up => if row == 0 {
                (self, EditorOutcomeView::Consumed)
            } else {
                (self.moved_to_row(row - 1), EditorOutcomeView::Changed)
            },
            KeyCode::Down => if row + 1 >= self.shown_rows().len() {
                (self, EditorOutcomeView::Consumed)
            } else {
                (self.moved_to_row(row + 1), EditorOutcomeView::Changed)
            },
            KeyCode::Backspace => if self.cursor == 0 {
                (self, EditorOutcomeView::Consumed)
            } else {
                (self.removed(self.cursor - 1, self.cursor), EditorOutcomeView::Changed)
            },
            KeyCode::Delete => if self.cursor == count {
                (self, EditorOutcomeView::Consumed)
            } else {
                (self.removed(self.cursor, self.cursor + 1), EditorOutcomeView::Changed)
            },
            _ => (self, EditorOutcomeView::Ignored),
        }
    }

    /// What a text does that is typed or pasted.
    pub open spec fn after_text(self, text: Seq<char>) -> (EditorState, EditorOutcomeView) {
        if editor_text(text).len() == 0 {
            (self, EditorOutcomeView::Consumed)
        } else {
            (self.inserted(text), EditorOutcomeView::Changed)
        }
    }

    /// What a word shortcut does, or `None` for a key that is none.
    pub open spec fn after_word_key(self, code: KeyCode) -> Option<
        (EditorState, EditorOutcomeView),
    > {
        let moved = |cursor: int|
            if cursor == self.cursor {
                (self, EditorOutcomeView::Consumed)
            } else {
                (EditorState { cursor, ..self }, EditorOutcomeView::Changed)
            };
        match code {
            KeyCode::Left => Some(moved(self.word_start())),
            KeyCode::Right => Some(moved(self.next_word())),
            KeyCode::Backspace | KeyCode::Char('h') => Some(
                if self.word_start() == self.cursor {
                    (self, EditorOutcomeView::Consumed)
                } else {
                    (self.removed(self.word_start(), self.cursor), EditorOutcomeView::Changed)
                },
            ),
            KeyCode::Delete => Some(
                if self.word_end() == self.cursor {
                    (self, EditorOutcomeView::Consumed)
                } else {
                    (self.removed(self.cursor, self.word_end()), EditorOutcomeView::Changed)
                },
            ),
            _ => None,
        }
    }

    /// What a key event does.
    pub open spec fn after_key(self, key: KeyEvent) -> (EditorState, EditorOutcomeView) {
        if key.kind == KeyEventKind::Release {
            (self, EditorOutcomeView::Ignored)
        } else if key.modifiers.control && !key.modifiers.alt && !key.modifiers.shift
            && self.after_word_key(key.code) is Some {
            self.after_word_key(key.code)->0
        } else if key.modifiers.control || key.modifiers.alt {
            (self, EditorOutcomeView::Ignored)
        } else {
            self.after_plain_key(key.code, key.modifiers)
        }
    }

    /// What an event does.
    pub open spec fn after(self, event: EventView) -> (EditorState, EditorOutcomeView) {
        match event {
            EventView::Key(key) => self.after_key(key),
            EventView::Paste(text) => self.after_text(text),
            _ => (self, EditorOutcomeView::Ignored),
        }
    }
}

proof fn lemma_rows_cover(
    pieces: Seq<Seq<char>>,
    width: int,
    index: int,
    start: int,
    column: int,
    cursor: int,
)
    requires
        0 <= start <= index <= pieces.len() <= usize::MAX,
        start <= cursor <= pieces.len(),
    ensures
        rows_from(pieces, width, index, start, column).len() > 0,
        forall|k: int|
            0 <= k < rows_from(pieces, width, index, start, column).len() ==> start <= (
            #[trigger] rows_from(pieces, width, index, start, column)[k]).start <= rows_from(
                pieces,
                width,
                index,
                start,
                column,
            )[k].end <= pieces.len(),
        exists|k: int|
            0 <= k < rows_from(pieces, width, index, start, column).len() && row_holds(
                #[trigger] rows_from(pieces, width, index, start, column)[k],
                cursor,
            ),
    decreases pieces.len() - index,
{
    let rows = rows_from(pieces, width, index, start, column);
    if index >= pieces.len() {
        assert(row_holds(rows[0], cursor));
    } else if pieces[index] == "\n"@ {
        let rest = rows_from(pieces, width, index + 1, index + 1, 0);
        lemma_rows_cover(
            pieces,
            width,
            index + 1,
            index + 1,
            0,
            if cursor <= index { index + 1 } else { cursor },
        );
        assert(forall|k: int| 1 <= k < rows.len() ==> rows[k] == rest[k - 1]);
        if cursor <= index {
            assert(row_holds(rows[0], cursor));
        } else {
            let k = choose|k: int| 0 <= k < rest.len() && row_holds(#[trigger] rest[k], cursor);
            assert(row_holds(rows[k + 1], cursor));
        }
    } else if column > 0 && saturated(column + display_width(pieces[index])) > width {
        let next = display_width(pieces[index]) as int;
        let rest = rows_from(pieces, width, index + 1, index, next);
        lemma_rows_cover(
            pieces,
            width,
            index + 1,
            index,
            next,
            if cursor <= index { index } else { cursor },
        );
        assert(forall|k: int| 1 <= k < rows.len() ==> rows[k] == rest[k - 1]);
        if cursor <= index {
            assert(row_holds(rows[0], cursor));
        } else {
            let k = choose|k: int| 0 <= k < rest.len() && row_holds(#[trigger] rest[k], cursor);
            assert(row_holds(rows[k + 1], cursor));
        }
    } else {
        lemma_rows_cover(
            pieces,
            width,
            index + 1,
            start,
            saturated(column + display_width(pieces[index])),
            cursor,
        );
    }
}

proof fn lemma_cursor_row_from(rows: Seq<VisualRow>, cursor: int, index: int)
    requires
        0 <= index <= rows.len(),
        rows.len() > 0,
        exists|k: int| index <= k < rows.len() && row_holds(#[trigger] rows[k], cursor),
    ensures
        index <= cursor_row_from(rows, cursor, index) < rows.len(),
        row_holds(rows[cursor_row_from(rows, cursor, index)], cursor),
    decreases rows.len() - index,
{
    if !row_holds(rows[index], cursor) {
        lemma_cursor_row_from(rows, cursor, index + 1);
    }
}

/// Every position of the cursor lies in a row, and every row inside the text.
pub proof fn lemma_cursor_row_holds_cursor(pieces: Seq<Seq<char>>, width: u16, cursor: int)
    requires
        0 <= cursor <= pieces.len() <= usize::MAX,
    ensures
        0 <= cursor_row(rows_of(pieces, width), cursor) < rows_of(pieces, width).len(),
        row_holds(rows_of(pieces, width)[cursor_row(rows_of(pieces, width), cursor)], cursor),
        forall|k: int|
            0 <= k < rows_of(pieces, width).len() ==> (#[trigger] rows_of(pieces, width)[k]).start
                <= rows_of(pieces, width)[k].end <= pieces.len(),
{
    lemma_rows_cover(pieces, if width == 0 { 1 } else { width as int }, 0, 0, 0, cursor);
    lemma_cursor_row_from(rows_of(pieces, width), cursor, 0);
}

/// The sum of the widths of some graphemes.
pub open spec fn total_width(pieces: Seq<Seq<char>>, from: int, to: int) -> int
    decreases to - from,
{
    if from >= to {
        0
    } else {
        total_width(pieces, from, to - 1) + display_width(pieces[to - 1])
    }
}

proof fn lemma_rows_from_fit(
    pieces: Seq<Seq<char>>,
    width: int,
    index: int,
    start: int,
    column: int,
)
    requires
        0 <= start <= index <= pieces.len() <= usize::MAX,
        0 < width <= u16::MAX,
        column == total_width(pieces, start, index) <= width,
        forall|i: int| 0 <= i < pieces.len() ==> display_width(#[trigger] pieces[i]) <= width,
    ensures
        forall|k: int|
            0 <= k < rows_from(pieces, width, index, start, column).len() ==> total_width(
                pieces,
                (#[trigger] rows_from(pieces, width, index, start, column)[k]).start as int,
                rows_from(pieces, width, index, start, column)[k].end as int,
            ) <= width,
    decreases pieces.len() - index,
{
    let rows = rows_from(pieces, width, index, start, column);
    if index >= pieces.len() {
        assert(rows.len() == 1);
        assert(rows[0].start == start && rows[0].end == index);
        assert forall|k: int| 0 <= k < rows.len() implies total_width(
            pieces,
            (#[trigger] rows[k]).start as int,
            rows[k].end as int,
        ) <= width by {
            assert(k == 0);
        }
    } else if pieces[index] == "\n"@ {
        let rest = rows_from(pieces, width, index + 1, index + 1, 0);
        lemma_rows_from_fit(pieces, width, index + 1, index + 1, 0);
        assert forall|k: int| 0 <= k < rows.len() implies total_width(
            pieces,
            (#[trigger] rows[k]).start as int,
            rows[k].end as int,
        ) <= width by {
            if k > 0 {
                assert(rows[k] == rest[k - 1]);
            }
        }
    } else if column > 0 && saturated(column + display_width(pieces[index])) > width {
        let next = display_width(pieces[index]) as int;
        let rest = rows_from(pieces, width, index + 1, index, next);
        assert(total_width(pieces, index, index) == 0);
        assert(total_width(pieces, index, index + 1) == next);
        lemma_rows_from_fit(pieces, width, index + 1, index, next);
        assert forall|k: int| 0 <= k < rows.len() implies total_width(
            pieces,
            (#[trigger] rows[k]).start as int,
            rows[k].end as int,
        ) <= width by {
            if k > 0 {
                assert(rows[k] == rest[k - 1]);
            }
        }
    } else {
        let next = saturated(column + display_width(pieces[index]));
        assert(total_width(pieces, start, index + 1) == column + display_width(pieces[index]));
        lemma_rows_from_fit(pieces, width, index + 1, start, next);
        assert(rows == rows_from(pieces, width, index + 1, start, next));
    }
}

/// Where no grapheme alone is wider than the screen, no row is.
pub proof fn lemma_rows_fit_the_width(pieces: Seq<Seq<char>>, width: u16)
    requires
        width > 0,
        pieces.len() <= usize::MAX,
        forall|i: int| 0 <= i < pieces.len() ==> display_width(#[trigger] pieces[i]) <= width,
    ensures
        forall|k: int|
            0 <= k < rows_of(pieces, width).len() ==> total_width(
                pieces,
                (#[trigger] rows_of(pieces, width)[k]).start as int,
                rows_of(pieces, width)[k].end as int,
            ) <= width,
{
    assert(total_width(pieces, 0, 0) == 0);
    lemma_rows_from_fit(pieces, width as int, 0, 0, 0);
}

proof fn lemma_skips_stay_in_text(pieces: Seq<Seq<char>>, index: int, whitespace: bool)
    requires
        0 <= index <= pieces.len(),
    ensures
        0 <= skip_left(pieces, index, whitespace) <= index,
        index <= skip_right(pieces, index, whitespace) <= pieces.len(),
    decreases pieces.len(),
{
    lemma_skip_left_stays(pieces, index, whitespace);
    lemma_skip_right_stays(pieces, index, whitespace);
}

proof fn lemma_skip_left_stays(pieces: Seq<Seq<char>>, index: int, whitespace: bool)
    requires
        0 <= index <= pieces.len(),
    ensures
        0 <= skip_left(pieces, index, whitespace) <= index,
    decreases index,
{
    if index > 0 && is_blank(pieces[index - 1]) == whitespace {
        lemma_skip_left_stays(pieces, index - 1, whitespace);
    }
}

proof fn lemma_skip_right_stays(pieces: Seq<Seq<char>>, index: int, whitespace: bool)
    requires
        0 <= index <= pieces.len(),
    ensures
        index <= skip_right(pieces, index, whitespace) <= pieces.len(),
    decreases pieces.len() - index,
{
    if index < pieces.len() && is_blank(pieces[index]) == whitespace {
        lemma_skip_right_stays(pieces, index + 1, whitespace);
    }
}

proof fn lemma_safe_parts(value: Seq<char>, pieces: Seq<Seq<char>>, from: int, to: int)
    requires
        is_terminal_safe(value),
        concat(pieces) == value,
        0 <= from <= to <= pieces.len(),
    ensures
        is_terminal_safe(concat(pieces.subrange(0, from))),
        is_terminal_safe(concat(pieces.subrange(to, pieces.len() as int))),
{
    lemma_concat_split(pieces, from);
    lemma_concat_split(pieces, to);
    let head = concat(pieces.subrange(0, from));
    let tail = concat(pieces.subrange(to, pieces.len() as int));
    let tail_start = value.len() - tail.len();
    assert forall|i: int| 0 <= i < head.len() implies !is_control(#[trigger] head[i]) || head[i]
        == '\n' by {
        assert(head[i] == value[i]);
    }
    assert forall|i: int| 0 <= i < tail.len() implies !is_control(#[trigger] tail[i]) || tail[i]
        == '\n' by {
        assert(tail[i] == value[tail_start + i]);
    }
}

/// No event puts a control character but the newline into the editor.
pub proof fn lemma_editor_value_stays_terminal_safe(state: EditorState, event: EventView)
    requires
        state.cursor_in_value(),
        concat(state.pieces()) == state.value,
        is_terminal_safe(state.value),
    ensures
        is_terminal_safe(state.after(event).0.value),
{
    let pieces = state.pieces();
    lemma_skips_stay_in_text(pieces, state.cursor, true);
    lemma_skips_stay_in_text(pieces, state.cursor, false);
    lemma_skips_stay_in_text(pieces, skip_left(pieces, state.cursor, true), false);
    lemma_skips_stay_in_text(pieces, skip_right(pieces, state.cursor, true), false);
    lemma_skips_stay_in_text(
        pieces,
        skip_right(pieces, skip_right(pieces, state.cursor, true), false),
        true,
    );
    lemma_safe_parts(state.value, pieces, state.cursor, state.cursor);
    lemma_safe_parts(state.value, pieces, state.word_start(), state.cursor);
    lemma_safe_parts(state.value, pieces, state.cursor, state.word_end());
    if state.cursor > 0 {
        lemma_safe_parts(state.value, pieces, state.cursor - 1, state.cursor);
    }
    if state.cursor < pieces.len() {
        lemma_safe_parts(state.value, pieces, state.cursor, state.cursor + 1);
    }
    match event {
        EventView::Paste(text) => lemma_editor_text_is_safe_and_stable(text),
        EventView::Key(key) => {
            if let KeyCode::Char(character) = key.code {
                lemma_editor_text_is_safe_and_stable(seq![character]);
            }
            lemma_editor_text_is_safe_and_stable("\n"@);
        },
        _ => {},
    }
}

/// A multi-line text with a cursor, edited by key and paste events.
pub struct PromptEditor {
    value: String,
    cursor_grapheme: usize,
    viewport_top: usize,
    preferred_column: Option<usize>,
    last_width: Option<u16>,
}

impl PromptEditor {
    /// The state of this editor.
    pub closed spec fn state(&self) -> EditorState {
        EditorState {
            value: self.value@,
            cursor: self.cursor_grapheme as int,
            viewport_top: self.viewport_top as int,
            preferred_column: self.preferred_column,
            last_width: self.last_width,
        }
    }

    #[verifier::type_invariant]
    spec fn cursor_stays_in_value(&self) -> bool {
        self.cursor_grapheme <= graphemes(self.value@).len()
    }

    /// An empty editor.
    pub fn new() -> (editor: Self)
        ensures
            editor.state() == EditorState::empty(),
    {
        PromptEditor {
            value: String::new(),
            cursor_grapheme: 0,
            viewport_top: 0,
            preferred_column: None,
            last_width: None,
        }
    }

    /// The text in the editor.
    pub fn value(&self) -> (value: &str)
        ensures
            value@ == self.state().value,
    {
        self.value.as_str()
    }

    fn pieces(&self) -> (pieces: Vec<String>)
        ensures
            pieces.deep_view() == self.state().pieces(),
            concat(self.state().pieces()) == self.state().value,
            self.state().cursor_in_value(),
    {
        proof {
            use_type_invariant(self);
        }
        graphemes_of(&self.value)
    }

    fn change(&mut self, value: String, cursor: usize)
        requires
            cursor <= graphemes(value@).len(),
        ensures
            final(self).state() == old(self).state().with_value(value@, cursor as int),
    {
        let last_width = self.last_width;
        *self = PromptEditor {
            value,
            cursor_grapheme: cursor,
            viewport_top: 0,
            preferred_column: None,
            last_width,
        };
    }

    fn move_cursor(&mut self, cursor: usize)
        requires
            cursor <= old(self).state().pieces().len(),
        ensures
            final(self).state() == old(self).state().with_cursor(cursor as int),
    {
        self.cursor_grapheme = cursor;
        self.viewport_top = 0;
        self.preferred_column = None;
    }

    /// Replaces the text and moves the cursor to its end.
    pub fn set_value(&mut self, value: &str)
        ensures
            final(self).state() == old(self).state().with_value(
                editor_text(value@),
                graphemes(editor_text(value@)).len() as int,
            ),
    {
        let value = sanitize_editor_text(value);
        let pieces = graphemes_of(&value);
        let end: usize = pieces.len();
        self.change(value, end);
    }

    /// Empties the editor.
    pub fn clear(&mut self)
        ensures
            final(self).state() == old(self).state().with_value(Seq::empty(), 0),
    {
        self.change(String::new(), 0);
    }

    /// Whether the cursor stands behind the whole text.
    pub fn at_end(&self) -> (at_end: bool)
        ensures
            at_end == (self.state().cursor == self.state().pieces().len()),
    {
        let pieces = self.pieces();
        self.cursor_grapheme == pieces.len()
    }

    /// Whether the cursor stands at the end of the last line.
    pub fn at_final_line_end(&self) -> (at_end: bool)
        ensures
            at_end == (self.state().cursor == self.state().pieces().len()),
    {
        self.at_end()
    }

    fn rows(&self, pieces: &Vec<String>, width: u16) -> (rows: Vec<VisualRow>)
        ensures
            rows@ == rows_of(pieces.deep_view(), width),
    {
        let width: usize = if width == 0 { 1 } else { width as usize };
        let mut rows: Vec<VisualRow> = Vec::new();
        let mut start: usize = 0;
        let mut column: usize = 0;
        let mut index: usize = 0;
        let ghost all = rows_from(pieces.deep_view(), width as int, 0, 0, 0);
        assert(rows@ + all =~= all);
        while index < pieces.len()
            invariant
                start <= index <= pieces@.len(),
                all == rows@ + rows_from(
                    pieces.deep_view(),
                    width as int,
                    index as int,
                    start as int,
                    column as int,
                ),
            decreases pieces@.len() - index,
        {
            let ghost before = rows@;
            assert(pieces.deep_view()[index as int] == pieces@[index as int]@);
            if same_text(&pieces[index], "\n") {
                rows.push(VisualRow { start, end: index });
                start = index + 1;
                column = 0;
            } else {
                let grapheme_width: usize = width_of(&pieces[index]);
                if column > 0 && column.saturating_add(grapheme_width) > width {
                    rows.push(VisualRow { start, end: index });
                    start = index;
                    column = 0;
                }
                column = column.saturating_add(grapheme_width);
            }
            index += 1;
            assert(all =~= rows@ + rows_from(
                pieces.deep_view(),
                width as int,
                index as int,
                start as int,
                column as int,
            ));
        }
        rows.push(VisualRow { start, end: index });
        assert(all =~= rows@);
        rows
    }

    fn row_of_cursor(&self, rows: &Vec<VisualRow>) -> (row: usize)
        requires
            rows@.len() > 0,
        ensures
            row == cursor_row(rows@, self.state().cursor),
    {
        let cursor: usize = self.cursor_grapheme;
        let mut index: usize = 0;
        while index < rows.len()
            invariant
                index <= rows@.len(),
                cursor == self.state().cursor,
                cursor_row(rows@, cursor as int) == cursor_row_from(
                    rows@,
                    cursor as int,
                    index as int,
                ),
            decreases rows@.len() - index,
        {
            if rows[index].start <= cursor && cursor <= rows[index].end {
                return index;
            }
            index += 1;
        }
        rows.len() - 1
    }

    fn column_of_cursor(&self, pieces: &Vec<String>, rows: &Vec<VisualRow>, row: usize) -> (column:
        usize)
        requires
            row < rows@.len(),
            row == cursor_row(rows@, self.state().cursor),
            rows@[row as int].start <= self.state().cursor <= pieces@.len(),
        ensures
            column == cursor_column(pieces.deep_view(), rows@, self.state().cursor),
    {
        let before = concat_text(pieces, rows[row].start, self.cursor_grapheme);
        width_of(&before)
    }

    fn insert(&mut self, text: &str)
        ensures
            final(self).state() == old(self).state().inserted(text@),
    {
        let text = sanitize_editor_text(text);
        if text.as_str().is_empty() {
            return;
        }
        let pieces = self.pieces();
        let mut value = concat_text(&pieces, 0, self.cursor_grapheme);
        value.push_str(&text);
        let mut rest: usize = vstd::string::StrSliceExecFns::unicode_len(value.as_str());
        let tail = concat_text(&pieces, self.cursor_grapheme, pieces.len());
        let ghost head = value@;
        value.push_str(&tail);
        let changed = graphemes_of(&value);
        let mut cursor: usize = 0;
        let ghost named = changed.deep_view();
        assert(named.subrange(0, named.len() as int) =~= named);
        while cursor < changed.len() && rest > 0
            invariant
                cursor <= changed@.len(),
                named == changed.deep_view(),
                pieces_before(named, head.len() as int) == cursor + pieces_before(
                    named.subrange(cursor as int, named.len() as int),
                    rest as int,
                ),
            decreases changed@.len() - cursor,
        {
            let length: usize = vstd::string::StrSliceExecFns::unicode_len(
                changed[cursor].as_str(),
            );
            proof {
                let left = named.subrange(cursor as int, named.len() as int);
                assert(left[0] == changed@[cursor as int]@);
                assert(left.drop_first() =~= named.subrange(cursor + 1, named.len() as int));
                if rest < length {
                    assert(pieces_before(left.drop_first(), rest - length) == 0);
                    assert(pieces_before(left.drop_first(), 0) == 0);
                }
            }
            rest = rest.saturating_sub(length);
            cursor += 1;
        }
        self.change(value, cursor);
    }

    fn remove(&mut self, pieces: &Vec<String>, from: usize, to: usize)
        requires
            pieces.deep_view() == old(self).state().pieces(),
            from <= to <= pieces@.len(),
        ensures
            final(self).state() == old(self).state().removed(from as int, to as int),
    {
        let mut value = concat_text(pieces, 0, from);
        let tail = concat_text(pieces, to, pieces.len());
        value.push_str(&tail);
        let left = graphemes_of(&value);
        let cursor: usize = if from <= left.len() { from } else { left.len() };
        self.change(value, cursor);
    }

    fn skip_back(pieces: &Vec<String>, from: usize, whitespace: bool) -> (to: usize)
        requires
            from <= pieces@.len(),
        ensures
            to == skip_left(pieces.deep_view(), from as int, whitespace),
            to <= from,
    {
        let mut to: usize = from;
        while to > 0 && is_blank_text(&pieces[to - 1]) == whitespace
            invariant
                to <= from <= pieces@.len(),
                skip_left(pieces.deep_view(), from as int, whitespace) == skip_left(
                    pieces.deep_view(),
                    to as int,
                    whitespace,
                ),
            decreases to,
        {
            to -= 1;
        }
        to
    }

    fn skip_on(pieces: &Vec<String>, from: usize, whitespace: bool) -> (to: usize)
        requires
            from <= pieces@.len(),
        ensures
            to == skip_right(pieces.deep_view(), from as int, whitespace),
            from <= to <= pieces@.len(),
    {
        let mut to: usize = from;
        while to < pieces.len() && is_blank_text(&pieces[to]) == whitespace
            invariant
                from <= to <= pieces@.len(),
                skip_right(pieces.deep_view(), from as int, whitespace) == skip_right(
                    pieces.deep_view(),
                    to as int,
                    whitespace,
                ),
            decreases pieces@.len() - to,
        {
            to += 1;
        }
        to
    }

    fn line_start(pieces: &Vec<String>, from: usize) -> (start: usize)
        requires
            from <= pieces@.len(),
        ensures
            start == line_start_of(pieces.deep_view(), from as int),
            start <= from,
    {
        let mut start: usize = from;
        while start > 0 && !same_text(&pieces[start - 1], "\n")
            invariant
                start <= from <= pieces@.len(),
                line_start_of(pieces.deep_view(), from as int) == line_start_of(
                    pieces.deep_view(),
                    start as int,
                ),
            decreases start,
        {
            start -= 1;
        }
        start
    }

    fn line_end(pieces: &Vec<String>, from: usize) -> (end: usize)
        requires
            from <= pieces@.len(),
        ensures
            end == line_end_of(pieces.deep_view(), from as int),
            from <= end <= pieces@.len(),
    {
        let mut end: usize = from;
        while end < pieces.len() && !same_text(&pieces[end], "\n")
            invariant
                from <= end <= pieces@.len(),
                line_end_of(pieces.deep_view(), from as int) == line_end_of(
                    pieces.deep_view(),
                    end as int,
                ),
            decreases pieces@.len() - end,
        {
            end += 1;
        }
        end
    }

    fn move_vertical(&mut self, up: bool) -> (moved: bool)
        ensures
            ({
                let state = old(self).state();
                let row = cursor_row(state.shown_rows(), state.cursor);
                &&& moved == if up {
                    row > 0
                } else {
                    row + 1 < state.shown_rows().len()
                }
                &&& final(self).state() == if moved {
                    state.moved_to_row(if up { row - 1 } else { row + 1 })
                } else {
                    state
                }
            }),
    {
        let pieces = self.pieces();
        let width: u16 = match self.last_width {
            Some(width) => width,
            None => u16::MAX,
        };
        let rows = self.rows(&pieces, width);
        proof {
            assert(pieces.len() <= usize::MAX);
            lemma_cursor_row_holds_cursor(pieces.deep_view(), width, self.state().cursor);
        }
        let current: usize = self.row_of_cursor(&rows);
        if up && current == 0 || !up && current + 1 >= rows.len() {
            return false;
        }
        let target: usize = if up { current - 1 } else { current + 1 };
        let desired: usize = match self.preferred_column {
            Some(column) => column,
            None => self.column_of_cursor(&pieces, &rows, current),
        };
        let row = rows[target];
        let mut index: usize = row.start;
        let mut column: usize = 0;
        let ghost reached = grapheme_at_column(
            pieces.deep_view(),
            row.start as int,
            row.end as int,
            0,
            desired as int,
        );
        assert(rows_of(pieces.deep_view(), width)[target as int] == row);
        while index < row.end
            invariant
                row.start <= index <= row.end <= pieces@.len(),
                reached == grapheme_at_column(
                    pieces.deep_view(),
                    index as int,
                    row.end as int,
                    column as int,
                    desired as int,
                ),
            ensures
                index == reached,
                index <= pieces@.len(),
            decreases row.end - index,
        {
            let width: usize = width_of(&pieces[index]);
            if column.saturating_add(width) > desired {
                break;
            }
            column = column.saturating_add(width);
            index += 1;
        }
        self.cursor_grapheme = index;
        self.preferred_column = Some(desired);
        true
    }

    fn word_shortcut(&mut self, code: KeyCode) -> (outcome: Option<EditorOutcome>)
        ensures
            match old(self).state().after_word_key(code) {
                Some((state, shown)) => outcome is Some && outcome->0.deep_view() == shown && final(self).state() == state,
                None => outcome is None && final(self).state() == old(self).state(),
            },
    {
        let pieces = self.pieces();
        let cursor: usize = self.cursor_grapheme;
        let moved: usize = match code {
            KeyCode::Left => {
                let word = Self::skip_back(&pieces, cursor, true);
                Self::skip_back(&pieces, word, false)
            },
            KeyCode::Right => {
                if cursor < pieces.len() && is_blank_text(&pieces[cursor]) {
                    Self::skip_on(&pieces, cursor, true)
                } else {
                    let word = Self::skip_on(&pieces, cursor, false);
                    Self::skip_on(&pieces, word, true)
                }
            },
            KeyCode::Backspace | KeyCode::Char('h') => {
                let word = Self::skip_back(&pieces, cursor, true);
                let start: usize = Self::skip_back(&pieces, word, false);
                if start == cursor {
                    return Some(EditorOutcome::Consumed);
                }
                self.remove(&pieces, start, cursor);
                return Some(EditorOutcome::Changed);
            },
            KeyCode::Delete => {
                let word = Self::skip_on(&pieces, cursor, true);
                let gap = Self::skip_on(&pieces, word, false);
                let end: usize = Self::skip_on(&pieces, gap, true);
                if end == cursor {
                    return Some(EditorOutcome::Consumed);
                }
                self.remove(&pieces, cursor, end);
                return Some(EditorOutcome::Changed);
            },
            _ => {
                return None;
            },
        };
        if moved == cursor {
            return Some(EditorOutcome::Consumed);
        }
        self.cursor_grapheme = moved;
        Some(EditorOutcome::Changed)
    }

    fn plain_key(&mut self, code: KeyCode, modifiers: KeyModifiers) -> (outcome: EditorOutcome)
        ensures
            (final(self).state(), outcome.deep_view()) == old(self).state().after_plain_key(
                code,
                modifiers,
            ),
    {
        let cursor: usize = self.cursor_grapheme;
        let pieces = self.pieces();
        match code {
            KeyCode::Char(character) => {
                let mut typed = String::new();
                typed.push(character);
                assert(typed@ =~= seq![character]);
                self.type_text(&typed)
            },
            KeyCode::Enter => {
                if modifiers == KeyModifiers::shift() {
                    self.insert("\n");
                    EditorOutcome::Changed
                } else {
                    let submitted = self.value.clone();
                    self.change(String::new(), 0);
                    EditorOutcome::Submitted(submitted)
                }
            },
            KeyCode::Esc => EditorOutcome::Consumed,
            KeyCode::Left => {
                if cursor == 0 {
                    EditorOutcome::Consumed
                } else {
                    self.move_cursor(cursor - 1);
                    EditorOutcome::Changed
                }
            },
            KeyCode::Right => {
                if cursor == pieces.len() {
                    EditorOutcome::Consumed
                } else {
                    self.move_cursor(cursor + 1);
                    EditorOutcome::Changed
                }
            },
            KeyCode::Home => {
                let start: usize = Self::line_start(&pieces, cursor);
                if cursor == start {
                    EditorOutcome::Consumed
                } else {
                    self.move_cursor(start);
                    EditorOutcome::Changed
                }
            },
            KeyCode::End => {
                let end: usize = Self::line_end(&pieces, cursor);
                if cursor == end {
                    EditorOutcome::Consumed
                } else {
                    self.move_cursor(end);
                    EditorOutcome::Changed
                }
            },
            KeyCode::Up => {
                proof {
                    assert(pieces.len() <= usize::MAX);
                    lemma_cursor_row_holds_cursor(
                        pieces.deep_view(),
                        match self.last_width {
                            Some(width) => width,
                            None => u16::MAX,
                        },
                        self.state().cursor,
                    );
                }
                if self.move_vertical(true) {
                    EditorOutcome::Changed
                } else {
                    EditorOutcome::Consumed
                }
            },
            KeyCode::Down => {
                if self.move_vertical(false) {
                    EditorOutcome::Changed
                } else {
                    EditorOutcome::Consumed
                }
            },
            KeyCode::Backspace => {
                if cursor == 0 {
                    EditorOutcome::Consumed
                } else {
                    self.remove(&pieces, cursor - 1, cursor);
                    EditorOutcome::Changed
                }
            },
            KeyCode::Delete => {
                if cursor == pieces.len() {
                    EditorOutcome::Consumed
                } else {
                    self.remove(&pieces, cursor, cursor + 1);
                    EditorOutcome::Changed
                }
            },
            _ => EditorOutcome::Ignored,
        }
    }

    fn type_text(&mut self, text: &str) -> (outcome: EditorOutcome)
        ensures
            (final(self).state(), outcome.deep_view()) == old(self).state().after_text(text@),
    {
        let kept = sanitize_editor_text(text);
        if kept.as_str().is_empty() {
            return EditorOutcome::Consumed;
        }
        proof {
            lemma_editor_text_is_safe_and_stable(text@);
        }
        self.insert(&kept);
        EditorOutcome::Changed
    }

    /// Edits the text as a terminal event asks.
    pub fn handle_event(&mut self, event: &Event) -> (outcome: EditorOutcome)
        ensures
            (final(self).state(), outcome.deep_view()) == old(self).state().after(
                event.deep_view(),
            ),
            final(self).state().cursor_in_value(),
    {
        let outcome = match event {
            Event::Paste(text) => self.type_text(text),
            Event::Key(key) => {
                if key.kind == KeyEventKind::Release {
                    EditorOutcome::Ignored
                } else {
                    let shortcut = if key.modifiers.control && !key.modifiers.alt
                        && !key.modifiers.shift {
                        self.word_shortcut(key.code)
                    } else {
                        None
                    };
                    match shortcut {
                        Some(outcome) => outcome,
                        None => {
                            if key.modifiers.control || key.modifiers.alt {
                                EditorOutcome::Ignored
                            } else {
                                self.plain_key(key.code, key.modifiers)
                            }
                        },
                    }
                }
            },
            _ => EditorOutcome::Ignored,
        };
        proof {
            use_type_invariant(&*self);
        }
        outcome
    }

    /// The number of rows at a screen width.
    pub fn visual_height(&self, width: u16) -> (height: u16)
        ensures
            height == if rows_of(self.state().pieces(), width).len() > u16::MAX {
                u16::MAX as int
            } else {
                rows_of(self.state().pieces(), width).len() as int
            },
    {
        let pieces = self.pieces();
        let rows = self.rows(&pieces, width);
        if rows.len() > u16::MAX as usize {
            u16::MAX
        } else {
            rows.len() as u16
        }
    }

    /// Scrolls the cursor into view and returns the visible rows.
    pub fn display_rows(&mut self, width: u16, visible_height: u16) -> (shown: EditorRows)
        ensures
            width == 0 || visible_height == 0 ==> {
                &&& final(self).state() == old(self).state()
                &&& shown.lines@.len() == 0
                &&& shown.cursor_row == 0
                &&& shown.cursor_column == 0
            },
            width > 0 && visible_height > 0 ==> {
                let state = old(self).state().scrolled(width, visible_height as int);
                &&& final(self).state() == state
                &&& shown.lines.deep_view() == state.visible_lines(width, visible_height as int)
                &&& shown.cursor_row == cursor_row(rows_of(state.pieces(), width), state.cursor)
                    - state.viewport_top
                &&& shown.cursor_row < visible_height
                &&& shown.cursor_column == state.column_within(width)
                &&& shown.cursor_column < width
            },
    {
        if width == 0 || visible_height == 0 {
            return EditorRows { lines: Vec::new(), cursor_row: 0, cursor_column: 0 };
        }
        let pieces = self.pieces();
        let rows = self.rows(&pieces, width);
        proof {
            assert(pieces.len() <= usize::MAX);
            lemma_cursor_row_holds_cursor(pieces.deep_view(), width, self.state().cursor);
        }
        let cursor: usize = self.row_of_cursor(&rows);
        let column: usize = self.column_of_cursor(&pieces, &rows, cursor);
        let height: usize = visible_height as usize;
        self.last_width = Some(width);
        if cursor < self.viewport_top {
            self.viewport_top = cursor;
        } else if cursor >= self.viewport_top.saturating_add(height) {
            self.viewport_top = cursor - (height - 1);
        }
        let top: usize = self.viewport_top;
        let ghost state = self.state();
        let mut lines: Vec<String> = Vec::new();
        let mut index: usize = top;
        assert(lines.deep_view() =~= Seq::new(
            0,
            |i: int| row_text(pieces.deep_view(), rows@[top + i]),
        ));
        while index < rows.len() && index - top < height
            invariant
                top <= index <= rows@.len(),
                index - top <= height,
                rows@ == rows_of(pieces.deep_view(), width),
                forall|k: int|
                    0 <= k < rows_of(pieces.deep_view(), width).len() ==> (
                    #[trigger] rows_of(pieces.deep_view(), width)[k]).start <= rows_of(
                        pieces.deep_view(),
                        width,
                    )[k].end <= pieces@.len(),
                lines.deep_view() == Seq::new(
                    (index - top) as nat,
                    |i: int| row_text(pieces.deep_view(), rows@[top + i]),
                ),
            decreases rows@.len() - index,
        {
            let row = rows[index];
            assert(rows_of(pieces.deep_view(), width)[index as int] == row);
            let ghost before = lines;
            lines.push(concat_text(&pieces, row.start, row.end));
            index += 1;
            assert(lines.deep_view() =~= before.deep_view().push(
                row_text(pieces.deep_view(), row),
            ));
            assert(lines.deep_view() =~= Seq::new(
                (index - top) as nat,
                |i: int| row_text(pieces.deep_view(), rows@[top + i]),
            ));
        }
        assert(lines.deep_view() =~= state.visible_lines(width, height as int));
        EditorRows {
            lines,
            cursor_row: (cursor - top) as u16,
            cursor_column: if column < width as usize {
                column as u16
            } else {
                width - 1
            },
        }
    }

    /// Returns the part of the text around the cursor that fits on one line.
    pub fn display_window(&mut self, width: u16) -> (window: EditorWindow)
        ensures
            final(self).state() == old(self).state(),
            shows_window(old(self).state(), width, window),
    {
        if width == 0 {
            return EditorWindow { text: String::new(), cursor_column: 0 };
        }
        let pieces = self.pieces();
        let ghost named = pieces.deep_view();
        let mut cursor: usize = 0;
        let mut index: usize = 0;
        while index < self.cursor_grapheme
            invariant
                index <= self.cursor_grapheme <= pieces@.len(),
                named == pieces.deep_view(),
                cursor == width_before(named, index as int),
            decreases self.cursor_grapheme - index,
        {
            cursor = cursor.saturating_add(width_of(&pieces[index]));
            index += 1;
        }
        let start: usize = cursor.saturating_sub(width as usize - 1);
        let end: usize = start.saturating_add(width as usize);
        let mut text = String::new();
        let mut column: usize = 0;
        let mut index: usize = 0;
        while index < pieces.len()
            invariant
                index <= pieces@.len(),
                named == pieces.deep_view(),
                column == width_before(named, index as int),
                text@ == window_text(named, index as int, start as int, end as int),
            decreases pieces@.len() - index,
        {
            let grapheme_width: usize = width_of(&pieces[index]);
            assert(named[index as int] == pieces@[index as int]@);
            if column >= start && column.saturating_add(grapheme_width) <= end {
                text.push_str(&pieces[index]);
            }
            column = column.saturating_add(grapheme_width);
            index += 1;
        }
        EditorWindow { text, cursor_column: (cursor - start) as u16 }
    }
}

/// The text of one row.
pub open spec fn row_text(pieces: Seq<Seq<char>>, row: VisualRow) -> Seq<char> {
    concat(pieces.subrange(row.start as int, row.end as int))
}

/// The columns of the first graphemes, saturating.
pub open spec fn width_before(pieces: Seq<Seq<char>>, count: int) -> int
    decreases count,
{
    if count <= 0 {
        0
    } else {
        saturated(width_before(pieces, count - 1) + display_width(pieces[count - 1]))
    }
}

/// Of the first graphemes, those whose columns all lie in `start..end`.
pub open spec fn window_text(pieces: Seq<Seq<char>>, count: int, start: int, end: int) -> Seq<char>
    decreases count,
{
    if count <= 0 {
        Seq::empty()
    } else {
        let before = window_text(pieces, count - 1, start, end);
        let column = width_before(pieces, count - 1);
        if column >= start && saturated(column + display_width(pieces[count - 1])) <= end {
            before + pieces[count - 1]
        } else {
            before
        }
    }
}

/// A window holds the text of an editor around its cursor, as far as fits a width.
pub open spec fn shows_window(editor: EditorState, width: u16, window: EditorWindow) -> bool {
    (window.text@, window.cursor_column) == editor_window(editor, width) && (width > 0
        ==> window.cursor_column < width)
}

/// The text of an editor around its cursor that fits a width, and the column of the cursor in it.
pub open spec fn editor_window(editor: EditorState, width: u16) -> (Seq<char>, u16) {
    if width == 0 {
        (Seq::empty(), 0)
    } else {
        let pieces = editor.pieces();
        let cursor = width_before(pieces, editor.cursor);
        let start = if cursor < width {
            0
        } else {
            cursor - (width - 1)
        };
        (
            window_text(pieces, pieces.len() as int, start, saturated(start + width)),
            (cursor - start) as u16,
        )
    }
}

impl EditorState {
    /// The state after the cursor is scrolled into a view of `height` rows.
    pub open spec fn scrolled(self, width: u16, height: int) -> EditorState {
        let row = cursor_row(rows_of(self.pieces(), width), self.cursor);
        EditorState {
            last_width: Some(width),
            viewport_top: if row < self.viewport_top {
                row
            } else if row >= saturated(self.viewport_top + height) {
                row + 1 - height
            } else {
                self.viewport_top
            },
            ..self
        }
    }

    /// The lines in view.
    pub open spec fn visible_lines(self, width: u16, height: int) -> Seq<Seq<char>> {
        let rows = rows_of(self.pieces(), width);
        let left = rows.len() - self.viewport_top;
        Seq::new(
            (if left < height {
                left
            } else {
                height
            }) as nat,
            |i: int| row_text(self.pieces(), rows[self.viewport_top + i]),
        )
    }

    /// The column of the cursor, at most the last one of the screen.
    pub open spec fn column_within(self, width: u16) -> int {
        let column = cursor_column(
            self.pieces(),
            rows_of(self.pieces(), width),
            self.cursor,
        ) as int;
        if column < width {
            column
        } else {
            width - 1
        }
    }
}

/// The prompt keeps what is typed, with a blank for a tab and one line feed for each line end, and
/// no other control character.
pub proof fn lemma_the_prompt_keeps_plain_text(text: Seq<char>, character: char)
    ensures
        !is_control(character) ==> editor_text(text.push(character)) == editor_text(text).push(
            character,
        ),
        character == '\t' ==> editor_text(text.push(character)) == editor_text(text).push(' '),
        character == '\r' || character == '\n' && (text.len() == 0 || text.last() != '\r')
            ==> editor_text(text.push(character)) == editor_text(text).push('\n'),
        is_control(character) && character != '\t' && character != '\r' && character != '\n'
            ==> editor_text(text.push(character)) == editor_text(text),
        editor_text(text.push('\r').push('\n')) == editor_text(text).push('\n'),
        editor_text(Seq::empty()) == Seq::<char>::empty(),
{
    lemma_line_ends_become_newlines(text, character);
    let unix = with_unix_newlines(text);
    assert(unix.push(character).drop_last() =~= unix);
    assert(unix.push('\n').drop_last() =~= unix);
    assert(editor_characters(unix) + seq![character] =~= editor_characters(unix).push(character));
    assert(editor_characters(unix) + seq!['\n'] =~= editor_characters(unix).push('\n'));
    assert(editor_characters(unix) + seq![' '] =~= editor_characters(unix).push(' '));
    assert(editor_characters(unix) + Seq::empty() =~= editor_characters(unix));
}

/// Enter hands over the whole prompt and empties it. With shift alone it begins a new line at the
/// cursor instead.
pub proof fn lemma_enter_submits_the_prompt()
    ensures
        forall|editor: &mut PromptEditor, event: &Event, outcome: EditorOutcome| #[trigger]
            call_ensures(PromptEditor::handle_event, (editor, event), outcome) && event is Key
                && event->Key_0.code == KeyCode::Enter && event->Key_0.kind
                != KeyEventKind::Release && !event->Key_0.modifiers.control
                && !event->Key_0.modifiers.alt ==> {
                let before = editor.state();
                let after = final(editor).state();
                &&& !event->Key_0.modifiers.shift ==> outcome is Submitted
                    && outcome->Submitted_0@ == before.value && after.value.len() == 0
                    && after.cursor == 0
                &&& event->Key_0.modifiers.shift && !event->Key_0.modifiers.other ==> {
                    &&& outcome is Changed
                    &&& after.value == concat(before.pieces().subrange(0, before.cursor)) + seq![
                        '\n',
                    ] + concat(
                        before.pieces().subrange(before.cursor, before.pieces().len() as int),
                    )
                }
            },
{
    assert forall|editor: &mut PromptEditor, event: &Event, outcome: EditorOutcome| #[trigger]
        call_ensures(PromptEditor::handle_event, (editor, event), outcome) && event is Key
            && event->Key_0.code == KeyCode::Enter && event->Key_0.kind != KeyEventKind::Release
            && !event->Key_0.modifiers.control && !event->Key_0.modifiers.alt implies {
        let before = editor.state();
        let after = final(editor).state();
        &&& !event->Key_0.modifiers.shift ==> outcome is Submitted && outcome->Submitted_0@
            == before.value && after.value.len() == 0 && after.cursor == 0
        &&& event->Key_0.modifiers.shift && !event->Key_0.modifiers.other ==> {
            &&& outcome is Changed
            &&& after.value == concat(before.pieces().subrange(0, before.cursor)) + seq!['\n']
                + concat(before.pieces().subrange(before.cursor, before.pieces().len() as int))
        }
    } by {
        assert(editor_text("\n"@) =~= seq!['\n']) by {
            reveal_strlit("\n");
            lemma_the_prompt_keeps_plain_text(Seq::empty(), '\n');
            assert("\n"@ =~= Seq::empty().push('\n'));
            assert(Seq::<char>::empty().push('\n') =~= seq!['\n']);
        }
    }
}

/// Text that is typed or pasted goes between what stands before and after the cursor; text of
/// which nothing is kept changes nothing. No other part of the text is touched.
pub proof fn lemma_text_goes_in_at_the_cursor()
    ensures
        forall|editor: &mut PromptEditor, event: &Event, outcome: EditorOutcome| #[trigger]
            call_ensures(PromptEditor::handle_event, (editor, event), outcome) && (event is Paste
                || event is Key && event->Key_0.code is Char && event->Key_0.kind
                != KeyEventKind::Release && !event->Key_0.modifiers.control
                && !event->Key_0.modifiers.alt) ==> {
                let before = editor.state();
                let after = final(editor).state();
                let text = if event is Paste {
                    event->Paste_0@
                } else {
                    seq![event->Key_0.code->Char_0]
                };
                let head = concat(before.pieces().subrange(0, before.cursor));
                let tail = concat(
                    before.pieces().subrange(before.cursor, before.pieces().len() as int),
                );
                &&& editor_text(text).len() > 0 ==> outcome is Changed && after.value == head
                    + editor_text(text) + tail
                &&& editor_text(text).len() == 0 ==> outcome is Consumed && after == before
            },
{
}

proof fn lemma_pieces_before_reach(pieces: Seq<Seq<char>>, limit: int)
    requires
        limit <= concat(pieces).len(),
    ensures
        0 <= pieces_before(pieces, limit) <= pieces.len(),
        concat(pieces.subrange(0, pieces_before(pieces, limit))).len() >= limit,
        pieces_before(pieces, limit) > 0 ==> concat(
            pieces.subrange(0, pieces_before(pieces, limit) - 1),
        ).len() < limit,
    decreases pieces.len(),
{
    let count = pieces_before(pieces, limit);
    assert(pieces.subrange(0, 0) =~= Seq::<Seq<char>>::empty());
    if pieces.len() == 0 || limit <= 0 {
    } else {
        let rest = pieces.drop_first();
        lemma_concat_split(pieces, 1);
        assert(pieces.subrange(1, pieces.len() as int) =~= rest);
        assert(pieces.subrange(0, 1) =~= seq![pieces[0]]);
        assert(concat(seq![pieces[0]]) =~= pieces[0]) by {
            reveal_with_fuel(concat, 2);
            assert(seq![pieces[0]].drop_last() =~= Seq::empty());
        }
        lemma_pieces_before_reach(rest, limit - pieces[0].len());
        let front = pieces.subrange(0, count);
        lemma_concat_split(front, 1);
        assert(front.subrange(0, 1) =~= seq![pieces[0]]);
        assert(front.subrange(1, count) =~= rest.subrange(0, count - 1));
        if count > 1 {
            let shorter = pieces.subrange(0, count - 1);
            lemma_concat_split(shorter, 1);
            assert(shorter.subrange(0, 1) =~= seq![pieces[0]]);
            assert(shorter.subrange(1, count - 1) =~= rest.subrange(0, count - 2));
        }
    }
}

/// After an insertion the cursor stands behind it: behind the first whole character of the new
/// text that reaches its end.
pub proof fn lemma_the_cursor_follows_the_insertion(state: EditorState, text: Seq<char>)
    requires
        state.cursor_in_value(),
        editor_text(text).len() > 0,
        concat(state.inserted(text).pieces()) == state.inserted(text).value,
    ensures
        ({
            let after = state.inserted(text);
            let end = concat(state.pieces().subrange(0, state.cursor)).len() + editor_text(
                text,
            ).len();
            &&& 0 < after.cursor <= after.pieces().len()
            &&& concat(after.pieces().subrange(0, after.cursor)).len() >= end
            &&& concat(after.pieces().subrange(0, after.cursor - 1)).len() < end
        }),
{
    let after = state.inserted(text);
    let head = concat(state.pieces().subrange(0, state.cursor)) + editor_text(text);
    lemma_pieces_before_reach(after.pieces(), head.len() as int);
    assert(head.len() > 0);
}

/// Left and right move the cursor by one character, backspace removes the character before it and
/// delete the one after it. At the ends of the text they do nothing.
pub proof fn lemma_single_keys_work_on_one_character()
    ensures
        forall|editor: &mut PromptEditor, event: &Event, outcome: EditorOutcome| #[trigger]
            call_ensures(PromptEditor::handle_event, (editor, event), outcome) && event is Key
                && event->Key_0.kind != KeyEventKind::Release && !event->Key_0.modifiers.control
                && !event->Key_0.modifiers.alt ==> {
                let before = editor.state();
                let after = final(editor).state();
                let pieces = before.pieces();
                let code = event->Key_0.code;
                &&& code == KeyCode::Left && before.cursor > 0 ==> after.value == before.value
                    && after.cursor == before.cursor - 1 && outcome is Changed
                &&& code == KeyCode::Right && before.cursor != pieces.len() ==> after.value
                    == before.value && after.cursor == before.cursor + 1 && outcome is Changed
                &&& code == KeyCode::Backspace && before.cursor > 0 ==> after.value == concat(
                    pieces.subrange(0, before.cursor - 1),
                ) + concat(pieces.subrange(before.cursor, pieces.len() as int))
                    && outcome is Changed && after.cursor <= before.cursor - 1
                &&& code == KeyCode::Delete && before.cursor != pieces.len() ==> after.value
                    == concat(pieces.subrange(0, before.cursor)) + concat(
                    pieces.subrange(before.cursor + 1, pieces.len() as int),
                ) && outcome is Changed && after.cursor <= before.cursor
                &&& (code == KeyCode::Left || code == KeyCode::Backspace) && before.cursor == 0
                    ==> after == before && outcome is Consumed
                &&& (code == KeyCode::Right || code == KeyCode::Delete) && before.cursor
                    == pieces.len() ==> after == before && outcome is Consumed
                &&& code == KeyCode::Esc ==> after == before && outcome is Consumed
            },
        forall|editor: &mut PromptEditor, event: &Event, outcome: EditorOutcome| #[trigger]
            call_ensures(PromptEditor::handle_event, (editor, event), outcome) && (!(event is Key)
                && !(event is Paste) || event is Key && event->Key_0.kind == KeyEventKind::Release)
                ==> final(editor).state() == editor.state() && outcome is Ignored,
{
}

proof fn lemma_line_start(pieces: Seq<Seq<char>>, index: int)
    requires
        0 <= index <= pieces.len(),
    ensures
        0 <= line_start_of(pieces, index) <= index,
        line_start_of(pieces, index) == 0 || pieces[line_start_of(pieces, index) - 1] == "\n"@,
        forall|i: int| line_start_of(pieces, index) <= i < index ==> #[trigger] pieces[i] != "\n"@,
    decreases index,
{
    if index > 0 && pieces[index - 1] != "\n"@ {
        lemma_line_start(pieces, index - 1);
    }
}

proof fn lemma_line_end(pieces: Seq<Seq<char>>, index: int)
    requires
        0 <= index <= pieces.len(),
    ensures
        index <= line_end_of(pieces, index) <= pieces.len(),
        line_end_of(pieces, index) == pieces.len() || pieces[line_end_of(pieces, index)] == "\n"@,
        forall|i: int| index <= i < line_end_of(pieces, index) ==> #[trigger] pieces[i] != "\n"@,
    decreases pieces.len() - index,
{
    if index < pieces.len() && pieces[index] != "\n"@ {
        lemma_line_end(pieces, index + 1);
    }
}

/// Home goes to the start of the line that the cursor is in and end to its end; the text stays.
pub proof fn lemma_home_and_end_stay_in_the_line(state: EditorState, modifiers: KeyModifiers)
    requires
        state.cursor_in_value(),
    ensures
        ({
            let after = state.after_plain_key(KeyCode::Home, modifiers).0;
            &&& after.value == state.value
            &&& 0 <= after.cursor <= state.cursor
            &&& after.cursor == 0 || state.pieces()[after.cursor - 1] == "\n"@
            &&& forall|i: int|
                after.cursor <= i < state.cursor ==> #[trigger] state.pieces()[i] != "\n"@
        }),
        ({
            let after = state.after_plain_key(KeyCode::End, modifiers).0;
            &&& after.value == state.value
            &&& state.cursor <= after.cursor <= state.pieces().len()
            &&& after.cursor == state.pieces().len() || state.pieces()[after.cursor] == "\n"@
            &&& forall|i: int|
                state.cursor <= i < after.cursor ==> #[trigger] state.pieces()[i] != "\n"@
        }),
{
    lemma_line_start(state.pieces(), state.cursor);
    lemma_line_end(state.pieces(), state.cursor);
}

proof fn lemma_skips_pass_one_kind(pieces: Seq<Seq<char>>, index: int, whitespace: bool)
    requires
        0 <= index <= pieces.len(),
    ensures
        0 <= skip_left(pieces, index, whitespace) <= index,
        forall|i: int|
            skip_left(pieces, index, whitespace) <= i < index ==> is_blank(#[trigger] pieces[i])
                == whitespace,
        skip_left(pieces, index, whitespace) > 0 ==> is_blank(
            pieces[skip_left(pieces, index, whitespace) - 1],
        ) != whitespace,
    decreases index,
{
    if index > 0 && is_blank(pieces[index - 1]) == whitespace {
        lemma_skips_pass_one_kind(pieces, index - 1, whitespace);
    }
}

proof fn lemma_skips_right_pass_one_kind(pieces: Seq<Seq<char>>, index: int, whitespace: bool)
    requires
        0 <= index <= pieces.len(),
    ensures
        index <= skip_right(pieces, index, whitespace) <= pieces.len(),
        forall|i: int|
            index <= i < skip_right(pieces, index, whitespace) ==> is_blank(#[trigger] pieces[i])
                == whitespace,
        skip_right(pieces, index, whitespace) < pieces.len() ==> is_blank(
            pieces[skip_right(pieces, index, whitespace)],
        ) != whitespace,
    decreases pieces.len() - index,
{
    if index < pieces.len() && is_blank(pieces[index]) == whitespace {
        lemma_skips_right_pass_one_kind(pieces, index + 1, whitespace);
    }
}

/// The word before the cursor: blanks next to the cursor and before them a run without blanks that
/// a blank or the start of the text ends.
pub open spec fn is_word_before(pieces: Seq<Seq<char>>, start: int, middle: int, cursor: int) -> bool {
    &&& 0 <= start <= middle <= cursor
    &&& forall|i: int| middle <= i < cursor ==> is_blank(#[trigger] pieces[i])
    &&& forall|i: int| start <= i < middle ==> !is_blank(#[trigger] pieces[i])
    &&& start > 0 ==> start < middle && is_blank(pieces[start - 1])
}

/// What lies between the cursor and a place to the right of it: a run of one kind, then a run of
/// the other, each as long as it goes.
pub open spec fn is_run_after(
    pieces: Seq<Seq<char>>,
    cursor: int,
    middle: int,
    end: int,
    blank_first: bool,
) -> bool {
    &&& cursor <= middle <= end <= pieces.len()
    &&& forall|i: int| cursor <= i < middle ==> is_blank(#[trigger] pieces[i]) == blank_first
    &&& forall|i: int| middle <= i < end ==> is_blank(#[trigger] pieces[i]) != blank_first
    &&& end < pieces.len() ==> is_blank(pieces[end]) == blank_first || middle == end
    &&& middle < pieces.len() ==> is_blank(pieces[middle]) != blank_first
}

/// With control, left goes to the start of the word before the cursor and backspace removes up to
/// there; right goes to the start of the next word. The rest of the text stays.
pub proof fn lemma_word_keys_work_on_words(state: EditorState)
    requires
        state.cursor_in_value(),
    ensures
        state.after_word_key(KeyCode::Left) is Some,
        ({
            let after = (state.after_word_key(KeyCode::Left)->0).0;
            after.value == state.value && exists|middle: int| #[trigger]
                is_word_before(state.pieces(), after.cursor, middle, state.cursor)
        }),
        ({
            let after = (state.after_word_key(KeyCode::Right)->0).0;
            &&& after.value == state.value
            &&& state.cursor < state.pieces().len() && is_blank(state.pieces()[state.cursor])
                ==> exists|middle: int|
                middle == after.cursor && #[trigger] is_run_after(
                    state.pieces(),
                    state.cursor,
                    middle,
                    middle,
                    true,
                )
            &&& state.cursor < state.pieces().len() && !is_blank(state.pieces()[state.cursor])
                ==> exists|middle: int| #[trigger]
                is_run_after(state.pieces(), state.cursor, middle, after.cursor, false)
            &&& state.cursor == state.pieces().len() ==> after == state
        }),
        ({
            let after = (state.after_word_key(KeyCode::Backspace)->0).0;
            let start = (state.after_word_key(KeyCode::Left)->0).0.cursor;
            &&& start < state.cursor ==> after.value == concat(state.pieces().subrange(0, start))
                + concat(state.pieces().subrange(state.cursor, state.pieces().len() as int))
            &&& start == state.cursor ==> after == state
        }),
        state.after_word_key(KeyCode::Char('h')) == state.after_word_key(KeyCode::Backspace),
{
    let pieces = state.pieces();
    let middle = skip_left(pieces, state.cursor, true);
    lemma_skips_pass_one_kind(pieces, state.cursor, true);
    lemma_skips_pass_one_kind(pieces, middle, false);
    let start = skip_left(pieces, middle, false);
    let left = (state.after_word_key(KeyCode::Left)->0).0;
    assert(left.cursor == start);
    assert(is_word_before(pieces, left.cursor, middle, state.cursor));
    let right = (state.after_word_key(KeyCode::Right)->0).0;
    assert(right.cursor == state.next_word());
    if state.cursor == pieces.len() {
        lemma_skips_right_pass_one_kind(pieces, state.cursor, false);
        lemma_skips_right_pass_one_kind(pieces, state.cursor, true);
    }
    if state.cursor < pieces.len() {
        let blank = is_blank(pieces[state.cursor]);
        lemma_skips_right_pass_one_kind(pieces, state.cursor, blank);
        let run = skip_right(pieces, state.cursor, blank);
        if blank {
            assert(is_run_after(pieces, state.cursor, run, run, true));
        } else {
            lemma_skips_right_pass_one_kind(pieces, run, true);
            let end = skip_right(pieces, run, true);
            assert(is_run_after(pieces, state.cursor, run, right.cursor, false));
        }
    }
}

/// With control, delete removes the blanks after the cursor, the word behind them and the blanks
/// behind that.
pub proof fn lemma_word_delete_reaches_the_next_word(state: EditorState)
    requires
        state.cursor_in_value(),
    ensures
        state.after_word_key(KeyCode::Delete) is Some,
        exists|first: int, last: int, end: int|
            #![trigger is_run_after(state.pieces(), state.cursor, first, last, true), is_run_after(state.pieces(), first, last, end, false)]
            {
                let after = (state.after_word_key(KeyCode::Delete)->0).0;
                &&& is_run_after(state.pieces(), state.cursor, first, last, true)
                &&& is_run_after(state.pieces(), first, last, end, false)
                &&& end > state.cursor ==> after.value == concat(
                    state.pieces().subrange(0, state.cursor),
                ) + concat(state.pieces().subrange(end, state.pieces().len() as int))
                &&& end == state.cursor ==> after == state
            },
{
    let pieces = state.pieces();
    let first = skip_right(pieces, state.cursor, true);
    lemma_skips_right_pass_one_kind(pieces, state.cursor, true);
    let last = skip_right(pieces, first, false);
    lemma_skips_right_pass_one_kind(pieces, first, false);
    let end = skip_right(pieces, last, true);
    lemma_skips_right_pass_one_kind(pieces, last, true);
    assert(is_run_after(pieces, state.cursor, first, last, true));
    assert(is_run_after(pieces, first, last, end, false));
}

proof fn lemma_grapheme_at_column_fits(
    pieces: Seq<Seq<char>>,
    start: int,
    index: int,
    end: int,
    column: int,
    desired: int,
)
    requires
        0 <= start <= index <= end <= pieces.len(),
        column == total_width(pieces, start, index) || column == usize::MAX,
        column == total_width(pieces, start, index) || desired < usize::MAX,
        0 <= column,
        desired < usize::MAX,
        column <= desired,
    ensures
        ({
            let place = grapheme_at_column(pieces, index, end, column, desired);
            &&& index <= place <= end
            &&& total_width(pieces, start, place) <= desired
            &&& place < end ==> total_width(pieces, start, place + 1) > desired
        }),
    decreases end - index,
{
    if index < end {
        let next = column + display_width(pieces[index]);
        assert(total_width(pieces, start, index + 1) == next);
        if saturated(next) <= desired {
            lemma_grapheme_at_column_fits(pieces, start, index + 1, end, next, desired);
        }
    }
}

/// Up and down go to the row above or below, as far to the right as its characters fit before the
/// column that the cursor came from, and remember that column. The text stays.
pub proof fn lemma_up_and_down_keep_the_column(state: EditorState, modifiers: KeyModifiers)
    requires
        state.cursor_in_value(),
        state.pieces().len() <= usize::MAX,
        state.desired_column() < usize::MAX,
    ensures
        ({
            let rows = state.shown_rows();
            let row = cursor_row(rows, state.cursor);
            let up = state.after_plain_key(KeyCode::Up, modifiers).0;
            let down = state.after_plain_key(KeyCode::Down, modifiers).0;
            &&& up.value == state.value && down.value == state.value
            &&& row == 0 ==> up == state
            &&& row == rows.len() - 1 ==> down == state
            &&& row > 0 ==> {
                &&& rows[row - 1].start <= up.cursor <= rows[row - 1].end
                &&& total_width(state.pieces(), rows[row - 1].start as int, up.cursor)
                    <= state.desired_column()
                &&& up.cursor < rows[row - 1].end ==> total_width(
                    state.pieces(),
                    rows[row - 1].start as int,
                    up.cursor + 1,
                ) > state.desired_column()
                &&& up.desired_column() == state.desired_column()
            }
            &&& row < rows.len() - 1 ==> {
                &&& rows[row + 1].start <= down.cursor <= rows[row + 1].end
                &&& total_width(state.pieces(), rows[row + 1].start as int, down.cursor)
                    <= state.desired_column()
                &&& down.cursor < rows[row + 1].end ==> total_width(
                    state.pieces(),
                    rows[row + 1].start as int,
                    down.cursor + 1,
                ) > state.desired_column()
                &&& down.desired_column() == state.desired_column()
            }
        }),
{
    let rows = state.shown_rows();
    let row = cursor_row(rows, state.cursor);
    let width = match state.last_width {
        Some(width) => width,
        None => u16::MAX,
    };
    lemma_cursor_row_holds_cursor(state.pieces(), width, state.cursor);
    let desired = state.desired_column() as int;
    if row > 0 {
        let target = rows[row - 1];
        lemma_grapheme_at_column_fits(
            state.pieces(),
            target.start as int,
            target.start as int,
            target.end as int,
            0,
            desired,
        );
    }
    if row < rows.len() - 1 {
        let target = rows[row + 1];
        lemma_grapheme_at_column_fits(
            state.pieces(),
            target.start as int,
            target.start as int,
            target.end as int,
            0,
            desired,
        );
    }
}

/// The prompt scrolls only as far as the row of the cursor needs.
pub proof fn lemma_the_prompt_scrolls_to_its_cursor(state: EditorState, width: u16, height: int)
    requires
        state.cursor_in_value(),
        state.pieces().len() <= usize::MAX,
        0 < height,
        0 <= state.viewport_top,
        state.viewport_top + height <= usize::MAX,
    ensures
        ({
            let row = cursor_row(rows_of(state.pieces(), width), state.cursor);
            let after = state.scrolled(width, height);
            &&& after.value == state.value && after.cursor == state.cursor
            &&& after.viewport_top <= row < after.viewport_top + height
            &&& state.viewport_top <= row < state.viewport_top + height ==> after.viewport_top
                == state.viewport_top
            &&& row < state.viewport_top ==> after.viewport_top == row
            &&& row >= state.viewport_top + height ==> row == after.viewport_top + height - 1
            &&& after.last_width == Some(width)
        }),
{
}

/// The cursor is shown at its column, or in the last one where there is no more room.
pub proof fn lemma_the_cursor_stays_on_the_screen(state: EditorState, width: u16)
    requires
        width > 0,
    ensures
        ({
            let column = cursor_column(
                state.pieces(),
                rows_of(state.pieces(), width),
                state.cursor,
            );
            &&& column < width ==> state.column_within(width) == column
            &&& column >= width ==> state.column_within(width) == width - 1
        }),
        ({
            let before = width_before(state.pieces(), state.cursor);
            let (text, column) = editor_window(state, width);
            &&& 0 <= before < width ==> column == before
            &&& before >= width ==> column == width - 1
        }),
{
}

/// A value that is set replaces the text, with the cursor at its end; clearing leaves nothing.
pub proof fn lemma_values_replace_the_text()
    ensures
        forall|editor: &mut PromptEditor, value: &str, done: ()| #[trigger]
            call_ensures(PromptEditor::set_value, (editor, value), done) ==> final(
                editor).state().value == editor_text(value@) && final(editor).state().cursor
                == final(editor).state().pieces().len(),
        forall|editor: &mut PromptEditor, done: ()| #[trigger]
            call_ensures(PromptEditor::clear, (editor,), done) ==> final(
                editor).state().value.len() == 0 && final(editor).state().cursor == 0,
        forall|editor: &PromptEditor, at_end: bool| #[trigger]
            call_ensures(PromptEditor::at_end, (editor,), at_end) ==> (at_end
                <==> editor.state().cursor == editor.state().pieces().len()),
        forall|editor: PromptEditor| #[trigger]
            call_ensures(PromptEditor::new, (), editor) ==> editor.state().value.len() == 0
                && editor.state().cursor == 0,
{
}

} // verus!
