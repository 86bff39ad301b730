//! The transcript of a chat on the screen.

use vstd::prelude::*;
use vstd::utf8::{decode_utf8, valid_utf8};

use super::editor::saturated;
use super::layout::{
    count_rows, line_view, one_line, push_line, rows_of_lines, show, styled_line, Alignment, Edges,
    Element, ElementView, Rect, ScreenElement, Wrapping,
};
use super::markdown::{
    lemma_markdown_lines_are_terminal_safe, lines_are_safe, markdown_events, markdown_lines,
    markdown_text, sanitized_markdown, spans_are_safe,
};
use super::state::{UiState, UiView};
use super::style::{dim_style, plain_style, Color, Line, SpanView, Style};
use super::widgets::{
    lemma_sanitized_line_has_no_control, sanitize_line, sanitized_line, TranscriptScroll,
};
use crate::client::session::{ChatProjection, ProjectionView};
use crate::json::{json_field, json_fields, JsonField};
use crate::session::{ModelCatalogState, SessionSnapshot, TranscriptItem};
use crate::snapshot::{duplicate_bytes, SnapshotView, TranscriptView};
use crate::text::{
    decimal, decimal_text, is_terminal_safe, lemma_decimal_is_terminal_safe, same_text,
    text_from_utf8,
};

verus! {

/// What an entry of the transcript is.
#[derive(Clone, Copy, Debug, PartialEq, Eq, Structural)]
pub enum TranscriptKind {
    Plain,
    User,
    Assistant,
    Activity,
}

/// An entry of the transcript.
#[derive(Debug)]
pub struct TranscriptEntry {
    pub kind: TranscriptKind,
    pub text: Vec<Line>,
    /// A blank row follows.
    pub trailing_space: bool,
}

/// [`TranscriptEntry`] as contracts see it.
pub ghost struct EntryView {
    pub kind: TranscriptKind,
    pub text: Seq<Seq<SpanView>>,
    pub trailing_space: bool,
}

impl DeepView for TranscriptEntry {
    type V = EntryView;

    open spec fn deep_view(&self) -> EntryView {
        EntryView {
            kind: self.kind,
            text: self.text.deep_view(),
            trailing_space: self.trailing_space,
        }
    }
}

/// The rest of a path below a directory, as `std::path::Path::strip_prefix` finds it; `None` where
/// the path is not below it.
pub uninterp spec fn path_below(path: Seq<char>, directory: Seq<char>) -> Option<Seq<char>>;

/// `std::path::Path::strip_prefix`, whose rest is a part of the path and thus text.
#[verifier::external_body]
fn strip_directory(path: &str, directory: &str) -> (rest: Option<String>)
    ensures
        match path_below(path@, directory@) {
            Some(expected) => rest is Some && rest->0@ == expected,
            None => rest is None,
        },
{
    let rest = std::path::Path::new(path).strip_prefix(directory).ok()?;
    rest.to_str().map(str::to_owned)
}

/// A path as the session shows it: relative to its working directory, where it is below that.
pub open spec fn relative_path(path: Seq<char>, cwd: Seq<u8>) -> Seq<char> {
    if valid_utf8(cwd) && path_below(path, decode_utf8(cwd)) is Some {
        path_below(path, decode_utf8(cwd))->0
    } else {
        path
    }
}

/// The lines of a file that were asked for.
pub open spec fn read_range(offset: Option<u64>, limit: Option<u64>) -> Seq<char> {
    match (offset, limit) {
        (Some(offset), Some(limit)) => " · lines "@ + decimal(offset as nat) + "–"@ + decimal(
            offset.saturating_add(limit.saturating_sub(1)) as nat,
        ),
        (Some(offset), None) => " · from line "@ + decimal(offset as nat),
        (None, Some(limit)) => " · first "@ + decimal(limit as nat) + " lines"@,
        (None, None) => Seq::empty(),
    }
}

/// That a file was read.
pub open spec fn read_activity(
    path: Seq<char>,
    offset: Option<u64>,
    limit: Option<u64>,
    cwd: Seq<u8>,
) -> Seq<char> {
    "Read "@ + sanitized_line(relative_path(path, cwd)) + read_range(offset, limit)
}

/// Describes that a file is read.
pub fn format_read_activity(
    path: &str,
    offset: Option<u64>,
    limit: Option<u64>,
    snapshot: &SessionSnapshot,
) -> (text: String)
    ensures
        text@ == read_activity(path@, offset, limit, snapshot.deep_view().summary.cwd),
{
    let mut shown = path.to_owned();
    if let Some(directory) = text_from_utf8(duplicate_bytes(&snapshot.summary.cwd)) {
        if let Some(rest) = strip_directory(path, &directory) {
            shown = rest;
        }
    }
    let shown = sanitize_line(&shown);
    let mut text = "Read ".to_owned();
    text.push_str(&shown);
    let ghost named = text@;
    match (offset, limit) {
        (Some(offset), Some(limit)) => {
            let first = decimal_text(offset);
            let last = decimal_text(offset.saturating_add(limit.saturating_sub(1)));
            text.push_str(" · lines ");
            text.push_str(&first);
            text.push_str("–");
            text.push_str(&last);
        },
        (Some(offset), None) => {
            let first = decimal_text(offset);
            text.push_str(" · from line ");
            text.push_str(&first);
        },
        (None, Some(limit)) => {
            let count = decimal_text(limit);
            text.push_str(" · first ");
            text.push_str(&count);
            text.push_str(" lines");
        },
        (None, None) => {},
    }
    assert(text@ =~= named + read_range(offset, limit));
    text
}

/// An optional number among the arguments of a tool: `None` where it is something else.
pub open spec fn number_argument(
    fields: Map<Seq<char>, JsonField<Seq<char>>>,
    name: Seq<char>,
) -> Option<Option<u64>> {
    if !fields.dom().contains(name) {
        Some(None)
    } else {
        match fields[name] {
            JsonField::Null => Some(None),
            JsonField::Number(number) => Some(Some(number)),
            _ => None,
        }
    }
}

/// The path, offset and limit among the arguments of the tool `read`; `None` where they are not
/// what that tool takes.
pub open spec fn read_arguments(arguments: Seq<char>) -> Option<
    (Seq<char>, Option<u64>, Option<u64>),
> {
    match json_fields(arguments) {
        Some(fields) => if fields.dom().contains("path"@) && fields["path"@] is Text {
            match (number_argument(fields, "offset"@), number_argument(fields, "limit"@)) {
                (Some(offset), Some(limit)) => Some((fields["path"@]->Text_0, offset, limit)),
                _ => None,
            }
        } else {
            None
        },
        None => None,
    }
}

fn parse_number_argument(arguments: &str, name: &str) -> (number: Option<Option<u64>>)
    requires
        json_fields(arguments@) is Some,
    ensures
        number == number_argument(json_fields(arguments@)->0, name@),
{
    match json_field(arguments, name) {
        Some(Some(JsonField::Null)) => Some(None),
        Some(Some(JsonField::Number(number))) => Some(Some(number)),
        Some(None) => Some(None),
        _ => None,
    }
}

/// Reads the arguments of the tool `read`.
pub fn parse_read_arguments(arguments: &str) -> (read: Option<(String, Option<u64>, Option<u64>)>)
    ensures
        match read {
            Some((path, offset, limit)) => read_arguments(arguments@) == Some(
                (path@, offset, limit),
            ),
            None => read_arguments(arguments@) is None,
        },
{
    match json_field(arguments, "path") {
        Some(Some(JsonField::Text(path))) => {
            let offset = parse_number_argument(arguments, "offset");
            let limit = parse_number_argument(arguments, "limit");
            match (offset, limit) {
                (Some(offset), Some(limit)) => Some((path, offset, limit)),
                _ => None,
            }
        },
        _ => None,
    }
}

/// What a started tool shows.
pub open spec fn tool_activity(name: Seq<char>, arguments: Seq<char>, cwd: Seq<u8>) -> Seq<char> {
    if name == "read"@ && read_arguments(arguments) is Some {
        let read = read_arguments(arguments)->0;
        read_activity(read.0, read.1, read.2, cwd)
    } else {
        "Running "@ + sanitized_line(name)
    }
}

/// Describes a started tool.
pub fn format_tool_started(name: &str, arguments: &str, snapshot: &SessionSnapshot) -> (text: String)
    ensures
        text@ == tool_activity(name@, arguments@, snapshot.deep_view().summary.cwd),
{
    if same_text(name, "read") {
        if let Some((path, offset, limit)) = parse_read_arguments(arguments) {
            return format_read_activity(&path, offset, limit, snapshot);
        }
    }
    let name = sanitize_line(name);
    let mut text = "Running ".to_owned();
    text.push_str(&name);
    text
}

/// A message.
pub open spec fn message_entry(message: Seq<char>) -> EntryView {
    EntryView {
        kind: TranscriptKind::Plain,
        text: seq![line_view(sanitized_line(message), plain_style())],
        trailing_space: true,
    }
}

fn plain_entry(message: &str) -> (entry: TranscriptEntry)
    ensures
        entry.deep_view() == message_entry(message@),
{
    let message = sanitize_line(message);
    TranscriptEntry {
        kind: TranscriptKind::Plain,
        text: one_line(styled_line(message, Style::plain())),
        trailing_space: true,
    }
}

/// A text of the user or the assistant.
pub open spec fn markdown_entry(kind: TranscriptKind, source: Seq<char>) -> EntryView {
    EntryView {
        kind,
        text: markdown_lines(markdown_events(sanitized_markdown(source))),
        trailing_space: true,
    }
}

/// The entries of an item; a cancelled run has none.
pub open spec fn item_entries(item: TranscriptView, cwd: Seq<u8>) -> Seq<EntryView> {
    match item {
        TranscriptView::User(text) => seq![markdown_entry(TranscriptKind::User, text)],
        TranscriptView::Assistant(text) => seq![markdown_entry(TranscriptKind::Assistant, text)],
        TranscriptView::ToolStarted { name, arguments, .. } => seq![
            EntryView {
                kind: TranscriptKind::Activity,
                text: seq![line_view(tool_activity(name, arguments, cwd), plain_style())],
                trailing_space: false,
            },
        ],
        TranscriptView::Failed { failure, .. } => seq![message_entry(failure.message)],
        TranscriptView::Cancelled { .. } => Seq::empty(),
    }
}

/// The entries of the items.
pub open spec fn items_entries(items: Seq<TranscriptView>, cwd: Seq<u8>) -> Seq<EntryView>
    decreases items.len(),
{
    if items.len() == 0 {
        Seq::empty()
    } else {
        items_entries(items.drop_last(), cwd) + item_entries(items.last(), cwd)
    }
}

/// The warnings of a session.
pub open spec fn warning_entries(snapshot: SnapshotView) -> Seq<EntryView> {
    (match snapshot.catalog {
        crate::snapshot::CatalogView::Failed(error) => seq![
            message_entry("Model selection is unavailable: "@ + sanitized_line(error) + "."@),
        ],
        _ => Seq::empty(),
    }) + (match snapshot.persistence_warning {
        Some(warning) => seq![
            message_entry("Session persistence warning: "@ + sanitized_line(warning) + "."@),
        ],
        None => Seq::empty(),
    })
}

/// The answer that is being received.
pub open spec fn live_entries(snapshot: SnapshotView) -> Seq<EntryView> {
    match snapshot.active_run {
        Some(run) if run.assistant_text.len() > 0 => seq![
            markdown_entry(TranscriptKind::Assistant, run.assistant_text),
        ],
        _ => Seq::empty(),
    }
}

/// The notices of the client.
pub open spec fn notice_entries(notices: Seq<Seq<char>>) -> Seq<EntryView> {
    notices.map_values(|notice: Seq<char>| message_entry(notice))
}

/// The entries of a chat: warnings, items, the answer that is being received, and notices.
pub open spec fn chat_entries(projection: ProjectionView, ui: UiView) -> Seq<EntryView> {
    (match projection {
        ProjectionView::Draft(_) => Seq::empty(),
        ProjectionView::Session(snapshot) => warning_entries(snapshot) + items_entries(
            snapshot.transcript,
            snapshot.summary.cwd,
        ) + live_entries(snapshot),
    }) + notice_entries(ui.notices)
}

fn push_entry(entries: &mut Vec<TranscriptEntry>, entry: TranscriptEntry)
    ensures
        final(entries).deep_view() == old(entries).deep_view().push(entry.deep_view()),
{
    entries.push(entry);
    assert(entries.deep_view() =~= old(entries).deep_view().push(entry.deep_view()));
}

fn push_warnings(entries: &mut Vec<TranscriptEntry>, snapshot: &SessionSnapshot)
    ensures
        final(entries).deep_view() == old(entries).deep_view() + warning_entries(
            snapshot.deep_view(),
        ),
{
    let ghost before = entries.deep_view();
    if let ModelCatalogState::Failed(error) = &snapshot.catalog {
        let error = sanitize_line(error);
        let mut message = "Model selection is unavailable: ".to_owned();
        message.push_str(&error);
        message.push_str(".");
        push_entry(entries, plain_entry(&message));
    }
    if let Some(warning) = &snapshot.persistence_warning {
        let warning = sanitize_line(warning);
        let mut message = "Session persistence warning: ".to_owned();
        message.push_str(&warning);
        message.push_str(".");
        push_entry(entries, plain_entry(&message));
    }
    assert(entries.deep_view() =~= before + warning_entries(snapshot.deep_view()));
}

fn push_item(entries: &mut Vec<TranscriptEntry>, item: &TranscriptItem, snapshot: &SessionSnapshot)
    ensures
        final(entries).deep_view() == old(entries).deep_view() + item_entries(
            item.deep_view(),
            snapshot.deep_view().summary.cwd,
        ),
{
    let ghost before = entries.deep_view();
    match item {
        TranscriptItem::User(text) => {
            let text = markdown_text(text);
            push_entry(
                entries,
                TranscriptEntry { kind: TranscriptKind::User, text, trailing_space: true },
            );
        },
        TranscriptItem::Assistant(text) => {
            let text = markdown_text(text);
            push_entry(
                entries,
                TranscriptEntry { kind: TranscriptKind::Assistant, text, trailing_space: true },
            );
        },
        TranscriptItem::ToolStarted { name, arguments, .. } => {
            let activity = format_tool_started(name, arguments, snapshot);
            let text = one_line(styled_line(activity, Style::plain()));
            push_entry(
                entries,
                TranscriptEntry { kind: TranscriptKind::Activity, text, trailing_space: false },
            );
        },
        TranscriptItem::Failed { failure, .. } => {
            push_entry(entries, plain_entry(&failure.message));
        },
        TranscriptItem::Cancelled { .. } => {},
    }
    assert(entries.deep_view() =~= before + item_entries(
        item.deep_view(),
        snapshot.deep_view().summary.cwd,
    ));
}

/// Collects the entries of a chat.
pub fn transcript_entries(projection: &ChatProjection, ui: &UiState) -> (entries: Vec<
    TranscriptEntry,
>)
    ensures
        entries.deep_view() == chat_entries(projection.deep_view(), ui.state()),
{
    let mut entries: Vec<TranscriptEntry> = Vec::new();
    assert(entries.deep_view() =~= Seq::empty());
    if let ChatProjection::Session(snapshot) = projection {
        push_warnings(&mut entries, snapshot);
        let ghost warnings = entries.deep_view();
        assert(warnings =~= warning_entries(snapshot.deep_view()));
        let ghost cwd = snapshot.deep_view().summary.cwd;
        let ghost all = snapshot.transcript.deep_view();
        let mut index: usize = 0;
        assert(items_entries(all.take(0), cwd) =~= Seq::empty());
        assert(entries.deep_view() =~= warnings + items_entries(all.take(0), cwd));
        while index < snapshot.transcript.len()
            invariant
                all == snapshot.transcript.deep_view(),
                cwd == snapshot.deep_view().summary.cwd,
                index <= snapshot.transcript@.len(),
                entries.deep_view() == warnings + items_entries(all.take(index as int), cwd),
            decreases snapshot.transcript@.len() - index,
        {
            proof {
                let longer = all.take(index + 1);
                assert(longer.drop_last() =~= all.take(index as int));
                assert(longer.last() == snapshot.transcript@[index as int].deep_view());
            }
            push_item(&mut entries, &snapshot.transcript[index], snapshot);
            index += 1;
            assert(entries.deep_view() =~= warnings + items_entries(all.take(index as int), cwd));
        }
        assert(all.take(index as int) =~= all);
        if let Some(active) = &snapshot.active_run {
            if !active.assistant_text.as_str().is_empty() {
                let text = markdown_text(&active.assistant_text);
                push_entry(
                    &mut entries,
                    TranscriptEntry {
                        kind: TranscriptKind::Assistant,
                        text,
                        trailing_space: true,
                    },
                );
            }
        }
        assert(entries.deep_view() =~= warnings + items_entries(all, cwd) + live_entries(
            snapshot.deep_view(),
        ));
    }
    let ghost before = entries.deep_view();
    let notices = ui.notices();
    let ghost all = notices.deep_view();
    let mut index: usize = 0;
    assert(before + notice_entries(all.take(0)) =~= before);
    while index < notices.len()
        invariant
            all == notices.deep_view(),
            index <= notices@.len(),
            entries.deep_view() == before + notice_entries(all.take(index as int)),
        decreases notices@.len() - index,
    {
        push_entry(&mut entries, plain_entry(&notices[index]));
        index += 1;
        assert(notice_entries(all.take(index as int)) =~= notice_entries(
            all.take(index - 1),
        ).push(message_entry(all[index - 1])));
        assert(entries.deep_view() =~= before + notice_entries(all.take(index as int)));
    }
    assert(all.take(index as int) =~= all);
    entries
}

/// The rows that the text of an entry takes; a rail stands beside that of the user.
pub open spec fn entry_rows(entry: EntryView, width: u16) -> usize {
    rows_of_lines(
        entry.text,
        false,
        if entry.kind == TranscriptKind::User {
            width.saturating_sub(1)
        } else {
            width
        },
    )
}

/// The rows that an entry takes.
pub open spec fn entry_height(entry: EntryView, width: u16) -> int {
    saturated(
        entry_rows(entry, width) + if entry.trailing_space {
            1int
        } else {
            0
        },
    )
}

/// The rows that entries take.
pub open spec fn entries_height(entries: Seq<EntryView>, width: u16) -> int
    decreases entries.len(),
{
    if entries.len() == 0 {
        0
    } else {
        saturated(
            entries_height(entries.drop_last(), width) + entry_height(entries.last(), width),
        )
    }
}

fn entry_line_count(entry: &TranscriptEntry, width: u16) -> (rows: usize)
    ensures
        rows == entry_rows(entry.deep_view(), width),
{
    let content_width: u16 = if entry.kind == TranscriptKind::User {
        width.saturating_sub(1)
    } else {
        width
    };
    count_rows(&entry.text, false, content_width)
}

fn height_of(entry: &TranscriptEntry, width: u16) -> (height: usize)
    ensures
        height == entry_height(entry.deep_view(), width),
{
    let rows: usize = entry_line_count(entry, width);
    let space: usize = if entry.trailing_space { 1 } else { 0 };
    rows.saturating_add(space)
}

/// Finds the rows that entries take.
pub fn total_height(entries: &Vec<TranscriptEntry>, width: u16) -> (height: usize)
    ensures
        height == entries_height(entries.deep_view(), width),
{
    let ghost all = entries.deep_view();
    let mut height: usize = 0;
    let mut index: usize = 0;
    while index < entries.len()
        invariant
            all == entries.deep_view(),
            index <= entries@.len(),
            height == entries_height(all.take(index as int), width),
        decreases entries@.len() - index,
    {
        proof {
            let longer = all.take(index + 1);
            assert(longer.drop_last() =~= all.take(index as int));
            assert(longer.last() == entries@[index as int].deep_view());
        }
        let added: usize = height_of(&entries[index], width);
        height = height.saturating_add(added);
        index += 1;
    }
    assert(all.take(index as int) =~= all);
    height
}

/// The larger of two numbers.
pub open spec fn larger(left: int, right: int) -> int {
    if left < right {
        right
    } else {
        left
    }
}

/// The smaller of two numbers.
pub open spec fn smaller(left: int, right: int) -> int {
    if left < right {
        left
    } else {
        right
    }
}

/// The style in which an entry is shown.
pub open spec fn entry_style(kind: TranscriptKind) -> Style {
    if kind == TranscriptKind::Activity {
        dim_style()
    } else {
        plain_style()
    }
}

/// The style of the rail beside the text of the user.
pub open spec fn rail_style() -> Style {
    Style { fg: Some(Color::Cyan), ..dim_style() }
}

/// The elements of an entry in an area, some of its rows skipped.
pub open spec fn entry_elements(entry: EntryView, area: Rect, skipped: u16) -> Seq<ElementView> {
    let text = Element::Text {
        area: if entry.kind == TranscriptKind::User {
            area.right_of_rail()
        } else {
            area
        },
        lines: entry.text,
        style: entry_style(entry.kind),
        wrapping: Wrapping::Wrap,
        alignment: Alignment::Left,
        skipped,
    };
    if entry.kind == TranscriptKind::User {
        seq![
            Element::Panel {
                area,
                edges: Edges::Left,
                style: rail_style(),
                title: Seq::empty(),
                title_style: plain_style(),
            },
            text,
        ]
    } else {
        seq![text]
    }
}

/// The visible part of an entry that begins at a row of the transcript, where a view of `area`
/// begins at the row `top`.
pub open spec fn entry_slice(entry: EntryView, area: Rect, entry_top: int, top: int) -> Seq<
    ElementView,
> {
    let rows = entry_rows(entry, area.width) as int;
    let first = larger(entry_top, top);
    let end = smaller(
        saturated(entry_top + entry_height(entry, area.width)),
        saturated(top + area.height),
    );
    if first < end && first - entry_top < rows {
        entry_elements(
            entry,
            Rect {
                y: area.y.saturating_add((first - top) as u16),
                height: smaller(end - first, rows - (first - entry_top)) as u16,
                ..area
            },
            ((first - entry_top) % 65536) as u16,
        )
    } else {
        Seq::empty()
    }
}

/// The visible parts of the entries.
pub open spec fn entry_slices(entries: Seq<EntryView>, area: Rect, top: int) -> Seq<ElementView>
    decreases entries.len(),
{
    if entries.len() == 0 {
        Seq::empty()
    } else {
        entry_slices(entries.drop_last(), area, top) + entry_slice(
            entries.last(),
            area,
            entries_height(entries.drop_last(), area.width),
            top,
        )
    }
}

/// The entries are higher than the area, so that a scroll bar is shown.
pub open spec fn needs_scrollbar(entries: Seq<EntryView>, area: Rect) -> bool {
    area.width > 1 && entries_height(entries, area.width) > area.height
}

/// The area of the entries beside the scroll bar.
pub open spec fn entries_area(entries: Seq<EntryView>, area: Rect) -> Rect {
    if needs_scrollbar(entries, area) {
        Rect { width: area.width.saturating_sub(1), ..area }
    } else {
        area
    }
}

impl TranscriptScroll {
    /// The position once the heights of the transcript and of the view are known.
    pub open spec fn measured(self, content_height: int, viewport_height: u16) -> TranscriptScroll {
        let measured = TranscriptScroll {
            content_height: content_height as usize,
            viewport_height,
            ..self
        };
        TranscriptScroll {
            top: if self.auto_follow || self.top > measured.bottom() {
                measured.bottom() as usize
            } else {
                self.top
            },
            ..measured
        }
    }
}

/// The scroll position once the entries are shown.
pub open spec fn entries_scroll(
    entries: Seq<EntryView>,
    area: Rect,
    scroll: TranscriptScroll,
) -> TranscriptScroll {
    if area.is_void() {
        scroll
    } else {
        scroll.measured(
            entries_height(entries, entries_area(entries, area).width),
            area.height,
        )
    }
}

/// The entries in an area.
pub open spec fn entries_scene(
    entries: Seq<EntryView>,
    area: Rect,
    scroll: TranscriptScroll,
) -> Seq<ElementView> {
    if area.is_void() {
        Seq::empty()
    } else {
        let content = entries_area(entries, area);
        let top = entries_scroll(entries, area, scroll).top;
        let slices = entry_slices(entries, content, top as int);
        if needs_scrollbar(entries, area) {
            slices.push(
                Element::Scrollbar {
                    area: Rect { x: area.right_edge().saturating_sub(1), width: 1, ..area },
                    content: entries_height(entries, content.width) as usize,
                    position: top,
                    viewport: area.height as usize,
                },
            )
        } else {
            slices
        }
    }
}

fn duplicate_lines(lines: &Vec<Line>) -> (copy: Vec<Line>)
    ensures
        copy.deep_view() == lines.deep_view(),
{
    let mut copy: Vec<Line> = Vec::new();
    let mut index: usize = 0;
    while index < lines.len()
        invariant
            index <= lines@.len(),
            copy.deep_view() == lines.deep_view().take(index as int),
        decreases lines@.len() - index,
    {
        let spans = &lines[index].spans;
        let mut line = Line { spans: Vec::new() };
        let mut at: usize = 0;
        while at < spans.len()
            invariant
                at <= spans@.len(),
                line.deep_view() == spans.deep_view().take(at as int),
            decreases spans@.len() - at,
        {
            super::layout::push_span(
                &mut line,
                super::style::Span { content: spans[at].content.clone(), style: spans[at].style },
            );
            at += 1;
            assert(line.deep_view() =~= spans.deep_view().take(at as int));
        }
        assert(line.deep_view() =~= lines@[index as int].deep_view());
        push_line(&mut copy, line);
        index += 1;
        assert(copy.deep_view() =~= lines.deep_view().take(index as int));
    }
    assert(copy.deep_view() =~= lines.deep_view());
    copy
}

fn show_entry(scene: &mut Vec<ScreenElement>, entry: &TranscriptEntry, area: Rect, skipped: u16)
    ensures
        final(scene).deep_view() == old(scene).deep_view() + entry_elements(
            entry.deep_view(),
            area,
            skipped,
        ),
{
    let ghost before = scene.deep_view();
    let mut text_area = area;
    let mut style = Style::plain();
    if entry.kind == TranscriptKind::User {
        show(
            scene,
            Element::Panel {
                area,
                edges: Edges::Left,
                style: Style::dimmed().with_fg(Color::Cyan),
                title: String::new(),
                title_style: Style::plain(),
            },
        );
        text_area = area.inner(Edges::Left);
    } else if entry.kind == TranscriptKind::Activity {
        style = Style::dimmed();
    }
    show(
        scene,
        Element::Text {
            area: text_area,
            lines: duplicate_lines(&entry.text),
            style,
            wrapping: Wrapping::Wrap,
            alignment: Alignment::Left,
            skipped,
        },
    );
    assert(scene.deep_view() =~= before + entry_elements(entry.deep_view(), area, skipped));
}

fn render_entry_slice(
    scene: &mut Vec<ScreenElement>,
    area: Rect,
    entry: &TranscriptEntry,
    entry_top: usize,
    top: usize,
)
    ensures
        final(scene).deep_view() == old(scene).deep_view() + entry_slice(
            entry.deep_view(),
            area,
            entry_top as int,
            top as int,
        ),
{
    let ghost before = scene.deep_view();
    let rows: usize = entry_line_count(entry, area.width);
    let height: usize = height_of(entry, area.width);
    let entry_bottom: usize = entry_top.saturating_add(height);
    let bottom: usize = top.saturating_add(area.height as usize);
    let first: usize = if entry_top < top { top } else { entry_top };
    let end: usize = if entry_bottom < bottom { entry_bottom } else { bottom };
    if first < end && first - entry_top < rows {
        let offset: usize = first - entry_top;
        let left: usize = rows - offset;
        let shown: usize = if end - first < left { end - first } else { left };
        assert(first - top < area.height);
        assert(shown <= area.height);
        show_entry(
            scene,
            entry,
            Rect {
                x: area.x,
                y: area.y.saturating_add((first - top) as u16),
                width: area.width,
                height: shown as u16,
            },
            (offset % 65536) as u16,
        );
    } else {
        assert(scene.deep_view() =~= before + Seq::empty());
    }
}

/// Shows the entries in an area, scrolled to the position of the screen.
pub fn render_entries(
    scene: &mut Vec<ScreenElement>,
    area: Rect,
    entries: &Vec<TranscriptEntry>,
    ui: &mut UiState,
)
    ensures
        final(scene).deep_view() == old(scene).deep_view() + entries_scene(
            entries.deep_view(),
            area,
            old(ui).state().scroll,
        ),
        final(ui).state() == (UiView {
            scroll: entries_scroll(entries.deep_view(), area, old(ui).state().scroll),
            ..old(ui).state()
        }),
{
    let ghost before = scene.deep_view();
    let ghost all = entries.deep_view();
    if area.is_empty() {
        assert(scene.deep_view() =~= before + Seq::empty());
        return;
    }
    let mut content = area;
    let mut content_height: usize = total_height(entries, area.width);
    let scrollbar = area.width > 1 && content_height > area.height as usize;
    if scrollbar {
        content.width = area.width.saturating_sub(1);
        content_height = total_height(entries, content.width);
    }
    assert(content == entries_area(all, area));
    ui.scroll_mut().update_metrics(content_height, area.height);
    let top: usize = ui.scroll().top();
    assert(ui.state().scroll == entries_scroll(all, area, old(ui).state().scroll));
    let mut entry_top: usize = 0;
    let mut index: usize = 0;
    assert(before + entry_slices(all.take(0), content, top as int) =~= before);
    while index < entries.len()
        invariant
            all == entries.deep_view(),
            index <= entries@.len(),
            entry_top == entries_height(all.take(index as int), content.width),
            scene.deep_view() == before + entry_slices(all.take(index as int), content, top as int),
        decreases entries@.len() - index,
    {
        proof {
            let longer = all.take(index + 1);
            assert(longer.drop_last() =~= all.take(index as int));
            assert(longer.last() == entries@[index as int].deep_view());
        }
        render_entry_slice(scene, content, &entries[index], entry_top, top);
        let height: usize = height_of(&entries[index], content.width);
        entry_top = entry_top.saturating_add(height);
        index += 1;
        assert(scene.deep_view() =~= before + entry_slices(
            all.take(index as int),
            content,
            top as int,
        ));
    }
    assert(all.take(index as int) =~= all);
    if scrollbar {
        show(
            scene,
            Element::Scrollbar {
                area: Rect {
                    x: area.right().saturating_sub(1),
                    y: area.y,
                    width: 1,
                    height: area.height,
                },
                content: content_height,
                position: top,
                viewport: area.height as usize,
            },
        );
    }
    assert(scene.deep_view() =~= before + entries_scene(all, area, old(ui).state().scroll));
}

/// What is shown of an entry lies in the view, below what is above it, and is not empty.
pub proof fn lemma_slices_are_in_view(entry: EntryView, area: Rect, entry_top: int, top: int)
    requires
        0 <= entry_top <= usize::MAX,
        0 <= top <= usize::MAX,
        area.y + area.height <= u16::MAX,
    ensures
        forall|i: int|
            0 <= i < entry_slice(entry, area, entry_top, top).len() ==> match (#[trigger]
            entry_slice(entry, area, entry_top, top)[i]) {
                Element::Text { area: shown, .. } => area.y <= shown.y && shown.height > 0
                    && shown.y + shown.height <= area.bottom_edge(),
                Element::Panel { area: shown, .. } => area.y <= shown.y && shown.height > 0
                    && shown.y + shown.height <= area.bottom_edge(),
                _ => false,
            },
{
}

proof fn lemma_line_is_safe(text: Seq<char>, style: Style)
    requires
        is_terminal_safe(text),
    ensures
        spans_are_safe(line_view(text, style)),
{
}

proof fn lemma_message_is_safe(message: Seq<char>)
    ensures
        lines_are_safe(message_entry(message).text),
{
    lemma_sanitized_line_has_no_control(message);
    lemma_line_is_safe(sanitized_line(message), plain_style());
}

proof fn lemma_range_is_safe(offset: Option<u64>, limit: Option<u64>)
    ensures
        is_terminal_safe(read_range(offset, limit)),
{
    reveal_strlit(" · lines ");
    reveal_strlit("–");
    reveal_strlit(" · from line ");
    reveal_strlit(" · first ");
    reveal_strlit(" lines");
    if let Some(offset) = offset {
        lemma_decimal_is_terminal_safe(offset as nat);
        if let Some(limit) = limit {
            lemma_decimal_is_terminal_safe(offset.saturating_add(limit.saturating_sub(1)) as nat);
        }
    }
    if let Some(limit) = limit {
        lemma_decimal_is_terminal_safe(limit as nat);
    }
}

proof fn lemma_activity_is_safe(name: Seq<char>, arguments: Seq<char>, cwd: Seq<u8>)
    ensures
        is_terminal_safe(tool_activity(name, arguments, cwd)),
{
    reveal_strlit("Read ");
    reveal_strlit("Running ");
    lemma_sanitized_line_has_no_control(name);
    if read_arguments(arguments) is Some {
        let read = read_arguments(arguments)->0;
        lemma_sanitized_line_has_no_control(relative_path(read.0, cwd));
        lemma_range_is_safe(read.1, read.2);
    }
}

proof fn lemma_item_is_safe(item: TranscriptView, cwd: Seq<u8>)
    ensures
        forall|i: int|
            0 <= i < item_entries(item, cwd).len() ==> lines_are_safe(
                (#[trigger] item_entries(item, cwd)[i]).text,
            ),
{
    match item {
        TranscriptView::User(text) => {
            lemma_markdown_lines_are_terminal_safe(markdown_events(sanitized_markdown(text)));
        },
        TranscriptView::Assistant(text) => {
            lemma_markdown_lines_are_terminal_safe(markdown_events(sanitized_markdown(text)));
        },
        TranscriptView::ToolStarted { name, arguments, .. } => {
            lemma_activity_is_safe(name, arguments, cwd);
            lemma_line_is_safe(tool_activity(name, arguments, cwd), plain_style());
        },
        TranscriptView::Failed { failure, .. } => lemma_message_is_safe(failure.message),
        TranscriptView::Cancelled { .. } => {},
    }
}

proof fn lemma_items_are_safe(items: Seq<TranscriptView>, cwd: Seq<u8>)
    ensures
        forall|i: int|
            0 <= i < items_entries(items, cwd).len() ==> lines_are_safe(
                (#[trigger] items_entries(items, cwd)[i]).text,
            ),
    decreases items.len(),
{
    if items.len() > 0 {
        let before = items_entries(items.drop_last(), cwd);
        let last = item_entries(items.last(), cwd);
        lemma_items_are_safe(items.drop_last(), cwd);
        lemma_item_is_safe(items.last(), cwd);
        assert forall|i: int| 0 <= i < items_entries(items, cwd).len() implies lines_are_safe(
            (#[trigger] items_entries(items, cwd)[i]).text,
        ) by {
            if i < before.len() {
                assert(items_entries(items, cwd)[i] == before[i]);
            } else {
                assert(items_entries(items, cwd)[i] == last[i - before.len()]);
            }
        }
    }
}

/// Whatever a session, a tool or a notice says, the entries that show it cannot control the
/// terminal.
pub proof fn lemma_entries_cannot_control_the_terminal(projection: ProjectionView, ui: UiView)
    ensures
        forall|i: int|
            0 <= i < chat_entries(projection, ui).len() ==> lines_are_safe(
                (#[trigger] chat_entries(projection, ui)[i]).text,
            ),
{
    let notices = notice_entries(ui.notices);
    let entries = chat_entries(projection, ui);
    let shown = entries.len() - notices.len();
    assert forall|i: int| 0 <= i < entries.len() implies lines_are_safe(
        (#[trigger] entries[i]).text,
    ) by {
        if i >= shown {
            assert(entries[i] == notices[i - shown]);
            assert(notices[i - shown] == message_entry(ui.notices[i - shown]));
            lemma_message_is_safe(ui.notices[i - shown]);
        } else if let ProjectionView::Session(snapshot) = projection {
            let warnings = warning_entries(snapshot);
            let items = items_entries(snapshot.transcript, snapshot.summary.cwd);
            let live = live_entries(snapshot);
            lemma_items_are_safe(snapshot.transcript, snapshot.summary.cwd);
            assert(entries[i] == (warnings + items + live)[i]);
            if i < warnings.len() {
                assert(entries[i] == warnings[i]);
                if let crate::snapshot::CatalogView::Failed(error) = snapshot.catalog {
                    lemma_message_is_safe(
                        "Model selection is unavailable: "@ + sanitized_line(error) + "."@,
                    );
                }
                if let Some(warning) = snapshot.persistence_warning {
                    lemma_message_is_safe(
                        "Session persistence warning: "@ + sanitized_line(warning) + "."@,
                    );
                }
            } else if i < warnings.len() + items.len() {
                assert(entries[i] == items[i - warnings.len()]);
            } else {
                assert(entries[i] == live[i - warnings.len() - items.len()]);
                lemma_markdown_lines_are_terminal_safe(
                    markdown_events(sanitized_markdown(snapshot.active_run->0.assistant_text)),
                );
            }
        }
    }
}

/// The transcript shows its items in order: what the user and the model said, a line for each tool
/// and for each failure, and nothing for a cancelled run.
pub proof fn lemma_items_are_shown_in_order(
    items: Seq<TranscriptView>,
    item: TranscriptView,
    cwd: Seq<u8>,
)
    ensures
        ({
            let before = items_entries(items, cwd);
            let after = items_entries(items.push(item), cwd);
            &&& item is Cancelled ==> after == before
            &&& !(item is Cancelled) ==> after.len() == before.len() + 1 && after.drop_last()
                == before
            &&& item is User ==> after.last().kind == TranscriptKind::User && after.last().text
                == markdown_lines(markdown_events(sanitized_markdown(item->User_0)))
                && after.last().trailing_space
            &&& item is Assistant ==> after.last().kind == TranscriptKind::Assistant
                && after.last().text == markdown_lines(
                markdown_events(sanitized_markdown(item->Assistant_0)),
            ) && after.last().trailing_space
            &&& item is ToolStarted ==> after.last().kind == TranscriptKind::Activity
                && !after.last().trailing_space && after.last().text == seq![
                line_view(
                    tool_activity(item->ToolStarted_name, item->ToolStarted_arguments, cwd),
                    plain_style(),
                ),
            ]
            &&& item is Failed ==> after.last().kind == TranscriptKind::Plain && after.last().text
                == seq![line_view(sanitized_line(item->Failed_failure.message), plain_style())]
        }),
        items_entries(Seq::empty(), cwd).len() == 0,
{
    let before = items_entries(items, cwd);
    let shown = item_entries(item, cwd);
    assert(items.push(item).drop_last() =~= items);
    if item is Cancelled {
        assert(before + shown =~= before);
    } else {
        assert((before + shown).drop_last() =~= before);
    }
}

/// Warnings come before the items, the answer that is being received and the notices after them;
/// a draft shows only its notices.
pub proof fn lemma_notices_come_last(projection: ProjectionView, ui: UiView, index: int)
    requires
        0 <= index < ui.notices.len(),
    ensures
        ({
            let entries = chat_entries(projection, ui);
            let first = entries.len() - ui.notices.len();
            &&& first >= 0
            &&& entries[first + index].text == seq![
                line_view(sanitized_line(ui.notices[index]), plain_style()),
            ]
            &&& projection is Draft ==> first == 0
            &&& projection is Session ==> {
                let snapshot = projection->Session_0;
                let items = items_entries(snapshot.transcript, snapshot.summary.cwd);
                let warnings = (if snapshot.catalog is Failed {
                    1int
                } else {
                    0
                }) + (if snapshot.persistence_warning is Some {
                    1int
                } else {
                    0
                });
                let live = snapshot.active_run is Some
                    && snapshot.active_run->0.assistant_text.len() > 0;
                &&& first == warnings + items.len() + (if live {
                    1int
                } else {
                    0
                })
                &&& entries.subrange(warnings, warnings + items.len()) == items
                &&& live ==> entries[first - 1].kind == TranscriptKind::Assistant && entries[first
                    - 1].text == markdown_lines(
                    markdown_events(sanitized_markdown(snapshot.active_run->0.assistant_text)),
                )
            }
        }),
{
    let entries = chat_entries(projection, ui);
    if projection is Session {
        let snapshot = projection->Session_0;
        let items = items_entries(snapshot.transcript, snapshot.summary.cwd);
        let warnings = warning_entries(snapshot);
        assert(entries.subrange(warnings.len() as int, warnings.len() as int + items.len())
            =~= items);
    }
}

/// A read is told with the file, as the working directory sees it, and the lines that it covers:
/// from the offset on, as many as the limit says.
pub proof fn lemma_reads_tell_their_lines(offset: u64, limit: u64)
    requires
        0 < limit,
        offset + limit <= u64::MAX,
    ensures
        read_range(Some(offset), Some(limit)) == " · lines "@ + decimal(offset as nat) + "–"@
            + decimal((offset + limit - 1) as nat),
        read_range(Some(offset), None) == " · from line "@ + decimal(offset as nat),
        read_range(None, Some(limit)) == " · first "@ + decimal(limit as nat) + " lines"@,
        read_range(None, None).len() == 0,
{
}

/// A tool is told by its name, but a read whose arguments can be read by its file.
pub proof fn lemma_tools_are_told_by_their_name(
    name: Seq<char>,
    arguments: Seq<char>,
    cwd: Seq<u8>,
)
    ensures
        name != "read"@ || read_arguments(arguments) is None ==> tool_activity(name, arguments, cwd)
            == "Running "@ + sanitized_line(name),
        name == "read"@ && read_arguments(arguments) is Some ==> ("Read "@ + sanitized_line(
            relative_path((read_arguments(arguments)->0).0, cwd),
        )).is_prefix_of(tool_activity(name, arguments, cwd)),
        json_fields(arguments) is None ==> read_arguments(arguments) is None,
        read_arguments(arguments) is Some ==> json_fields(arguments)->0.dom().contains("path"@)
            && json_fields(arguments)->0["path"@] == JsonField::Text(
            (read_arguments(arguments)->0).0,
        ),
{
    if name == "read"@ && read_arguments(arguments) is Some {
        let read = read_arguments(arguments)->0;
        let start = "Read "@ + sanitized_line(relative_path(read.0, cwd));
        let text = tool_activity(name, arguments, cwd);
        assert(text == start + read_range(read.1, read.2));
        assert(text.take(start.len() as int) =~= start);
    }
}

/// Entries take the rows of their text, and one more where a blank row follows; they stand one
/// below the other.
pub proof fn lemma_entries_stand_below_each_other(
    entries: Seq<EntryView>,
    entry: EntryView,
    width: u16,
)
    requires
        entries_height(entries, width) + entry_rows(entry, width) + 1 <= usize::MAX,
    ensures
        entry.trailing_space ==> entries_height(entries.push(entry), width) == entries_height(
            entries,
            width,
        ) + entry_rows(entry, width) + 1,
        !entry.trailing_space ==> entries_height(entries.push(entry), width) == entries_height(
            entries,
            width,
        ) + entry_rows(entry, width),
        entries_height(Seq::empty(), width) == 0,
{
    assert(entries.push(entry).drop_last() =~= entries);
    lemma_heights_are_counts(entries, width);
}

proof fn lemma_heights_are_counts(entries: Seq<EntryView>, width: u16)
    ensures
        0 <= entries_height(entries, width) <= usize::MAX,
    decreases entries.len(),
{
    if entries.len() > 0 {
        lemma_heights_are_counts(entries.drop_last(), width);
    }
}

/// An entry is shown from the row of the view where it begins, or with the rows above the view
/// skipped, and not at all where none of its text is in the view.
pub proof fn lemma_entries_are_shown_where_they_are(
    entry: EntryView,
    area: Rect,
    entry_top: int,
    top: int,
)
    requires
        0 <= entry_top,
        0 <= top,
        entry_top + entry_rows(entry, area.width) + 1 <= usize::MAX,
        top + area.height <= usize::MAX,
        entry_rows(entry, area.width) < 65536,
        area.y + area.height <= u16::MAX,
    ensures
        ({
            let shown = entry_slice(entry, area, entry_top, top);
            let rows = entry_rows(entry, area.width) as int;
            let text = shown.last();
            &&& shown.len() > 0 <==> entry_top < top + area.height && top < entry_top + rows
                && area.height > 0 && rows > 0
            &&& shown.len() > 0 ==> {
                &&& text is Text
                &&& text->Text_lines == entry.text
                &&& top <= entry_top ==> text->Text_skipped == 0 && text->Text_area.y == area.y + (
                entry_top - top)
                &&& top > entry_top ==> text->Text_skipped == top - entry_top && text->Text_area.y
                    == area.y
                &&& entry.kind == TranscriptKind::User <==> shown.len() == 2
            }
        }),
{
}

/// Tools are shown dimmed, everything else plainly; what the user said stands beside a rail.
pub proof fn lemma_entries_are_shown_by_their_kind(entry: EntryView, area: Rect, skipped: u16)
    ensures
        ({
            let shown = entry_elements(entry, area, skipped);
            let text = shown.last();
            &&& text is Text && text->Text_lines == entry.text && text->Text_skipped == skipped
            &&& entry.kind == TranscriptKind::Activity ==> text->Text_style == dim_style()
            &&& entry.kind != TranscriptKind::Activity ==> text->Text_style == plain_style()
            &&& entry.kind == TranscriptKind::User ==> shown.len() == 2 && shown[0] is Panel
                && shown[0]->Panel_area == area
            &&& entry.kind != TranscriptKind::User ==> shown.len() == 1 && text->Text_area == area
        }),
{
}

} // verus!
