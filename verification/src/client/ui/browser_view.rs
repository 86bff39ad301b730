//! The session browser on the screen.

use vstd::prelude::*;

use super::editor::{editor_window, EditorState};
use super::help::{cyan_bold, key_style};
use super::layout::{
    are_parts, count_rows, greatest, larger16, least, line_view, one_line, push_line, push_span,
    rows_of_lines, show, smaller16, span, span_view, split_area, styled_line, text_at,
    text_element, Constraint, Edges, Element, ElementView, Rect, ScreenElement, Wrapping,
};
use super::session_browser::{
    BrowserLayer, BrowserMode, BrowserRow, BrowserView, LayerView, RowView, SessionBrowserState,
};
use super::style::{dim_style, plain_style, selected_style, Color, Line, SpanView, Style};
use super::widgets::{sanitize_line, sanitized_line};
use crate::instant::{format_minute, minute_text};
use crate::session::{session_id_text, SessionId, SessionSummary, Timestamp};
use crate::snapshot::SummaryView;
use crate::text::{decimal, decimal_text};

verus! {

/// An instant to the minute; nothing where there is no such date.
pub open spec fn shown_minute(instant: Timestamp) -> Seq<char> {
    match minute_text(instant.seconds, instant.nanoseconds) {
        Some(text) => text,
        None => Seq::empty(),
    }
}

/// The row of a session.
pub open spec fn session_text(summary: SummaryView, current: Option<SessionId>) -> Seq<char> {
    (if current == Some(summary.id) {
        "[current] "@
    } else {
        Seq::empty()
    }) + (if summary.busy {
        "[running] "@
    } else {
        Seq::empty()
    }) + "jobs:"@ + decimal(summary.running_jobs as nat) + " clients:"@ + decimal(
        summary.attached_clients as nat,
    ) + " "@ + sanitized_line(summary.title) + " · "@ + session_id_text(summary.id) + " · "@
        + shown_minute(summary.last_activity)
}

/// Composes the row of a session.
pub fn session_row(summary: &SessionSummary, current: Option<SessionId>) -> (text: String)
    ensures
        text@ == session_text(summary.deep_view(), current),
{
    let mut text = String::new();
    let is_current = match current {
        Some(id) => id == summary.id,
        None => false,
    };
    if is_current {
        text.push_str("[current] ");
    }
    assert(text@ =~= if current == Some(summary.id) {
        "[current] "@
    } else {
        Seq::empty()
    });
    if summary.busy {
        text.push_str("[running] ");
    }
    let jobs = decimal_text(summary.running_jobs as u64);
    let clients = decimal_text(summary.attached_clients as u64);
    let title = sanitize_line(&summary.title.value);
    let id = summary.id.text();
    let activity = match format_minute(
        summary.last_activity.seconds,
        summary.last_activity.nanoseconds,
    ) {
        Some(text) => text,
        None => String::new(),
    };
    assert(activity@ =~= shown_minute(summary.last_activity));
    text.push_str("jobs:");
    text.push_str(&jobs);
    text.push_str(" clients:");
    text.push_str(&clients);
    text.push_str(" ");
    text.push_str(&title);
    text.push_str(" · ");
    text.push_str(&id);
    text.push_str(" · ");
    text.push_str(&activity);
    assert(text@ =~= session_text(summary.deep_view(), current));
    text
}

/// The question before a session is deleted.
pub open spec fn confirmation_lines(id: SessionId, title: Seq<char>) -> Seq<Seq<SpanView>> {
    seq![
        line_view(
            "Delete "@ + sanitized_line(title) + " ("@ + session_id_text(id) + ")?"@,
            plain_style(),
        ),
        line_view(Seq::empty(), plain_style()),
        line_view("This is permanent."@, plain_style()),
        line_view(
            "The active model run will be cancelled; background jobs terminated."@,
            plain_style(),
        ),
        line_view("All attached clients will be disconnected."@, plain_style()),
    ]
}

/// Composes the question before a session is deleted.
pub fn delete_confirmation_text(id: SessionId, title: &str) -> (lines: Vec<Line>)
    ensures
        lines.deep_view() == confirmation_lines(id, title@),
{
    let title_text = sanitize_line(title);
    let id_text = id.text();
    let mut question = "Delete ".to_owned();
    question.push_str(&title_text);
    question.push_str(" (");
    question.push_str(&id_text);
    question.push_str(")?");
    let mut lines: Vec<Line> = Vec::new();
    push_line(&mut lines, styled_line(question, Style::plain()));
    push_line(&mut lines, styled_line(String::new(), Style::plain()));
    push_line(&mut lines, styled_line("This is permanent.".to_owned(), Style::plain()));
    push_line(
        &mut lines,
        styled_line(
            "The active model run will be cancelled; background jobs terminated.".to_owned(),
            Style::plain(),
        ),
    );
    push_line(
        &mut lines,
        styled_line("All attached clients will be disconnected.".to_owned(), Style::plain()),
    );
    assert(lines.deep_view() =~= confirmation_lines(id, title@));
    lines
}

/// The area that the browser may take.
pub open spec fn browser_space(area: Rect) -> Rect {
    if area.width > 2 && area.height > 2 {
        Rect {
            x: area.x.saturating_add(1),
            y: area.y.saturating_add(1),
            width: area.width.saturating_sub(2),
            height: area.height.saturating_sub(2),
        }
    } else {
        area
    }
}

/// The width of the browser.
pub open spec fn browser_width(area: Rect) -> u16 {
    larger16(smaller16(browser_space(area).width, 88), 1)
}

/// The number of messages that the browser shows.
pub open spec fn message_rows(browser: BrowserView) -> u16 {
    ((if browser.action_error is Some {
        1int
    } else {
        0
    }) + (if browser.refresh_warning is Some {
        1int
    } else {
        0
    })) as u16
}

/// The rows that the dialog of the browser takes where it can.
pub open spec fn body_rows(browser: BrowserView, width: u16) -> u16 {
    match browser.layer {
        LayerView::List => if browser.visible.len() < 4 {
            4
        } else if browser.visible.len() > 16 {
            16
        } else {
            browser.visible.len() as u16
        },
        LayerView::Rename { .. } => 5,
        LayerView::ConfirmDelete { session_id, title } => {
            let rows = rows_of_lines(
                confirmation_lines(session_id, title),
                false,
                larger16(width.saturating_sub(4), 1),
            );
            (if rows > u16::MAX {
                u16::MAX
            } else {
                rows as u16
            }).saturating_add(2)
        },
    }
}

/// The area of the browser.
pub open spec fn browser_area(area: Rect, browser: BrowserView) -> Rect {
    let available = browser_space(area);
    let width = browser_width(area);
    available.middle(
        width,
        larger16(
            smaller16(
                body_rows(browser, width).saturating_add(5).saturating_add(message_rows(browser)),
                available.height,
            ),
            1,
        ),
    )
}

/// Finds the area of the browser.
pub fn browser_rect(area: Rect, browser: &SessionBrowserState) -> (frame: Rect)
    ensures
        frame == browser_area(area, browser.state()),
{
    let available = if area.width > 2 && area.height > 2 {
        Rect {
            x: area.x.saturating_add(1),
            y: area.y.saturating_add(1),
            width: area.width.saturating_sub(2),
            height: area.height.saturating_sub(2),
        }
    } else {
        area
    };
    let width: u16 = greatest(least(available.width, 88), 1);
    let body: u16 = match browser.layer() {
        BrowserLayer::List => {
            let rows: usize = browser.visible_rows().len();
            if rows < 4 {
                4
            } else if rows > 16 {
                16
            } else {
                rows as u16
            }
        },
        BrowserLayer::Rename { .. } => 5,
        BrowserLayer::ConfirmDelete { session_id, title } => {
            let lines = delete_confirmation_text(*session_id, &title.value);
            let rows: usize = count_rows(&lines, false, greatest(width.saturating_sub(4), 1));
            let rows: u16 = if rows > u16::MAX as usize { u16::MAX } else { rows as u16 };
            rows.saturating_add(2)
        },
    };
    let height: u16 = greatest(
        least(body.saturating_add(5).saturating_add(browser.message_count()), available.height),
        1,
    );
    available.centered(width, height)
}

/// The browser lies within the screen.
pub proof fn lemma_browser_is_on_the_screen(area: Rect, browser: BrowserView)
    requires
        !area.is_void(),
        area.x + area.width <= u16::MAX,
        area.y + area.height <= u16::MAX,
    ensures
        area.x <= browser_area(area, browser).x,
        browser_area(area, browser).right_edge() <= area.right_edge(),
        area.y <= browser_area(area, browser).y,
        browser_area(area, browser).bottom_edge() <= area.bottom_edge(),
{
}

/// The column of the cursor behind a prefix, no further than the area goes.
pub open spec fn cursor_x(area: Rect, prefix: u16, column: u16) -> u16 {
    smaller16(
        area.x.saturating_add(prefix).saturating_add(column),
        area.right_edge().saturating_sub(1),
    )
}

/// A prefix with the text of an editor.
pub open spec fn prefixed_line(prefix: Seq<char>, text: Seq<char>) -> Seq<SpanView> {
    seq![span_view(prefix, plain_style()), span_view(text, plain_style())]
}

fn window_line(prefix: &str, text: String) -> (line: Line)
    ensures
        line.deep_view() == prefixed_line(prefix@, text@),
{
    let mut line = Line { spans: Vec::new() };
    push_span(&mut line, span(prefix.to_owned(), Style::plain()));
    push_span(&mut line, span(text, Style::plain()));
    assert(line.deep_view() =~= prefixed_line(prefix@, text@));
    line
}

/// The filter of the browser.
pub open spec fn query_scene(area: Rect, browser: BrowserView) -> Seq<ElementView> {
    if area.is_void() {
        Seq::empty()
    } else {
        let window = editor_window(browser.query, area.width.saturating_sub(8));
        let text = text_element(
            area,
            seq![prefixed_line("Filter: "@, window.0)],
            plain_style(),
            Wrapping::Cut,
        );
        if browser.layer is List {
            seq![text, Element::Cursor { x: cursor_x(area, 8, window.1), y: area.y }]
        } else {
            seq![text]
        }
    }
}

fn show_query(scene: &mut Vec<ScreenElement>, area: Rect, browser: &mut SessionBrowserState)
    ensures
        final(scene).deep_view() == old(scene).deep_view() + query_scene(
            area,
            old(browser).state(),
        ),
        final(browser).state() == old(browser).state(),
{
    let ghost before = scene.deep_view();
    if area.is_empty() {
        assert(scene.deep_view() =~= before + Seq::empty());
        return;
    }
    let window = browser.query_window(area.width.saturating_sub(8));
    let lines = one_line(window_line("Filter: ", window.text));
    show(scene, text_at(area, lines, Style::plain(), Wrapping::Cut));
    let listing = match browser.layer() {
        BrowserLayer::List => true,
        _ => false,
    };
    if listing {
        let x: u16 = least(
            area.x.saturating_add(8).saturating_add(window.cursor_column),
            area.right().saturating_sub(1),
        );
        show(scene, Element::Cursor { x, y: area.y });
    }
    assert(scene.deep_view() =~= before + query_scene(area, old(browser).state()));
}

/// A row of the list.
pub open spec fn row_line(row: RowView, current: Option<SessionId>) -> Seq<SpanView> {
    match row {
        RowView::Group { cwd_display, .. } => line_view(sanitized_line(cwd_display), dim_style()),
        RowView::Session(summary) => line_view(session_text(summary, current), plain_style()),
    }
}

/// The rows of the list.
pub open spec fn list_lines(rows: Seq<RowView>, current: Option<SessionId>) -> Seq<Seq<SpanView>> {
    if rows.len() == 0 {
        seq![line_view("No sessions match the filter."@, plain_style())]
    } else {
        rows.map_values(|row: RowView| row_line(row, current))
    }
}

fn browser_lines(rows: &Vec<BrowserRow>, current: Option<SessionId>) -> (lines: Vec<Line>)
    ensures
        lines.deep_view() == list_lines(rows.deep_view(), current),
{
    let mut lines: Vec<Line> = Vec::new();
    if rows.len() == 0 {
        push_line(
            &mut lines,
            styled_line("No sessions match the filter.".to_owned(), Style::plain()),
        );
        assert(lines.deep_view() =~= list_lines(rows.deep_view(), current));
        return lines;
    }
    let ghost all = rows.deep_view();
    let ghost shown = all.map_values(|row: RowView| row_line(row, current));
    let mut index: usize = 0;
    while index < rows.len()
        invariant
            index <= rows@.len(),
            all == rows.deep_view(),
            shown == all.map_values(|row: RowView| row_line(row, current)),
            lines.deep_view() == shown.take(index as int),
        decreases rows@.len() - index,
    {
        assert(all[index as int] == rows@[index as int].deep_view());
        let line = match &rows[index] {
            BrowserRow::Group { cwd_display, .. } => {
                let directory = sanitize_line(cwd_display);
                styled_line(directory, Style::dimmed())
            },
            BrowserRow::Session(summary) => {
                let text = session_row(summary, current);
                styled_line(text, Style::plain())
            },
        };
        push_line(&mut lines, line);
        index += 1;
        assert(lines.deep_view() =~= shown.take(index as int));
    }
    assert(lines.deep_view() =~= shown);
    lines
}

impl BrowserView {
    /// The browser once its list is shown with some rows.
    pub open spec fn with_viewport(self, rows: int) -> BrowserView {
        (BrowserView {
            viewport_rows: if rows == 0 {
                1
            } else {
                rows
            },
            ..self
        }).scrolled()
    }

    /// The browser once it is shown: its list has the height that is left for it.
    pub open spec fn shown_in(self, area: Rect, parts: Seq<Rect>) -> BrowserView {
        if self.open && self.layer is List && !browser_area(area, self).within_border().is_void() {
            self.with_viewport(parts[3].height as int)
        } else {
            self
        }
    }
}

/// The list of sessions.
pub open spec fn list_scene(
    area: Rect,
    browser: BrowserView,
    current: Option<SessionId>,
) -> Seq<ElementView> {
    let scrolled = browser.with_viewport(area.height as int);
    seq![
        Element::Sessions {
            area,
            rows: list_lines(browser.visible, current),
            chosen: match browser.selected_id {
                Some(_) => Some(browser.selected as usize),
                None => None,
            },
            offset: scrolled.offset as usize,
            highlight: selected_style(),
        },
    ]
}

fn show_session_list(
    scene: &mut Vec<ScreenElement>,
    area: Rect,
    browser: &mut SessionBrowserState,
    current: Option<SessionId>,
)
    requires
        old(browser).state().wf(),
    ensures
        final(scene).deep_view() == old(scene).deep_view() + list_scene(
            area,
            old(browser).state(),
            current,
        ),
        final(browser).state() == old(browser).state().with_viewport(area.height as int),
        final(browser).state().wf(),
{
    let ghost before = scene.deep_view();
    browser.set_viewport_rows(area.height as usize);
    let rows = browser_lines(browser.visible_rows(), current);
    let chosen = match browser.selected_id() {
        Some(_) => Some(browser.selected()),
        None => None,
    };
    show(
        scene,
        Element::Sessions {
            area,
            rows,
            chosen,
            offset: browser.offset(),
            highlight: Style::selected(),
        },
    );
    assert(scene.deep_view() =~= before + list_scene(area, old(browser).state(), current));
}

/// The dialog in which a session is renamed.
pub open spec fn rename_scene(
    area: Rect,
    id: SessionId,
    editor: EditorState,
    error: Option<Seq<char>>,
) -> Seq<ElementView> {
    let inner = area.within_border();
    let border = seq![
        Element::Panel {
            area,
            edges: Edges::Square,
            style: plain_style(),
            title: "Rename "@ + session_id_text(id),
            title_style: plain_style(),
        },
    ];
    if inner.is_void() {
        border
    } else {
        let window = editor_window(editor, inner.width.saturating_sub(7));
        let title = seq![prefixed_line("Title: "@, window.0)];
        border + seq![
            text_element(
                inner,
                match error {
                    Some(error) => title.push(
                        line_view(
                            sanitized_line(error),
                            Style { fg: Some(Color::Red), ..plain_style() },
                        ),
                    ),
                    None => title,
                },
                plain_style(),
                Wrapping::Wrap,
            ),
            Element::Cursor { x: cursor_x(inner, 7, window.1), y: inner.y },
        ]
    }
}

fn show_rename(scene: &mut Vec<ScreenElement>, area: Rect, browser: &mut SessionBrowserState)
    requires
        old(browser).state().layer is Rename,
    ensures
        final(scene).deep_view() == old(scene).deep_view() + rename_scene(
            area,
            old(browser).state().layer->Rename_session_id,
            old(browser).state().layer->editor,
            old(browser).state().layer->error,
        ),
        final(browser).state() == old(browser).state(),
{
    let ghost before = scene.deep_view();
    let ghost layer = browser.state().layer;
    let mut title = "Rename ".to_owned();
    let mut message: Option<String> = None;
    if let BrowserLayer::Rename { session_id, error, .. } = browser.layer() {
        let id = session_id.text();
        title.push_str(&id);
        message = match error {
            Some(error) => Some(sanitize_line(error)),
            None => None,
        };
    }
    let inner = area.inner(Edges::Square);
    show(
        scene,
        Element::Panel {
            area,
            edges: Edges::Square,
            style: Style::plain(),
            title,
            title_style: Style::plain(),
        },
    );
    if !inner.is_empty() {
        let window = browser.rename_window(inner.width.saturating_sub(7));
        let mut lines = one_line(window_line("Title: ", window.text));
        if let Some(message) = message {
            push_line(&mut lines, styled_line(message, Style::plain().with_fg(Color::Red)));
        }
        show(scene, text_at(inner, lines, Style::plain(), Wrapping::Wrap));
        let x: u16 = least(
            inner.x.saturating_add(7).saturating_add(window.cursor_column),
            inner.right().saturating_sub(1),
        );
        show(scene, Element::Cursor { x, y: inner.y });
    }
    assert(scene.deep_view() =~= before + rename_scene(
        area,
        layer->Rename_session_id,
        layer->editor,
        layer->error,
    ));
}

/// The question before a session is deleted, in its border.
pub open spec fn confirmation_scene(area: Rect, id: SessionId, title: Seq<char>) -> Seq<
    ElementView,
> {
    seq![
        Element::Panel {
            area,
            edges: Edges::Square,
            style: plain_style(),
            title: "confirm delete"@,
            title_style: plain_style(),
        },
        text_element(
            area.within_border(),
            confirmation_lines(id, title),
            plain_style(),
            Wrapping::Wrap,
        ),
    ]
}

/// The messages of the browser.
pub open spec fn message_lines(browser: BrowserView) -> Seq<Seq<SpanView>> {
    (match browser.action_error {
        Some(error) => seq![
            line_view(
                "Error: "@ + sanitized_line(error),
                Style { fg: Some(Color::Red), ..plain_style() },
            ),
        ],
        None => Seq::empty(),
    }) + (match browser.refresh_warning {
        Some(warning) => seq![
            line_view(
                "Warning: "@ + sanitized_line(warning),
                Style { fg: Some(Color::Yellow), ..plain_style() },
            ),
        ],
        None => Seq::empty(),
    })
}

fn browser_messages(browser: &SessionBrowserState) -> (lines: Vec<Line>)
    ensures
        lines.deep_view() == message_lines(browser.state()),
{
    let mut lines: Vec<Line> = Vec::new();
    if let Some(error) = browser.action_error() {
        let error = sanitize_line(error);
        let mut text = "Error: ".to_owned();
        text.push_str(&error);
        push_line(&mut lines, styled_line(text, Style::plain().with_fg(Color::Red)));
    }
    if let Some(warning) = browser.refresh_warning() {
        let warning = sanitize_line(warning);
        let mut text = "Warning: ".to_owned();
        text.push_str(&warning);
        push_line(&mut lines, styled_line(text, Style::plain().with_fg(Color::Yellow)));
    }
    assert(lines.deep_view() =~= message_lines(browser.state()));
    lines
}

/// The rows of the browser: tabs, filter, messages, dialog, and keys.
pub open spec fn browser_constraints(browser: BrowserView) -> Seq<Constraint> {
    seq![
        Constraint::Length(1),
        Constraint::Length(1),
        Constraint::Length(message_rows(browser)),
        Constraint::Min(1),
        Constraint::Length(1),
    ]
}

/// Areas that are those of these rows.
pub open spec fn are_browser_rows(area: Rect, browser: BrowserView, rows: Seq<Rect>) -> bool {
    are_parts(
        true,
        browser_constraints(browser),
        browser_area(area, browser).within_border(),
        rows,
    )
}

/// The labels of the tabs.
pub open spec fn tab_labels() -> Seq<Seq<SpanView>> {
    seq![line_view("Local"@, plain_style()), line_view("Global"@, plain_style())]
}

/// The keys that a dialog takes.
pub open spec fn footer_text(layer: LayerView) -> Seq<char> {
    match layer {
        LayerView::List => {
            "Tab mode · ↑/↓ select · PgUp/PgDn page · Enter switch · F2 rename · Ctrl+D delete · Esc close"@
        },
        LayerView::Rename { .. } => "Enter rename · Esc return"@,
        LayerView::ConfirmDelete { .. } => "y/Enter delete · n/Esc return"@,
    }
}

/// The dialog of the browser.
pub open spec fn dialog_scene(
    area: Rect,
    browser: BrowserView,
    current: Option<SessionId>,
) -> Seq<ElementView> {
    match browser.layer {
        LayerView::List => list_scene(area, browser, current),
        LayerView::Rename { session_id, editor, error } => rename_scene(
            area,
            session_id,
            editor,
            error,
        ),
        LayerView::ConfirmDelete { session_id, title } => confirmation_scene(
            area,
            session_id,
            title,
        ),
    }
}

/// The browser over the screen, with the areas of its tabs, filter, messages, dialog, and keys.
pub open spec fn browser_scene(
    area: Rect,
    browser: BrowserView,
    current: Option<SessionId>,
    parts: Seq<Rect>,
) -> Seq<ElementView> {
    let frame = browser_area(area, browser);
    let border = seq![
        Element::Clear { area: frame },
        Element::Panel {
            area: frame,
            edges: Edges::Square,
            style: plain_style(),
            title: "sessions"@,
            title_style: plain_style(),
        },
    ];
    if !browser.open {
        Seq::empty()
    } else if frame.within_border().is_void() {
        border
    } else {
        border.push(
            Element::Tabs {
                area: parts[0],
                labels: tab_labels(),
                selected: match browser.mode {
                    BrowserMode::Project => 0usize,
                    BrowserMode::Global => 1usize,
                },
                highlight: key_style(),
            },
        ) + query_scene(parts[1], browser) + (if message_lines(browser).len() > 0 {
            seq![text_element(parts[2], message_lines(browser), plain_style(), Wrapping::Cut)]
        } else {
            Seq::empty()
        }) + dialog_scene(parts[3], browser, current) + seq![
            text_element(
                parts[4],
                seq![line_view(footer_text(browser.layer), plain_style())],
                dim_style(),
                Wrapping::Cut,
            ),
        ]
    }
}

fn show_dialog(
    scene: &mut Vec<ScreenElement>,
    area: Rect,
    browser: &mut SessionBrowserState,
    current: Option<SessionId>,
) -> (footer: &'static str)
    requires
        old(browser).state().wf(),
    ensures
        footer@ == footer_text(old(browser).state().layer),
        final(scene).deep_view() == old(scene).deep_view() + dialog_scene(
            area,
            old(browser).state(),
            current,
        ),
        final(browser).state() == if old(browser).state().layer is List {
            old(browser).state().with_viewport(area.height as int)
        } else {
            old(browser).state()
        },
        final(browser).state().wf(),
{
    let ghost before = scene.deep_view();
    let ghost state = browser.state();
    let mut listing = false;
    let mut renaming = false;
    match browser.layer() {
        BrowserLayer::List => {
            listing = true;
        },
        BrowserLayer::Rename { .. } => {
            renaming = true;
        },
        BrowserLayer::ConfirmDelete { session_id, title } => {
            let lines = delete_confirmation_text(*session_id, &title.value);
            show(
                scene,
                Element::Panel {
                    area,
                    edges: Edges::Square,
                    style: Style::plain(),
                    title: "confirm delete".to_owned(),
                    title_style: Style::plain(),
                },
            );
            show(scene, text_at(area.inner(Edges::Square), lines, Style::plain(), Wrapping::Wrap));
            assert(scene.deep_view() =~= before + dialog_scene(area, state, current));
        },
    }
    if listing {
        show_session_list(scene, area, browser, current);
        "Tab mode · ↑/↓ select · PgUp/PgDn page · Enter switch · F2 rename · Ctrl+D delete · Esc close"
    } else if renaming {
        show_rename(scene, area, browser);
        "Enter rename · Esc return"
    } else {
        "y/Enter delete · n/Esc return"
    }
}

/// Divides the browser into its tabs, filter, messages, dialog, and keys.
pub fn divide_browser(area: Rect, browser: &SessionBrowserState) -> (parts: Vec<Rect>)
    ensures
        are_browser_rows(area, browser.state(), parts@),
{
    let constraints = [
        Constraint::Length(1),
        Constraint::Length(1),
        Constraint::Length(browser.message_count()),
        Constraint::Min(1),
        Constraint::Length(1),
    ];
    assert(constraints@ =~= browser_constraints(browser.state()));
    let frame = browser_rect(area, browser);
    split_area(true, &constraints, frame.inner(Edges::Square))
}

/// Shows the browser, where it is open, with its areas, which [`divide_browser`] gives.
pub fn render_session_browser(
    scene: &mut Vec<ScreenElement>,
    area: Rect,
    browser: &mut SessionBrowserState,
    current: Option<SessionId>,
    parts: &Vec<Rect>,
)
    requires
        old(browser).state().wf(),
        old(browser).state().open ==> parts@.len() == 5,
    ensures
        final(scene).deep_view() == old(scene).deep_view() + browser_scene(
            area,
            old(browser).state(),
            current,
            parts@,
        ),
        final(browser).state() == old(browser).state().shown_in(area, parts@),
        final(browser).state().wf(),
{
    let ghost before = scene.deep_view();
    let ghost state = browser.state();
    if !browser.is_open() {
        assert(scene.deep_view() =~= before + browser_scene(area, state, current, parts@));
        return;
    }
    let frame = browser_rect(area, browser);
    show(scene, Element::Clear { area: frame });
    show(
        scene,
        Element::Panel {
            area: frame,
            edges: Edges::Square,
            style: Style::plain(),
            title: "sessions".to_owned(),
            title_style: Style::plain(),
        },
    );
    let inner = frame.inner(Edges::Square);
    if inner.is_empty() {
        assert(scene.deep_view() =~= before + browser_scene(area, state, current, parts@));
        return;
    }
    let mut labels: Vec<Line> = Vec::new();
    push_line(&mut labels, styled_line("Local".to_owned(), Style::plain()));
    push_line(&mut labels, styled_line("Global".to_owned(), Style::plain()));
    assert(labels.deep_view() =~= tab_labels());
    let selected: usize = match browser.mode() {
        BrowserMode::Project => 0,
        BrowserMode::Global => 1,
    };
    show(scene, Element::Tabs { area: parts[0], labels, selected, highlight: cyan_bold() });
    show_query(scene, parts[1], browser);
    let messages = browser_messages(browser);
    if messages.len() > 0 {
        show(scene, text_at(parts[2], messages, Style::plain(), Wrapping::Cut));
    }
    let footer = show_dialog(scene, parts[3], browser, current);
    let footer = one_line(styled_line(footer.to_owned(), Style::plain()));
    show(scene, text_at(parts[4], footer, Style::dimmed(), Wrapping::Cut));
    assert(scene.deep_view() =~= before + browser_scene(area, state, current, parts@));
}

/// What is told of a session after its marks.
pub open spec fn told_after(marks: Seq<char>, summary: SummaryView) -> Seq<char> {
    marks + "jobs:"@ + decimal(summary.running_jobs as nat) + " clients:"@ + decimal(
        summary.attached_clients as nat,
    ) + " "@ + sanitized_line(summary.title) + " · "@ + ("session-"@ + decimal(
        summary.id.number as nat,
    )) + " · "@ + shown_minute(summary.last_activity)
}

/// The row of a session says whether it is the one shown and whether it runs, its jobs and
/// clients, its title and identifier and when it was last active.
pub proof fn lemma_rows_tell_the_session(summary: SummaryView, current: Option<SessionId>)
    ensures
        ({
            let row = session_text(summary, current);
            &&& current == Some(summary.id) && summary.busy ==> row == told_after(
                "[current] "@ + "[running] "@,
                summary,
            )
            &&& current == Some(summary.id) && !summary.busy ==> row == told_after(
                "[current] "@,
                summary,
            )
            &&& current != Some(summary.id) && summary.busy ==> row == told_after(
                "[running] "@,
                summary,
            )
            &&& current != Some(summary.id) && !summary.busy ==> row == told_after(
                Seq::empty(),
                summary,
            )
        }),
{
    let none = Seq::<char>::empty();
    assert("[current] "@ + none =~= "[current] "@);
    assert(none + "[running] "@ =~= "[running] "@);
    assert(none + none =~= none);
}

/// The list has a line for each row, in order: headings by their directory, sessions by what is
/// told of them; where nothing matches it says so.
pub proof fn lemma_the_list_has_a_line_for_each_row(
    rows: Seq<RowView>,
    current: Option<SessionId>,
    index: int,
)
    requires
        0 <= index < rows.len(),
    ensures
        list_lines(rows, current).len() == rows.len(),
        rows[index] is Session ==> list_lines(rows, current)[index] == line_view(
            session_text(rows[index]->Session_0, current),
            plain_style(),
        ),
        rows[index] is Group ==> list_lines(rows, current)[index] == line_view(
            sanitized_line(rows[index]->cwd_display),
            dim_style(),
        ),
        list_lines(Seq::empty(), current).len() == 1,
{
}

/// Before a session is deleted it is named by title and identifier, and what goes with it is told.
pub proof fn lemma_confirmations_name_the_session(id: SessionId, title: Seq<char>)
    ensures
        confirmation_lines(id, title).len() == 5,
        confirmation_lines(id, title)[0] == line_view(
            "Delete "@ + sanitized_line(title) + " ("@ + ("session-"@ + decimal(id.number as nat))
                + ")?"@,
            plain_style(),
        ),
        confirmation_lines(id, title)[2] == line_view("This is permanent."@, plain_style()),
{
}

/// Messages are shown as long as they are there: the error of an action before the warning of a
/// refresh.
pub proof fn lemma_messages_are_shown(browser: BrowserView)
    ensures
        ({
            let lines = message_lines(browser);
            &&& browser.action_error is None && browser.refresh_warning is None ==> lines.len() == 0
            &&& browser.action_error is Some ==> lines[0] == line_view(
                "Error: "@ + sanitized_line(browser.action_error->0),
                Style { fg: Some(Color::Red), ..plain_style() },
            )
            &&& browser.refresh_warning is Some ==> lines.last() == line_view(
                "Warning: "@ + sanitized_line(browser.refresh_warning->0),
                Style { fg: Some(Color::Yellow), ..plain_style() },
            )
            &&& lines.len() == (if browser.action_error is Some {
                1int
            } else {
                0
            }) + (if browser.refresh_warning is Some {
                1int
            } else {
                0
            })
        }),
{
}

} // verus!
