//! The whole screen.

use vstd::prelude::*;

use super::browser_view::{
    are_browser_rows, browser_scene, divide_browser, render_session_browser,
};
use super::editor::{cursor_row, rows_of, saturated, EditorState};
use super::help::{
    are_help_columns, cyan_bold, divide_help, help_columns, help_layout, help_scene, help_space,
    key_style, render_help,
};
use super::layout::{
    are_parts, fitted_start, greatest, growing_parts, is_part, larger16, least, least_total,
    length_total, line_view, one_line, push_line, push_span, show, smaller16, span, span_view,
    split_area, styled_line, text_at, text_element, Alignment, Constraint, Edges, Element,
    ElementView, Rect, ScreenElement, Wrapping,
};
use super::sidebar::{are_sidebar_rows, divide_sidebar, plan_of, render_sidebar, sidebar_scene};
use super::state::{PopupKind, UiState, UiView};
use super::status::{status_line, status_spans};
use super::style::{dim_style, plain_style, selected_style, Color, Line, SpanView, Style};
use super::transcript::{
    chat_entries, entries_height, entries_scene, entries_scroll, render_entries, total_height,
    transcript_entries, EntryView,
};
use super::widgets::{ItemView, MenuItem, MenuKind, MenuState, MenuView, TranscriptScroll};
use crate::client::session::{ChatProjection, ProjectionView};
use crate::session::SessionId;
use crate::text::chars_of;

verus! {

/// The smallest width of the screen.
pub const MIN_WIDTH: u16 = 20;

/// The smallest height of the screen.
pub const MIN_HEIGHT: u16 = 3;

/// The most rows that the prompt takes.
pub const MAX_PROMPT_HEIGHT: u16 = 4;

/// The rows of the status line.
pub const STATUS_HEIGHT: u16 = 1;

/// The columns of the sidebar.
pub const SIDEBAR_WIDTH: u16 = 42;

/// The width from which the sidebar stands beside the chat and not over it.
pub const WIDE_SIDEBAR_MIN_WIDTH: u16 = 121;

/// The most menu items in view.
pub const MENU_ROWS: usize = 5;

/// The line that greets on a small screen.
pub open spec fn brief_welcome() -> Seq<SpanView> {
    line_view("moh · Ctrl+O help"@, key_style())
}

/// The lines that greet.
pub open spec fn welcome_lines() -> Seq<Seq<SpanView>> {
    seq![
        line_view("moh"@, key_style()),
        line_view(Seq::empty(), plain_style()),
        line_view("Your personal coding harness"@, plain_style()),
        line_view(Seq::empty(), plain_style()),
        line_view("Enter sends · / commands · Ctrl+O help"@, dim_style()),
    ]
}

/// Centered lines.
pub open spec fn centered_text(area: Rect, lines: Seq<Seq<SpanView>>) -> ElementView {
    Element::Text {
        area,
        lines,
        style: plain_style(),
        wrapping: Wrapping::Cut,
        alignment: Alignment::Center,
        skipped: 0,
    }
}

/// Centered lines in a round border.
pub open spec fn card(area: Rect, lines: Seq<Seq<SpanView>>) -> Seq<ElementView> {
    seq![
        Element::Panel {
            area,
            edges: Edges::Rounded,
            style: plain_style(),
            title: Seq::empty(),
            title_style: plain_style(),
        },
        centered_text(area.within_border(), lines),
    ]
}

/// The greeting, as large as the area allows.
pub open spec fn welcome_scene(area: Rect) -> Seq<ElementView> {
    if area.height < 3 {
        seq![centered_text(area, seq![brief_welcome()])]
    } else if area.height < 7 || area.width < 48 {
        card(area.middle(smaller16(area.width, 24), 3), seq![brief_welcome()])
    } else {
        card(area.middle(smaller16(area.width, 48), 7), welcome_lines())
    }
}

fn show_centered(scene: &mut Vec<ScreenElement>, area: Rect, lines: Vec<Line>)
    ensures
        final(scene).deep_view() == old(scene).deep_view().push(
            centered_text(area, lines.deep_view()),
        ),
{
    show(
        scene,
        Element::Text {
            area,
            lines,
            style: Style::plain(),
            wrapping: Wrapping::Cut,
            alignment: Alignment::Center,
            skipped: 0,
        },
    );
}

fn show_card(scene: &mut Vec<ScreenElement>, area: Rect, lines: Vec<Line>)
    ensures
        final(scene).deep_view() == old(scene).deep_view() + card(area, lines.deep_view()),
{
    let ghost before = scene.deep_view();
    show(
        scene,
        Element::Panel {
            area,
            edges: Edges::Rounded,
            style: Style::plain(),
            title: String::new(),
            title_style: Style::plain(),
        },
    );
    show_centered(scene, area.inner(Edges::Rounded), lines);
    assert(scene.deep_view() =~= before + card(area, lines.deep_view()));
}

/// Shows the greeting.
pub fn render_welcome(scene: &mut Vec<ScreenElement>, area: Rect)
    ensures
        final(scene).deep_view() == old(scene).deep_view() + welcome_scene(area),
{
    let ghost before = scene.deep_view();
    if area.height < 7 || area.width < 48 {
        let lines = one_line(styled_line("moh · Ctrl+O help".to_owned(), cyan_bold()));
        if area.height < 3 {
            show_centered(scene, area, lines);
        } else {
            show_card(scene, area.centered(least(area.width, 24), 3), lines);
        }
    } else {
        let mut lines: Vec<Line> = Vec::new();
        push_line(&mut lines, styled_line("moh".to_owned(), cyan_bold()));
        push_line(&mut lines, styled_line(String::new(), Style::plain()));
        push_line(
            &mut lines,
            styled_line("Your personal coding harness".to_owned(), Style::plain()),
        );
        push_line(&mut lines, styled_line(String::new(), Style::plain()));
        push_line(
            &mut lines,
            styled_line("Enter sends · / commands · Ctrl+O help".to_owned(), Style::dimmed()),
        );
        assert(lines.deep_view() =~= welcome_lines());
        show_card(scene, area.centered(least(area.width, 48), 7), lines);
    }
    assert(scene.deep_view() =~= before + welcome_scene(area));
}

/// A chat without any item or run.
pub open spec fn is_empty_chat(projection: ProjectionView) -> bool {
    match projection {
        ProjectionView::Draft(_) => true,
        ProjectionView::Session(snapshot) => snapshot.transcript.len() == 0
            && snapshot.active_run is None,
    }
}

/// The greeting is shown: nothing dismissed it, the chat is empty, and notices leave room.
pub open spec fn shows_welcome(area: Rect, projection: ProjectionView, ui: UiView) -> bool {
    !ui.welcome_dismissed && is_empty_chat(projection) && entries_height(
        chat_entries(projection, ui),
        area.width,
    ) < area.height
}

/// The area of the notices below the greeting.
pub open spec fn notice_area(area: Rect, entries: Seq<EntryView>) -> Rect {
    let height = entries_height(entries, area.width) as u16;
    let welcome = Rect { height: area.height.saturating_sub(height), ..area };
    Rect { y: welcome.bottom_edge(), height, ..area }
}

/// The scroll position once the transcript is shown.
pub open spec fn transcript_scroll(area: Rect, projection: ProjectionView, ui: UiView) ->
    TranscriptScroll {
    let entries = chat_entries(projection, ui);
    if area.is_void() {
        ui.scroll
    } else if !shows_welcome(area, projection, ui) {
        entries_scroll(entries, area, ui.scroll)
    } else if entries_height(entries, area.width) == 0 {
        ui.scroll.measured(0, area.height)
    } else {
        entries_scroll(entries, notice_area(area, entries), ui.scroll)
    }
}

/// The transcript, or the greeting with notices below it.
pub open spec fn transcript_scene(area: Rect, projection: ProjectionView, ui: UiView) -> Seq<
    ElementView,
> {
    let entries = chat_entries(projection, ui);
    if area.is_void() {
        Seq::empty()
    } else if !shows_welcome(area, projection, ui) {
        entries_scene(entries, area, ui.scroll)
    } else {
        let height = entries_height(entries, area.width) as u16;
        welcome_scene(Rect { height: area.height.saturating_sub(height), ..area }) + (if height
            == 0 {
            Seq::empty()
        } else {
            entries_scene(entries, notice_area(area, entries), ui.scroll)
        })
    }
}

/// Shows the transcript, or the greeting with notices below it.
pub fn render_transcript(
    scene: &mut Vec<ScreenElement>,
    area: Rect,
    projection: &ChatProjection,
    ui: &mut UiState,
)
    ensures
        final(scene).deep_view() == old(scene).deep_view() + transcript_scene(
            area,
            projection.deep_view(),
            old(ui).state(),
        ),
        final(ui).state() == (UiView {
            scroll: transcript_scroll(area, projection.deep_view(), old(ui).state()),
            ..old(ui).state()
        }),
{
    let ghost before = scene.deep_view();
    let ghost shown = transcript_scene(area, projection.deep_view(), ui.state());
    if area.is_empty() {
        assert(scene.deep_view() =~= before + shown);
        return;
    }
    let entries = transcript_entries(projection, ui);
    let empty = match projection {
        ChatProjection::Draft(_) => true,
        ChatProjection::Session(snapshot) => snapshot.transcript.len() == 0
            && snapshot.active_run.is_none(),
    };
    let height: usize = total_height(&entries, area.width);
    if ui.welcome_dismissed() || !empty || height >= area.height as usize {
        render_entries(scene, area, &entries, ui);
        return;
    }
    let height: u16 = height as u16;
    let welcome = Rect {
        x: area.x,
        y: area.y,
        width: area.width,
        height: area.height.saturating_sub(height),
    };
    render_welcome(scene, welcome);
    if height == 0 {
        ui.scroll_mut().update_metrics(0, area.height);
    } else {
        let notices = Rect { x: area.x, y: welcome.bottom(), width: area.width, height };
        render_entries(scene, notices, &entries, ui);
    }
    assert(scene.deep_view() =~= before + shown);
}

/// The rows that the prompt takes.
pub open spec fn prompt_rows(area: Rect, editor: EditorState) -> u16 {
    let rows = rows_of(editor.pieces(), area.width.saturating_sub(2)).len();
    let most = smaller16(
        MAX_PROMPT_HEIGHT,
        larger16(area.height.saturating_sub(STATUS_HEIGHT).saturating_sub(1), 1),
    );
    if rows < 1 {
        1
    } else if rows > most {
        most
    } else {
        rows as u16
    }
}

/// Finds the rows that the prompt takes.
pub fn prompt_height(area: Rect, ui: &UiState) -> (height: u16)
    ensures
        height == prompt_rows(area, ui.state().editor),
{
    let most: u16 = least(
        MAX_PROMPT_HEIGHT,
        greatest(area.height.saturating_sub(STATUS_HEIGHT).saturating_sub(1), 1),
    );
    let rows: u16 = ui.editor().visual_height(area.width.saturating_sub(2));
    if rows < 1 {
        1
    } else if rows > most {
        most
    } else {
        rows
    }
}

/// The prompt never takes more than four rows, and leaves room for the transcript and the status.
pub proof fn lemma_prompt_leaves_room(area: Rect, editor: EditorState)
    requires
        area.height >= MIN_HEIGHT,
    ensures
        1 <= prompt_rows(area, editor) <= MAX_PROMPT_HEIGHT,
        prompt_rows(area, editor) + STATUS_HEIGHT + 1 <= area.height,
{
}

/// The prompt editor once it is shown.
pub open spec fn shown_editor(area: Rect, editor: EditorState) -> EditorState {
    if area.is_void() || area.width.saturating_sub(2) == 0 {
        editor
    } else {
        editor.scrolled(area.width.saturating_sub(2), area.height as int)
    }
}

/// The rows of the prompt: the first is marked, the others are aligned with it.
pub open spec fn marked_rows(rows: Seq<Seq<char>>) -> Seq<Seq<SpanView>> {
    Seq::new(
        rows.len(),
        |i: int|
            seq![
                if i == 0 {
                    span_view("❯ "@, Style { fg: Some(Color::Cyan), ..plain_style() })
                } else {
                    span_view("  "@, plain_style())
                },
                span_view(rows[i], plain_style()),
            ],
    )
}

/// The prompt.
pub open spec fn prompt_scene(area: Rect, editor: EditorState) -> Seq<ElementView> {
    let width = area.width.saturating_sub(2);
    let state = shown_editor(area, editor);
    let visible = width > 0 && area.height > 0;
    let column: u16 = if visible {
        state.column_within(width) as u16
    } else {
        0
    };
    let row: u16 = if visible {
        (cursor_row(rows_of(state.pieces(), width), state.cursor) - state.viewport_top) as u16
    } else {
        0
    };
    seq![
        text_element(
            area,
            marked_rows(
                if visible {
                    state.visible_lines(width, area.height as int)
                } else {
                    Seq::empty()
                },
            ),
            plain_style(),
            Wrapping::Cut,
        ),
        Element::Cursor {
            x: smaller16(
                area.x.saturating_add(2).saturating_add(column),
                area.right_edge().saturating_sub(1),
            ),
            y: smaller16(area.y.saturating_add(row), area.bottom_edge().saturating_sub(1)),
        },
    ]
}

fn mark_rows(rows: &Vec<String>) -> (lines: Vec<Line>)
    ensures
        lines.deep_view() == marked_rows(rows.deep_view()),
{
    let mut lines: Vec<Line> = Vec::new();
    let ghost marked = marked_rows(rows.deep_view());
    let mut index: usize = 0;
    while index < rows.len()
        invariant
            index <= rows@.len(),
            marked == marked_rows(rows.deep_view()),
            lines.deep_view() == marked.take(index as int),
        decreases rows@.len() - index,
    {
        let mut line = Line { spans: Vec::new() };
        if index == 0 {
            push_span(&mut line, span("❯ ".to_owned(), Style::plain().with_fg(Color::Cyan)));
        } else {
            push_span(&mut line, span("  ".to_owned(), Style::plain()));
        }
        push_span(&mut line, span(rows[index].clone(), Style::plain()));
        assert(line.deep_view() =~= marked[index as int]);
        push_line(&mut lines, line);
        index += 1;
        assert(lines.deep_view() =~= marked.take(index as int));
    }
    assert(lines.deep_view() =~= marked);
    lines
}

/// Shows the prompt.
pub fn render_prompt(scene: &mut Vec<ScreenElement>, area: Rect, ui: &mut UiState)
    requires
        !area.is_void(),
    ensures
        final(scene).deep_view() == old(scene).deep_view() + prompt_scene(
            area,
            old(ui).state().editor,
        ),
        final(ui).state() == (UiView {
            editor: shown_editor(area, old(ui).state().editor),
            ..old(ui).state()
        }),
{
    let ghost before = scene.deep_view();
    let rows = ui.editor_mut().display_rows(area.width.saturating_sub(2), area.height);
    assert(rows.lines@.len() == 0 ==> rows.lines.deep_view() =~= Seq::empty());
    let lines = mark_rows(&rows.lines);
    show(scene, text_at(area, lines, Style::plain(), Wrapping::Cut));
    let x: u16 = least(
        area.x.saturating_add(2).saturating_add(rows.cursor_column),
        area.right().saturating_sub(1),
    );
    let y: u16 = least(area.y.saturating_add(rows.cursor_row), area.bottom().saturating_sub(1));
    show(scene, Element::Cursor { x, y });
    assert(scene.deep_view() =~= before + prompt_scene(area, old(ui).state().editor));
}

/// The title of a menu.
pub open spec fn menu_title(kind: MenuKind) -> Seq<char> {
    match kind {
        MenuKind::Commands => "commands"@,
        MenuKind::Models => "models"@,
        MenuKind::Efforts => "effort"@,
        MenuKind::Processes => "processes"@,
    }
}

/// The columns that a menu item takes.
pub open spec fn item_width(item: ItemView) -> int {
    saturated(saturated((item.value.len() + item.description.len()) as int) + 3)
}

/// The columns of the widest item.
pub open spec fn widest(items: Seq<ItemView>) -> int
    decreases items.len(),
{
    if items.len() == 0 {
        1
    } else if widest(items.drop_last()) < item_width(items.last()) {
        item_width(items.last())
    } else {
        widest(items.drop_last())
    }
}

/// The items of a menu that are measured.
pub open spec fn first_items(items: Seq<ItemView>) -> Seq<ItemView> {
    items.take(
        if items.len() < MENU_ROWS {
            items.len() as int
        } else {
            MENU_ROWS as int
        },
    )
}

/// The area of a menu above the prompt.
pub open spec fn menu_area(area: Rect, prompt: Rect, items: Seq<ItemView>) -> Rect {
    let height = smaller16(
        (first_items(items).len() as u16).saturating_add(2),
        prompt.y.saturating_sub(area.y),
    );
    let wanted = (saturated(widest(first_items(items)) + 2) % 65536) as u16;
    Rect {
        x: area.x,
        y: prompt.y.saturating_sub(height),
        width: larger16(smaller16(wanted, area.width), 1),
        height,
    }
}

/// The items of a menu with their descriptions.
pub open spec fn menu_lines(items: Seq<ItemView>) -> Seq<Seq<SpanView>> {
    items.map_values(
        |item: ItemView| line_view(item.value + "  "@ + item.description, plain_style()),
    )
}

/// A menu above the prompt.
pub open spec fn menu_scene(area: Rect, prompt: Rect, menu: MenuView) -> Seq<ElementView> {
    let frame = menu_area(area, prompt, menu.items);
    if frame.height == 0 || menu.kind is None {
        Seq::empty()
    } else {
        seq![
            Element::Clear { area: frame },
            Element::Menu {
                area: frame,
                title: menu_title(menu.kind->0),
                items: menu_lines(menu.items),
                selected: menu.selected as usize,
                highlight: selected_style(),
            },
        ]
    }
}

fn menu_item_lines(items: &Vec<MenuItem>) -> (lines: Vec<Line>)
    ensures
        lines.deep_view() == menu_lines(items.deep_view()),
{
    let mut lines: Vec<Line> = Vec::new();
    let ghost all = items.deep_view();
    let mut index: usize = 0;
    while index < items.len()
        invariant
            index <= items@.len(),
            all == items.deep_view(),
            lines.deep_view() == menu_lines(all).take(index as int),
        decreases items@.len() - index,
    {
        let mut text = items[index].value().to_owned();
        text.push_str("  ");
        text.push_str(items[index].description());
        assert(all[index as int] == items@[index as int].deep_view());
        push_line(&mut lines, styled_line(text, Style::plain()));
        index += 1;
        assert(lines.deep_view() =~= menu_lines(all).take(index as int));
    }
    assert(lines.deep_view() =~= menu_lines(all));
    lines
}

fn widest_item(items: &Vec<MenuItem>) -> (width: usize)
    ensures
        width == widest(first_items(items.deep_view())),
{
    let ghost first = first_items(items.deep_view());
    let mut width: usize = 1;
    let mut index: usize = 0;
    while index < items.len() && index < MENU_ROWS
        invariant
            first == first_items(items.deep_view()),
            index <= first.len(),
            width == widest(first.take(index as int)),
        decreases items@.len() - index,
    {
        proof {
            let longer = first.take(index + 1);
            assert(longer.drop_last() =~= first.take(index as int));
            assert(longer.last() == items@[index as int].deep_view());
        }
        let value: usize = chars_of(items[index].value()).len();
        let description: usize = chars_of(items[index].description()).len();
        let wanted: usize = value.saturating_add(description).saturating_add(3);
        if width < wanted {
            width = wanted;
        }
        index += 1;
    }
    assert(first.take(index as int) =~= first);
    width
}

/// Shows the menu.
pub fn render_menu(scene: &mut Vec<ScreenElement>, area: Rect, prompt: Rect, menu: &MenuState)
    ensures
        final(scene).deep_view() == old(scene).deep_view() + menu_scene(area, prompt, menu.state()),
{
    let ghost before = scene.deep_view();
    let items = menu.items();
    let count: usize = items.len();
    let rows: u16 = if count < MENU_ROWS { count as u16 } else { MENU_ROWS as u16 };
    let height: u16 = least(rows.saturating_add(2), prompt.y.saturating_sub(area.y));
    let title = match menu.kind() {
        Some(MenuKind::Commands) => "commands",
        Some(MenuKind::Models) => "models",
        Some(MenuKind::Efforts) => "effort",
        Some(MenuKind::Processes) => "processes",
        None => {
            assert(scene.deep_view() =~= before + Seq::empty());
            return;
        },
    };
    if height == 0 {
        assert(scene.deep_view() =~= before + Seq::empty());
        return;
    }
    let wanted: usize = widest_item(items).saturating_add(2);
    let wanted: u16 = (wanted % 65536) as u16;
    let frame = Rect {
        x: area.x,
        y: prompt.y.saturating_sub(height),
        width: greatest(least(wanted, area.width), 1),
        height,
    };
    assert(frame == menu_area(area, prompt, menu.state().items));
    show(scene, Element::Clear { area: frame });
    show(
        scene,
        Element::Menu {
            area: frame,
            title: title.to_owned(),
            items: menu_item_lines(items),
            selected: menu.selected(),
            highlight: Style::selected(),
        },
    );
    assert(scene.deep_view() =~= before + menu_scene(area, prompt, menu.state()));
}

/// The session that is shown.
pub open spec fn current_session(projection: ProjectionView) -> Option<SessionId> {
    match projection {
        ProjectionView::Draft(_) => None,
        ProjectionView::Session(snapshot) => Some(snapshot.summary.id),
    }
}

/// The session browser or a popup is open.
pub open spec fn is_modal(ui: UiView) -> bool {
    ui.browser.open || ui.popup is Some
}

/// The session browser or a popup, over the screen, with its parts.
pub open spec fn modal_scene(
    area: Rect,
    projection: ProjectionView,
    ui: UiView,
    parts: Seq<Rect>,
) -> Seq<ElementView> {
    if ui.browser.open {
        browser_scene(area, ui.browser, current_session(projection), parts)
    } else if ui.popup is Some {
        help_scene(area, parts)
    } else {
        Seq::empty()
    }
}

/// The screen once they are shown.
pub open spec fn modal_ui(area: Rect, ui: UiView, parts: Seq<Rect>) -> UiView {
    if ui.browser.open {
        UiView { browser: ui.browser.shown_in(area, parts), ..ui }
    } else {
        ui
    }
}

/// Areas that are those of the session browser or of the popup, where one is open.
pub open spec fn are_modal_parts(area: Rect, ui: UiView, parts: Seq<Rect>) -> bool {
    if ui.browser.open {
        are_browser_rows(area, ui.browser, parts)
    } else if ui.popup is Some {
        are_help_columns(area, parts)
    } else {
        parts.len() == 0
    }
}

/// How many areas the session browser or the popup takes.
pub open spec fn modal_count(area: Rect, ui: UiView) -> nat {
    if ui.browser.open {
        5
    } else if ui.popup is Some {
        help_columns(help_layout(help_space(area))).len()
    } else {
        0
    }
}

fn divide_modal(area: Rect, ui: &UiState) -> (parts: Vec<Rect>)
    ensures
        are_modal_parts(area, ui.state(), parts@),
{
    if ui.session_browser().is_open() {
        return divide_browser(area, ui.session_browser());
    }
    match ui.popup() {
        Some(PopupKind::Help) => divide_help(area),
        None => Vec::new(),
    }
}

/// Shows the session browser or a popup, where one is open, with its parts.
pub fn render_modal_overlay(
    scene: &mut Vec<ScreenElement>,
    area: Rect,
    projection: &ChatProjection,
    ui: &mut UiState,
    parts: &Vec<Rect>,
) -> (modal: bool)
    requires
        old(ui).state().wf(),
        parts@.len() == modal_count(area, old(ui).state()),
    ensures
        modal == is_modal(old(ui).state()),
        final(scene).deep_view() == old(scene).deep_view() + modal_scene(
            area,
            projection.deep_view(),
            old(ui).state(),
            parts@,
        ),
        final(ui).state() == modal_ui(area, old(ui).state(), parts@),
        final(ui).state().wf(),
{
    let ghost before = scene.deep_view();
    if ui.session_browser().is_open() {
        let current = match projection {
            ChatProjection::Draft(_) => None,
            ChatProjection::Session(snapshot) => Some(snapshot.summary.id),
        };
        render_session_browser(scene, area, ui.session_browser_mut(), current, parts);
        return true;
    }
    match ui.popup() {
        Some(PopupKind::Help) => {
            render_help(scene, area, parts);
            true
        },
        None => {
            assert(scene.deep_view() =~= before + Seq::empty());
            false
        },
    }
}

/// The rows of the screen: transcript, prompt and status.
pub open spec fn main_constraints(rows: u16) -> Seq<Constraint> {
    seq![Constraint::Min(1), Constraint::Length(rows), Constraint::Length(STATUS_HEIGHT)]
}

/// The part of an area that the prompt and the status may take.
pub open spec fn input_area(area: Rect, input_width: u16) -> Rect {
    Rect { width: smaller16(input_width, area.width), ..area }
}

/// Areas that are the rows of the screen.
pub open spec fn are_main_rows(area: Rect, input_width: u16, ui: UiView, rows: Seq<Rect>) -> bool {
    are_parts(
        true,
        main_constraints(prompt_rows(input_area(area, input_width), ui.editor)),
        area,
        rows,
    )
}

/// The areas of the transcript, the prompt and the status in the rows of the screen.
pub open spec fn main_parts(area: Rect, input_width: u16, rows: Seq<Rect>) -> (Rect, Rect, Rect) {
    let input = input_area(area, input_width);
    (rows[0], Rect { width: input.width, ..rows[1] }, Rect { width: input.width, ..rows[2] })
}

fn divide_main(area: Rect, input_width: u16, ui: &UiState) -> (rows: Vec<Rect>)
    ensures
        are_main_rows(area, input_width, ui.state(), rows@),
{
    let input = Rect {
        x: area.x,
        y: area.y,
        width: least(input_width, area.width),
        height: area.height,
    };
    let rows: u16 = prompt_height(input, ui);
    let constraints = [
        Constraint::Min(1),
        Constraint::Length(rows),
        Constraint::Length(STATUS_HEIGHT),
    ];
    assert(constraints@ =~= main_constraints(rows));
    split_area(true, &constraints, area)
}

/// The screen once transcript and prompt are shown.
pub open spec fn chat_ui(
    area: Rect,
    input_width: u16,
    projection: ProjectionView,
    ui: UiView,
    rows: Seq<Rect>,
) -> UiView {
    let parts = main_parts(area, input_width, rows);
    UiView {
        scroll: transcript_scroll(parts.0, projection, ui),
        editor: shown_editor(parts.1, ui.editor),
        ..ui
    }
}

/// The screen once the chat and what lies over it are shown.
pub open spec fn main_ui(
    area: Rect,
    input_width: u16,
    projection: ProjectionView,
    ui: UiView,
    rows: Seq<Rect>,
    modal: Seq<Rect>,
) -> UiView {
    modal_ui(area, chat_ui(area, input_width, projection, ui, rows), modal)
}

/// The chat: transcript, prompt and status.
pub open spec fn chat_scene(
    area: Rect,
    input_width: u16,
    projection: ProjectionView,
    ui: UiView,
    rows: Seq<Rect>,
) -> Seq<ElementView> {
    let parts = main_parts(area, input_width, rows);
    (transcript_scene(parts.0, projection, ui) + (if parts.1.is_void() {
        Seq::empty()
    } else {
        prompt_scene(parts.1, ui.editor)
    })).push(
        text_element(
            parts.2,
            seq![status_spans(projection, chat_ui(area, input_width, projection, ui, rows))],
            plain_style(),
            Wrapping::Cut,
        ),
    )
}

/// What lies over the chat: a popup, or the menu.
pub open spec fn popup_scene(
    area: Rect,
    prompt: Rect,
    projection: ProjectionView,
    ui: UiView,
    modal: Seq<Rect>,
) -> Seq<ElementView> {
    if is_modal(ui) {
        modal_scene(area, projection, ui, modal)
    } else if ui.menu.is_open() {
        menu_scene(area, prompt, ui.menu)
    } else {
        Seq::empty()
    }
}

/// The chat with what lies over it.
pub open spec fn main_scene(
    area: Rect,
    input_width: u16,
    projection: ProjectionView,
    ui: UiView,
    rows: Seq<Rect>,
    modal: Seq<Rect>,
) -> Seq<ElementView> {
    chat_scene(area, input_width, projection, ui, rows) + popup_scene(
        area,
        main_parts(area, input_width, rows).1,
        projection,
        chat_ui(area, input_width, projection, ui, rows),
        modal,
    )
}

fn render_popups(
    scene: &mut Vec<ScreenElement>,
    area: Rect,
    prompt: Rect,
    projection: &ChatProjection,
    ui: &mut UiState,
    modal: &Vec<Rect>,
)
    requires
        old(ui).state().wf(),
        modal@.len() == modal_count(area, old(ui).state()),
    ensures
        final(scene).deep_view() == old(scene).deep_view() + popup_scene(
            area,
            prompt,
            projection.deep_view(),
            old(ui).state(),
            modal@,
        ),
        final(ui).state() == modal_ui(area, old(ui).state(), modal@),
        final(ui).state().wf(),
{
    let ghost before = scene.deep_view();
    let covered = render_modal_overlay(scene, area, projection, ui, modal);
    if covered {
        return;
    }
    assert(scene.deep_view() =~= before);
    if ui.menu().is_open() {
        render_menu(scene, area, prompt, ui.menu());
    } else {
        assert(scene.deep_view() =~= before + Seq::empty());
    }
}

#[verifier::spinoff_prover]
fn render_chat(
    scene: &mut Vec<ScreenElement>,
    area: Rect,
    input_width: u16,
    projection: &ChatProjection,
    ui: &mut UiState,
    rows: &Vec<Rect>,
) -> (prompt: Rect)
    requires
        old(ui).state().wf(),
        rows@.len() == 3,
    ensures
        prompt == main_parts(area, input_width, rows@).1,
        final(scene).deep_view() == old(scene).deep_view() + chat_scene(
            area,
            input_width,
            projection.deep_view(),
            old(ui).state(),
            rows@,
        ),
        final(ui).state() == chat_ui(
            area,
            input_width,
            projection.deep_view(),
            old(ui).state(),
            rows@,
        ),
{
    let ghost before = scene.deep_view();
    let ghost state = ui.state();
    let ghost chat = projection.deep_view();
    let width: u16 = least(input_width, area.width);
    let mut prompt = rows[1];
    let mut status = rows[2];
    prompt.width = width;
    status.width = width;
    assert((rows@[0], prompt, status) == main_parts(area, input_width, rows@));
    render_transcript(scene, rows[0], projection, ui);
    let ghost transcript = transcript_scene(rows@[0], chat, state);
    if !prompt.is_empty() {
        render_prompt(scene, prompt, ui);
        assert(scene.deep_view() =~= before + (transcript + prompt_scene(prompt, state.editor)));
    } else {
        assert(scene.deep_view() =~= before + (transcript + Seq::empty()));
    }
    let line = one_line(status_line(projection, ui));
    show(scene, text_at(status, line, Style::plain(), Wrapping::Cut));
    assert(scene.deep_view() =~= before + chat_scene(area, input_width, chat, state, rows@));
    prompt
}

fn render_main(
    scene: &mut Vec<ScreenElement>,
    area: Rect,
    input_width: u16,
    projection: &ChatProjection,
    ui: &mut UiState,
    parts: &ScreenParts,
)
    requires
        old(ui).state().wf(),
        parts.rows@.len() == 3,
        parts.modal@.len() == modal_count(area, old(ui).state()),
    ensures
        final(scene).deep_view() == old(scene).deep_view() + main_scene(
            area,
            input_width,
            projection.deep_view(),
            old(ui).state(),
            parts.rows@,
            parts.modal@,
        ),
        final(ui).state() == main_ui(
            area,
            input_width,
            projection.deep_view(),
            old(ui).state(),
            parts.rows@,
            parts.modal@,
        ),
        final(ui).state().wf(),
{
    let ghost before = scene.deep_view();
    let ghost state = ui.state();
    let ghost chat = projection.deep_view();
    let prompt = render_chat(scene, area, input_width, projection, ui, &parts.rows);
    proof {
        lemma_scroll_stays_valid(area, input_width, chat, state, parts.rows@);
    }
    render_popups(scene, area, prompt, projection, ui, &parts.modal);
    assert(scene.deep_view() =~= before + main_scene(
        area,
        input_width,
        chat,
        state,
        parts.rows@,
        parts.modal@,
    ));
}

proof fn lemma_scroll_stays_valid(
    area: Rect,
    input_width: u16,
    projection: ProjectionView,
    ui: UiView,
    rows: Seq<Rect>,
)
    requires
        ui.wf(),
    ensures
        chat_ui(area, input_width, projection, ui, rows).wf(),
{
}

/// The columns of a wide screen: the chat and the sidebar.
pub open spec fn wide_columns() -> Seq<Constraint> {
    seq![Constraint::Min(1), Constraint::Length(SIDEBAR_WIDTH)]
}

/// The area of a sidebar over the chat.
pub open spec fn overlay_area(area: Rect) -> Rect {
    let width = smaller16(area.width, SIDEBAR_WIDTH);
    Rect { x: area.right_edge().saturating_sub(width), width, ..area }
}

fn overlay_rect(area: Rect) -> (sidebar: Rect)
    ensures
        sidebar == overlay_area(area),
{
    let width: u16 = least(area.width, SIDEBAR_WIDTH);
    Rect { x: area.right().saturating_sub(width), y: area.y, width, height: area.height }
}

/// The areas into which the screen is divided: its columns where the sidebar stands beside the
/// chat, the rows of the chat, the parts of the session browser or of the popup where one is open,
/// and those of the sidebar where it is visible.
#[derive(Debug)]
pub struct ScreenParts {
    pub columns: Vec<Rect>,
    pub rows: Vec<Rect>,
    pub modal: Vec<Rect>,
    pub sidebar: Vec<Rect>,
}

/// Those areas as contracts see them.
pub struct PartsView {
    pub columns: Seq<Rect>,
    pub rows: Seq<Rect>,
    pub modal: Seq<Rect>,
    pub sidebar: Seq<Rect>,
}

impl DeepView for ScreenParts {
    type V = PartsView;

    open spec fn deep_view(&self) -> PartsView {
        PartsView {
            columns: self.columns@,
            rows: self.rows@,
            modal: self.modal@,
            sidebar: self.sidebar@,
        }
    }
}

/// The state of the screen once its width is known.
pub open spec fn measured(area: Rect, ui: UiView) -> UiView {
    UiView { frame_width: area.width, ..ui }
}

/// Whether the sidebar stands beside the chat.
pub open spec fn has_columns(area: Rect, ui: UiView) -> bool {
    ui.sidebar_visible(area.width) && area.width >= WIDE_SIDEBAR_MIN_WIDTH
}

/// The area of the chat.
pub open spec fn chat_area(area: Rect, ui: UiView, columns: Seq<Rect>) -> Rect {
    if has_columns(area, ui) {
        columns[0]
    } else {
        area
    }
}

/// The area of the sidebar.
pub open spec fn sidebar_area(area: Rect, ui: UiView, columns: Seq<Rect>) -> Rect {
    if has_columns(area, ui) {
        columns[1]
    } else {
        overlay_area(area)
    }
}

/// The columns that the prompt and the status may take.
pub open spec fn prompt_columns(area: Rect, ui: UiView, columns: Seq<Rect>) -> u16 {
    if !ui.sidebar_visible(area.width) {
        area.width
    } else if has_columns(area, ui) {
        columns[0].width
    } else {
        overlay_area(area).x.saturating_sub(area.x)
    }
}

/// Areas that divide the screen.
pub open spec fn divides_screen(area: Rect, ui: UiView, parts: PartsView) -> bool {
    let chat = chat_area(area, ui, parts.columns);
    &&& has_columns(area, ui) ==> are_parts(false, wide_columns(), area, parts.columns)
    &&& are_main_rows(chat, prompt_columns(area, ui, parts.columns), ui, parts.rows)
    &&& are_modal_parts(chat, ui, parts.modal)
    &&& ui.sidebar_visible(area.width) ==> are_sidebar_rows(
        sidebar_area(area, ui, parts.columns),
        parts.sidebar,
    )
}

/// As many areas as the screen is divided into.
pub open spec fn counts_screen(area: Rect, ui: UiView, parts: PartsView) -> bool {
    &&& has_columns(area, ui) ==> parts.columns.len() == 2
    &&& parts.rows.len() == 3
    &&& parts.modal.len() == modal_count(chat_area(area, ui, parts.columns), ui)
    &&& ui.sidebar_visible(area.width) ==> parts.sidebar.len() == 2
}

/// The whole screen, with the areas into which it is divided.
pub open spec fn screen_scene(
    area: Rect,
    projection: ProjectionView,
    ui: UiView,
    parts: PartsView,
) -> Seq<ElementView> {
    let ui = measured(area, ui);
    let chat = chat_area(area, ui, parts.columns);
    let width = prompt_columns(area, ui, parts.columns);
    let sidebar = sidebar_area(area, ui, parts.columns);
    if area.width < MIN_WIDTH || area.height < MIN_HEIGHT {
        seq![
            text_element(
                area,
                seq![line_view("terminal too small (minimum 20×3)"@, plain_style())],
                plain_style(),
                Wrapping::Cut,
            ),
        ]
    } else if !ui.sidebar_visible(area.width) {
        main_scene(chat, width, projection, ui, parts.rows, parts.modal)
    } else if has_columns(area, ui) {
        main_scene(chat, width, projection, ui, parts.rows, parts.modal) + sidebar_scene(
            sidebar,
            plan_of(projection),
            parts.sidebar,
        )
    } else {
        main_scene(chat, width, projection, ui, parts.rows, parts.modal).push(
            Element::Clear { area: sidebar },
        ) + sidebar_scene(sidebar, plan_of(projection), parts.sidebar) + modal_scene(
            chat,
            projection,
            main_ui(chat, width, projection, ui, parts.rows, parts.modal),
            parts.modal,
        )
    }
}

/// The state of the screen once it is shown.
pub open spec fn screen_ui(
    area: Rect,
    projection: ProjectionView,
    ui: UiView,
    parts: PartsView,
) -> UiView {
    let ui = measured(area, ui);
    let chat = chat_area(area, ui, parts.columns);
    let width = prompt_columns(area, ui, parts.columns);
    let shown = main_ui(chat, width, projection, ui, parts.rows, parts.modal);
    if area.width < MIN_WIDTH || area.height < MIN_HEIGHT {
        ui
    } else if !ui.sidebar_visible(area.width) || has_columns(area, ui) {
        shown
    } else {
        modal_ui(chat, shown, parts.modal)
    }
}

/// Divides the screen.
pub fn divide_screen(area: Rect, ui: &UiState) -> (parts: ScreenParts)
    ensures
        divides_screen(area, ui.state(), parts.deep_view()),
        counts_screen(area, ui.state(), parts.deep_view()),
{
    if !ui.sidebar_visible(area.width) {
        return ScreenParts {
            columns: Vec::new(),
            rows: divide_main(area, area.width, ui),
            modal: divide_modal(area, ui),
            sidebar: Vec::new(),
        };
    }
    if area.width < WIDE_SIDEBAR_MIN_WIDTH {
        let sidebar = overlay_rect(area);
        return ScreenParts {
            columns: Vec::new(),
            rows: divide_main(area, sidebar.x.saturating_sub(area.x), ui),
            modal: divide_modal(area, ui),
            sidebar: divide_sidebar(sidebar),
        };
    }
    let constraints = [Constraint::Min(1), Constraint::Length(SIDEBAR_WIDTH)];
    assert(constraints@ =~= wide_columns());
    let columns = split_area(false, &constraints, area);
    let chat = columns[0];
    let sidebar = columns[1];
    ScreenParts {
        columns,
        rows: divide_main(chat, chat.width, ui),
        modal: divide_modal(chat, ui),
        sidebar: divide_sidebar(sidebar),
    }
}

/// Composes the whole screen from the areas into which it is divided.
pub fn render_parts(
    area: Rect,
    projection: &ChatProjection,
    ui: &mut UiState,
    parts: &ScreenParts,
) -> (scene: Vec<ScreenElement>)
    requires
        old(ui).state().wf(),
        counts_screen(area, measured(area, old(ui).state()), parts.deep_view()),
    ensures
        scene.deep_view() == screen_scene(
            area,
            projection.deep_view(),
            old(ui).state(),
            parts.deep_view(),
        ),
        final(ui).state() == screen_ui(
            area,
            projection.deep_view(),
            old(ui).state(),
            parts.deep_view(),
        ),
        final(ui).state().wf(),
{
    let ghost shown = screen_scene(area, projection.deep_view(), ui.state(), parts.deep_view());
    let mut scene: Vec<ScreenElement> = Vec::new();
    assert(scene.deep_view() =~= Seq::empty());
    ui.record_frame_width(area.width);
    if area.width < MIN_WIDTH || area.height < MIN_HEIGHT {
        let message = styled_line("terminal too small (minimum 20×3)".to_owned(), Style::plain());
        show(&mut scene, text_at(area, one_line(message), Style::plain(), Wrapping::Cut));
        assert(scene.deep_view() =~= shown);
        return scene;
    }
    if !ui.sidebar_visible(area.width) {
        render_main(&mut scene, area, area.width, projection, ui, parts);
    } else if area.width >= WIDE_SIDEBAR_MIN_WIDTH {
        let chat = parts.columns[0];
        render_main(&mut scene, chat, chat.width, projection, ui, parts);
        render_sidebar(&mut scene, parts.columns[1], projection, &parts.sidebar);
    } else {
        let sidebar = overlay_rect(area);
        let width: u16 = sidebar.x.saturating_sub(area.x);
        render_main(&mut scene, area, width, projection, ui, parts);
        show(&mut scene, Element::Clear { area: sidebar });
        render_sidebar(&mut scene, sidebar, projection, &parts.sidebar);
        let _ = render_modal_overlay(&mut scene, area, projection, ui, &parts.modal);
    }
    assert(scene.deep_view() =~= shown);
    scene
}

/// Composes the whole screen. Which areas the session browser and the compact help are divided
/// into is for the layout to choose where there is no room for all.
pub fn render(area: Rect, projection: &ChatProjection, ui: &mut UiState) -> (scene: Vec<
    ScreenElement,
>)
    requires
        old(ui).state().wf(),
    ensures
        exists|parts: PartsView|
            {
                &&& #[trigger] divides_screen(area, measured(area, old(ui).state()), parts)
                &&& scene.deep_view() == screen_scene(
                    area,
                    projection.deep_view(),
                    old(ui).state(),
                    parts,
                )
                &&& final(ui).state() == screen_ui(
                    area,
                    projection.deep_view(),
                    old(ui).state(),
                    parts,
                )
            },
        final(ui).state().wf(),
{
    let ghost before = ui.state();
    ui.record_frame_width(area.width);
    let parts = divide_screen(area, ui);
    let scene = render_parts(area, projection, ui, &parts);
    assert(divides_screen(area, measured(area, before), parts.deep_view()));
    scene
}

/// Showing the screen changes nothing but where it is scrolled to, how wide it was, and how high
/// the list of sessions is.
pub proof fn lemma_showing_keeps_the_content(
    area: Rect,
    projection: ProjectionView,
    ui: UiView,
    parts: PartsView,
)
    ensures
        screen_ui(area, projection, ui, parts).editor.value == ui.editor.value,
        screen_ui(area, projection, ui, parts).editor.cursor == ui.editor.cursor,
        screen_ui(area, projection, ui, parts).menu == ui.menu,
        screen_ui(area, projection, ui, parts).popup == ui.popup,
        screen_ui(area, projection, ui, parts).notices == ui.notices,
        screen_ui(area, projection, ui, parts).local_error == ui.local_error,
        screen_ui(area, projection, ui, parts).needs_redraw == ui.needs_redraw,
        screen_ui(area, projection, ui, parts).welcome_dismissed == ui.welcome_dismissed,
        screen_ui(area, projection, ui, parts).browser.visible == ui.browser.visible,
        screen_ui(area, projection, ui, parts).browser.selected_id == ui.browser.selected_id,
        screen_ui(area, projection, ui, parts).browser.open == ui.browser.open,
        screen_ui(area, projection, ui, parts).browser.query == ui.browser.query,
        screen_ui(area, projection, ui, parts).browser.layer == ui.browser.layer,
{
}

/// A screen that is too small shows nothing but that it is.
pub proof fn lemma_small_screens_say_so(
    area: Rect,
    projection: ProjectionView,
    ui: UiView,
    parts: PartsView,
)
    requires
        area.width < MIN_WIDTH || area.height < MIN_HEIGHT,
    ensures
        screen_scene(area, projection, ui, parts).len() == 1,
        screen_scene(area, projection, ui, parts)[0] == text_element(
            area,
            seq![line_view("terminal too small (minimum 20×3)"@, plain_style())],
            plain_style(),
            Wrapping::Cut,
        ),
{
}

/// Where the screen is not too small, the status is the last row of the chat, the prompt stands
/// directly above it, and the transcript takes the rest.
pub proof fn lemma_prompt_and_status_are_at_the_bottom(
    area: Rect,
    input_width: u16,
    ui: UiView,
    rows: Seq<Rect>,
)
    requires
        are_main_rows(area, input_width, ui, rows),
        area.y + area.height <= u16::MAX,
        area.height >= MIN_HEIGHT,
    ensures
        ({
            let (transcript, prompt, status) = main_parts(area, input_width, rows);
            let height = prompt_rows(input_area(area, input_width), ui.editor);
            &&& transcript.y == area.y
            &&& transcript.height == area.height - height - STATUS_HEIGHT
            &&& transcript.width == area.width
            &&& prompt.y == transcript.y + transcript.height
            &&& prompt.height == height
            &&& status.y == prompt.y + prompt.height
            &&& status.height == STATUS_HEIGHT
            &&& status.y + status.height == area.y + area.height
        }),
{
    let height = prompt_rows(input_area(area, input_width), ui.editor);
    let constraints = main_constraints(height);
    let room = area.height as int;
    assert(constraints.drop_last() =~= seq![Constraint::Min(1), Constraint::Length(height)]);
    assert(constraints.drop_last().drop_last() =~= seq![Constraint::Min(1)]);
    assert(constraints.drop_last().drop_last().drop_last() =~= Seq::empty());
    reveal_with_fuel(growing_parts, 4);
    reveal_with_fuel(least_total, 4);
    reveal_with_fuel(length_total, 4);
    reveal_with_fuel(fitted_start, 4);
    assert(is_part(true, constraints, area, 0, rows[0]));
    assert(is_part(true, constraints, area, 1, rows[1]));
    assert(is_part(true, constraints, area, 2, rows[2]));
}

/// The areas of the chat lie on the screen, and where the sidebar stands beside the chat the two
/// divide the screen between them.
pub proof fn lemma_parts_are_on_the_screen(area: Rect, ui: UiView, parts: PartsView, i: int)
    requires
        divides_screen(area, ui, parts),
        area.x + area.width <= u16::MAX,
        area.y + area.height <= u16::MAX,
        0 <= i < 3,
    ensures
        area.x <= parts.rows[i].x,
        parts.rows[i].x + parts.rows[i].width <= area.x + area.width,
        area.y <= parts.rows[i].y,
        parts.rows[i].y + parts.rows[i].height <= area.y + area.height,
        has_columns(area, ui) ==> {
            let (chat, sidebar) = (parts.columns[0], parts.columns[1]);
            &&& chat.x == area.x
            &&& chat.width == area.width - SIDEBAR_WIDTH
            &&& sidebar.x == chat.x + chat.width
            &&& sidebar.width == SIDEBAR_WIDTH
            &&& chat.y == area.y && chat.height == area.height
            &&& sidebar.y == area.y && sidebar.height == area.height
        },
{
    let chat = chat_area(area, ui, parts.columns);
    let width = prompt_columns(area, ui, parts.columns);
    let rows = main_constraints(prompt_rows(input_area(chat, width), ui.editor));
    assert(is_part(true, rows, chat, i, parts.rows[i]));
    if has_columns(area, ui) {
        let constraints = wide_columns();
        assert(constraints.drop_last() =~= seq![Constraint::Min(1)]);
        assert(constraints.drop_last().drop_last() =~= Seq::empty());
        reveal_with_fuel(growing_parts, 3);
        reveal_with_fuel(least_total, 3);
        reveal_with_fuel(length_total, 3);
        reveal_with_fuel(fitted_start, 3);
        assert(is_part(false, constraints, area, 0, parts.columns[0]));
        assert(is_part(false, constraints, area, 1, parts.columns[1]));
    }
}

/// A menu lies between the top of the screen and the prompt.
pub proof fn lemma_menu_is_above_the_prompt(area: Rect, prompt: Rect, items: Seq<ItemView>)
    requires
        !area.is_void(),
        area.y <= prompt.y,
    ensures
        area.y <= menu_area(area, prompt, items).y,
        menu_area(area, prompt, items).y + menu_area(area, prompt, items).height == prompt.y,
        menu_area(area, prompt, items).width <= area.width,
{
}

/// The greeting is there only in a chat without items or run, until it is dismissed, and only
/// where notices leave room for it.
pub proof fn lemma_only_empty_chats_greet(area: Rect, projection: ProjectionView, ui: UiView)
    ensures
        shows_welcome(area, projection, ui) ==> !ui.welcome_dismissed && (projection is Session
            ==> projection->Session_0.transcript.len() == 0
            && projection->Session_0.active_run is None) && entries_height(
            chat_entries(projection, ui),
            area.width,
        ) < area.height,
        !ui.welcome_dismissed && projection is Draft && ui.notices.len() == 0 && area.height > 0
            ==> shows_welcome(area, projection, ui),
        !shows_welcome(area, projection, ui) && !area.is_void() ==> transcript_scene(
            area,
            projection,
            ui,
        ) == entries_scene(chat_entries(projection, ui), area, ui.scroll),
{
    if projection is Draft && ui.notices.len() == 0 {
        assert(chat_entries(projection, ui) =~= Seq::empty());
    }
}

/// The prompt is as high as its rows, but at least one row and at most four, and always leaves a
/// row for the transcript and one for the status.
pub proof fn lemma_the_prompt_grows_to_four_rows(area: Rect, editor: EditorState)
    ensures
        1 <= prompt_rows(area, editor) <= 4,
        area.height >= 3 ==> prompt_rows(area, editor) + 2 <= area.height,
        ({
            let rows = rows_of(editor.pieces(), area.width.saturating_sub(2)).len();
            1 <= rows <= 4 && rows + 2 <= area.height ==> prompt_rows(area, editor) == rows
        }),
        ({
            let rows = rows_of(editor.pieces(), area.width.saturating_sub(2)).len();
            rows > 4 && area.height >= 6 ==> prompt_rows(area, editor) == 4
        }),
{
}

/// The first row of the prompt is marked and the others stand below it.
pub proof fn lemma_the_first_row_is_marked(rows: Seq<Seq<char>>, index: int)
    requires
        0 <= index < rows.len(),
    ensures
        marked_rows(rows).len() == rows.len(),
        marked_rows(rows)[index].len() == 2,
        marked_rows(rows)[index][1].content == rows[index],
        index == 0 ==> marked_rows(rows)[index][0].content == "❯ "@,
        index > 0 ==> marked_rows(rows)[index][0].content == "  "@,
{
}

/// A menu shows every item with its description, under the title of its kind, with the selected
/// one highlighted; at most five are in view.
pub proof fn lemma_menus_show_their_items(area: Rect, prompt: Rect, menu: MenuView)
    requires
        menu.kind is Some,
        area.y < prompt.y,
    ensures
        ({
            let scene = menu_scene(area, prompt, menu);
            &&& scene.len() == 2
            &&& scene[1] is Menu
            &&& scene[1]->Menu_items.len() == menu.items.len()
            &&& forall|i: int|
                0 <= i < menu.items.len() ==> #[trigger] scene[1]->Menu_items[i] == line_view(
                    menu.items[i].value + "  "@ + menu.items[i].description,
                    plain_style(),
                )
            &&& 0 <= menu.selected <= usize::MAX ==> scene[1]->Menu_selected == menu.selected
            &&& scene[1]->Menu_area.height <= 7
            &&& scene[1]->Menu_area.y + scene[1]->Menu_area.height == prompt.y
            &&& menu.kind == Some(MenuKind::Commands) ==> scene[1]->Menu_title == "commands"@
            &&& menu.kind == Some(MenuKind::Models) ==> scene[1]->Menu_title == "models"@
            &&& menu.kind == Some(MenuKind::Efforts) ==> scene[1]->Menu_title == "effort"@
            &&& menu.kind == Some(MenuKind::Processes) ==> scene[1]->Menu_title == "processes"@
        }),
{
}

/// An open browser covers the help, and either covers the chat.
pub proof fn lemma_the_browser_covers_the_help(
    area: Rect,
    projection: ProjectionView,
    ui: UiView,
    parts: Seq<Rect>,
)
    ensures
        ui.browser.open ==> modal_scene(area, projection, ui, parts) == browser_scene(
            area,
            ui.browser,
            if projection is Session {
                Some(projection->Session_0.summary.id)
            } else {
                None
            },
            parts,
        ),
        !ui.browser.open && ui.popup is Some ==> modal_scene(area, projection, ui, parts)
            == help_scene(area, parts),
        !ui.browser.open && ui.popup is None ==> modal_scene(area, projection, ui, parts).len()
            == 0,
        is_modal(ui) <==> ui.browser.open || ui.popup is Some,
{
}

/// From 20 columns and 3 rows on there is a chat. The sidebar stands beside it from 121 columns
/// on, and over it on fewer.
pub proof fn lemma_screens_of_every_size_are_divided(
    area: Rect,
    projection: ProjectionView,
    ui: UiView,
    parts: PartsView,
)
    requires
        area.width >= 20,
        area.height >= 3,
    ensures
        ({
            let measured = UiView { frame_width: area.width, ..ui };
            let scene = screen_scene(area, projection, ui, parts);
            let beside = ui.sidebar_visible(area.width) && area.width > 120;
            &&& !ui.sidebar_visible(area.width) ==> scene == main_scene(
                area,
                area.width,
                projection,
                measured,
                parts.rows,
                parts.modal,
            )
            &&& beside ==> scene == main_scene(
                parts.columns[0],
                parts.columns[0].width,
                projection,
                measured,
                parts.rows,
                parts.modal,
            ) + sidebar_scene(parts.columns[1], plan_of(projection), parts.sidebar)
            &&& ui.sidebar_visible(area.width) && !beside ==> sidebar_area(area, ui, parts.columns)
                == overlay_area(area) && chat_area(area, ui, parts.columns) == area
        }),
{
}

} // verus!
