//! The help over the screen.

use vstd::prelude::*;

use super::layout::{
    are_parts, greatest, halves_around, is_part, larger16, least, line_view, one_line, push_line, push_span, show,
    smaller16, span, span_view, split_area, styled_line, text_at, text_element, Alignment,
    Constraint, Edges, Element, ElementView, Rect, ScreenElement, Wrapping,
};
use super::style::{dim_style, plain_style, Color, Line, SpanView, Style};
use crate::text::chars_of;

verus! {

/// How the help is arranged.
#[derive(Clone, Copy, Debug, PartialEq, Eq, Structural)]
pub enum HelpLayout {
    Wide,
    Narrow,
    Compact,
}

/// The width from which the help is wide.
pub const HELP_WIDE_MIN_WIDTH: u16 = 72;

/// The height from which the help is wide.
pub const HELP_WIDE_MIN_HEIGHT: u16 = 16;

/// The height from which the help is narrow.
pub const HELP_NARROW_MIN_HEIGHT: u16 = 22;

/// Cyan and bold.
pub open spec fn key_style() -> Style {
    Style { fg: Some(Color::Cyan), bold: true, ..plain_style() }
}

/// Creates [`key_style`].
pub fn cyan_bold() -> (style: Style)
    ensures
        style == key_style(),
{
    Style::plain().with_fg(Color::Cyan).with_bold()
}

/// A heading, or a key alone.
pub open spec fn key_line(label: Seq<char>) -> Seq<SpanView> {
    line_view(label, key_style())
}

fn help_heading(label: &'static str) -> (line: Line)
    ensures
        line.deep_view() == key_line(label@),
{
    styled_line(label.to_owned(), cyan_bold())
}

/// A text filled with blanks up to a width.
pub open spec fn padded(text: Seq<char>, width: int) -> Seq<char> {
    text + Seq::new(
        if text.len() < width {
            (width - text.len()) as nat
        } else {
            0
        },
        |i: int| ' ',
    )
}

/// A key, filled up, with what it does.
pub open spec fn row_line(key: Seq<char>, description: Seq<char>) -> Seq<SpanView> {
    seq![
        span_view(padded(key, 15), key_style()),
        span_view("  "@, plain_style()),
        span_view(description, plain_style()),
    ]
}

fn help_row(key: &'static str, description: &'static str) -> (line: Line)
    ensures
        line.deep_view() == row_line(key@, description@),
{
    let mut label = key.to_owned();
    let mut width: usize = chars_of(key).len();
    let ghost given = width as int;
    while width < 15
        invariant
            given == key@.len(),
            given <= width,
            width <= 15 || width == given,
            label@ == key@ + Seq::new((width - given) as nat, |i: int| ' '),
        decreases 15 - width,
    {
        label.push(' ');
        width += 1;
        assert(label@ =~= key@ + Seq::new((width - given) as nat, |i: int| ' '));
    }
    assert(label@ =~= padded(key@, 15));
    let mut line = Line { spans: Vec::new() };
    push_span(&mut line, span(label, cyan_bold()));
    push_span(&mut line, span("  ".to_owned(), Style::plain()));
    push_span(&mut line, span(description.to_owned(), Style::plain()));
    assert(line.deep_view() =~= row_line(key@, description@));
    line
}

/// A key with what it does.
pub open spec fn brief_line(key: Seq<char>, description: Seq<char>) -> Seq<SpanView> {
    seq![
        span_view(key, key_style()),
        span_view(" "@, plain_style()),
        span_view(description, plain_style()),
    ]
}

fn compact_row(key: &'static str, description: &'static str) -> (line: Line)
    ensures
        line.deep_view() == brief_line(key@, description@),
{
    let mut line = Line { spans: Vec::new() };
    push_span(&mut line, span(key.to_owned(), cyan_bold()));
    push_span(&mut line, span(" ".to_owned(), Style::plain()));
    push_span(&mut line, span(description.to_owned(), Style::plain()));
    assert(line.deep_view() =~= brief_line(key@, description@));
    line
}

/// The left column of the wide help.
pub open spec fn wide_left_lines() -> Seq<Seq<SpanView>> {
    seq![
        key_line("Prompt"@),
        row_line("Enter"@, "Send message"@),
        row_line("Shift+Enter"@, "New line"@),
        row_line("Ctrl+← / →"@, "Move by word"@),
        row_line("Ctrl+⌫ / Del"@, "Delete by word"@),
        Seq::empty(),
        key_line("Commands"@),
        row_line("/"@, "Show commands"@),
        row_line("/cancel"@, "Cancel request"@),
        row_line("/model [id]"@, "Set model"@),
        row_line("/effort [level]"@, "Set reasoning"@),
        row_line("/ps"@, "Running processes"@),
        row_line("/kill job-N"@, "Stop process"@),
    ]
}

fn wide_left_help() -> (lines: Vec<Line>)
    ensures
        lines.deep_view() == wide_left_lines(),
{
    let mut lines: Vec<Line> = Vec::new();
    push_line(&mut lines, help_heading("Prompt"));
    push_line(&mut lines, help_row("Enter", "Send message"));
    push_line(&mut lines, help_row("Shift+Enter", "New line"));
    push_line(&mut lines, help_row("Ctrl+← / →", "Move by word"));
    push_line(&mut lines, help_row("Ctrl+⌫ / Del", "Delete by word"));
    push_line(&mut lines, styled_line(String::new(), Style::plain()));
    push_line(&mut lines, help_heading("Commands"));
    push_line(&mut lines, help_row("/", "Show commands"));
    push_line(&mut lines, help_row("/cancel", "Cancel request"));
    push_line(&mut lines, help_row("/model [id]", "Set model"));
    push_line(&mut lines, help_row("/effort [level]", "Set reasoning"));
    push_line(&mut lines, help_row("/ps", "Running processes"));
    push_line(&mut lines, help_row("/kill job-N", "Stop process"));
    assert(lines.deep_view() =~= wide_left_lines());
    lines
}

/// The right column of the wide help.
pub open spec fn wide_right_lines() -> Seq<Seq<SpanView>> {
    seq![
        key_line("Navigation"@),
        row_line("↑ / ↓"@, "Select item"@),
        row_line("Tab"@, "Complete selection"@),
        row_line("PgUp/PgDn/wheel"@, "Scroll"@),
        row_line("End"@, "Follow latest"@),
        Seq::empty(),
        key_line("Settings"@),
        row_line("Ctrl+L"@, "Choose model"@),
        row_line("Ctrl+R / ⇧Tab"@, "Reasoning effort"@),
        Seq::empty(),
        key_line("General"@),
        row_line("Ctrl+C"@, "Exit moh"@),
        row_line("Ctrl+T"@, "Toggle sidebar"@),
    ]
}

fn wide_right_help() -> (lines: Vec<Line>)
    ensures
        lines.deep_view() == wide_right_lines(),
{
    let mut lines: Vec<Line> = Vec::new();
    push_line(&mut lines, help_heading("Navigation"));
    push_line(&mut lines, help_row("↑ / ↓", "Select item"));
    push_line(&mut lines, help_row("Tab", "Complete selection"));
    push_line(&mut lines, help_row("PgUp/PgDn/wheel", "Scroll"));
    push_line(&mut lines, help_row("End", "Follow latest"));
    push_line(&mut lines, styled_line(String::new(), Style::plain()));
    push_line(&mut lines, help_heading("Settings"));
    push_line(&mut lines, help_row("Ctrl+L", "Choose model"));
    push_line(&mut lines, help_row("Ctrl+R / ⇧Tab", "Reasoning effort"));
    push_line(&mut lines, styled_line(String::new(), Style::plain()));
    push_line(&mut lines, help_heading("General"));
    push_line(&mut lines, help_row("Ctrl+C", "Exit moh"));
    push_line(&mut lines, help_row("Ctrl+T", "Toggle sidebar"));
    assert(lines.deep_view() =~= wide_right_lines());
    lines
}

/// The narrow help.
pub open spec fn narrow_lines() -> Seq<Seq<SpanView>> {
    seq![
        key_line("Prompt"@),
        row_line("Enter"@, "Send message"@),
        row_line("Shift+Enter"@, "New line"@),
        row_line("Ctrl+← / →"@, "Move by word"@),
        row_line("Ctrl+⌫ / Del"@, "Delete by word"@),
        key_line("Commands"@),
        row_line("/"@, "Show commands"@),
        row_line("/cancel"@, "Cancel request"@),
        row_line("/model [id]"@, "Set model"@),
        row_line("/effort [level]"@, "Set reasoning"@),
        row_line("/ps"@, "Running processes"@),
        row_line("/kill job-N"@, "Stop process"@),
        key_line("Shortcuts"@),
        row_line("↑ / ↓"@, "Select item"@),
        row_line("Tab"@, "Complete selection"@),
        row_line("PgUp/PgDn/wheel"@, "Scroll"@),
        row_line("End"@, "Follow latest"@),
        row_line("Ctrl+L / Ctrl+R / ⇧Tab"@, "Model / effort"@),
        row_line("Ctrl+C"@, "Exit moh"@),
        row_line("Ctrl+T"@, "Toggle sidebar"@),
    ]
}

fn narrow_help() -> (lines: Vec<Line>)
    ensures
        lines.deep_view() == narrow_lines(),
{
    let mut lines: Vec<Line> = Vec::new();
    push_line(&mut lines, help_heading("Prompt"));
    push_line(&mut lines, help_row("Enter", "Send message"));
    push_line(&mut lines, help_row("Shift+Enter", "New line"));
    push_line(&mut lines, help_row("Ctrl+← / →", "Move by word"));
    push_line(&mut lines, help_row("Ctrl+⌫ / Del", "Delete by word"));
    push_line(&mut lines, help_heading("Commands"));
    push_line(&mut lines, help_row("/", "Show commands"));
    push_line(&mut lines, help_row("/cancel", "Cancel request"));
    push_line(&mut lines, help_row("/model [id]", "Set model"));
    push_line(&mut lines, help_row("/effort [level]", "Set reasoning"));
    push_line(&mut lines, help_row("/ps", "Running processes"));
    push_line(&mut lines, help_row("/kill job-N", "Stop process"));
    push_line(&mut lines, help_heading("Shortcuts"));
    push_line(&mut lines, help_row("↑ / ↓", "Select item"));
    push_line(&mut lines, help_row("Tab", "Complete selection"));
    push_line(&mut lines, help_row("PgUp/PgDn/wheel", "Scroll"));
    push_line(&mut lines, help_row("End", "Follow latest"));
    push_line(&mut lines, help_row("Ctrl+L / Ctrl+R / ⇧Tab", "Model / effort"));
    push_line(&mut lines, help_row("Ctrl+C", "Exit moh"));
    push_line(&mut lines, help_row("Ctrl+T", "Toggle sidebar"));
    assert(lines.deep_view() =~= narrow_lines());
    lines
}

/// The left column of the compact help.
pub open spec fn compact_left_lines() -> Seq<Seq<SpanView>> {
    seq![
        key_line("Prompt"@),
        brief_line("Enter"@, "Send"@),
        brief_line("⇧↵"@, "Line"@),
        brief_line("C←/→"@, "Word"@),
        brief_line("C⌫/Del"@, "Del"@),
        brief_line("C-L/R"@, "Set"@),
        brief_line("C-C"@, "Exit"@),
    ]
}

fn compact_left_help() -> (lines: Vec<Line>)
    ensures
        lines.deep_view() == compact_left_lines(),
{
    let mut lines: Vec<Line> = Vec::new();
    push_line(&mut lines, help_heading("Prompt"));
    push_line(&mut lines, compact_row("Enter", "Send"));
    push_line(&mut lines, compact_row("⇧↵", "Line"));
    push_line(&mut lines, compact_row("C←/→", "Word"));
    push_line(&mut lines, compact_row("C⌫/Del", "Del"));
    push_line(&mut lines, compact_row("C-L/R", "Set"));
    push_line(&mut lines, compact_row("C-C", "Exit"));
    assert(lines.deep_view() =~= compact_left_lines());
    lines
}

/// The middle column of the compact help.
pub open spec fn compact_middle_lines() -> Seq<Seq<SpanView>> {
    seq![
        key_line("Commands"@),
        brief_line("/"@, "Commands"@),
        key_line("/cancel"@),
        key_line("/model"@),
        key_line("/effort"@),
        brief_line("/ps"@, "Jobs"@),
        brief_line("/kill"@, "Stop"@),
    ]
}

fn compact_middle_help() -> (lines: Vec<Line>)
    ensures
        lines.deep_view() == compact_middle_lines(),
{
    let mut lines: Vec<Line> = Vec::new();
    push_line(&mut lines, help_heading("Commands"));
    push_line(&mut lines, compact_row("/", "Commands"));
    push_line(&mut lines, help_heading("/cancel"));
    push_line(&mut lines, help_heading("/model"));
    push_line(&mut lines, help_heading("/effort"));
    push_line(&mut lines, compact_row("/ps", "Jobs"));
    push_line(&mut lines, compact_row("/kill", "Stop"));
    assert(lines.deep_view() =~= compact_middle_lines());
    lines
}

/// The right column of the compact help.
pub open spec fn compact_right_lines() -> Seq<Seq<SpanView>> {
    seq![
        key_line("Navigate"@),
        brief_line("↑/↓"@, "Select"@),
        brief_line("Tab"@, "Complete"@),
        line_view("PgUp/Dn"@, plain_style()),
        brief_line("Wheel"@, "Scroll"@),
        brief_line("End"@, "Follow"@),
        brief_line("S-Tab"@, "Cycle"@),
    ]
}

fn compact_right_help() -> (lines: Vec<Line>)
    ensures
        lines.deep_view() == compact_right_lines(),
{
    let mut lines: Vec<Line> = Vec::new();
    push_line(&mut lines, help_heading("Navigate"));
    push_line(&mut lines, compact_row("↑/↓", "Select"));
    push_line(&mut lines, compact_row("Tab", "Complete"));
    push_line(&mut lines, styled_line("PgUp/Dn".to_owned(), Style::plain()));
    push_line(&mut lines, compact_row("Wheel", "Scroll"));
    push_line(&mut lines, compact_row("End", "Follow"));
    push_line(&mut lines, compact_row("S-Tab", "Cycle"));
    assert(lines.deep_view() =~= compact_right_lines());
    lines
}

/// The area that the help may take.
pub open spec fn help_space(area: Rect) -> Rect {
    let across: u16 = if area.width > 2 {
        1
    } else {
        0
    };
    let down: u16 = if area.height >= 12 {
        1
    } else {
        0
    };
    Rect {
        x: area.x.saturating_add(across),
        y: area.y.saturating_add(down),
        width: area.width.saturating_sub((2 * across) as u16),
        height: area.height.saturating_sub((2 * down) as u16),
    }
}

/// How the help is arranged in an area.
pub open spec fn help_layout(available: Rect) -> HelpLayout {
    if available.width >= HELP_WIDE_MIN_WIDTH && available.height >= HELP_WIDE_MIN_HEIGHT {
        HelpLayout::Wide
    } else if available.height >= HELP_NARROW_MIN_HEIGHT {
        HelpLayout::Narrow
    } else {
        HelpLayout::Compact
    }
}

/// The width and height that an arrangement takes where it can.
pub open spec fn help_size(layout: HelpLayout) -> (u16, u16) {
    match layout {
        HelpLayout::Wide => (76, HELP_WIDE_MIN_HEIGHT),
        HelpLayout::Narrow => (48, HELP_NARROW_MIN_HEIGHT),
        HelpLayout::Compact => (40, 10),
    }
}

/// The area of the help.
pub open spec fn help_area(area: Rect) -> Rect {
    let available = help_space(area);
    let size = help_size(help_layout(available));
    available.middle(
        larger16(smaller16(available.width, size.0), 1),
        larger16(smaller16(available.height, size.1), 1),
    )
}

/// The area of the help's text.
pub open spec fn help_content(area: Rect) -> Rect {
    let inner = help_area(area).within_border();
    Rect { height: inner.height.saturating_sub(1), ..inner }
}

/// The columns of an arrangement, with those between the texts; the narrow one has none.
pub open spec fn help_columns(layout: HelpLayout) -> Seq<Constraint> {
    match layout {
        HelpLayout::Wide => {
            seq![Constraint::Fill(1), Constraint::Length(2), Constraint::Fill(1)]
        },
        HelpLayout::Narrow => Seq::empty(),
        HelpLayout::Compact => {
            seq![
                Constraint::Length(11),
                Constraint::Length(1),
                Constraint::Length(11),
                Constraint::Length(1),
                Constraint::Fill(1),
            ]
        },
    }
}

/// Areas that are columns of the help.
pub open spec fn are_help_columns(area: Rect, columns: Seq<Rect>) -> bool {
    are_parts(false, help_columns(help_layout(help_space(area))), help_content(area), columns)
}

/// The text of the help in an area with its columns.
pub open spec fn help_text(layout: HelpLayout, area: Rect, columns: Seq<Rect>) -> Seq<ElementView> {
    match layout {
        HelpLayout::Wide => {
            seq![
                text_element(columns[0], wide_left_lines(), plain_style(), Wrapping::Cut),
                text_element(columns[2], wide_right_lines(), plain_style(), Wrapping::Cut),
            ]
        },
        HelpLayout::Narrow => {
            seq![text_element(area, narrow_lines(), plain_style(), Wrapping::Cut)]
        },
        HelpLayout::Compact => {
            seq![
                text_element(columns[0], compact_left_lines(), plain_style(), Wrapping::Cut),
                text_element(columns[2], compact_middle_lines(), plain_style(), Wrapping::Cut),
                text_element(columns[4], compact_right_lines(), plain_style(), Wrapping::Cut),
            ]
        },
    }
}

/// The help over the screen, with its columns.
pub open spec fn help_scene(area: Rect, columns: Seq<Rect>) -> Seq<ElementView> {
    let frame = help_area(area);
    let inner = frame.within_border();
    let border = seq![
        Element::Clear { area: frame },
        Element::Panel {
            area: frame,
            edges: Edges::Rounded,
            style: Style { fg: Some(Color::DarkGray), ..plain_style() },
            title: " Help "@,
            title_style: key_style(),
        },
    ];
    if inner.is_void() {
        border
    } else {
        (border + help_text(help_layout(help_space(area)), help_content(area), columns)).push(
            Element::Text {
                area: Rect { y: inner.bottom_edge().saturating_sub(1), height: 1, ..inner },
                lines: seq![line_view("Ctrl+O help · Ctrl+T sidebar · Esc"@, dim_style())],
                style: plain_style(),
                wrapping: Wrapping::Cut,
                alignment: Alignment::Right,
                skipped: 0,
            },
        )
    }
}

fn show_help_text(
    scene: &mut Vec<ScreenElement>,
    layout: HelpLayout,
    area: Rect,
    columns: &Vec<Rect>,
)
    requires
        columns@.len() == help_columns(layout).len(),
    ensures
        final(scene).deep_view() == old(scene).deep_view() + help_text(layout, area, columns@),
{
    let ghost before = scene.deep_view();
    match layout {
        HelpLayout::Wide => {
            show(scene, text_at(columns[0], wide_left_help(), Style::plain(), Wrapping::Cut));
            show(scene, text_at(columns[2], wide_right_help(), Style::plain(), Wrapping::Cut));
        },
        HelpLayout::Narrow => {
            show(scene, text_at(area, narrow_help(), Style::plain(), Wrapping::Cut));
        },
        HelpLayout::Compact => {
            show(scene, text_at(columns[0], compact_left_help(), Style::plain(), Wrapping::Cut));
            show(scene, text_at(columns[2], compact_middle_help(), Style::plain(), Wrapping::Cut));
            show(scene, text_at(columns[4], compact_right_help(), Style::plain(), Wrapping::Cut));
        },
    }
    assert(scene.deep_view() =~= before + help_text(layout, area, columns@));
}

fn arranged_help(area: Rect) -> (arrangement: (HelpLayout, Rect))
    ensures
        arrangement == (help_layout(help_space(area)), help_area(area)),
{
    let across: u16 = if area.width > 2 { 1 } else { 0 };
    let down: u16 = if area.height >= 12 { 1 } else { 0 };
    let available = Rect {
        x: area.x.saturating_add(across),
        y: area.y.saturating_add(down),
        width: area.width.saturating_sub(2 * across),
        height: area.height.saturating_sub(2 * down),
    };
    let layout = if available.width >= HELP_WIDE_MIN_WIDTH && available.height
        >= HELP_WIDE_MIN_HEIGHT {
        HelpLayout::Wide
    } else if available.height >= HELP_NARROW_MIN_HEIGHT {
        HelpLayout::Narrow
    } else {
        HelpLayout::Compact
    };
    let (width, height) = match layout {
        HelpLayout::Wide => (76u16, HELP_WIDE_MIN_HEIGHT),
        HelpLayout::Narrow => (48u16, HELP_NARROW_MIN_HEIGHT),
        HelpLayout::Compact => (40u16, 10u16),
    };
    let frame = available.centered(
        greatest(least(available.width, width), 1),
        greatest(least(available.height, height), 1),
    );
    (layout, frame)
}

/// Divides the help into its columns.
pub fn divide_help(area: Rect) -> (columns: Vec<Rect>)
    ensures
        are_help_columns(area, columns@),
{
    let (layout, frame) = arranged_help(area);
    let inner = frame.inner(Edges::Rounded);
    let content = Rect {
        x: inner.x,
        y: inner.y,
        width: inner.width,
        height: inner.height.saturating_sub(1),
    };
    match layout {
        HelpLayout::Wide => {
            let constraints = [Constraint::Fill(1), Constraint::Length(2), Constraint::Fill(1)];
            assert(constraints@ =~= help_columns(layout));
            split_area(false, &constraints, content)
        },
        HelpLayout::Narrow => Vec::new(),
        HelpLayout::Compact => {
            let constraints = [
                Constraint::Length(11),
                Constraint::Length(1),
                Constraint::Length(11),
                Constraint::Length(1),
                Constraint::Fill(1),
            ];
            assert(constraints@ =~= help_columns(layout));
            split_area(false, &constraints, content)
        },
    }
}

/// Shows the help with its columns, which [`divide_help`] gives.
pub fn render_help(scene: &mut Vec<ScreenElement>, area: Rect, columns: &Vec<Rect>)
    requires
        columns@.len() == help_columns(help_layout(help_space(area))).len(),
    ensures
        final(scene).deep_view() == old(scene).deep_view() + help_scene(area, columns@),
{
    let ghost before = scene.deep_view();
    let (layout, frame) = arranged_help(area);
    let inner = frame.inner(Edges::Rounded);
    show(scene, Element::Clear { area: frame });
    show(
        scene,
        Element::Panel {
            area: frame,
            edges: Edges::Rounded,
            style: Style::plain().with_fg(Color::DarkGray),
            title: " Help ".to_owned(),
            title_style: cyan_bold(),
        },
    );
    if inner.is_empty() {
        assert(scene.deep_view() =~= before + help_scene(area, columns@));
        return;
    }
    show_help_text(
        scene,
        layout,
        Rect { x: inner.x, y: inner.y, width: inner.width, height: inner.height.saturating_sub(1) },
        columns,
    );
    show(
        scene,
        Element::Text {
            area: Rect {
                x: inner.x,
                y: inner.bottom().saturating_sub(1),
                width: inner.width,
                height: 1,
            },
            lines: one_line(
                styled_line("Ctrl+O help · Ctrl+T sidebar · Esc".to_owned(), Style::dimmed()),
            ),
            style: Style::plain(),
            wrapping: Wrapping::Cut,
            alignment: Alignment::Right,
            skipped: 0,
        },
    );
    assert(scene.deep_view() =~= before + help_scene(area, columns@));
}

/// The wide help stands in two columns on the same rows, with two cells between them; the left one
/// has an odd cell.
pub proof fn lemma_wide_help_has_two_columns(area: Rect, columns: Seq<Rect>)
    requires
        help_layout(help_space(area)) == HelpLayout::Wide,
        are_help_columns(area, columns),
        area.x + area.width <= u16::MAX,
    ensures
        ({
            let content = help_content(area);
            let (left, right) = (columns[0], columns[2]);
            &&& left.x == content.x
            &&& left.width == (content.width - 1) / 2
            &&& right.x == left.x + left.width + 2
            &&& right.width == (content.width - 2) / 2
            &&& right.x + right.width == content.x + content.width
            &&& left.y == content.y && left.height == content.height
            &&& right.y == content.y && right.height == content.height
        }),
{
    let constraints = help_columns(HelpLayout::Wide);
    let content = help_content(area);
    assert(halves_around(constraints, content.right_edge() - content.x));
    assert(is_part(false, constraints, content, 0, columns[0]));
    assert(is_part(false, constraints, content, 2, columns[2]));
}

/// The help lies within the screen.
pub proof fn lemma_help_is_on_the_screen(area: Rect)
    requires
        !area.is_void(),
        area.x + area.width <= u16::MAX,
        area.y + area.height <= u16::MAX,
    ensures
        area.x <= help_area(area).x,
        help_area(area).right_edge() <= area.right_edge(),
        area.y <= help_area(area).y,
        help_area(area).bottom_edge() <= area.bottom_edge(),
{
}

} // verus!
