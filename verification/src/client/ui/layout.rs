//! Areas of the screen and what is put there.

use ratatui::layout as outside;
use ratatui::text as outside_text;
use ratatui::widgets::{Paragraph, Wrap};
use vstd::prelude::*;

use super::style::{line_text, Line, Span, SpanView, Style};
use crate::text::chars_of;

verus! {

/// An area of the screen.
#[derive(Clone, Copy, Debug, PartialEq, Eq, Structural)]
pub struct Rect {
    pub x: u16,
    pub y: u16,
    pub width: u16,
    pub height: u16,
}

impl Rect {
    /// The first column to the right of the area.
    pub open spec fn right_edge(self) -> u16 {
        self.x.saturating_add(self.width)
    }

    /// The first row below the area.
    pub open spec fn bottom_edge(self) -> u16 {
        self.y.saturating_add(self.height)
    }

    /// The area has no cell.
    pub open spec fn is_void(self) -> bool {
        self.width == 0 || self.height == 0
    }

    /// Whether the area has no cell.
    pub fn is_empty(self) -> (empty: bool)
        ensures
            empty == self.is_void(),
    {
        self.width == 0 || self.height == 0
    }

    /// The first column to the right of the area.
    pub fn right(self) -> (right: u16)
        ensures
            right == self.right_edge(),
    {
        self.x.saturating_add(self.width)
    }

    /// The first row below the area.
    pub fn bottom(self) -> (bottom: u16)
        ensures
            bottom == self.bottom_edge(),
    {
        self.y.saturating_add(self.height)
    }

    /// The area within a border on the left.
    pub open spec fn right_of_rail(self) -> Rect {
        Rect {
            x: smaller16(self.x.saturating_add(1), self.right_edge()),
            width: self.width.saturating_sub(1),
            ..self
        }
    }

    /// The area within a border on every side.
    pub open spec fn within_border(self) -> Rect {
        Rect {
            x: smaller16(self.x.saturating_add(1), self.right_edge()),
            y: smaller16(self.y.saturating_add(1), self.bottom_edge()),
            width: self.width.saturating_sub(1).saturating_sub(1),
            height: self.height.saturating_sub(1).saturating_sub(1),
        }
    }

    /// The area within the border of a panel.
    pub fn inner(self, edges: Edges) -> (inner: Rect)
        ensures
            inner == match edges {
                Edges::Left => self.right_of_rail(),
                _ => self.within_border(),
            },
    {
        match edges {
            Edges::Left => Rect {
                x: least(self.x.saturating_add(1), self.right()),
                y: self.y,
                width: self.width.saturating_sub(1),
                height: self.height,
            },
            _ => Rect {
                x: least(self.x.saturating_add(1), self.right()),
                y: least(self.y.saturating_add(1), self.bottom()),
                width: self.width.saturating_sub(1).saturating_sub(1),
                height: self.height.saturating_sub(1).saturating_sub(1),
            },
        }
    }

    /// A smaller area in the middle of this one.
    pub open spec fn middle(self, width: u16, height: u16) -> Rect {
        Rect {
            x: self.x.saturating_add((self.width.saturating_sub(width) / 2) as u16),
            y: self.y.saturating_add((self.height.saturating_sub(height) / 2) as u16),
            width,
            height,
        }
    }

    /// A smaller area in the middle of this one.
    pub fn centered(self, width: u16, height: u16) -> (area: Rect)
        ensures
            area == self.middle(width, height),
    {
        Rect {
            x: self.x.saturating_add(self.width.saturating_sub(width) / 2),
            y: self.y.saturating_add(self.height.saturating_sub(height) / 2),
            width,
            height,
        }
    }
}

/// The smaller of two numbers.
pub open spec fn smaller16(left: u16, right: u16) -> u16 {
    if left < right {
        left
    } else {
        right
    }
}

/// The larger of two numbers.
pub open spec fn larger16(left: u16, right: u16) -> u16 {
    if left < right {
        right
    } else {
        left
    }
}

/// The smaller of two numbers.
pub fn least(left: u16, right: u16) -> (number: u16)
    ensures
        number == smaller16(left, right),
{
    if left < right {
        left
    } else {
        right
    }
}

/// The larger of two numbers.
pub fn greatest(left: u16, right: u16) -> (number: u16)
    ensures
        number == larger16(left, right),
{
    if left < right {
        right
    } else {
        left
    }
}

/// An area in the middle of another, no larger than it, lies within it.
pub proof fn lemma_middle_is_inside(area: Rect, width: u16, height: u16)
    requires
        width <= area.width,
        height <= area.height,
        area.x + area.width <= u16::MAX,
        area.y + area.height <= u16::MAX,
    ensures
        area.x <= area.middle(width, height).x,
        area.middle(width, height).right_edge() <= area.right_edge(),
        area.y <= area.middle(width, height).y,
        area.middle(width, height).bottom_edge() <= area.bottom_edge(),
{
}

/// How much of an area a part of it takes.
#[derive(Clone, Copy, Debug, PartialEq, Eq, Structural)]
pub enum Constraint {
    Min(u16),
    Length(u16),
    Fill(u16),
}

/// The room that a constraint takes at least.
pub open spec fn least_room(constraint: Constraint) -> int {
    match constraint {
        Constraint::Min(size) => size as int,
        Constraint::Length(size) => size as int,
        Constraint::Fill(_) => 0,
    }
}

/// The room that constraints take at least.
pub open spec fn least_total(constraints: Seq<Constraint>) -> int
    decreases constraints.len(),
{
    if constraints.len() == 0 {
        0
    } else {
        least_total(constraints.drop_last()) + least_room(constraints.last())
    }
}

/// The room of the parts that are given a length.
pub open spec fn length_total(constraints: Seq<Constraint>) -> int
    decreases constraints.len(),
{
    if constraints.len() == 0 {
        0
    } else {
        length_total(constraints.drop_last()) + match constraints.last() {
            Constraint::Length(size) => size as int,
            _ => 0,
        }
    }
}

/// How many parts grow.
pub open spec fn growing_parts(constraints: Seq<Constraint>) -> nat
    decreases constraints.len(),
{
    if constraints.len() == 0 {
        0
    } else {
        growing_parts(constraints.drop_last()) + if constraints.last() is Length {
            0nat
        } else {
            1nat
        }
    }
}

/// The room of a part where one part grows and there is room for all: the length that it is given,
/// or what the lengths leave.
pub open spec fn fitted_size(constraints: Seq<Constraint>, room: int, i: int) -> int {
    match constraints[i] {
        Constraint::Length(size) => size as int,
        _ => room - length_total(constraints),
    }
}

/// The room of the parts before one, under the same condition.
pub open spec fn fitted_start(constraints: Seq<Constraint>, room: int, i: int) -> int
    decreases i,
{
    if i <= 0 {
        0
    } else {
        fitted_start(constraints, room, i - 1) + fitted_size(constraints, room, i - 1)
    }
}

/// Two parts that fill a room in equal shares, around a length that the room holds.
pub open spec fn halves_around(constraints: Seq<Constraint>, room: int) -> bool {
    &&& constraints.len() == 3
    &&& constraints[0] is Fill
    &&& constraints[0]->Fill_0 > 0
    &&& constraints[1] is Length
    &&& constraints[1]->Length_0 <= room
    &&& constraints[2] == constraints[0]
}

/// The room of such a part: the filling ones share what the length leaves, and the first has an
/// odd cell.
pub open spec fn halved_size(constraints: Seq<Constraint>, room: int, i: int) -> int {
    let rest = room - constraints[1]->Length_0;
    if i == 0 {
        (rest + 1) / 2
    } else if i == 1 {
        constraints[1]->Length_0 as int
    } else {
        rest / 2
    }
}

/// The room before such a part.
pub open spec fn halved_start(constraints: Seq<Constraint>, room: int, i: int) -> int {
    let rest = room - constraints[1]->Length_0;
    if i == 0 {
        0
    } else if i == 1 {
        (rest + 1) / 2
    } else {
        (rest + 1) / 2 + constraints[1]->Length_0
    }
}

/// Where a part begins in its room and how long it is: it lies within the room. More is stated
/// where one part grows and there is room for all, and where two parts fill the room in equal
/// shares around a length.
pub open spec fn is_placed(
    constraints: Seq<Constraint>,
    room: int,
    i: int,
    start: int,
    size: int,
) -> bool {
    &&& 0 <= start
    &&& start + size <= room
    &&& growing_parts(constraints) == 1 && least_total(constraints) <= room ==> start
        == fitted_start(constraints, room, i) && size == fitted_size(constraints, room, i)
    &&& halves_around(constraints, room) ==> start == halved_start(constraints, room, i) && size
        == halved_size(constraints, room, i)
}

/// A part of an area, which is as broad as the area across the direction of the parts, and stands
/// in its place along that direction.
pub open spec fn is_part(
    vertical: bool,
    constraints: Seq<Constraint>,
    area: Rect,
    i: int,
    part: Rect,
) -> bool {
    if vertical {
        &&& part.x == area.x
        &&& part.width == area.width
        &&& is_placed(
            constraints,
            area.bottom_edge() - area.y,
            i,
            part.y - area.y,
            part.height as int,
        )
    } else {
        &&& part.y == area.y
        &&& part.height == area.height
        &&& is_placed(
            constraints,
            area.right_edge() - area.x,
            i,
            part.x - area.x,
            part.width as int,
        )
    }
}

/// The parts of an area, from top to bottom or from left to right, one for each constraint.
pub open spec fn are_parts(
    vertical: bool,
    constraints: Seq<Constraint>,
    area: Rect,
    parts: Seq<Rect>,
) -> bool {
    &&& parts.len() == constraints.len()
    &&& forall|i: int|
        0 <= i < parts.len() ==> #[trigger] is_part(vertical, constraints, area, i, parts[i])
}

/// ratatui's `Layout::new` and `split`: one part for each constraint, each within the area and as
/// broad as it across the direction of the parts. Where one part grows and there is room for all, the others
/// have their lengths and the growing one has the rest. Two filling parts around a length share
/// what it leaves. For every other list it is left unsaid where in the area the parts begin and how
/// long they are: several divisions may be best there, as where there is no room for all lengths, and
/// ratatui's solver takes the one that the order of its hash maps leads it to.
#[verifier::external_body]
pub(crate) fn split_area(vertical: bool, constraints: &[Constraint], area: Rect) -> (parts: Vec<
    Rect,
>)
    ensures
        are_parts(vertical, constraints@, area, parts@),
{
    let constraints = constraints.iter().map(|constraint| match constraint {
        Constraint::Min(size) => outside::Constraint::Min(*size),
        Constraint::Length(size) => outside::Constraint::Length(*size),
        Constraint::Fill(weight) => outside::Constraint::Fill(*weight),
    });
    let direction = match vertical {
        true => outside::Direction::Vertical,
        false => outside::Direction::Horizontal,
    };
    let area = outside::Rect { x: area.x, y: area.y, width: area.width, height: area.height };
    let parts = outside::Layout::new(direction, constraints).split(area);
    parts.iter().map(|part| Rect { x: part.x, y: part.y, width: part.width, height: part.height }).collect()
}

/// The width up to which any lines can be counted, and the number of characters up to which a line
/// can be counted for any width.
pub const MAX_WRAPPED_WIDTH: u16 = 16_383;

/// Lines none of which has more characters than can be counted for any width.
pub open spec fn are_short(lines: Seq<Seq<SpanView>>) -> bool {
    forall|i: int|
        0 <= i < lines.len() ==> line_text(#[trigger] lines[i]).len() <= MAX_WRAPPED_WIDTH
}

/// The rows that ratatui's `Paragraph::line_count` counts for lines that are wrapped to a width.
pub uninterp spec fn wrapped_rows(lines: Seq<Seq<SpanView>>, trim: bool, width: u16) -> usize;

/// ratatui's `Paragraph::line_count` on a wrapped paragraph: none where the width is zero. Its
/// word wrapper adds up cells in 16 bits: those of a row, which is no longer than three widths, and
/// of one more symbol, which is no wider than one. No sum is larger than four widths, nor than four
/// cells for each character of the line.
#[verifier::external_body]
pub(crate) fn count_wrapped_rows(lines: &Vec<Line>, trim: bool, width: u16) -> (rows: usize)
    requires
        width <= MAX_WRAPPED_WIDTH || are_short(lines.deep_view()),
    ensures
        rows == wrapped_rows(lines.deep_view(), trim, width),
        width == 0 ==> rows == 0,
{
    let lines: Vec<outside_text::Line> = lines.iter().map(|line|
        outside_text::Line::from(line.spans.iter().map(|span|
            outside_text::Span::raw(span.content.as_str())).collect::<Vec<_>>())).collect();
    Paragraph::new(lines).wrap(Wrap { trim }).line_count(width)
}

/// The rows of lines that are wrapped to a width. Where neither the width nor the lines are small
/// enough to count cells, they are those of the largest width for which any lines can be counted.
pub open spec fn rows_of_lines(lines: Seq<Seq<SpanView>>, trim: bool, width: u16) -> usize {
    wrapped_rows(
        lines,
        trim,
        if width <= MAX_WRAPPED_WIDTH || are_short(lines) {
            width
        } else {
            MAX_WRAPPED_WIDTH
        },
    )
}

fn has_short_lines(lines: &Vec<Line>) -> (short: bool)
    ensures
        short == are_short(lines.deep_view()),
{
    let mut index: usize = 0;
    while index < lines.len()
        invariant
            index <= lines@.len(),
            forall|i: int|
                0 <= i < index ==> line_text(#[trigger] lines.deep_view()[i]).len()
                    <= MAX_WRAPPED_WIDTH,
        decreases lines@.len() - index,
    {
        let text = lines[index].text();
        assert(lines.deep_view()[index as int] == lines@[index as int].deep_view());
        if chars_of(text.as_str()).len() > MAX_WRAPPED_WIDTH as usize {
            return false;
        }
        index += 1;
    }
    true
}

/// Counts [`rows_of_lines`].
pub fn count_rows(lines: &Vec<Line>, trim: bool, width: u16) -> (rows: usize)
    ensures
        rows == rows_of_lines(lines.deep_view(), trim, width),
{
    if width <= MAX_WRAPPED_WIDTH || has_short_lines(lines) {
        count_wrapped_rows(lines, trim, width)
    } else {
        count_wrapped_rows(lines, trim, MAX_WRAPPED_WIDTH)
    }
}

/// How a text is broken into rows.
#[derive(Clone, Copy, Debug, PartialEq, Eq, Structural)]
pub enum Wrapping {
    /// Lines are cut off.
    Cut,
    /// Lines are wrapped.
    Wrap,
    /// Lines are wrapped, and lose leading blanks.
    Trim,
}

/// Where rows of text stand in their area.
#[derive(Clone, Copy, Debug, PartialEq, Eq, Structural)]
pub enum Alignment {
    Left,
    Center,
    Right,
}

/// The border of a panel.
#[derive(Clone, Copy, Debug, PartialEq, Eq, Structural)]
pub enum Edges {
    /// On the left alone.
    Left,
    /// On every side.
    Square,
    /// On every side, with round corners.
    Rounded,
}

/// Something on the screen, with lines `L` and texts `T`. What comes later covers what came
/// before.
#[derive(Debug)]
pub enum Element<L, T> {
    /// An area is blanked.
    Clear { area: Rect },
    /// A border, with a title where that is not empty.
    Panel { area: Rect, edges: Edges, style: Style, title: T, title_style: Style },
    /// Lines of text, of which the first rows may be skipped.
    Text {
        area: Rect,
        lines: L,
        style: Style,
        wrapping: Wrapping,
        alignment: Alignment,
        skipped: u16,
    },
    /// A list in a border, with one item selected and highlighted.
    Menu { area: Rect, title: T, items: L, selected: usize, highlight: Style },
    /// The list of sessions, with the chosen one highlighted.
    Sessions { area: Rect, rows: L, chosen: Option<usize>, offset: usize, highlight: Style },
    /// The tabs of the session browser, with the selected one highlighted.
    Tabs { area: Rect, labels: L, selected: usize, highlight: Style },
    /// A scroll bar.
    Scrollbar { area: Rect, content: usize, position: usize, viewport: usize },
    /// The cursor.
    Cursor { x: u16, y: u16 },
}

/// An element as contracts see it.
pub type ElementView = Element<Seq<Seq<SpanView>>, Seq<char>>;

/// An element with its text.
pub type ScreenElement = Element<Vec<Line>, String>;

impl DeepView for Element<Vec<Line>, String> {
    type V = Element<Seq<Seq<SpanView>>, Seq<char>>;

    open spec fn deep_view(&self) -> Element<Seq<Seq<SpanView>>, Seq<char>> {
        match self {
            Element::Clear { area } => Element::Clear { area: *area },
            Element::Panel { area, edges, style, title, title_style } => Element::Panel {
                area: *area,
                edges: *edges,
                style: *style,
                title: title@,
                title_style: *title_style,
            },
            Element::Text { area, lines, style, wrapping, alignment, skipped } => Element::Text {
                area: *area,
                lines: lines.deep_view(),
                style: *style,
                wrapping: *wrapping,
                alignment: *alignment,
                skipped: *skipped,
            },
            Element::Menu { area, title, items, selected, highlight } => Element::Menu {
                area: *area,
                title: title@,
                items: items.deep_view(),
                selected: *selected,
                highlight: *highlight,
            },
            Element::Sessions { area, rows, chosen, offset, highlight } => Element::Sessions {
                area: *area,
                rows: rows.deep_view(),
                chosen: *chosen,
                offset: *offset,
                highlight: *highlight,
            },
            Element::Tabs { area, labels, selected, highlight } => Element::Tabs {
                area: *area,
                labels: labels.deep_view(),
                selected: *selected,
                highlight: *highlight,
            },
            Element::Scrollbar { area, content, position, viewport } => Element::Scrollbar {
                area: *area,
                content: *content,
                position: *position,
                viewport: *viewport,
            },
            Element::Cursor { x, y } => Element::Cursor { x: *x, y: *y },
        }
    }
}

/// Lines of text at the left, from the first row on.
pub open spec fn text_element(
    area: Rect,
    lines: Seq<Seq<SpanView>>,
    style: Style,
    wrapping: Wrapping,
) -> ElementView {
    Element::Text { area, lines, style, wrapping, alignment: Alignment::Left, skipped: 0 }
}

/// Creates [`text_element`].
pub fn text_at(area: Rect, lines: Vec<Line>, style: Style, wrapping: Wrapping) -> (element:
    ScreenElement)
    ensures
        element.deep_view() == text_element(area, lines.deep_view(), style, wrapping),
{
    Element::Text { area, lines, style, wrapping, alignment: Alignment::Left, skipped: 0 }
}

/// Adds an element.
pub fn show(scene: &mut Vec<ScreenElement>, element: ScreenElement)
    ensures
        final(scene).deep_view() == old(scene).deep_view().push(element.deep_view()),
{
    scene.push(element);
    assert(scene.deep_view() =~= old(scene).deep_view().push(element.deep_view()));
}

/// A span.
pub open spec fn span_view(content: Seq<char>, style: Style) -> SpanView {
    SpanView { content, style }
}

/// Creates a span.
pub fn span(content: String, style: Style) -> (span: Span)
    ensures
        span.deep_view() == span_view(content@, style),
{
    Span { content, style }
}

/// A line in one style; without a span where it is empty.
pub open spec fn line_view(content: Seq<char>, style: Style) -> Seq<SpanView> {
    if content.len() == 0 {
        Seq::empty()
    } else {
        seq![span_view(content, style)]
    }
}

/// Creates [`line_view`].
pub fn styled_line(content: String, style: Style) -> (line: Line)
    ensures
        line.deep_view() == line_view(content@, style),
{
    let mut spans: Vec<Span> = Vec::new();
    if !content.as_str().is_empty() {
        spans.push(Span { content, style });
        assert(spans.deep_view() =~= seq![span_view(content@, style)]);
    } else {
        assert(spans.deep_view() =~= Seq::empty());
    }
    Line { spans }
}

/// One line.
pub fn one_line(line: Line) -> (lines: Vec<Line>)
    ensures
        lines.deep_view() == seq![line.deep_view()],
{
    let mut lines: Vec<Line> = Vec::new();
    lines.push(line);
    assert(lines.deep_view() =~= seq![line.deep_view()]);
    lines
}

/// Adds a line.
pub fn push_line(lines: &mut Vec<Line>, line: Line)
    ensures
        final(lines).deep_view() == old(lines).deep_view().push(line.deep_view()),
{
    lines.push(line);
    assert(lines.deep_view() =~= old(lines).deep_view().push(line.deep_view()));
}

/// Adds a span.
pub fn push_span(line: &mut Line, span: Span)
    ensures
        final(line).deep_view() == old(line).deep_view().push(span.deep_view()),
{
    line.spans.push(span);
    assert(line.deep_view() =~= old(line).deep_view().push(span.deep_view()));
}

} // verus!
