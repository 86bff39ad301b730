//! The plan beside the chat.

use vstd::prelude::*;

use super::layout::{
    are_parts, count_rows, line_view, one_line, push_line, rows_of_lines, show, span, span_view,
    split_area, styled_line, text_at, text_element, Constraint, Edges, Element, ElementView, Rect,
    ScreenElement, Wrapping,
};
use super::style::{dim_style, plain_style, Color, Line, SpanView, Style};
use super::widgets::{sanitize_line, sanitized_line};
use crate::client::session::{ChatProjection, ProjectionView};
use crate::session::{PlanItem, PlanStatus};
use crate::snapshot::PlanView;
use crate::text::{decimal, decimal_text};

verus! {

/// The columns of a marker.
pub const MARKER_WIDTH: u16 = 2;

/// The marker of a step, with its style.
pub open spec fn marker_of(status: PlanStatus) -> (Seq<char>, Style) {
    match status {
        PlanStatus::Pending => ("○"@, Style { fg: Some(Color::DarkGray), ..plain_style() }),
        PlanStatus::InProgress => (
            "▶"@,
            Style { fg: Some(Color::Cyan), bold: true, ..plain_style() },
        ),
        PlanStatus::Completed => ("✓"@, Style { fg: Some(Color::Green), ..plain_style() }),
        PlanStatus::Blocked => (
            "!"@,
            Style { fg: Some(Color::Red), bold: true, ..plain_style() },
        ),
        PlanStatus::Cancelled => ("–"@, dim_style()),
    }
}

/// Finds the marker of a step, with its style.
pub fn plan_marker(status: PlanStatus) -> (marker: (&'static str, Style))
    ensures
        (marker.0@, marker.1) == marker_of(status),
{
    match status {
        PlanStatus::Pending => ("○", Style::plain().with_fg(Color::DarkGray)),
        PlanStatus::InProgress => ("▶", Style::plain().with_fg(Color::Cyan).with_bold()),
        PlanStatus::Completed => ("✓", Style::plain().with_fg(Color::Green)),
        PlanStatus::Blocked => ("!", Style::plain().with_fg(Color::Red).with_bold()),
        PlanStatus::Cancelled => ("–", Style::dimmed()),
    }
}

/// The text of a step.
pub open spec fn step_lines(item: PlanView) -> Seq<Seq<SpanView>> {
    seq![line_view(sanitized_line(item.step), plain_style())]
}

/// The rows that a step takes.
pub open spec fn step_rows(item: PlanView, width: u16) -> int {
    let rows = rows_of_lines(step_lines(item), true, width);
    if rows > u16::MAX {
        u16::MAX as int
    } else if rows == 0 {
        1
    } else {
        rows as int
    }
}

/// A dimmed line of one row.
pub open spec fn dim_row(text: Seq<char>, area: Rect, y: u16) -> ElementView {
    text_element(
        Rect { y, height: 1, ..area },
        seq![line_view(text, dim_style())],
        plain_style(),
        Wrapping::Cut,
    )
}

/// The marker and the text of a step.
pub open spec fn step_elements(item: PlanView, area: Rect, y: u16, height: u16) -> Seq<ElementView> {
    seq![
        text_element(
            Rect { x: area.x, y, width: MARKER_WIDTH, height: 1 },
            seq![seq![span_view(marker_of(item.status).0 + " "@, marker_of(item.status).1)]],
            plain_style(),
            Wrapping::Cut,
        ),
        text_element(
            Rect {
                x: area.x.saturating_add(MARKER_WIDTH),
                y,
                width: area.width.saturating_sub(MARKER_WIDTH),
                height,
            },
            step_lines(item),
            plain_style(),
            Wrapping::Trim,
        ),
    ]
}

/// The steps from the row `y` on. A row is kept for how many more there are; a step that does not
/// fit is cut off and ends the list.
pub open spec fn todo_elements(plan: Seq<PlanView>, from: int, area: Rect, y: u16) -> Seq<
    ElementView,
>
    decreases plan.len() - from,
{
    if from < 0 || from >= plan.len() {
        Seq::empty()
    } else {
        let kept: u16 = if from + 1 < plan.len() {
            1
        } else {
            0
        };
        let available = area.bottom_edge().saturating_sub(y).saturating_sub(kept);
        let wanted = step_rows(plan[from], area.width.saturating_sub(MARKER_WIDTH));
        if available == 0 {
            seq![
                dim_row(
                    "… "@ + decimal((plan.len() - from) as nat) + " more"@,
                    area,
                    y,
                ),
            ]
        } else if available < wanted {
            let below = y.saturating_add(available);
            step_elements(plan[from], area, y, available) + (if below < area.bottom_edge() {
                seq![dim_row("… more"@, area, below)]
            } else {
                Seq::empty()
            })
        } else {
            step_elements(plan[from], area, y, wanted as u16) + todo_elements(
                plan,
                from + 1,
                area,
                y.saturating_add(wanted as u16),
            )
        }
    }
}

/// The steps in an area.
pub open spec fn todo_scene(plan: Seq<PlanView>, area: Rect) -> Seq<ElementView> {
    if area.width <= MARKER_WIDTH {
        Seq::empty()
    } else {
        todo_elements(plan, 0, area, area.y)
    }
}

fn show_dim_row(scene: &mut Vec<ScreenElement>, text: String, area: Rect, y: u16)
    ensures
        final(scene).deep_view() == old(scene).deep_view().push(dim_row(text@, area, y)),
{
    let row = Rect { x: area.x, y, width: area.width, height: 1 };
    let lines = one_line(styled_line(text, Style::dimmed()));
    show(scene, text_at(row, lines, Style::plain(), Wrapping::Cut));
}

fn show_step(
    scene: &mut Vec<ScreenElement>,
    item: &PlanItem,
    lines: Vec<Line>,
    area: Rect,
    y: u16,
    height: u16,
)
    requires
        lines.deep_view() == step_lines(item.deep_view()),
    ensures
        final(scene).deep_view() == old(scene).deep_view() + step_elements(
            item.deep_view(),
            area,
            y,
            height,
        ),
{
    let ghost before = scene.deep_view();
    let (marker, style) = plan_marker(item.status());
    let mut label = marker.to_owned();
    label.push_str(" ");
    let mut line = Line { spans: Vec::new() };
    super::layout::push_span(&mut line, span(label, style));
    assert(line.deep_view() =~= seq![span_view(label@, style)]);
    show(
        scene,
        text_at(
            Rect { x: area.x, y, width: MARKER_WIDTH, height: 1 },
            one_line(line),
            Style::plain(),
            Wrapping::Cut,
        ),
    );
    show(
        scene,
        text_at(
            Rect {
                x: area.x.saturating_add(MARKER_WIDTH),
                y,
                width: area.width.saturating_sub(MARKER_WIDTH),
                height,
            },
            lines,
            Style::plain(),
            Wrapping::Trim,
        ),
    );
    assert(scene.deep_view() =~= before + step_elements(item.deep_view(), area, y, height));
}

/// Shows the steps of a plan in an area.
pub fn render_todo_items(scene: &mut Vec<ScreenElement>, area: Rect, plan: &Vec<PlanItem>)
    ensures
        final(scene).deep_view() == old(scene).deep_view() + todo_scene(plan.deep_view(), area),
{
    let ghost before = scene.deep_view();
    let ghost all = plan.deep_view();
    let text_width: u16 = area.width.saturating_sub(MARKER_WIDTH);
    if text_width == 0 {
        assert(scene.deep_view() =~= before + Seq::empty());
        return;
    }
    let mut y: u16 = area.y;
    let mut index: usize = 0;
    while index < plan.len()
        invariant
            all == plan.deep_view(),
            before == old(scene).deep_view(),
            text_width == area.width.saturating_sub(MARKER_WIDTH),
            area.width > MARKER_WIDTH,
            index <= plan@.len(),
            before + todo_scene(all, area) == scene.deep_view() + todo_elements(
                all,
                index as int,
                area,
                y,
            ),
        decreases plan@.len() - index,
    {
        let ghost shown = scene.deep_view();
        let ghost rest = todo_elements(all, index as int, area, y);
        let ghost row = y;
        let count: usize = plan.len();
        let kept: u16 = if index + 1 < count { 1 } else { 0 };
        let available: u16 = area.bottom().saturating_sub(y).saturating_sub(kept);
        if available == 0 {
            let left = decimal_text((count - index) as u64);
            let mut text = "… ".to_owned();
            text.push_str(&left);
            text.push_str(" more");
            show_dim_row(scene, text, area, y);
            assert(scene.deep_view() =~= shown + rest);
            return;
        }
        let step = sanitize_line(plan[index].step());
        let lines = one_line(styled_line(step, Style::plain()));
        let rows: usize = count_rows(&lines, true, text_width);
        let wanted: u16 = if rows > u16::MAX as usize {
            u16::MAX
        } else if rows == 0 {
            1
        } else {
            rows as u16
        };
        assert(all[index as int] == plan@[index as int].deep_view());
        assert(wanted == step_rows(all[index as int], text_width));
        if available < wanted {
            show_step(scene, &plan[index], lines, area, y, available);
            let below: u16 = y.saturating_add(available);
            if below < area.bottom() {
                show_dim_row(scene, "… more".to_owned(), area, below);
            }
            assert(scene.deep_view() =~= shown + rest);
            return;
        }
        show_step(scene, &plan[index], lines, area, y, wanted);
        y = y.saturating_add(wanted);
        index += 1;
        assert(shown + rest =~= scene.deep_view() + todo_elements(all, index as int, area, y));
    }
    assert(scene.deep_view() + todo_elements(all, index as int, area, y) =~= scene.deep_view());
}

/// The plan of a chat.
pub open spec fn plan_of(projection: ProjectionView) -> Seq<PlanView> {
    match projection {
        ProjectionView::Draft(_) => Seq::empty(),
        ProjectionView::Session(snapshot) => snapshot.plan,
    }
}

/// The area within the sidebar.
pub open spec fn sidebar_content(area: Rect) -> Rect {
    let inner = area.right_of_rail();
    Rect {
        x: inner.x.saturating_add(2),
        y: inner.y.saturating_add(1),
        width: inner.width.saturating_sub(4),
        height: inner.height.saturating_sub(2),
    }
}

/// The title and the list of the sidebar.
pub open spec fn sidebar_rows() -> Seq<Constraint> {
    seq![Constraint::Length(1), Constraint::Min(0)]
}

/// Areas that are those of the sidebar's title and list.
pub open spec fn are_sidebar_rows(area: Rect, rows: Seq<Rect>) -> bool {
    are_parts(true, sidebar_rows(), sidebar_content(area), rows)
}

/// What the sidebar says where there is no plan.
pub open spec fn no_plan_lines() -> Seq<Seq<SpanView>> {
    seq![
        line_view("No todos yet"@, dim_style()),
        line_view("Tasks appear here as work is planned."@, dim_style()),
    ]
}

/// The sidebar, with the areas of its title and its list.
pub open spec fn sidebar_scene(area: Rect, plan: Seq<PlanView>, parts: Seq<Rect>) -> Seq<
    ElementView,
> {
    if area.width < 5 || area.height < 3 {
        Seq::empty()
    } else {
        let content = sidebar_content(area);
        let border = seq![
            Element::Panel {
                area,
                edges: Edges::Left,
                style: Style { fg: Some(Color::DarkGray), ..plain_style() },
                title: Seq::empty(),
                title_style: plain_style(),
            },
        ];
        if content.is_void() {
            border
        } else {
            let title = border.push(
                text_element(
                    parts[0],
                    seq![line_view("Todo"@, Style { bold: true, ..plain_style() })],
                    plain_style(),
                    Wrapping::Cut,
                ),
            );
            if parts[1].is_void() {
                title
            } else if plan.len() == 0 {
                title.push(text_element(parts[1], no_plan_lines(), plain_style(), Wrapping::Trim))
            } else {
                title + todo_scene(plan, parts[1])
            }
        }
    }
}

fn content_of_sidebar(area: Rect) -> (content: Rect)
    ensures
        content == sidebar_content(area),
{
    let inner = area.inner(Edges::Left);
    Rect {
        x: inner.x.saturating_add(2),
        y: inner.y.saturating_add(1),
        width: inner.width.saturating_sub(4),
        height: inner.height.saturating_sub(2),
    }
}

/// Divides the sidebar into its title and its list.
pub fn divide_sidebar(area: Rect) -> (parts: Vec<Rect>)
    ensures
        are_sidebar_rows(area, parts@),
{
    let constraints = [Constraint::Length(1), Constraint::Min(0)];
    assert(constraints@ =~= sidebar_rows());
    split_area(true, &constraints, content_of_sidebar(area))
}

/// Shows the sidebar with the areas of its title and its list, which [`divide_sidebar`] gives.
pub fn render_sidebar(
    scene: &mut Vec<ScreenElement>,
    area: Rect,
    projection: &ChatProjection,
    parts: &Vec<Rect>,
)
    requires
        parts@.len() == 2,
    ensures
        final(scene).deep_view() == old(scene).deep_view() + sidebar_scene(
            area,
            plan_of(projection.deep_view()),
            parts@,
        ),
{
    let ghost before = scene.deep_view();
    let ghost shown = sidebar_scene(area, plan_of(projection.deep_view()), parts@);
    if area.width < 5 || area.height < 3 {
        assert(scene.deep_view() =~= before + shown);
        return;
    }
    show(
        scene,
        Element::Panel {
            area,
            edges: Edges::Left,
            style: Style::plain().with_fg(Color::DarkGray),
            title: String::new(),
            title_style: Style::plain(),
        },
    );
    let content = content_of_sidebar(area);
    if content.is_empty() {
        assert(scene.deep_view() =~= before + shown);
        return;
    }
    let title = one_line(styled_line("Todo".to_owned(), Style::plain().with_bold()));
    show(scene, text_at(parts[0], title, Style::plain(), Wrapping::Cut));
    if parts[1].is_empty() {
        assert(scene.deep_view() =~= before + shown);
        return;
    }
    let planned = match projection {
        ChatProjection::Draft(_) => false,
        ChatProjection::Session(snapshot) => snapshot.plan.len() > 0,
    };
    if planned {
        if let ChatProjection::Session(snapshot) = projection {
            render_todo_items(scene, parts[1], &snapshot.plan);
        }
    } else {
        let mut lines: Vec<Line> = Vec::new();
        push_line(&mut lines, styled_line("No todos yet".to_owned(), Style::dimmed()));
        push_line(
            &mut lines,
            styled_line("Tasks appear here as work is planned.".to_owned(), Style::dimmed()),
        );
        assert(lines.deep_view() =~= no_plan_lines());
        show(scene, text_at(parts[1], lines, Style::plain(), Wrapping::Trim));
    }
    assert(scene.deep_view() =~= before + shown);
}

/// Every state of a step has a marker of its own.
pub proof fn lemma_markers_tell_the_state()
    ensures
        forall|status: PlanStatus, marker: (&'static str, Style)| #[trigger]
            call_ensures(plan_marker, (status,), marker) ==> match status {
                PlanStatus::Pending => marker.0@ == "○"@ && marker.1.fg == Some(Color::DarkGray),
                PlanStatus::InProgress => marker.0@ == "▶"@ && marker.1.fg == Some(Color::Cyan),
                PlanStatus::Completed => marker.0@ == "✓"@ && marker.1.fg == Some(Color::Green),
                PlanStatus::Blocked => marker.0@ == "!"@ && marker.1.fg == Some(Color::Red),
                PlanStatus::Cancelled => marker.0@ == "–"@,
            },
{
}

/// Steps stand one below the other in their order, each with its marker before its text. Where the
/// room ends, the rest is counted in the last row.
pub proof fn lemma_steps_are_listed_in_order(plan: Seq<PlanView>, from: int, area: Rect, y: u16)
    requires
        0 <= from < plan.len(),
        area.y <= y,
        area.y + area.height <= u16::MAX,
    ensures
        ({
            let shown = todo_elements(plan, from, area, y);
            let kept = if from + 1 < plan.len() {
                1int
            } else {
                0
            };
            let room = area.y + area.height - y - kept;
            let wanted = step_rows(plan[from], area.width.saturating_sub(2));
            &&& room <= 0 ==> shown == seq![
                dim_row("… "@ + decimal((plan.len() - from) as nat) + " more"@, area, y),
            ]
            &&& room > 0 ==> shown.len() >= 2 && shown[0] is Text && shown[1] is Text
                && shown[0]->Text_lines == seq![
                seq![
                    span_view(
                        marker_of(plan[from].status).0 + " "@,
                        marker_of(plan[from].status).1,
                    ),
                ],
            ] && shown[1]->Text_lines == seq![
                line_view(sanitized_line(plan[from].step), plain_style()),
            ] && shown[0]->Text_area.y == y && shown[1]->Text_area.y == y
            &&& room > 0 && wanted <= room && from + 1 < plan.len() ==> shown.skip(2)
                == todo_elements(plan, from + 1, area, (y + wanted) as u16)
        }),
{
    let shown = todo_elements(plan, from, area, y);
    let wanted = step_rows(plan[from], area.width.saturating_sub(2));
    let step = step_elements(plan[from], area, y, wanted as u16);
    let rest = todo_elements(plan, from + 1, area, (y + wanted) as u16);
    assert((step + rest).skip(2) =~= rest);
}

/// The sidebar shows the plan of the session.
pub proof fn lemma_the_sidebar_shows_the_plan(projection: ProjectionView)
    ensures
        projection is Session ==> plan_of(projection) == projection->Session_0.plan,
        projection is Draft ==> plan_of(projection).len() == 0,
{
}

} // verus!
