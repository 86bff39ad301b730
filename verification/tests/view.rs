//! Whole screens, painted by ratatui.

use moh::client::session::ChatProjection;
use moh::client::ui::layout::{Alignment, Edges, Element, Rect, ScreenElement, Wrapping};
use moh::client::ui::state::{PopupKind, UiState};
use moh::client::ui::style::{Color, Line, Style};
use moh::client::ui::transcript::{transcript_entries, TranscriptEntry, TranscriptKind};
use moh::client::ui::view::{divide_screen, render, render_parts};
use moh::client::ui::widgets::{MenuItem, MenuKind};
use moh::harness::error::{RunFailureKind, RunStage};
use moh::session::{
    ActiveRunSnapshot, JobKind, JobSnapshotDto, JobState, ModelCatalogState, PlanItem, PlanStatus,
    ReasoningLevel, RunFailureSnapshot, SessionId, SessionSettings, SessionSnapshot,
    SessionSummary, SessionTitle, Timestamp, TranscriptItem,
};
use moh::snapshot::Duplicate;
use ratatui::backend::TestBackend;
use ratatui::layout::{Alignment as OutsideAlignment, Rect as OutsideRect};
use ratatui::style::{Color as OutsideColor, Modifier, Style as OutsideStyle};
use ratatui::text::{Line as OutsideLine, Span as OutsideSpan};
use ratatui::widgets::{
    Block, BorderType, Borders, Clear, List, ListItem, ListState, Paragraph, Scrollbar,
    ScrollbarOrientation, ScrollbarState, Tabs, Wrap,
};
use ratatui::Terminal;

fn color(color: Color) -> OutsideColor {
    match color {
        Color::Reset => OutsideColor::Reset,
        Color::Red => OutsideColor::Red,
        Color::Green => OutsideColor::Green,
        Color::Yellow => OutsideColor::Yellow,
        Color::Cyan => OutsideColor::Cyan,
        Color::DarkGray => OutsideColor::DarkGray,
    }
}

fn style(style: Style) -> OutsideStyle {
    let mut outside = OutsideStyle::default();
    if let Some(fg) = style.fg {
        outside = outside.fg(color(fg));
    }
    if let Some(bg) = style.bg {
        outside = outside.bg(color(bg));
    }
    for (set, modifier) in [
        (style.bold, Modifier::BOLD),
        (style.dim, Modifier::DIM),
        (style.italic, Modifier::ITALIC),
        (style.underlined, Modifier::UNDERLINED),
        (style.crossed_out, Modifier::CROSSED_OUT),
    ] {
        if set {
            outside = outside.add_modifier(modifier);
        }
    }
    outside
}

fn lines(lines: &[Line]) -> Vec<OutsideLine<'static>> {
    lines
        .iter()
        .map(|line| {
            OutsideLine::from(
                line.spans
                    .iter()
                    .map(|span| OutsideSpan::styled(span.content.clone(), style(span.style)))
                    .collect::<Vec<_>>(),
            )
        })
        .collect()
}

fn rect(area: Rect) -> OutsideRect {
    OutsideRect { x: area.x, y: area.y, width: area.width, height: area.height }
}

fn block(edges: Edges) -> Block<'static> {
    match edges {
        Edges::Left => Block::default().borders(Borders::LEFT),
        Edges::Square => Block::default().borders(Borders::ALL),
        Edges::Rounded => {
            Block::default().borders(Borders::ALL).border_type(BorderType::Rounded)
        }
    }
}

fn paint(frame: &mut ratatui::Frame<'_>, element: &ScreenElement) {
    match element {
        Element::Clear { area } => frame.render_widget(Clear, rect(*area)),
        Element::Panel { area, edges, style: border, title, title_style } => {
            let mut block = block(*edges).border_style(style(*border));
            if !title.is_empty() {
                block = block.title(OutsideLine::styled(title.clone(), style(*title_style)));
            }
            frame.render_widget(block, rect(*area));
        }
        Element::Text { area, lines: text, style: base, wrapping, alignment, skipped } => {
            let mut paragraph = Paragraph::new(lines(text))
                .style(style(*base))
                .scroll((*skipped, 0))
                .alignment(match alignment {
                    Alignment::Left => OutsideAlignment::Left,
                    Alignment::Center => OutsideAlignment::Center,
                    Alignment::Right => OutsideAlignment::Right,
                });
            paragraph = match wrapping {
                Wrapping::Cut => paragraph,
                Wrapping::Wrap => paragraph.wrap(Wrap { trim: false }),
                Wrapping::Trim => paragraph.wrap(Wrap { trim: true }),
            };
            frame.render_widget(paragraph, rect(*area));
        }
        Element::Menu { area, title, items, selected, highlight } => {
            let list = List::new(lines(items).into_iter().map(ListItem::new))
                .block(Block::default().borders(Borders::ALL).title(title.clone()))
                .highlight_style(style(*highlight));
            let mut state = ListState::default();
            state.select(Some(*selected));
            frame.render_stateful_widget(list, rect(*area), &mut state);
        }
        Element::Sessions { area, rows, chosen, offset, highlight } => {
            let list = List::new(lines(rows).into_iter().map(ListItem::new))
                .highlight_style(style(*highlight));
            let mut state = ListState::default().with_offset(*offset).with_selected(*chosen);
            frame.render_stateful_widget(list, rect(*area), &mut state);
        }
        Element::Tabs { area, labels, selected, highlight } => frame.render_widget(
            Tabs::new(lines(labels)).select(*selected).highlight_style(style(*highlight)),
            rect(*area),
        ),
        Element::Scrollbar { area, content, position, viewport } => {
            let mut state = ScrollbarState::new(*content)
                .position(*position)
                .viewport_content_length(*viewport);
            frame.render_stateful_widget(
                Scrollbar::new(ScrollbarOrientation::VerticalRight),
                rect(*area),
                &mut state,
            );
        }
        Element::Cursor { x, y } => frame.set_cursor_position((*x, *y)),
    }
}

fn snapshot_fixture() -> SessionSnapshot {
    let now = Timestamp { seconds: 1_787_832_000, nanoseconds: 0 };
    SessionSnapshot {
        summary: SessionSummary {
            id: SessionId::parse("session-7").unwrap(),
            title: SessionTitle::parse("fixture chat").unwrap(),
            title_revision: 0,
            cwd: b"/work/moh".to_vec(),
            cwd_display: "/work/moh".into(),
            running_jobs: 0,
            running: false,
            busy: false,
            attached_clients: 1,
            last_activity: now,
        },
        transcript: vec![
            TranscriptItem::User("first prompt".into()),
            TranscriptItem::Assistant("first answer".into()),
        ],
        active_run: None,
        settings: SessionSettings {
            model: "test-model".into(),
            reasoning: ReasoningLevel::High,
            context_tokens: 128_000,
        },
        catalog: ModelCatalogState::Ready(Vec::new()),
        plan: Vec::new(),
        jobs: Vec::new(),
        persistence_warning: None,
        sequence: 14,
        busy: false,
    }
}

fn draw(
    snapshot: &SessionSnapshot,
    ui: &mut UiState,
    width: u16,
    height: u16,
) -> Terminal<TestBackend> {
    let backend = TestBackend::new(width, height);
    let mut terminal = Terminal::new(backend).unwrap();
    let projection = ChatProjection::Session(snapshot.duplicate());
    terminal
        .draw(|frame| {
            let area = frame.area();
            let area = Rect { x: area.x, y: area.y, width: area.width, height: area.height };
            for element in render(area, &projection, ui) {
                paint(frame, &element);
            }
        })
        .unwrap();
    terminal
}

fn rendered(terminal: &Terminal<TestBackend>) -> String {
    terminal.backend().to_string()
}

fn entry_text(entry: &TranscriptEntry) -> String {
    entry.text.iter().map(|line| line.text()).collect()
}

fn status_row(terminal: &Terminal<TestBackend>, width: u16, height: u16) -> String {
    terminal
        .backend()
        .buffer()
        .content
        .chunks(usize::from(width))
        .nth(usize::from(height.saturating_sub(1)))
        .unwrap()
        .iter()
        .map(|cell| cell.symbol())
        .collect()
}

fn failure(message: &str) -> TranscriptItem {
    TranscriptItem::Failed {
        run_id: 8,
        failure: RunFailureSnapshot {
            stage: RunStage::ModelRequest,
            kind: RunFailureKind::Transport,
            retryable: false,
            message: message.into(),
        },
    }
}

#[test]
fn frame_pins_prompt_above_status() {
    let snapshot = snapshot_fixture();
    let mut ui = UiState::new();
    let terminal = draw(&snapshot, &mut ui, 80, 10);
    let lines = terminal
        .backend()
        .buffer()
        .content
        .chunks(80)
        .map(|row| row.iter().map(|cell| cell.symbol()).collect::<String>())
        .collect::<Vec<_>>();
    assert!(lines[8].contains('❯'));
    assert!(lines[9].contains("test-model"));
    assert!(lines[9].contains("50%/256K"));
    assert!(lines[9].contains("/work/moh"));
}

fn plan_fixture() -> Vec<PlanItem> {
    [
        ("Queue work", PlanStatus::Pending),
        ("Execute work", PlanStatus::InProgress),
        ("Verify result", PlanStatus::Completed),
        ("Await input", PlanStatus::Blocked),
        ("Superseded step", PlanStatus::Cancelled),
    ]
    .into_iter()
    .map(|(step, status)| PlanItem::parse(step, status).unwrap())
    .collect()
}

fn plan_row(terminal: &Terminal<TestBackend>, marker: &str, step: &str) -> (u16, u16) {
    let width = terminal.backend().buffer().area.width;
    let expected = format!("{marker} {step}");
    terminal
        .backend()
        .buffer()
        .content
        .chunks(usize::from(width))
        .enumerate()
        .find_map(|(y, row)| {
            let row_text = row.iter().map(|cell| cell.symbol()).collect::<String>();
            row_text.find(&expected).map(|byte_offset| {
                let cell_offset = row_text[..byte_offset].chars().count();
                (
                    u16::try_from(y).unwrap(),
                    u16::try_from(cell_offset).unwrap(),
                )
            })
        })
        .unwrap_or_else(|| panic!("missing plan row {expected}"))
}

#[test]
fn plan_progress_counts_completed_and_ignores_cancelled_steps() {
    let mut snapshot = snapshot_fixture();
    snapshot.plan = plan_fixture();
    let mut ui = UiState::new();
    let terminal = draw(&snapshot, &mut ui, 100, 16);

    assert!(status_row(&terminal, 100, 16).contains("plan 1/4"));
}

#[test]
fn empty_plans_do_not_use_status_space() {
    let snapshot = snapshot_fixture();
    let mut ui = UiState::new();
    let terminal = draw(&snapshot, &mut ui, 100, 16);

    assert!(!status_row(&terminal, 100, 16).contains("plan"));
}

#[test]
fn wide_frames_dock_the_todo_sidebar_with_semantic_cell_styles() {
    let mut snapshot = snapshot_fixture();
    snapshot.plan = plan_fixture();
    let mut ui = UiState::new();
    let terminal = draw(&snapshot, &mut ui, 121, 24);
    assert!(rendered(&terminal).contains("Todo"));
    assert_eq!(terminal.backend().buffer()[(79, 0)].symbol(), "│");
    let expected_rows = [
        ("○", "Queue work", OutsideColor::DarkGray, Modifier::empty()),
        ("▶", "Execute work", OutsideColor::Cyan, Modifier::BOLD),
        ("✓", "Verify result", OutsideColor::Green, Modifier::empty()),
        ("!", "Await input", OutsideColor::Red, Modifier::BOLD),
        ("–", "Superseded step", OutsideColor::Reset, Modifier::DIM),
    ];
    let rows = expected_rows
        .iter()
        .map(|(marker, step, color, modifier)| {
            let (y, x) = plan_row(&terminal, marker, step);
            let cell = &terminal.backend().buffer()[(x, y)];
            assert_eq!(cell.fg, *color, "wrong color for {marker} {step}");
            assert_eq!(
                cell.modifier, *modifier,
                "wrong modifier for {marker} {step}"
            );
            assert!(x >= 79, "todo row rendered outside the sidebar");
            y
        })
        .collect::<Vec<_>>();
    assert!(rows.windows(2).all(|pair| pair[0] < pair[1]));
}

#[test]
fn visible_empty_sidebar_explains_what_it_will_contain() {
    let snapshot = snapshot_fixture();
    let mut ui = UiState::new();
    let terminal = draw(&snapshot, &mut ui, 121, 10);

    let frame = rendered(&terminal);
    assert!(frame.contains("Todo"));
    assert!(frame.contains("No todos yet"));
    assert!(frame.contains("Tasks appear here as work is planned."));
}

#[test]
fn automatic_sidebar_visibility_tracks_the_wide_breakpoint() {
    let mut snapshot = snapshot_fixture();
    snapshot.plan = vec![PlanItem::parse("Responsive todo", PlanStatus::Pending).unwrap()];
    let mut ui = UiState::new();

    let wide = draw(&snapshot, &mut ui, 121, 10);
    assert!(rendered(&wide).contains("Responsive todo"));

    let narrow = draw(&snapshot, &mut ui, 120, 10);
    assert!(!rendered(&narrow).contains("Responsive todo"));
}

#[test]
fn long_todo_text_wraps_inside_the_sidebar() {
    let mut snapshot = snapshot_fixture();
    snapshot.plan = vec![
        PlanItem::parse(
            "This todo description is deliberately long enough to wrap cleanly",
            PlanStatus::InProgress,
        )
        .unwrap(),
    ];
    let mut ui = UiState::new();
    let terminal = draw(&snapshot, &mut ui, 121, 10);
    let rows = terminal
        .backend()
        .buffer()
        .content
        .chunks(121)
        .map(|row| row.iter().map(|cell| cell.symbol()).collect::<String>())
        .collect::<Vec<_>>();
    let first = rows
        .iter()
        .position(|row| row.contains("▶ This todo"))
        .expect("missing first todo row");
    let continuation = rows
        .iter()
        .position(|row| row.contains("cleanly"))
        .expect("missing wrapped todo tail");

    assert!(continuation > first);
    assert!(rows[continuation][79..].contains("cleanly"));
}

#[test]
fn narrow_sidebar_keeps_a_long_prompt_cursor_outside_the_overlay() {
    let snapshot = snapshot_fixture();
    let mut ui = UiState::new();
    let _ = draw(&snapshot, &mut ui, 80, 10);
    ui.toggle_sidebar();
    ui.editor_mut().set_value(&"prompt text ".repeat(5));

    let mut terminal = draw(&snapshot, &mut ui, 80, 10);

    assert!(terminal.get_cursor_position().unwrap().x < 38);
    assert_eq!(terminal.backend().buffer()[(38, 0)].symbol(), "│");
}

#[test]
fn multiline_prompt_aligns_continuations_and_pins_status() {
    let snapshot = snapshot_fixture();
    let mut ui = UiState::new();
    ui.editor_mut().set_value("first\nsecond");
    let terminal = draw(&snapshot, &mut ui, 20, 8);
    let buffer = terminal.backend().buffer();
    assert_eq!(buffer[(0, 5)].symbol(), "❯");
    assert_eq!(buffer[(2, 5)].symbol(), "f");
    assert_eq!(buffer[(0, 6)].symbol(), " ");
    assert_eq!(buffer[(2, 6)].symbol(), "s");
    assert!(status_row(&terminal, 20, 8).contains("test-model"));
}

#[test]
fn prompt_height_caps_at_four_rows_and_keeps_cursor_visible() {
    let snapshot = snapshot_fixture();
    let mut ui = UiState::new();
    ui.editor_mut().set_value("a\nb\nc\nd\ne");
    let mut terminal = draw(&snapshot, &mut ui, 20, 10);
    let buffer = terminal.backend().buffer();
    assert_eq!(buffer[(0, 5)].symbol(), "❯");
    assert_eq!(buffer[(2, 5)].symbol(), "b");
    assert_eq!(buffer[(2, 8)].symbol(), "e");
    let cursor = terminal.get_cursor_position().unwrap();
    assert_eq!(cursor.y, 8);
    assert!(cursor.x < 20);
    assert!(status_row(&terminal, 20, 10).contains("test-model"));
}

#[test]
fn status_uses_the_latest_transcript_state_and_includes_running_processes() {
    let mut snapshot = snapshot_fixture();
    snapshot.transcript = vec![TranscriptItem::ToolStarted {
        run_id: 8,
        call_id: "call-8".into(),
        name: "bash".into(),
        arguments: "{}".to_owned(),
    }];
    snapshot.jobs = vec![
        JobSnapshotDto {
            id: "job-1".into(),
            kind: JobKind::Bash,
            state: JobState::Running,
            title: "first".into(),
            started_at: snapshot.summary.last_activity,
            completed_at: None,
            details: String::new(),
        },
        JobSnapshotDto {
            id: "job-2".into(),
            kind: JobKind::Bash,
            state: JobState::Running,
            title: "second".into(),
            started_at: snapshot.summary.last_activity,
            completed_at: None,
            details: String::new(),
        },
        JobSnapshotDto {
            id: "job-3".into(),
            kind: JobKind::Bash,
            state: JobState::Completed,
            title: "finished".into(),
            started_at: snapshot.summary.last_activity,
            completed_at: Some(snapshot.summary.last_activity),
            details: String::new(),
        },
    ];
    let mut ui = UiState::new();
    let terminal = draw(&snapshot, &mut ui, 80, 10);
    assert!(status_row(&terminal, 80, 10).contains("thinking..."));
    assert!(status_row(&terminal, 80, 10).contains("2 processes"));

    snapshot
        .transcript
        .push(TranscriptItem::Assistant("done".into()));
    snapshot.busy = true;
    snapshot.summary.busy = true;
    let terminal = draw(&snapshot, &mut ui, 80, 10);
    assert!(status_row(&terminal, 80, 10).contains("ready"));
    assert!(!status_row(&terminal, 80, 10).contains("thinking..."));

    snapshot
        .transcript
        .push(TranscriptItem::Cancelled { run_id: 8 });
    let terminal = draw(&snapshot, &mut ui, 80, 10);
    assert!(status_row(&terminal, 80, 10).contains("ready"));

    ui.push_error("local notice");
    let terminal = draw(&snapshot, &mut ui, 80, 10);
    let status = status_row(&terminal, 80, 10);
    assert!(status.contains("error"));
    assert!(
        terminal
            .backend()
            .buffer()
            .content
            .chunks(80)
            .nth(9)
            .unwrap()
            .iter()
            .any(|cell| cell.fg == OutsideColor::Red)
    );
}

#[test]
fn undersized_frame_shows_only_the_minimum_size_message() {
    let snapshot = snapshot_fixture();
    let mut ui = UiState::new();
    let terminal = draw(&snapshot, &mut ui, 19, 2);
    let rendered = terminal.backend().to_string();
    assert!(rendered.contains("terminal too small"));
    assert!(!rendered.contains('❯'));
}

#[test]
fn transcript_keeps_a_cyan_dim_user_rail_and_open_assistant_text() {
    let snapshot = snapshot_fixture();
    let ui = UiState::new();
    let projection = ChatProjection::Session(snapshot.duplicate());
    let entries = transcript_entries(&projection, &ui);
    let user = entries
        .iter()
        .find(|entry| entry_text(entry).contains("first prompt"))
        .unwrap();
    let assistant = entries
        .iter()
        .find(|entry| entry_text(entry).contains("first answer"))
        .unwrap();
    assert_eq!(user.kind, TranscriptKind::User);
    assert_eq!(assistant.kind, TranscriptKind::Assistant);
    assert_eq!(entry_text(assistant), "first answer");
    let mut ui = UiState::new();
    let terminal = draw(&snapshot, &mut ui, 80, 10);
    let rail = terminal
        .backend()
        .buffer()
        .content
        .iter()
        .find(|cell| cell.symbol() == "│")
        .unwrap();
    assert_eq!(rail.fg, OutsideColor::Cyan);
    assert!(rail.modifier.contains(Modifier::DIM));
}

#[test]
fn failure_and_local_notice_render_as_messages_and_surface_error_status() {
    let mut snapshot = snapshot_fixture();
    snapshot.transcript = vec![failure("request failed")];
    let mut ui = UiState::new();
    ui.push_error("local transport notice");
    let terminal = draw(&snapshot, &mut ui, 80, 12);
    let rendered = rendered(&terminal);
    assert!(rendered.contains("request failed"));
    assert!(rendered.contains("local transport notice"));
    assert!(!rendered.contains("ModelRequest"));
    assert!(status_row(&terminal, 80, 12).contains("error"));
    assert!(
        terminal
            .backend()
            .buffer()
            .content
            .chunks(80)
            .nth(11)
            .unwrap()
            .iter()
            .any(|cell| cell.fg == OutsideColor::Red)
    );
}

#[test]
fn welcome_card_is_only_rendered_for_an_empty_session() {
    let mut snapshot = snapshot_fixture();
    snapshot.transcript.clear();
    let mut ui = UiState::new();
    let terminal = draw(&snapshot, &mut ui, 80, 12);
    let empty_frame = rendered(&terminal);

    assert!(empty_frame.contains("Your personal coding harness"));
    assert!(empty_frame.contains("Enter sends · / commands · Ctrl+O help"));

    let buffer = terminal.backend().buffer();
    let position = |symbol: &str| {
        let index = buffer
            .content
            .iter()
            .position(|cell| cell.symbol() == symbol)
            .unwrap();
        (
            index as u16 % buffer.area.width,
            index as u16 / buffer.area.width,
        )
    };
    let top_left = position("╭");
    let top_right = position("╮");
    let bottom_left = position("╰");

    assert!(top_left.0.abs_diff(buffer.area.width - 1 - top_right.0) <= 1);
    assert!(top_left.1.abs_diff(9 - bottom_left.1) <= 1);

    snapshot
        .transcript
        .push(TranscriptItem::User("first prompt".into()));
    let terminal = draw(&snapshot, &mut ui, 80, 12);
    let conversation_frame = rendered(&terminal);
    assert!(conversation_frame.contains("first prompt"));
    assert!(!conversation_frame.contains("Your personal coding harness"));
    assert!(!conversation_frame.contains("Enter sends · / commands · Ctrl+O help"));
}

#[test]
fn small_empty_session_prioritizes_warnings_and_notices_over_the_welcome_card() {
    let mut snapshot = snapshot_fixture();
    snapshot.transcript.clear();
    snapshot.persistence_warning = Some("disk unavailable".into());
    let mut ui = UiState::new();
    ui.push_notice("local transport notice");

    let terminal = draw(&snapshot, &mut ui, 80, 6);
    let frame = rendered(&terminal);

    assert!(frame.contains("Session persistence warning: disk unavailable."));
    assert!(frame.contains("local transport notice"));
    assert!(!frame.contains("moh · Ctrl+O help"));
    assert!(!frame.contains("Your personal coding harness"));
}

#[test]
fn minimum_normal_frame_uses_a_compact_welcome_message() {
    let mut snapshot = snapshot_fixture();
    snapshot.transcript.clear();
    let mut ui = UiState::new();

    let terminal = draw(&snapshot, &mut ui, 20, 3);
    let frame = rendered(&terminal);

    assert!(frame.contains("moh · Ctrl+O help"));
    assert!(frame.contains('❯'));
    assert!(!frame.contains("terminal too small"));
}

#[test]
fn active_assistant_text_is_rendered_once() {
    let mut snapshot = snapshot_fixture();
    snapshot.active_run = Some(ActiveRunSnapshot {
        run_id: 8,
        prompt: "second prompt".into(),
        assistant_text: "streaming answer".into(),
    });
    snapshot.busy = true;
    snapshot.summary.busy = true;
    let mut ui = UiState::new();
    let terminal = draw(&snapshot, &mut ui, 80, 10);
    assert_eq!(rendered(&terminal).matches("streaming answer").count(), 1);
}

#[test]
fn read_activity_uses_a_path_relative_to_the_session_cwd() {
    let mut snapshot = snapshot_fixture();
    snapshot.transcript = vec![TranscriptItem::ToolStarted {
        run_id: 8,
        call_id: "call-8".into(),
        name: "read".into(),
        arguments: "{\"path\":\"/work/moh/src/lib.rs\",\"offset\":4,\"limit\":3}".to_owned(),
    }];
    let ui = UiState::new();
    let projection = ChatProjection::Session(snapshot);
    let entries = transcript_entries(&projection, &ui);
    assert!(
        entries
            .iter()
            .map(entry_text)
            .any(|text| text == "Read src/lib.rs · lines 4–6")
    );
}

#[test]
fn long_transcript_renders_a_right_side_scrollbar() {
    let mut snapshot = snapshot_fixture();
    snapshot.transcript = (0..20)
        .map(|index| TranscriptItem::Assistant(format!("answer {index}")))
        .collect();
    let mut ui = UiState::new();
    let terminal = draw(&snapshot, &mut ui, 30, 8);
    let has_scrollbar = terminal
        .backend()
        .buffer()
        .content
        .chunks(30)
        .take(6)
        .any(|row| row[29].symbol() != " ");
    assert!(has_scrollbar);
}

#[test]
fn manual_scroll_preserves_the_viewport_when_live_text_grows() {
    let mut snapshot = snapshot_fixture();
    snapshot.transcript = (0..20)
        .map(|index| TranscriptItem::Assistant(format!("answer {index}")))
        .collect();
    let mut ui = UiState::new();
    let _ = draw(&snapshot, &mut ui, 30, 8);
    ui.scroll_mut().page_up();
    let top = ui.scroll().top();
    let scrolled = draw(&snapshot, &mut ui, 30, 8);
    assert!(rendered(&scrolled).contains("answer 15"));
    assert!(!rendered(&scrolled).contains("answer 19"));
    snapshot.active_run = Some(ActiveRunSnapshot {
        run_id: 8,
        prompt: "next".into(),
        assistant_text: "live text that is deliberately longer than the transcript viewport"
            .into(),
    });
    let terminal = draw(&snapshot, &mut ui, 30, 8);
    assert_eq!(ui.scroll().top(), top);
    assert!(rendered(&terminal).contains("answer"));
}

#[test]
fn long_prompt_keeps_the_cursor_in_the_prompt_row() {
    let snapshot = snapshot_fixture();
    let mut ui = UiState::new();
    ui.editor_mut()
        .set_value("a prompt that is much wider than this terminal row");
    let mut terminal = draw(&snapshot, &mut ui, 20, 5);
    let cursor = terminal.get_cursor_position().unwrap();
    assert_eq!(cursor.y, 3);
    assert!(cursor.x < 20);
}

#[test]
fn wide_help_is_a_centered_two_column_reference_with_one_title() {
    let mut snapshot = snapshot_fixture();
    snapshot.transcript = vec![TranscriptItem::Assistant("z".repeat(80))];
    let mut ui = UiState::new();
    ui.set_popup(Some(PopupKind::Help));
    let terminal = draw(&snapshot, &mut ui, 80, 24);
    let frame = rendered(&terminal);

    assert_eq!(frame.matches("Help").count(), 1);
    assert!(!frame.contains("moh help"));
    for label in ["Prompt", "Commands", "Navigation", "Settings", "General"] {
        assert!(frame.contains(label), "missing help section {label}");
    }
    for shortcut in [
        "Enter",
        "Shift+Enter",
        "Ctrl+← / →",
        "Ctrl+⌫ / Del",
        "/cancel",
        "/model [id]",
        "/effort [level]",
        "/ps",
        "/kill job-N",
        "↑ / ↓",
        "Tab",
        "PgUp/PgDn/wheel",
        "End",
        "Ctrl+L",
        "Ctrl+R / ⇧Tab",
        "Ctrl+C",
        "Ctrl+O help · Ctrl+T sidebar · Esc",
    ] {
        assert!(frame.contains(shortcut), "missing shortcut {shortcut}");
    }

    let rows = terminal
        .backend()
        .buffer()
        .content
        .chunks(80)
        .map(|row| row.iter().map(|cell| cell.symbol()).collect::<String>())
        .collect::<Vec<_>>();
    let prompt_row = rows.iter().position(|row| row.contains("Prompt")).unwrap();
    let navigation_row = rows
        .iter()
        .position(|row| row.contains("Navigation"))
        .unwrap();
    assert_eq!(prompt_row, navigation_row);
    let commands_row = rows
        .iter()
        .position(|row| row.contains("Commands"))
        .unwrap();
    let settings_row = rows
        .iter()
        .position(|row| row.contains("Settings"))
        .unwrap();
    assert_eq!(commands_row, settings_row);

    let enter_row = rows.iter().position(|row| row.contains("Enter")).unwrap();
    let enter_column = rows[enter_row].find("Enter").unwrap() as u16;
    let enter = &terminal.backend().buffer()[(enter_column, enter_row as u16)];
    assert_eq!(enter.fg, OutsideColor::Cyan);
    assert!(enter.modifier.contains(Modifier::BOLD));
    assert!(
        terminal
            .backend()
            .buffer()
            .content
            .iter()
            .any(|cell| cell.symbol() == "╭")
    );
    assert_ne!(terminal.backend().buffer()[(40, 5)].symbol(), "z");
}

#[test]
fn narrow_help_keeps_the_complete_reference_in_one_column() {
    let snapshot = snapshot_fixture();
    let mut ui = UiState::new();
    ui.set_popup(Some(PopupKind::Help));
    let terminal = draw(&snapshot, &mut ui, 40, 24);
    let frame = rendered(&terminal);

    for label in ["Prompt", "Commands", "Shortcuts"] {
        assert!(frame.contains(label), "missing help section {label}");
    }
    for shortcut in [
        "Shift+Enter",
        "Ctrl+⌫ / Del",
        "/kill job-N",
        "PgUp/PgDn/wheel",
        "End",
        "Ctrl+L / Ctrl+R / ⇧Tab",
        "Ctrl+C",
        "Ctrl+O help · Ctrl+T sidebar · Esc",
    ] {
        assert!(frame.contains(shortcut), "missing shortcut {shortcut}");
    }
}

#[test]
fn short_help_uses_a_complete_compact_reference_without_clipping() {
    let snapshot = snapshot_fixture();
    for height in [12, 10] {
        let mut ui = UiState::new();
        ui.set_popup(Some(PopupKind::Help));
        let terminal = draw(&snapshot, &mut ui, 40, height);
        let frame = rendered(&terminal);

        for label in ["Prompt", "Commands", "Navigate"] {
            assert!(frame.contains(label), "missing compact section {label}");
        }
        for shortcut in [
            "Enter Send",
            "⇧↵ Line",
            "C←/→ Word",
            "C⌫/Del Del",
            "C-L/R Set",
            "C-C Exit",
            "/cancel",
            "/model",
            "/effort",
            "/ps",
            "/kill",
            "↑/↓ Select",
            "Tab Complete",
            "PgUp/Dn",
            "Wheel Scroll",
            "End Follow",
            "S-Tab Cycle",
            "Ctrl+O help · Ctrl+T sidebar · Esc",
        ] {
            assert!(
                frame.contains(shortcut),
                "missing compact shortcut {shortcut} at 40×{height}"
            );
        }
        assert!(!frame.contains("StopTab"));
        assert!(!frame.contains("ModelPgUp"));
    }
}

#[test]
fn menus_limit_to_five_items_and_highlight_the_selected_item() {
    let snapshot = snapshot_fixture();
    let mut ui = UiState::new();
    ui.menu_mut().set(
        MenuKind::Commands,
        (0..6)
            .map(|index| MenuItem::new(&format!("/command-{index}"), "description"))
            .collect(),
    );
    ui.menu_mut().select_next();
    let terminal = draw(&snapshot, &mut ui, 40, 12);
    let rendered = rendered(&terminal);
    assert!(rendered.contains("/command-4"));
    assert!(!rendered.contains("/command-5"));
    let selected = terminal
        .backend()
        .buffer()
        .content
        .iter()
        .find(|cell| cell.symbol() == "/")
        .unwrap();
    assert!(selected.style().bg.is_some());
}

#[test]
fn popup_rectangles_stay_within_a_minimum_normal_frame() {
    let snapshot = snapshot_fixture();
    let mut ui = UiState::new();
    ui.menu_mut().set(
        MenuKind::Commands,
        vec![MenuItem::new("/quit", "Exit")],
    );
    let menu = draw(&snapshot, &mut ui, 20, 3);
    assert!(menu.backend().buffer()[(0, 0)].symbol().starts_with('┌'));
    assert_eq!(menu.backend().buffer()[(0, 1)].symbol(), "❯");

    ui.menu_mut().clear();
    ui.set_popup(Some(PopupKind::Help));
    let help = draw(&snapshot, &mut ui, 20, 3);
    assert_eq!(help.backend().buffer()[(0, 1)].symbol(), "❯");
    assert!(help.backend().buffer()[(1, 0)].symbol().starts_with('╭'));
    assert!(help.backend().buffer()[(1, 2)].symbol().starts_with('╰'));
}

#[test]
fn narrow_session_browser_renders_above_the_sidebar_across_the_full_frame() {
    let snapshot = snapshot_fixture();
    let mut ui = UiState::new();
    ui.toggle_sidebar();
    ui.session_browser_mut().open();

    let terminal = draw(&snapshot, &mut ui, 80, 24);
    let frame = rendered(&terminal);

    assert!(frame.contains("sessions"));
    assert_eq!(terminal.backend().buffer()[(78, 7)].symbol(), "┐");
}

#[test]
fn the_screen_is_divided_where_there_is_room() {
    let ui = UiState::new();
    let narrow = Rect { x: 0, y: 0, width: 80, height: 24 };
    let parts = divide_screen(narrow, &ui);
    assert!(parts.columns.is_empty() && parts.modal.is_empty() && parts.sidebar.is_empty());
    assert_eq!(
        parts.rows,
        [
            Rect { height: 22, ..narrow },
            Rect { y: 22, height: 1, ..narrow },
            Rect { y: 23, height: 1, ..narrow },
        ]
    );

    let wide = Rect { x: 3, y: 5, width: 160, height: 40 };
    let parts = divide_screen(wide, &ui);
    assert_eq!(
        parts.columns,
        [Rect { width: 118, ..wide }, Rect { x: 121, width: 42, ..wide }]
    );
    assert_eq!(
        parts.rows,
        [
            Rect { width: 118, height: 38, ..wide },
            Rect { width: 118, y: 43, height: 1, ..wide },
            Rect { width: 118, y: 44, height: 1, ..wide },
        ]
    );
    assert_eq!(
        parts.sidebar,
        [
            Rect { x: 124, y: 6, width: 37, height: 1 },
            Rect { x: 124, y: 7, width: 37, height: 37 },
        ]
    );
}

#[test]
fn the_help_takes_one_area_for_each_column() {
    let mut ui = UiState::new();
    ui.set_popup(Some(PopupKind::Help));
    let wide = divide_screen(Rect { x: 0, y: 0, width: 80, height: 24 }, &ui);
    let columns: Vec<(u16, u16)> =
        wide.modal.iter().map(|column| (column.x, column.width)).collect();
    assert_eq!(columns, [(3, 36), (39, 2), (41, 36)]);
    let odd = divide_screen(Rect { x: 0, y: 0, width: 77, height: 24 }, &ui);
    let columns: Vec<(u16, u16)> = odd.modal.iter().map(|column| (column.x, column.width)).collect();
    assert_eq!(columns, [(2, 36), (38, 2), (40, 35)]);
    let narrow = divide_screen(Rect { x: 0, y: 0, width: 50, height: 24 }, &ui);
    assert!(narrow.modal.is_empty());
    let compact = divide_screen(Rect { x: 0, y: 0, width: 50, height: 14 }, &ui);
    let columns: Vec<u16> = compact.modal.iter().map(|column| column.width).collect();
    assert_eq!(columns, [11, 1, 11, 1, 14]);
}

#[test]
fn a_screen_is_composed_from_the_areas_that_it_is_given() {
    let mut ui = UiState::new();
    let area = Rect { x: 0, y: 0, width: 80, height: 24 };
    let mut parts = divide_screen(area, &ui);
    parts.rows[2] = Rect { x: 0, y: 7, width: 80, height: 1 };
    let projection = ChatProjection::Session(snapshot_fixture());
    let scene = render_parts(area, &projection, &mut ui, &parts);
    match scene.last() {
        Some(Element::Text { area, .. }) => assert_eq!(*area, parts.rows[2]),
        _ => panic!("the status should come last"),
    }
}

#[test]
fn words_longer_than_any_row_are_counted_on_the_widest_screen() {
    let mut snapshot = snapshot_fixture();
    snapshot.transcript = vec![
        TranscriptItem::User("界".repeat(16_000)),
        TranscriptItem::User("a".repeat(40_000)),
        TranscriptItem::Assistant(format!("b {}", "c".repeat(70_000))),
    ];
    let projection = ChatProjection::Session(snapshot);
    let mut ui = UiState::new();
    let area = Rect { x: 0, y: 0, width: u16::MAX, height: 24 };
    let heights: Vec<u16> = render(area, &projection, &mut ui)
        .iter()
        .filter_map(|element| match element {
            Element::Text { area, lines, .. } if lines[0].text().len() > 10_000 => {
                Some(area.height)
            }
            _ => None,
        })
        .collect();
    assert_eq!(heights, [1, 3, 6]);
}
