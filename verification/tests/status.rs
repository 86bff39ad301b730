//! The status line.

use moh::client::session::{ChatProjection, DraftState};
use moh::client::ui::state::UiState;
use moh::client::ui::status::status_line;
use moh::client::ui::style::Color;
use moh::session::{ModelCatalogState, ReasoningLevel, SessionSettings};

fn draft(model: &str, cwd: &[u8], context_tokens: u64) -> ChatProjection {
    ChatProjection::Draft(DraftState {
        cwd: cwd.to_vec(),
        settings: SessionSettings {
            model: model.to_owned(),
            reasoning: ReasoningLevel::Medium,
            context_tokens,
        },
        catalog: ModelCatalogState::Loading,
    })
}

#[test]
fn a_draft_shows_its_model_effort_and_directory() {
    let line = status_line(&draft("gpt-5.6-luna", b"/work", 64_000), &UiState::new());
    assert_eq!(
        line.text(),
        "╰─ gpt-5.6-luna · new chat · medium · 25%/256K · ready · /work"
    );
    assert_eq!(line.spans[4].style.fg, Some(Color::Green));
}

#[test]
fn the_status_cannot_control_the_terminal() {
    let line = status_line(&draft("a\u{1b}[2J\n\u{9b}b", b"/w\xff\x07", 0), &UiState::new());
    assert!(!line.text().chars().any(char::is_control));
    assert!(line.text().contains('\u{fffd}'));
}

#[test]
fn errors_of_the_client_come_first() {
    let mut ui = UiState::new();
    ui.push_error("failed");
    let line = status_line(&draft("model", b"/", u64::MAX), &ui);
    assert_eq!(line.spans[4].content, "error");
    assert_eq!(line.spans[4].style.fg, Some(Color::Red));
    assert!(line.spans[3].content.contains("72057594037927%/256K"));
}
