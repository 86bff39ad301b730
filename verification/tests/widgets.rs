//! Scrolling, menus and resets of the screen.

use moh::client::ui::state::{PopupKind, UiState};
use moh::client::ui::widgets::{MenuItem, MenuKind, MenuState, TranscriptScroll};

#[test]
fn auto_follow_tracks_bottom_and_manual_scroll_stays_stable() {
    let mut scroll = TranscriptScroll::default();
    scroll.update_metrics(30, 8);
    assert_eq!(scroll.top(), 22);
    assert!(scroll.auto_follow());

    scroll.page_up();
    assert_eq!(scroll.top(), 15);
    assert!(!scroll.auto_follow());

    scroll.update_metrics(40, 8);
    assert_eq!(scroll.top(), 15);

    scroll.follow_latest();
    assert_eq!(scroll.top(), 32);
    assert!(scroll.auto_follow());
}

#[test]
fn page_and_wheel_steps_are_exact_and_clamped() {
    let mut scroll = TranscriptScroll::default();
    scroll.update_metrics(20, 5);
    scroll.page_up();
    assert_eq!(scroll.top(), 11);
    scroll.wheel_up();
    assert_eq!(scroll.top(), 8);
    scroll.wheel_down();
    assert_eq!(scroll.top(), 11);
    scroll.page_down();
    assert_eq!(scroll.top(), 15);
    scroll.page_down();
    assert_eq!(scroll.top(), 15);
}

#[test]
fn menu_selection_wraps_and_replacement_selects_first_item() {
    let mut menu = MenuState::default();
    menu.set(
        MenuKind::Commands,
        vec![MenuItem::new("/quit", "Exit moh"),
            MenuItem::new("/model", "Change model")],
    );
    assert_eq!(menu.selected_value(), Some("/quit"));
    menu.select_previous();
    assert_eq!(menu.selected_value(), Some("/model"));
    menu.select_next();
    assert_eq!(menu.selected_value(), Some("/quit"));

    menu.set(
        MenuKind::Models,
        vec![MenuItem::new("gpt-5.6-terra", "Balanced model")],
    );
    assert_eq!(menu.selected_value(), Some("gpt-5.6-terra"));
}

#[test]
fn authoritative_reset_clears_only_local_projection_state() {
    let mut ui = UiState::new();
    ui.editor_mut().set_value("keep me");
    ui.push_error("safe\x1b[2J error");
    ui.set_popup(Some(PopupKind::Help));
    ui.dismiss_welcome();
    ui.authoritative_reset();

    assert_eq!(ui.editor().value(), "keep me");
    assert!(ui.notices().is_empty());
    assert!(!ui.local_error());
    assert_eq!(ui.popup(), None);
    assert!(!ui.welcome_dismissed());
    assert!(ui.take_redraw());
}

#[test]
fn chat_transition_reset_clears_session_local_state() {
    let mut ui = UiState::new();
    ui.editor_mut().set_value("discard me");
    ui.scroll_mut().update_metrics(30, 8);
    ui.scroll_mut().page_up();
    ui.menu_mut()
        .set(MenuKind::Commands, vec![MenuItem::new("/quit", "Exit moh")]);
    ui.session_browser_mut().open();
    ui.set_help_open(true);
    ui.push_error("discard notice");

    ui.chat_transition_reset();

    assert!(ui.editor().value().is_empty());
    assert_eq!(ui.scroll().top(), 0);
    assert!(ui.menu().kind().is_none());
    assert!(!ui.session_browser().is_open());
    assert!(!ui.help_open());
    assert!(ui.notices().is_empty());
    assert!(!ui.local_error());
}
