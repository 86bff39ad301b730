//! The session browser.

use moh::client::input::{Event, KeyCode, KeyEvent, KeyModifiers, MouseEventKind};
use moh::client::ui::browser_view::{
    browser_rect, delete_confirmation_text, divide_browser, render_session_browser, session_row,
};
use moh::client::ui::layout::{Element, Rect};
use moh::client::ui::session_browser::{
    BrowserAction, BrowserLayer, BrowserMode, BrowserRow, SessionBrowserState,
};
use moh::session::{SessionId, SessionSummary, SessionTitle, Timestamp};

fn summary(number: u64, title: &str, cwd: &str, seconds: i64) -> SessionSummary {
    SessionSummary {
        id: SessionId { number },
        title: SessionTitle::parse(title).unwrap(),
        title_revision: 0,
        cwd: cwd.as_bytes().to_vec(),
        cwd_display: cwd.to_owned(),
        running_jobs: 2,
        running: true,
        busy: number == 1,
        attached_clients: 3,
        last_activity: Timestamp { seconds, nanoseconds: 0 },
    }
}

fn browser() -> SessionBrowserState {
    let mut browser = SessionBrowserState::default();
    browser.open();
    browser.set_viewport_rows(10);
    browser.set_sessions(
        &b"/here".to_vec(),
        vec![
            summary(1, "alpha", "/here", 10),
            summary(2, "beta", "/there", 30),
            summary(3, "gamma", "/here", 20),
        ],
    );
    browser
}

fn key(code: KeyCode) -> Event {
    Event::Key(KeyEvent::new(code, KeyModifiers::none()))
}

fn ids(browser: &SessionBrowserState) -> Vec<Option<u64>> {
    browser.visible_rows().iter().map(|row| row.session_id().map(|id| id.number)).collect()
}

#[test]
fn the_project_lists_its_sessions_latest_first() {
    let browser = browser();
    assert_eq!(browser.mode(), BrowserMode::Project);
    assert_eq!(ids(&browser), [Some(3), Some(1)]);
    assert_eq!(browser.selected_id(), Some(SessionId { number: 3 }));
}

#[test]
fn the_global_list_groups_by_directory_with_the_current_one_first() {
    let mut browser = browser();
    browser.toggle_mode();
    assert!(browser.take_refresh_request());
    assert_eq!(ids(&browser), [None, Some(3), Some(1), None, Some(2)]);
    assert!(matches!(
        &browser.visible_rows()[3],
        BrowserRow::Group { cwd_display, .. } if cwd_display == "/there"
    ));
}

#[test]
fn selection_moves_over_sessions_only_and_survives_a_filter() {
    let mut browser = browser();
    browser.toggle_mode();
    browser.select_next();
    assert_eq!(browser.selected_id(), Some(SessionId { number: 1 }));
    browser.select_next();
    assert_eq!(browser.selected_id(), Some(SessionId { number: 2 }));
    browser.set_query("beta");
    assert_eq!(browser.selected_id(), Some(SessionId { number: 2 }));
    browser.set_query("alpha");
    assert_eq!(browser.selected_id(), Some(SessionId { number: 1 }));
    browser.set_query("nothing like this");
    assert_eq!(browser.selected_id(), None);
}

#[test]
fn keys_switch_rename_and_delete() {
    let mut browser = browser();
    assert!(matches!(
        browser.handle_event(&key(KeyCode::Enter)),
        BrowserAction::Switch(SessionId { number: 3 })
    ));
    browser.handle_event(&key(KeyCode::F(2)));
    assert!(matches!(browser.layer(), BrowserLayer::Rename { .. }));
    browser.handle_event(&Event::Paste("!".to_owned()));
    match browser.handle_event(&key(KeyCode::Enter)) {
        BrowserAction::Rename { session_id, title } => {
            assert_eq!(session_id.number, 3);
            assert_eq!(title, "gamma!");
        }
        _ => panic!("the session should be renamed"),
    }
    browser.finish_rename();
    browser.handle_event(&Event::Key(KeyEvent::new(
        KeyCode::Char('d'),
        KeyModifiers::control(),
    )));
    assert!(matches!(browser.layer(), BrowserLayer::ConfirmDelete { .. }));
    assert!(matches!(
        browser.handle_event(&key(KeyCode::Char('y'))),
        BrowserAction::Delete(SessionId { number: 3 })
    ));
    browser.finish_delete(SessionId { number: 3 });
    assert_eq!(ids(&browser), [Some(1)]);
}

#[test]
fn the_wheel_scrolls_the_selection() {
    let mut browser = browser();
    browser.handle_event(&Event::Mouse(MouseEventKind::ScrollDown));
    assert_eq!(browser.selected_id(), Some(SessionId { number: 1 }));
    browser.handle_event(&Event::Mouse(MouseEventKind::ScrollUp));
    assert_eq!(browser.selected_id(), Some(SessionId { number: 3 }));
}

#[test]
fn rows_tell_what_a_session_does() {
    let summary = summary(1, "alpha", "/here", 1_787_832_000);
    assert_eq!(
        session_row(&summary, Some(SessionId { number: 1 })),
        "[current] [running] jobs:2 clients:3 alpha · session-1 · 2026-08-27 12:00Z"
    );
    let summary = self::summary(2, "beta", "/here", 0);
    assert_eq!(
        session_row(&summary, None),
        "jobs:2 clients:3 beta · session-2 · 1970-01-01 00:00Z"
    );
}

#[test]
fn deletions_are_explained() {
    let lines: Vec<String> =
        delete_confirmation_text(SessionId { number: 4 }, "old\nwork").iter().map(|line| line.text()).collect();
    assert_eq!(
        lines,
        [
            "Delete old work (session-4)?",
            "",
            "This is permanent.",
            "The active model run will be cancelled; background jobs terminated.",
            "All attached clients will be disconnected.",
        ]
    );
}

fn screen() -> Rect {
    Rect { x: 0, y: 0, width: 80, height: 24 }
}

#[test]
fn the_browser_is_centered_and_as_high_as_it_needs() {
    let mut browser = browser();
    assert_eq!(browser_rect(screen(), &browser), Rect { x: 1, y: 7, width: 78, height: 9 });
    browser.set_action_error("failed".to_owned());
    assert_eq!(browser_rect(screen(), &browser).height, 10);
    browser.start_rename();
    assert_eq!(browser_rect(screen(), &browser).height, 11);
    browser.escape();
    browser.start_delete_confirmation();
    assert_eq!(browser_rect(screen(), &browser).height, 13);
}

#[test]
fn the_browser_shows_tabs_messages_rows_and_keys() {
    let mut browser = browser();
    browser.set_action_error("first\nfailed".to_owned());
    browser.set_refresh_warning("then stale".to_owned());
    let mut scene = Vec::new();
    let parts = divide_browser(screen(), &browser);
    render_session_browser(&mut scene, screen(), &mut browser, None, &parts);
    let texts: Vec<String> = scene
        .iter()
        .flat_map(|element| match element {
            Element::Text { lines, .. } => lines.iter().map(|line| line.text()).collect(),
            Element::Sessions { rows, .. } => rows.iter().map(|line| line.text()).collect(),
            Element::Tabs { labels, .. } => labels.iter().map(|line| line.text()).collect(),
            _ => Vec::new(),
        })
        .collect();
    assert_eq!(texts[0], "Local");
    assert_eq!(texts[1], "Global");
    assert_eq!(texts[2], "Filter: ");
    assert_eq!(texts[3], "Error: first failed");
    assert_eq!(texts[4], "Warning: then stale");
    assert!(texts[5].starts_with("jobs:2 clients:3 gamma"));
    assert!(texts[7].ends_with("Esc close"));
    assert!(scene.iter().any(|element| matches!(element, Element::Cursor { x: 10, .. })));
    assert!(scene.iter().any(|element| matches!(
        element,
        Element::Sessions { chosen: Some(0), offset: 0, .. }
    )));

    browser.set_query("zzz");
    let mut scene = Vec::new();
    let parts = divide_browser(screen(), &browser);
    render_session_browser(&mut scene, screen(), &mut browser, None, &parts);
    assert!(scene.iter().any(|element| matches!(
        element,
        Element::Sessions { rows, chosen: None, .. }
            if rows[0].text() == "No sessions match the filter."
    )));

    let mut closed = SessionBrowserState::default();
    let mut scene = Vec::new();
    render_session_browser(&mut scene, screen(), &mut closed, None, &Vec::new());
    assert!(scene.is_empty());
}

#[test]
fn deletion_is_confirmed_and_escape_closes_the_dialog_first() {
    let mut browser = browser();
    assert!(!matches!(
        browser.handle_event(&key(KeyCode::Char('y'))),
        BrowserAction::Delete(_)
    ));
    browser.set_query("");
    browser.start_delete_confirmation();
    browser.handle_event(&key(KeyCode::Esc));
    assert!(browser.is_open());
    assert!(matches!(browser.layer(), BrowserLayer::List));
    browser.handle_event(&key(KeyCode::Esc));
    assert!(!browser.is_open());
}
