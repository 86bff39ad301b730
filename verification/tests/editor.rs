//! The prompt editor.

use moh::client::input::{Event, KeyCode, KeyEvent, KeyEventKind, KeyModifiers};
use moh::client::ui::editor::{EditorOutcome, PromptEditor};
use unicode_width::UnicodeWidthStr;

#[test]
fn display_window_keeps_the_hardware_cursor_inside_the_available_width() {
    let mut editor = PromptEditor::new();
    editor.set_value("0123456789");
    let window = editor.display_window(4);
    assert!(UnicodeWidthStr::width(window.text.as_str()) <= 4);
    assert!(window.cursor_column < 4);
    assert!(window.text.ends_with("789"));
}

fn key(code: KeyCode) -> Event {
    Event::Key(KeyEvent::new(code, KeyModifiers::none()))
}

fn modified(code: KeyCode, modifiers: KeyModifiers) -> Event {
    Event::Key(KeyEvent::new(code, modifiers))
}

#[test]
fn editor_edits_and_submits_whole_graphemes() {
    let mut editor = PromptEditor::new();
    assert_eq!(
        editor.handle_event(&Event::Paste("a👩‍💻b".into())),
        EditorOutcome::Changed
    );
    assert_eq!(
        editor.handle_event(&key(KeyCode::Left)),
        EditorOutcome::Changed
    );
    assert_eq!(
        editor.handle_event(&key(KeyCode::Backspace)),
        EditorOutcome::Changed
    );
    assert_eq!(editor.value(), "ab");
    assert_eq!(
        editor.handle_event(&key(KeyCode::Enter)),
        EditorOutcome::Submitted("ab".into())
    );
    assert_eq!(editor.value(), "");
}

#[test]
fn shift_enter_inserts_a_newline_and_enter_submits_the_complete_prompt() {
    let mut editor = PromptEditor::new();
    editor.handle_event(&Event::Paste("first".into()));
    assert_eq!(
        editor.handle_event(&modified(KeyCode::Enter, KeyModifiers::shift())),
        EditorOutcome::Changed
    );
    editor.handle_event(&Event::Paste("second".into()));
    assert_eq!(editor.value(), "first\nsecond");
    assert_eq!(
        editor.handle_event(&key(KeyCode::Enter)),
        EditorOutcome::Submitted("first\nsecond".into())
    );
}

#[test]
fn multiline_paste_normalizes_line_endings_and_controls() {
    let mut editor = PromptEditor::new();
    editor.handle_event(&Event::Paste("one\r\ntwo\rthree\t\x1b[2Jfour".into()));
    assert_eq!(editor.value(), "one\ntwo\nthree [2Jfour");
}

#[test]
fn up_and_down_move_between_multiline_rows() {
    let mut editor = PromptEditor::new();
    editor.set_value("first\nsecond");
    assert_eq!(
        editor.handle_event(&key(KeyCode::Up)),
        EditorOutcome::Changed
    );
    assert_eq!(
        editor.handle_event(&key(KeyCode::Delete)),
        EditorOutcome::Changed
    );
    assert_eq!(editor.value(), "firstsecond");
}

#[test]
fn display_rows_scrolls_and_tracks_the_cursor_across_soft_wraps() {
    let mut editor = PromptEditor::new();
    editor.set_value("a\nb\nc\nd\ne");
    let rows = editor.display_rows(2, 2);
    assert_eq!(rows.lines, ["d", "e"]);
    assert_eq!(rows.cursor_row, 1);
    assert_eq!(rows.cursor_column, 1);

    editor.set_value("abcd");
    let rows = editor.display_rows(2, 2);
    assert_eq!(rows.lines, ["ab", "cd"]);
    assert_eq!(rows.cursor_row, 1);
    assert_eq!(
        editor.handle_event(&key(KeyCode::Up)),
        EditorOutcome::Changed
    );
    assert_eq!(editor.display_rows(2, 2).cursor_row, 0);
}

#[test]
fn home_and_end_stay_within_the_current_logical_line() {
    let mut editor = PromptEditor::new();
    editor.set_value("first\nsecond");
    assert_eq!(
        editor.handle_event(&key(KeyCode::Home)),
        EditorOutcome::Changed
    );
    assert_eq!(
        editor.handle_event(&key(KeyCode::Delete)),
        EditorOutcome::Changed
    );
    assert_eq!(editor.value(), "first\necond");
    assert_eq!(
        editor.handle_event(&key(KeyCode::End)),
        EditorOutcome::Changed
    );
    assert_eq!(
        editor.handle_event(&key(KeyCode::Backspace)),
        EditorOutcome::Changed
    );
    assert_eq!(editor.value(), "first\necon");
}

#[test]
fn vertical_movement_preserves_the_preferred_column_across_short_rows() {
    let mut editor = PromptEditor::new();
    editor.set_value("abcd\nx\nwxyz");
    editor.display_rows(4, 3);
    assert_eq!(
        editor.handle_event(&key(KeyCode::Up)),
        EditorOutcome::Changed
    );
    assert_eq!(editor.display_rows(4, 3).cursor_column, 1);
    assert_eq!(
        editor.handle_event(&key(KeyCode::Up)),
        EditorOutcome::Changed
    );
    assert_eq!(editor.display_rows(4, 3).cursor_column, 3);
    assert_eq!(
        editor.handle_event(&key(KeyCode::Down)),
        EditorOutcome::Changed
    );
    assert_eq!(
        editor.handle_event(&key(KeyCode::Down)),
        EditorOutcome::Changed
    );
    assert_eq!(editor.display_rows(4, 3).cursor_column, 3);
}

#[test]
fn a_wide_grapheme_wraps_without_escaping_the_available_width() {
    let mut editor = PromptEditor::new();
    editor.set_value("ab界");
    let rows = editor.display_rows(3, 2);
    assert_eq!(rows.lines, ["ab", "界"]);
    assert_eq!(rows.cursor_row, 1);
    assert!(rows.cursor_column < 3);
}

#[test]
fn editor_preserves_word_shortcuts_and_normalizes_paste() {
    let mut editor = PromptEditor::new();
    editor.handle_event(&Event::Paste("one  two\nthree\x1b[2J".into()));
    let ctrl_left = Event::Key(KeyEvent::new(KeyCode::Left, KeyModifiers::control()));
    let ctrl_backspace = Event::Key(KeyEvent::new(KeyCode::Backspace, KeyModifiers::control()));
    assert_eq!(editor.handle_event(&ctrl_left), EditorOutcome::Changed);
    assert_eq!(editor.handle_event(&ctrl_backspace), EditorOutcome::Changed);
    assert_eq!(editor.value(), "one  three[2J");
}

#[test]
fn display_rows_keeps_the_hardware_cursor_inside_the_available_width() {
    let mut editor = PromptEditor::new();
    editor.set_value("0123456789");
    let rows = editor.display_rows(4, 1);
    assert!(UnicodeWidthStr::width(rows.lines[0].as_str()) <= 4);
    assert!(rows.cursor_column < 4);
    assert_eq!(rows.lines, ["89"]);
}

#[test]
fn editor_navigation_and_deletion_stop_at_grapheme_boundaries() {
    let mut editor = PromptEditor::new();
    editor.set_value("a👩‍💻界");

    assert_eq!(
        editor.handle_event(&key(KeyCode::Home)),
        EditorOutcome::Changed
    );
    assert_eq!(
        editor.handle_event(&key(KeyCode::Left)),
        EditorOutcome::Consumed
    );
    assert_eq!(
        editor.handle_event(&key(KeyCode::Delete)),
        EditorOutcome::Changed
    );
    assert_eq!(editor.value(), "👩‍💻界");
    assert_eq!(
        editor.handle_event(&key(KeyCode::End)),
        EditorOutcome::Changed
    );
    assert_eq!(
        editor.handle_event(&key(KeyCode::Right)),
        EditorOutcome::Consumed
    );
    assert_eq!(
        editor.handle_event(&key(KeyCode::Backspace)),
        EditorOutcome::Changed
    );
    assert_eq!(editor.value(), "👩‍💻");
}

#[test]
fn editor_word_shortcuts_use_unicode_whitespace_and_ctrl_h() {
    let mut editor = PromptEditor::new();
    editor.set_value("\u{2003}界  two");
    assert_eq!(
        editor.handle_event(&key(KeyCode::Home)),
        EditorOutcome::Changed
    );
    assert_eq!(
        editor.handle_event(&modified(KeyCode::Delete, KeyModifiers::control())),
        EditorOutcome::Changed
    );
    assert_eq!(editor.value(), "two");

    editor.set_value("one  two  ");
    assert_eq!(
        editor.handle_event(&modified(KeyCode::Char('h'), KeyModifiers::control())),
        EditorOutcome::Changed
    );
    assert_eq!(editor.value(), "one  ");
}

#[test]
fn shifted_control_word_shortcuts_are_ignored() {
    for shortcut_key in [
        KeyCode::Left,
        KeyCode::Right,
        KeyCode::Backspace,
        KeyCode::Delete,
    ] {
        let mut editor = PromptEditor::new();
        editor.set_value("one two");
        editor.handle_event(&key(KeyCode::Home));
        for _ in 0..3 {
            editor.handle_event(&key(KeyCode::Right));
        }

        assert_eq!(
            editor.handle_event(&modified(
                shortcut_key,
                KeyModifiers { shift: true, ..KeyModifiers::control() },
            )),
            EditorOutcome::Ignored,
            "shifted Ctrl+{shortcut_key:?}"
        );
        assert_eq!(editor.value(), "one two", "shifted Ctrl+{shortcut_key:?}");
        assert_eq!(
            editor.handle_event(&key(KeyCode::Delete)),
            EditorOutcome::Changed,
            "cursor moved by shifted Ctrl+{shortcut_key:?}"
        );
        assert_eq!(
            editor.value(),
            "onetwo",
            "cursor moved by shifted Ctrl+{shortcut_key:?}"
        );
    }
}

#[test]
fn editor_constructs_and_deletes_whole_graphemes_from_scalar_input() {
    let cases: &[(&str, &[char])] = &[
        ("combining mark", &['e', '\u{301}']),
        ("emoji modifier", &['👍', '🏽']),
        ("regional indicators", &['🇺', '🇸']),
        ("zwj sequence", &['👩', '\u{200d}', '💻']),
    ];

    for &(name, scalars) in cases {
        let expected = scalars.iter().collect::<String>();
        let mut editor = PromptEditor::new();

        for &scalar in scalars {
            assert_eq!(
                editor.handle_event(&key(KeyCode::Char(scalar))),
                EditorOutcome::Changed,
                "insert {name}"
            );
        }
        assert_eq!(editor.value(), expected, "value after {name}");
        assert_eq!(
            editor.handle_event(&key(KeyCode::Right)),
            EditorOutcome::Consumed,
            "cursor is at the end of {name}"
        );
        assert_eq!(
            editor.handle_event(&key(KeyCode::Backspace)),
            EditorOutcome::Changed,
            "backspace removes {name}"
        );
        assert_eq!(editor.value(), "", "empty after backspacing {name}");

        for &scalar in scalars {
            editor.handle_event(&key(KeyCode::Char(scalar)));
        }
        assert_eq!(
            editor.handle_event(&key(KeyCode::Left)),
            EditorOutcome::Changed,
            "left crosses all of {name}"
        );
        assert_eq!(
            editor.handle_event(&key(KeyCode::Delete)),
            EditorOutcome::Changed,
            "delete removes all of {name}"
        );
        assert_eq!(editor.value(), "", "empty after deleting {name}");
    }
}

#[test]
fn editor_sanitizes_paste_and_typed_characters_before_submit() {
    let mut configured = PromptEditor::new();
    configured.set_value("A\x1b[2JB\x1b[?1049hC\tD\x08E\x7fF\u{0085}G\r\nH");
    assert_eq!(configured.value(), "A[2JB[?1049hC DEFG\nH");

    let mut editor = PromptEditor::new();
    assert_eq!(
        editor.handle_event(&Event::Paste(
            "P\x1b[2J\x1b[?1049h\tQ\0\x08\x1f\x7f\u{0080}\u{009f}\r\nR".to_owned(),
        )),
        EditorOutcome::Changed
    );
    assert_eq!(editor.value(), "P[2J[?1049h Q\nR");

    for control in ['\x1b', '\x08', '\u{007f}', '\u{0085}'] {
        assert_eq!(
            editor.handle_event(&key(KeyCode::Char(control))),
            EditorOutcome::Consumed,
            "typed control U+{:04X}",
            control as u32
        );
    }
    assert_eq!(
        editor.handle_event(&key(KeyCode::Char('\t'))),
        EditorOutcome::Changed
    );
    assert_eq!(
        editor.handle_event(&key(KeyCode::Char('界'))),
        EditorOutcome::Changed
    );
    assert_eq!(
        editor.handle_event(&key(KeyCode::Enter)),
        EditorOutcome::Submitted("P[2J[?1049h Q\nR 界".into())
    );

    assert_eq!(
        editor.handle_event(&key(KeyCode::Enter)),
        EditorOutcome::Submitted(String::new())
    );
}

#[test]
fn editor_ignores_releases_and_non_key_events() {
    let mut editor = PromptEditor::new();
    let release = Event::Key(KeyEvent {
        code: KeyCode::Char('x'),
        modifiers: KeyModifiers::none(),
        kind: KeyEventKind::Release,
    });
    assert_eq!(editor.handle_event(&release), EditorOutcome::Ignored);
    assert_eq!(
        editor.handle_event(&Event::Resize(20, 4)),
        EditorOutcome::Ignored
    );
    assert_eq!(editor.value(), "");
}
