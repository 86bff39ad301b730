//! Terminal events, and the modes that a session enters and leaves.

use std::cell::RefCell;
use std::collections::HashSet;
use std::rc::Rc;

use moh::client::input::{
    Event, KeyCode, KeyEvent, KeyEventKind, KeyModifiers, MouseEventKind,
};
use moh::client::terminal::{
    attempt_extra_mode_panic_cleanup, map_event, panic_cleanup_operations, ModeOp,
    TerminalSession,
};

const INIT: &str = "init";
const ENABLE_KEYBOARD: &str = "enable_keyboard";
const ENABLE_PASTE: &str = "enable_paste";
const ENABLE_MOUSE: &str = "enable_mouse";
const DISABLE_MOUSE: &str = "disable_mouse";
const DISABLE_PASTE: &str = "disable_paste";
const DISABLE_KEYBOARD: &str = "disable_keyboard";
const RESTORE: &str = "restore";

fn name(operation: ModeOp) -> &'static str {
    match operation {
        ModeOp::Init => INIT,
        ModeOp::EnableKeyboard => ENABLE_KEYBOARD,
        ModeOp::EnablePaste => ENABLE_PASTE,
        ModeOp::EnableMouse => ENABLE_MOUSE,
        ModeOp::DisableMouse => DISABLE_MOUSE,
        ModeOp::DisablePaste => DISABLE_PASTE,
        ModeOp::DisableKeyboard => DISABLE_KEYBOARD,
        ModeOp::Restore => RESTORE,
    }
}

struct FakeModes {
    effects: Rc<RefCell<Vec<&'static str>>>,
    failures: HashSet<&'static str>,
    failures_once: HashSet<&'static str>,
    keyboard_enhancement_supported: bool,
}

impl FakeModes {
    fn new(effects: Rc<RefCell<Vec<&'static str>>>) -> Self {
        Self {
            effects,
            failures: HashSet::new(),
            failures_once: HashSet::new(),
            keyboard_enhancement_supported: true,
        }
    }

    fn failing(effects: Rc<RefCell<Vec<&'static str>>>, failure: &'static str) -> Self {
        Self::failing_many(effects, [failure])
    }

    fn failing_many<const N: usize>(
        effects: Rc<RefCell<Vec<&'static str>>>,
        failures: [&'static str; N],
    ) -> Self {
        Self { failures: failures.into_iter().collect(), ..Self::new(effects) }
    }

    fn failing_once<const N: usize>(
        effects: Rc<RefCell<Vec<&'static str>>>,
        failures: [&'static str; N],
    ) -> Self {
        Self { failures_once: failures.into_iter().collect(), ..Self::new(effects) }
    }

    fn without_keyboard_enhancement(effects: Rc<RefCell<Vec<&'static str>>>) -> Self {
        Self { keyboard_enhancement_supported: false, ..Self::new(effects) }
    }

    fn run(&mut self, operation: &'static str) -> Result<(), String> {
        self.effects.borrow_mut().push(operation);
        if self.failures.contains(operation) || self.failures_once.remove(operation) {
            Err(format!("{operation} failed"))
        } else {
            Ok(())
        }
    }
}

struct Session {
    modes: FakeModes,
    state: TerminalSession,
}

impl Session {
    fn start_with(modes: FakeModes) -> Result<Self, String> {
        let mut session = Session { modes, state: TerminalSession::new() };
        while let Some(operation) = session.state.attempt_setup() {
            if operation == ModeOp::EnableKeyboard && !session.modes.keyboard_enhancement_supported {
                session.state.setup_succeeded(false);
                continue;
            }
            if let Err(error) = session.modes.run(name(operation)) {
                let _ = session.restore();
                return Err(error);
            }
            session.state.setup_succeeded(true);
        }
        Ok(session)
    }

    fn restore(&mut self) -> Result<(), String> {
        let mut first_error = None;
        for operation in self.state.cleanup_operations() {
            let result = self.modes.run(name(operation));
            self.state.record_cleanup(operation, result, &mut first_error);
        }
        first_error.map_or(Ok(()), Err)
    }
}

impl Drop for Session {
    fn drop(&mut self) {
        if !self.state.is_restored() {
            let _ = self.restore();
        }
    }
}

fn error_message<T>(result: Result<T, String>) -> String {
    match result {
        Ok(_) => panic!("expected an error"),
        Err(error) => error,
    }
}

fn alt() -> KeyModifiers {
    KeyModifiers { alt: true, ..KeyModifiers::none() }
}

fn key(code: KeyCode, modifiers: KeyModifiers, kind: KeyEventKind) -> Event {
    Event::Key(KeyEvent { code, modifiers, kind })
}

fn duplicate(event: &Event) -> Event {
    match event {
        Event::Key(key) => Event::Key(*key),
        Event::Mouse(kind) => Event::Mouse(*kind),
        Event::Paste(text) => Event::Paste(text.clone()),
        Event::Resize(width, height) => Event::Resize(*width, *height),
        Event::FocusGained => Event::FocusGained,
        Event::FocusLost => Event::FocusLost,
    }
}

fn mouse(kind: MouseEventKind) -> Event {
    Event::Mouse(kind)
}

#[test]
fn maps_key_presses_and_repeats_but_ignores_releases() {
    let press = key(KeyCode::Char('x'), KeyModifiers::shift(), KeyEventKind::Press);
    let repeat = key(KeyCode::Left, alt(), KeyEventKind::Repeat);
    let release = key(
        KeyCode::Char('x'),
        KeyModifiers::control(),
        KeyEventKind::Release,
    );

    assert_eq!(map_event(duplicate(&press)), Some(press));
    assert_eq!(map_event(duplicate(&repeat)), Some(repeat));
    assert_eq!(map_event(release), None);
}

#[test]
fn maps_shifted_enter_press() {
    let shifted_enter = key(KeyCode::Enter, KeyModifiers::shift(), KeyEventKind::Press);

    assert_eq!(map_event(duplicate(&shifted_enter)), Some(shifted_enter));
}

#[test]
fn normalizes_control_h_to_control_backspace() {
    let mapped = map_event(key(
        KeyCode::Char('h'),
        KeyModifiers::control(),
        KeyEventKind::Press,
    ));

    assert_eq!(
        mapped,
        Some(key(
            KeyCode::Backspace,
            KeyModifiers::control(),
            KeyEventKind::Press,
        ))
    );
}

#[test]
fn maps_paste_resize_and_only_mouse_wheel_events() {
    let supported = [
        Event::Paste("界".into()),
        Event::Resize(120, 35),
        mouse(MouseEventKind::ScrollUp),
        mouse(MouseEventKind::ScrollDown),
    ];
    for event in supported {
        assert_eq!(map_event(duplicate(&event)), Some(event));
    }

    let unsupported = [
        mouse(MouseEventKind::Down),
        mouse(MouseEventKind::Up),
        mouse(MouseEventKind::Drag),
        mouse(MouseEventKind::Moved),
        mouse(MouseEventKind::ScrollLeft),
        mouse(MouseEventKind::ScrollRight),
        Event::FocusGained,
        Event::FocusLost,
    ];
    for event in unsupported {
        assert_eq!(map_event(event), None);
    }
}

#[test]
fn successful_session_restores_keyboard_mouse_paste_then_ratatui() {
    let effects = Rc::new(RefCell::new(Vec::new()));
    let modes = FakeModes::new(Rc::clone(&effects));
    let mut session = Session::start_with(modes).unwrap();

    session.restore().unwrap();

    assert_eq!(
        effects.borrow().as_slice(),
        [
            INIT,
            ENABLE_KEYBOARD,
            ENABLE_PASTE,
            ENABLE_MOUSE,
            DISABLE_MOUSE,
            DISABLE_PASTE,
            DISABLE_KEYBOARD,
            RESTORE,
        ]
    );
}

#[test]
fn unsupported_keyboard_enhancement_preserves_existing_terminal_lifecycle() {
    let effects = Rc::new(RefCell::new(Vec::new()));
    let modes = FakeModes::without_keyboard_enhancement(Rc::clone(&effects));
    let mut session = Session::start_with(modes).unwrap();

    session.restore().unwrap();

    assert_eq!(
        effects.borrow().as_slice(),
        [
            INIT,
            ENABLE_PASTE,
            ENABLE_MOUSE,
            DISABLE_MOUSE,
            DISABLE_PASTE,
            RESTORE,
        ]
    );
}

#[test]
fn every_setup_failure_conservatively_unwinds_attempted_acquisitions() {
    let cases: &[(&str, &[&str])] = &[
        (INIT, &[INIT, RESTORE]),
        (
            ENABLE_KEYBOARD,
            &[INIT, ENABLE_KEYBOARD, DISABLE_KEYBOARD, RESTORE],
        ),
        (
            ENABLE_PASTE,
            &[
                INIT,
                ENABLE_KEYBOARD,
                ENABLE_PASTE,
                DISABLE_PASTE,
                DISABLE_KEYBOARD,
                RESTORE,
            ],
        ),
        (
            ENABLE_MOUSE,
            &[
                INIT,
                ENABLE_KEYBOARD,
                ENABLE_PASTE,
                ENABLE_MOUSE,
                DISABLE_MOUSE,
                DISABLE_PASTE,
                DISABLE_KEYBOARD,
                RESTORE,
            ],
        ),
    ];

    for &(failure, expected) in cases {
        let effects = Rc::new(RefCell::new(Vec::new()));
        let modes = FakeModes::failing(Rc::clone(&effects), failure);

        assert_eq!(
            error_message(Session::start_with(modes)),
            format!("{failure} failed")
        );
        assert_eq!(
            effects.borrow().as_slice(),
            expected,
            "failure at {failure}"
        );
    }
}

#[test]
fn setup_error_wins_and_drop_retries_failed_unwind_actions() {
    let effects = Rc::new(RefCell::new(Vec::new()));
    let mut modes =
        FakeModes::failing_once(Rc::clone(&effects), [ENABLE_MOUSE, DISABLE_PASTE, RESTORE]);
    modes.failures.insert(ENABLE_MOUSE);

    assert_eq!(
        error_message(Session::start_with(modes)),
        "enable_mouse failed"
    );
    assert_eq!(
        effects.borrow().as_slice(),
        [
            INIT,
            ENABLE_KEYBOARD,
            ENABLE_PASTE,
            ENABLE_MOUSE,
            DISABLE_MOUSE,
            DISABLE_PASTE,
            DISABLE_KEYBOARD,
            RESTORE,
            DISABLE_PASTE,
            RESTORE,
        ]
    );
}

#[test]
fn each_cleanup_failure_is_returned_after_every_inverse_is_attempted() {
    for failure in [DISABLE_MOUSE, DISABLE_PASTE, DISABLE_KEYBOARD, RESTORE] {
        let effects = Rc::new(RefCell::new(Vec::new()));
        let modes = FakeModes::failing(Rc::clone(&effects), failure);
        let mut session = Session::start_with(modes).unwrap();

        assert_eq!(
            error_message(session.restore()),
            format!("{failure} failed")
        );
        assert_eq!(
            &effects.borrow()[4..],
            [DISABLE_MOUSE, DISABLE_PASTE, DISABLE_KEYBOARD, RESTORE],
            "failure at {failure}"
        );
    }
}

#[test]
fn restore_attempts_every_inverse_and_returns_the_first_error() {
    let effects = Rc::new(RefCell::new(Vec::new()));
    let modes = FakeModes::failing_many(
        Rc::clone(&effects),
        [DISABLE_MOUSE, DISABLE_PASTE, DISABLE_KEYBOARD, RESTORE],
    );
    let mut session = Session::start_with(modes).unwrap();

    assert_eq!(error_message(session.restore()), "disable_mouse failed");
    assert!(effects.borrow().ends_with(&[
        DISABLE_MOUSE,
        DISABLE_PASTE,
        DISABLE_KEYBOARD,
        RESTORE
    ]));
}

#[test]
fn restore_retries_only_failed_cleanup_then_becomes_idempotent() {
    let effects = Rc::new(RefCell::new(Vec::new()));
    let modes = FakeModes::failing_once(
        Rc::clone(&effects),
        [DISABLE_MOUSE, DISABLE_KEYBOARD, RESTORE],
    );
    let mut session = Session::start_with(modes).unwrap();

    assert_eq!(error_message(session.restore()), "disable_mouse failed");
    session.restore().unwrap();
    session.restore().unwrap();
    drop(session);

    assert_eq!(
        effects.borrow().as_slice(),
        [
            INIT,
            ENABLE_KEYBOARD,
            ENABLE_PASTE,
            ENABLE_MOUSE,
            DISABLE_MOUSE,
            DISABLE_PASTE,
            DISABLE_KEYBOARD,
            RESTORE,
            DISABLE_MOUSE,
            DISABLE_KEYBOARD,
            RESTORE,
        ]
    );
}

#[test]
fn drop_attempts_best_effort_cleanup_without_panicking() {
    let effects = Rc::new(RefCell::new(Vec::new()));
    let modes = FakeModes::failing_many(
        Rc::clone(&effects),
        [DISABLE_MOUSE, DISABLE_PASTE, DISABLE_KEYBOARD, RESTORE],
    );

    let session = Session::start_with(modes).unwrap();
    drop(session);
    assert_eq!(
        &effects.borrow()[4..],
        [DISABLE_MOUSE, DISABLE_PASTE, DISABLE_KEYBOARD, RESTORE]
    );
}

#[test]
fn panic_cleanup_attempts_paste_after_mouse_failure() {
    let effects = RefCell::new(Vec::new());

    attempt_extra_mode_panic_cleanup(
        || {
            effects.borrow_mut().push(DISABLE_MOUSE);
            Err("mouse failed".to_owned())
        },
        || {
            effects.borrow_mut().push(DISABLE_PASTE);
            Ok(())
        },
        true,
        || {
            effects.borrow_mut().push(DISABLE_KEYBOARD);
            Ok(())
        },
    );

    assert_eq!(
        effects.borrow().as_slice(),
        [DISABLE_MOUSE, DISABLE_PASTE, DISABLE_KEYBOARD]
    );
}

#[test]
fn panic_cleanup_leaves_unowned_keyboard_enhancement_untouched() {
    let effects = RefCell::new(Vec::new());

    attempt_extra_mode_panic_cleanup(
        || {
            effects.borrow_mut().push(DISABLE_MOUSE);
            Ok::<(), String>(())
        },
        || {
            effects.borrow_mut().push(DISABLE_PASTE);
            Ok::<(), String>(())
        },
        false,
        || {
            effects.borrow_mut().push(DISABLE_KEYBOARD);
            Ok(())
        },
    );

    assert_eq!(effects.borrow().as_slice(), [DISABLE_MOUSE, DISABLE_PASTE]);
}

#[test]
fn a_panic_leaves_the_modes_in_order() {
    assert_eq!(
        panic_cleanup_operations(true),
        vec![ModeOp::DisableMouse, ModeOp::DisablePaste, ModeOp::DisableKeyboard]
    );
    assert_eq!(
        panic_cleanup_operations(false),
        vec![ModeOp::DisableMouse, ModeOp::DisablePaste]
    );
}
