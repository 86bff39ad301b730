//! The terminal: which events reach the client, and how its modes are entered and left.

use vstd::prelude::*;

use super::input::{Event, EventView, KeyCode, KeyEvent, KeyEventKind, MouseEventKind};

verus! {

/// The event that reaches the client: releases, focus changes and mouse events but the wheel do
/// not, and control-H is control-backspace.
pub open spec fn mapped_event(event: EventView) -> Option<EventView> {
    match event {
        EventView::Key(key) => if key.kind == KeyEventKind::Release {
            None
        } else if key.code == KeyCode::Char('h') && key.modifiers.control {
            Some(EventView::Key(KeyEvent { code: KeyCode::Backspace, ..key }))
        } else {
            Some(event)
        },
        EventView::Paste(_) => Some(event),
        EventView::Resize(_, _) => Some(event),
        EventView::Mouse(kind) => if kind == MouseEventKind::ScrollUp || kind
            == MouseEventKind::ScrollDown {
            Some(event)
        } else {
            None
        },
        EventView::FocusGained | EventView::FocusLost => None,
    }
}

/// Decides which event reaches the client.
pub fn map_event(event: Event) -> (mapped: Option<Event>)
    ensures
        match mapped {
            Some(mapped) => mapped_event(event.deep_view()) == Some(mapped.deep_view()),
            None => mapped_event(event.deep_view()) is None,
        },
{
    match event {
        Event::Key(key) => {
            if key.kind == KeyEventKind::Release {
                None
            } else if key.code == KeyCode::Char('h') && key.modifiers.control {
                Some(
                    Event::Key(
                        KeyEvent {
                            code: KeyCode::Backspace,
                            modifiers: key.modifiers,
                            kind: key.kind,
                        },
                    ),
                )
            } else {
                Some(Event::Key(key))
            }
        },
        Event::Mouse(kind) => {
            if kind == MouseEventKind::ScrollUp || kind == MouseEventKind::ScrollDown {
                Some(Event::Mouse(kind))
            } else {
                None
            }
        },
        Event::FocusGained | Event::FocusLost => None,
        event => Some(event),
    }
}

/// An operation on the modes of the terminal.
#[derive(Clone, Copy, Debug, PartialEq, Eq, Structural)]
pub enum ModeOp {
    Init,
    EnableKeyboard,
    EnablePaste,
    EnableMouse,
    DisableMouse,
    DisablePaste,
    DisableKeyboard,
    Restore,
}

/// The operation that undoes another one.
pub open spec fn inverse(operation: ModeOp) -> ModeOp {
    match operation {
        ModeOp::Init => ModeOp::Restore,
        ModeOp::EnableKeyboard => ModeOp::DisableKeyboard,
        ModeOp::EnablePaste => ModeOp::DisablePaste,
        ModeOp::EnableMouse => ModeOp::DisableMouse,
        operation => operation,
    }
}

/// How far the setup has come.
#[derive(Clone, Copy, Debug, PartialEq, Eq, Structural)]
pub enum SetupStage {
    Init,
    Keyboard,
    Paste,
    Mouse,
    Done,
}

/// The modes that were attempted and not yet undone. The caller performs the operations.
#[derive(Clone, Copy, Debug, PartialEq, Eq, Structural)]
pub struct TerminalSession {
    pub stage: SetupStage,
    pub ratatui_started: bool,
    pub keyboard_enhancement_enabled: bool,
    pub paste_enabled: bool,
    pub mouse_enabled: bool,
}

/// One operation, or none.
pub open spec fn only(present: bool, operation: ModeOp) -> Seq<ModeOp> {
    if present {
        seq![operation]
    } else {
        Seq::empty()
    }
}

impl TerminalSession {
    /// The operations that undo what is left, in their order.
    pub open spec fn cleanup(self) -> Seq<ModeOp> {
        only(self.mouse_enabled, ModeOp::DisableMouse) + only(
            self.paste_enabled,
            ModeOp::DisablePaste,
        ) + only(self.keyboard_enhancement_enabled, ModeOp::DisableKeyboard) + only(
            self.ratatui_started,
            ModeOp::Restore,
        )
    }

    /// The setup operations whose effects are not undone yet, in the order of their attempts.
    pub open spec fn attempted(self) -> Seq<ModeOp> {
        only(self.ratatui_started, ModeOp::Init) + only(
            self.keyboard_enhancement_enabled,
            ModeOp::EnableKeyboard,
        ) + only(self.paste_enabled, ModeOp::EnablePaste) + only(
            self.mouse_enabled,
            ModeOp::EnableMouse,
        )
    }

    /// Nothing is left to undo.
    pub open spec fn restored(self) -> bool {
        !self.mouse_enabled && !self.paste_enabled && !self.keyboard_enhancement_enabled
            && !self.ratatui_started
    }

    /// The next setup operation.
    pub open spec fn setup_operation(self) -> Option<ModeOp> {
        match self.stage {
            SetupStage::Init => Some(ModeOp::Init),
            SetupStage::Keyboard => Some(ModeOp::EnableKeyboard),
            SetupStage::Paste => Some(ModeOp::EnablePaste),
            SetupStage::Mouse => Some(ModeOp::EnableMouse),
            SetupStage::Done => None,
        }
    }

    /// The session once the next setup operation is attempted: it counts as left to undo before
    /// its result is known.
    pub open spec fn attempting(self) -> TerminalSession {
        match self.stage {
            SetupStage::Init => TerminalSession { ratatui_started: true, ..self },
            SetupStage::Keyboard => TerminalSession { keyboard_enhancement_enabled: true, ..self },
            SetupStage::Paste => TerminalSession { paste_enabled: true, ..self },
            SetupStage::Mouse => TerminalSession { mouse_enabled: true, ..self },
            SetupStage::Done => self,
        }
    }

    /// The session after the attempted operation succeeded; `supported` is false where the
    /// terminal has no enhanced keyboard.
    pub open spec fn advanced(self, supported: bool) -> TerminalSession {
        match self.stage {
            SetupStage::Init => TerminalSession { stage: SetupStage::Keyboard, ..self },
            SetupStage::Keyboard => TerminalSession {
                stage: SetupStage::Paste,
                keyboard_enhancement_enabled: supported,
                ..self
            },
            SetupStage::Paste => TerminalSession { stage: SetupStage::Mouse, ..self },
            SetupStage::Mouse => TerminalSession { stage: SetupStage::Done, ..self },
            SetupStage::Done => self,
        }
    }

    /// The session after some cleanup results, of which `mouse`, `paste`, `keyboard` and `ratatui`
    /// say which succeeded.
    pub open spec fn cleaned(
        self,
        mouse: bool,
        paste: bool,
        keyboard: bool,
        ratatui: bool,
    ) -> TerminalSession {
        TerminalSession {
            mouse_enabled: self.mouse_enabled && !mouse,
            paste_enabled: self.paste_enabled && !paste,
            keyboard_enhancement_enabled: self.keyboard_enhancement_enabled && !keyboard,
            ratatui_started: self.ratatui_started && !ratatui,
            ..self
        }
    }

    /// A session before its first operation.
    pub fn new() -> (session: Self)
        ensures
            session == (TerminalSession {
                stage: SetupStage::Init,
                ratatui_started: false,
                keyboard_enhancement_enabled: false,
                paste_enabled: false,
                mouse_enabled: false,
            }),
    {
        TerminalSession {
            stage: SetupStage::Init,
            ratatui_started: false,
            keyboard_enhancement_enabled: false,
            paste_enabled: false,
            mouse_enabled: false,
        }
    }

    /// The next setup operation to attempt, or `None` once the setup is done.
    pub fn attempt_setup(&mut self) -> (operation: Option<ModeOp>)
        ensures
            operation == old(self).setup_operation(),
            *final(self) == old(self).attempting(),
    {
        match self.stage {
            SetupStage::Init => {
                self.ratatui_started = true;
                Some(ModeOp::Init)
            },
            SetupStage::Keyboard => {
                self.keyboard_enhancement_enabled = true;
                Some(ModeOp::EnableKeyboard)
            },
            SetupStage::Paste => {
                self.paste_enabled = true;
                Some(ModeOp::EnablePaste)
            },
            SetupStage::Mouse => {
                self.mouse_enabled = true;
                Some(ModeOp::EnableMouse)
            },
            SetupStage::Done => None,
        }
    }

    /// Records that the attempted setup operation succeeded.
    pub fn setup_succeeded(&mut self, supported: bool)
        ensures
            *final(self) == old(self).advanced(supported),
    {
        match self.stage {
            SetupStage::Init => {
                self.stage = SetupStage::Keyboard;
            },
            SetupStage::Keyboard => {
                self.stage = SetupStage::Paste;
                self.keyboard_enhancement_enabled = supported;
            },
            SetupStage::Paste => {
                self.stage = SetupStage::Mouse;
            },
            SetupStage::Mouse => {
                self.stage = SetupStage::Done;
            },
            SetupStage::Done => {},
        }
    }

    /// The operations that undo what is left. Every one is attempted, whatever becomes of the
    /// others.
    pub fn cleanup_operations(&self) -> (operations: Vec<ModeOp>)
        ensures
            operations@ == self.cleanup(),
    {
        let mut operations: Vec<ModeOp> = Vec::new();
        if self.mouse_enabled {
            operations.push(ModeOp::DisableMouse);
        }
        if self.paste_enabled {
            operations.push(ModeOp::DisablePaste);
        }
        if self.keyboard_enhancement_enabled {
            operations.push(ModeOp::DisableKeyboard);
        }
        if self.ratatui_started {
            operations.push(ModeOp::Restore);
        }
        assert(operations@ =~= self.cleanup());
        operations
    }

    /// Records the result of one cleanup operation: only a success counts as undone, and the
    /// first error is kept.
    pub fn record_cleanup<E>(
        &mut self,
        operation: ModeOp,
        result: Result<(), E>,
        first_error: &mut Option<E>,
    )
        ensures
            *final(self) == old(self).cleaned(
                operation == ModeOp::DisableMouse && result is Ok,
                operation == ModeOp::DisablePaste && result is Ok,
                operation == ModeOp::DisableKeyboard && result is Ok,
                operation == ModeOp::Restore && result is Ok,
            ),
            *final(first_error) == match (*old(first_error), result) {
                (None, Err(error)) => Some(error),
                (kept, _) => kept,
            },
    {
        match result {
            Ok(()) => match operation {
                ModeOp::DisableMouse => {
                    self.mouse_enabled = false;
                },
                ModeOp::DisablePaste => {
                    self.paste_enabled = false;
                },
                ModeOp::DisableKeyboard => {
                    self.keyboard_enhancement_enabled = false;
                },
                ModeOp::Restore => {
                    self.ratatui_started = false;
                },
                _ => {},
            },
            Err(error) => {
                if first_error.is_none() {
                    *first_error = Some(error);
                }
            },
        }
    }

    /// Whether nothing is left to undo.
    pub fn is_restored(&self) -> (restored: bool)
        ensures
            restored == self.restored(),
    {
        !self.mouse_enabled && !self.paste_enabled && !self.keyboard_enhancement_enabled
            && !self.ratatui_started
    }
}

/// The cleanup undoes exactly what was attempted, last first.
pub proof fn lemma_cleanup_inverts_the_attempts(session: TerminalSession)
    ensures
        session.cleanup() == session.attempted().reverse().map_values(
            |operation: ModeOp| inverse(operation),
        ),
{
    assert(session.cleanup() =~= session.attempted().reverse().map_values(
        |operation: ModeOp| inverse(operation),
    ));
}

/// An attempted operation is undone later even where it failed.
pub proof fn lemma_failed_setup_is_undone(session: TerminalSession)
    requires
        session.setup_operation() is Some,
    ensures
        session.attempting().cleanup().contains(inverse(session.setup_operation()->0)),
{
    let cleanup = session.attempting().cleanup();
    let mouse = only(session.attempting().mouse_enabled, ModeOp::DisableMouse);
    let paste = only(session.attempting().paste_enabled, ModeOp::DisablePaste);
    let keyboard = only(
        session.attempting().keyboard_enhancement_enabled,
        ModeOp::DisableKeyboard,
    );
    match session.stage {
        SetupStage::Init => {
            assert(cleanup.last() == ModeOp::Restore);
            assert(cleanup[cleanup.len() - 1] == ModeOp::Restore);
        },
        SetupStage::Keyboard => {
            assert(cleanup[(mouse + paste).len() as int] == ModeOp::DisableKeyboard);
        },
        SetupStage::Paste => {
            assert(cleanup[mouse.len() as int] == ModeOp::DisablePaste);
        },
        SetupStage::Mouse => {
            assert(cleanup[0] == ModeOp::DisableMouse);
        },
        SetupStage::Done => {},
    }
}

/// After a cleanup in which everything succeeded nothing is left, and a further one does nothing.
pub proof fn lemma_successful_cleanup_leaves_nothing(session: TerminalSession)
    ensures
        session.cleaned(true, true, true, true).restored(),
        session.cleaned(true, true, true, true).cleanup() == Seq::<ModeOp>::empty(),
{
    assert(session.cleaned(true, true, true, true).cleanup() =~= Seq::<ModeOp>::empty());
}

/// What a panic hook attempts, in order: leaving the mouse mode, leaving the paste mode and, where
/// it was entered, leaving the keyboard mode.
pub fn panic_cleanup_operations(keyboard: bool) -> (ops: Vec<ModeOp>)
    ensures
        ops@ == if keyboard {
            seq![ModeOp::DisableMouse, ModeOp::DisablePaste, ModeOp::DisableKeyboard]
        } else {
            seq![ModeOp::DisableMouse, ModeOp::DisablePaste]
        },
{
    let mut ops: Vec<ModeOp> = vec![ModeOp::DisableMouse, ModeOp::DisablePaste];
    if keyboard {
        ops.push(ModeOp::DisableKeyboard);
    }
    ops
}

/// Leaves the extra modes after a panic: each is attempted whatever becomes of the others, and the
/// keyboard mode only where it was entered.
pub fn attempt_extra_mode_panic_cleanup<
    E,
    M: FnOnce() -> Result<(), E>,
    P: FnOnce() -> Result<(), E>,
    K: FnOnce() -> Result<(), E>,
>(
    disable_mouse: M,
    disable_paste: P,
    keyboard_enhancement_enabled: bool,
    disable_keyboard: K,
)
    requires
        disable_mouse.requires(()),
        disable_paste.requires(()),
        keyboard_enhancement_enabled ==> disable_keyboard.requires(()),
    ensures
        exists|result: Result<(), E>| disable_mouse.ensures((), result),
        exists|result: Result<(), E>| disable_paste.ensures((), result),
        keyboard_enhancement_enabled ==> exists|result: Result<(), E>|
            disable_keyboard.ensures((), result),
{
    let _ = disable_mouse();
    let _ = disable_paste();
    if keyboard_enhancement_enabled {
        let _ = disable_keyboard();
    }
}

/// What the client takes of the terminal's events: keys but their release, pastes, changes of size
/// and the wheel. Only control and `h` is read as another key, the backspace that some terminals
/// send so.
pub proof fn lemma_terminal_events_are_taken_as_they_are()
    ensures
        forall|event: Event, mapped: Option<Event>| #[trigger]
            call_ensures(map_event, (event,), mapped) ==> {
                let seen = event.deep_view();
                let renamed = seen is Key && seen->Key_0.code == KeyCode::Char('h')
                    && seen->Key_0.modifiers.control;
                &&& mapped is None <==> seen is Key && seen->Key_0.kind == KeyEventKind::Release
                    || seen is FocusGained || seen is FocusLost || seen is Mouse
                    && seen->Mouse_0 != MouseEventKind::ScrollUp && seen->Mouse_0
                    != MouseEventKind::ScrollDown
                &&& mapped is Some && !renamed ==> mapped->0.deep_view() == seen
                &&& mapped is Some && renamed ==> mapped->0.deep_view() is Key
                    && mapped->0.deep_view()->Key_0.code == KeyCode::Backspace
                    && mapped->0.deep_view()->Key_0.modifiers == seen->Key_0.modifiers
                    && mapped->0.deep_view()->Key_0.kind == seen->Key_0.kind
            },
{
}

/// The terminal is set up in one order: the screen, the keyboard, pastes and the mouse, each noted
/// before it is tried; a keyboard without the enhancement is noted as such.
pub proof fn lemma_the_terminal_is_set_up_in_order()
    ensures
        forall|session: &mut TerminalSession, operation: Option<ModeOp>| #[trigger]
            call_ensures(TerminalSession::attempt_setup, (session,), operation) ==> {
                let after = *final(session);
                &&& after.stage == session.stage
                &&& session.stage is Init ==> operation == Some(ModeOp::Init)
                    && after.ratatui_started
                &&& session.stage is Keyboard ==> operation == Some(ModeOp::EnableKeyboard)
                    && after.keyboard_enhancement_enabled
                &&& session.stage is Paste ==> operation == Some(ModeOp::EnablePaste)
                    && after.paste_enabled
                &&& session.stage is Mouse ==> operation == Some(ModeOp::EnableMouse)
                    && after.mouse_enabled
                &&& session.stage is Done ==> operation is None && after == *session
                &&& !(session.stage is Init) ==> after.ratatui_started == session.ratatui_started
                &&& !(session.stage is Keyboard) ==> after.keyboard_enhancement_enabled
                    == session.keyboard_enhancement_enabled
                &&& !(session.stage is Paste) ==> after.paste_enabled == session.paste_enabled
                &&& !(session.stage is Mouse) ==> after.mouse_enabled == session.mouse_enabled
            },
        forall|session: &mut TerminalSession, supported: bool, done: ()| #[trigger]
            call_ensures(TerminalSession::setup_succeeded, (session, supported), done) ==> {
                let after = *final(session);
                &&& session.stage is Init ==> after.stage is Keyboard
                &&& session.stage is Keyboard ==> after.stage is Paste
                    && after.keyboard_enhancement_enabled == supported
                &&& session.stage is Paste ==> after.stage is Mouse
                &&& session.stage is Mouse || session.stage is Done ==> after.stage is Done
                &&& after.ratatui_started == session.ratatui_started && after.paste_enabled
                    == session.paste_enabled && after.mouse_enabled == session.mouse_enabled
            },
{
}

/// The terminal is given back in the opposite order, whatever of it was tried and nothing else. A
/// step that failed is still to be done, and the first failure is the one that is kept.
pub proof fn lemma_the_terminal_is_given_back()
    ensures
        forall|session: &TerminalSession, operations: Vec<ModeOp>| #[trigger]
            call_ensures(TerminalSession::cleanup_operations, (session,), operations) ==> {
                &&& session.mouse_enabled <==> operations@.contains(ModeOp::DisableMouse)
                &&& session.paste_enabled <==> operations@.contains(ModeOp::DisablePaste)
                &&& session.keyboard_enhancement_enabled <==> operations@.contains(
                    ModeOp::DisableKeyboard,
                )
                &&& session.ratatui_started <==> operations@.contains(ModeOp::Restore)
                &&& session.ratatui_started ==> operations@.last() == ModeOp::Restore
                &&& session.mouse_enabled ==> operations@[0] == ModeOp::DisableMouse
            },
        forall|
            session: &mut TerminalSession,
            operation: ModeOp,
            result: Result<(), u64>,
            first: &mut Option<u64>,
            done: (),
        | #[trigger]
            call_ensures(
                TerminalSession::record_cleanup::<u64>,
                (session, operation, result, first),
                done,
            ) ==> {
                let after = *final(session);
                &&& result is Err ==> after == *session
                &&& result is Ok ==> {
                    &&& operation == ModeOp::DisableMouse ==> !after.mouse_enabled
                    &&& operation == ModeOp::DisablePaste ==> !after.paste_enabled
                    &&& operation == ModeOp::DisableKeyboard ==> !after.keyboard_enhancement_enabled
                    &&& operation == ModeOp::Restore ==> !after.ratatui_started
                    &&& operation != ModeOp::DisableMouse ==> after.mouse_enabled
                        == session.mouse_enabled
                    &&& operation != ModeOp::DisablePaste ==> after.paste_enabled
                        == session.paste_enabled
                    &&& operation != ModeOp::DisableKeyboard
                        ==> after.keyboard_enhancement_enabled
                        == session.keyboard_enhancement_enabled
                    &&& operation != ModeOp::Restore ==> after.ratatui_started
                        == session.ratatui_started
                }
                &&& *first is Some ==> *final(first) == *first
                &&& *first is None && result is Err ==> *final(first) == Some(result->Err_0)
                &&& *first is None && result is Ok ==> *final(first) is None
            },
        forall|session: &TerminalSession, restored: bool| #[trigger]
            call_ensures(TerminalSession::is_restored, (session,), restored) ==> (restored
                <==> !session.mouse_enabled && !session.paste_enabled
                && !session.keyboard_enhancement_enabled && !session.ratatui_started),
{
    assert forall|session: &TerminalSession, operations: Vec<ModeOp>| #[trigger]
        call_ensures(TerminalSession::cleanup_operations, (session,), operations) implies {
        &&& session.mouse_enabled <==> operations@.contains(ModeOp::DisableMouse)
        &&& session.paste_enabled <==> operations@.contains(ModeOp::DisablePaste)
        &&& session.keyboard_enhancement_enabled <==> operations@.contains(ModeOp::DisableKeyboard)
        &&& session.ratatui_started <==> operations@.contains(ModeOp::Restore)
        &&& session.ratatui_started ==> operations@.last() == ModeOp::Restore
        &&& session.mouse_enabled ==> operations@[0] == ModeOp::DisableMouse
    } by {
        let mouse = only(session.mouse_enabled, ModeOp::DisableMouse);
        let paste = only(session.paste_enabled, ModeOp::DisablePaste);
        let keyboard = only(session.keyboard_enhancement_enabled, ModeOp::DisableKeyboard);
        let screen = only(session.ratatui_started, ModeOp::Restore);
        let all = mouse + paste + keyboard + screen;
        assert(operations@ == all);
        if session.mouse_enabled {
            assert(all[0] == ModeOp::DisableMouse);
        }
        if session.paste_enabled {
            assert(all[mouse.len() as int] == ModeOp::DisablePaste);
        }
        if session.keyboard_enhancement_enabled {
            assert(all[mouse.len() as int + paste.len()] == ModeOp::DisableKeyboard);
        }
        if session.ratatui_started {
            assert(all[mouse.len() as int + paste.len() + keyboard.len()] == ModeOp::Restore);
        }
    }
}

} // verus!
