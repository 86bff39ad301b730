//! Terminal input events.

use vstd::prelude::*;

verus! {

/// A key.
#[derive(Clone, Copy, Debug, PartialEq, Eq, Structural)]
pub enum KeyCode {
    Char(char),
    Enter,
    Esc,
    Left,
    Right,
    Up,
    Down,
    Home,
    End,
    Backspace,
    Delete,
    Tab,
    BackTab,
    PageUp,
    PageDown,
    F(u8),
    /// A key that no part of the client handles.
    Other,
}

/// The modifier keys held with a key.
#[derive(Clone, Copy, Debug, PartialEq, Eq, Structural)]
pub struct KeyModifiers {
    pub shift: bool,
    pub control: bool,
    pub alt: bool,
    /// Super, hyper or meta.
    pub other: bool,
}

impl KeyModifiers {
    /// No modifier.
    pub open spec fn spec_none() -> KeyModifiers {
        KeyModifiers { shift: false, control: false, alt: false, other: false }
    }

    /// Shift alone.
    pub open spec fn spec_shift() -> KeyModifiers {
        KeyModifiers { shift: true, control: false, alt: false, other: false }
    }

    /// Control alone.
    pub open spec fn spec_control() -> KeyModifiers {
        KeyModifiers { shift: false, control: true, alt: false, other: false }
    }

    /// Creates the empty set of modifiers.
    pub fn none() -> (modifiers: KeyModifiers)
        ensures
            modifiers == KeyModifiers::spec_none(),
    {
        KeyModifiers { shift: false, control: false, alt: false, other: false }
    }

    /// Creates the shift modifier.
    pub fn shift() -> (modifiers: KeyModifiers)
        ensures
            modifiers == KeyModifiers::spec_shift(),
    {
        KeyModifiers { shift: true, control: false, alt: false, other: false }
    }

    /// Creates the control modifier.
    pub fn control() -> (modifiers: KeyModifiers)
        ensures
            modifiers == KeyModifiers::spec_control(),
    {
        KeyModifiers { shift: false, control: true, alt: false, other: false }
    }
}

/// What happened to a key.
#[derive(Clone, Copy, Debug, PartialEq, Eq, Structural)]
pub enum KeyEventKind {
    Press,
    Repeat,
    Release,
}

/// A key event.
#[derive(Clone, Copy, Debug, PartialEq, Eq, Structural)]
pub struct KeyEvent {
    pub code: KeyCode,
    pub modifiers: KeyModifiers,
    pub kind: KeyEventKind,
}

impl KeyEvent {
    /// A press of a key.
    pub fn new(code: KeyCode, modifiers: KeyModifiers) -> (event: KeyEvent)
        ensures
            event == (KeyEvent { code, modifiers, kind: KeyEventKind::Press }),
    {
        KeyEvent { code, modifiers, kind: KeyEventKind::Press }
    }
}

/// What happened to the mouse.
#[derive(Clone, Copy, Debug, PartialEq, Eq, Structural)]
pub enum MouseEventKind {
    Down,
    Up,
    Drag,
    Moved,
    ScrollDown,
    ScrollUp,
    ScrollLeft,
    ScrollRight,
}

/// A terminal event.
#[derive(Debug, PartialEq, Eq)]
pub enum Event {
    Key(KeyEvent),
    Mouse(MouseEventKind),
    Paste(String),
    Resize(u16, u16),
    FocusGained,
    FocusLost,
}

/// An [`Event`] as contracts see it.
pub ghost enum EventView {
    Key(KeyEvent),
    Mouse(MouseEventKind),
    Paste(Seq<char>),
    Resize(u16, u16),
    FocusGained,
    FocusLost,
}

impl DeepView for Event {
    type V = EventView;

    open spec fn deep_view(&self) -> EventView {
        match self {
            Event::Key(key) => EventView::Key(*key),
            Event::Mouse(kind) => EventView::Mouse(*kind),
            Event::Paste(text) => EventView::Paste(text@),
            Event::Resize(width, height) => EventView::Resize(*width, *height),
            Event::FocusGained => EventView::FocusGained,
            Event::FocusLost => EventView::FocusLost,
        }
    }
}

} // verus!
