//! Everything the screen shows besides the chat itself.

use vstd::prelude::*;

use super::editor::{EditorState, PromptEditor};
use super::session_browser::{BrowserView, SessionBrowserState};
use super::widgets::{sanitize_line, sanitized_line, MenuState, MenuView, TranscriptScroll};

verus! {

/// A popup over the screen.
#[derive(Clone, Copy, Debug, PartialEq, Eq, Structural)]
pub enum PopupKind {
    Help,
}

/// When the sidebar is shown.
#[derive(Clone, Copy, Debug, PartialEq, Eq, Structural)]
pub enum SidebarPreference {
    /// Wherever the screen is wide enough.
    Auto,
    Hide,
}

/// The width that a screen must exceed for the sidebar to be shown by itself.
pub const SIDEBAR_AUTO_WIDTH: u16 = 120;

/// The state of the screen.
pub struct UiState {
    editor: PromptEditor,
    scroll: TranscriptScroll,
    menu: MenuState,
    session_browser: SessionBrowserState,
    popup: Option<PopupKind>,
    sidebar_preference: SidebarPreference,
    sidebar_open: bool,
    frame_width: u16,
    notices: Vec<String>,
    local_error: bool,
    welcome_dismissed: bool,
    needs_redraw: bool,
}

/// [`UiState`] as contracts see it.
pub ghost struct UiView {
    pub editor: EditorState,
    pub scroll: TranscriptScroll,
    pub menu: MenuView,
    pub browser: BrowserView,
    pub popup: Option<PopupKind>,
    pub sidebar_preference: SidebarPreference,
    pub sidebar_open: bool,
    pub frame_width: u16,
    pub notices: Seq<Seq<char>>,
    pub local_error: bool,
    pub welcome_dismissed: bool,
    pub needs_redraw: bool,
}

impl UiView {
    /// The screen before anything happened.
    pub open spec fn initial() -> UiView {
        UiView {
            editor: EditorState::empty(),
            scroll: TranscriptScroll::initial(),
            menu: MenuView::closed_menu(),
            browser: BrowserView::initial(),
            popup: None,
            sidebar_preference: SidebarPreference::Auto,
            sidebar_open: false,
            frame_width: 0,
            notices: Seq::empty(),
            local_error: false,
            welcome_dismissed: false,
            needs_redraw: true,
        }
    }

    /// The browser selects a session row or none, and the transcript is not scrolled past its end.
    pub open spec fn wf(self) -> bool {
        self.browser.wf() && self.scroll.wf()
    }

    pub open spec fn redrawn(self) -> UiView {
        UiView { needs_redraw: true, ..self }
    }

    pub open spec fn with_popup(self, popup: Option<PopupKind>) -> UiView {
        UiView {
            menu: if popup is Some {
                MenuView::closed_menu()
            } else {
                self.menu
            },
            popup,
            ..self
        }.redrawn()
    }

    /// Whether the sidebar is shown on a screen of some width.
    pub open spec fn sidebar_visible(self, width: u16) -> bool {
        self.sidebar_open || (self.sidebar_preference == SidebarPreference::Auto && width
            > SIDEBAR_AUTO_WIDTH)
    }

    pub open spec fn with_sidebar_toggled(self) -> UiView {
        let visible = self.sidebar_visible(self.frame_width);
        UiView {
            sidebar_preference: if visible {
                SidebarPreference::Hide
            } else {
                SidebarPreference::Auto
            },
            sidebar_open: !visible,
            ..self
        }.redrawn()
    }

    pub open spec fn with_notice(self, notice: Seq<char>) -> UiView {
        UiView { notices: self.notices.push(sanitized_line(notice)), ..self }.redrawn()
    }

    pub open spec fn with_error(self, notice: Seq<char>) -> UiView {
        UiView { local_error: true, ..self }.with_notice(notice)
    }

    pub open spec fn without_error(self) -> UiView {
        UiView { local_error: false, ..self }.redrawn()
    }

    /// What stays when the shown session was replaced.
    pub open spec fn authoritative(self) -> UiView {
        UiView {
            notices: Seq::empty(),
            local_error: false,
            menu: MenuView::closed_menu(),
            popup: None,
            welcome_dismissed: false,
            ..self
        }.redrawn()
    }

    /// What stays when another chat is shown.
    pub open spec fn for_another_chat(self) -> UiView {
        UiView {
            editor: self.editor.with_value(Seq::empty(), 0),
            scroll: TranscriptScroll::initial(),
            browser: self.browser.closed_browser(),
            ..self
        }.authoritative()
    }
}

/// Toggling the sidebar shows it where it was hidden and hides it where it was shown.
pub proof fn lemma_toggling_changes_the_sidebar(ui: UiView)
    ensures
        ui.with_sidebar_toggled().sidebar_visible(ui.frame_width) != ui.sidebar_visible(
            ui.frame_width,
        ),
{
}

impl UiState {
    /// The state of the screen.
    pub closed spec fn state(&self) -> UiView {
        UiView {
            editor: self.editor.state(),
            scroll: self.scroll,
            menu: self.menu.state(),
            browser: self.session_browser.state(),
            popup: self.popup,
            sidebar_preference: self.sidebar_preference,
            sidebar_open: self.sidebar_open,
            frame_width: self.frame_width,
            notices: self.notices.deep_view(),
            local_error: self.local_error,
            welcome_dismissed: self.welcome_dismissed,
            needs_redraw: self.needs_redraw,
        }
    }

    /// A screen before anything happened.
    pub fn new() -> (ui: Self)
        ensures
            ui.state() == UiView::initial(),
            ui.state().wf(),
    {
        let ui = UiState {
            editor: PromptEditor::new(),
            scroll: TranscriptScroll::default(),
            menu: MenuState::default(),
            session_browser: SessionBrowserState::default(),
            popup: None,
            sidebar_preference: SidebarPreference::Auto,
            sidebar_open: false,
            frame_width: 0,
            notices: Vec::new(),
            local_error: false,
            welcome_dismissed: false,
            needs_redraw: true,
        };
        assert(ui.notices.deep_view() =~= Seq::empty());
        ui
    }

    /// The prompt editor.
    pub fn editor(&self) -> (editor: &PromptEditor)
        ensures
            editor.state() == self.state().editor,
    {
        &self.editor
    }

    /// The prompt editor, to change.
    pub fn editor_mut(&mut self) -> (editor: &mut PromptEditor)
        ensures
            editor.state() == old(self).state().editor,
            final(self).state() == (UiView {
                editor: final(editor).state(),
                ..old(self).state()
            }),
    {
        &mut self.editor
    }

    /// The scroll position.
    pub fn scroll(&self) -> (scroll: &TranscriptScroll)
        ensures
            *scroll == self.state().scroll,
    {
        &self.scroll
    }

    /// The scroll position, to change.
    pub fn scroll_mut(&mut self) -> (scroll: &mut TranscriptScroll)
        ensures
            *scroll == old(self).state().scroll,
            final(self).state() == (UiView { scroll: *final(scroll), ..old(self).state() }),
    {
        &mut self.scroll
    }

    /// The menu.
    pub fn menu(&self) -> (menu: &MenuState)
        ensures
            menu.state() == self.state().menu,
    {
        &self.menu
    }

    /// The menu, to change.
    pub fn menu_mut(&mut self) -> (menu: &mut MenuState)
        ensures
            menu.state() == old(self).state().menu,
            final(self).state() == (UiView { menu: final(menu).state(), ..old(self).state() }),
    {
        &mut self.menu
    }

    /// The session browser.
    pub fn session_browser(&self) -> (browser: &SessionBrowserState)
        ensures
            browser.state() == self.state().browser,
    {
        &self.session_browser
    }

    /// The session browser, to change.
    pub fn session_browser_mut(&mut self) -> (browser: &mut SessionBrowserState)
        ensures
            browser.state() == old(self).state().browser,
            final(self).state() == (UiView {
                browser: final(browser).state(),
                ..old(self).state()
            }),
    {
        &mut self.session_browser
    }

    /// Whether the help is open.
    pub fn help_open(&self) -> (open: bool)
        ensures
            open == (self.state().popup is Some),
    {
        self.popup.is_some()
    }

    /// Opens or closes the help.
    pub fn set_help_open(&mut self, open: bool)
        ensures
            final(self).state() == old(self).state().with_popup(
                if open {
                    Some(PopupKind::Help)
                } else {
                    None
                },
            ),
    {
        self.set_popup(if open { Some(PopupKind::Help) } else { None });
    }

    /// The popup.
    pub fn popup(&self) -> (popup: Option<PopupKind>)
        ensures
            popup == self.state().popup,
    {
        self.popup
    }

    /// Opens or closes a popup; an opened one closes the menu.
    pub fn set_popup(&mut self, popup: Option<PopupKind>)
        ensures
            final(self).state() == old(self).state().with_popup(popup),
    {
        if popup.is_some() {
            self.menu.clear();
        }
        self.popup = popup;
        self.request_redraw();
    }

    /// Records the width of the screen.
    pub fn record_frame_width(&mut self, width: u16)
        ensures
            final(self).state() == (UiView { frame_width: width, ..old(self).state() }),
    {
        self.frame_width = width;
    }

    /// Whether the sidebar is shown on a screen of some width.
    pub fn sidebar_visible(&self, width: u16) -> (visible: bool)
        ensures
            visible == self.state().sidebar_visible(width),
    {
        self.sidebar_open || (self.sidebar_preference == SidebarPreference::Auto && width
            > SIDEBAR_AUTO_WIDTH)
    }

    /// Shows or hides the sidebar.
    pub fn toggle_sidebar(&mut self)
        ensures
            final(self).state() == old(self).state().with_sidebar_toggled(),
    {
        let visible = self.sidebar_visible(self.frame_width);
        self.sidebar_preference = if visible {
            SidebarPreference::Hide
        } else {
            SidebarPreference::Auto
        };
        self.sidebar_open = !visible;
        self.request_redraw();
    }

    /// The notices, oldest first.
    pub fn notices(&self) -> (notices: &Vec<String>)
        ensures
            notices.deep_view() == self.state().notices,
    {
        &self.notices
    }

    /// Whether the last local action failed.
    pub fn local_error(&self) -> (error: bool)
        ensures
            error == self.state().local_error,
    {
        self.local_error
    }

    /// Whether the welcome was dismissed.
    pub fn welcome_dismissed(&self) -> (dismissed: bool)
        ensures
            dismissed == self.state().welcome_dismissed,
    {
        self.welcome_dismissed
    }

    /// Dismisses the welcome.
    pub fn dismiss_welcome(&mut self)
        ensures
            final(self).state() == (UiView {
                welcome_dismissed: true,
                ..old(self).state()
            }).redrawn(),
    {
        self.welcome_dismissed = true;
        self.request_redraw();
    }

    /// Shows a notice.
    pub fn push_notice(&mut self, notice: &str)
        ensures
            final(self).state() == old(self).state().with_notice(notice@),
    {
        let line = sanitize_line(notice);
        self.notices.push(line);
        assert(self.notices.deep_view() =~= old(self).notices.deep_view().push(line@));
        self.request_redraw();
    }

    /// Shows an error.
    pub fn push_error(&mut self, notice: &str)
        ensures
            final(self).state() == old(self).state().with_error(notice@),
    {
        self.local_error = true;
        self.push_notice(notice);
    }

    /// Forgets that the last local action failed.
    pub fn clear_local_error(&mut self)
        ensures
            final(self).state() == old(self).state().without_error(),
    {
        self.local_error = false;
        self.request_redraw();
    }

    /// Keeps only what a replaced session leaves valid.
    pub fn authoritative_reset(&mut self)
        ensures
            final(self).state() == old(self).state().authoritative(),
    {
        self.notices = Vec::new();
        assert(self.notices.deep_view() =~= Seq::empty());
        self.local_error = false;
        self.menu.clear();
        self.popup = None;
        self.welcome_dismissed = false;
        self.request_redraw();
    }

    /// Keeps only what another chat leaves valid.
    pub fn chat_transition_reset(&mut self)
        requires
            old(self).state().wf(),
        ensures
            final(self).state() == old(self).state().for_another_chat(),
            final(self).state().wf(),
    {
        self.editor.clear();
        self.scroll = TranscriptScroll::default();
        self.session_browser.close();
        self.authoritative_reset();
    }

    /// Asks for the screen to be drawn again.
    pub fn request_redraw(&mut self)
        ensures
            final(self).state() == old(self).state().redrawn(),
    {
        self.needs_redraw = true;
    }

    /// Whether the screen has to be drawn again since the last call.
    pub fn take_redraw(&mut self) -> (redraw: bool)
        ensures
            redraw == old(self).state().needs_redraw,
            final(self).state() == (UiView { needs_redraw: false, ..old(self).state() }),
    {
        let redraw = self.needs_redraw;
        self.needs_redraw = false;
        redraw
    }
}

/// The sidebar is there on more than 120 columns unless it was hidden, and on fewer only where it
/// was asked for. Toggling it swaps the two and touches nothing else.
pub proof fn lemma_wide_screens_show_the_sidebar()
    ensures
        forall|ui: UiState| #[trigger]
            call_ensures(UiState::new, (), ui) ==> forall|width: u16|
                ui.state().sidebar_visible(width) <==> width > 120,
        forall|ui: &UiState, width: u16, visible: bool| #[trigger]
            call_ensures(UiState::sidebar_visible, (ui, width), visible) ==> {
                &&& ui.state().sidebar_open ==> visible
                &&& !ui.state().sidebar_open && width <= 120 ==> !visible
                &&& !ui.state().sidebar_open && ui.state().sidebar_preference
                    == SidebarPreference::Hide ==> !visible
                &&& ui.state().sidebar_preference == SidebarPreference::Auto && width > 120
                    ==> visible
            },
        forall|ui: &mut UiState, done: ()| #[trigger]
            call_ensures(UiState::toggle_sidebar, (ui,), done) ==> {
                let before = ui.state();
                let after = final(ui).state();
                &&& before.sidebar_open || before.sidebar_preference == SidebarPreference::Auto
                    && before.frame_width > 120 ==> forall|width: u16|
                    !after.sidebar_visible(width)
                &&& !before.sidebar_open && (before.sidebar_preference == SidebarPreference::Hide
                    || before.frame_width <= 120) ==> forall|width: u16|
                    after.sidebar_visible(width)
                &&& after.needs_redraw
                &&& after.editor == before.editor && after.scroll == before.scroll && after.menu
                    == before.menu && after.browser == before.browser && after.popup
                    == before.popup && after.notices == before.notices && after.local_error
                    == before.local_error && after.welcome_dismissed == before.welcome_dismissed
                    && after.frame_width == before.frame_width
            },
        forall|ui: &mut UiState, width: u16, done: ()| #[trigger]
            call_ensures(UiState::record_frame_width, (ui, width), done) ==> final(ui).state().frame_width == width && final(ui).state().sidebar_open
                == ui.state().sidebar_open && final(ui).state().sidebar_preference
                == ui.state().sidebar_preference,
{
}

/// Notices are kept in the order in which they came, as lines; an error is a notice that also
/// marks the screen until it is cleared, and clearing it takes no notice away.
pub proof fn lemma_notices_are_kept_in_order()
    ensures
        forall|ui: &mut UiState, notice: &str, done: ()| #[trigger]
            call_ensures(UiState::push_notice, (ui, notice), done) ==> {
                &&& final(ui).state().notices == ui.state().notices.push(sanitized_line(notice@))
                &&& final(ui).state().local_error == ui.state().local_error
                &&& final(ui).state().needs_redraw
                &&& final(ui).state().editor == ui.state().editor
            },
        forall|ui: &mut UiState, notice: &str, done: ()| #[trigger]
            call_ensures(UiState::push_error, (ui, notice), done) ==> {
                &&& final(ui).state().notices == ui.state().notices.push(sanitized_line(notice@))
                &&& final(ui).state().local_error
                &&& final(ui).state().needs_redraw
                &&& final(ui).state().editor == ui.state().editor
            },
        forall|ui: &mut UiState, done: ()| #[trigger]
            call_ensures(UiState::clear_local_error, (ui,), done) ==> {
                &&& final(ui).state().notices == ui.state().notices
                &&& !final(ui).state().local_error
                &&& final(ui).state().editor == ui.state().editor
            },
{
}

/// The help covers the menu, and closing it brings nothing else back.
pub proof fn lemma_the_help_closes_the_menu()
    ensures
        forall|ui: &mut UiState, open: bool, done: ()| #[trigger]
            call_ensures(UiState::set_help_open, (ui, open), done) ==> {
                &&& final(ui).state().popup is Some <==> open
                &&& open ==> final(ui).state().menu.kind is None && final(ui).state().menu.items.len() == 0
                &&& !open ==> final(ui).state().menu == ui.state().menu
                &&& final(ui).state().needs_redraw
                &&& final(ui).state().editor == ui.state().editor && final(ui).state().browser
                    == ui.state().browser && final(ui).state().notices == ui.state().notices
                    && final(ui).state().scroll == ui.state().scroll
            },
        forall|ui: &UiState, open: bool| #[trigger]
            call_ensures(UiState::help_open, (ui,), open) ==> (open <==> ui.state().popup is Some),
{
}

/// New authority over the chat drops what the screen said of the old state and keeps the prompt
/// and the place in the transcript; another chat begins with an empty prompt at its end, with the
/// browser closed.
pub proof fn lemma_resets_drop_what_is_stale()
    ensures
        forall|ui: &mut UiState, done: ()| #[trigger]
            call_ensures(UiState::authoritative_reset, (ui,), done) ==> {
                let before = ui.state();
                let after = final(ui).state();
                &&& after.notices.len() == 0 && !after.local_error && after.menu.kind is None
                    && after.popup is None && !after.welcome_dismissed && after.needs_redraw
                &&& after.editor == before.editor && after.scroll == before.scroll && after.browser
                    == before.browser
                &&& after.sidebar_open == before.sidebar_open && after.sidebar_preference
                    == before.sidebar_preference
            },
        forall|ui: &mut UiState, done: ()| #[trigger]
            call_ensures(UiState::chat_transition_reset, (ui,), done) ==> {
                let before = ui.state();
                let after = final(ui).state();
                &&& after.notices.len() == 0 && !after.local_error && after.menu.kind is None
                    && after.popup is None && !after.welcome_dismissed && after.needs_redraw
                &&& after.editor.value.len() == 0 && after.editor.cursor == 0
                &&& after.scroll.auto_follow && after.scroll.top == 0
                    && after.scroll.content_height == 0
                &&& !after.browser.open
                &&& after.sidebar_open == before.sidebar_open && after.sidebar_preference
                    == before.sidebar_preference && after.frame_width == before.frame_width
            },
        forall|ui: &mut UiState, redraw: bool| #[trigger]
            call_ensures(UiState::take_redraw, (ui,), redraw) ==> redraw == ui.state().needs_redraw
                && !final(ui).state().needs_redraw,
        forall|ui: &mut UiState, done: ()| #[trigger]
            call_ensures(UiState::dismiss_welcome, (ui,), done) ==> final(ui).state().welcome_dismissed && final(ui).state().notices == ui.state().notices && final(ui).state().editor == ui.state().editor,
{
}

} // verus!
