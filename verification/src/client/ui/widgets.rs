//! The scroll position of the transcript and the menu above the prompt.

use vstd::prelude::*;

use crate::text::{chars_of, is_control, is_control_char};

verus! {

/// A character that [`sanitized_line`] turns into a space.
pub open spec fn is_separator(character: char) -> bool {
    character == '\n' || character == '\r' || character == '\t'
}

/// Whether a text ends, but for control characters, in a separator.
pub open spec fn ends_in_separator(text: Seq<char>) -> bool
    decreases text.len(),
{
    if text.len() == 0 {
        false
    } else if is_separator(text.last()) {
        true
    } else if is_control(text.last()) {
        ends_in_separator(text.drop_last())
    } else {
        false
    }
}

/// A text as one line: each run of line ends and tabs is a space, other control characters are
/// left out.
pub open spec fn sanitized_line(text: Seq<char>) -> Seq<char>
    decreases text.len(),
{
    if text.len() == 0 {
        Seq::empty()
    } else {
        let before = sanitized_line(text.drop_last());
        if is_separator(text.last()) {
            if ends_in_separator(text.drop_last()) {
                before
            } else {
                before.push(' ')
            }
        } else if is_control(text.last()) {
            before
        } else {
            before.push(text.last())
        }
    }
}

/// A line holds no control character at all.
pub proof fn lemma_sanitized_line_has_no_control(text: Seq<char>)
    ensures
        forall|i: int|
            0 <= i < sanitized_line(text).len() ==> !is_control(#[trigger] sanitized_line(text)[i]),
    decreases text.len(),
{
    if text.len() > 0 {
        let before = sanitized_line(text.drop_last());
        lemma_sanitized_line_has_no_control(text.drop_last());
        assert(!is_control(' '));
        assert forall|i: int| 0 <= i < sanitized_line(text).len() implies !is_control(
            #[trigger] sanitized_line(text)[i],
        ) by {
            if i < before.len() {
                assert(sanitized_line(text)[i] == before[i]);
            }
        }
    }
}

/// Sanitizing a line again changes nothing.
pub proof fn lemma_sanitizing_line_is_idempotent(text: Seq<char>)
    ensures
        sanitized_line(sanitized_line(text)) == sanitized_line(text),
{
    lemma_sanitized_line_has_no_control(text);
    lemma_line_without_control_is_kept(sanitized_line(text));
}

proof fn lemma_line_without_control_is_kept(text: Seq<char>)
    requires
        forall|i: int| 0 <= i < text.len() ==> !is_control(#[trigger] text[i]),
    ensures
        sanitized_line(text) == text,
    decreases text.len(),
{
    if text.len() > 0 {
        let before = text.drop_last();
        assert forall|i: int| 0 <= i < before.len() implies !is_control(#[trigger] before[i]) by {
            assert(before[i] == text[i]);
        }
        lemma_line_without_control_is_kept(before);
        assert(!is_control(text[text.len() - 1]));
        assert(before.push(text.last()) =~= text);
    } else {
        assert(text =~= Seq::empty());
    }
}

/// Turns an untrusted text into one line.
pub fn sanitize_line(text: &str) -> (line: String)
    ensures
        line@ == sanitized_line(text@),
{
    let characters = chars_of(text);
    let mut line = String::new();
    let mut separator = false;
    let mut index: usize = 0;
    while index < characters.len()
        invariant
            index <= characters@.len(),
            line@ == sanitized_line(characters@.subrange(0, index as int)),
            separator == ends_in_separator(characters@.subrange(0, index as int)),
        decreases characters@.len() - index,
    {
        let character = characters[index];
        proof {
            let seen = characters@.subrange(0, index + 1);
            assert(seen.drop_last() =~= characters@.subrange(0, index as int));
            assert(seen.last() == character);
        }
        if character == '\n' || character == '\r' || character == '\t' {
            if !separator {
                line.push(' ');
            }
            separator = true;
        } else if !is_control_char(character) {
            line.push(character);
            separator = false;
        }
        index += 1;
    }
    assert(characters@.subrange(0, index as int) =~= characters@);
    line
}

/// The rows that one turn of the mouse wheel scrolls.
pub const MOUSE_SCROLL_ROWS: usize = 3;

/// The scroll position of the transcript.
#[derive(Clone, Copy, Debug, PartialEq, Eq, Structural)]
pub struct TranscriptScroll {
    pub top: usize,
    pub content_height: usize,
    pub viewport_height: u16,
    pub auto_follow: bool,
}

impl TranscriptScroll {
    /// The top row at which the last row is in view.
    pub open spec fn bottom(self) -> int {
        if self.content_height > self.viewport_height {
            self.content_height - self.viewport_height
        } else {
            0
        }
    }

    /// The view does not go past the last row, and shows it while it follows.
    pub open spec fn wf(self) -> bool {
        self.top <= self.bottom() && (self.auto_follow ==> self.top == self.bottom())
    }

    /// The rows of one page: the view but for one row, and at least one.
    pub open spec fn page(self) -> int {
        if self.viewport_height <= 2 {
            1
        } else {
            self.viewport_height - 1
        }
    }

    /// The position `rows` further up.
    pub open spec fn up(self, rows: int) -> TranscriptScroll {
        TranscriptScroll {
            auto_follow: false,
            top: (if self.top < rows {
                0
            } else {
                self.top - rows
            }) as usize,
            ..self
        }
    }

    /// The position `rows` further down, at most at the bottom.
    pub open spec fn down(self, rows: int) -> TranscriptScroll {
        TranscriptScroll {
            auto_follow: false,
            top: (if self.top + rows > self.bottom() {
                self.bottom()
            } else {
                self.top + rows
            }) as usize,
            ..self
        }
    }

    /// The position at the top of an empty transcript, following it.
    pub open spec fn initial() -> TranscriptScroll {
        TranscriptScroll { top: 0, content_height: 0, viewport_height: 0, auto_follow: true }
    }

    fn max_top(&self) -> (top: usize)
        ensures
            top == self.bottom(),
    {
        self.content_height.saturating_sub(self.viewport_height as usize)
    }

    fn page_rows(&self) -> (rows: usize)
        ensures
            rows == self.page(),
    {
        let rows: u16 = self.viewport_height.saturating_sub(1);
        if rows == 0 {
            1
        } else {
            rows as usize
        }
    }

    fn scroll_up(&mut self, rows: usize)
        ensures
            *final(self) == old(self).up(rows as int),
    {
        self.auto_follow = false;
        self.top = self.top.saturating_sub(rows);
    }

    fn scroll_down(&mut self, rows: usize)
        ensures
            *final(self) == old(self).down(rows as int),
    {
        self.auto_follow = false;
        let top: usize = self.top.saturating_add(rows);
        let bottom: usize = self.max_top();
        self.top = if top < bottom { top } else { bottom };
    }

    /// Records the height of the transcript and of the view.
    pub fn update_metrics(&mut self, content_height: usize, viewport_height: u16)
        ensures
            final(self).content_height == content_height,
            final(self).viewport_height == viewport_height,
            final(self).auto_follow == old(self).auto_follow,
            final(self).top == if old(self).auto_follow || old(self).top > final(self).bottom() {
                final(self).bottom()
            } else {
                old(self).top as int
            },
            final(self).wf(),
    {
        self.content_height = content_height;
        self.viewport_height = viewport_height;
        let bottom: usize = self.max_top();
        if self.auto_follow || self.top > bottom {
            self.top = bottom;
        }
    }

    /// Scrolls one page up.
    pub fn page_up(&mut self)
        ensures
            *final(self) == old(self).up(old(self).page()),
            old(self).wf() ==> final(self).wf(),
    {
        let rows: usize = self.page_rows();
        self.scroll_up(rows);
    }

    /// Scrolls one page down.
    pub fn page_down(&mut self)
        ensures
            *final(self) == old(self).down(old(self).page()),
            final(self).wf(),
    {
        let rows: usize = self.page_rows();
        self.scroll_down(rows);
    }

    /// Scrolls up by one turn of the wheel.
    pub fn wheel_up(&mut self)
        ensures
            *final(self) == old(self).up(MOUSE_SCROLL_ROWS as int),
            old(self).wf() ==> final(self).wf(),
    {
        self.scroll_up(MOUSE_SCROLL_ROWS);
    }

    /// Scrolls down by one turn of the wheel.
    pub fn wheel_down(&mut self)
        ensures
            *final(self) == old(self).down(MOUSE_SCROLL_ROWS as int),
            final(self).wf(),
    {
        self.scroll_down(MOUSE_SCROLL_ROWS);
    }

    /// The position that shows the last row and follows it.
    pub open spec fn following(self) -> TranscriptScroll {
        TranscriptScroll { auto_follow: true, top: self.bottom() as usize, ..self }
    }

    /// Shows the last row and follows it.
    pub fn follow_latest(&mut self)
        ensures
            *final(self) == old(self).following(),
            final(self).wf(),
    {
        self.auto_follow = true;
        self.top = self.max_top();
    }

    /// The first row in view.
    pub fn top(&self) -> (top: usize)
        ensures
            top == self.top,
    {
        self.top
    }

    /// Whether the view follows the last row.
    pub fn auto_follow(&self) -> (follows: bool)
        ensures
            follows == self.auto_follow,
    {
        self.auto_follow
    }
}

impl Default for TranscriptScroll {
    fn default() -> (scroll: Self)
        ensures
            scroll == TranscriptScroll::initial(),
            scroll.wf(),
    {
        TranscriptScroll { top: 0, content_height: 0, viewport_height: 0, auto_follow: true }
    }
}

/// What a menu offers.
#[derive(Clone, Copy, Debug, PartialEq, Eq, Structural)]
pub enum MenuKind {
    Commands,
    Models,
    Efforts,
    Processes,
}

/// A line of a menu.
#[derive(Debug)]
pub struct MenuItem {
    value: String,
    description: String,
}

/// [`MenuItem`] as contracts see it.
pub ghost struct ItemView {
    pub value: Seq<char>,
    pub description: Seq<char>,
}

impl DeepView for MenuItem {
    type V = ItemView;

    closed spec fn deep_view(&self) -> ItemView {
        ItemView { value: self.value@, description: self.description@ }
    }
}

/// The line for a value and its description.
pub open spec fn menu_item(value: Seq<char>, description: Seq<char>) -> ItemView {
    ItemView { value: sanitized_line(value), description: sanitized_line(description) }
}

impl MenuItem {
    /// Creates a line; both texts are sanitized.
    pub fn new(value: &str, description: &str) -> (item: Self)
        ensures
            item.deep_view() == menu_item(value@, description@),
    {
        MenuItem { value: sanitize_line(value), description: sanitize_line(description) }
    }

    /// The value of the line.
    pub fn value(&self) -> (value: &str)
        ensures
            value@ == self.deep_view().value,
    {
        self.value.as_str()
    }

    /// The description of the line.
    pub fn description(&self) -> (description: &str)
        ensures
            description@ == self.deep_view().description,
    {
        self.description.as_str()
    }
}

/// A menu with one selected line.
#[derive(Debug)]
pub struct MenuState {
    kind: Option<MenuKind>,
    items: Vec<MenuItem>,
    selected: usize,
}

/// [`MenuState`] as contracts see it.
pub ghost struct MenuView {
    pub kind: Option<MenuKind>,
    pub items: Seq<ItemView>,
    pub selected: int,
}

impl MenuView {
    /// No menu.
    pub open spec fn closed_menu() -> MenuView {
        MenuView { kind: None, items: Seq::empty(), selected: 0 }
    }

    /// A menu with its first line selected.
    pub open spec fn opened(kind: MenuKind, items: Seq<ItemView>) -> MenuView {
        MenuView { kind: Some(kind), items, selected: 0 }
    }

    /// Whether the menu is on the screen.
    pub open spec fn is_open(self) -> bool {
        self.kind is Some && self.items.len() > 0
    }

    /// The menu with the next line selected, the first one after the last.
    pub open spec fn with_next(self) -> MenuView {
        MenuView {
            selected: if self.selected + 1 >= self.items.len() {
                0
            } else {
                self.selected + 1
            },
            ..self
        }
    }

    /// The menu with the line before selected, the last one before the first.
    pub open spec fn with_previous(self) -> MenuView {
        MenuView {
            selected: if self.items.len() == 0 {
                0
            } else if self.selected == 0 {
                self.items.len() - 1
            } else {
                self.selected - 1
            },
            ..self
        }
    }

    /// The value of the selected line.
    pub open spec fn value(self) -> Option<Seq<char>> {
        if self.selected < self.items.len() {
            Some(self.items[self.selected].value)
        } else {
            None
        }
    }

    /// A line is selected wherever there is one.
    pub open spec fn wf(self) -> bool {
        0 <= self.selected && (self.selected < self.items.len() || self.selected == 0)
    }
}

/// Going on and back again selects the same line.
pub proof fn lemma_menu_steps_are_inverse(menu: MenuView)
    requires
        menu.wf(),
    ensures
        menu.with_next().with_previous() == menu,
        menu.with_previous().with_next() == menu,
        menu.with_next().wf(),
        menu.with_previous().wf(),
{
}

impl MenuState {
    /// The state of the menu.
    pub closed spec fn state(&self) -> MenuView {
        MenuView {
            kind: self.kind,
            items: self.items.deep_view(),
            selected: self.selected as int,
        }
    }

    #[verifier::type_invariant]
    spec fn selects_a_line(&self) -> bool {
        self.selected < self.items@.len() || self.selected == 0
    }

    /// Opens a menu with its first line selected.
    pub fn set(&mut self, kind: MenuKind, items: Vec<MenuItem>)
        ensures
            final(self).state() == MenuView::opened(kind, items.deep_view()),
    {
        *self = MenuState { kind: Some(kind), items, selected: 0 };
    }

    /// Closes the menu.
    pub fn clear(&mut self)
        ensures
            final(self).state() == MenuView::closed_menu(),
    {
        *self = MenuState::default();
    }

    /// Selects the next line.
    pub fn select_next(&mut self)
        ensures
            final(self).state() == old(self).state().with_next(),
    {
        proof {
            use_type_invariant(&*self);
        }
        if self.items.len() == 0 || self.selected >= self.items.len() - 1 {
            self.selected = 0;
        } else {
            self.selected = self.selected + 1;
        }
    }

    /// Selects the line before.
    pub fn select_previous(&mut self)
        ensures
            final(self).state() == old(self).state().with_previous(),
    {
        proof {
            use_type_invariant(&*self);
        }
        if self.items.len() == 0 {
            self.selected = 0;
        } else if self.selected == 0 {
            self.selected = self.items.len() - 1;
        } else {
            self.selected = self.selected - 1;
        }
    }

    /// The value of the selected line.
    pub fn selected_value(&self) -> (value: Option<&str>)
        ensures
            match value {
                Some(text) => self.state().value() == Some(text@),
                None => self.state().value() is None,
            },
    {
        if self.selected < self.items.len() {
            Some(self.items[self.selected].value())
        } else {
            None
        }
    }

    /// The place of the selected line.
    pub fn selected(&self) -> (selected: usize)
        ensures
            selected == self.state().selected,
    {
        self.selected
    }

    /// The lines of the menu.
    pub fn items(&self) -> (items: &Vec<MenuItem>)
        ensures
            items.deep_view() == self.state().items,
    {
        &self.items
    }

    /// What the menu offers.
    pub fn kind(&self) -> (kind: Option<MenuKind>)
        ensures
            kind == self.state().kind,
    {
        self.kind
    }

    /// Whether the menu is on the screen.
    pub fn is_open(&self) -> (open: bool)
        ensures
            open == self.state().is_open(),
    {
        self.kind.is_some() && !self.items.is_empty()
    }
}

impl Default for MenuState {
    fn default() -> (menu: Self)
        ensures
            menu.state() == MenuView::closed_menu(),
    {
        let menu = MenuState { kind: None, items: Vec::new(), selected: 0 };
        assert(menu.items.deep_view() =~= Seq::empty());
        menu
    }
}

/// A line keeps the characters of its text in order. Other control characters leave no trace, and
/// line ends and tabs that follow one another leave one space.
pub proof fn lemma_lines_keep_their_characters(text: Seq<char>, character: char)
    ensures
        !is_control(character) && character != '\n' && character != '\r' && character != '\t'
            ==> sanitized_line(text.push(character)) == sanitized_line(text).push(character),
        is_control(character) && character != '\n' && character != '\r' && character != '\t'
            ==> sanitized_line(text.push(character)) == sanitized_line(text),
        character == '\n' || character == '\r' || character == '\t' ==> {
            &&& text.len() == 0 ==> sanitized_line(text.push(character)) == seq![' ']
            &&& text.len() > 0 && (text.last() == '\n' || text.last() == '\r' || text.last()
                == '\t') ==> sanitized_line(text.push(character)) == sanitized_line(text)
            &&& text.len() > 0 && !is_control(text.last()) && text.last() != '\n' && text.last()
                != '\r' && text.last() != '\t' ==> sanitized_line(text.push(character))
                == sanitized_line(text).push(' ')
        },
        sanitized_line(Seq::empty()) == Seq::<char>::empty(),
{
    let longer = text.push(character);
    assert(longer.drop_last() =~= text);
    if text.len() == 0 && is_separator(character) {
        assert(sanitized_line(text) =~= Seq::empty());
        assert(!ends_in_separator(text));
        assert(sanitized_line(longer) =~= seq![' ']);
    }
}

/// A text without control characters is a line already.
pub proof fn lemma_plain_lines_stay(text: Seq<char>)
    requires
        forall|i: int|
            0 <= i < text.len() ==> !is_control(#[trigger] text[i]) && text[i] != '\n' && text[i]
                != '\r' && text[i] != '\t',
    ensures
        sanitized_line(text) == text,
    decreases text.len(),
{
    if text.len() > 0 {
        lemma_plain_lines_stay(text.drop_last());
        assert(text.drop_last().push(text.last()) =~= text);
    }
}

/// A page keeps one row of the one before, a turn of the wheel moves three rows, and neither
/// leaves the transcript. The view stops following the end.
pub proof fn lemma_scrolling_moves_within_the_transcript()
    ensures
        forall|scroll: &mut TranscriptScroll, done: ()| #[trigger]
            call_ensures(TranscriptScroll::page_up, (scroll,), done) ==> {
                &&& !final(scroll).auto_follow
                &&& final(scroll).content_height == scroll.content_height
                &&& final(scroll).viewport_height == scroll.viewport_height
                &&& scroll.viewport_height > 1 && scroll.top + 1 >= scroll.viewport_height
                    ==> final(scroll).top + scroll.viewport_height == scroll.top + 1
                &&& scroll.viewport_height <= 1 && scroll.top > 0 ==> final(scroll).top + 1
                    == scroll.top
                &&& scroll.viewport_height > 1 && scroll.top + 1 < scroll.viewport_height
                    ==> final(scroll).top == 0
                &&& scroll.top == 0 ==> final(scroll).top == 0
            },
        forall|scroll: &mut TranscriptScroll, done: ()| #[trigger]
            call_ensures(TranscriptScroll::page_down, (scroll,), done) ==> {
                &&& !final(scroll).auto_follow
                &&& final(scroll).content_height == scroll.content_height
                &&& final(scroll).viewport_height == scroll.viewport_height
                &&& scroll.viewport_height > 1 && scroll.top + 2 * scroll.viewport_height
                    <= scroll.content_height + 1 ==> final(scroll).top + 1 == scroll.top
                    + scroll.viewport_height
                &&& scroll.viewport_height <= 1 && scroll.top + scroll.viewport_height
                    < scroll.content_height ==> final(scroll).top == scroll.top + 1
                &&& scroll.viewport_height > 1 && scroll.top + 2 * scroll.viewport_height
                    > scroll.content_height + 1 && scroll.content_height >= scroll.viewport_height
                    ==> final(scroll).top + scroll.viewport_height == scroll.content_height
            },
        forall|scroll: &mut TranscriptScroll, done: ()| #[trigger]
            call_ensures(TranscriptScroll::wheel_up, (scroll,), done) ==> {
                &&& !final(scroll).auto_follow
                &&& final(scroll).content_height == scroll.content_height
                &&& final(scroll).viewport_height == scroll.viewport_height
                &&& scroll.top >= 3 ==> final(scroll).top + 3 == scroll.top
                &&& scroll.top < 3 ==> final(scroll).top == 0
            },
        forall|scroll: &mut TranscriptScroll, done: ()| #[trigger]
            call_ensures(TranscriptScroll::wheel_down, (scroll,), done) ==> {
                &&& !final(scroll).auto_follow
                &&& final(scroll).content_height == scroll.content_height
                &&& final(scroll).viewport_height == scroll.viewport_height
                &&& scroll.top + scroll.viewport_height + 3 <= scroll.content_height ==> final(scroll).top == scroll.top + 3
                &&& scroll.top + scroll.viewport_height + 3 > scroll.content_height
                    && scroll.content_height >= scroll.viewport_height ==> final(scroll).top
                    + scroll.viewport_height == scroll.content_height
                &&& scroll.content_height < scroll.viewport_height ==> final(scroll).top == 0
            },
{
}

/// A view that follows shows the last row whatever is added, and one that does not stays where it
/// is as long as there is something to show there.
pub proof fn lemma_following_shows_the_last_row()
    ensures
        forall|scroll: &mut TranscriptScroll, content: usize, rows: u16, done: ()| #[trigger]
            call_ensures(TranscriptScroll::update_metrics, (scroll, content, rows), done) ==> {
                &&& final(scroll).content_height == content && final(scroll).viewport_height == rows
                &&& final(scroll).auto_follow == scroll.auto_follow
                &&& scroll.auto_follow && content >= rows ==> final(scroll).top + rows == content
                &&& content < rows ==> final(scroll).top == 0
                &&& !scroll.auto_follow && scroll.top + rows <= content ==> final(scroll).top
                    == scroll.top
                &&& !scroll.auto_follow && scroll.top + rows > content && content >= rows ==> final(scroll).top + rows == content
            },
        forall|scroll: &mut TranscriptScroll, done: ()| #[trigger]
            call_ensures(TranscriptScroll::follow_latest, (scroll,), done) ==> {
                &&& final(scroll).auto_follow
                &&& final(scroll).content_height == scroll.content_height
                &&& final(scroll).viewport_height == scroll.viewport_height
                &&& scroll.content_height >= scroll.viewport_height ==> final(scroll).top
                    + scroll.viewport_height == scroll.content_height
                &&& scroll.content_height < scroll.viewport_height ==> final(scroll).top == 0
            },
{
}

/// A menu opens with its first line selected, a step moves the selection by one line and goes
/// round at the ends, and the selected line is the one whose value is taken.
pub proof fn lemma_menus_select_one_line_at_a_time()
    ensures
        forall|menu: &mut MenuState, kind: MenuKind, items: Vec<MenuItem>, done: ()| #[trigger]
            call_ensures(MenuState::set, (menu, kind, items), done) ==> {
                &&& final(menu).state().kind == Some(kind)
                &&& final(menu).state().items == items.deep_view()
                &&& final(menu).state().selected == 0
            },
        forall|menu: &mut MenuState, done: ()| #[trigger]
            call_ensures(MenuState::clear, (menu,), done) ==> final(menu).state().kind is None
                && final(menu).state().items.len() == 0,
        forall|menu: &mut MenuState, done: ()| #[trigger]
            call_ensures(MenuState::select_next, (menu,), done) ==> {
                let before = menu.state();
                let after = final(menu).state();
                &&& after.kind == before.kind && after.items == before.items
                &&& 0 <= before.selected < before.items.len() - 1 ==> after.selected
                    == before.selected + 1
                &&& before.selected == before.items.len() - 1 ==> after.selected == 0
            },
        forall|menu: &mut MenuState, done: ()| #[trigger]
            call_ensures(MenuState::select_previous, (menu,), done) ==> {
                let before = menu.state();
                let after = final(menu).state();
                &&& after.kind == before.kind && after.items == before.items
                &&& 0 < before.selected < before.items.len() ==> after.selected == before.selected
                    - 1
                &&& before.selected == 0 && before.items.len() > 0 ==> after.selected
                    == before.items.len() - 1
            },
        forall|menu: &MenuState, value: Option<&str>| #[trigger]
            call_ensures(MenuState::selected_value, (menu,), value) ==> {
                &&& value is Some <==> menu.state().selected < menu.state().items.len()
                &&& value is Some ==> value->0@ == menu.state().items[menu.state().selected].value
            },
        forall|menu: &MenuState, open: bool| #[trigger]
            call_ensures(MenuState::is_open, (menu,), open) ==> (open <==> menu.state().kind is Some
                && menu.state().items.len() > 0),
        forall|value: &str, description: &str, item: MenuItem| #[trigger]
            call_ensures(MenuItem::new, (value, description), item) ==> item.deep_view().value
                == sanitized_line(value@) && item.deep_view().description == sanitized_line(
                description@,
            ),
{
}

} // verus!
