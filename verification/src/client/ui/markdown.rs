//! Markdown as styled screen lines, free of terminal control sequences.

use pulldown_cmark::{CodeBlockKind, Event, Options, Parser, Tag, TagEnd};
use vstd::prelude::*;

use super::style::{dim_style, line_text, plain_style, Color, Line, Span, SpanView, Style};
use crate::text::{
    chars_of, decimal, decimal_text, is_control, is_control_char, is_terminal_safe, length_before,
    lemma_length_before, string_from, with_unix_newlines,
};

verus! {

/// Where a scan stands inside a terminal escape sequence.
#[derive(Clone, Copy, Debug, PartialEq, Eq, Structural)]
pub enum EscapeState {
    /// Ordinary text.
    Text,
    /// Directly after an escape character.
    Escape,
    /// Inside a control sequence, which a final byte ends.
    Csi,
    /// Inside an operating-system command.
    Osc,
    /// Inside an application command.
    Apc,
    /// After an escape character inside a command string.
    StringTerminator,
}

/// The state of a scan: the text kept so far and the sequence that is not complete yet.
pub ghost struct EscapeScan {
    pub state: EscapeState,
    pub kept: Seq<char>,
    pub sequence: Seq<char>,
}

/// A character that ends a control sequence.
pub open spec fn is_csi_final(character: char) -> bool {
    0x40 <= (character as u32) <= 0x7e
}

/// One step of the scan.
pub open spec fn scan_step(scan: EscapeScan, character: char) -> EscapeScan {
    match scan.state {
        EscapeState::Text => if character == '\x1b' {
            EscapeScan { state: EscapeState::Escape, ..scan }
        } else if character == '\u{9b}' {
            EscapeScan { state: EscapeState::Csi, ..scan }
        } else if character == '\u{9d}' {
            EscapeScan { state: EscapeState::Osc, ..scan }
        } else if character == '\u{9f}' {
            EscapeScan { state: EscapeState::Apc, ..scan }
        } else {
            EscapeScan { kept: scan.kept.push(character), ..scan }
        },
        EscapeState::Escape => if character == '[' {
            EscapeScan { state: EscapeState::Csi, sequence: scan.sequence.push(character), ..scan }
        } else if character == ']' {
            EscapeScan { state: EscapeState::Osc, sequence: scan.sequence.push(character), ..scan }
        } else if character == '_' {
            EscapeScan { state: EscapeState::Apc, sequence: scan.sequence.push(character), ..scan }
        } else if character == '\x1b' {
            scan
        } else {
            EscapeScan { state: EscapeState::Text, kept: scan.kept.push(character), ..scan }
        },
        EscapeState::Csi => if is_csi_final(character) {
            EscapeScan { state: EscapeState::Text, sequence: Seq::empty(), ..scan }
        } else if character == '\x1b' {
            EscapeScan {
                state: EscapeState::Escape,
                kept: scan.kept + scan.sequence,
                sequence: Seq::empty(),
            }
        } else {
            EscapeScan { sequence: scan.sequence.push(character), ..scan }
        },
        EscapeState::Osc | EscapeState::Apc => if character == '\x07' || character == '\u{9c}' {
            EscapeScan { state: EscapeState::Text, sequence: Seq::empty(), ..scan }
        } else if character == '\x1b' {
            EscapeScan { state: EscapeState::StringTerminator, ..scan }
        } else {
            EscapeScan { sequence: scan.sequence.push(character), ..scan }
        },
        EscapeState::StringTerminator => if character == '\\' || character == '\u{9c}' {
            EscapeScan { state: EscapeState::Text, sequence: Seq::empty(), ..scan }
        } else if character == '\x1b' {
            EscapeScan { sequence: scan.sequence.push(character), ..scan }
        } else {
            EscapeScan { state: EscapeState::Osc, sequence: scan.sequence.push(character), ..scan }
        },
    }
}

/// The scan of a whole text.
pub open spec fn scan_text(text: Seq<char>) -> EscapeScan
    decreases text.len(),
{
    if text.len() == 0 {
        EscapeScan { state: EscapeState::Text, kept: Seq::empty(), sequence: Seq::empty() }
    } else {
        scan_step(scan_text(text.drop_last()), text.last())
    }
}

/// The text without its complete escape sequences; the body of an incomplete one stays.
pub open spec fn without_escapes(text: Seq<char>) -> Seq<char> {
    let scan = scan_text(text);
    if scan.state is Text {
        scan.kept
    } else {
        scan.kept + scan.sequence
    }
}

/// What stands on the screen for one character.
pub open spec fn visible_character(character: char) -> Seq<char> {
    if character == '\n' {
        seq!['\n']
    } else if character == '\t' {
        seq![' ', ' ', ' ', ' ']
    } else if is_control(character) {
        Seq::empty()
    } else {
        seq![character]
    }
}

/// What stands on the screen for a text.
pub open spec fn visible_text(text: Seq<char>) -> Seq<char>
    decreases text.len(),
{
    if text.len() == 0 {
        Seq::empty()
    } else {
        visible_text(text.drop_last()) + visible_character(text.last())
    }
}

/// The text that may be shown for an untrusted Markdown source.
pub open spec fn sanitized_markdown(source: Seq<char>) -> Seq<char> {
    visible_text(with_unix_newlines(without_escapes(source)))
}

proof fn lemma_visible_text_is_safe(text: Seq<char>)
    ensures
        is_terminal_safe(visible_text(text)),
    decreases text.len(),
{
    if text.len() > 0 {
        lemma_visible_text_is_safe(text.drop_last());
    }
}

/// Sanitized Markdown never holds a control character but the newline.
pub proof fn lemma_sanitized_markdown_is_terminal_safe(source: Seq<char>)
    ensures
        is_terminal_safe(sanitized_markdown(source)),
{
    lemma_visible_text_is_safe(with_unix_newlines(without_escapes(source)));
}

proof fn lemma_safe_text_is_kept(text: Seq<char>)
    requires
        is_terminal_safe(text),
    ensures
        scan_text(text) == (EscapeScan {
            state: EscapeState::Text,
            kept: text,
            sequence: Seq::empty(),
        }),
        with_unix_newlines(text) == text,
        visible_text(text) == text,
    decreases text.len(),
{
    if text.len() > 0 {
        let before = text.drop_last();
        assert forall|i: int| 0 <= i < before.len() implies !is_control(#[trigger] before[i])
            || before[i] == '\n' by {
            assert(before[i] == text[i]);
        }
        lemma_safe_text_is_kept(before);
        assert(!is_control(text[text.len() - 1]) || text.last() == '\n');
        assert(before.push(text.last()) =~= text);
        if text.len() >= 2 {
            assert(!is_control(text[text.len() - 2]) || text[text.len() - 2] == '\n');
        }
        assert(visible_text(text) =~= text);
    } else {
        assert(text =~= Seq::empty());
    }
}

/// Text that cannot control the terminal is shown as it is.
pub proof fn lemma_sanitizing_keeps_safe_text(text: Seq<char>)
    requires
        is_terminal_safe(text),
    ensures
        sanitized_markdown(text) == text,
{
    lemma_safe_text_is_kept(text);
}

/// Sanitizing twice is sanitizing once.
pub proof fn lemma_sanitizing_is_idempotent(source: Seq<char>)
    ensures
        sanitized_markdown(sanitized_markdown(source)) == sanitized_markdown(source),
{
    lemma_sanitized_markdown_is_terminal_safe(source);
    lemma_sanitizing_keeps_safe_text(sanitized_markdown(source));
}

fn strip_escapes(source: &str) -> (stripped: Vec<char>)
    ensures
        stripped@ == without_escapes(source@),
{
    let characters = chars_of(source);
    let mut stripped: Vec<char> = Vec::new();
    let mut sequence: Vec<char> = Vec::new();
    let mut state = EscapeState::Text;
    let mut index: usize = 0;
    while index < characters.len()
        invariant
            index <= characters@.len(),
            scan_text(characters@.subrange(0, index as int)) == (EscapeScan {
                state,
                kept: stripped@,
                sequence: sequence@,
            }),
        decreases characters@.len() - index,
    {
        let character = characters[index];
        let ghost seen = characters@.subrange(0, index + 1);
        proof {
            assert(seen.drop_last() =~= characters@.subrange(0, index as int));
            assert(seen.last() == character);
        }
        match state {
            EscapeState::Text => {
                if character == '\x1b' {
                    state = EscapeState::Escape;
                } else if character == '\u{9b}' {
                    state = EscapeState::Csi;
                } else if character == '\u{9d}' {
                    state = EscapeState::Osc;
                } else if character == '\u{9f}' {
                    state = EscapeState::Apc;
                } else {
                    stripped.push(character);
                }
            },
            EscapeState::Escape => {
                if character == '[' {
                    sequence.push(character);
                    state = EscapeState::Csi;
                } else if character == ']' {
                    sequence.push(character);
                    state = EscapeState::Osc;
                } else if character == '_' {
                    sequence.push(character);
                    state = EscapeState::Apc;
                } else if character != '\x1b' {
                    stripped.push(character);
                    state = EscapeState::Text;
                }
            },
            EscapeState::Csi => {
                let code: u32 = character as u32;
                if 0x40 <= code && code <= 0x7e {
                    sequence.clear();
                    state = EscapeState::Text;
                } else if character == '\x1b' {
                    stripped.append(&mut sequence);
                    state = EscapeState::Escape;
                } else {
                    sequence.push(character);
                }
            },
            EscapeState::Osc | EscapeState::Apc => {
                if character == '\x07' || character == '\u{9c}' {
                    sequence.clear();
                    state = EscapeState::Text;
                } else if character == '\x1b' {
                    state = EscapeState::StringTerminator;
                } else {
                    sequence.push(character);
                }
            },
            EscapeState::StringTerminator => {
                if character == '\\' || character == '\u{9c}' {
                    sequence.clear();
                    state = EscapeState::Text;
                } else if character == '\x1b' {
                    sequence.push(character);
                } else {
                    sequence.push(character);
                    state = EscapeState::Osc;
                }
            },
        }
        index += 1;
    }
    assert(characters@.subrange(0, index as int) =~= characters@);
    match state {
        EscapeState::Text => {},
        _ => {
            stripped.append(&mut sequence);
        },
    }
    stripped
}

/// Removes terminal control sequences and control characters from an untrusted source, keeping
/// its lines.
pub fn sanitize_markdown_source(source: &str) -> (sanitized: String)
    ensures
        sanitized@ == sanitized_markdown(source@),
{
    let stripped = strip_escapes(source);
    let mut sanitized = String::new();
    let mut index: usize = 0;
    while index < stripped.len()
        invariant
            index <= stripped@.len(),
            sanitized@ == visible_text(with_unix_newlines(stripped@.subrange(0, index as int))),
        decreases stripped@.len() - index,
    {
        let character = stripped[index];
        let ghost seen = stripped@.subrange(0, index + 1);
        let ghost before = with_unix_newlines(seen.drop_last());
        proof {
            assert(seen.drop_last() =~= stripped@.subrange(0, index as int));
            assert(seen.last() == character);
            assert(before.push('\n').drop_last() =~= before);
            assert(before.push(character).drop_last() =~= before);
        }
        if character == '\r' {
            sanitized.push('\n');
        } else if character == '\n' {
            if index == 0 || stripped[index - 1] != '\r' {
                sanitized.push('\n');
            }
        } else if character == '\t' {
            sanitized.push(' ');
            sanitized.push(' ');
            sanitized.push(' ');
            sanitized.push(' ');
        } else if !is_control_char(character) {
            sanitized.push(character);
        }
        index += 1;
        assert(sanitized@ =~= visible_text(with_unix_newlines(seen)));
    }
    assert(stripped@.subrange(0, index as int) =~= stripped@);
    sanitized
}

/// A block that opens. `T` is the type of text: `String` in code, `Seq<char>` in contracts.
#[derive(Debug)]
pub enum BlockStart<T> {
    Paragraph,
    Heading,
    BlockQuote,
    /// A code block, with the language of a fenced one.
    CodeBlock(Option<T>),
    /// A list, with the first number of an ordered one.
    List(Option<u64>),
    Item,
}

/// An inline element that opens.
#[derive(Debug)]
pub enum InlineStart<T> {
    Emphasis,
    Strong,
    Strikethrough,
    /// A link, with its destination.
    Link(T),
    Image,
}

/// An element that closes.
#[derive(Clone, Copy, Debug)]
pub enum ElementEnd {
    Paragraph,
    Heading,
    BlockQuote,
    CodeBlock,
    List,
    Emphasis,
    Strong,
    Strikethrough,
    Link,
    Image,
}

/// Content without an inside.
#[derive(Debug)]
pub enum Leaf<T> {
    Text(T),
    Code(T),
    SoftBreak,
    HardBreak,
    Rule,
    TaskListMarker(bool),
    FootnoteReference(T),
}

/// Markup of another kind, shown as written.
#[derive(Debug)]
pub enum Markup<T> {
    Html(T),
    InlineHtml(T),
    InlineMath(T),
    DisplayMath(T),
}

/// One event of a Markdown document.
#[derive(Debug)]
pub enum MarkdownEvent<T> {
    Block(BlockStart<T>),
    Inline(InlineStart<T>),
    End(ElementEnd),
    Leaf(Leaf<T>),
    Markup(Markup<T>),
    /// An event that shows nothing.
    Other,
}

impl DeepView for BlockStart<String> {
    type V = BlockStart<Seq<char>>;

    open spec fn deep_view(&self) -> BlockStart<Seq<char>> {
        match self {
            BlockStart::Paragraph => BlockStart::Paragraph,
            BlockStart::Heading => BlockStart::Heading,
            BlockStart::BlockQuote => BlockStart::BlockQuote,
            BlockStart::CodeBlock(Some(language)) => BlockStart::CodeBlock(Some(language@)),
            BlockStart::CodeBlock(None) => BlockStart::CodeBlock(None),
            BlockStart::List(first) => BlockStart::List(*first),
            BlockStart::Item => BlockStart::Item,
        }
    }
}

impl DeepView for InlineStart<String> {
    type V = InlineStart<Seq<char>>;

    open spec fn deep_view(&self) -> InlineStart<Seq<char>> {
        match self {
            InlineStart::Emphasis => InlineStart::Emphasis,
            InlineStart::Strong => InlineStart::Strong,
            InlineStart::Strikethrough => InlineStart::Strikethrough,
            InlineStart::Link(destination) => InlineStart::Link(destination@),
            InlineStart::Image => InlineStart::Image,
        }
    }
}

impl DeepView for Leaf<String> {
    type V = Leaf<Seq<char>>;

    open spec fn deep_view(&self) -> Leaf<Seq<char>> {
        match self {
            Leaf::Text(text) => Leaf::Text(text@),
            Leaf::Code(text) => Leaf::Code(text@),
            Leaf::SoftBreak => Leaf::SoftBreak,
            Leaf::HardBreak => Leaf::HardBreak,
            Leaf::Rule => Leaf::Rule,
            Leaf::TaskListMarker(checked) => Leaf::TaskListMarker(*checked),
            Leaf::FootnoteReference(label) => Leaf::FootnoteReference(label@),
        }
    }
}

impl<T> Markup<T> {
    /// The text of the markup.
    pub open spec fn source(self) -> T {
        match self {
            Markup::Html(text) => text,
            Markup::InlineHtml(text) => text,
            Markup::InlineMath(text) => text,
            Markup::DisplayMath(text) => text,
        }
    }
}

impl DeepView for Markup<String> {
    type V = Markup<Seq<char>>;

    open spec fn deep_view(&self) -> Markup<Seq<char>> {
        match self {
            Markup::Html(text) => Markup::Html(text@),
            Markup::InlineHtml(text) => Markup::InlineHtml(text@),
            Markup::InlineMath(text) => Markup::InlineMath(text@),
            Markup::DisplayMath(text) => Markup::DisplayMath(text@),
        }
    }
}

impl DeepView for MarkdownEvent<String> {
    type V = MarkdownEvent<Seq<char>>;

    open spec fn deep_view(&self) -> MarkdownEvent<Seq<char>> {
        match self {
            MarkdownEvent::Block(start) => MarkdownEvent::Block(start.deep_view()),
            MarkdownEvent::Inline(start) => MarkdownEvent::Inline(start.deep_view()),
            MarkdownEvent::End(end) => MarkdownEvent::End(*end),
            MarkdownEvent::Leaf(leaf) => MarkdownEvent::Leaf(leaf.deep_view()),
            MarkdownEvent::Markup(markup) => MarkdownEvent::Markup(markup.deep_view()),
            MarkdownEvent::Other => MarkdownEvent::Other,
        }
    }
}

/// A link whose label is still being shown.
#[derive(Debug)]
pub struct LinkContext {
    pub destination: String,
    pub label: String,
}

/// What a [`LinkContext`] holds.
pub ghost struct LinkView {
    pub destination: Seq<char>,
    pub label: Seq<char>,
}

impl DeepView for LinkContext {
    type V = LinkView;

    open spec fn deep_view(&self) -> LinkView {
        LinkView { destination: self.destination@, label: self.label@ }
    }
}

/// Turns Markdown events into styled lines.
pub struct MarkdownBuilder {
    pub lines: Vec<Line>,
    pub current: Vec<Span>,
    pub style: Style,
    pub style_stack: Vec<Style>,
    pub lists: Vec<Option<u64>>,
    pub quote_depth: usize,
    pub in_code_block: bool,
    pub links: Vec<LinkContext>,
}

/// A [`MarkdownBuilder`] as contracts see it.
pub ghost struct MarkdownPage {
    pub lines: Seq<Seq<SpanView>>,
    pub current: Seq<SpanView>,
    pub style: Style,
    pub style_stack: Seq<Style>,
    pub lists: Seq<Option<u64>>,
    pub quote_depth: nat,
    pub in_code_block: bool,
    pub links: Seq<LinkView>,
}

/// The quotation bars that open a line at some depth.
pub open spec fn quote_prefix(depth: nat) -> Seq<SpanView> {
    Seq::new(depth, |i: int| SpanView { content: "│ "@, style: dim_style() })
}

/// The indentation of a list item below `depth` lists.
pub open spec fn item_indent(depth: nat) -> Seq<char> {
    Seq::new(if depth == 0 { 0 } else { 2 * (depth - 1) as nat }, |i: int| ' ')
}

impl MarkdownPage {
    /// The page before the first event.
    pub open spec fn blank() -> MarkdownPage {
        MarkdownPage {
            lines: Seq::empty(),
            current: Seq::empty(),
            style: plain_style(),
            style_stack: Seq::empty(),
            lists: Seq::empty(),
            quote_depth: 0,
            in_code_block: false,
            links: Seq::empty(),
        }
    }

    /// Text shown in the current style; it is also part of the label of an open link.
    pub open spec fn with_text(self, content: Seq<char>) -> MarkdownPage {
        let shown = sanitized_markdown(content);
        if shown.len() == 0 {
            self
        } else {
            MarkdownPage {
                links: if self.links.len() == 0 {
                    self.links
                } else {
                    self.links.drop_last().push(
                        LinkView { label: self.links.last().label + shown, ..self.links.last() },
                    )
                },
                current: self.current.push(SpanView { content: shown, style: self.style }),
                ..self
            }
        }
    }

    /// A span shown outside the current style.
    pub open spec fn with_span(self, content: Seq<char>, style: Style) -> MarkdownPage {
        MarkdownPage { current: self.current.push(SpanView { content, style }), ..self }
    }

    /// The quotation bars of a new line.
    pub open spec fn with_quote_prefix(self) -> MarkdownPage {
        MarkdownPage { current: self.current + quote_prefix(self.quote_depth), ..self }
    }

    /// The current line ended, even an empty one.
    pub open spec fn with_line_end(self) -> MarkdownPage {
        MarkdownPage { lines: self.lines.push(self.current), current: Seq::empty(), ..self }
    }

    /// The current line ended where it holds anything.
    pub open spec fn with_block_end(self) -> MarkdownPage {
        if self.current.len() > 0 {
            self.with_line_end()
        } else {
            self
        }
    }

    /// A new block: a blank line parts it from earlier content unless it is nested.
    pub open spec fn with_block_start(self, nested: bool) -> MarkdownPage {
        let ended = self.with_block_end();
        let parted = if !nested && ended.lines.len() > 0 && ended.lines.last().len() > 0 {
            MarkdownPage { lines: ended.lines.push(Seq::empty()), ..ended }
        } else {
            ended
        };
        parted.with_quote_prefix()
    }

    /// Another style until [`MarkdownPage::with_style_end`].
    pub open spec fn with_style(self, style: Style) -> MarkdownPage {
        MarkdownPage { style_stack: self.style_stack.push(self.style), style, ..self }
    }

    /// The style before the latest [`MarkdownPage::with_style`].
    pub open spec fn with_style_end(self) -> MarkdownPage {
        if self.style_stack.len() == 0 {
            MarkdownPage { style: plain_style(), ..self }
        } else {
            MarkdownPage {
                style: self.style_stack.last(),
                style_stack: self.style_stack.drop_last(),
                ..self
            }
        }
    }

    /// Code text: each newline in it ends a line.
    pub open spec fn with_code_text(self, text: Seq<char>) -> MarkdownPage
        decreases text.len(),
    {
        let length = length_before(text, '\n');
        if length >= text.len() {
            self.with_text(text)
        } else {
            self.with_text(text.take(length as int)).with_line_end().with_quote_prefix()
                .with_code_text(text.skip(length as int + 1))
        }
    }

    /// The marker of the next item of the innermost list.
    pub open spec fn item_marker(self) -> Seq<char> {
        if self.lists.len() > 0 && self.lists.last() is Some {
            decimal(self.lists.last()->0 as nat) + ". "@
        } else {
            "• "@
        }
    }

    /// The page with the next number of the innermost list counted up.
    pub open spec fn with_item_counted(self) -> MarkdownPage {
        if self.lists.len() > 0 && self.lists.last() is Some {
            MarkdownPage {
                lists: self.lists.drop_last().push(Some((self.lists.last()->0 + 1) as u64)),
                ..self
            }
        } else {
            self
        }
    }

    pub open spec fn after_block_start(self, start: BlockStart<Seq<char>>) -> MarkdownPage {
        match start {
            BlockStart::Paragraph => if self.current.len() == 0 {
                self.with_block_start(self.lists.len() > 0)
            } else {
                self
            },
            BlockStart::Heading => {
                let started = self.with_block_start(false);
                started.with_style(Style { bold: true, ..started.style })
            },
            BlockStart::BlockQuote => MarkdownPage { quote_depth: self.quote_depth + 1, ..self },
            BlockStart::CodeBlock(language) => {
                let started = self.with_block_start(false);
                let code = started.with_style(Style { fg: Some(Color::Yellow), ..started.style });
                let titled = if language is Some && language->0.len() > 0 {
                    code.with_style(Style { dim: true, ..code.style }).with_text(
                        language->0,
                    ).with_style_end().with_line_end().with_quote_prefix()
                } else {
                    code
                };
                MarkdownPage { in_code_block: true, ..titled }
            },
            BlockStart::List(first) => {
                let started = self.with_block_start(self.lists.len() > 0);
                MarkdownPage { lists: started.lists.push(first), ..started }
            },
            BlockStart::Item => {
                let indented = self.with_block_end().with_quote_prefix().with_text(
                    item_indent(self.lists.len()),
                );
                indented.with_item_counted().with_text(indented.item_marker())
            },
        }
    }

    pub open spec fn after_inline_start(self, start: InlineStart<Seq<char>>) -> MarkdownPage {
        match start {
            InlineStart::Emphasis => self.with_style(Style { italic: true, ..self.style }),
            InlineStart::Strong => self.with_style(Style { bold: true, ..self.style }),
            InlineStart::Strikethrough => self.with_style(
                Style { crossed_out: true, ..self.style },
            ),
            InlineStart::Link(destination) => {
                let styled = self.with_style(Style { underlined: true, ..self.style });
                MarkdownPage {
                    links: styled.links.push(
                        LinkView {
                            destination: sanitized_markdown(destination),
                            label: Seq::empty(),
                        },
                    ),
                    ..styled
                }
            },
            InlineStart::Image => self.with_text("[image: "@),
        }
    }

    pub open spec fn after_end(self, end: ElementEnd) -> MarkdownPage {
        match end {
            ElementEnd::Paragraph => self.with_block_end(),
            ElementEnd::Heading => self.with_style_end().with_block_end(),
            ElementEnd::BlockQuote => {
                let ended = self.with_block_end();
                MarkdownPage {
                    quote_depth: if ended.quote_depth == 0 {
                        0
                    } else {
                        (ended.quote_depth - 1) as nat
                    },
                    ..ended
                }
            },
            ElementEnd::CodeBlock => MarkdownPage {
                in_code_block: false,
                ..self
            }.with_style_end().with_block_end(),
            ElementEnd::List => {
                let ended = self.with_block_end();
                MarkdownPage {
                    lists: if ended.lists.len() == 0 {
                        ended.lists
                    } else {
                        ended.lists.drop_last()
                    },
                    ..ended
                }
            },
            ElementEnd::Emphasis | ElementEnd::Strong | ElementEnd::Strikethrough => {
                self.with_style_end()
            },
            ElementEnd::Link => {
                let unstyled = self.with_style_end();
                if unstyled.links.len() == 0 {
                    unstyled
                } else {
                    let link = unstyled.links.last();
                    let closed = MarkdownPage { links: unstyled.links.drop_last(), ..unstyled };
                    if link.destination.len() > 0 && link.label != link.destination {
                        closed.with_span(" ("@ + link.destination + ")"@, dim_style())
                    } else {
                        closed
                    }
                }
            },
            ElementEnd::Image => self.with_text("]"@),
        }
    }

    pub open spec fn after_leaf(self, leaf: Leaf<Seq<char>>) -> MarkdownPage {
        match leaf {
            Leaf::Text(text) => if self.in_code_block {
                self.with_code_text(text)
            } else {
                self.with_text(text)
            },
            Leaf::Code(text) => self.with_style(
                Style { fg: Some(Color::Yellow), ..self.style },
            ).with_text(text).with_style_end(),
            Leaf::SoftBreak => self.with_text(" "@),
            Leaf::HardBreak => self.with_line_end().with_quote_prefix(),
            Leaf::Rule => self.with_block_start(false).with_span(
                "───"@,
                dim_style(),
            ).with_block_end(),
            Leaf::TaskListMarker(checked) => self.with_text(
                if checked {
                    "[x] "@
                } else {
                    "[ ] "@
                },
            ),
            Leaf::FootnoteReference(label) => self.with_text("["@ + label + "]"@),
        }
    }

    /// The page after one event.
    pub open spec fn after(self, event: MarkdownEvent<Seq<char>>) -> MarkdownPage {
        match event {
            MarkdownEvent::Block(start) => self.after_block_start(start),
            MarkdownEvent::Inline(start) => self.after_inline_start(start),
            MarkdownEvent::End(end) => self.after_end(end),
            MarkdownEvent::Leaf(leaf) => self.after_leaf(leaf),
            MarkdownEvent::Markup(markup) => self.with_text(markup.source()),
            MarkdownEvent::Other => self,
        }
    }

    /// The page after a whole document.
    pub open spec fn after_all(self, events: Seq<MarkdownEvent<Seq<char>>>) -> MarkdownPage
        decreases events.len(),
    {
        if events.len() == 0 {
            self
        } else {
            self.after_all(events.drop_last()).after(events.last())
        }
    }

    /// The lines shown at the end: the last one ended, empty ones at the end left out.
    pub open spec fn finished(self) -> Seq<Seq<SpanView>> {
        without_trailing_blanks(self.with_block_end().lines)
    }
}

/// The lines up to the last one that holds anything.
pub open spec fn without_trailing_blanks(lines: Seq<Seq<SpanView>>) -> Seq<Seq<SpanView>>
    decreases lines.len(),
{
    if lines.len() > 0 && lines.last().len() == 0 {
        without_trailing_blanks(lines.drop_last())
    } else {
        lines
    }
}

impl MarkdownBuilder {
    /// The state of this builder.
    pub open spec fn page(&self) -> MarkdownPage {
        MarkdownPage {
            lines: self.lines.deep_view(),
            current: self.current.deep_view(),
            style: self.style,
            style_stack: self.style_stack@,
            lists: self.lists@,
            quote_depth: self.quote_depth as nat,
            in_code_block: self.in_code_block,
            links: self.links.deep_view(),
        }
    }

    /// Starts a blank page.
    pub fn new() -> (builder: Self)
        ensures
            builder.page() == MarkdownPage::blank(),
    {
        let builder = MarkdownBuilder {
            lines: Vec::new(),
            current: Vec::new(),
            style: Style::plain(),
            style_stack: Vec::new(),
            lists: Vec::new(),
            quote_depth: 0,
            in_code_block: false,
            links: Vec::new(),
        };
        proof {
            assert(builder.lines.deep_view() =~= Seq::empty());
            assert(builder.current.deep_view() =~= Seq::empty());
            assert(builder.links.deep_view() =~= Seq::empty());
        }
        builder
    }

    fn push_span(&mut self, content: String, style: Style)
        ensures
            final(self).page() == old(self).page().with_span(content@, style),
    {
        self.current.push(Span { content, style });
        assert(self.current.deep_view() =~= old(self).current.deep_view().push(
            SpanView { content: content@, style },
        ));
    }

    fn push_text(&mut self, content: &str)
        ensures
            final(self).page() == old(self).page().with_text(content@),
    {
        let content = sanitize_markdown_source(content);
        if content.as_str().is_empty() {
            return;
        }
        if let Some(mut link) = self.links.pop() {
            link.label.push_str(&content);
            self.links.push(link);
            assert(self.links.deep_view() =~= old(self).links.deep_view().drop_last().push(
                LinkView {
                    label: old(self).links.deep_view().last().label + content@,
                    ..old(self).links.deep_view().last()
                },
            ));
        }
        let style = self.style;
        self.push_span(content, style);
    }

    fn push_quote_prefix(&mut self)
        ensures
            final(self).page() == old(self).page().with_quote_prefix(),
    {
        let depth: usize = self.quote_depth;
        let mut index: usize = 0;
        while index < depth
            invariant
                index <= depth,
                depth == old(self).quote_depth,
                self.page() == (MarkdownPage {
                    current: old(self).page().current + quote_prefix(index as nat),
                    ..old(self).page()
                }),
            decreases depth - index,
        {
            self.push_span("│ ".to_owned(), Style::dimmed());
            index += 1;
            assert(self.page().current =~= old(self).page().current + quote_prefix(index as nat));
        }
    }

    fn finish_line(&mut self)
        ensures
            final(self).page() == old(self).page().with_line_end(),
    {
        let mut spans: Vec<Span> = Vec::new();
        spans.append(&mut self.current);
        proof {
            assert(spans.deep_view() =~= old(self).current.deep_view());
            assert(self.current.deep_view() =~= Seq::empty());
        }
        self.lines.push(Line { spans });
        assert(self.lines.deep_view() =~= old(self).lines.deep_view().push(spans.deep_view()));
    }

    fn end_block(&mut self)
        ensures
            final(self).page() == old(self).page().with_block_end(),
    {
        if !self.current.is_empty() {
            self.finish_line();
        }
    }

    fn start_block(&mut self, nested: bool)
        ensures
            final(self).page() == old(self).page().with_block_start(nested),
    {
        self.end_block();
        let count: usize = self.lines.len();
        let ghost ended = self.page();
        if !nested && count > 0 && !self.lines[count - 1].spans.is_empty() {
            self.lines.push(Line { spans: Vec::new() });
            proof {
                assert(self.lines@.last().spans.deep_view() =~= Seq::<SpanView>::empty());
                assert(self.lines.deep_view() =~= ended.lines.push(Seq::empty()));
            }
        }
        self.push_quote_prefix();
    }

    fn push_style(&mut self, style: Style)
        ensures
            final(self).page() == old(self).page().with_style(style),
    {
        let before = self.style;
        self.style_stack.push(before);
        self.style = style;
    }

    fn pop_style(&mut self)
        ensures
            final(self).page() == old(self).page().with_style_end(),
    {
        self.style = match self.style_stack.pop() {
            Some(style) => style,
            None => Style::plain(),
        };
        assert(old(self).style_stack@.len() == 0 ==> self.style_stack@ =~= old(self).style_stack@);
    }

    fn append_code_text(&mut self, text: &str)
        ensures
            final(self).page() == old(self).page().with_code_text(text@),
    {
        let characters = chars_of(text);
        let mut start: usize = 0;
        let mut end: usize = 0;
        assert(characters@.subrange(0, characters@.len() as int) =~= text@);
        while end < characters.len()
            invariant
                start <= end <= characters@.len(),
                forall|i: int| start <= i < end ==> #[trigger] characters@[i] != '\n',
                old(self).page().with_code_text(text@) == self.page().with_code_text(
                    characters@.subrange(start as int, characters@.len() as int),
                ),
            decreases characters@.len() - end,
        {
            if characters[end] == '\n' {
                let ghost rest = characters@.subrange(start as int, characters@.len() as int);
                proof {
                    assert forall|i: int| 0 <= i < end - start implies #[trigger] rest[i]
                        != '\n' by {
                        assert(rest[i] == characters@[i + start]);
                    }
                    lemma_length_before(rest, '\n', end - start);
                    assert(rest.take(end - start) =~= characters@.subrange(
                        start as int,
                        end as int,
                    ));
                    assert(rest.skip(end - start + 1) =~= characters@.subrange(
                        end + 1,
                        characters@.len() as int,
                    ));
                }
                let line = string_from(&characters, start, end);
                self.push_text(&line);
                self.finish_line();
                self.push_quote_prefix();
                start = end + 1;
            }
            end += 1;
        }
        proof {
            let rest = characters@.subrange(start as int, characters@.len() as int);
            assert forall|i: int| 0 <= i < rest.len() implies #[trigger] rest[i] != '\n' by {
                assert(rest[i] == characters@[i + start]);
            }
            lemma_length_before(rest, '\n', rest.len() as int);
        }
        let line = string_from(&characters, start, end);
        self.push_text(&line);
    }

    fn start_of_block(&mut self, start: &BlockStart<String>)
        requires
            start is BlockQuote ==> old(self).quote_depth < usize::MAX,
            start is Item ==> (old(self).lists@.len() > 0 && old(self).lists@.last() is Some
                ==> old(self).lists@.last()->0 < u64::MAX),
        ensures
            final(self).page() == old(self).page().after_block_start(start.deep_view()),
    {
        match start {
            BlockStart::Paragraph => {
                if self.current.is_empty() {
                    let nested = !self.lists.is_empty();
                    self.start_block(nested);
                }
            },
            BlockStart::Heading => {
                self.start_block(false);
                let style = self.style.with_bold();
                self.push_style(style);
            },
            BlockStart::BlockQuote => {
                self.quote_depth += 1;
            },
            BlockStart::CodeBlock(language) => {
                self.start_block(false);
                let style = self.style.with_fg(Color::Yellow);
                self.push_style(style);
                if let Some(language) = language {
                    if !language.as_str().is_empty() {
                        let mut dimmed = self.style;
                        dimmed.dim = true;
                        self.push_style(dimmed);
                        self.push_text(language);
                        self.pop_style();
                        self.finish_line();
                        self.push_quote_prefix();
                    }
                }
                self.in_code_block = true;
            },
            BlockStart::List(first) => {
                let nested = !self.lists.is_empty();
                self.start_block(nested);
                self.lists.push(*first);
            },
            BlockStart::Item => {
                self.end_block();
                self.push_quote_prefix();
                let indent = spaces(if self.lists.len() == 0 { 0 } else { self.lists.len() - 1 });
                self.push_text(&indent);
                let ghost indented = self.page();
                let marker = match self.lists.pop() {
                    Some(Some(number)) => {
                        let mut marker = decimal_text(number);
                        marker.push_str(". ");
                        self.lists.push(Some(number + 1));
                        marker
                    },
                    Some(None) => {
                        self.lists.push(None);
                        assert(self.lists@ =~= indented.lists);
                        "• ".to_owned()
                    },
                    None => "• ".to_owned(),
                };
                self.push_text(&marker);
            },
        }
    }

    fn start_of_inline(&mut self, start: &InlineStart<String>)
        ensures
            final(self).page() == old(self).page().after_inline_start(start.deep_view()),
    {
        let mut style = self.style;
        match start {
            InlineStart::Emphasis => {
                style.italic = true;
                self.push_style(style);
            },
            InlineStart::Strong => {
                style.bold = true;
                self.push_style(style);
            },
            InlineStart::Strikethrough => {
                style.crossed_out = true;
                self.push_style(style);
            },
            InlineStart::Link(destination) => {
                style.underlined = true;
                self.push_style(style);
                let link = LinkContext {
                    destination: sanitize_markdown_source(destination),
                    label: String::new(),
                };
                self.links.push(link);
                assert(self.links.deep_view() =~= old(self).links.deep_view().push(
                    link.deep_view(),
                ));
            },
            InlineStart::Image => self.push_text("[image: "),
        }
    }

    fn end_of_element(&mut self, end: ElementEnd)
        ensures
            final(self).page() == old(self).page().after_end(end),
    {
        match end {
            ElementEnd::Paragraph => self.end_block(),
            ElementEnd::Heading => {
                self.pop_style();
                self.end_block();
            },
            ElementEnd::BlockQuote => {
                self.end_block();
                self.quote_depth = self.quote_depth.saturating_sub(1);
            },
            ElementEnd::CodeBlock => {
                self.in_code_block = false;
                self.pop_style();
                self.end_block();
            },
            ElementEnd::List => {
                self.end_block();
                let ghost lists = self.lists@;
                let _ = self.lists.pop();
                assert(lists.len() == 0 ==> self.lists@ =~= lists);
            },
            ElementEnd::Emphasis | ElementEnd::Strong | ElementEnd::Strikethrough => {
                self.pop_style()
            },
            ElementEnd::Link => {
                self.pop_style();
                let ghost before = self.links;
                if let Some(link) = self.links.pop() {
                    assert(self.links.deep_view() =~= before.deep_view().drop_last());
                    if !link.destination.as_str().is_empty() && link.label != link.destination {
                        let mut shown = " (".to_owned();
                        shown.push_str(&link.destination);
                        shown.push_str(")");
                        self.push_span(shown, Style::dimmed());
                    }
                }
            },
            ElementEnd::Image => self.push_text("]"),
        }
    }

    fn leaf(&mut self, leaf: &Leaf<String>)
        ensures
            final(self).page() == old(self).page().after_leaf(leaf.deep_view()),
    {
        match leaf {
            Leaf::Text(text) => {
                if self.in_code_block {
                    self.append_code_text(text);
                } else {
                    self.push_text(text);
                }
            },
            Leaf::Code(text) => {
                let style = self.style.with_fg(Color::Yellow);
                self.push_style(style);
                self.push_text(text);
                self.pop_style();
            },
            Leaf::SoftBreak => self.push_text(" "),
            Leaf::HardBreak => {
                self.finish_line();
                self.push_quote_prefix();
            },
            Leaf::Rule => {
                self.start_block(false);
                self.push_span("───".to_owned(), Style::dimmed());
                self.end_block();
            },
            Leaf::TaskListMarker(checked) => {
                self.push_text(if *checked { "[x] " } else { "[ ] " });
            },
            Leaf::FootnoteReference(label) => {
                let mut shown = "[".to_owned();
                shown.push_str(label);
                shown.push_str("]");
                self.push_text(&shown);
            },
        }
    }

    /// Adds one event to the page.
    pub fn event(&mut self, event: &MarkdownEvent<String>)
        requires
            event.deep_view() == MarkdownEvent::Block(BlockStart::<Seq<char>>::BlockQuote)
                ==> old(self).quote_depth < usize::MAX,
            event.deep_view() == MarkdownEvent::Block(BlockStart::<Seq<char>>::Item) && old(
                self,
            ).lists@.len() > 0 && old(self).lists@.last() is Some ==> old(self).lists@.last()->0
                < u64::MAX,
        ensures
            final(self).page() == old(self).page().after(event.deep_view()),
    {
        match event {
            MarkdownEvent::Block(start) => self.start_of_block(start),
            MarkdownEvent::Inline(start) => self.start_of_inline(start),
            MarkdownEvent::End(end) => self.end_of_element(*end),
            MarkdownEvent::Leaf(leaf) => self.leaf(leaf),
            MarkdownEvent::Markup(markup) => match markup {
                Markup::Html(text) | Markup::InlineHtml(text) | Markup::InlineMath(text)
                | Markup::DisplayMath(text) => self.push_text(text),
            },
            MarkdownEvent::Other => {},
        }
    }

    /// Ends the page.
    pub fn finish(self) -> (lines: Vec<Line>)
        ensures
            lines.deep_view() == self.page().finished(),
    {
        let mut builder = self;
        builder.end_block();
        let mut lines = builder.lines;
        while lines.len() > 0 && lines[lines.len() - 1].spans.is_empty()
            invariant
                without_trailing_blanks(lines.deep_view()) == self.page().finished(),
            decreases lines@.len(),
        {
            let ghost before = lines;
            let _ = lines.pop();
            proof {
                assert(before.deep_view().last().len() == 0);
                assert(lines.deep_view() =~= before.deep_view().drop_last());
            }
        }
        proof {
            if lines.deep_view().len() > 0 {
                assert(lines.deep_view().last() == lines@.last().spans.deep_view());
            }
        }
        lines
    }
}

/// A text of `2 * pairs` spaces.
fn spaces(pairs: usize) -> (text: String)
    ensures
        text@ == Seq::new(2 * pairs as nat, |i: int| ' '),
{
    let mut text = String::new();
    let mut index: usize = 0;
    while index < pairs
        invariant
            index <= pairs,
            text@ == Seq::new(2 * index as nat, |i: int| ' '),
        decreases pairs - index,
    {
        text.push(' ');
        text.push(' ');
        index += 1;
        assert(text@ =~= Seq::new(2 * index as nat, |i: int| ' '));
    }
    text
}

/// The events that `pulldown_cmark::Parser` yields for a source, with strikethrough and task lists
/// enabled and with what the page does not show left as [`MarkdownEvent::Other`].
pub uninterp spec fn markdown_events(source: Seq<char>) -> Seq<MarkdownEvent<Seq<char>>>;

/// The largest first number of an ordered list: nine decimal digits.
pub const MAX_LIST_START: u64 = 999_999_999;

/// `pulldown_cmark::Parser::new_ext`, of which this returns the opening blocks, each at the place
/// of its event. The parser reads at most nine digits of a list number, and a vector holds at most
/// `isize::MAX` bytes.
#[verifier::external_body]
fn parsed_blocks(source: &str) -> (starts: Vec<Option<BlockStart<String>>>)
    ensures
        starts@.len() == markdown_events(source@).len(),
        starts@.len() <= isize::MAX,
        forall|i: int|
            0 <= i < starts@.len() ==> match markdown_events(source@)[i] {
                MarkdownEvent::Block(start) => (#[trigger] starts@[i]) is Some
                    && starts@[i]->0.deep_view() == start,
                _ => starts@[i] is None,
            },
        forall|i: int| 0 <= i < starts@.len() ==> match #[trigger] starts@[i] {
            Some(BlockStart::List(Some(first))) => first <= MAX_LIST_START,
            _ => true,
        },
{
    let options = Options::ENABLE_STRIKETHROUGH | Options::ENABLE_TASKLISTS;
    let convert = |event| match event {
        Event::Start(Tag::Paragraph) => Some(BlockStart::Paragraph),
        Event::Start(Tag::Heading { .. }) => Some(BlockStart::Heading),
        Event::Start(Tag::BlockQuote(_)) => Some(BlockStart::BlockQuote),
        Event::Start(Tag::CodeBlock(CodeBlockKind::Fenced(language))) =>
            Some(BlockStart::CodeBlock(Some(language.to_string()))),
        Event::Start(Tag::CodeBlock(CodeBlockKind::Indented)) => Some(BlockStart::CodeBlock(None)),
        Event::Start(Tag::List(first)) => Some(BlockStart::List(first)),
        Event::Start(Tag::Item) => Some(BlockStart::Item),
        _ => None,
    };
    Parser::new_ext(source, options).map(convert).collect()
}

/// `pulldown_cmark::Parser::new_ext`, of which this returns the opening inline elements, each at
/// the place of its event.
#[verifier::external_body]
fn parsed_inlines(source: &str) -> (starts: Vec<Option<InlineStart<String>>>)
    ensures
        starts@.len() == markdown_events(source@).len(),
        forall|i: int|
            0 <= i < starts@.len() ==> match markdown_events(source@)[i] {
                MarkdownEvent::Inline(start) => (#[trigger] starts@[i]) is Some
                    && starts@[i]->0.deep_view() == start,
                _ => starts@[i] is None,
            },
{
    let options = Options::ENABLE_STRIKETHROUGH | Options::ENABLE_TASKLISTS;
    let convert = |event| match event {
        Event::Start(Tag::Emphasis) => Some(InlineStart::Emphasis),
        Event::Start(Tag::Strong) => Some(InlineStart::Strong),
        Event::Start(Tag::Strikethrough) => Some(InlineStart::Strikethrough),
        Event::Start(Tag::Link { dest_url, .. }) => Some(InlineStart::Link(dest_url.to_string())),
        Event::Start(Tag::Image { .. }) => Some(InlineStart::Image),
        _ => None,
    };
    Parser::new_ext(source, options).map(convert).collect()
}

/// `pulldown_cmark::Parser::new_ext`, of which this returns the closing elements, each at the
/// place of its event.
#[verifier::external_body]
fn parsed_ends(source: &str) -> (ends: Vec<Option<ElementEnd>>)
    ensures
        ends@.len() == markdown_events(source@).len(),
        forall|i: int|
            0 <= i < ends@.len() ==> match markdown_events(source@)[i] {
                MarkdownEvent::End(end) => (#[trigger] ends@[i]) == Some(end),
                _ => ends@[i] is None,
            },
{
    let options = Options::ENABLE_STRIKETHROUGH | Options::ENABLE_TASKLISTS;
    Parser::new_ext(source, options).map(|event| match event {
        Event::End(end) => match end {
            TagEnd::Paragraph => Some(ElementEnd::Paragraph),
            TagEnd::Heading(_) => Some(ElementEnd::Heading),
            TagEnd::BlockQuote(_) => Some(ElementEnd::BlockQuote),
            TagEnd::CodeBlock => Some(ElementEnd::CodeBlock),
            TagEnd::List(_) => Some(ElementEnd::List),
            TagEnd::Emphasis => Some(ElementEnd::Emphasis),
            TagEnd::Strong => Some(ElementEnd::Strong),
            TagEnd::Strikethrough => Some(ElementEnd::Strikethrough),
            TagEnd::Link => Some(ElementEnd::Link),
            TagEnd::Image => Some(ElementEnd::Image),
            _ => None,
        }, _ => None }).collect()
}

/// `pulldown_cmark::Parser::new_ext`, of which this returns the content without an inside, each at
/// the place of its event.
#[verifier::external_body]
fn parsed_leaves(source: &str) -> (leaves: Vec<Option<Leaf<String>>>)
    ensures
        leaves@.len() == markdown_events(source@).len(),
        forall|i: int|
            0 <= i < leaves@.len() ==> match markdown_events(source@)[i] {
                MarkdownEvent::Leaf(leaf) => (#[trigger] leaves@[i]) is Some
                    && leaves@[i]->0.deep_view() == leaf,
                _ => leaves@[i] is None,
            },
{
    let options = Options::ENABLE_STRIKETHROUGH | Options::ENABLE_TASKLISTS;
    Parser::new_ext(source, options).map(|event| match event {
        Event::Text(text) => Some(Leaf::Text(text.to_string())),
        Event::Code(text) => Some(Leaf::Code(text.to_string())),
        Event::SoftBreak => Some(Leaf::SoftBreak),
        Event::HardBreak => Some(Leaf::HardBreak),
        Event::Rule => Some(Leaf::Rule),
        Event::TaskListMarker(checked) => Some(Leaf::TaskListMarker(checked)),
        Event::FootnoteReference(text) => Some(Leaf::FootnoteReference(text.to_string())),
        _ => None,
    }).collect()
}

/// `pulldown_cmark::Parser::new_ext`, of which this returns the markup of another kind, each at the
/// place of its event.
#[verifier::external_body]
fn parsed_markup(source: &str) -> (markup: Vec<Option<Markup<String>>>)
    ensures
        markup@.len() == markdown_events(source@).len(),
        forall|i: int|
            0 <= i < markup@.len() ==> match markdown_events(source@)[i] {
                MarkdownEvent::Markup(expected) => (#[trigger] markup@[i]) is Some
                    && markup@[i]->0.deep_view() == expected,
                _ => markup@[i] is None,
            },
{
    let options = Options::ENABLE_STRIKETHROUGH | Options::ENABLE_TASKLISTS;
    Parser::new_ext(source, options).map(|event| match event {
        Event::Html(text) => Some(Markup::Html(text.to_string())),
        Event::InlineHtml(text) => Some(Markup::InlineHtml(text.to_string())),
        Event::InlineMath(text) => Some(Markup::InlineMath(text.to_string())),
        Event::DisplayMath(text) => Some(Markup::DisplayMath(text.to_string())),
        _ => None,
    }).collect()
}

/// The ordered lists of a document start low enough to number every event of it.
pub open spec fn list_starts_fit(events: Seq<MarkdownEvent<Seq<char>>>) -> bool {
    forall|i: int|
        0 <= i < events.len() ==> match #[trigger] events[i] {
            MarkdownEvent::Block(BlockStart::List(Some(first))) => first + events.len() <= u64::MAX,
            _ => true,
        }
}

/// Parses a Markdown source into its events.
pub fn parse_markdown(source: &str) -> (events: Vec<MarkdownEvent<String>>)
    ensures
        events.deep_view() == markdown_events(source@),
        list_starts_fit(events.deep_view()),
{
    let mut blocks = parsed_blocks(source);
    let mut inlines = parsed_inlines(source);
    let mut leaves = parsed_leaves(source);
    let mut markup = parsed_markup(source);
    let ends = parsed_ends(source);
    let mut events: Vec<MarkdownEvent<String>> = Vec::new();
    let count: usize = blocks.len();
    let ghost named = markdown_events(source@);
    let ghost all_blocks = blocks@;
    let ghost all_inlines = inlines@;
    let ghost all_leaves = leaves@;
    let ghost all_markup = markup@;
    let mut index: usize = 0;
    while index < count
        invariant
            index <= count,
            count == named.len(),
            named == markdown_events(source@),
            count == all_blocks.len() == all_inlines.len() == all_leaves.len() == all_markup.len(),
            count == blocks@.len() == inlines@.len() == leaves@.len() == ends@.len(),
            count == markup@.len(),
            forall|i: int| index <= i < count ==> #[trigger] blocks@[i] == all_blocks[i],
            forall|i: int| index <= i < count ==> #[trigger] inlines@[i] == all_inlines[i],
            forall|i: int| index <= i < count ==> #[trigger] leaves@[i] == all_leaves[i],
            forall|i: int| index <= i < count ==> #[trigger] markup@[i] == all_markup[i],
            forall|i: int|
                0 <= i < count ==> match named[i] {
                    MarkdownEvent::Block(start) => (#[trigger] all_blocks[i]) is Some
                        && all_blocks[i]->0.deep_view() == start,
                    _ => all_blocks[i] is None,
                },
            forall|i: int|
                0 <= i < count ==> match named[i] {
                    MarkdownEvent::Inline(start) => (#[trigger] all_inlines[i]) is Some
                        && all_inlines[i]->0.deep_view() == start,
                    _ => all_inlines[i] is None,
                },
            forall|i: int|
                0 <= i < count ==> match named[i] {
                    MarkdownEvent::Leaf(leaf) => (#[trigger] all_leaves[i]) is Some
                        && all_leaves[i]->0.deep_view() == leaf,
                    _ => all_leaves[i] is None,
                },
            forall|i: int|
                0 <= i < count ==> match named[i] {
                    MarkdownEvent::Markup(expected) => (#[trigger] all_markup[i]) is Some
                        && all_markup[i]->0.deep_view() == expected,
                    _ => all_markup[i] is None,
                },
            forall|i: int|
                0 <= i < count ==> match named[i] {
                    MarkdownEvent::End(end) => (#[trigger] ends@[i]) == Some(end),
                    _ => ends@[i] is None,
                },
            events.deep_view() == named.subrange(0, index as int),
        decreases count - index,
    {
        let ghost before = events;
        proof {
            assert(all_blocks[index as int] == blocks@[index as int]);
            assert(all_inlines[index as int] == inlines@[index as int]);
            assert(all_leaves[index as int] == leaves@[index as int]);
            assert(all_markup[index as int] == markup@[index as int]);
        }
        let event = match blocks[index].take() {
            Some(start) => MarkdownEvent::Block(start),
            None => match inlines[index].take() {
                Some(start) => MarkdownEvent::Inline(start),
                None => match leaves[index].take() {
                    Some(leaf) => MarkdownEvent::Leaf(leaf),
                    None => match markup[index].take() {
                        Some(markup) => MarkdownEvent::Markup(markup),
                        None => match ends[index] {
                            Some(end) => MarkdownEvent::End(end),
                            None => MarkdownEvent::Other,
                        },
                    },
                },
            },
        };
        assert(event.deep_view() == named[index as int]);
        events.push(event);
        index += 1;
        assert(events.deep_view() =~= before.deep_view().push(event.deep_view()));
        assert(events.deep_view() =~= named.subrange(0, index as int));
    }
    proof {
        assert(named.subrange(0, count as int) =~= named);
        assert forall|i: int| 0 <= i < named.len() implies match #[trigger] named[i] {
            MarkdownEvent::Block(BlockStart::List(Some(first))) => first + named.len() <= u64::MAX,
            _ => true,
        } by {
            assert(all_blocks[i] is Some || !(named[i] is Block));
        }
    }
    events
}

/// Every list number so far is at most `limit`.
pub open spec fn list_numbers_within(lists: Seq<Option<u64>>, limit: int) -> bool {
    forall|i: int| 0 <= i < lists.len() && (#[trigger] lists[i]) is Some ==> lists[i]->0 <= limit
}

proof fn lemma_code_text_keeps_counters(page: MarkdownPage, text: Seq<char>)
    ensures
        page.with_code_text(text).lists == page.lists,
        page.with_code_text(text).quote_depth == page.quote_depth,
    decreases text.len(),
{
    let length = length_before(text, '\n');
    if length < text.len() {
        lemma_code_text_keeps_counters(
            page.with_text(text.take(length as int)).with_line_end().with_quote_prefix(),
            text.skip(length as int + 1),
        );
    }
}

proof fn lemma_event_counts_at_most_one(
    page: MarkdownPage,
    event: MarkdownEvent<Seq<char>>,
    limit: int,
)
    requires
        limit < u64::MAX,
        list_numbers_within(page.lists, limit),
        match event {
            MarkdownEvent::Block(BlockStart::List(Some(first))) => first <= limit + 1,
            _ => true,
        },
    ensures
        list_numbers_within(page.after(event).lists, limit + 1),
        page.after(event).quote_depth <= page.quote_depth + 1,
{
    match event {
        MarkdownEvent::Block(start) => lemma_block_counts_at_most_one(page, start, limit),
        MarkdownEvent::Inline(_) => {},
        MarkdownEvent::End(_) => {},
        MarkdownEvent::Leaf(Leaf::Text(text)) => lemma_code_text_keeps_counters(page, text),
        MarkdownEvent::Leaf(_) => {},
        MarkdownEvent::Markup(_) => {},
        MarkdownEvent::Other => {},
    }
}

proof fn lemma_block_counts_at_most_one(
    page: MarkdownPage,
    start: BlockStart<Seq<char>>,
    limit: int,
)
    requires
        limit < u64::MAX,
        list_numbers_within(page.lists, limit),
        match start {
            BlockStart::List(Some(first)) => first <= limit + 1,
            _ => true,
        },
    ensures
        list_numbers_within(page.after_block_start(start).lists, limit + 1),
        page.after_block_start(start).quote_depth <= page.quote_depth + 1,
{
    let after = page.after_block_start(start);
    match start {
        BlockStart::List(first) => {
            assert(after.lists == page.lists.push(first));
        },
        BlockStart::Item => {
            let indented = page.with_block_end().with_quote_prefix().with_text(
                item_indent(page.lists.len()),
            );
            assert(indented.lists == page.lists);
            assert(after.lists == indented.with_item_counted().lists);
        },
        _ => {
            assert(after.lists == page.lists);
        },
    }
}

impl MarkdownBuilder {
    /// Turns the events of a whole document into lines.
    pub fn collect(self, events: &Vec<MarkdownEvent<String>>) -> (lines: Vec<Line>)
        requires
            list_starts_fit(events.deep_view()),
            list_numbers_within(self.lists@, u64::MAX - events@.len()),
            self.quote_depth + events@.len() <= usize::MAX,
        ensures
            lines.deep_view() == self.page().after_all(events.deep_view()).finished(),
    {
        let mut builder = self;
        let mut index: usize = 0;
        while index < events.len()
            invariant
                index <= events@.len(),
                list_starts_fit(events.deep_view()),
                list_numbers_within(builder.lists@, u64::MAX - events@.len() + index),
                builder.quote_depth + events@.len() <= usize::MAX + index,
                builder.page() == self.page().after_all(
                    events.deep_view().subrange(0, index as int),
                ),
            decreases events@.len() - index,
        {
            let ghost before = builder.page();
            proof {
                let seen = events.deep_view().subrange(0, index + 1);
                assert(seen.drop_last() =~= events.deep_view().subrange(0, index as int));
                assert(events.deep_view()[index as int] == events@[index as int].deep_view());
                lemma_event_counts_at_most_one(
                    before,
                    events@[index as int].deep_view(),
                    u64::MAX - events@.len() + index,
                );
            }
            builder.event(&events[index]);
            index += 1;
        }
        assert(events.deep_view().subrange(0, index as int) =~= events.deep_view());
        builder.finish()
    }
}

/// The lines that show the events of a document.
pub open spec fn markdown_lines(events: Seq<MarkdownEvent<Seq<char>>>) -> Seq<Seq<SpanView>> {
    MarkdownPage::blank().after_all(events).finished()
}

/// Shows an untrusted Markdown source as styled lines.
pub fn markdown_text(source: &str) -> (lines: Vec<Line>)
    ensures
        lines.deep_view() == markdown_lines(markdown_events(sanitized_markdown(source@))),
{
    let source = sanitize_markdown_source(source);
    let events = parse_markdown(&source);
    let builder = MarkdownBuilder::new();
    proof {
        assert(builder.page().quote_depth == 0);
        assert(events.len() <= usize::MAX);
    }
    builder.collect(&events)
}

/// Spans that cannot control the terminal.
pub open spec fn spans_are_safe(spans: Seq<SpanView>) -> bool {
    forall|i: int| 0 <= i < spans.len() ==> is_terminal_safe((#[trigger] spans[i]).content)
}

/// Lines that cannot control the terminal.
pub open spec fn lines_are_safe(lines: Seq<Seq<SpanView>>) -> bool {
    forall|i: int| 0 <= i < lines.len() ==> spans_are_safe(#[trigger] lines[i])
}

/// A page that cannot control the terminal, now or when its open links close.
pub open spec fn page_is_safe(page: MarkdownPage) -> bool {
    &&& lines_are_safe(page.lines)
    &&& spans_are_safe(page.current)
    &&& forall|i: int|
        0 <= i < page.links.len() ==> is_terminal_safe((#[trigger] page.links[i]).destination)
}

proof fn lemma_text_keeps_page_safe(page: MarkdownPage, text: Seq<char>)
    requires
        page_is_safe(page),
    ensures
        page_is_safe(page.with_text(text)),
{
    lemma_sanitized_markdown_is_terminal_safe(text);
}

proof fn lemma_quote_prefix_keeps_page_safe(page: MarkdownPage)
    requires
        page_is_safe(page),
    ensures
        page_is_safe(page.with_quote_prefix()),
{
    reveal_strlit("│ ");
    assert(is_terminal_safe("│ "@));
}

proof fn lemma_block_start_keeps_page_safe(page: MarkdownPage, nested: bool)
    requires
        page_is_safe(page),
    ensures
        page_is_safe(page.with_block_start(nested)),
{
    let ended = page.with_block_end();
    assert(page_is_safe(ended));
    let parted = MarkdownPage { lines: ended.lines.push(Seq::empty()), ..ended };
    assert(page_is_safe(parted));
    lemma_quote_prefix_keeps_page_safe(ended);
    lemma_quote_prefix_keeps_page_safe(parted);
}

proof fn lemma_code_text_keeps_page_safe(page: MarkdownPage, text: Seq<char>)
    requires
        page_is_safe(page),
    ensures
        page_is_safe(page.with_code_text(text)),
    decreases text.len(),
{
    let length = length_before(text, '\n');
    if length < text.len() {
        let shown = page.with_text(text.take(length as int));
        lemma_text_keeps_page_safe(page, text.take(length as int));
        lemma_quote_prefix_keeps_page_safe(shown.with_line_end());
        lemma_code_text_keeps_page_safe(
            shown.with_line_end().with_quote_prefix(),
            text.skip(length as int + 1),
        );
    } else {
        lemma_text_keeps_page_safe(page, text);
    }
}

proof fn lemma_concat_is_safe(left: Seq<char>, right: Seq<char>)
    requires
        is_terminal_safe(left),
        is_terminal_safe(right),
    ensures
        is_terminal_safe(left + right),
{
}

/// No event makes a safe page unsafe.
pub proof fn lemma_event_keeps_page_safe(page: MarkdownPage, event: MarkdownEvent<Seq<char>>)
    requires
        page_is_safe(page),
    ensures
        page_is_safe(page.after(event)),
{
    lemma_block_start_keeps_page_safe(page, false);
    lemma_block_start_keeps_page_safe(page, true);
    match event {
        MarkdownEvent::Block(BlockStart::CodeBlock(Some(language))) => {
            let started = page.with_block_start(false);
            let code = started.with_style(Style { fg: Some(Color::Yellow), ..started.style });
            let styled = code.with_style(Style { dim: true, ..code.style });
            lemma_text_keeps_page_safe(styled, language);
            let titled = styled.with_text(language).with_style_end().with_line_end();
            assert(page_is_safe(titled));
            lemma_quote_prefix_keeps_page_safe(titled);
        },
        MarkdownEvent::Block(BlockStart::Item) => {
            let ended = page.with_block_end();
            assert(page_is_safe(ended));
            lemma_quote_prefix_keeps_page_safe(ended);
            let quoted = ended.with_quote_prefix();
            lemma_text_keeps_page_safe(quoted, item_indent(page.lists.len()));
            let indented = quoted.with_text(item_indent(page.lists.len()));
            assert(page_is_safe(indented.with_item_counted()));
            lemma_text_keeps_page_safe(indented.with_item_counted(), indented.item_marker());
        },
        MarkdownEvent::Inline(InlineStart::Link(destination)) => {
            lemma_sanitized_markdown_is_terminal_safe(destination);
        },
        MarkdownEvent::Inline(InlineStart::Image) => {
            lemma_text_keeps_page_safe(page, "[image: "@);
        },
        MarkdownEvent::End(ElementEnd::Image) => {
            lemma_text_keeps_page_safe(page, "]"@);
        },
        MarkdownEvent::End(ElementEnd::Link) => {
            reveal_strlit(" (");
            reveal_strlit(")");
            let unstyled = page.with_style_end();
            if unstyled.links.len() > 0 {
                let link = unstyled.links.last();
                assert(is_terminal_safe(page.links[page.links.len() - 1].destination));
                lemma_concat_is_safe(" ("@, link.destination);
                lemma_concat_is_safe(" ("@ + link.destination, ")"@);
            }
        },
        MarkdownEvent::Leaf(Leaf::Text(text)) => {
            lemma_text_keeps_page_safe(page, text);
            lemma_code_text_keeps_page_safe(page, text);
        },
        MarkdownEvent::Leaf(Leaf::Code(text)) => {
            lemma_text_keeps_page_safe(
                page.with_style(Style { fg: Some(Color::Yellow), ..page.style }),
                text,
            );
        },
        MarkdownEvent::Leaf(Leaf::SoftBreak) => lemma_text_keeps_page_safe(page, " "@),
        MarkdownEvent::Leaf(Leaf::HardBreak) => {
            lemma_quote_prefix_keeps_page_safe(page.with_line_end());
        },
        MarkdownEvent::Leaf(Leaf::Rule) => {
            reveal_strlit("───");
            assert(is_terminal_safe("───"@));
        },
        MarkdownEvent::Leaf(Leaf::TaskListMarker(_)) => {
            lemma_text_keeps_page_safe(page, "[x] "@);
            lemma_text_keeps_page_safe(page, "[ ] "@);
        },
        MarkdownEvent::Markup(markup) => lemma_text_keeps_page_safe(page, markup.source()),
        MarkdownEvent::Leaf(Leaf::FootnoteReference(label)) => {
            lemma_text_keeps_page_safe(page, "["@ + label + "]"@);
        },
        _ => {},
    }
}

/// Whatever a document holds, the lines that show it cannot control the terminal.
pub proof fn lemma_markdown_lines_are_terminal_safe(events: Seq<MarkdownEvent<Seq<char>>>)
    ensures
        page_is_safe(MarkdownPage::blank().after_all(events)),
        lines_are_safe(markdown_lines(events)),
    decreases events.len(),
{
    if events.len() > 0 {
        lemma_markdown_lines_are_terminal_safe(events.drop_last());
        lemma_event_keeps_page_safe(
            MarkdownPage::blank().after_all(events.drop_last()),
            events.last(),
        );
    }
    lemma_dropped_blanks_keep_lines_safe(
        MarkdownPage::blank().after_all(events).with_block_end().lines,
    );
}

proof fn lemma_dropped_blanks_keep_lines_safe(lines: Seq<Seq<SpanView>>)
    requires
        lines_are_safe(lines),
    ensures
        lines_are_safe(without_trailing_blanks(lines)),
    decreases lines.len(),
{
    if lines.len() > 0 && lines.last().len() == 0 {
        lemma_dropped_blanks_keep_lines_safe(lines.drop_last());
    }
}

/// The lines that show a document never end in an empty one.
pub proof fn lemma_markdown_lines_end_in_content(events: Seq<MarkdownEvent<Seq<char>>>)
    ensures
        markdown_lines(events).len() > 0 ==> markdown_lines(events).last().len() > 0,
{
    lemma_no_trailing_blank(MarkdownPage::blank().after_all(events).with_block_end().lines);
}

proof fn lemma_no_trailing_blank(lines: Seq<Seq<SpanView>>)
    ensures
        without_trailing_blanks(lines).len() > 0 ==> without_trailing_blanks(lines).last().len()
            > 0,
    decreases lines.len(),
{
    if lines.len() > 0 && lines.last().len() == 0 {
        lemma_no_trailing_blank(lines.drop_last());
    }
}

proof fn lemma_line_text_joins(left: Seq<SpanView>, right: Seq<SpanView>)
    ensures
        line_text(left + right) == line_text(left) + line_text(right),
    decreases right.len(),
{
    if right.len() == 0 {
        assert(left + right =~= left);
        assert(line_text(left) + line_text(right) =~= line_text(left));
    } else {
        assert((left + right).drop_last() =~= left + right.drop_last());
        lemma_line_text_joins(left, right.drop_last());
        assert(line_text(left + right) =~= line_text(left) + line_text(right));
    }
}

proof fn lemma_line_text_of_one(span: SpanView)
    ensures
        line_text(seq![span]) == span.content,
{
    reveal_with_fuel(line_text, 2);
    assert(seq![span].drop_last() =~= Seq::empty());
    assert(Seq::<char>::empty() + span.content =~= span.content);
}

/// The bars before a line that is quoted some times.
pub open spec fn bars(depth: nat) -> Seq<char>
    decreases depth,
{
    if depth == 0 {
        Seq::empty()
    } else {
        bars((depth - 1) as nat) + "│ "@
    }
}

proof fn lemma_bars_open_quoted_lines(depth: nat)
    ensures
        line_text(quote_prefix(depth)) == bars(depth),
    decreases depth,
{
    if depth > 0 {
        let less = (depth - 1) as nat;
        lemma_bars_open_quoted_lines(less);
        assert(quote_prefix(depth).drop_last() =~= quote_prefix(less));
    } else {
        assert(quote_prefix(depth) =~= Seq::empty());
    }
}

proof fn lemma_text_grows_the_line(page: MarkdownPage, text: Seq<char>)
    ensures
        line_text(page.with_text(text).current) == line_text(page.current) + sanitized_markdown(
            text,
        ),
        page.with_text(text).lines == page.lines,
        page.with_text(text).quote_depth == page.quote_depth,
        page.with_text(text).style == page.style,
        page.with_text(text).style_stack == page.style_stack,
        page.with_text(text).lists == page.lists,
        page.with_text(text).in_code_block == page.in_code_block,
        sanitized_markdown(text).len() > 0 ==> page.with_text(text).current.len()
            == page.current.len() + 1 && page.with_text(text).current.last().style == page.style,
        page.current.is_prefix_of(page.with_text(text).current),
{
    let shown = sanitized_markdown(text);
    if shown.len() == 0 {
        assert(line_text(page.current) + shown =~= line_text(page.current));
    } else {
        let span = SpanView { content: shown, style: page.style };
        assert(page.current.push(span) =~= page.current + seq![span]);
        lemma_line_text_joins(page.current, seq![span]);
        lemma_line_text_of_one(span);
    }
}

/// Pieces of text with a newline between each and the next.
pub open spec fn joined_lines(pieces: Seq<Seq<char>>) -> Seq<char>
    decreases pieces.len(),
{
    if pieces.len() == 0 {
        Seq::empty()
    } else if pieces.len() == 1 {
        pieces[0]
    } else {
        pieces[0] + seq!['\n'] + joined_lines(pieces.drop_first())
    }
}

/// Code keeps its lines: code of some lines ends one line of the page for each newline in it, each
/// with what the code has there, and leaves the last one open. The first stands behind what the
/// page had on its line, the others behind the bars of the quotation.
pub proof fn lemma_code_keeps_its_lines(page: MarkdownPage, pieces: Seq<Seq<char>>)
    requires
        pieces.len() > 0,
        forall|i: int, j: int|
            0 <= i < pieces.len() && 0 <= j < pieces[i].len() ==> #[trigger] pieces[i][j] != '\n',
    ensures
        ({
            let after = page.with_code_text(joined_lines(pieces));
            let last = pieces.len() - 1;
            &&& after.lines.len() == page.lines.len() + last
            &&& page.lines.is_prefix_of(after.lines)
            &&& forall|i: int|
                0 <= i < last ==> line_text(#[trigger] after.lines[page.lines.len() + i]) == (if i
                    == 0 {
                    line_text(page.current)
                } else {
                    bars(page.quote_depth)
                }) + sanitized_markdown(pieces[i])
            &&& line_text(after.current) == (if last == 0 {
                line_text(page.current)
            } else {
                bars(page.quote_depth)
            }) + sanitized_markdown(pieces[last])
            &&& after.quote_depth == page.quote_depth
            &&& after.style == page.style
            &&& after.style_stack == page.style_stack
            &&& after.lists == page.lists
            &&& after.in_code_block == page.in_code_block
        }),
    decreases pieces.len(),
{
    let text = joined_lines(pieces);
    let first = pieces[0];
    let shown = page.with_text(first);
    lemma_text_grows_the_line(page, first);
    if pieces.len() == 1 {
        assert forall|j: int| 0 <= j < text.len() implies #[trigger] text[j] != '\n' by {
            assert(pieces[0][j] != '\n');
        }
        lemma_length_before(text, '\n', text.len() as int);
    } else {
        let others = pieces.drop_first();
        let rest = joined_lines(others);
        assert forall|j: int| 0 <= j < first.len() implies #[trigger] text[j] != '\n' by {
            assert(pieces[0][j] != '\n');
        }
        lemma_length_before(text, '\n', first.len() as int);
        assert(text.take(first.len() as int) =~= first);
        assert(text.skip(first.len() as int + 1) =~= rest);
        let next = shown.with_line_end().with_quote_prefix();
        assert(next.current =~= quote_prefix(page.quote_depth));
        lemma_bars_open_quoted_lines(page.quote_depth);
        assert forall|i: int, j: int|
            0 <= i < others.len() && 0 <= j < others[i].len() implies #[trigger] others[i][j]
            != '\n' by {
            assert(pieces[i + 1][j] != '\n');
        }
        lemma_code_keeps_its_lines(next, others);
        let after = page.with_code_text(text);
        assert(after == next.with_code_text(rest));
        let last = pieces.len() - 1;
        assert(next.lines.len() == page.lines.len() + 1);
        assert(next.lines[page.lines.len() as int] == shown.current);
        assert(after.lines[page.lines.len() as int] == next.lines[page.lines.len() as int]);
        assert forall|i: int| 0 <= i < last implies line_text(
            #[trigger] after.lines[page.lines.len() + i],
        ) == (if i == 0 {
            line_text(page.current)
        } else {
            bars(page.quote_depth)
        }) + sanitized_markdown(pieces[i]) by {
            if i > 0 {
                assert(after.lines[page.lines.len() + i] == after.lines[next.lines.len() + (i
                    - 1)]);
                assert(others[i - 1] == pieces[i]);
            }
        }
        assert forall|i: int| 0 <= i < page.lines.len() implies #[trigger] after.lines[i]
            == page.lines[i] by {
            assert(next.lines[i] == page.lines[i]);
        }
        assert(others[last - 1] == pieces[last]);
    }
}

/// Code that cannot control the terminal stands on the page letter by letter, line by line.
pub proof fn lemma_safe_code_is_shown_as_it_is(page: MarkdownPage, pieces: Seq<Seq<char>>)
    requires
        pieces.len() > 0,
        page.current.len() == 0,
        page.quote_depth == 0,
        forall|i: int, j: int|
            0 <= i < pieces.len() && 0 <= j < pieces[i].len() ==> #[trigger] pieces[i][j] != '\n'
                && !is_control(pieces[i][j]),
    ensures
        ({
            let after = page.with_code_text(joined_lines(pieces));
            let last = pieces.len() - 1;
            &&& after.lines.len() == page.lines.len() + last
            &&& forall|i: int|
                0 <= i < last ==> line_text(#[trigger] after.lines[page.lines.len() + i])
                    == pieces[i]
            &&& line_text(after.current) == pieces[last]
        }),
{
    lemma_code_keeps_its_lines(page, pieces);
    assert(bars(0) =~= Seq::empty());
    assert forall|i: int| 0 <= i < pieces.len() implies #[trigger] sanitized_markdown(pieces[i])
        == pieces[i] && Seq::<char>::empty() + pieces[i] == pieces[i] by {
        assert forall|j: int| 0 <= j < pieces[i].len() implies !is_control(
            #[trigger] pieces[i][j],
        ) || pieces[i][j] == '\n' by {}
        lemma_sanitizing_keeps_safe_text(pieces[i]);
        assert(Seq::<char>::empty() + pieces[i] =~= pieces[i]);
    }
    let after = page.with_code_text(joined_lines(pieces));
    let last = pieces.len() - 1;
    assert forall|i: int| 0 <= i < last implies line_text(
        #[trigger] after.lines[page.lines.len() + i],
    ) == pieces[i] by {
        assert(sanitized_markdown(pieces[i]) == pieces[i]);
    }
    assert(sanitized_markdown(pieces[last]) == pieces[last]);
}

/// A text, raw markup and code in a line stand on the line behind what it holds; code is yellow,
/// all else in the style at hand.
#[verifier::spinoff_prover]
#[verifier::rlimit(40)]
pub proof fn lemma_inline_content_is_shown_in_order(
    page: MarkdownPage,
    text: Seq<char>,
    markup: Markup<Seq<char>>,
)
    ensures
        ({
            let shown = page.after(MarkdownEvent::Leaf(Leaf::Text(text)));
            !page.in_code_block ==> line_text(shown.current) == line_text(page.current)
                + sanitized_markdown(text) && shown.lines == page.lines && shown.style == page.style
                && (sanitized_markdown(text).len() > 0 ==> shown.current.last().style == page.style)
        }),
        page.in_code_block ==> page.after(MarkdownEvent::Leaf(Leaf::Text(text)))
            == page.with_code_text(text),
        ({
            let shown = page.after(MarkdownEvent::Leaf(Leaf::Code(text)));
            &&& line_text(shown.current) == line_text(page.current) + sanitized_markdown(text)
            &&& shown.lines == page.lines && shown.style == page.style && shown.style_stack
                == page.style_stack
            &&& sanitized_markdown(text).len() > 0 ==> shown.current.last().style.fg == Some(
                Color::Yellow,
            )
        }),
        ({
            let shown = page.after(MarkdownEvent::Markup(markup));
            let source = match markup {
                Markup::Html(source) => source,
                Markup::InlineHtml(source) => source,
                Markup::InlineMath(source) => source,
                Markup::DisplayMath(source) => source,
            };
            line_text(shown.current) == line_text(page.current) + sanitized_markdown(source)
                && shown.lines == page.lines
        }),
{
    lemma_text_grows_the_line(page, text);
    lemma_text_grows_the_line(page, markup.source());
    let code = page.with_style(Style { fg: Some(Color::Yellow), ..page.style });
    lemma_text_grows_the_line(code, text);
    assert(code.style_stack.drop_last() =~= page.style_stack);
}

proof fn lemma_safe_words_grow_the_line(page: MarkdownPage, words: Seq<char>)
    requires
        is_terminal_safe(words),
    ensures
        line_text(page.with_text(words).current) == line_text(page.current) + words,
{
    lemma_sanitizing_keeps_safe_text(words);
    lemma_text_grows_the_line(page, words);
}

/// A soft break is a blank; tasks, footnotes and images are told in words of their own.
pub proof fn lemma_inline_marks_are_told_in_words(page: MarkdownPage, text: Seq<char>)
    ensures
        line_text(page.after(MarkdownEvent::Leaf(Leaf::SoftBreak)).current) == line_text(
            page.current,
        ) + " "@,
        line_text(page.after(MarkdownEvent::Leaf(Leaf::TaskListMarker(true))).current)
            == line_text(page.current) + "[x] "@,
        line_text(page.after(MarkdownEvent::Leaf(Leaf::TaskListMarker(false))).current)
            == line_text(page.current) + "[ ] "@,
        line_text(page.after(MarkdownEvent::Leaf(Leaf::FootnoteReference(text))).current)
            == line_text(page.current) + sanitized_markdown("["@ + text + "]"@),
        line_text(page.after(MarkdownEvent::Inline(InlineStart::Image)).current) == line_text(
            page.current,
        ) + "[image: "@,
        line_text(page.after(MarkdownEvent::End(ElementEnd::Image)).current) == line_text(
            page.current,
        ) + "]"@,
{
    assert(is_terminal_safe(" "@)) by {
        reveal_strlit(" ");
    }
    assert(is_terminal_safe("[x] "@)) by {
        reveal_strlit("[x] ");
    }
    assert(is_terminal_safe("[ ] "@)) by {
        reveal_strlit("[ ] ");
    }
    assert(is_terminal_safe("[image: "@)) by {
        reveal_strlit("[image: ");
    }
    assert(is_terminal_safe("]"@)) by {
        reveal_strlit("]");
    }
    lemma_safe_words_grow_the_line(page, " "@);
    lemma_safe_words_grow_the_line(page, "[x] "@);
    lemma_safe_words_grow_the_line(page, "[ ] "@);
    lemma_safe_words_grow_the_line(page, "[image: "@);
    lemma_safe_words_grow_the_line(page, "]"@);
    lemma_text_grows_the_line(page, "["@ + text + "]"@);
}

/// Emphasis is italic, strong emphasis bold, struck text crossed out and a link underlined, each on
/// top of the style at hand and of nothing else; where the element ends, the style is as before.
pub proof fn lemma_styles_hold_within_their_element(page: MarkdownPage, destination: Seq<char>)
    ensures
        ({
            let italic = page.after(MarkdownEvent::Inline(InlineStart::Emphasis));
            &&& italic.style == (Style { italic: true, ..page.style })
            &&& italic.current == page.current && italic.lines == page.lines
            &&& italic.after(MarkdownEvent::End(ElementEnd::Emphasis)) == page
        }),
        ({
            let bold = page.after(MarkdownEvent::Inline(InlineStart::Strong));
            &&& bold.style == (Style { bold: true, ..page.style })
            &&& bold.after(MarkdownEvent::End(ElementEnd::Strong)) == page
        }),
        ({
            let struck = page.after(MarkdownEvent::Inline(InlineStart::Strikethrough));
            &&& struck.style == (Style { crossed_out: true, ..page.style })
            &&& struck.after(MarkdownEvent::End(ElementEnd::Strikethrough)) == page
        }),
        ({
            let link = page.after(MarkdownEvent::Inline(InlineStart::Link(destination)));
            &&& link.style == (Style { underlined: true, ..page.style })
            &&& link.links.len() == page.links.len() + 1
            &&& link.links.last().destination == sanitized_markdown(destination)
            &&& link.links.last().label.len() == 0
            &&& link.current == page.current
        }),
{
    let italic = page.after(MarkdownEvent::Inline(InlineStart::Emphasis));
    assert(italic.style_stack.drop_last() =~= page.style_stack);
}

/// A link shows where it leads behind its label, in brackets and dimmed, unless the label says so
/// already or it leads nowhere.
pub proof fn lemma_links_show_where_they_lead(page: MarkdownPage)
    requires
        page.links.len() > 0,
    ensures
        ({
            let after = page.after(MarkdownEvent::End(ElementEnd::Link));
            let link = page.links.last();
            &&& after.lines == page.lines
            &&& after.links == page.links.drop_last()
            &&& link.destination.len() > 0 && link.label != link.destination ==> line_text(
                after.current,
            ) == line_text(page.current) + " ("@ + link.destination + ")"@
                && after.current.last().style.dim
            &&& link.destination.len() == 0 || link.label == link.destination ==> after.current
                == page.current
        }),
{
    let link = page.links.last();
    let span = SpanView { content: " ("@ + link.destination + ")"@, style: dim_style() };
    assert(page.current.push(span) =~= page.current + seq![span]);
    lemma_line_text_joins(page.current, seq![span]);
    lemma_line_text_of_one(span);
    assert(line_text(page.current) + span.content =~= line_text(page.current) + " ("@
        + link.destination + ")"@);
}

/// The label of a link is what was shown since it opened.
pub proof fn lemma_labels_gather_the_text(page: MarkdownPage, text: Seq<char>)
    requires
        page.links.len() > 0,
        !page.in_code_block,
    ensures
        ({
            let after = page.after(MarkdownEvent::Leaf(Leaf::Text(text)));
            &&& after.links.len() == page.links.len()
            &&& after.links.last().label == page.links.last().label + sanitized_markdown(text)
            &&& after.links.last().destination == page.links.last().destination
        }),
{
    let label = page.links.last().label;
    if sanitized_markdown(text).len() == 0 {
        assert(label + sanitized_markdown(text) =~= label);
    }
}

/// What is open ends and a new line begins: at a hard break always, before a block where the line
/// holds anything. A block outside a list stands apart from earlier content by a blank line.
pub proof fn lemma_blocks_begin_on_their_own_line(page: MarkdownPage, nested: bool)
    ensures
        ({
            let broken = page.after(MarkdownEvent::Leaf(Leaf::HardBreak));
            &&& broken.lines == page.lines.push(page.current)
            &&& line_text(broken.current) == bars(page.quote_depth)
            &&& broken.style == page.style
        }),
        ({
            let started = page.with_block_start(nested);
            let ended = if page.current.len() > 0 {
                page.lines.push(page.current)
            } else {
                page.lines
            };
            &&& line_text(started.current) == bars(page.quote_depth)
            &&& nested || ended.len() == 0 || ended.last().len() == 0 ==> started.lines == ended
            &&& !nested && ended.len() > 0 && ended.last().len() > 0 ==> started.lines.len()
                == ended.len() + 1 && started.lines.drop_last() == ended
                && started.lines.last().len() == 0
        }),
        page.current.len() == 0 ==> page.after(MarkdownEvent::Block(BlockStart::Paragraph))
            == page.with_block_start(page.lists.len() > 0),
        page.current.len() > 0 ==> page.after(MarkdownEvent::Block(BlockStart::Paragraph)) == page,
        page.current.len() > 0 ==> page.after(MarkdownEvent::End(ElementEnd::Paragraph)).lines
            == page.lines.push(page.current),
        page.current.len() > 0 ==> page.after(
            MarkdownEvent::End(ElementEnd::Paragraph),
        ).current.len() == 0,
{
    lemma_bars_open_quoted_lines(page.quote_depth);
    let broken = page.after(MarkdownEvent::Leaf(Leaf::HardBreak));
    assert(broken.current =~= quote_prefix(page.quote_depth));
    let started = page.with_block_start(nested);
    assert(started.current =~= quote_prefix(page.quote_depth));
    let ended = if page.current.len() > 0 {
        page.lines.push(page.current)
    } else {
        page.lines
    };
    if !nested && ended.len() > 0 && ended.last().len() > 0 {
        assert(started.lines.drop_last() =~= ended);
    }
}

/// Headings are bold and begin a block; code blocks are yellow, with the language of a fenced one
/// on a dimmed line of its own, and what they show keeps its lines until they end.
pub proof fn lemma_headings_and_code_blocks(page: MarkdownPage, language: Seq<char>)
    ensures
        ({
            let heading = page.after(MarkdownEvent::Block(BlockStart::Heading));
            &&& heading.style == (Style { bold: true, ..page.style })
            &&& line_text(heading.current) == bars(page.quote_depth)
            &&& heading.lines == page.with_block_start(false).lines
            &&& heading.after(MarkdownEvent::End(ElementEnd::Heading)).style == page.style
        }),
        ({
            let code = page.after(MarkdownEvent::Block(BlockStart::CodeBlock(None)));
            &&& code.in_code_block
            &&& code.style == (Style { fg: Some(Color::Yellow), ..page.style })
            &&& line_text(code.current) == bars(page.quote_depth)
            &&& code.lines == page.with_block_start(false).lines
            &&& !code.after(MarkdownEvent::End(ElementEnd::CodeBlock)).in_code_block
            &&& code.after(MarkdownEvent::End(ElementEnd::CodeBlock)).style == page.style
        }),
        language.len() > 0 ==> {
            let code = page.after(MarkdownEvent::Block(BlockStart::CodeBlock(Some(language))));
            let started = page.with_block_start(false);
            &&& code.in_code_block
            &&& code.style == (Style { fg: Some(Color::Yellow), ..page.style })
            &&& code.lines.len() == started.lines.len() + 1
            &&& started.lines.is_prefix_of(code.lines)
            &&& line_text(code.lines.last()) == bars(page.quote_depth) + sanitized_markdown(
                language,
            )
            &&& line_text(code.current) == bars(page.quote_depth)
        },
{
    lemma_bars_open_quoted_lines(page.quote_depth);
    let started = page.with_block_start(false);
    assert(started.current =~= quote_prefix(page.quote_depth));
    let code = started.with_style(Style { fg: Some(Color::Yellow), ..started.style });
    let dimmed = code.with_style(Style { dim: true, ..code.style });
    lemma_text_grows_the_line(dimmed, language);
    let titled = dimmed.with_text(language).with_style_end();
    assert(titled.with_line_end().with_quote_prefix().current =~= quote_prefix(page.quote_depth));
}

/// An ordered list counts up from its first number, one for each item; an unordered one has
/// bullets. An item stands on a line of its own, indented by two blanks for each list round it.
pub proof fn lemma_items_are_numbered_in_order(page: MarkdownPage, first: u64)
    requires
        page.lists.len() > 0,
        page.lists.last() is Some ==> page.lists.last()->0 < u64::MAX,
    ensures
        ({
            let item = page.after(MarkdownEvent::Block(BlockStart::Item));
            let indent = Seq::new((2 * (page.lists.len() - 1)) as nat, |i: int| ' ');
            &&& item.lines == if page.current.len() > 0 {
                page.lines.push(page.current)
            } else {
                page.lines
            }
            &&& page.lists.last() is None ==> line_text(item.current) == bars(page.quote_depth)
                + indent + "• "@ && item.lists == page.lists
            &&& page.lists.last() is Some ==> line_text(item.current) == bars(page.quote_depth)
                + indent + (decimal(page.lists.last()->0 as nat) + ". "@) && item.lists.last()
                == Some((page.lists.last()->0 + 1) as u64) && item.lists.drop_last()
                == page.lists.drop_last()
        }),
        page.after(MarkdownEvent::Block(BlockStart::List(Some(first)))).lists.last() == Some(first),
        page.after(MarkdownEvent::End(ElementEnd::List)).lists == page.lists.drop_last(),
{
    lemma_bars_open_quoted_lines(page.quote_depth);
    let ended = page.with_block_end().with_quote_prefix();
    assert(ended.current =~= quote_prefix(page.quote_depth));
    let indent = item_indent(page.lists.len());
    assert(indent =~= Seq::new((2 * (page.lists.len() - 1)) as nat, |i: int| ' '));
    assert(is_terminal_safe(indent));
    lemma_sanitizing_keeps_safe_text(indent);
    lemma_text_grows_the_line(ended, indent);
    let indented = ended.with_text(indent);
    let counted = indented.with_item_counted();
    let marker = indented.item_marker();
    reveal_strlit("• ");
    reveal_strlit(". ");
    if page.lists.last() is Some {
        crate::text::lemma_decimal_is_terminal_safe(page.lists.last()->0 as nat);
        let digits = decimal(page.lists.last()->0 as nat);
        assert forall|i: int| 0 <= i < marker.len() implies !is_control(#[trigger] marker[i])
            || marker[i] == '\n' by {
            if i < digits.len() {
                assert(marker[i] == digits[i]);
            }
        }
    }
    lemma_sanitizing_keeps_safe_text(marker);
    lemma_text_grows_the_line(counted, marker);
    let item = page.after(MarkdownEvent::Block(BlockStart::Item));
    assert(item == counted.with_text(marker));
    if page.lists.last() is Some {
        assert(counted.lists.drop_last() =~= page.lists.drop_last());
    }
}

/// A quotation puts one more bar before its lines, and none more once it ended.
pub proof fn lemma_quotations_nest(page: MarkdownPage)
    ensures
        ({
            let quoted = page.after(MarkdownEvent::Block(BlockStart::BlockQuote));
            &&& quoted.quote_depth == page.quote_depth + 1
            &&& bars(quoted.quote_depth) == bars(page.quote_depth) + "│ "@
            &&& quoted.after(MarkdownEvent::End(ElementEnd::BlockQuote)).quote_depth
                == page.quote_depth
        }),
        ({
            let ruled = page.after(MarkdownEvent::Leaf(Leaf::Rule));
            line_text(ruled.lines.last()) == bars(page.quote_depth) + "───"@
        }),
{
    lemma_bars_open_quoted_lines(page.quote_depth);
    let started = page.with_block_start(false);
    assert(started.current =~= quote_prefix(page.quote_depth));
    let span = SpanView { content: "───"@, style: dim_style() };
    assert(started.current.push(span) =~= started.current + seq![span]);
    lemma_line_text_joins(started.current, seq![span]);
    lemma_line_text_of_one(span);
}

/// The lines that a document leaves are those of its page with the open one ended, without the
/// empty ones at the end.
pub proof fn lemma_documents_show_their_page(page: MarkdownPage)
    ensures
        ({
            let ended = if page.current.len() > 0 {
                page.lines.push(page.current)
            } else {
                page.lines
            };
            let shown = page.finished();
            &&& shown.is_prefix_of(ended)
            &&& forall|i: int| shown.len() <= i < ended.len() ==> (#[trigger] ended[i]).len() == 0
            &&& ended.len() > 0 && ended.last().len() > 0 ==> shown == ended
        }),
{
    lemma_only_blanks_are_dropped(page.with_block_end().lines);
}

proof fn lemma_only_blanks_are_dropped(lines: Seq<Seq<SpanView>>)
    ensures
        without_trailing_blanks(lines).is_prefix_of(lines),
        forall|i: int|
            without_trailing_blanks(lines).len() <= i < lines.len() ==> (#[trigger] lines[i]).len()
                == 0,
    decreases lines.len(),
{
    if lines.len() > 0 && lines.last().len() == 0 {
        let before = lines.drop_last();
        lemma_only_blanks_are_dropped(before);
        assert forall|i: int| without_trailing_blanks(lines).len() <= i < lines.len() implies (
        #[trigger] lines[i]).len() == 0 by {
            if i < before.len() {
                assert(before[i] == lines[i]);
            }
        }
    }
}

/// A document is shown event by event, in its order.
pub proof fn lemma_documents_are_shown_in_order(
    page: MarkdownPage,
    events: Seq<MarkdownEvent<Seq<char>>>,
    event: MarkdownEvent<Seq<char>>,
)
    ensures
        page.after_all(events.push(event)) == page.after_all(events).after(event),
        page.after_all(Seq::empty()) == page,
        page.after(MarkdownEvent::Other) == page,
{
    assert(events.push(event).drop_last() =~= events);
}

/// No character of a text begins an escape sequence.
pub open spec fn begins_no_escape(text: Seq<char>) -> bool {
    forall|i: int|
        0 <= i < text.len() ==> #[trigger] text[i] != '\x1b' && text[i] != '\u{9b}' && text[i]
            != '\u{9d}' && text[i] != '\u{9f}'
}

spec fn scan_on(scan: EscapeScan, text: Seq<char>) -> EscapeScan
    decreases text.len(),
{
    if text.len() == 0 {
        scan
    } else {
        scan_step(scan_on(scan, text.drop_last()), text.last())
    }
}

proof fn lemma_scanning_goes_on(before: Seq<char>, after: Seq<char>)
    ensures
        scan_text(before + after) == scan_on(scan_text(before), after),
    decreases after.len(),
{
    if after.len() == 0 {
        assert(before + after =~= before);
    } else {
        assert((before + after).drop_last() =~= before + after.drop_last());
        lemma_scanning_goes_on(before, after.drop_last());
    }
}

proof fn lemma_plain_text_is_kept(text: Seq<char>)
    requires
        begins_no_escape(text),
    ensures
        scan_text(text) == (EscapeScan {
            state: EscapeState::Text,
            kept: text,
            sequence: Seq::empty(),
        }),
    decreases text.len(),
{
    if text.len() > 0 {
        let before = text.drop_last();
        assert(text[text.len() - 1] == text.last());
        assert forall|i: int| 0 <= i < before.len() implies #[trigger] before[i] != '\x1b'
            && before[i] != '\u{9b}' && before[i] != '\u{9d}' && before[i] != '\u{9f}' by {
            assert(before[i] == text[i]);
        }
        lemma_plain_text_is_kept(before);
        assert(before.push(text.last()) =~= text);
    } else {
        assert(text =~= Seq::empty());
    }
}

proof fn lemma_sequences_are_read(scan: EscapeScan, body: Seq<char>)
    requires
        scan.state is Csi ==> forall|i: int|
            0 <= i < body.len() ==> !is_csi_final(#[trigger] body[i]) && body[i] != '\x1b',
        scan.state is Osc || scan.state is Apc ==> forall|i: int|
            0 <= i < body.len() ==> #[trigger] body[i] != '\x07' && body[i] != '\u{9c}' && body[i]
                != '\x1b',
        scan.state is Csi || scan.state is Osc || scan.state is Apc,
    ensures
        scan_on(scan, body).state == scan.state,
        scan_on(scan, body).kept == scan.kept,
    decreases body.len(),
{
    if body.len() > 0 {
        let before = body.drop_last();
        assert forall|i: int| 0 <= i < before.len() implies #[trigger] before[i] == body[i] by {}
        assert(body[body.len() - 1] == body.last());
        lemma_sequences_are_read(scan, before);
    }
}

proof fn lemma_scan_of_a_sequence(before: Seq<char>, opening: char, body: Seq<char>, end: Seq<char>)
    requires
        begins_no_escape(before),
        opening == '[' || opening == ']' || opening == '_',
        opening == '[' ==> (forall|i: int|
            0 <= i < body.len() ==> !is_csi_final(#[trigger] body[i]) && body[i] != '\x1b')
            && end.len() == 1 && is_csi_final(end[0]),
        opening != '[' ==> (forall|i: int|
            0 <= i < body.len() ==> #[trigger] body[i] != '\x07' && body[i] != '\u{9c}' && body[i]
                != '\x1b') && (end == seq!['\x07'] || end == seq!['\u{9c}'] || end == seq![
            '\x1b',
            '\\',
        ]),
    ensures
        scan_text(before + seq!['\x1b', opening] + body + end) == scan_text(before),
{
    lemma_plain_text_is_kept(before);
    let start = scan_text(before);
    let opened = seq!['\x1b', opening];
    lemma_scanning_goes_on(before, opened);
    reveal_with_fuel(scan_on, 3);
    assert(opened.drop_last() =~= seq!['\x1b']);
    assert(seq!['\x1b'].drop_last() =~= Seq::empty());
    let inside = scan_text(before + opened);
    assert(inside.kept == before);
    lemma_scanning_goes_on(before + opened, body);
    lemma_sequences_are_read(inside, body);
    lemma_scanning_goes_on(before + opened + body, end);
    let read = scan_text(before + opened + body);
    assert(read.state == inside.state && read.kept == before);
    if end.len() == 1 {
        assert(end.drop_last() =~= Seq::empty());
        assert(scan_on(read, end) == scan_step(read, end[0]));
    } else {
        assert(end.drop_last() =~= seq!['\x1b']);
        assert(scan_on(read, seq!['\x1b']) == scan_step(read, '\x1b'));
        assert(scan_on(read, end) == scan_step(scan_step(read, '\x1b'), '\\'));
    }
}

/// A complete control sequence leaves no trace: the text reads as if it had not been there.
pub proof fn lemma_control_sequences_vanish(
    before: Seq<char>,
    body: Seq<char>,
    last: char,
    after: Seq<char>,
)
    requires
        begins_no_escape(before),
        forall|i: int|
            0 <= i < body.len() ==> !(0x40 <= #[trigger] body[i] as u32 <= 0x7e) && body[i]
                != '\x1b',
        0x40 <= last as u32 <= 0x7e,
    ensures
        sanitized_markdown(before + seq!['\x1b', '['] + body + seq![last] + after)
            == sanitized_markdown(before + after),
{
    assert forall|i: int| 0 <= i < body.len() implies !is_csi_final(#[trigger] body[i]) && body[i]
        != '\x1b' by {
        assert(!(0x40 <= body[i] as u32 <= 0x7e));
    }
    lemma_scan_of_a_sequence(before, '[', body, seq![last]);
    let sequence = before + seq!['\x1b', '['] + body + seq![last];
    lemma_scanning_goes_on(sequence, after);
    lemma_scanning_goes_on(before, after);
}

/// A complete command string leaves no trace, whatever it says and however it ends.
pub proof fn lemma_command_strings_vanish(
    before: Seq<char>,
    opening: char,
    body: Seq<char>,
    end: Seq<char>,
    after: Seq<char>,
)
    requires
        begins_no_escape(before),
        opening == ']' || opening == '_',
        forall|i: int|
            0 <= i < body.len() ==> #[trigger] body[i] != '\x07' && body[i] != '\u{9c}' && body[i]
                != '\x1b',
        end == seq!['\x07'] || end == seq!['\u{9c}'] || end == seq!['\x1b', '\\'],
    ensures
        sanitized_markdown(before + seq!['\x1b', opening] + body + end + after)
            == sanitized_markdown(before + after),
{
    lemma_scan_of_a_sequence(before, opening, body, end);
    let sequence = before + seq!['\x1b', opening] + body + end;
    lemma_scanning_goes_on(sequence, after);
    lemma_scanning_goes_on(before, after);
}

/// Without escape sequences a source is shown character by character: a tab is four blanks, each
/// line end one line feed, and other control characters leave no trace.
pub proof fn lemma_sources_are_shown_character_by_character(text: Seq<char>, character: char)
    requires
        begins_no_escape(text),
        character != '\x1b' && character != '\u{9b}' && character != '\u{9d}' && character
            != '\u{9f}',
    ensures
        !is_control(character) ==> sanitized_markdown(text.push(character)) == sanitized_markdown(
            text,
        ).push(character),
        character == '\t' ==> sanitized_markdown(text.push(character)) == sanitized_markdown(text)
            + seq![' ', ' ', ' ', ' '],
        character == '\r' || character == '\n' && (text.len() == 0 || text.last() != '\r')
            ==> sanitized_markdown(text.push(character)) == sanitized_markdown(text).push('\n'),
        character == '\n' && text.len() > 0 && text.last() == '\r' ==> sanitized_markdown(
            text.push(character),
        ) == sanitized_markdown(text),
        is_control(character) && character != '\t' && character != '\r' && character != '\n'
            ==> sanitized_markdown(text.push(character)) == sanitized_markdown(text),
        sanitized_markdown(Seq::empty()) == Seq::<char>::empty(),
{
    let longer = text.push(character);
    assert forall|i: int| 0 <= i < longer.len() implies #[trigger] longer[i] != '\x1b' && longer[i]
        != '\u{9b}' && longer[i] != '\u{9d}' && longer[i] != '\u{9f}' by {
        if i < text.len() {
            assert(longer[i] == text[i]);
        }
    }
    lemma_plain_text_is_kept(text);
    lemma_plain_text_is_kept(longer);
    lemma_plain_text_is_kept(Seq::empty());
    assert(longer.drop_last() =~= text);
    let unix = with_unix_newlines(text);
    assert(unix.push(character).drop_last() =~= unix);
    assert(unix.push('\n').drop_last() =~= unix);
    let shown = visible_text(unix);
    assert(shown + seq![character] =~= shown.push(character));
    assert(shown + seq!['\n'] =~= shown.push('\n'));
    assert(shown + Seq::empty() =~= shown);
    if character == '\n' && text.len() > 0 && text.last() == '\r' {
        assert(longer.len() >= 2 && longer[longer.len() - 2] == '\r');
        assert(with_unix_newlines(longer) == unix);
    }
}

} // verus!
