//! Styled text as the screen shows it.

use vstd::prelude::*;

verus! {

/// A foreground or background color.
#[derive(Clone, Copy, Debug, PartialEq, Eq, Structural)]
pub enum Color {
    Reset,
    Red,
    Green,
    Yellow,
    Cyan,
    DarkGray,
}

/// The presentation of a span of text.
#[derive(Clone, Copy, Debug, PartialEq, Eq, Structural)]
pub struct Style {
    pub fg: Option<Color>,
    pub bg: Option<Color>,
    pub bold: bool,
    pub dim: bool,
    pub italic: bool,
    pub underlined: bool,
    pub crossed_out: bool,
}

/// The style without color or emphasis.
pub open spec fn plain_style() -> Style {
    Style {
        fg: None,
        bg: None,
        bold: false,
        dim: false,
        italic: false,
        underlined: false,
        crossed_out: false,
    }
}

/// The plain style, dimmed.
pub open spec fn dim_style() -> Style {
    Style { dim: true, ..plain_style() }
}

/// The style of the item that is selected in a list.
pub open spec fn selected_style() -> Style {
    Style { fg: Some(Color::Cyan), bg: Some(Color::DarkGray), ..plain_style() }
}

impl Style {
    /// Creates [`plain_style`].
    pub fn plain() -> (style: Style)
        ensures
            style == plain_style(),
    {
        Style {
            fg: None,
            bg: None,
            bold: false,
            dim: false,
            italic: false,
            underlined: false,
            crossed_out: false,
        }
    }

    /// Creates [`dim_style`].
    pub fn dimmed() -> (style: Style)
        ensures
            style == dim_style(),
    {
        let mut style = Style::plain();
        style.dim = true;
        style
    }

    /// Creates [`selected_style`].
    pub fn selected() -> (style: Style)
        ensures
            style == selected_style(),
    {
        let mut style = Style::plain();
        style.fg = Some(Color::Cyan);
        style.bg = Some(Color::DarkGray);
        style
    }

    /// The same style with another foreground color.
    pub fn with_fg(self, color: Color) -> (style: Style)
        ensures
            style == (Style { fg: Some(color), ..self }),
    {
        let mut style = self;
        style.fg = Some(color);
        style
    }

    /// The same style, bold.
    pub fn with_bold(self) -> (style: Style)
        ensures
            style == (Style { bold: true, ..self }),
    {
        let mut style = self;
        style.bold = true;
        style
    }
}

/// A run of text in one style.
#[derive(Debug, PartialEq, Eq)]
pub struct Span {
    pub content: String,
    pub style: Style,
}

/// What a [`Span`] shows.
pub ghost struct SpanView {
    pub content: Seq<char>,
    pub style: Style,
}

impl DeepView for Span {
    type V = SpanView;

    open spec fn deep_view(&self) -> SpanView {
        SpanView { content: self.content@, style: self.style }
    }
}

/// A row of spans.
#[derive(Debug, PartialEq, Eq)]
pub struct Line {
    pub spans: Vec<Span>,
}

impl DeepView for Line {
    type V = Seq<SpanView>;

    open spec fn deep_view(&self) -> Seq<SpanView> {
        self.spans.deep_view()
    }
}

/// The characters of a row of spans, styles left out.
pub open spec fn line_text(spans: Seq<SpanView>) -> Seq<char>
    decreases spans.len(),
{
    if spans.len() == 0 {
        Seq::empty()
    } else {
        line_text(spans.drop_last()) + spans.last().content
    }
}

impl Line {
    /// The characters of this row, styles left out.
    pub fn text(&self) -> (text: String)
        ensures
            text@ == line_text(self.deep_view()),
    {
        let mut text = String::new();
        let mut index: usize = 0;
        while index < self.spans.len()
            invariant
                index <= self.spans@.len(),
                text@ == line_text(self.deep_view().subrange(0, index as int)),
            decreases self.spans@.len() - index,
        {
            text.push_str(&self.spans[index].content);
            index += 1;
            proof {
                let shown = self.deep_view().subrange(0, index as int);
                assert(shown.drop_last() =~= self.deep_view().subrange(0, index - 1));
                assert(shown.last() == self.spans@[index - 1].deep_view());
            }
        }
        assert(self.deep_view().subrange(0, index as int) =~= self.deep_view());
        text
    }
}

} // verus!
