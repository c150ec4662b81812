//! Styled text: colors, styles, spans and lines, as the terminal renders them.
use vstd::prelude::*;

verus! {

/// A terminal color.
#[derive(Clone, Copy, Debug, PartialEq, Eq, Structural)]
pub enum Color {
    Black,
    Red,
    Green,
    Yellow,
    Blue,
    Magenta,
    Cyan,
    Gray,
    DarkGray,
    White,
}

/// Colors and modifiers of a piece of text. Unset colors inherit; modifiers
/// are only ever added.
#[derive(Clone, Copy, Debug, PartialEq, Eq, Structural)]
pub struct Style {
    pub fg: Option<Color>,
    pub bg: Option<Color>,
    pub bold: bool,
    pub italic: bool,
    pub underlined: bool,
    pub crossed_out: bool,
}

/// The style that sets nothing.
pub open spec fn plain() -> Style {
    Style { fg: None, bg: None, bold: false, italic: false, underlined: false, crossed_out: false }
}

impl Style {
    /// The style that sets nothing (`Style::default()`).
    pub fn new() -> (r: Style)
        ensures
            r == plain(),
    {
        Style { fg: None, bg: None, bold: false, italic: false, underlined: false, crossed_out: false }
    }

    /// This style with foreground `c`.
    pub fn fg(self, c: Color) -> (r: Style)
        ensures
            r == (Style { fg: Some(c), ..self }),
    {
        Style { fg: Some(c), ..self }
    }

    /// This style with background `c`.
    pub fn bg(self, c: Color) -> (r: Style)
        ensures
            r == (Style { bg: Some(c), ..self }),
    {
        Style { bg: Some(c), ..self }
    }

    /// This style, bold.
    pub fn bold(self) -> (r: Style)
        ensures
            r == (Style { bold: true, ..self }),
    {
        Style { bold: true, ..self }
    }

    /// This style, italic.
    pub fn italic(self) -> (r: Style)
        ensures
            r == (Style { italic: true, ..self }),
    {
        Style { italic: true, ..self }
    }

    /// This style, underlined.
    pub fn underlined(self) -> (r: Style)
        ensures
            r == (Style { underlined: true, ..self }),
    {
        Style { underlined: true, ..self }
    }

    /// This style, crossed out.
    pub fn crossed_out(self) -> (r: Style)
        ensures
            r == (Style { crossed_out: true, ..self }),
    {
        Style { crossed_out: true, ..self }
    }
}

/// A run of text in one style.
#[derive(Clone, Debug)]
pub struct StyledSpan {
    pub content: String,
    pub style: Style,
}

/// One line of text: its spans and a style applied under theirs.
#[derive(Clone, Debug)]
pub struct StyledLine {
    pub spans: Vec<StyledSpan>,
    pub style: Style,
}

/// The mathematical content of a span.
pub struct SpanView {
    pub content: Seq<char>,
    pub style: Style,
}

/// The mathematical content of a line.
pub struct LineView {
    pub spans: Seq<SpanView>,
    pub style: Style,
}

impl View for StyledSpan {
    type V = SpanView;

    open spec fn view(&self) -> SpanView {
        SpanView { content: self.content@, style: self.style }
    }
}

impl DeepView for StyledSpan {
    type V = SpanView;

    open spec fn deep_view(&self) -> SpanView {
        self@
    }
}

impl View for StyledLine {
    type V = LineView;

    open spec fn view(&self) -> LineView {
        LineView { spans: self.spans.deep_view(), style: self.style }
    }
}

impl DeepView for StyledLine {
    type V = LineView;

    open spec fn deep_view(&self) -> LineView {
        self@
    }
}

} // verus!
