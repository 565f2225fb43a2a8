use vstd::prelude::*;

verus! {

/// A 24-bit colour.
#[derive(Clone, Copy, Debug, PartialEq, Eq)]
pub struct Rgb {
    pub r: u8,
    pub g: u8,
    pub b: u8,
}

/// How a piece of text is drawn: colours and the text modifiers that are switched on.
#[derive(Clone, Copy, Debug, PartialEq, Eq)]
pub struct TextStyle {
    pub fg: Option<Rgb>,
    pub bg: Option<Rgb>,
    pub bold: bool,
    pub italic: bool,
    pub underlined: bool,
    pub crossed_out: bool,
}

/// The style with no colour and no modifier.
pub open spec fn plain_style() -> TextStyle {
    TextStyle { fg: None, bg: None, bold: false, italic: false, underlined: false, crossed_out: false }
}

/// `s` with its foreground set to `c`.
pub open spec fn with_fg(s: TextStyle, c: Rgb) -> TextStyle {
    TextStyle { fg: Some(c), ..s }
}

/// `s` with its background set to `c`.
pub open spec fn with_bg(s: TextStyle, c: Rgb) -> TextStyle {
    TextStyle { bg: Some(c), ..s }
}

/// `s` with bold switched on.
pub open spec fn with_bold(s: TextStyle) -> TextStyle {
    TextStyle { bold: true, ..s }
}

/// `s` with italic switched on.
pub open spec fn with_italic(s: TextStyle) -> TextStyle {
    TextStyle { italic: true, ..s }
}

/// `s` with underline switched on.
pub open spec fn with_underlined(s: TextStyle) -> TextStyle {
    TextStyle { underlined: true, ..s }
}

/// `s` with strike-through switched on.
pub open spec fn with_crossed_out(s: TextStyle) -> TextStyle {
    TextStyle { crossed_out: true, ..s }
}

impl TextStyle {
    /// The style with no colour and no modifier.
    pub fn plain() -> (s: TextStyle)
        ensures
            s == plain_style(),
    {
        TextStyle { fg: None, bg: None, bold: false, italic: false, underlined: false, crossed_out: false }
    }

    /// This style with its foreground set to `c`.
    pub fn fg(self, c: Rgb) -> (s: TextStyle)
        ensures
            s == with_fg(self, c),
    {
        TextStyle { fg: Some(c), ..self }
    }

    /// This style with its background set to `c`.
    pub fn bg(self, c: Rgb) -> (s: TextStyle)
        ensures
            s == with_bg(self, c),
    {
        TextStyle { bg: Some(c), ..self }
    }

    /// This style with bold switched on.
    pub fn bold(self) -> (s: TextStyle)
        ensures
            s == with_bold(self),
    {
        TextStyle { bold: true, ..self }
    }

    /// This style with italic switched on.
    pub fn italic(self) -> (s: TextStyle)
        ensures
            s == with_italic(self),
    {
        TextStyle { italic: true, ..self }
    }

    /// This style with underline switched on.
    pub fn underlined(self) -> (s: TextStyle)
        ensures
            s == with_underlined(self),
    {
        TextStyle { underlined: true, ..self }
    }

    /// This style with strike-through switched on.
    pub fn crossed_out(self) -> (s: TextStyle)
        ensures
            s == with_crossed_out(self),
    {
        TextStyle { crossed_out: true, ..self }
    }
}

/// A run of text drawn in one style.
#[derive(Clone, Debug, PartialEq, Eq)]
pub struct Span {
    pub content: String,
    pub style: TextStyle,
}

/// The mathematical value of a [`Span`].
pub struct SpanView {
    pub content: Seq<char>,
    pub style: TextStyle,
}

impl View for Span {
    type V = SpanView;

    open spec fn view(&self) -> SpanView {
        SpanView { content: self.content@, style: self.style }
    }
}

/// One line of styled text; `style` applies to the whole line.
#[derive(Clone, Debug, PartialEq, Eq)]
pub struct Line {
    pub spans: Vec<Span>,
    pub style: TextStyle,
}

/// The mathematical value of a [`Line`].
pub struct LineView {
    pub spans: Seq<SpanView>,
    pub style: TextStyle,
}

/// The values of a sequence of spans.
pub open spec fn span_views(s: Seq<Span>) -> Seq<SpanView> {
    s.map_values(|x: Span| x@)
}

/// The values of a sequence of lines.
pub open spec fn line_views(s: Seq<Line>) -> Seq<LineView> {
    s.map_values(|x: Line| x@)
}

impl View for Line {
    type V = LineView;

    open spec fn view(&self) -> LineView {
        LineView { spans: span_views(self.spans@), style: self.style }
    }
}

/// The value of a span with `content` drawn in `style`.
pub open spec fn span_of(content: Seq<char>, style: TextStyle) -> SpanView {
    SpanView { content, style }
}

/// The value of a line made of `spans`, with no style of its own.
pub open spec fn line_of(spans: Seq<SpanView>) -> LineView {
    LineView { spans, style: plain_style() }
}

/// The number of characters in `spans`.
pub open spec fn spans_width(spans: Seq<SpanView>) -> nat
    decreases spans.len(),
{
    if spans.len() == 0 {
        0
    } else {
        spans_width(spans.drop_last()) + spans.last().content.len()
    }
}

/// The number of characters in a line.
pub open spec fn line_width(l: LineView) -> nat {
    spans_width(l.spans)
}

} // verus!
