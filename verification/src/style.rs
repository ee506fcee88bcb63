//! Terminal colors, text styles and styled text lines.

use vstd::prelude::*;

verus! {

/// A terminal color.
#[derive(Clone, Copy, Debug, PartialEq, Eq, Structural)]
pub enum Color {
    Reset,
    Black,
    Red,
    Green,
    Yellow,
    Blue,
    Magenta,
    Cyan,
    Gray,
    DarkGray,
    LightRed,
    LightGreen,
    LightYellow,
    LightBlue,
    LightMagenta,
    LightCyan,
    White,
    /// A 24-bit color.
    Rgb(u8, u8, u8),
    /// An entry of the 256-color palette.
    Indexed(u8),
}

/// Colors and emphasis of a run of text. `None` leaves the terminal's
/// current color in place.
#[derive(Clone, Copy, Debug, PartialEq, Eq, Structural)]
pub struct Style {
    pub fg: Option<Color>,
    pub bg: Option<Color>,
    pub bold: bool,
    pub dim: bool,
}

impl Style {
    /// The style that changes nothing.
    pub open spec fn plain() -> Style {
        Style { fg: None, bg: None, bold: false, dim: false }
    }

    /// The style that changes nothing.
    pub fn new() -> (s: Style)
        ensures
            s == Style::plain(),
    {
        Style { fg: None, bg: None, bold: false, dim: false }
    }

    /// This style with the given foreground.
    pub fn with_fg(self, c: Color) -> (s: Style)
        ensures
            s == (Style { fg: Some(c), ..self }),
    {
        Style { fg: Some(c), ..self }
    }

    /// This style with the given background.
    pub fn with_bg(self, c: Color) -> (s: Style)
        ensures
            s == (Style { bg: Some(c), ..self }),
    {
        Style { bg: Some(c), ..self }
    }

    /// This style made dim.
    pub fn with_dim(self) -> (s: Style)
        ensures
            s == (Style { dim: true, ..self }),
    {
        Style { dim: true, ..self }
    }

    /// This style made bold.
    pub fn with_bold(self) -> (s: Style)
        ensures
            s == (Style { bold: true, ..self }),
    {
        Style { bold: true, ..self }
    }
}

/// A run of text drawn in one style.
#[derive(Debug)]
pub struct StyledSpan {
    pub content: String,
    pub style: Style,
}

impl StyledSpan {
    /// A span of `text` in `style`.
    pub fn styled(text: &str, style: Style) -> (s: StyledSpan)
        ensures
            s.content@ == text@,
            s.style == style,
    {
        StyledSpan { content: String::from_str(text), style }
    }

    /// A span of `text` in the plain style.
    pub fn raw(text: &str) -> (s: StyledSpan)
        ensures
            s.content@ == text@,
            s.style == Style::plain(),
    {
        StyledSpan { content: String::from_str(text), style: Style::new() }
    }

    /// A copy of this span.
    pub fn duplicate(&self) -> (s: StyledSpan)
        ensures
            s.content@ == self.content@,
            s.style == self.style,
    {
        StyledSpan { content: self.content.clone(), style: self.style }
    }
}

/// One line of styled text; `style` applies to the whole row, including the
/// cells after the text.
#[derive(Debug)]
pub struct StyledLine {
    pub spans: Vec<StyledSpan>,
    pub style: Style,
}

/// The text of a sequence of spans.
pub open spec fn spans_text(spans: Seq<StyledSpan>) -> Seq<char>
    decreases spans.len(),
{
    if spans.len() == 0 {
        Seq::empty()
    } else {
        spans_text(spans.drop_last()) + spans.last().content@
    }
}

/// The text of a line.
pub open spec fn line_text(line: StyledLine) -> Seq<char> {
    spans_text(line.spans@)
}

impl StyledLine {
    /// A line made of `spans`, with no row style.
    pub fn from_spans(spans: Vec<StyledSpan>) -> (l: StyledLine)
        ensures
            l.spans@ == spans@,
            l.style == Style::plain(),
    {
        StyledLine { spans, style: Style::new() }
    }

    /// A line holding `text` in the plain style.
    pub fn from_text(text: &str) -> (l: StyledLine)
        ensures
            l.spans@.len() == 1,
            l.spans@[0].content@ == text@,
            l.spans@[0].style == Style::plain(),
            l.style == Style::plain(),
    {
        let mut spans = Vec::new();
        spans.push(StyledSpan::raw(text));
        StyledLine { spans, style: Style::new() }
    }
}

/// `spans_text` of a pushed sequence.
pub proof fn lemma_spans_text_push(spans: Seq<StyledSpan>, s: StyledSpan)
    ensures
        spans_text(spans.push(s)) == spans_text(spans) + s.content@,
{
    assert(spans.push(s).drop_last() =~= spans);
}

/// `spans_text` distributes over concatenation.
pub proof fn lemma_spans_text_add(a: Seq<StyledSpan>, b: Seq<StyledSpan>)
    ensures
        spans_text(a + b) == spans_text(a) + spans_text(b),
    decreases b.len(),
{
    if b.len() == 0 {
        assert(a + b =~= a);
        assert(spans_text(b) =~= Seq::<char>::empty());
        assert(spans_text(a) + spans_text(b) =~= spans_text(a));
    } else {
        lemma_spans_text_add(a, b.drop_last());
        assert((a + b).drop_last() =~= a + b.drop_last());
        assert(spans_text(a) + spans_text(b) =~= spans_text(a) + spans_text(b.drop_last())
            + b.last().content@);
    }
}

} // verus!
