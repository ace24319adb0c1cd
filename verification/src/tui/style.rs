//! Styled terminal text: colours, modifiers, styles, spans and lines.
//!
//! These are plain values that a terminal backend turns into its own widgets.
//! Two styles are the same when their fields are the same, which is what the
//! renderer relies on when it merges runs of equally styled characters.
use vstd::prelude::*;

use crate::text::string_of;

verus! {

/// A terminal colour.
#[derive(Clone, Copy, Debug, PartialEq, Eq, Structural)]
pub enum Color {
    Black,
    Red,
    Green,
    Yellow,
    Cyan,
    Gray,
    DarkGray,
    White,
    Rgb(u8, u8, u8),
}

/// Text attributes added on top of the colours.
#[derive(Clone, Copy, Debug, PartialEq, Eq, Structural)]
pub struct Modifier {
    pub bold: bool,
    pub italic: bool,
    pub underlined: bool,
}

impl Modifier {
    pub open spec fn empty_spec() -> Modifier {
        Modifier { bold: false, italic: false, underlined: false }
    }

    /// No attribute set.
    pub fn empty() -> (m: Modifier)
        ensures
            m == Modifier::empty_spec(),
    {
        Modifier { bold: false, italic: false, underlined: false }
    }

    /// Just bold.
    pub fn bold() -> (m: Modifier)
        ensures
            m == (Modifier { bold: true, italic: false, underlined: false }),
    {
        Modifier { bold: true, italic: false, underlined: false }
    }

    /// Just italic.
    pub fn italic() -> (m: Modifier)
        ensures
            m == (Modifier { bold: false, italic: true, underlined: false }),
    {
        Modifier { bold: false, italic: true, underlined: false }
    }

    /// Just underlined.
    pub fn underlined() -> (m: Modifier)
        ensures
            m == (Modifier { bold: false, italic: false, underlined: true }),
    {
        Modifier { bold: false, italic: false, underlined: true }
    }

    pub open spec fn union_spec(self, other: Modifier) -> Modifier {
        Modifier {
            bold: self.bold || other.bold,
            italic: self.italic || other.italic,
            underlined: self.underlined || other.underlined,
        }
    }

    /// Every attribute set in either.
    pub fn union(self, other: Modifier) -> (m: Modifier)
        ensures
            m == self.union_spec(other),
    {
        Modifier {
            bold: self.bold || other.bold,
            italic: self.italic || other.italic,
            underlined: self.underlined || other.underlined,
        }
    }

    /// Whether every attribute of `other` is set in `self`.
    pub fn contains(self, other: Modifier) -> (r: bool)
        ensures
            r == ((other.bold ==> self.bold) && (other.italic ==> self.italic) && (
            other.underlined ==> self.underlined)),
    {
        (!other.bold || self.bold) && (!other.italic || self.italic) && (!other.underlined
            || self.underlined)
    }
}

/// Foreground, background and attributes of a run of text.
#[derive(Clone, Copy, Debug, PartialEq, Eq, Structural)]
pub struct Style {
    pub fg: Option<Color>,
    pub bg: Option<Color>,
    pub add_modifier: Modifier,
}

impl Style {
    /// The unstyled style: no colours, no attributes.
    pub open spec fn plain() -> Style {
        Style { fg: None, bg: None, add_modifier: Modifier::empty_spec() }
    }

    pub open spec fn with_fg(self, c: Color) -> Style {
        Style { fg: Some(c), bg: self.bg, add_modifier: self.add_modifier }
    }

    pub open spec fn with_bg(self, c: Color) -> Style {
        Style { fg: self.fg, bg: Some(c), add_modifier: self.add_modifier }
    }

    pub open spec fn with_modifier(self, m: Modifier) -> Style {
        Style { fg: self.fg, bg: self.bg, add_modifier: self.add_modifier.union_spec(m) }
    }

    /// The unstyled style.
    pub fn new() -> (s: Style)
        ensures
            s == Style::plain(),
    {
        Style { fg: None, bg: None, add_modifier: Modifier::empty() }
    }

    /// This style with foreground `c`.
    pub fn fg(self, c: Color) -> (s: Style)
        ensures
            s == self.with_fg(c),
    {
        Style { fg: Some(c), bg: self.bg, add_modifier: self.add_modifier }
    }

    /// This style with background `c`.
    pub fn bg(self, c: Color) -> (s: Style)
        ensures
            s == self.with_bg(c),
    {
        Style { fg: self.fg, bg: Some(c), add_modifier: self.add_modifier }
    }

    /// This style with the attributes of `m` added.
    pub fn add_modifier(self, m: Modifier) -> (s: Style)
        ensures
            s == self.with_modifier(m),
    {
        Style { fg: self.fg, bg: self.bg, add_modifier: self.add_modifier.union(m) }
    }
}

impl Default for Style {
    fn default() -> (s: Style)
        ensures
            s == Style::plain(),
    {
        Style::new()
    }
}

/// A run of text drawn in one style.
#[derive(Clone, Debug)]
pub struct Span {
    pub content: String,
    pub style: Style,
}

impl View for Span {
    type V = (Seq<char>, Style);

    open spec fn view(&self) -> (Seq<char>, Style) {
        (self.content@, self.style)
    }
}

/// One display line: its spans, left to right.
#[derive(Clone, Debug)]
pub struct Line {
    pub spans: Vec<Span>,
}

/// The mathematical value of a line: the text and style of each span.
pub open spec fn line_view(l: Line) -> Seq<(Seq<char>, Style)> {
    spans_view(l.spans@)
}

/// The text and style of each span.
pub open spec fn spans_view(spans: Seq<Span>) -> Seq<(Seq<char>, Style)> {
    spans.map_values(|s: Span| s@)
}

/// The mathematical value of a list of lines.
pub open spec fn lines_view(ls: Seq<Line>) -> Seq<Seq<(Seq<char>, Style)>> {
    ls.map_values(|l: Line| line_view(l))
}

/// The characters of a line, spans joined.
pub open spec fn spans_text(spans: Seq<(Seq<char>, Style)>) -> Seq<char>
    decreases spans.len(),
{
    if spans.len() == 0 {
        seq![]
    } else {
        spans_text(spans.drop_last()) + spans.last().0
    }
}

impl Span {
    /// A copy of this span.
    pub fn clone_span(&self) -> (s: Span)
        ensures
            s@ == self@,
    {
        Span { content: self.content.clone(), style: self.style }
    }

    /// A span of `text` in `style`.
    pub fn styled(text: &[char], style: Style) -> (s: Span)
        ensures
            s@ == (text@, style),
    {
        Span { content: string_of(text), style }
    }
}

impl Line {
    /// A line made of the single span `s`.
    pub fn from_span(s: Span) -> (l: Line)
        ensures
            line_view(l) == seq![s@],
    {
        let mut spans: Vec<Span> = Vec::new();
        spans.push(s);
        let l = Line { spans };
        assert(line_view(l) =~= seq![s@]);
        l
    }

    /// A copy of this line.
    pub fn clone_line(&self) -> (l: Line)
        ensures
            line_view(l) == line_view(*self),
    {
        let mut spans: Vec<Span> = Vec::new();
        let mut i: usize = 0;
        while i < self.spans.len()
            invariant
                i <= self.spans.len(),
                spans_view(spans@) == spans_view(self.spans@).take(i as int),
            decreases self.spans.len() - i,
        {
            let ghost pre = spans@;
            spans.push(self.spans[i].clone_span());
            assert(spans_view(spans@) =~= spans_view(pre).push(self.spans@[i as int]@));
            assert(spans_view(self.spans@).take(i + 1) =~= spans_view(self.spans@).take(i as int).push(
                self.spans@[i as int]@,
            ));
            i += 1;
        }
        assert(spans_view(self.spans@).take(self.spans.len() as int) =~= spans_view(self.spans@));
        Line { spans }
    }

    /// The blank line: a single empty, unstyled span.
    pub fn blank() -> (l: Line)
        ensures
            line_view(l) == seq![(Seq::<char>::empty(), Style::plain())],
    {
        Line::from_span(Span { content: String::new(), style: Style::new() })
    }

    /// The text of the line, spans joined.
    pub fn text(&self) -> (s: String)
        ensures
            s@ == spans_text(line_view(*self)),
    {
        let mut out = String::new();
        let mut i: usize = 0;
        while i < self.spans.len()
            invariant
                i <= self.spans.len(),
                out@ == spans_text(line_view(*self).take(i as int)),
            decreases self.spans.len() - i,
        {
            out.append(self.spans[i].content.as_str());
            assert(line_view(*self).take(i + 1).drop_last() == line_view(*self).take(i as int));
            i += 1;
        }
        assert(line_view(*self).take(self.spans.len() as int) == line_view(*self));
        out
    }
}

} // verus!
