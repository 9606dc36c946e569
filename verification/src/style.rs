//! Colours, text emphasis and styles of terminal text, and the styled text
//! itself.
use vstd::prelude::*;

use crate::text;

verus! {

/// A terminal colour.
#[derive(Clone, Copy, PartialEq, Eq, Structural, Debug)]
pub enum Color {
    Reset,
    Black,
    Red,
    Green,
    Yellow,
    Blue,
    Magenta,
    Cyan,
    Gray,
    DarkGray,
    LightRed,
    LightGreen,
    LightYellow,
    LightBlue,
    LightMagenta,
    LightCyan,
    White,
    Rgb(u8, u8, u8),
    Indexed(u8),
}

/// A set of text emphases.
#[derive(Clone, Copy, PartialEq, Eq, Structural, Debug)]
pub struct Modifier {
    pub bold: bool,
    pub dim: bool,
    pub italic: bool,
    pub underlined: bool,
}

impl Modifier {
    /// The empty set.
    pub open spec fn none() -> Modifier {
        Modifier { bold: false, dim: false, italic: false, underlined: false }
    }

    /// What is in either set.
    pub open spec fn both(self, other: Modifier) -> Modifier {
        Modifier {
            bold: self.bold || other.bold,
            dim: self.dim || other.dim,
            italic: self.italic || other.italic,
            underlined: self.underlined || other.underlined,
        }
    }

    /// What is in this set and not in the other.
    pub open spec fn minus(self, other: Modifier) -> Modifier {
        Modifier {
            bold: self.bold && !other.bold,
            dim: self.dim && !other.dim,
            italic: self.italic && !other.italic,
            underlined: self.underlined && !other.underlined,
        }
    }

    /// The empty set.
    pub fn empty() -> (r: Modifier)
        ensures
            r == Modifier::none(),
    {
        Modifier { bold: false, dim: false, italic: false, underlined: false }
    }

    /// What is in either set.
    pub fn union(self, other: Modifier) -> (r: Modifier)
        ensures
            r == self.both(other),
    {
        Modifier {
            bold: self.bold || other.bold,
            dim: self.dim || other.dim,
            italic: self.italic || other.italic,
            underlined: self.underlined || other.underlined,
        }
    }

    /// What is in this set and not in the other.
    pub fn difference(self, other: Modifier) -> (r: Modifier)
        ensures
            r == self.minus(other),
    {
        Modifier {
            bold: self.bold && !other.bold,
            dim: self.dim && !other.dim,
            italic: self.italic && !other.italic,
            underlined: self.underlined && !other.underlined,
        }
    }
}

/// How a piece of text is shown. A colour that is not given, and an emphasis
/// in neither set, are left as they are.
#[derive(Clone, Copy, PartialEq, Eq, Structural, Debug)]
pub struct Style {
    pub fg: Option<Color>,
    pub bg: Option<Color>,
    /// Emphases that are switched on.
    pub add_modifier: Modifier,
    /// Emphases that are switched off.
    pub sub_modifier: Modifier,
}

impl Style {
    /// The style that leaves everything as it is.
    pub open spec fn plain() -> Style {
        Style {
            fg: None,
            bg: None,
            add_modifier: Modifier::none(),
            sub_modifier: Modifier::none(),
        }
    }

    pub open spec fn with_fg(self, color: Color) -> Style {
        Style { fg: Some(color), ..self }
    }

    pub open spec fn with_bg(self, color: Color) -> Style {
        Style { bg: Some(color), ..self }
    }

    pub open spec fn adding(self, modifier: Modifier) -> Style {
        Style {
            add_modifier: self.add_modifier.both(modifier),
            sub_modifier: self.sub_modifier.minus(modifier),
            ..self
        }
    }

    pub open spec fn removing(self, modifier: Modifier) -> Style {
        Style {
            add_modifier: self.add_modifier.minus(modifier),
            sub_modifier: self.sub_modifier.both(modifier),
            ..self
        }
    }

    /// The style that leaves everything as it is.
    pub fn unstyled() -> (r: Style)
        ensures
            r == Style::plain(),
    {
        Style {
            fg: None,
            bg: None,
            add_modifier: Modifier::empty(),
            sub_modifier: Modifier::empty(),
        }
    }

    /// The style with this foreground colour.
    pub fn fg(self, color: Color) -> (r: Style)
        ensures
            r == self.with_fg(color),
    {
        Style {
            fg: Some(color),
            bg: self.bg,
            add_modifier: self.add_modifier,
            sub_modifier: self.sub_modifier,
        }
    }

    /// The style with this background colour.
    pub fn bg(self, color: Color) -> (r: Style)
        ensures
            r == self.with_bg(color),
    {
        Style {
            fg: self.fg,
            bg: Some(color),
            add_modifier: self.add_modifier,
            sub_modifier: self.sub_modifier,
        }
    }

    /// The style with these emphases switched on.
    pub fn add_modifier(self, modifier: Modifier) -> (r: Style)
        ensures
            r == self.adding(modifier),
    {
        Style {
            fg: self.fg,
            bg: self.bg,
            add_modifier: self.add_modifier.union(modifier),
            sub_modifier: self.sub_modifier.difference(modifier),
        }
    }

    /// The style with these emphases switched off.
    pub fn remove_modifier(self, modifier: Modifier) -> (r: Style)
        ensures
            r == self.removing(modifier),
    {
        Style {
            fg: self.fg,
            bg: self.bg,
            add_modifier: self.add_modifier.difference(modifier),
            sub_modifier: self.sub_modifier.union(modifier),
        }
    }
}

impl Default for Style {
    fn default() -> (r: Style)
        ensures
            r == Style::plain(),
    {
        Style::unstyled()
    }
}

/// A piece of text in one style.
pub struct Span {
    pub content: String,
    pub style: Style,
}

/// What a span shows.
#[verifier::ext_equal]
pub struct SpanView {
    pub content: Seq<char>,
    pub style: Style,
}

impl View for Span {
    type V = SpanView;

    open spec fn view(&self) -> SpanView {
        SpanView { content: self.content@, style: self.style }
    }
}

impl Span {
    pub fn copy(&self) -> (r: Span)
        ensures
            r@ == self@,
    {
        Span { content: self.content.clone(), style: self.style }
    }
}

/// A line of styled text.
pub struct Line {
    pub spans: Vec<Span>,
}

impl View for Line {
    type V = Seq<SpanView>;

    open spec fn view(&self) -> Seq<SpanView> {
        text::views(self.spans@)
    }
}

/// The characters of a line, whatever their style.
pub open spec fn line_text(spans: Seq<SpanView>) -> Seq<char>
    decreases spans.len(),
{
    if spans.len() == 0 {
        Seq::empty()
    } else {
        line_text(spans.drop_last()) + spans.last().content
    }
}

impl Line {
    /// The characters of the line, whatever their style.
    pub fn text(&self) -> (r: String)
        ensures
            r@ == line_text(self@),
    {
        let mut out = String::new();
        let mut i: usize = 0;
        while i < self.spans.len()
            invariant
                i <= self.spans.len(),
                out@ == line_text(self@.take(i as int)),
            decreases self.spans.len() - i,
        {
            assert(self@.take(i + 1).drop_last() =~= self@.take(i as int));
            out.append(self.spans[i].content.as_str());
            i = i + 1;
        }
        assert(self@.take(self@.len() as int) =~= self@);
        out
    }
}

// ---------------------------------------------------------------------------
// Laws
// ---------------------------------------------------------------------------
/// A colour replaces the one there was, and leaves the other colour and the
/// emphases as they were.
pub proof fn law_colors_are_apart(style: Style, fg: Color, bg: Color)
    ensures
        style.with_fg(fg).fg == Some(fg),
        style.with_fg(fg).bg == style.bg,
        style.with_bg(bg).bg == Some(bg),
        style.with_bg(bg).fg == style.fg,
        style.with_fg(fg).with_bg(bg) == style.with_bg(bg).with_fg(fg),
        style.with_fg(fg).add_modifier == style.add_modifier,
        style.with_fg(fg).sub_modifier == style.sub_modifier,
        style.with_bg(bg).add_modifier == style.add_modifier,
        style.with_bg(bg).sub_modifier == style.sub_modifier,
{
}

/// Emphases that are switched on are on and not off, and the other way round;
/// the others, and the colours, stay as they were. Nothing is in the plain style.
pub proof fn law_emphases(style: Style, m: Modifier)
    ensures
        m.bold ==> style.adding(m).add_modifier.bold && !style.adding(m).sub_modifier.bold,
        m.dim ==> style.adding(m).add_modifier.dim && !style.adding(m).sub_modifier.dim,
        m.italic ==> style.adding(m).add_modifier.italic && !style.adding(m).sub_modifier.italic,
        m.underlined ==> style.adding(m).add_modifier.underlined && !style.adding(
            m,
        ).sub_modifier.underlined,
        m.bold ==> style.removing(m).sub_modifier.bold && !style.removing(m).add_modifier.bold,
        m.dim ==> style.removing(m).sub_modifier.dim && !style.removing(m).add_modifier.dim,
        m.italic ==> style.removing(m).sub_modifier.italic && !style.removing(
            m,
        ).add_modifier.italic,
        m.underlined ==> style.removing(m).sub_modifier.underlined && !style.removing(
            m,
        ).add_modifier.underlined,
        !m.bold ==> style.adding(m).add_modifier.bold == style.add_modifier.bold && style.adding(
            m,
        ).sub_modifier.bold == style.sub_modifier.bold && style.removing(m).add_modifier.bold
            == style.add_modifier.bold && style.removing(m).sub_modifier.bold
            == style.sub_modifier.bold,
        !m.dim ==> style.adding(m).add_modifier.dim == style.add_modifier.dim && style.adding(
            m,
        ).sub_modifier.dim == style.sub_modifier.dim && style.removing(m).add_modifier.dim
            == style.add_modifier.dim && style.removing(m).sub_modifier.dim
            == style.sub_modifier.dim,
        !m.italic ==> style.adding(m).add_modifier.italic == style.add_modifier.italic
            && style.adding(m).sub_modifier.italic == style.sub_modifier.italic && style.removing(
            m,
        ).add_modifier.italic == style.add_modifier.italic && style.removing(m).sub_modifier.italic
            == style.sub_modifier.italic,
        !m.underlined ==> style.adding(m).add_modifier.underlined == style.add_modifier.underlined
            && style.adding(m).sub_modifier.underlined == style.sub_modifier.underlined
            && style.removing(m).add_modifier.underlined == style.add_modifier.underlined
            && style.removing(m).sub_modifier.underlined == style.sub_modifier.underlined,
        style.adding(m).fg == style.fg,
        style.adding(m).bg == style.bg,
        style.removing(m).fg == style.fg,
        style.removing(m).bg == style.bg,
        Style::plain().fg is None,
        Style::plain().bg is None,
        Style::plain().removing(m).add_modifier == Style::plain().add_modifier,
        Style::plain().adding(m).sub_modifier == Style::plain().sub_modifier,
        Style::plain().adding(m).add_modifier == m,
        Style::plain().removing(m).sub_modifier == m,
{
}

/// The text of a line is that of its spans in their order, and nothing else.
pub proof fn law_line_text(a: Seq<SpanView>, b: Seq<SpanView>, span: SpanView)
    ensures
        line_text(a + b) == line_text(a) + line_text(b),
        line_text(seq![span]) == span.content,
    decreases b.len(),
{
    assert(seq![span].drop_last() =~= Seq::<SpanView>::empty());
    assert(line_text(Seq::<SpanView>::empty()) + span.content =~= span.content);
    if b.len() == 0 {
        assert(a + b =~= a);
        assert(line_text(a) + line_text(b) =~= line_text(a));
    } else {
        law_line_text(a, b.drop_last(), span);
        assert((a + b).drop_last() =~= a + b.drop_last());
        assert(line_text(a) + line_text(b.drop_last()) + b.last().content =~= line_text(a) + (
        line_text(b.drop_last()) + b.last().content));
    }
}

/// A line is seen as its pieces in their order, each with its text and its style.
pub proof fn law_lines_are_seen_as_they_are(line: Line, i: int)
    ensures
        line@.len() == line.spans@.len(),
        0 <= i < line@.len() ==> line@[i].content == line.spans@[i].content@ && line@[i].style
            == line.spans@[i].style,
{
}

} // verus!
