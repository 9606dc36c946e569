//! Text whose look is left to a theme: each piece names the role it plays.
use vstd::prelude::*;

use crate::diff::DiffLineType;
use crate::style::Style;
use crate::text;

verus! {

/// The role that a piece of text plays on the screen. The theme knows the
/// style of each role.
#[derive(Clone, Copy, PartialEq, Eq, Structural, Debug)]
pub enum Role {
    /// No style at all.
    Raw,
    /// A style of its own, whatever the theme says.
    Styled(Style),
    /// Ordinary text.
    Text { enabled: bool, selected: bool },
    /// Text of a line of a diff.
    DiffLine { line_type: DiffLineType, selected: bool },
    /// The bar in front of the lines of a hunk.
    HunkMarker { selected: bool },
    /// The name of a commit in a list.
    CommitHash { selected: bool },
    /// The time of a commit in a list.
    CommitTime { selected: bool },
    /// The author of a commit in a list.
    CommitAuthor { selected: bool },
}

/// A piece of text in one role.
pub struct ThemedSpan {
    pub content: String,
    pub role: Role,
}

#[verifier::ext_equal]
pub struct ThemedSpanView {
    pub content: Seq<char>,
    pub role: Role,
}

impl View for ThemedSpan {
    type V = ThemedSpanView;

    open spec fn view(&self) -> ThemedSpanView {
        ThemedSpanView { content: self.content@, role: self.role }
    }
}

/// A line of such pieces.
pub struct ThemedLine {
    pub spans: Vec<ThemedSpan>,
}

impl View for ThemedLine {
    type V = Seq<ThemedSpanView>;

    open spec fn view(&self) -> Seq<ThemedSpanView> {
        text::views(self.spans@)
    }
}

/// A piece of text in a role.
pub open spec fn piece(content: Seq<char>, role: Role) -> ThemedSpanView {
    ThemedSpanView { content, role }
}

/// Ordinary text that is neither active nor selected.
pub open spec fn dim_text() -> Role {
    Role::Text { enabled: false, selected: false }
}

/// The text of a line, whatever its roles.
pub open spec fn themed_text(spans: Seq<ThemedSpanView>) -> Seq<char>
    decreases spans.len(),
{
    if spans.len() == 0 {
        Seq::empty()
    } else {
        themed_text(spans.drop_last()) + spans.last().content
    }
}

impl ThemedSpan {
    pub fn new(content: String, role: Role) -> (r: ThemedSpan)
        ensures
            r@ == piece(content@, role),
    {
        ThemedSpan { content, role }
    }
}

impl ThemedLine {
    /// The text of the line, whatever its roles.
    pub fn text(&self) -> (r: String)
        ensures
            r@ == themed_text(self@),
    {
        let mut out = String::new();
        let mut i: usize = 0;
        while i < self.spans.len()
            invariant
                i <= self.spans.len(),
                out@ == themed_text(self@.take(i as int)),
            decreases self.spans.len() - i,
        {
            assert(self@.take(i + 1).drop_last() =~= self@.take(i as int));
            out.append(self.spans[i].content.as_str());
            i = i + 1;
        }
        assert(self@.take(self@.len() as int) =~= self@);
        out
    }
}

// ---------------------------------------------------------------------------
// Laws
// ---------------------------------------------------------------------------
/// The text of a line is that of its pieces in their order, and nothing else.
pub proof fn law_themed_text(a: Seq<ThemedSpanView>, b: Seq<ThemedSpanView>, span: ThemedSpanView)
    ensures
        themed_text(a + b) == themed_text(a) + themed_text(b),
        themed_text(seq![span]) == span.content,
    decreases b.len(),
{
    assert(seq![span].drop_last() =~= Seq::<ThemedSpanView>::empty());
    assert(themed_text(Seq::<ThemedSpanView>::empty()) + span.content =~= span.content);
    if b.len() == 0 {
        assert(a + b =~= a);
        assert(themed_text(a) + themed_text(b) =~= themed_text(a));
    } else {
        law_themed_text(a, b.drop_last(), span);
        assert((a + b).drop_last() =~= a + b.drop_last());
        assert(themed_text(a) + themed_text(b.drop_last()) + b.last().content =~= themed_text(a) + (
        themed_text(b.drop_last()) + b.last().content));
    }
}

/// One piece more adds its text.
pub proof fn lemma_text_step(spans: Seq<ThemedSpanView>, i: int)
    requires
        0 <= i < spans.len(),
    ensures
        themed_text(spans.take(i + 1)) == themed_text(spans.take(i)) + spans[i].content,
{
    assert(spans.take(i + 1).drop_last() =~= spans.take(i));
}

/// A line is seen as its pieces in their order, each with its text and its role.
pub proof fn law_lines_are_seen_as_they_are(line: ThemedLine, content: Seq<char>, role: Role, i: int)
    ensures
        line@.len() == line.spans@.len(),
        0 <= i < line@.len() ==> line@[i].content == line.spans@[i].content@ && line@[i].role
            == line.spans@[i].role,
        piece(content, role).content == content,
        piece(content, role).role == role,
        dim_text() == (Role::Text { enabled: false, selected: false }),
{
}

} // verus!
