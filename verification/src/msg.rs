//! The popup that shows a message.
use vstd::prelude::*;

use crate::layout::Area;
use crate::selection;
use crate::selection::ScrollType;
use crate::text;
use crate::themed;
use crate::themed::{Role, ThemedLine, ThemedSpan, ThemedSpanView};

verus! {

pub const POPUP_HEIGHT: u16 = 25;

pub const BORDER_WIDTH: u16 = 2;

pub const MINIMUM_WIDTH: u16 = 60;

// ---------------------------------------------------------------------------
// Wrapping
// ---------------------------------------------------------------------------
/// The error type of `bwrap`.
#[verifier::external_type_specification]
#[verifier::external_body]
pub struct ExWrapError(bwrap::WrapError);

/// What `bwrap` makes of a text that has to fit into a width, breaking words
/// where it must.
pub uninterp spec fn wrapped_text(text: Seq<char>, width: usize) -> Seq<char>;

/// A text without its line feeds.
pub open spec fn without_line_feeds(s: Seq<char>) -> Seq<char>
    decreases s.len(),
{
    if s.len() == 0 {
        Seq::empty()
    } else if s.last() == '\n' {
        without_line_feeds(s.drop_last())
    } else {
        without_line_feeds(s.drop_last()).push(s.last())
    }
}

/// Whether a text is made of printable ASCII characters and line feeds: each
/// such character takes one cell.
pub open spec fn plain_text(s: Seq<char>) -> bool {
    forall|i: int| 0 <= i < s.len() ==> #[trigger] s[i] == '\n' || ' ' <= s[i] <= '~'
}

/// Whether no line is longer than a width.
pub open spec fn lines_fit(lines: Seq<Seq<char>>, width: int) -> bool {
    forall|i: int| 0 <= i < lines.len() ==> (#[trigger] lines[i]).len() <= width
}

/// `bwrap::Wrapper::new` and `wrap_use_style` with `WrapStyle::MayBrk`: the
/// text with line feeds put in between its characters, and nothing else
/// changed, so that the lines of a plain text fit into the width. `buffer` is room
/// for the result: at most one line feed is put in per character. Where the line
/// feeds go is left to the name.
#[verifier::external_body]
fn wrap_maybrk(text: &str, width: usize, buffer: Vec<u8>) -> (r: Result<String, bwrap::WrapError>)
    requires
        width > 0,
        buffer@.len() >= 2 * vstd::utf8::encode_utf8(text@).len(),
    ensures
        r is Ok,
        r->Ok_0@ == wrapped_text(text@, width),
        without_line_feeds(r->Ok_0@) == without_line_feeds(text@),
        plain_text(text@) ==> lines_fit(text::lines_of(r->Ok_0@), width as int),
{
    let mut buffer = buffer;
    let style = bwrap::WrapStyle::MayBrk(None, None);
    let n = bwrap::Wrapper::new(text, width, &mut buffer)?.wrap_use_style(style)?;
    Ok(String::from_utf8_lossy(&buffer[..n]).into_owned())
}

/// The text, wrapped to a width.
pub fn wrap(text: &str, width: usize) -> (r: String)
    requires
        width > 0,
        2 * vstd::utf8::encode_utf8(text@).len() <= usize::MAX,
    ensures
        r@ == wrapped_text(text@, width),
        without_line_feeds(r@) == without_line_feeds(text@),
        plain_text(text@) ==> lines_fit(text::lines_of(r@), width as int),
{
    let size: usize = text.as_bytes().len();
    let buffer: Vec<u8> = vec![0u8; size * 2];
    match wrap_maybrk(text, width, buffer) {
        Ok(wrapped) => wrapped,
        Err(_) => String::new(),
    }
}

// ---------------------------------------------------------------------------
// The popup
// ---------------------------------------------------------------------------
/// The popup that shows a message.
pub struct MsgPopup {
    pub title: String,
    pub msg: String,
    pub visible: bool,
}

/// Which of the keys that the popup knows was pressed.
#[derive(Clone, Copy, PartialEq, Eq, Structural, Debug)]
pub struct MsgKeys {
    pub exit_popup: bool,
    pub move_down: bool,
    pub popup_down: bool,
    pub move_up: bool,
    pub popup_up: bool,
}

/// A command that is offered to the user.
#[derive(Clone, Copy, PartialEq, Eq, Structural, Debug)]
pub enum MsgOffer {
    Close,
    Navigate,
}

/// How a command is offered.
#[derive(Clone, Copy, PartialEq, Eq, Structural, Debug)]
pub struct MsgCommand {
    pub offer: MsgOffer,
    pub available: bool,
}

/// The length in bytes of the longest line.
pub open spec fn longest_line(lines: Seq<Seq<char>>) -> nat
    decreases lines.len(),
{
    if lines.len() == 0 {
        0
    } else {
        let before = longest_line(lines.drop_last());
        let n = vstd::utf8::encode_utf8(lines.last()).len();
        if n > before {
            n
        } else {
            before
        }
    }
}

/// The width of the popup: that of the longest line and the border, but no less
/// than the minimum, and no more than the screen is wide.
pub open spec fn popup_width(msg: Seq<char>, screen_width: int) -> int {
    selection::max_of(
        MINIMUM_WIDTH as int,
        selection::min_of(
            longest_line(text::lines_of(msg)) + BORDER_WIDTH,
            selection::max_of(screen_width, MINIMUM_WIDTH as int),
        ),
    )
}

/// How many lines of the message fit.
pub open spec fn popup_lines(screen_height: int) -> int {
    selection::min_of(
        POPUP_HEIGHT - BORDER_WIDTH,
        selection::less(screen_height, BORDER_WIDTH as int),
    )
}

/// The area that is cleared: one cell more on each side, as far as there is
/// one.
pub open spec fn cleared(area: Area) -> Area {
    Area {
        x: selection::less(area.x as int, 1) as u16,
        y: selection::less(area.y as int, 1) as u16,
        width: selection::min_of(area.width + 2, u16::MAX as int) as u16,
        height: selection::min_of(area.height + 2, u16::MAX as int) as u16,
    }
}

/// A line of the message.
pub open spec fn message_line(line: Seq<char>) -> Seq<ThemedSpanView> {
    seq![themed::piece(line, Role::Text { enabled: true, selected: false })]
}

/// The lines from `top` on that fit.
pub open spec fn lines_in_view(lines: Seq<Seq<char>>, top: int, height: int) -> Seq<
    Seq<ThemedSpanView>,
> {
    Seq::new(
        selection::min_of(height, selection::less(lines.len() as int, top)) as nat,
        |i: int| message_line(lines[top + i]),
    )
}

impl MsgPopup {
    pub fn new() -> (r: MsgPopup)
        ensures
            r.title@.len() == 0,
            r.msg@.len() == 0,
            !r.visible,
    {
        MsgPopup { title: String::new(), msg: String::new(), visible: false }
    }

    /// Shows a message under a title. The scroll goes back to the top.
    fn set_new_msg(&mut self, msg: &str, title: String)
        ensures
            final(self).title == title,
            final(self).msg@ == msg@,
            final(self).visible,
    {
        self.title = title;
        self.msg = msg.to_owned();
        self.show();
    }

    /// Shows an error, under the title of errors.
    pub fn show_error(&mut self, msg: &str, title: String)
        ensures
            final(self).title == title,
            final(self).msg@ == msg@,
            final(self).visible,
    {
        self.set_new_msg(msg, title);
    }

    /// Shows a note, under the title of notes.
    pub fn show_info(&mut self, msg: &str, title: String)
        ensures
            final(self).title == title,
            final(self).msg@ == msg@,
            final(self).visible,
    {
        self.set_new_msg(msg, title);
    }

    /// The width of the popup on a screen of this width.
    pub fn width(&self, screen_width: u16) -> (r: u16)
        ensures
            r == popup_width(self.msg@, screen_width as int),
    {
        let lines = text::lines(self.msg.as_str());
        let ghost all = text::views(lines@);
        let mut longest: usize = 0;
        let mut i: usize = 0;
        while i < lines.len()
            invariant
                i <= lines.len(),
                all == text::views(lines@),
                longest == longest_line(all.take(i as int)),
            decreases lines.len() - i,
        {
            proof {
                assert(all.take(i + 1).drop_last() =~= all.take(i as int));
                assert(all.take(i + 1).last() == lines@[i as int]@);
            }
            let n: usize = lines[i].as_str().as_bytes().len();
            if n > longest {
                longest = n;
            }
            i = i + 1;
        }
        assert(all.take(all.len() as int) =~= all);
        let max_width: u16 = if screen_width > MINIMUM_WIDTH {
            screen_width
        } else {
            MINIMUM_WIDTH
        };
        if longest >= (max_width - BORDER_WIDTH) as usize {
            max_width
        } else if longest <= (MINIMUM_WIDTH - BORDER_WIDTH) as usize {
            MINIMUM_WIDTH
        } else {
            longest as u16 + BORDER_WIDTH
        }
    }

    /// The lines of the message, in an area of this width.
    pub fn msg_lines(&self, area_width: u16) -> (r: Vec<String>)
        requires
            area_width > BORDER_WIDTH,
            2 * vstd::utf8::encode_utf8(self.msg@).len() <= usize::MAX,
        ensures
            text::views(r@) == text::lines_of(
                wrapped_text(self.msg@, (area_width - BORDER_WIDTH) as usize),
            ),
            plain_text(self.msg@) ==> lines_fit(text::views(r@), area_width - BORDER_WIDTH),
    {
        let wrapped = wrap(self.msg.as_str(), (area_width - BORDER_WIDTH) as usize);
        text::lines(wrapped.as_str())
    }

    /// How many lines of the message fit on a screen of this height.
    pub fn height(screen_height: u16) -> (r: u16)
        ensures
            r == popup_lines(screen_height as int),
    {
        let room: u16 = if screen_height >= BORDER_WIDTH {
            screen_height - BORDER_WIDTH
        } else {
            0
        };
        if room < POPUP_HEIGHT - BORDER_WIDTH {
            room
        } else {
            POPUP_HEIGHT - BORDER_WIDTH
        }
    }

    /// The lines from `top` on that fit.
    pub fn scrolled_lines(lines: &Vec<String>, top: usize, height: u16) -> (r: Vec<ThemedLine>)
        ensures
            text::views(r@) == lines_in_view(text::views(lines@), top as int, height as int),
    {
        let ghost all = text::views(lines@);
        let rest: usize = if lines.len() > top {
            lines.len() - top
        } else {
            0
        };
        let n: usize = if rest < height as usize {
            rest
        } else {
            height as usize
        };
        let ghost goal = lines_in_view(all, top as int, height as int);
        let mut out: Vec<ThemedLine> = Vec::new();
        let mut i: usize = 0;
        while i < n
            invariant
                i <= n <= rest,
                rest == selection::less(lines.len() as int, top as int),
                n == goal.len(),
                all == text::views(lines@),
                goal == lines_in_view(all, top as int, height as int),
                text::views(out@) == goal.take(i as int),
            decreases n - i,
        {
            let mut spans: Vec<ThemedSpan> = Vec::new();
            spans.push(
                ThemedSpan::new(
                    lines[top + i].clone(),
                    Role::Text { enabled: true, selected: false },
                ),
            );
            let line = ThemedLine { spans };
            proof {
                assert(line@ =~= message_line(all[top + i]));
                text::lemma_views_push(out@, line);
                assert(goal.take(i + 1) =~= goal.take(i as int).push(line@));
            }
            out.push(line);
            i = i + 1;
        }
        assert(goal.take(goal.len() as int) =~= goal);
        out
    }

    /// The area that is cleared for a popup: wide characters beside the popup
    /// must not reach into its border.
    pub fn clear_area(area: Area) -> (r: Area)
        ensures
            r == cleared(area),
    {
        Area {
            x: if area.x > 0 {
                area.x - 1
            } else {
                0
            },
            y: if area.y > 0 {
                area.y - 1
            } else {
                0
            },
            width: area.width.saturating_add(2),
            height: area.height.saturating_add(2),
        }
    }

    /// The commands that are offered.
    pub fn commands(&self) -> (r: Vec<MsgCommand>)
        ensures
            r@ == seq![
                MsgCommand { offer: MsgOffer::Close, available: self.visible },
                MsgCommand { offer: MsgOffer::Navigate, available: self.visible },
            ],
    {
        let mut out: Vec<MsgCommand> = Vec::new();
        out.push(MsgCommand { offer: MsgOffer::Close, available: self.visible });
        out.push(MsgCommand { offer: MsgOffer::Navigate, available: self.visible });
        assert(out@ =~= seq![
            MsgCommand { offer: MsgOffer::Close, available: self.visible },
            MsgCommand { offer: MsgOffer::Navigate, available: self.visible },
        ]);
        out
    }

    /// Which way a key scrolls the message.
    pub open spec fn scroll_of(keys: MsgKeys) -> Option<ScrollType> {
        if keys.exit_popup {
            None
        } else if keys.move_down || keys.popup_down {
            Some(ScrollType::Down)
        } else if keys.move_up || keys.popup_up {
            Some(ScrollType::Up)
        } else {
            None
        }
    }

    /// Does what a key means. Returns whether the event was used up, and which
    /// way the message is scrolled. A popup that is shown uses up every event.
    pub fn event(&mut self, keys: Option<MsgKeys>) -> (r: (bool, Option<ScrollType>))
        ensures
            r.0 == old(self).visible,
            *final(self) == (MsgPopup {
                visible: old(self).visible && !(keys is Some && keys->0.exit_popup),
                ..*old(self)
            }),
            r.1 == if old(self).visible && keys is Some {
                MsgPopup::scroll_of(keys->0)
            } else {
                None
            },
    {
        if !self.visible {
            return (false, None);
        }
        match keys {
            Some(keys) => if keys.exit_popup {
                self.close();
                (true, None)
            } else if keys.move_down || keys.popup_down {
                (true, Some(ScrollType::Down))
            } else if keys.move_up || keys.popup_up {
                (true, Some(ScrollType::Up))
            } else {
                (true, None)
            },
            None => (true, None),
        }
    }

    pub fn is_visible(&self) -> (r: bool)
        ensures
            r == self.visible,
    {
        self.visible
    }

    pub fn close(&mut self)
        ensures
            *final(self) == (MsgPopup { visible: false, ..*old(self) }),
    {
        self.visible = false;
    }

    pub fn show(&mut self)
        ensures
            *final(self) == (MsgPopup { visible: true, ..*old(self) }),
    {
        self.visible = true;
    }
}

// ---------------------------------------------------------------------------
// Laws
// ---------------------------------------------------------------------------
/// The popup is never narrower than the minimum, and never wider than the
/// screen unless the screen is narrower than the minimum.
pub proof fn law_popup_width(msg: Seq<char>, screen_width: int)
    ensures
        popup_width(msg, screen_width) >= MINIMUM_WIDTH,
        screen_width >= MINIMUM_WIDTH ==> popup_width(msg, screen_width) <= screen_width,
        screen_width < MINIMUM_WIDTH ==> popup_width(msg, screen_width) == MINIMUM_WIDTH,
{
}

/// The cleared area reaches over the popup, and one cell further wherever the
/// screen has one.
pub proof fn law_cleared_area(area: Area)
    requires
        area.x + area.width < u16::MAX,
        area.y + area.height < u16::MAX,
    ensures
        cleared(area).x <= area.x,
        cleared(area).y <= area.y,
        area.x > 0 ==> cleared(area).x == area.x - 1,
        area.y > 0 ==> cleared(area).y == area.y - 1,
        cleared(area).x + cleared(area).width >= area.x + area.width + 1 || cleared(area).width
            == u16::MAX,
        cleared(area).y + cleared(area).height >= area.y + area.height + 1 || cleared(area).height
            == u16::MAX,
{
}

/// The longest line is as long as some line, and no line is longer.
pub proof fn law_longest_line(lines: Seq<Seq<char>>, i: int)
    ensures
        0 <= i < lines.len() ==> vstd::utf8::encode_utf8(lines[i]).len() <= longest_line(lines),
        lines.len() == 0 ==> longest_line(lines) == 0,
        lines.len() > 0 ==> exists|k: int|
            0 <= k < lines.len() && vstd::utf8::encode_utf8(#[trigger] lines[k]).len()
                == longest_line(lines),
    decreases lines.len(),
{
    if lines.len() > 0 {
        let front = lines.drop_last();
        law_longest_line(front, i);
        let last = lines.len() - 1;
        assert(lines.last() == lines[last]);
        if 0 <= i < last {
            assert(front[i] == lines[i]);
        }
        if front.len() > 0 && longest_line(lines) == longest_line(front) {
            let k = choose|k: int|
                0 <= k < front.len() && vstd::utf8::encode_utf8(#[trigger] front[k]).len()
                    == longest_line(front);
            assert(lines[k] == front[k]);
        } else {
            assert(vstd::utf8::encode_utf8(lines[last]).len() == longest_line(lines));
        }
    }
}

/// Between sixty cells and the width of the screen the popup is as wide as its longest
/// line and the border of two cells. It shows twenty-three lines, or as many as the
/// screen has room for beside the border.
pub proof fn law_popup_size(msg: Seq<char>, screen_width: int, screen_height: int)
    requires
        0 <= screen_height,
    ensures
        ({
            let wanted = longest_line(text::lines_of(msg)) + 2;
            &&& 60 <= wanted <= screen_width ==> popup_width(msg, screen_width) == wanted
            &&& wanted <= 60 ==> popup_width(msg, screen_width) == 60
            &&& 60 <= screen_width <= wanted ==> popup_width(msg, screen_width) == screen_width
        }),
        screen_height >= 25 ==> popup_lines(screen_height) == 23,
        2 <= screen_height <= 25 ==> popup_lines(screen_height) + 2 == screen_height,
        screen_height < 2 ==> popup_lines(screen_height) == 0,
{
}

/// As many lines of the message are shown as fit, from the first one in view on, each as
/// it is.
pub proof fn law_lines_in_view(lines: Seq<Seq<char>>, top: int, height: int, i: int)
    requires
        0 <= top,
        0 <= height,
    ensures
        ({
            let out = lines_in_view(lines, top, height);
            &&& out.len() <= height
            &&& top + out.len() <= lines.len() || out.len() == 0
            &&& out.len() == height || top + out.len() >= lines.len()
            &&& 0 <= i < out.len() ==> themed::themed_text(out[i]) == lines[top + i]
            &&& 0 <= i < out.len() ==> out[i].len() == 1 && out[i][0].role == (Role::Text {
                enabled: true,
                selected: false,
            })
        }),
{
    let out = lines_in_view(lines, top, height);
    if 0 <= i < out.len() {
        assert(out[i] =~= seq![out[i][0]]);
        themed::law_themed_text(Seq::empty(), Seq::empty(), out[i][0]);
    }
}

/// The cleared area is two cells wider and two cells higher than the popup.
pub proof fn law_cleared_size(area: Area)
    requires
        area.width + 2 <= u16::MAX,
        area.height + 2 <= u16::MAX,
    ensures
        cleared(area).width == area.width + 2,
        cleared(area).height == area.height + 2,
        area.x == 0 ==> cleared(area).x == 0,
        area.y == 0 ==> cleared(area).y == 0,
{
}

/// Either key down scrolls the message down, either key up scrolls it up, and the key
/// that leaves scrolls nothing.
pub proof fn law_scroll_keys(keys: MsgKeys)
    ensures
        keys.exit_popup ==> MsgPopup::scroll_of(keys) is None,
        !keys.exit_popup && (keys.move_down || keys.popup_down) && !keys.move_up && !keys.popup_up
            ==> MsgPopup::scroll_of(keys) == Some(ScrollType::Down),
        !keys.exit_popup && (keys.move_up || keys.popup_up) && !keys.move_down && !keys.popup_down
            ==> MsgPopup::scroll_of(keys) == Some(ScrollType::Up),
        !keys.move_down && !keys.popup_down && !keys.move_up && !keys.popup_up
            ==> MsgPopup::scroll_of(keys) is None,
{
}

/// Taking out the line feeds leaves all other characters in their order.
pub proof fn law_without_line_feeds(a: Seq<char>, b: Seq<char>)
    ensures
        without_line_feeds(a + seq!['\n'] + b) == without_line_feeds(a + b),
        !b.contains('\n') ==> without_line_feeds(a + b) == without_line_feeds(a) + b,
    decreases b.len(),
{
    if b.len() == 0 {
        assert(a + seq!['\n'] + b =~= a.push('\n'));
        assert(a.push('\n').drop_last() =~= a);
        assert(a + b =~= a);
        assert(without_line_feeds(a) + b =~= without_line_feeds(a));
    } else {
        let front = b.drop_last();
        law_without_line_feeds(a, front);
        assert((a + seq!['\n'] + b).drop_last() =~= a + seq!['\n'] + front);
        assert((a + b).drop_last() =~= a + front);
        if !b.contains('\n') {
            assert(b.contains(b[b.len() - 1]));
            if front.contains('\n') {
                let i = choose|i: int| 0 <= i < front.len() && front[i] == '\n';
                assert(b[i] == '\n');
            }
            assert((without_line_feeds(a) + front).push(b.last()) =~= without_line_feeds(a) + b);
        }
    }
}

/// A message is shown as it is, under its title.
pub proof fn law_shown_message(popup: &mut MsgPopup, msg: &str, title: String)
    requires
        call_ensures(MsgPopup::show_error, (popup, msg, title), ()) || call_ensures(
            MsgPopup::show_info,
            (popup, msg, title),
            (),
        ),
    ensures
        final(popup).visible,
        final(popup).msg@ == msg@,
        final(popup).title@ == title@,
{
}

/// A popup that is hidden uses no event. One that is shown uses every event and is hidden
/// by the key that leaves, and by no other; its message and its title never change.
pub proof fn law_message_events(
    popup: &mut MsgPopup,
    keys: Option<MsgKeys>,
    r: (bool, Option<ScrollType>),
)
    requires
        call_ensures(MsgPopup::event, (popup, keys), r),
    ensures
        r.0 <==> old(popup).visible,
        final(popup).msg == old(popup).msg,
        final(popup).title == old(popup).title,
        !old(popup).visible ==> !final(popup).visible && r.1 is None,
        old(popup).visible ==> (final(popup).visible <==> !(keys is Some && keys->0.exit_popup)),
        keys is None ==> r.1 is None,
        old(popup).visible ==> (keys matches Some(k) ==> r.1 == MsgPopup::scroll_of(k)),
{
}

/// To close the popup and to move through it are offered exactly while it is shown.
pub proof fn law_offered_commands(popup: MsgPopup, r: Vec<MsgCommand>, i: int)
    requires
        call_ensures(MsgPopup::commands, (&popup,), r),
    ensures
        r@.len() == 2,
        r@[0].offer is Close,
        r@[1].offer is Navigate,
        0 <= i < 2 ==> r@[i].available == popup.visible,
{
}

/// Of a key that is bound to both ways the way down counts.
pub proof fn law_first_way_counts(keys: MsgKeys)
    ensures
        !keys.exit_popup && (keys.move_down || keys.popup_down) ==> MsgPopup::scroll_of(keys) == Some(
            ScrollType::Down,
        ),
{
}

} // verus!
