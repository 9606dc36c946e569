//! What the component that shows a diff puts on the screen.
use vstd::prelude::*;

use crate::delta;
use crate::diff_component;
use crate::diff_component::{DiffComponent, DiffMode};
use crate::diff_view;
use crate::diff_view::{Marked, TextRules};
use crate::hunks;
use crate::layout;
use crate::layout::Area;
use crate::selection;
use crate::side_by_side;
use crate::text;
use crate::themed::ThemedLine;

verus! {

/// What fills the area of the component.
#[derive(Clone, Copy, PartialEq, Eq, Structural, Debug)]
pub enum DrawKind {
    /// A note that the diff is being read.
    Loading,
    /// The unified view.
    Unified,
    /// Two columns.
    SideBySide,
    /// The preview of delta.
    Delta,
}

/// What is known before anything is drawn.
pub struct DrawPlan {
    pub kind: DrawKind,
    /// The line that the vertical scroll keeps in view.
    pub cursor: usize,
    /// How many lines the vertical scroll goes through.
    pub lines: usize,
    /// How many of them fit.
    pub height: usize,
    /// How wide the longest line is.
    pub longest_line: usize,
    /// How much of it fits.
    pub text_width: usize,
    /// The title of the component.
    pub title: String,
    /// Which hunk is selected, out of how many.
    pub hunk_info: String,
    /// Whether the bars of the scrolls are drawn.
    pub draw_vertical: bool,
    pub draw_horizontal: bool,
}

/// The titles of the two columns.
pub struct ColumnTitles {
    pub left: String,
    pub right: String,
}

/// The part of a size inside a border.
pub open spec fn inner(n: u16) -> u16 {
    selection::less(n as int, 2) as u16
}

fn inside(n: u16) -> (r: u16)
    ensures
        r == inner(n),
{
    if n >= 2 {
        n - 2
    } else {
        0
    }
}

impl DiffComponent {
    /// What fills the area. A diff that is being read is not shown.
    pub open spec fn draw_kind(&self) -> DrawKind {
        if self.pending {
            DrawKind::Loading
        } else if self.diff_mode == DiffMode::SideBySide {
            DrawKind::SideBySide
        } else if self.diff_mode.is_preview() {
            DrawKind::Delta
        } else {
            DrawKind::Unified
        }
    }

    /// How many lines the vertical scroll goes through.
    pub open spec fn scroll_len(&self) -> int {
        if self.diff_mode == DiffMode::SideBySide {
            self.row_len()
        } else {
            self.line_count()
        }
    }

    /// Which hunk is selected, out of how many.
    pub open spec fn hunk_text(&self) -> Seq<char> {
        let n = diff_component::hunks_of(self.diff).len();
        match self.selected_hunk {
            Some(h) => if n > 0 {
                " ["@ + text::decimal_text((h + 1) as nat) + "/"@ + text::decimal_text(n as nat)
                    + "]"@
            } else {
                Seq::empty()
            },
            None => Seq::empty(),
        }
    }

    /// How far the view can be scrolled to the right.
    pub open spec fn scroll_right_max(&self) -> int {
        selection::less(self.longest_line as int, self.text_width())
    }

    /// Whether the bar of the horizontal scroll is drawn. The preview in two
    /// columns has none.
    pub open spec fn horizontal_bar(&self) -> bool {
        self.focused && self.scroll_right_max() > 0 && !(self.draw_kind() is Delta
            && self.diff_mode == DiffMode::DeltaSideBySide)
    }

    /// Takes over the size of the area that the component is drawn in.
    pub fn resize(&mut self, width: u16, height: u16)
        ensures
            *final(self) == (DiffComponent {
                current_size: (inner(width), inner(height)),
                ..*old(self)
            }),
    {
        self.current_size = (inside(width), inside(height));
    }

    /// Calculate the line number width needed for side-by-side mode
    pub fn get_line_num_width(&self) -> (r: usize)
        ensures
            r == self.number_width(),
            1 <= r <= 10,
    {
        match &self.diff {
            Some(file) => hunks::line_number_width(file),
            None => 1,
        }
    }

    /// The width that is left for the text of a line.
    fn panel_content_width(&self) -> (r: usize)
        ensures
            r == self.text_width(),
    {
        let line_num_width: usize = self.get_line_num_width();
        let width: usize = self.current_size.0 as usize;
        let (room, overhead): (usize, usize) = if self.diff_mode == DiffMode::SideBySide {
            (width / 2, line_num_width + 4)
        } else if self.diff_mode.is_delta_preview() {
            (width, 0)
        } else {
            (width, line_num_width * 2 + 3)
        };
        if room >= overhead {
            room - overhead
        } else {
            0
        }
    }

    /// How far the view can be scrolled to the right.
    pub fn max_scroll_right(&self) -> (r: usize)
        ensures
            r == self.scroll_right_max(),
    {
        let available: usize = self.panel_content_width();
        if self.longest_line >= available {
            self.longest_line - available
        } else {
            0
        }
    }

    fn hunk_info(&self) -> (r: String)
        requires
            self.wf(),
        ensures
            r@ == self.hunk_text(),
    {
        let n: usize = match &self.diff {
            Some(file) => file.hunks.len(),
            None => 0,
        };
        match self.selected_hunk {
            Some(h) => {
                if n == 0 {
                    return String::new();
                }
                let mut out = " [".to_owned();
                out.append(text::decimal((h + 1) as u64).as_str());
                out.append("/");
                out.append(text::decimal(n as u64).as_str());
                out.append("]");
                out
            },
            None => String::new(),
        }
    }

    /// What is known before anything is drawn. `heading` stands in front of
    /// the path in the title.
    pub fn draw(&self, heading: &str) -> (r: DrawPlan)
        requires
            self.wf(),
        ensures
            r.kind == self.draw_kind(),
            r.cursor == self.selection.end(),
            r.lines == self.scroll_len(),
            r.height == self.current_size.1,
            r.longest_line == self.longest_line,
            r.text_width == self.text_width(),
            r.hunk_info@ == self.hunk_text(),
            r.title@ == heading@ + self.current.path@ + (if self.diff_mode == DiffMode::SideBySide {
                Seq::empty()
            } else {
                self.hunk_text()
            }),
            r.draw_vertical == self.focused,
            r.draw_horizontal == self.horizontal_bar(),
    {
        let kind = if self.pending {
            DrawKind::Loading
        } else if self.diff_mode == DiffMode::SideBySide {
            DrawKind::SideBySide
        } else if self.diff_mode.is_delta_preview() {
            DrawKind::Delta
        } else {
            DrawKind::Unified
        };
        let lines: usize = if self.diff_mode == DiffMode::SideBySide {
            self.side_by_side_lines_count()
        } else {
            self.lines_count()
        };
        let hunk_info = self.hunk_info();
        let empty = String::new();
        let title = if self.diff_mode == DiffMode::SideBySide {
            text::concat3(heading, self.current.path.as_str(), empty.as_str())
        } else {
            text::concat3(heading, self.current.path.as_str(), hunk_info.as_str())
        };
        let draw_horizontal = self.focused && self.max_scroll_right() > 0 && !(kind
            == DrawKind::Delta && self.diff_mode == DiffMode::DeltaSideBySide);
        DrawPlan {
            kind,
            cursor: self.selection.get_end(),
            lines,
            height: self.current_size.1 as usize,
            longest_line: self.longest_line,
            text_width: self.panel_content_width(),
            title,
            hunk_info,
            draw_vertical: self.focused,
            draw_horizontal,
        }
    }

    fn get_marked(&self) -> (r: Marked)
        ensures
            r == self.marked(),
    {
        Marked {
            focused: self.focused,
            selection: self.selection,
            selected_hunk: self.selected_hunk,
        }
    }

    /// Whether `out` is the unified view: the sizes of a binary file where
    /// there is no hunk, and nothing without a diff.
    pub open spec fn shows_text<F: Fn(&String, usize) -> String>(
        &self,
        out: Seq<ThemedLine>,
        width: u16,
        height: u16,
        top: usize,
        scrolled_right: usize,
        rules: &TextRules<F>,
    ) -> bool {
        match self.diff {
            None => out.len() == 0,
            Some(file) => if file.hunks@.len() == 0 {
                &&& text::views(out) == seq![diff_view::binary_line(file.sizes, file.size_delta)]
                &&& diff_view::small_sizes_plain(file.sizes, file.size_delta)
            } else {
                diff_view::shows_lines(
                    out,
                    file@.hunks,
                    width,
                    height,
                    top,
                    scrolled_right,
                    self.marked(),
                    rules,
                )
            },
        }
    }

    /// The unified view, in an area of this width and with room for `height`
    /// lines, scrolled to the line `top`.
    pub fn get_text<F: Fn(&String, usize) -> String>(
        &self,
        width: u16,
        height: u16,
        top: usize,
        scrolled_right: usize,
        rules: &TextRules<F>,
    ) -> (r: Vec<ThemedLine>)
        requires
            self.wf(),
            rules.usable(),
        ensures
            self.shows_text(r@, width, height, top, scrolled_right, rules),
    {
        match &self.diff {
            Some(file) => if file.hunks.len() == 0 {
                let line = diff_view::get_text_binary(file);
                let mut out: Vec<ThemedLine> = Vec::new();
                out.push(line);
                assert(text::views(out@) =~= seq![line@]);
                out
            } else {
                diff_view::unified_text(
                    file,
                    width,
                    height,
                    top,
                    scrolled_right,
                    self.get_marked(),
                    rules,
                )
            },
            None => Vec::new(),
        }
    }

    /// The preview, scrolled to the line `top`.
    pub fn draw_delta(&self, height: u16, top: usize, scrolled_right: usize) -> (r: Vec<ThemedLine>)
        ensures
            text::views(r@) == delta::preview_text(
                delta::opt_lines(self.delta_output),
                top as int,
                height as int,
                scrolled_right as int,
                self.current_size.0 as nat,
                self.selection.end() as int,
            ),
    {
        delta::delta_text(
            &self.delta_output,
            top,
            height,
            scrolled_right,
            self.current_size.0 as usize,
            self.selection.get_end(),
        )
    }

    /// The rows in view.
    pub open spec fn rows_in_view(&self, height: u16, top: usize, tab: nat) -> Seq<
        side_by_side::SideBySideLineView,
    > {
        side_by_side::shown_rows(
            diff_component::hunks_of(self.diff),
            top as int,
            top + height,
            tab,
        )
    }

    /// The rows in view, scrolled to the row `top`.
    pub fn get_side_by_side_lines(&self, height: u16, top: usize, tab: usize) -> (r: Vec<
        side_by_side::SideBySideLine,
    >)
        requires
            self.wf(),
        ensures
            text::views(r@) == self.rows_in_view(height, top, tab as nat),
    {
        match &self.diff {
            Some(file) => side_by_side::side_by_side_lines(file, top, height, tab),
            None => {
                let out: Vec<side_by_side::SideBySideLine> = Vec::new();
                assert(text::views(out@) =~= self.rows_in_view(height, top, tab as nat));
                out
            },
        }
    }

    /// The width of the text in a column of this width.
    pub open spec fn column_text_width(&self, column_width: u16) -> usize {
        selection::less(column_width as int, self.number_width() + 4) as usize
    }

    /// Whether these are the two columns of the rows in view.
    pub open spec fn shows_rows<F: Fn(&String, usize) -> String>(
        &self,
        left: Seq<ThemedLine>,
        right: Seq<ThemedLine>,
        column_width: u16,
        height: u16,
        top: usize,
        scrolled_right: usize,
        rules: &TextRules<F>,
    ) -> bool {
        diff_view::shows_columns(
            left,
            right,
            self.rows_in_view(height, top, rules.tab as nat),
            self.column_text_width(column_width),
            self.number_width() as usize,
            scrolled_right,
            self.marked(),
            rules,
        )
    }

    /// The two columns, for a left column of this width.
    pub fn side_by_side_columns<F: Fn(&String, usize) -> String>(
        &self,
        column_width: u16,
        height: u16,
        top: usize,
        scrolled_right: usize,
        rules: &TextRules<F>,
    ) -> (r: (Vec<ThemedLine>, Vec<ThemedLine>))
        requires
            self.wf(),
            rules.usable(),
        ensures
            self.shows_rows(r.0@, r.1@, column_width, height, top, scrolled_right, rules),
    {
        let lines = self.get_side_by_side_lines(height, top, rules.tab);
        let line_num_width: usize = self.get_line_num_width();
        let overhead: usize = line_num_width + 4;
        let panel_width: usize = if column_width as usize >= overhead {
            column_width as usize - overhead
        } else {
            0
        };
        diff_view::columns(
            &lines,
            panel_width,
            line_num_width,
            scrolled_right,
            self.get_marked(),
            rules,
        )
    }

    /// The titles of the two columns.
    pub fn column_titles(&self, title: &str) -> (r: ColumnTitles)
        requires
            self.wf(),
        ensures
            r.left@ == title@ + " [Old]"@ + self.hunk_text(),
            r.right@ == "[New]"@ + self.hunk_text(),
    {
        let info = self.hunk_info();
        let mut right = "[New]".to_owned();
        right.append(info.as_str());
        ColumnTitles { left: text::concat3(title, " [Old]", info.as_str()), right }
    }

    /// The two halves of an area with the columns that stand in them.
    pub fn draw_side_by_side<F: Fn(&String, usize) -> String>(
        &self,
        area: Area,
        height: u16,
        top: usize,
        scrolled_right: usize,
        rules: &TextRules<F>,
    ) -> (r: ((Area, Vec<ThemedLine>), (Area, Vec<ThemedLine>)))
        requires
            self.wf(),
            rules.usable(),
            area.x + area.width <= u16::MAX,
        ensures
            layout::share_columns(area, 50, (r.0.0, r.1.0)),
            self.shows_rows(r.0.1@, r.1.1@, r.0.0.width, height, top, scrolled_right, rules),
    {
        let (left, right) = layout::split_columns(area, 50, 50);
        let (left_text, right_text) = self.side_by_side_columns(
            left.width,
            height,
            top,
            scrolled_right,
            rules,
        );
        ((left, left_text), (right, right_text))
    }
}

// ---------------------------------------------------------------------------
// Laws
// ---------------------------------------------------------------------------
/// Switching four times leads back to the first mode.
pub proof fn law_modes_cycle(mode: DiffMode)
    ensures
        mode.following().following().following().following() == mode,
        mode.following() != mode,
{
}

/// Away from the last hunk, the hunk in front of the next one is the selected
/// one.
pub proof fn law_next_then_previous_hunk(component: DiffComponent, next: DiffComponent, h: usize)
    requires
        component.selected_hunk == Some(h),
        h + 1 < diff_component::hunks_of(component.diff).len() <= usize::MAX,
        next.diff == component.diff,
        next.selected_hunk == component.hunk_target(1),
    ensures
        next.selected_hunk == Some((h + 1) as usize),
        next.hunk_target(-1) == Some(h),
{
}

/// A border takes one cell off each side, as far as there are cells.
pub proof fn law_inside_border(n: u16)
    ensures
        n >= 2 ==> inner(n) + 2 == n,
        n < 2 ==> inner(n) == 0,
{
}

/// A diff that is being read is not shown; any other is shown as its mode says, and the
/// vertical scroll goes through what is shown.
pub proof fn law_what_is_drawn(c: DiffComponent)
    ensures
        c.draw_kind() is Loading <==> c.pending,
        !c.pending ==> (c.draw_kind() is Unified <==> c.diff_mode == DiffMode::Unified),
        !c.pending ==> (c.draw_kind() is SideBySide <==> c.diff_mode == DiffMode::SideBySide),
        !c.pending ==> (c.draw_kind() is Delta <==> c.diff_mode == DiffMode::Delta || c.diff_mode
            == DiffMode::DeltaSideBySide),
        c.diff_mode == DiffMode::Unified ==> c.scroll_len() == c.diff_len(),
        c.diff_mode == DiffMode::SideBySide ==> c.scroll_len() == c.row_len(),
        c.diff_mode == DiffMode::Delta || c.diff_mode == DiffMode::DeltaSideBySide ==> c.scroll_len()
            == c.preview_len(),
{
}

/// The title tells which hunk is selected, counted from one on, and how many there are;
/// without a hunk it tells nothing.
pub proof fn law_hunk_text(c: DiffComponent, h: usize)
    ensures
        ({
            let n = diff_component::hunks_of(c.diff).len();
            &&& c.selected_hunk == Some(h) && n > 0 ==> c.hunk_text() == seq![' ', '[']
                + text::decimal_text((h + 1) as nat) + seq!['/'] + text::decimal_text(n as nat) + seq![
                ']',
            ]
            &&& c.selected_hunk is None || n == 0 ==> c.hunk_text().len() == 0
        }),
{
    reveal_strlit(" [");
    reveal_strlit("/");
    reveal_strlit("]");
    assert(" ["@ =~= seq![' ', '[']);
    assert("/"@ =~= seq!['/']);
    assert("]"@ =~= seq![']']);
}

/// The view can be scrolled to the right by as much of the longest line as does not fit.
/// Only then, and with the focus, the bar of the scroll is drawn, but not for a preview in
/// two columns.
pub proof fn law_scroll_right(c: DiffComponent)
    ensures
        c.longest_line <= c.text_width() ==> c.scroll_right_max() == 0 && !c.horizontal_bar(),
        c.longest_line >= c.text_width() ==> c.text_width() + c.scroll_right_max() == c.longest_line,
        !c.focused ==> !c.horizontal_bar(),
        c.focused && c.longest_line > c.text_width() ==> (c.horizontal_bar() <==> c.pending
            || c.diff_mode != DiffMode::DeltaSideBySide),
{
}

/// In a column the number of a line and four more cells are taken off the text, as far
/// as there are cells.
pub proof fn law_column_text_width(c: DiffComponent, column_width: u16)
    requires
        0 <= c.number_width(),
    ensures
        c.number_width() + 4 <= column_width ==> c.column_text_width(column_width)
            + c.number_width() + 4 == column_width,
        c.number_width() + 4 > column_width ==> c.column_text_width(column_width) == 0,
{
}

/// The rows in view are those of the diff from the first row in view on.
pub proof fn law_rows_in_view(c: DiffComponent, height: u16, top: usize, tab: nat, k: int)
    requires
        0 <= k < c.rows_in_view(height, top, tab).len(),
    ensures
        ({
            let all = side_by_side::all_rows(diff_component::hunks_of(c.diff), tab);
            &&& top + k < all.len()
            &&& c.rows_in_view(height, top, tab)[k] == all[top + k]
            &&& k <= height
            &&& c.rows_in_view(height, top, tab).len() == if all.len() <= top + height {
                all.len() - top
            } else {
                height + 1
            }
        }),
{    let all = diff_component::hunks_of(c.diff);
    side_by_side::law_view_has_no_gap(all, top as int, top + height, tab);
    side_by_side::lemma_all_rows_len(all, tab);
}

/// The title names the file behind the heading, and outside of two columns the selected
/// hunk behind it; in two columns each title names it. The bar of the vertical scroll is
/// drawn with the focus, and the line at the moving end of the selection is kept in view.
pub proof fn law_plan(
    c: DiffComponent,
    heading: &str,
    plan: DrawPlan,
    title: &str,
    titles: ColumnTitles,
)
    requires
        c.wf(),
        call_ensures(DiffComponent::draw, (&c, heading), plan),
        call_ensures(DiffComponent::column_titles, (&c, title), titles),
    ensures
        c.diff_mode != DiffMode::SideBySide ==> plan.title@ == heading@ + c.current.path@
            + c.hunk_text(),
        c.diff_mode == DiffMode::SideBySide ==> plan.title@ == heading@ + c.current.path@,
        plan.hunk_info@ == c.hunk_text(),
        titles.left@ == title@ + seq![' ', '[', 'O', 'l', 'd', ']'] + c.hunk_text(),
        titles.right@ == seq!['[', 'N', 'e', 'w', ']'] + c.hunk_text(),
        plan.kind == c.draw_kind(),
        plan.cursor == c.selection.end(),
        plan.height == c.current_size.1,
        plan.lines == c.scroll_len(),
        plan.longest_line == c.longest_line,
        plan.text_width == c.text_width(),
        plan.draw_vertical == c.focused,
        plan.draw_horizontal == c.horizontal_bar(),
{
    reveal_strlit(" [Old]");
    reveal_strlit("[New]");
    assert(" [Old]"@ =~= seq![' ', '[', 'O', 'l', 'd', ']']);
    assert("[New]"@ =~= seq!['[', 'N', 'e', 'w', ']']);
    assert(heading@ + c.current.path@ + Seq::<char>::empty() =~= heading@ + c.current.path@);
}

/// The component takes over the size inside its border, and nothing else changes.
pub proof fn law_resize(c: &mut DiffComponent, width: u16, height: u16)
    requires
        call_ensures(DiffComponent::resize, (c, width, height), ()),
    ensures
        final(c).current_size.0 == inner(width),
        final(c).current_size.1 == inner(height),
        *final(c) == (DiffComponent { current_size: final(c).current_size, ..*old(c) }),
{
}

/// The two columns stand side by side in the area and are equally wide, but for one cell
/// where the width is odd.
pub proof fn law_two_halves<F: Fn(&String, usize) -> String>(
    c: DiffComponent,
    area: Area,
    height: u16,
    top: usize,
    scrolled_right: usize,
    rules: &TextRules<F>,
    r: ((Area, Vec<ThemedLine>), (Area, Vec<ThemedLine>)),
)
    requires
        c.wf(),
        rules.usable(),
        area.x + area.width <= u16::MAX,
        call_ensures(
            DiffComponent::draw_side_by_side::<F>,
            (&c, area, height, top, scrolled_right, rules),
            r,
        ),
    ensures
        r.0.0.x == area.x,
        r.0.0.x + r.0.0.width == r.1.0.x,
        r.0.0.width + r.1.0.width == area.width,
        0 <= r.0.0.width - r.1.0.width <= 1,
        r.0.1@.len() == r.1.1@.len(),
        r.0.1@.len() == c.rows_in_view(height, top, rules.tab as nat).len(),
{
    layout::law_columns_fill_area(area, 50, (r.0.0, r.1.0));
    layout::law_percent(area.width as int, 50);
}

/// The rows of the two columns are those in view, marked and measured as the component
/// says.
pub proof fn law_columns_in_view<F: Fn(&String, usize) -> String>(
    c: DiffComponent,
    left: Seq<ThemedLine>,
    right: Seq<ThemedLine>,
    column_width: u16,
    height: u16,
    top: usize,
    scrolled_right: usize,
    rules: &TextRules<F>,
    k: int,
)
    requires
        c.shows_rows(left, right, column_width, height, top, scrolled_right, rules),
        0 <= k < c.rows_in_view(height, top, rules.tab as nat).len(),
    ensures
        ({
            let row = c.rows_in_view(height, top, rules.tab as nat)[k];
            let look = diff_view::RowLook {
                selected: c.focused && row.global_line_idx == c.selection.end(),
                hunk_selected: c.focused && c.selected_hunk is Some && c.selected_hunk->0
                    == row.hunk_idx,
                panel_width: c.column_text_width(column_width),
                line_num_width: c.number_width() as usize,
            };
            &&& left.len() == right.len() == c.rows_in_view(height, top, rules.tab as nat).len()
            &&& diff_view::shows_left(left[k]@, row, look, scrolled_right, rules)
            &&& diff_view::shows_right(right[k]@, row, look, scrolled_right, rules)
        }),
{
}

/// Without a diff nothing is shown. A diff without hunks is that of a binary file and shows
/// its sizes in one line. Any other shows the lines in view.
pub proof fn law_text_in_view<F: Fn(&String, usize) -> String>(
    c: DiffComponent,
    out: Seq<ThemedLine>,
    width: u16,
    height: u16,
    top: usize,
    scrolled_right: usize,
    rules: &TextRules<F>,
)
    requires
        c.shows_text(out, width, height, top, scrolled_right, rules),
    ensures
        c.diff is None ==> out.len() == 0,
        c.diff matches Some(file) ==> file.hunks@.len() == 0 ==> out.len() == 1 && out[0]@
            == diff_view::binary_line(file.sizes, file.size_delta),
        c.diff matches Some(file) ==> file.hunks@.len() > 0 ==> out.len()
            == diff_view::unified_rows(
            file@.hunks,
            top as int,
            height as int,
            Marked {
                focused: c.focused,
                selection: c.selection,
                selected_hunk: c.selected_hunk,
            },
        ).len(),
{
    if let Some(file) = c.diff {
        if file.hunks@.len() == 0 {
            let views = text::views(out);
            assert(views.len() == out.len());
            assert(views[0] == out[0]@);
        }
    }
}

/// The preview is shown as wide as the component, with the line at the moving end of the
/// selection marked.
pub proof fn law_preview_is_drawn(
    c: DiffComponent,
    lines: Vec<crate::style::Line>,
    height: u16,
    top: usize,
    scrolled_right: usize,
    r: Vec<ThemedLine>,
    i: int,
)
    requires
        call_ensures(DiffComponent::draw_delta, (&c, height, top, scrolled_right), r),
        c.delta_output == Some(lines),
        0 <= i < r@.len(),
    ensures
        top + i < lines@.len(),
        i < height,
        top <= c.selection.end() ==> r@[i]@ == delta::preview_line(
            lines@[top + i]@,
            scrolled_right as int,
            c.current_size.0 as nat,
            top + i == c.selection.end(),
        ),
{
    let views = text::views(r@);
    assert(views.len() == r@.len());
    assert(text::views(lines@).len() == lines@.len());
    assert(views == delta::preview_text(
        Some(text::views(lines@)),
        top as int,
        height as int,
        scrolled_right as int,
        c.current_size.0 as nat,
        c.selection.end() as int,
    ));
    assert(views[i] == r@[i]@);
    assert(text::views(lines@)[top + i] == lines@[top + i]@);
}

} // verus!
