//! A diff as two columns: the old file to the left, the new one to the right.
use vstd::prelude::*;

use crate::diff;
use crate::diff::{DiffLineType, DiffLineView, FileDiff, Hunk, HunkView};
use crate::hunks;
use crate::selection;
use crate::text;

verus! {

// ---------------------------------------------------------------------------
// Rows
// ---------------------------------------------------------------------------
/// Whether the line and the one after it stand in one row: a deleted line and
/// an added one.
pub open spec fn paired(lines: Seq<DiffLineView>, i: int) -> bool {
    lines[i].line_type == DiffLineType::Delete && i + 1 < lines.len() && lines[i + 1].line_type
        == DiffLineType::Add
}

/// How many lines stand in the row that begins with line `i`.
pub open spec fn row_len(lines: Seq<DiffLineView>, i: int) -> int {
    if paired(lines, i) {
        2
    } else {
        1
    }
}

/// How many rows the lines from `i` on make up.
pub open spec fn rows_from(lines: Seq<DiffLineView>, i: int) -> int
    decreases lines.len() - i,
{
    if 0 <= i < lines.len() {
        1 + rows_from(lines, i + row_len(lines, i))
    } else {
        0
    }
}

/// How many rows a hunk has.
pub open spec fn row_count(lines: Seq<DiffLineView>) -> int {
    rows_from(lines, 0)
}

/// How many rows stand in front of a hunk.
pub open spec fn row_offset(hunks: Seq<HunkView>, hunk: int) -> int
    decreases hunk,
{
    if hunk <= 0 {
        0
    } else {
        row_offset(hunks, hunk - 1) + row_count(hunks[hunk - 1].lines)
    }
}

proof fn lemma_rows_bound(lines: Seq<DiffLineView>, i: int)
    requires
        0 <= i,
    ensures
        0 <= rows_from(lines, i),
        i <= lines.len() ==> rows_from(lines, i) <= lines.len() - i,
    decreases lines.len() - i,
{
    if i < lines.len() {
        lemma_rows_bound(lines, i + row_len(lines, i));
    }
}

/// A later hunk begins no earlier.
pub proof fn lemma_row_offset_monotone(hunks: Seq<HunkView>, a: int, b: int)
    requires
        0 <= a <= b <= hunks.len(),
    ensures
        row_offset(hunks, a) <= row_offset(hunks, b),
    decreases b - a,
{
    if a < b {
        lemma_row_offset_monotone(hunks, a, b - 1);
        lemma_rows_bound(hunks[b - 1].lines, 0);
    }
}

pub proof fn lemma_row_offset_bound(hunks: Seq<HunkView>, hunk: int)
    requires
        0 <= hunk <= hunks.len(),
    ensures
        0 <= row_offset(hunks, hunk) <= hunks::offset(hunks, hunk),
        hunks::offset(hunks, hunk) <= diff::flat_lines(hunks).len(),
    decreases hunk,
{
    hunks::lemma_flat_whole(hunks);
    hunks::lemma_offset_monotone(hunks, hunk, hunks.len() as int);
    if hunk > 0 {
        lemma_row_offset_bound(hunks, hunk - 1);
        hunks::lemma_flat_step(hunks, hunk - 1);
        lemma_rows_bound(hunks[hunk - 1].lines, 0);
    }
}

fn is_paired(hunk: &Hunk, i: usize) -> (r: bool)
    requires
        i < hunk.lines@.len(),
    ensures
        r == paired(hunk@.lines, i as int),
{
    hunk.lines[i].line_type == DiffLineType::Delete && i < hunk.lines.len() - 1 && hunk.lines[i
        + 1].line_type == DiffLineType::Add
}

/// How many rows a hunk has.
pub fn hunk_rows(hunk: &Hunk) -> (r: usize)
    ensures
        r == row_count(hunk@.lines),
{
    let mut count: usize = 0;
    let mut i: usize = 0;
    let ghost lines = hunk@.lines;
    while i < hunk.lines.len()
        invariant
            i <= hunk.lines.len(),
            lines == hunk@.lines,
            count <= i,
            count + rows_from(lines, i as int) == row_count(lines),
        decreases hunk.lines.len() - i,
    {
        if is_paired(hunk, i) {
            i = i + 1;
        }
        count = count + 1;
        i = i + 1;
    }
    count
}

/// How many rows the diff has.
pub fn side_by_side_rows(file: &FileDiff) -> (r: usize)
    requires
        file.sound(),
    ensures
        r == row_offset(file@.hunks, file@.hunks.len() as int),
{
    let ghost all = file@.hunks;
    let mut count: usize = 0;
    let mut h: usize = 0;
    while h < file.hunks.len()
        invariant
            h <= file.hunks.len(),
            all == file@.hunks,
            file.sound(),
            count == row_offset(all, h as int),
        decreases file.hunks.len() - h,
    {
        proof {
            lemma_row_offset_bound(all, h + 1);
        }
        count = count + hunk_rows(&file.hunks[h]);
        h = h + 1;
    }
    count
}

/// The hunk that holds a row.
pub fn find_hunk_of_row(file: &FileDiff, row: usize) -> (r: Option<usize>)
    requires
        file.sound(),
    ensures
        match r {
            Some(h) => h < file.hunks.len() && row_offset(file@.hunks, h as int) <= row
                < row_offset(file@.hunks, h + 1),
            None => row >= row_offset(file@.hunks, file@.hunks.len() as int),
        },
{
    let ghost all = file@.hunks;
    let mut cursor: usize = 0;
    let mut h: usize = 0;
    while h < file.hunks.len()
        invariant
            h <= file.hunks.len(),
            all == file@.hunks,
            file.sound(),
            cursor == row_offset(all, h as int) <= row,
        decreases file.hunks.len() - h,
    {
        proof {
            lemma_row_offset_bound(all, h + 1);
        }
        let end: usize = cursor + hunk_rows(&file.hunks[h]);
        if row < end {
            return Some(h);
        }
        cursor = end;
        h = h + 1;
    }
    None
}

// ---------------------------------------------------------------------------
// The rows in view
// ---------------------------------------------------------------------------
/// A single line in side-by-side diff view
pub struct SideBySideLine {
    pub left_content: String,
    pub left_line_num: Option<u32>,
    pub right_content: String,
    pub right_line_num: Option<u32>,
    pub left_type: DiffLineType,
    pub right_type: DiffLineType,
    /// Global line index for selection tracking
    pub global_line_idx: usize,
    /// Index of the hunk this line belongs to
    pub hunk_idx: usize,
    /// Whether this is the first line of a hunk
    pub is_hunk_start: bool,
    /// Whether this is the last line of a hunk
    pub is_hunk_end: bool,
}

#[verifier::ext_equal]
pub struct SideBySideLineView {
    pub left_content: Seq<char>,
    pub left_line_num: Option<u32>,
    pub right_content: Seq<char>,
    pub right_line_num: Option<u32>,
    pub left_type: DiffLineType,
    pub right_type: DiffLineType,
    pub global_line_idx: int,
    pub hunk_idx: int,
    pub is_hunk_start: bool,
    pub is_hunk_end: bool,
}

impl View for SideBySideLine {
    type V = SideBySideLineView;

    open spec fn view(&self) -> SideBySideLineView {
        SideBySideLineView {
            left_content: self.left_content@,
            left_line_num: self.left_line_num,
            right_content: self.right_content@,
            right_line_num: self.right_line_num,
            left_type: self.left_type,
            right_type: self.right_type,
            global_line_idx: self.global_line_idx as int,
            hunk_idx: self.hunk_idx as int,
            is_hunk_start: self.is_hunk_start,
            is_hunk_end: self.is_hunk_end,
        }
    }
}

/// The row that begins with line `i` of a hunk. A deleted line stands to the
/// left of the added line that follows it; an added line without one, to the
/// right of nothing; a header to the left; any other line on both sides.
pub open spec fn row_of(
    lines: Seq<DiffLineView>,
    i: int,
    index: int,
    hunk: int,
    tab: nat,
) -> SideBySideLineView {
    let line = lines[i];
    let content = text::expand_tabs(line.content, tab);
    let none = Seq::<char>::empty();
    let blank = SideBySideLineView {
        left_content: none,
        left_line_num: None,
        right_content: none,
        right_line_num: None,
        left_type: line.line_type,
        right_type: line.line_type,
        global_line_idx: index,
        hunk_idx: hunk,
        is_hunk_start: i == 0,
        is_hunk_end: i + row_len(lines, i) == lines.len(),
    };
    match line.line_type {
        DiffLineType::Delete => {
            let left = SideBySideLineView {
                left_content: content,
                left_line_num: line.position.old_lineno,
                ..blank
            };
            if paired(lines, i) {
                SideBySideLineView {
                    right_content: text::expand_tabs(lines[i + 1].content, tab),
                    right_line_num: lines[i + 1].position.new_lineno,
                    right_type: DiffLineType::Add,
                    ..left
                }
            } else {
                SideBySideLineView { right_type: DiffLineType::Context, ..left }
            }
        },
        DiffLineType::Add => SideBySideLineView {
            left_type: DiffLineType::Context,
            right_content: content,
            right_line_num: line.position.new_lineno,
            ..blank
        },
        DiffLineType::Header => SideBySideLineView { left_content: content, ..blank },
        DiffLineType::Context => SideBySideLineView {
            left_content: content,
            left_line_num: line.position.old_lineno,
            right_content: content,
            right_line_num: line.position.new_lineno,
            ..blank
        },
    }
}

fn make_row(hunk: &Hunk, i: usize, index: usize, hunk_idx: usize, tab: usize) -> (r: SideBySideLine)
    requires
        i < hunk.lines@.len(),
    ensures
        r@ == row_of(hunk@.lines, i as int, index as int, hunk_idx as int, tab as nat),
{
    let line = &hunk.lines[i];
    let pair = is_paired(hunk, i);
    let is_hunk_end = if pair {
        i == hunk.lines.len() - 2
    } else {
        i == hunk.lines.len() - 1
    };
    let content = text::tabs_to_spaces(line.content.as_str(), tab);
    let mut row = SideBySideLine {
        left_content: String::new(),
        left_line_num: None,
        right_content: String::new(),
        right_line_num: None,
        left_type: line.line_type,
        right_type: line.line_type,
        global_line_idx: index,
        hunk_idx,
        is_hunk_start: i == 0,
        is_hunk_end,
    };
    match line.line_type {
        DiffLineType::Delete => {
            row.left_content = content;
            row.left_line_num = line.position.old_lineno;
            if pair {
                let next = &hunk.lines[i + 1];
                row.right_content = text::tabs_to_spaces(next.content.as_str(), tab);
                row.right_line_num = next.position.new_lineno;
                row.right_type = DiffLineType::Add;
            } else {
                row.right_type = DiffLineType::Context;
            }
        },
        DiffLineType::Add => {
            row.left_type = DiffLineType::Context;
            row.right_content = content;
            row.right_line_num = line.position.new_lineno;
        },
        DiffLineType::Header => {
            row.left_content = content;
        },
        DiffLineType::Context => {
            row.left_content = content.clone();
            row.left_line_num = line.position.old_lineno;
            row.right_content = content;
            row.right_line_num = line.position.new_lineno;
        },
    }
    row
}

/// Whether a hunk that reaches from `hunk_min` to `hunk_max` meets the window
/// from `min` to `max`.
pub open spec fn meets(hunk_min: int, hunk_max: int, min: int, max: int) -> bool {
    ||| hunk_min <= min && hunk_max >= max
    ||| min <= hunk_min <= max
    ||| min <= hunk_max <= max
}

/// Whether a hunk meets the window.
pub fn hunk_visible(hunk_min: usize, hunk_max: usize, min: usize, max: usize) -> (r: bool)
    ensures
        r == meets(hunk_min as int, hunk_max as int, min as int, max as int),
{
    (hunk_min <= min && hunk_max >= max) || (hunk_min >= min && hunk_min <= max) || (hunk_max >= min
        && hunk_max <= max)
}

/// All rows of a hunk from line `i` on, numbered from `index`.
pub open spec fn hunk_row_list(
    lines: Seq<DiffLineView>,
    i: int,
    index: int,
    hunk: int,
    tab: nat,
) -> Seq<SideBySideLineView>
    decreases lines.len() - i,
{
    if 0 <= i < lines.len() {
        seq![row_of(lines, i, index, hunk, tab)] + hunk_row_list(
            lines,
            i + row_len(lines, i),
            index + 1,
            hunk,
            tab,
        )
    } else {
        Seq::empty()
    }
}

/// All rows of the diff, numbered from zero.
pub open spec fn all_rows(hunks: Seq<HunkView>, tab: nat) -> Seq<SideBySideLineView>
    decreases hunks.len(),
{
    if hunks.len() == 0 {
        Seq::empty()
    } else {
        let before = all_rows(hunks.drop_last(), tab);
        before + hunk_row_list(hunks.last().lines, 0, before.len() as int, hunks.len() - 1, tab)
    }
}

/// Whether a row has a number from `min` to `max`.
pub open spec fn in_window(min: int, max: int) -> spec_fn(SideBySideLineView) -> bool {
    |row: SideBySideLineView| min <= row.global_line_idx <= max
}

/// The rows of the diff that stand in the window.
pub open spec fn shown_rows(hunks: Seq<HunkView>, min: int, max: int, tab: nat) -> Seq<
    SideBySideLineView,
> {
    all_rows(hunks, tab).filter(in_window(min, max))
}

proof fn lemma_hunk_row_list_len(
    lines: Seq<DiffLineView>,
    i: int,
    index: int,
    hunk: int,
    tab: nat,
)
    requires
        0 <= i,
    ensures
        hunk_row_list(lines, i, index, hunk, tab).len() == rows_from(lines, i),
    decreases lines.len() - i,
{
    if i < lines.len() {
        lemma_hunk_row_list_len(lines, i + row_len(lines, i), index + 1, hunk, tab);
    }
}

proof fn lemma_hunk_row_list(
    lines: Seq<DiffLineView>,
    i: int,
    index: int,
    hunk: int,
    tab: nat,
    k: int,
)
    requires
        0 <= i,
        0 <= k < hunk_row_list(lines, i, index, hunk, tab).len(),
    ensures
        hunk_row_list(lines, i, index, hunk, tab)[k].global_line_idx == index + k,
        hunk_row_list(lines, i, index, hunk, tab)[k].hunk_idx == hunk,
    decreases lines.len() - i,
{
    if k > 0 {
        lemma_hunk_row_list(lines, i + row_len(lines, i), index + 1, hunk, tab, k - 1);
    }
}

pub proof fn lemma_all_rows_len(hunks: Seq<HunkView>, tab: nat)
    ensures
        all_rows(hunks, tab).len() == row_offset(hunks, hunks.len() as int),
    decreases hunks.len(),
{
    if hunks.len() > 0 {
        lemma_all_rows_len(hunks.drop_last(), tab);
        lemma_row_offset_prefix(hunks, hunks.len() - 1);
        lemma_hunk_row_list_len(
            hunks.last().lines,
            0,
            all_rows(hunks.drop_last(), tab).len() as int,
            hunks.len() - 1,
            tab,
        );
    }
}

proof fn lemma_row_offset_prefix(hunks: Seq<HunkView>, hunk: int)
    requires
        0 <= hunk < hunks.len(),
    ensures
        row_offset(hunks.drop_last(), hunk) == row_offset(hunks, hunk),
    decreases hunk,
{
    if hunk > 0 {
        lemma_row_offset_prefix(hunks, hunk - 1);
        assert(hunks.drop_last()[hunk - 1] == hunks[hunk - 1]);
    }
}

/// Where no row passes a test, nothing is left.
proof fn lemma_filter_none(
    rows: Seq<SideBySideLineView>,
    test: spec_fn(SideBySideLineView) -> bool,
)
    requires
        forall|k: int| 0 <= k < rows.len() ==> !test(#[trigger] rows[k]),
    ensures
        rows.filter(test) == Seq::<SideBySideLineView>::empty(),
    decreases rows.len(),
{
    reveal(Seq::filter);
    if rows.len() > 0 {
        let before = rows.drop_last();
        assert forall|k: int| 0 <= k < before.len() implies !test(#[trigger] before[k]) by {
            assert(before[k] == rows[k]);
        }
        lemma_filter_none(before, test);
        assert(!test(rows[rows.len() - 1]));
    }
}

/// One row more: it stands in front of what is left of the others, or nowhere.
proof fn lemma_filter_first(
    row: SideBySideLineView,
    rest: Seq<SideBySideLineView>,
    test: spec_fn(SideBySideLineView) -> bool,
)
    ensures
        (seq![row] + rest).filter(test) == (if test(row) {
            seq![row]
        } else {
            Seq::empty()
        }) + rest.filter(test),
{
    reveal(Seq::filter);
    Seq::filter_distributes_over_add(seq![row], rest, test);
    let one = seq![row];
    assert(one.drop_last() =~= Seq::<SideBySideLineView>::empty());
    assert(one.drop_last().filter(test) =~= Seq::<SideBySideLineView>::empty());
    if test(row) {
        assert(one.filter(test) =~= seq![row]);
    } else {
        assert(one.filter(test) =~= Seq::<SideBySideLineView>::empty());
    }
}

/// A hunk that does not meet the window, as far as its rows can reach, has no
/// row in it.
proof fn lemma_hunk_out_of_window(
    lines: Seq<DiffLineView>,
    first: int,
    hunk: int,
    min: int,
    max: int,
    limit: int,
    tab: nat,
)
    requires
        first + row_count(lines) <= limit,
        !meets(first, first + row_count(lines), min, selection::min_of(max, limit)),
    ensures
        hunk_row_list(lines, 0, first, hunk, tab).filter(in_window(min, max)) == Seq::<
            SideBySideLineView,
        >::empty(),
{
    let rows = hunk_row_list(lines, 0, first, hunk, tab);
    let test = in_window(min, max);
    lemma_hunk_row_list_len(lines, 0, first, hunk, tab);
    assert forall|k: int| 0 <= k < rows.len() implies !test(#[trigger] rows[k]) by {
        lemma_hunk_row_list(lines, 0, first, hunk, tab, k);
    }
    lemma_filter_none(rows, test);
}

/// The rows of a hunk that stand in the window, appended to `out`. The first
/// row of the hunk has the number `first`.
fn push_rows(
    out: &mut Vec<SideBySideLine>,
    hunk: &Hunk,
    hunk_idx: usize,
    first: usize,
    top: usize,
    height: u16,
    tab: usize,
)
    requires
        first + hunk.lines@.len() <= usize::MAX,
    ensures
        text::views(final(out)@) == text::views(old(out)@) + hunk_row_list(
            hunk@.lines,
            0,
            first as int,
            hunk_idx as int,
            tab as nat,
        ).filter(in_window(top as int, top + height)),
{
    let ghost lines = hunk@.lines;
    let ghost test = in_window(top as int, top + height);
    let ghost all = text::views(out@) + hunk_row_list(
        lines,
        0,
        first as int,
        hunk_idx as int,
        tab as nat,
    ).filter(test);
    let mut index: usize = first;
    let mut i: usize = 0;
    while i < hunk.lines.len()
        invariant
            i <= hunk.lines.len(),
            lines == hunk@.lines,
            test == in_window(top as int, top + height),
            first <= index <= first + i,
            first + hunk.lines@.len() <= usize::MAX,
            text::views(out@) + hunk_row_list(
                lines,
                i as int,
                index as int,
                hunk_idx as int,
                tab as nat,
            ).filter(test) == all,
        decreases hunk.lines.len() - i,
    {
        let ghost before = text::views(out@);
        let ghost row = row_of(lines, i as int, index as int, hunk_idx as int, tab as nat);
        let ghost rest = hunk_row_list(
            lines,
            i + row_len(lines, i as int),
            index + 1,
            hunk_idx as int,
            tab as nat,
        );
        proof {
            lemma_filter_first(row, rest, test);
            assert(before + (seq![row] + rest.filter(test)) =~= before.push(row) + rest.filter(
                test,
            ));
            assert(before + (Seq::<SideBySideLineView>::empty() + rest.filter(test)) =~= before
                + rest.filter(test));
        }
        if index >= top && index - top <= height as usize {
            let made = make_row(hunk, i, index, hunk_idx, tab);
            proof {
                text::lemma_views_push(out@, made);
            }
            out.push(made);
        }
        if is_paired(hunk, i) {
            i = i + 1;
        }
        index = index + 1;
        i = i + 1;
    }
    proof {
        reveal(Seq::filter);
        assert(text::views(out@) + Seq::<SideBySideLineView>::empty() =~= text::views(out@));
    }
}

/// The rows that stand in the window of `height` and one more rows from `top`
/// on.
pub fn side_by_side_lines(file: &FileDiff, top: usize, height: u16, tab: usize) -> (r: Vec<
    SideBySideLine,
>)
    requires
        file.sound(),
    ensures
        text::views(r@) == shown_rows(file@.hunks, top as int, top + height, tab as nat),
{
    let ghost all = file@.hunks;
    let ghost test = in_window(top as int, top + height);
    let max: usize = top.saturating_add(height as usize);
    let mut out: Vec<SideBySideLine> = Vec::new();
    let mut next: usize = 0;
    let mut h: usize = 0;
    proof {
        reveal(Seq::filter);
        assert(text::views(out@) =~= shown_rows(
            all.take(0),
            top as int,
            top + height,
            tab as nat,
        ));
    }
    while h < file.hunks.len()
        invariant
            h <= file.hunks.len(),
            all == file@.hunks,
            file.sound(),
            test == in_window(top as int, top + height),
            max == selection::min_of(top + height, usize::MAX as int),
            next == all_rows(all.take(h as int), tab as nat).len(),
            next == row_offset(all, h as int),
            text::views(out@) == shown_rows(
                all.take(h as int),
                top as int,
                top + height,
                tab as nat,
            ),
        decreases file.hunks.len() - h,
    {
        let hunk = &file.hunks[h];
        let ghost upto = all.take(h + 1);
        let ghost list = hunk_row_list(hunk@.lines, 0, next as int, h as int, tab as nat);
        proof {
            assert(upto.drop_last() =~= all.take(h as int));
            assert(upto.last() == hunk@);
            hunks::lemma_flat_step(all, h as int);
            lemma_row_offset_bound(all, h as int);
            lemma_row_offset_bound(all, h + 1);
            lemma_hunk_row_list_len(hunk@.lines, 0, next as int, h as int, tab as nat);
            Seq::filter_distributes_over_add(
                all_rows(all.take(h as int), tab as nat),
                list,
                test,
            );
        }
        let rows: usize = hunk_rows(hunk);
        if hunk_visible(next, next + rows, top, max) {
            push_rows(&mut out, hunk, h, next, top, height, tab);
        } else {
            proof {
                lemma_hunk_out_of_window(
                    hunk@.lines,
                    next as int,
                    h as int,
                    top as int,
                    top + height,
                    usize::MAX as int,
                    tab as nat,
                );
                assert(text::views(out@) + Seq::<SideBySideLineView>::empty() =~= text::views(
                    out@,
                ));
            }
        }
        next = next + rows;
        h = h + 1;
    }
    assert(all.take(all.len() as int) =~= all);
    out
}

// ---------------------------------------------------------------------------
// Laws
// ---------------------------------------------------------------------------
/// The rows of the diff are numbered in their order, and each belongs to the
/// hunk whose rows hold its number.
pub proof fn law_rows_numbered(hunks: Seq<HunkView>, tab: nat, k: int)
    requires
        0 <= k < all_rows(hunks, tab).len(),
    ensures
        ({
            let row = all_rows(hunks, tab)[k];
            &&& row.global_line_idx == k
            &&& 0 <= row.hunk_idx < hunks.len()
            &&& row_offset(hunks, row.hunk_idx) <= k < row_offset(hunks, row.hunk_idx + 1)
        }),
    decreases hunks.len(),
{
    if hunks.len() > 0 {
        let before = all_rows(hunks.drop_last(), tab);
        let n = before.len() as int;
        let last = hunks.len() - 1;
        lemma_all_rows_len(hunks, tab);
        lemma_all_rows_len(hunks.drop_last(), tab);
        lemma_row_offset_prefix(hunks, last);
        if k < n {
            law_rows_numbered(hunks.drop_last(), tab, k);
            let hunk = before[k].hunk_idx;
            lemma_row_offset_prefix(hunks, hunk);
            lemma_row_offset_prefix(hunks, hunk + 1);
        } else {
            lemma_hunk_row_list(hunks.last().lines, 0, n, last, tab, k - n);
        }
    }
}

/// What numbered rows leave in a window: those from `min` to `max`.
proof fn lemma_filter_numbered(rows: Seq<SideBySideLineView>, min: int, max: int)
    requires
        0 <= min,
        forall|k: int| 0 <= k < rows.len() ==> (#[trigger] rows[k]).global_line_idx == k,
    ensures
        rows.filter(in_window(min, max)) == rows.subrange(
            selection::min_of(min, rows.len() as int),
            selection::max_of(
                selection::min_of(min, rows.len() as int),
                selection::min_of(max + 1, rows.len() as int),
            ),
        ),
    decreases rows.len(),
{
    reveal(Seq::filter);
    if rows.len() > 0 {
        let before = rows.drop_last();
        assert forall|k: int| 0 <= k < before.len() implies (
        #[trigger] before[k]).global_line_idx == k by {
            assert(before[k] == rows[k]);
        }
        lemma_filter_numbered(before, min, max);
        let n = rows.len() - 1;
        assert(rows[n].global_line_idx == n);
        assert(rows.filter(in_window(min, max)) =~= rows.subrange(
            selection::min_of(min, rows.len() as int),
            selection::max_of(
                selection::min_of(min, rows.len() as int),
                selection::min_of(max + 1, rows.len() as int),
            ),
        ));
    } else {
        assert(rows.filter(in_window(min, max)) =~= rows.subrange(0, 0));
    }
}

/// Wherever the window begins, the rows in view are rows of the diff without a
/// gap: the `k`-th of them is row `min + k`, and there are as many as the window
/// holds and the diff has.
pub proof fn law_view_has_no_gap(hunks: Seq<HunkView>, min: int, max: int, tab: nat)
    requires
        0 <= min <= max,
    ensures
        ({
            let rows = shown_rows(hunks, min, max, tab);
            let count = row_offset(hunks, hunks.len() as int);
            &&& rows.len() == selection::min_of(max + 1 - min, selection::less(count, min))
            &&& forall|k: int|
                0 <= k < rows.len() ==> #[trigger] rows[k] == all_rows(hunks, tab)[min + k]
                    && rows[k].global_line_idx == min + k
        }),
{
    let all = all_rows(hunks, tab);
    assert forall|k: int| 0 <= k < all.len() implies (#[trigger] all[k]).global_line_idx == k by {
        law_rows_numbered(hunks, tab, k);
    }
    lemma_all_rows_len(hunks, tab);
    lemma_filter_numbered(all, min, max);
}

/// Wherever the window begins, the rows in view are those of a view from the
/// top that has room for all rows, as far as their numbers are in the window.
pub proof fn law_view_is_part_of_whole(
    hunks: Seq<HunkView>,
    room: int,
    min: int,
    max: int,
    tab: nat,
)
    requires
        row_offset(hunks, hunks.len() as int) <= room + 1,
    ensures
        shown_rows(hunks, 0, room, tab) == all_rows(hunks, tab),
        shown_rows(hunks, min, max, tab) == shown_rows(hunks, 0, room, tab).filter(
            in_window(min, max),
        ),
{
    let all = all_rows(hunks, tab);
    assert forall|k: int| 0 <= k < all.len() implies (#[trigger] all[k]).global_line_idx == k by {
        law_rows_numbered(hunks, tab, k);
    }
    lemma_all_rows_len(hunks, tab);
    lemma_filter_numbered(all, 0, room);
    assert(all.filter(in_window(0, room)) =~= all);
}

/// Scrolling changes which rows are shown, never the rows: a row that two
/// windows hold is the same in both.
pub proof fn law_scrolling_keeps_rows(
    hunks: Seq<HunkView>,
    a: (int, int),
    b: (int, int),
    tab: nat,
    row: SideBySideLineView,
)
    requires
        0 <= a.0 <= a.1,
        shown_rows(hunks, a.0, a.1, tab).contains(row),
        b.0 <= row.global_line_idx <= b.1,
    ensures
        shown_rows(hunks, b.0, b.1, tab).contains(row),
{
    law_view_has_no_gap(hunks, a.0, a.1, tab);
    let rows = shown_rows(hunks, a.0, a.1, tab);
    let k = choose|k: int| 0 <= k < rows.len() && rows[k] == row;
    assert(rows[k] == row);
    let all = all_rows(hunks, tab);
    lemma_all_rows_len(hunks, tab);
    all.lemma_filter_contains(in_window(b.0, b.1), a.0 + k);
}

/// One side of a row or of a line: its text, its number and its type.
#[verifier::ext_equal]
pub struct Cell {
    pub content: Seq<char>,
    pub number: Option<u32>,
    pub line_type: DiffLineType,
}

/// The left sides of the rows, without those that are blank: beside an added line
/// stands a deleted one or nothing.
pub open spec fn left_column(rows: Seq<SideBySideLineView>) -> Seq<Cell> {
    rows.filter(
        |r: SideBySideLineView|
            r.right_type != DiffLineType::Add || r.left_type == DiffLineType::Delete,
    ).map_values(
        |r: SideBySideLineView|
            Cell { content: r.left_content, number: r.left_line_num, line_type: r.left_type },
    )
}

/// The right sides of the rows, without those that are blank: there is an added
/// line, or the line that is the same on both sides.
pub open spec fn right_column(rows: Seq<SideBySideLineView>) -> Seq<Cell> {
    rows.filter(
        |r: SideBySideLineView|
            r.right_type == DiffLineType::Add || (r.left_type == DiffLineType::Context
                && r.right_type == DiffLineType::Context),
    ).map_values(
        |r: SideBySideLineView|
            Cell { content: r.right_content, number: r.right_line_num, line_type: r.right_type },
    )
}

/// The lines that the old file has, and the headers, which have no number.
pub open spec fn old_side(lines: Seq<DiffLineView>, tab: nat) -> Seq<Cell> {
    lines.filter(|l: DiffLineView| l.line_type != DiffLineType::Add).map_values(
        |l: DiffLineView|
            Cell {
                content: text::expand_tabs(l.content, tab),
                number: if l.line_type == DiffLineType::Header {
                    None
                } else {
                    l.position.old_lineno
                },
                line_type: l.line_type,
            },
    )
}

/// The lines that the new file has.
pub open spec fn new_side(lines: Seq<DiffLineView>, tab: nat) -> Seq<Cell> {
    lines.filter(
        |l: DiffLineView|
            l.line_type == DiffLineType::Add || l.line_type == DiffLineType::Context,
    ).map_values(
        |l: DiffLineView|
            Cell {
                content: text::expand_tabs(l.content, tab),
                number: l.position.new_lineno,
                line_type: l.line_type,
            },
    )
}

/// What is kept of a sequence and made of it, for one element more in front.
proof fn lemma_kept_first<A, B>(x: A, rest: Seq<A>, keep: spec_fn(A) -> bool, make: spec_fn(A) -> B)
    ensures
        (seq![x] + rest).filter(keep).map_values(make) == (if keep(x) {
            seq![make(x)]
        } else {
            Seq::empty()
        }) + rest.filter(keep).map_values(make),
{
    reveal(Seq::filter);
    Seq::filter_distributes_over_add(seq![x], rest, keep);
    let one = seq![x];
    assert(one.drop_last() =~= Seq::<A>::empty());
    assert(one.drop_last().filter(keep) =~= Seq::<A>::empty());
    if keep(x) {
        assert(one.filter(keep) =~= seq![x]);
    } else {
        assert(one.filter(keep) =~= Seq::<A>::empty());
    }
    assert((seq![x] + rest).filter(keep).map_values(make) =~= (if keep(x) {
        seq![make(x)]
    } else {
        Seq::empty()
    }) + rest.filter(keep).map_values(make));
}

proof fn lemma_kept_add<A, B>(
    a: Seq<A>,
    b: Seq<A>,
    keep: spec_fn(A) -> bool,
    make: spec_fn(A) -> B,
)
    ensures
        (a + b).filter(keep).map_values(make) == a.filter(keep).map_values(make) + b.filter(
            keep,
        ).map_values(make),
{
    Seq::filter_distributes_over_add(a, b, keep);
    assert((a.filter(keep) + b.filter(keep)).map_values(make) =~= a.filter(keep).map_values(make)
        + b.filter(keep).map_values(make));
}

proof fn lemma_columns_of_hunk(
    lines: Seq<DiffLineView>,
    i: int,
    index: int,
    hunk: int,
    tab: nat,
)
    requires
        0 <= i <= lines.len(),
    ensures
        left_column(hunk_row_list(lines, i, index, hunk, tab)) == old_side(lines.skip(i), tab),
        right_column(hunk_row_list(lines, i, index, hunk, tab)) == new_side(lines.skip(i), tab),
    decreases lines.len() - i,
{
    reveal(Seq::filter);
    let left = |r: SideBySideLineView|
        r.right_type != DiffLineType::Add || r.left_type == DiffLineType::Delete;
    let right = |r: SideBySideLineView|
        r.right_type == DiffLineType::Add || (r.left_type == DiffLineType::Context && r.right_type
            == DiffLineType::Context);
    let left_cell = |r: SideBySideLineView|
        Cell { content: r.left_content, number: r.left_line_num, line_type: r.left_type };
    let right_cell = |r: SideBySideLineView|
        Cell { content: r.right_content, number: r.right_line_num, line_type: r.right_type };
    let old = |l: DiffLineView| l.line_type != DiffLineType::Add;
    let new = |l: DiffLineView|
        l.line_type == DiffLineType::Add || l.line_type == DiffLineType::Context;
    let old_cell = |l: DiffLineView|
        Cell {
            content: text::expand_tabs(l.content, tab),
            number: if l.line_type == DiffLineType::Header {
                None
            } else {
                l.position.old_lineno
            },
            line_type: l.line_type,
        };
    let new_cell = |l: DiffLineView|
        Cell {
            content: text::expand_tabs(l.content, tab),
            number: l.position.new_lineno,
            line_type: l.line_type,
        };
    if i < lines.len() {
        let n = row_len(lines, i);
        lemma_columns_of_hunk(lines, i + n, index + 1, hunk, tab);
        let row = row_of(lines, i, index, hunk, tab);
        let rows = hunk_row_list(lines, i + n, index + 1, hunk, tab);
        let rest = lines.skip(i + n);
        lemma_kept_first(row, rows, left, left_cell);
        lemma_kept_first(row, rows, right, right_cell);
        if n == 2 {
            let behind = lines.skip(i + 1);
            assert(behind =~= seq![lines[i + 1]] + rest);
            assert(lines.skip(i) =~= seq![lines[i]] + behind);
            lemma_kept_first(lines[i], behind, old, old_cell);
            lemma_kept_first(lines[i], behind, new, new_cell);
            lemma_kept_first(lines[i + 1], rest, old, old_cell);
            lemma_kept_first(lines[i + 1], rest, new, new_cell);
            let empty = Seq::<Cell>::empty();
            assert(empty + rest.filter(old).map_values(old_cell) =~= rest.filter(old).map_values(
                old_cell,
            ));
            assert(empty + (seq![new_cell(lines[i + 1])] + rest.filter(new).map_values(new_cell))
                =~= seq![new_cell(lines[i + 1])] + rest.filter(new).map_values(new_cell));
        } else {
            assert(lines.skip(i) =~= seq![lines[i]] + rest);
            lemma_kept_first(lines[i], rest, old, old_cell);
            lemma_kept_first(lines[i], rest, new, new_cell);
        }
    } else {
        assert(lines.skip(i) =~= Seq::<DiffLineView>::empty());
        assert(left_column(Seq::empty()) =~= Seq::<Cell>::empty());
        assert(right_column(Seq::empty()) =~= Seq::<Cell>::empty());
        assert(old_side(Seq::empty(), tab) =~= Seq::<Cell>::empty());
        assert(new_side(Seq::empty(), tab) =~= Seq::<Cell>::empty());
    }
}

/// No line is lost, doubled or moved: the left column, without its blank sides,
/// holds the headers and the lines of the old file in their order, and the right
/// column the lines of the new file, each with its text, its number and its type.
pub proof fn law_every_line_has_its_row(hunks: Seq<HunkView>, tab: nat)
    ensures
        left_column(all_rows(hunks, tab)) == old_side(diff::flat_lines(hunks), tab),
        right_column(all_rows(hunks, tab)) == new_side(diff::flat_lines(hunks), tab),
    decreases hunks.len(),
{
    reveal(Seq::filter);
    if hunks.len() == 0 {
        assert(left_column(Seq::empty()) =~= Seq::<Cell>::empty());
        assert(right_column(Seq::empty()) =~= Seq::<Cell>::empty());
        assert(old_side(Seq::empty(), tab) =~= Seq::<Cell>::empty());
        assert(new_side(Seq::empty(), tab) =~= Seq::<Cell>::empty());
    } else {
        let front = hunks.drop_last();
        law_every_line_has_its_row(front, tab);
        let before = all_rows(front, tab);
        let lines = hunks.last().lines;
        let index = before.len() as int;
        let rows = hunk_row_list(lines, 0, index, hunks.len() - 1, tab);
        lemma_columns_of_hunk(lines, 0, index, hunks.len() - 1, tab);
        assert(lines.skip(0) =~= lines);
        let left = |r: SideBySideLineView|
            r.right_type != DiffLineType::Add || r.left_type == DiffLineType::Delete;
        let right = |r: SideBySideLineView|
            r.right_type == DiffLineType::Add || (r.left_type == DiffLineType::Context
                && r.right_type == DiffLineType::Context);
        let left_cell = |r: SideBySideLineView|
            Cell { content: r.left_content, number: r.left_line_num, line_type: r.left_type };
        let right_cell = |r: SideBySideLineView|
            Cell { content: r.right_content, number: r.right_line_num, line_type: r.right_type };
        let old = |l: DiffLineView| l.line_type != DiffLineType::Add;
        let new = |l: DiffLineView|
            l.line_type == DiffLineType::Add || l.line_type == DiffLineType::Context;
        let old_cell = |l: DiffLineView|
            Cell {
                content: text::expand_tabs(l.content, tab),
                number: if l.line_type == DiffLineType::Header {
                    None
                } else {
                    l.position.old_lineno
                },
                line_type: l.line_type,
            };
        let new_cell = |l: DiffLineView|
            Cell {
                content: text::expand_tabs(l.content, tab),
                number: l.position.new_lineno,
                line_type: l.line_type,
            };
        lemma_kept_add(before, rows, left, left_cell);
        lemma_kept_add(before, rows, right, right_cell);
        lemma_kept_add(diff::flat_lines(front), lines, old, old_cell);
        lemma_kept_add(diff::flat_lines(front), lines, new, new_cell);
    }
}

/// How many of the first `n` lines are added lines right behind a deleted one.
pub open spec fn followers(lines: Seq<DiffLineView>, n: int) -> int
    decreases n,
{
    if n < 2 {
        0
    } else {
        followers(lines, n - 1) + if lines[n - 2].line_type == DiffLineType::Delete
            && lines[n - 1].line_type == DiffLineType::Add {
            1int
        } else {
            0
        }
    }
}

/// Whether a row shows a line on the sides that it belongs to, beside the line
/// that it is paired with, or else beside nothing.
pub open spec fn shows_in_row(
    lines: Seq<DiffLineView>,
    i: int,
    row: SideBySideLineView,
    tab: nat,
) -> bool {
    let content = text::expand_tabs(lines[i].content, tab);
    let old = lines[i].position.old_lineno;
    let new = lines[i].position.new_lineno;
    match lines[i].line_type {
        DiffLineType::Delete => {
            &&& row.left_content == content && row.left_line_num == old
            &&& row.left_type == DiffLineType::Delete
            &&& if i + 1 < lines.len() && lines[i + 1].line_type == DiffLineType::Add {
                &&& row.right_content == text::expand_tabs(lines[i + 1].content, tab)
                &&& row.right_line_num == lines[i + 1].position.new_lineno
                &&& row.right_type == DiffLineType::Add
            } else {
                &&& row.right_content.len() == 0 && row.right_line_num is None
                &&& row.right_type == DiffLineType::Context
            }
        },
        DiffLineType::Add => {
            &&& row.right_content == content && row.right_line_num == new
            &&& row.right_type == DiffLineType::Add
            &&& if i > 0 && lines[i - 1].line_type == DiffLineType::Delete {
                &&& row.left_content == text::expand_tabs(lines[i - 1].content, tab)
                &&& row.left_line_num == lines[i - 1].position.old_lineno
                &&& row.left_type == DiffLineType::Delete
            } else {
                &&& row.left_content.len() == 0 && row.left_line_num is None
                &&& row.left_type == DiffLineType::Context
            }
        },
        DiffLineType::Header => {
            &&& row.left_content == content && row.left_line_num is None
            &&& row.right_content.len() == 0 && row.right_line_num is None
            &&& row.left_type == DiffLineType::Header && row.right_type == DiffLineType::Header
        },
        DiffLineType::Context => {
            &&& row.left_content == content && row.left_line_num == old
            &&& row.right_content == content && row.right_line_num == new
            &&& row.left_type == DiffLineType::Context && row.right_type == DiffLineType::Context
        },
    }
}

proof fn lemma_line_in_row(
    lines: Seq<DiffLineView>,
    from: int,
    i: int,
    index: int,
    hunk: int,
    tab: nat,
)
    requires
        0 <= from <= lines.len(),
        from <= i < lines.len() || i == lines.len(),
        0 < from < lines.len() ==> !(lines[from - 1].line_type == DiffLineType::Delete
            && lines[from].line_type == DiffLineType::Add),
    ensures
        ({
            let rows = hunk_row_list(lines, from, index, hunk, tab);
            let k = (i - from) - (followers(lines, i + 1) - followers(lines, from));
            &&& i < lines.len() ==> 0 <= k < rows.len() && shows_in_row(lines, i, rows[k], tab)
            &&& rows.len() == (lines.len() - from) - (followers(lines, lines.len() as int)
                - followers(lines, from))
            &&& forall|j: int|
                0 <= j < rows.len() ==> ((#[trigger] rows[j]).is_hunk_end <==> j == rows.len() - 1)
            &&& forall|j: int|
                0 <= j < rows.len() ==> ((#[trigger] rows[j]).is_hunk_start <==> from == 0 && j
                    == 0)
        }),
    decreases lines.len() - from,
{
    if from < lines.len() {
        let n = row_len(lines, from);
        let rows = hunk_row_list(lines, from, index, hunk, tab);
        let rest = hunk_row_list(lines, from + n, index + 1, hunk, tab);
        assert(followers(lines, from + 1) == followers(lines, from));
        if n == 2 {
            assert(followers(lines, from + 2) == followers(lines, from) + 1);
        }
        let next = if i >= from + n {
            i
        } else {
            lines.len() as int
        };
        lemma_line_in_row(lines, from + n, next, index + 1, hunk, tab);
        assert(rows[0] == row_of(lines, from, index, hunk, tab));
        assert forall|j: int| 0 <= j < rows.len() implies ((#[trigger] rows[j]).is_hunk_end <==> j
            == rows.len() - 1) && (rows[j].is_hunk_start <==> from == 0 && j == 0) by {
            if j > 0 {
                assert(rows[j] == rest[j - 1]);
            }
        }
        if from + n <= i < lines.len() {
            let k = (i - from) - (followers(lines, i + 1) - followers(lines, from));
            assert(rows[k] == rest[k - 1]);
        }
    }
}

/// Each line stands in the row that has as many rows in front of it as lines in
/// front of the line, less the added lines that share a row with the deleted line
/// right in front of them. There it stands on the left as a line of the old file
/// and on the right as one of the new; a deleted line and the added one right
/// behind it stand side by side, and beside any other changed line there is
/// nothing. The first and the last row are marked as such, and no other.
pub proof fn law_line_in_row(
    lines: Seq<DiffLineView>,
    i: int,
    index: int,
    hunk: int,
    tab: nat,
)
    requires
        0 <= i < lines.len(),
    ensures
        ({
            let rows = hunk_row_list(lines, 0, index, hunk, tab);
            let k = i - followers(lines, i + 1);
            &&& rows.len() == lines.len() - followers(lines, lines.len() as int)
            &&& row_count(lines) == rows.len()
            &&& 0 <= k < rows.len()
            &&& shows_in_row(lines, i, rows[k], tab)
            &&& rows[k].is_hunk_start <==> k == 0
            &&& rows[k].is_hunk_end <==> k == rows.len() - 1
            &&& rows[k].global_line_idx == index + k
            &&& rows[k].hunk_idx == hunk
        }),
{
    lemma_line_in_row(lines, 0, i, index, hunk, tab);
    lemma_hunk_row_list(lines, 0, index, hunk, tab, i - followers(lines, i + 1));
    lemma_hunk_row_list_len(lines, 0, index, hunk, tab);
}

/// The rows of a hunk follow those of the hunks in front of it, and their number
/// is that of its own rows.
pub proof fn law_rows_of_hunk(hunks: Seq<HunkView>, h: int, k: int, tab: nat)
    requires
        0 <= h < hunks.len(),
        0 <= k < row_count(hunks[h].lines),
    ensures
        row_offset(hunks, 0) == 0,
        row_offset(hunks, h + 1) - row_offset(hunks, h) == row_count(hunks[h].lines),
        0 <= row_offset(hunks, h) + k < all_rows(hunks, tab).len(),
        all_rows(hunks, tab)[row_offset(hunks, h) + k] == hunk_row_list(
            hunks[h].lines,
            0,
            row_offset(hunks, h),
            h,
            tab,
        )[k],
    decreases hunks.len(),
{
    let last = hunks.len() - 1;
    let front = hunks.drop_last();
    lemma_all_rows_len(hunks, tab);
    lemma_all_rows_len(front, tab);
    lemma_row_offset_prefix(hunks, last);
    lemma_row_offset_bound(hunks, h);
    lemma_hunk_row_list_len(hunks.last().lines, 0, all_rows(front, tab).len() as int, last, tab);
    if h < last {
        law_rows_of_hunk(front, h, k, tab);
        lemma_row_offset_prefix(hunks, h);
        assert(front[h] == hunks[h]);
    }
}

/// A hunk meets the window where some line is in both, its end counted in.
pub proof fn law_meets(hunk_min: int, hunk_max: int, min: int, max: int)
    requires
        hunk_min <= hunk_max,
        min <= max,
    ensures
        meets(hunk_min, hunk_max, min, max) <==> hunk_min <= max && min <= hunk_max,
{
}

/// A row is seen as it is: each side with its own text, number and type.
pub proof fn law_rows_are_seen_as_they_are(row: SideBySideLine)
    ensures
        row@.left_content == row.left_content@,
        row@.left_line_num == row.left_line_num,
        row@.left_type == row.left_type,
        row@.right_content == row.right_content@,
        row@.right_line_num == row.right_line_num,
        row@.right_type == row.right_type,
        row@.global_line_idx == row.global_line_idx,
        row@.hunk_idx == row.hunk_idx,
        row@.is_hunk_start == row.is_hunk_start,
        row@.is_hunk_end == row.is_hunk_end,
{
}

} // verus!
