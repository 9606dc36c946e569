//! The lines of a diff by their place: through all hunks, and as the rows of
//! a view with the old and the new file side by side.
use vstd::prelude::*;

use crate::diff;
use crate::diff::{DiffLine, DiffLinePosition, DiffLineType, DiffLineView, FileDiff, HunkView};
use crate::selection;
use crate::selection::Selection;
use crate::text;
use crate::text::CharClass;

verus! {

// ---------------------------------------------------------------------------
// Lines through all hunks
// ---------------------------------------------------------------------------
/// How many lines stand in front of a hunk.
pub open spec fn offset(hunks: Seq<HunkView>, hunk: int) -> int {
    diff::flat_lines(hunks.take(hunk)).len() as int
}

pub proof fn lemma_flat_step(hunks: Seq<HunkView>, hunk: int)
    requires
        0 <= hunk < hunks.len(),
    ensures
        diff::flat_lines(hunks.take(hunk + 1)) == diff::flat_lines(hunks.take(hunk))
            + hunks[hunk].lines,
        offset(hunks, hunk + 1) == offset(hunks, hunk) + hunks[hunk].lines.len(),
{
    assert(hunks.take(hunk + 1).drop_last() =~= hunks.take(hunk));
    assert(hunks.take(hunk + 1).last() == hunks[hunk]);
}

pub proof fn lemma_flat_whole(hunks: Seq<HunkView>)
    ensures
        hunks.take(hunks.len() as int) == hunks,
        offset(hunks, hunks.len() as int) == diff::flat_lines(hunks).len(),
        offset(hunks, 0) == 0,
{
    assert(hunks.take(hunks.len() as int) =~= hunks);
}

pub proof fn lemma_offset_monotone(hunks: Seq<HunkView>, a: int, b: int)
    requires
        0 <= a <= b <= hunks.len(),
    ensures
        offset(hunks, a) <= offset(hunks, b),
    decreases b - a,
{
    if a < b {
        lemma_flat_step(hunks, b - 1);
        lemma_offset_monotone(hunks, a, b - 1);
    }
}

/// A line of a hunk among all lines.
pub proof fn lemma_flat_index(hunks: Seq<HunkView>, hunk: int, line: int)
    requires
        0 <= hunk < hunks.len(),
        0 <= line < hunks[hunk].lines.len(),
    ensures
        offset(hunks, hunk) + line < diff::flat_lines(hunks).len(),
        diff::flat_lines(hunks)[offset(hunks, hunk) + line] == hunks[hunk].lines[line],
    decreases hunks.len(),
{
    lemma_flat_whole(hunks);
    let last = hunks.len() - 1;
    lemma_flat_step(hunks, last);
    let before = hunks.take(last);
    if hunk < last {
        assert(before[hunk] == hunks[hunk]);
        lemma_flat_index(before, hunk, line);
        assert(before.take(hunk) =~= hunks.take(hunk));
    }
}

/// References to all lines, through all hunks.
pub fn all_lines(file: &FileDiff) -> (r: Vec<&DiffLine>)
    ensures
        text::views(r@) == diff::flat_lines(file@.hunks),
{
    let ghost hunks = file@.hunks;
    let mut out: Vec<&DiffLine> = Vec::new();
    let mut h: usize = 0;
    while h < file.hunks.len()
        invariant
            h <= file.hunks.len(),
            hunks == file@.hunks,
            text::views(out@) == diff::flat_lines(hunks.take(h as int)),
        decreases file.hunks.len() - h,
    {
        let hunk = &file.hunks[h];
        let ghost before = diff::flat_lines(hunks.take(h as int));
        let mut i: usize = 0;
        assert(before + hunk@.lines.take(0) =~= before);
        while i < hunk.lines.len()
            invariant
                i <= hunk.lines.len(),
                text::views(out@) == before + hunk@.lines.take(i as int),
            decreases hunk.lines.len() - i,
        {
            let line: &DiffLine = &hunk.lines[i];
            proof {
                text::lemma_views_push(out@, line);
                assert(hunk@.lines.take(i + 1) =~= hunk@.lines.take(i as int).push(line@));
                assert((before + hunk@.lines.take(i as int)).push(line@) =~= before
                    + hunk@.lines.take(i + 1));
            }
            out.push(line);
            i = i + 1;
        }
        proof {
            assert(hunk@.lines.take(i as int) =~= hunk@.lines);
            lemma_flat_step(hunks, h as int);
        }
        h = h + 1;
    }
    proof {
        lemma_flat_whole(hunks);
    }
    out
}

/// The hunk that holds a line.
pub fn find_selected_hunk(file: &FileDiff, line_selected: usize) -> (r: Option<usize>)
    requires
        file.sound(),
    ensures
        match r {
            Some(h) => h < file.hunks.len() && offset(file@.hunks, h as int) <= line_selected
                < offset(file@.hunks, h + 1),
            None => line_selected >= diff::flat_lines(file@.hunks).len(),
        },
{
    let ghost hunks = file@.hunks;
    let mut line_cursor: usize = 0;
    let mut h: usize = 0;
    proof {
        lemma_flat_whole(hunks);
    }
    while h < file.hunks.len()
        invariant
            h <= file.hunks.len(),
            hunks == file@.hunks,
            file.sound(),
            line_cursor == offset(hunks, h as int) <= line_selected,
        decreases file.hunks.len() - h,
    {
        proof {
            lemma_flat_step(hunks, h as int);
            lemma_offset_monotone(hunks, h + 1, hunks.len() as int);
            lemma_flat_whole(hunks);
        }
        let hunk_max: usize = line_cursor + file.hunks[h].lines.len();
        if line_selected < hunk_max {
            return Some(h);
        }
        line_cursor = hunk_max;
        h = h + 1;
    }
    proof {
        lemma_flat_whole(hunks);
    }
    None
}

/// The number of lines in front of a hunk.
pub fn hunk_offset(file: &FileDiff, hunk: usize) -> (r: usize)
    requires
        file.sound(),
        hunk <= file.hunks@.len(),
    ensures
        r == offset(file@.hunks, hunk as int),
{
    let ghost hunks = file@.hunks;
    let mut sum: usize = 0;
    let mut h: usize = 0;
    proof {
        lemma_flat_whole(hunks);
    }
    while h < hunk
        invariant
            h <= hunk <= file.hunks.len(),
            hunks == file@.hunks,
            file.sound(),
            sum == offset(hunks, h as int),
        decreases hunk - h,
    {
        proof {
            lemma_flat_step(hunks, h as int);
            lemma_offset_monotone(hunks, h + 1, hunks.len() as int);
            lemma_flat_whole(hunks);
        }
        sum = sum + file.hunks[h].lines.len();
        h = h + 1;
    }
    sum
}

// ---------------------------------------------------------------------------
// What is read off all lines
// ---------------------------------------------------------------------------
/// The larger of two numbers, of which one may be missing.
pub open spec fn larger(n: nat, other: Option<u32>) -> nat {
    match other {
        Some(m) => if m > n {
            m as nat
        } else {
            n
        },
        None => n,
    }
}

/// The largest line number, or zero.
pub open spec fn largest_number(lines: Seq<DiffLineView>) -> nat
    decreases lines.len(),
{
    if lines.len() == 0 {
        0
    } else {
        let position = lines.last().position;
        larger(larger(largest_number(lines.drop_last()), position.old_lineno), position.new_lineno)
    }
}

fn larger_of(n: u32, other: Option<u32>) -> (r: u32)
    ensures
        r == larger(n as nat, other),
{
    match other {
        Some(m) => if m > n {
            m
        } else {
            n
        },
        None => n,
    }
}

/// How many decimal digits a number has.
fn digits(n: u32) -> (r: usize)
    ensures
        r == text::decimal_text(n as nat).len(),
        1 <= r <= 10,
        n < 1_000_000_000 ==> r <= 9,
        n < 100_000_000 ==> r <= 8,
        n < 10_000_000 ==> r <= 7,
        n < 1_000_000 ==> r <= 6,
        n < 100_000 ==> r <= 5,
        n < 10_000 ==> r <= 4,
        n < 1_000 ==> r <= 3,
        n < 100 ==> r <= 2,
        n < 10 ==> r <= 1,
    decreases n,
{
    if n < 10 {
        1
    } else {
        digits(n / 10) + 1
    }
}

/// The width of a column that holds any line number of the diff.
pub fn line_number_width(file: &FileDiff) -> (r: usize)
    ensures
        r == text::decimal_text(largest_number(diff::flat_lines(file@.hunks))).len(),
        1 <= r <= 10,
{
    let lines = all_lines(file);
    let ghost all = text::views(lines@);
    let mut largest: u32 = 0;
    let mut i: usize = 0;
    while i < lines.len()
        invariant
            i <= lines.len(),
            all == text::views(lines@),
            largest == largest_number(all.take(i as int)),
        decreases lines.len() - i,
    {
        proof {
            assert(all.take(i + 1).drop_last() =~= all.take(i as int));
            assert(all.take(i + 1).last() == lines@[i as int]@);
        }
        let position = lines[i].position;
        largest = larger_of(larger_of(largest, position.old_lineno), position.new_lineno);
        i = i + 1;
    }
    assert(all.take(all.len() as int) =~= all);
    digits(largest)
}

/// The length in bytes of the longest line once its tabs are expanded, or
/// zero.
pub open spec fn longest_bytes(lines: Seq<DiffLineView>, tab: nat) -> nat
    decreases lines.len(),
{
    if lines.len() == 0 {
        0
    } else {
        let n = vstd::utf8::encode_utf8(text::expand_tabs(lines.last().content, tab)).len();
        let before = longest_bytes(lines.drop_last(), tab);
        if n > before {
            n
        } else {
            before
        }
    }
}

/// How wide the diff is: its longest line and the bar in front of it; nothing
/// where there is no line.
pub open spec fn diff_width(lines: Seq<DiffLineView>, tab: nat) -> nat {
    if lines.len() == 0 {
        0
    } else {
        longest_bytes(lines, tab) + 1
    }
}

/// How wide the diff is, as far as that can be counted.
pub fn longest_line(file: &FileDiff, tab: usize) -> (r: usize)
    ensures
        r == selection::min_of(
            diff_width(diff::flat_lines(file@.hunks), tab as nat) as int,
            usize::MAX as int,
        ),
{
    let lines = all_lines(file);
    let ghost all = text::views(lines@);
    let mut longest: usize = 0;
    let mut i: usize = 0;
    while i < lines.len()
        invariant
            i <= lines.len(),
            all == text::views(lines@),
            longest == longest_bytes(all.take(i as int), tab as nat),
        decreases lines.len() - i,
    {
        proof {
            assert(all.take(i + 1).drop_last() =~= all.take(i as int));
            assert(all.take(i + 1).last() == lines@[i as int]@);
        }
        let converted = text::tabs_to_spaces(lines[i].content.as_str(), tab);
        let n: usize = converted.as_str().as_bytes().len();
        if n > longest {
            longest = n;
        }
        i = i + 1;
    }
    assert(all.take(all.len() as int) =~= all);
    if lines.len() == 0 {
        0
    } else {
        longest.saturating_add(1)
    }
}

/// Whether a line was added or deleted.
pub open spec fn changed(line: DiffLineView) -> bool {
    line.line_type == DiffLineType::Add || line.line_type == DiffLineType::Delete
}

/// The positions of the selected lines that were added or deleted.
pub open spec fn changed_positions(lines: Seq<DiffLineView>, selection: Selection) -> Seq<
    DiffLinePosition,
>
    decreases lines.len(),
{
    if lines.len() == 0 {
        Seq::empty()
    } else {
        let before = changed_positions(lines.drop_last(), selection);
        if selection.has(lines.len() - 1) && changed(lines.last()) {
            before.push(lines.last().position)
        } else {
            before
        }
    }
}

/// The positions of the selected lines that were added or deleted.
pub fn selected_changes(file: &FileDiff, selection: Selection) -> (r: Vec<DiffLinePosition>)
    ensures
        r@ == changed_positions(diff::flat_lines(file@.hunks), selection),
{
    let lines = all_lines(file);
    let ghost all = text::views(lines@);
    let mut out: Vec<DiffLinePosition> = Vec::new();
    let mut i: usize = 0;
    while i < lines.len()
        invariant
            i <= lines.len(),
            all == text::views(lines@),
            out@ == changed_positions(all.take(i as int), selection),
        decreases lines.len() - i,
    {
        proof {
            assert(all.take(i + 1).drop_last() =~= all.take(i as int));
            assert(all.take(i + 1).last() == lines@[i as int]@);
        }
        let line = lines[i];
        let is_changed = line.line_type == DiffLineType::Add || line.line_type
            == DiffLineType::Delete;
        if selection.contains(i) && is_changed {
            out.push(line.position);
        }
        i = i + 1;
    }
    assert(all.take(all.len() as int) =~= all);
    out
}

/// The text of the selected lines, each without line ends at its sides.
pub open spec fn selected_contents(lines: Seq<DiffLineView>, selection: Selection) -> Seq<Seq<char>>
    decreases lines.len(),
{
    if lines.len() == 0 {
        Seq::empty()
    } else {
        let before = selected_contents(lines.drop_last(), selection);
        if selection.has(lines.len() - 1) {
            before.push(text::trim_of(lines.last().content, CharClass::Newline))
        } else {
            before
        }
    }
}

/// The text of the selected lines, one per line.
pub fn selected_text(file: &FileDiff, selection: Selection) -> (r: String)
    ensures
        r@ == text::join_of(
            selected_contents(diff::flat_lines(file@.hunks), selection),
            seq!['\n'],
        ),
{
    let lines = all_lines(file);
    let ghost all = text::views(lines@);
    let mut out: Vec<String> = Vec::new();
    let mut i: usize = 0;
    while i < lines.len()
        invariant
            i <= lines.len(),
            all == text::views(lines@),
            text::views(out@) == selected_contents(all.take(i as int), selection),
        decreases lines.len() - i,
    {
        proof {
            assert(all.take(i + 1).drop_last() =~= all.take(i as int));
            assert(all.take(i + 1).last() == lines@[i as int]@);
        }
        if selection.contains(i) {
            let content = text::trim(lines[i].content.as_str(), CharClass::Newline);
            proof {
                text::lemma_views_push(out@, content);
            }
            out.push(content);
        }
        i = i + 1;
    }
    proof {
        assert(all.take(all.len() as int) =~= all);
        reveal_strlit("\n");
        assert("\n"@ =~= seq!['\n']);
    }
    text::join(&out, "\n")
}

// ---------------------------------------------------------------------------
// Laws
// ---------------------------------------------------------------------------
/// The number of a hunk's first line is the number of all lines in front of it.
pub proof fn law_offset(before: Seq<HunkView>, hunk: HunkView, behind: Seq<HunkView>, line: int)
    requires
        0 <= line < hunk.lines.len(),
    ensures
        ({
            let all = before.push(hunk) + behind;
            let n = before.len() as int;
            &&& offset(all, n) == diff::flat_lines(before).len()
            &&& offset(all, n + 1) == offset(all, n) + hunk.lines.len()
            &&& diff::flat_lines(all)[offset(all, n) + line] == hunk.lines[line]
        }),
{
    let all = before.push(hunk) + behind;
    let n = before.len() as int;
    assert(all.take(n) =~= before);
    assert(all[n] == hunk);
    lemma_flat_step(all, n);
    lemma_flat_index(all, n, line);
}

/// Whether a line has a number, in the old or in the new file.
pub open spec fn has_number(line: DiffLineView, n: nat) -> bool {
    ||| line.position.old_lineno is Some && line.position.old_lineno->0 == n
    ||| line.position.new_lineno is Some && line.position.new_lineno->0 == n
}

/// The largest number is one that some line has, and no line has a larger one.
pub proof fn law_largest_number(lines: Seq<DiffLineView>, i: int, n: nat)
    ensures
        0 <= i < lines.len() && has_number(lines[i], n) ==> n <= largest_number(lines),
        largest_number(lines) > 0 ==> exists|k: int|
            0 <= k < lines.len() && has_number(#[trigger] lines[k], largest_number(lines)),
    decreases lines.len(),
{
    if lines.len() > 0 {
        let front = lines.drop_last();
        law_largest_number(front, i, n);
        let last = lines.len() - 1;
        assert(lines.last() == lines[last]);
        if 0 <= i < last {
            assert(front[i] == lines[i]);
        }
        if largest_number(lines) > 0 {
            if largest_number(lines) == largest_number(front) {
                let k = choose|k: int|
                    0 <= k < front.len() && has_number(#[trigger] front[k], largest_number(front));
                assert(front[k] == lines[k]);
            } else {
                assert(has_number(lines[last], largest_number(lines)));
            }
        }
    }
}

/// The length of the longest line is that of some line, and no line is longer.
pub proof fn law_longest_line(lines: Seq<DiffLineView>, tab: nat, i: int)
    ensures
        0 <= i < lines.len() ==> vstd::utf8::encode_utf8(
            text::expand_tabs(lines[i].content, tab),
        ).len() <= longest_bytes(lines, tab),
        longest_bytes(lines, tab) > 0 ==> exists|k: int|
            0 <= k < lines.len() && vstd::utf8::encode_utf8(
                text::expand_tabs((#[trigger] lines[k]).content, tab),
            ).len() == longest_bytes(lines, tab),
        lines.len() > 0 ==> diff_width(lines, tab) == longest_bytes(lines, tab) + 1,
        lines.len() == 0 ==> diff_width(lines, tab) == 0,
    decreases lines.len(),
{
    if lines.len() > 0 {
        let front = lines.drop_last();
        law_longest_line(front, tab, i);
        let last = lines.len() - 1;
        assert(lines.last() == lines[last]);
        if 0 <= i < last {
            assert(front[i] == lines[i]);
        }
        if longest_bytes(lines, tab) > 0 {
            if longest_bytes(lines, tab) == longest_bytes(front, tab) {
                let k = choose|k: int|
                    0 <= k < front.len() && vstd::utf8::encode_utf8(
                        text::expand_tabs((#[trigger] front[k]).content, tab),
                    ).len() == longest_bytes(front, tab);
                assert(front[k] == lines[k]);
            } else {
                assert(vstd::utf8::encode_utf8(text::expand_tabs(lines[last].content, tab)).len()
                    == longest_bytes(lines, tab));
            }
        }
    }
}

/// The numbers of the lines of a sequence that pass a test, in their order.
pub open spec fn kept(n: nat, test: spec_fn(int) -> bool) -> Seq<int> {
    Seq::new(n, |i: int| i).filter(test)
}

pub proof fn lemma_kept_step(n: nat, test: spec_fn(int) -> bool)
    ensures
        kept(n + 1, test) == if test(n as int) {
            kept(n, test).push(n as int)
        } else {
            kept(n, test)
        },
        kept(0, test) == Seq::<int>::empty(),
{
    reveal(Seq::filter);
    let all = Seq::new(n + 1, |i: int| i);
    assert(all.drop_last() =~= Seq::new(n, |i: int| i));
    assert(all.last() == n);
    assert(Seq::new(0, |i: int| i) =~= Seq::<int>::empty());
}

pub proof fn lemma_kept_below(n: nat, test: spec_fn(int) -> bool)
    ensures
        forall|j: int| 0 <= j < kept(n, test).len() ==> 0 <= #[trigger] kept(n, test)[j] < n,
    decreases n,
{
    if n == 0 {
        lemma_kept_step(0, test);
    } else {
        lemma_kept_below((n - 1) as nat, test);
        lemma_kept_step((n - 1) as nat, test);
    }
}

/// Of the selected lines those that were added or deleted give their positions, in
/// their order, and no other line does.
pub proof fn law_changed_positions(lines: Seq<DiffLineView>, selection: Selection)
    ensures
        changed_positions(lines, selection) == kept(
            lines.len(),
            |i: int|
                selection.has(i) && (lines[i].line_type == DiffLineType::Add || lines[i].line_type
                    == DiffLineType::Delete),
        ).map_values(|i: int| lines[i].position),
    decreases lines.len(),
{
    let test = |i: int|
        selection.has(i) && (lines[i].line_type == DiffLineType::Add || lines[i].line_type
            == DiffLineType::Delete);
    let make = |i: int| lines[i].position;
    if lines.len() == 0 {
        lemma_kept_step(0, test);
        assert(kept(0, test).map_values(make) =~= Seq::<DiffLinePosition>::empty());
    } else {
        let front = lines.drop_last();
        let n = front.len();
        let front_test = |i: int|
            selection.has(i) && (front[i].line_type == DiffLineType::Add || front[i].line_type
                == DiffLineType::Delete);
        law_changed_positions(front, selection);
        lemma_kept_step(n, test);
        lemma_kept_same(n, front_test, test);
        lemma_kept_below(n, test);
        assert(kept(n, front_test).map_values(|i: int| front[i].position) =~= kept(
            n,
            test,
        ).map_values(make));
        assert(kept(lines.len(), test).map_values(make) =~= if test(n as int) {
            kept(n, test).map_values(make).push(lines.last().position)
        } else {
            kept(n, test).map_values(make)
        });
    }
}

pub proof fn lemma_kept_same(n: nat, a: spec_fn(int) -> bool, b: spec_fn(int) -> bool)
    requires
        forall|i: int| 0 <= i < n ==> #[trigger] a(i) == b(i),
    ensures
        kept(n, a) == kept(n, b),
    decreases n,
{
    lemma_kept_step(0, a);
    lemma_kept_step(0, b);
    if n > 0 {
        lemma_kept_same((n - 1) as nat, a, b);
        lemma_kept_step((n - 1) as nat, a);
        lemma_kept_step((n - 1) as nat, b);
    }
}

/// The text of each selected line is copied, in their order, without the line ends
/// at its sides, and no other line is.
pub proof fn law_selected_contents(lines: Seq<DiffLineView>, selection: Selection)
    ensures
        selected_contents(lines, selection) == kept(
            lines.len(),
            |i: int| selection.has(i),
        ).map_values(|i: int| text::trim_of(lines[i].content, CharClass::Newline)),
    decreases lines.len(),
{
    let test = |i: int| selection.has(i);
    let make = |i: int| text::trim_of(lines[i].content, CharClass::Newline);
    if lines.len() == 0 {
        lemma_kept_step(0, test);
        assert(kept(0, test).map_values(make) =~= Seq::<Seq<char>>::empty());
    } else {
        let front = lines.drop_last();
        let n = front.len();
        law_selected_contents(front, selection);
        lemma_kept_step(n, test);
        lemma_kept_below(n, test);
        assert(kept(n, test).map_values(|i: int| text::trim_of(front[i].content, CharClass::Newline))
            =~= kept(n, test).map_values(make));
        assert(kept(lines.len(), test).map_values(make) =~= if test(n as int) {
            kept(n, test).map_values(make).push(
                text::trim_of(lines.last().content, CharClass::Newline),
            )
        } else {
            kept(n, test).map_values(make)
        });
    }
}

} // verus!
