//! The lines that show a diff: unified, as the sizes of a binary file, and in
//! two columns.
use vstd::prelude::*;

use crate::diff;
use crate::diff::{DiffLine, DiffLineType, DiffLineView, FileDiff, HunkView};
use crate::hunks;
use crate::selection;
use crate::selection::Selection;
use crate::side_by_side::{SideBySideLine, SideBySideLineView};
use crate::text;
use crate::themed;
use crate::themed::{Role, ThemedLine, ThemedSpan, ThemedSpanView};

verus! {

/// How the text of a line is prepared.
pub struct TextRules<F: Fn(&String, usize) -> String> {
    /// What stands for an empty line that was added or deleted.
    pub line_break: String,
    /// How many spaces stand for a tab.
    pub tab: usize,
    /// Cuts off the part of a text that is scrolled out of view to the left.
    pub trim: F,
}

impl<F: Fn(&String, usize) -> String> TextRules<F> {
    /// Whether any text can be cut.
    pub open spec fn usable(&self) -> bool {
        forall|s: &String, n: usize| call_requires(self.trim, (s, n))
    }

    /// Whether `out` is what is left of a text that is scrolled by `right`.
    pub open spec fn cut(&self, source: Seq<char>, right: usize, out: Seq<char>) -> bool {
        exists|s: String, t: String|
            s@ == source && t@ == out && #[trigger] call_ensures(self.trim, (&s, right), t)
    }

    fn cut_text(&self, source: String, right: usize) -> (r: String)
        requires
            self.usable(),
        ensures
            self.cut(source@, right, r@),
    {
        let out = (self.trim)(&source, right);
        assert(call_ensures(self.trim, (&source, right), out));
        out
    }
}

// ---------------------------------------------------------------------------
// Unified view
// ---------------------------------------------------------------------------
/// The bar in front of the last line of a hunk.
pub open spec fn bottom_bar() -> Seq<char> {
    "└"@
}

/// The bar in front of the first line of a hunk.
pub open spec fn top_bar() -> Seq<char> {
    "┌"@
}

/// The bar in front of any other line of a hunk.
pub open spec fn middle_bar() -> Seq<char> {
    "│"@
}

/// The bar in front of a line: closed at the end of a hunk, open at a header.
pub open spec fn unified_bar(line_type: DiffLineType, end_of_hunk: bool) -> Seq<char> {
    if end_of_hunk {
        bottom_bar()
    } else if line_type == DiffLineType::Header {
        top_bar()
    } else {
        middle_bar()
    }
}

/// A line number in its column: to the right, or blank.
pub open spec fn number_text(n: Option<u32>, width: nat) -> Seq<char> {
    match n {
        Some(n) => text::pad_start_of(text::decimal_text(n as nat), width),
        None => text::spaces_of(width),
    }
}

fn number_column(n: Option<u32>, width: usize) -> (r: String)
    ensures
        r@ == number_text(n, width as nat),
{
    match n {
        Some(n) => text::pad_start(text::decimal(n as u64).as_str(), width),
        None => text::spaces(width),
    }
}

/// The text of a line before it is cut: an empty line that was added, deleted
/// or is a header, shows the line break sign.
pub open spec fn line_source(line: DiffLineView, line_break: Seq<char>, tab: nat) -> Seq<char> {
    if line.line_type != DiffLineType::Context && line.content.len() == 0 {
        line_break
    } else {
        text::expand_tabs(line.content, tab)
    }
}

/// What fills a column: a selected text reaches to the end of the column.
pub open spec fn filled(content: Seq<char>, selected: bool, width: nat) -> Seq<char> {
    (if selected {
        text::pad_end_of(content, width)
    } else {
        content
    }).push('\n')
}

fn fill(content: &str, selected: bool, width: usize) -> (r: String)
    ensures
        r@ == filled(content@, selected, width as nat),
{
    let mut out = if selected {
        text::pad_end(content, width)
    } else {
        content.to_owned()
    };
    out.push('\n');
    out
}

/// A line of the unified view: the bar, the two line numbers, and the text
/// `content`.
pub open spec fn unified_line(
    width: int,
    line: DiffLineView,
    selected: bool,
    selected_hunk: bool,
    end_of_hunk: bool,
    content: Seq<char>,
    line_num_width: nat,
) -> Seq<ThemedSpanView> {
    seq![
        themed::piece(
            unified_bar(line.line_type, end_of_hunk),
            Role::HunkMarker { selected: selected_hunk },
        ),
        themed::piece(
            number_text(line.position.old_lineno, line_num_width).push(' ') + number_text(
                line.position.new_lineno,
                line_num_width,
            ).push(' '),
            themed::dim_text(),
        ),
        themed::piece(
            filled(content, selected, selection::less(width, (line_num_width * 2 + 2) as int) as nat),
            Role::DiffLine { line_type: line.line_type, selected },
        ),
    ]
}

/// Whether `out` shows a line of the unified view.
pub open spec fn shows_line<F: Fn(&String, usize) -> String>(
    out: Seq<ThemedSpanView>,
    width: u16,
    row: UnifiedRow,
    rules: &TextRules<F>,
    scrolled_right: usize,
    line_num_width: usize,
) -> bool {
    exists|content: Seq<char>| #[trigger]
        rules.cut(
            line_source(row.line, rules.line_break@, rules.tab as nat),
            scrolled_right,
            content,
        ) && out == unified_line(
            width as int,
            row.line,
            row.selected,
            row.selected_hunk,
            row.end_of_hunk,
            content,
            line_num_width as nat,
        )
}

/// A line of the unified view.
pub fn get_line_to_add<F: Fn(&String, usize) -> String>(
    width: u16,
    line: &DiffLine,
    selected: bool,
    selected_hunk: bool,
    end_of_hunk: bool,
    rules: &TextRules<F>,
    scrolled_right: usize,
    line_num_width: usize,
) -> (r: ThemedLine)
    requires
        rules.usable(),
        line_num_width * 2 + 2 <= usize::MAX,
    ensures
        shows_line(
            r@,
            width,
            (UnifiedRow { line: line@, selected, selected_hunk, end_of_hunk }),
            rules,
            scrolled_right,
            line_num_width,
        ),
{
    let bar = if end_of_hunk {
        "└"
    } else if line.line_type == DiffLineType::Header {
        "┌"
    } else {
        "│"
    };
    let mut line_numbers = number_column(line.position.old_lineno, line_num_width);
    line_numbers.push(' ');
    let mut new_number = number_column(line.position.new_lineno, line_num_width);
    new_number.push(' ');
    line_numbers.append(new_number.as_str());
    let source = if line.line_type != DiffLineType::Context && line.content.as_str().is_empty() {
        rules.line_break.clone()
    } else {
        text::tabs_to_spaces(line.content.as_str(), rules.tab)
    };
    let content = rules.cut_text(source, scrolled_right);
    let overhead: usize = line_num_width * 2 + 2;
    let content_width: usize = if width as usize >= overhead {
        width as usize - overhead
    } else {
        0
    };
    let mut spans: Vec<ThemedSpan> = Vec::new();
    spans.push(ThemedSpan::new(bar.to_owned(), Role::HunkMarker { selected: selected_hunk }));
    spans.push(ThemedSpan::new(line_numbers, Role::Text { enabled: false, selected: false }));
    spans.push(
        ThemedSpan::new(
            fill(content.as_str(), selected, content_width),
            Role::DiffLine { line_type: line.line_type, selected },
        ),
    );
    let out = ThemedLine { spans };
    proof {
        assert(rules.cut(
            line_source(line@, rules.line_break@, rules.tab as nat),
            scrolled_right,
            content@,
        ));
        assert(out@ =~= unified_line(
            width as int,
            line@,
            selected,
            selected_hunk,
            end_of_hunk,
            content@,
            line_num_width as nat,
        ));
    }
    out
}

/// A line of the unified view, as it is to be shown.
#[verifier::ext_equal]
pub struct UnifiedRow {
    pub line: DiffLineView,
    pub selected: bool,
    pub selected_hunk: bool,
    pub end_of_hunk: bool,
}

/// A line of the unified view, as it is to be shown.
pub struct UnifiedLine<'a> {
    pub line: &'a DiffLine,
    pub selected: bool,
    pub selected_hunk: bool,
    pub end_of_hunk: bool,
}

impl<'a> View for UnifiedLine<'a> {
    type V = UnifiedRow;

    open spec fn view(&self) -> UnifiedRow {
        UnifiedRow {
            line: self.line@,
            selected: self.selected,
            selected_hunk: self.selected_hunk,
            end_of_hunk: self.end_of_hunk,
        }
    }
}

/// What is marked in a view: only a view that has the focus marks anything.
#[derive(Clone, Copy)]
pub struct Marked {
    pub focused: bool,
    pub selection: Selection,
    pub selected_hunk: Option<usize>,
}

impl Marked {
    pub open spec fn hunk(self, hunk: int) -> bool {
        self.focused && self.selected_hunk is Some && self.selected_hunk->0 == hunk
    }

    pub open spec fn line(self, line: int) -> bool {
        self.focused && self.selection.has(line)
    }
}

/// Line `j` of a hunk, which has the number `offset + j` among all lines.
pub open spec fn unified_row(
    lines: Seq<DiffLineView>,
    j: int,
    hunk: int,
    offset: int,
    marked: Marked,
) -> UnifiedRow {
    UnifiedRow {
        line: lines[j],
        selected: marked.line(offset + j),
        selected_hunk: marked.hunk(hunk),
        end_of_hunk: j == lines.len() - 1,
    }
}

/// The lines of a hunk from number `top` to number `top + height`. A hunk that
/// does not begin in front of the latter shows nothing.
pub open spec fn unified_hunk(
    lines: Seq<DiffLineView>,
    hunk: int,
    offset: int,
    top: int,
    height: int,
    marked: Marked,
) -> Seq<UnifiedRow> {
    let from = selection::less(top, offset);
    let to = selection::min_of(lines.len() as int, top + height + 1 - offset);
    if height > 0 && offset < top + height && from < to {
        Seq::new((to - from) as nat, |k: int| unified_row(lines, from + k, hunk, offset, marked))
    } else {
        Seq::empty()
    }
}

/// The lines of all hunks in view.
pub open spec fn unified_rows(
    all: Seq<HunkView>,
    top: int,
    height: int,
    marked: Marked,
) -> Seq<UnifiedRow>
    decreases all.len(),
{
    if all.len() == 0 {
        Seq::empty()
    } else {
        unified_rows(all.drop_last(), top, height, marked) + unified_hunk(
            all.last().lines,
            all.len() - 1,
            hunks::offset(all, all.len() - 1),
            top,
            height,
            marked,
        )
    }
}

proof fn lemma_rows_step(all: Seq<HunkView>, h: int, top: int, height: int, marked: Marked)
    requires
        0 <= h < all.len(),
    ensures
        unified_rows(all.take(h + 1), top, height, marked) == unified_rows(
            all.take(h),
            top,
            height,
            marked,
        ) + unified_hunk(all[h].lines, h, hunks::offset(all, h), top, height, marked),
{
    assert(all.take(h + 1).drop_last() =~= all.take(h));
    assert(all.take(h + 1).take(h) =~= all.take(h));
}

/// Behind the window nothing is shown.
proof fn lemma_rows_done(
    all: Seq<HunkView>,
    h: int,
    upto: int,
    top: int,
    height: int,
    marked: Marked,
)
    requires
        0 <= h <= upto <= all.len(),
        h == upto || height <= 0 || hunks::offset(all, h) >= top + height,
    ensures
        unified_rows(all.take(upto), top, height, marked) == unified_rows(
            all.take(h),
            top,
            height,
            marked,
        ),
    decreases upto - h,
{
    if h < upto {
        lemma_rows_done(all, h, upto - 1, top, height, marked);
        lemma_rows_step(all, upto - 1, top, height, marked);
        hunks::lemma_offset_monotone(all, h, upto - 1);
        let before = unified_rows(all.take(upto - 1), top, height, marked);
        assert(before + Seq::<UnifiedRow>::empty() =~= before);
    }
}

/// The lines of all hunks in view.
pub fn unified_lines(file: &FileDiff, top: usize, height: u16, marked: Marked) -> (r: Vec<
    UnifiedLine<'_>,
>)
    requires
        file.sound(),
    ensures
        text::views(r@) == unified_rows(file@.hunks, top as int, height as int, marked),
{
    let ghost all = file@.hunks;
    let mut out: Vec<UnifiedLine> = Vec::new();
    let mut line_cursor: usize = 0;
    let mut h: usize = 0;
    proof {
        hunks::lemma_flat_whole(all);
    }
    while h < file.hunks.len() && height > 0 && (line_cursor < top || line_cursor - top
        < height as usize)
        invariant
            h <= file.hunks.len(),
            all == file@.hunks,
            file.sound(),
            line_cursor == hunks::offset(all, h as int),
            text::views(out@) == unified_rows(
                all.take(h as int),
                top as int,
                height as int,
                marked,
            ),
        decreases file.hunks.len() - h,
    {
        let hunk = &file.hunks[h];
        let hunk_len: usize = hunk.lines.len();
        proof {
            hunks::lemma_flat_step(all, h as int);
            hunks::lemma_flat_whole(all);
            hunks::lemma_offset_monotone(all, h + 1, all.len() as int);
            lemma_rows_step(all, h as int, top as int, height as int, marked);
        }
        let from: usize = if top > line_cursor {
            top - line_cursor
        } else {
            0
        };
        let room: usize = if line_cursor < top {
            (top - line_cursor).saturating_add(height as usize)
        } else {
            height as usize - (line_cursor - top)
        };
        let to: usize = if hunk_len > room {
            room + 1
        } else {
            hunk_len
        };
        let selected_hunk = match marked.selected_hunk {
            Some(s) => marked.focused && s == h,
            None => false,
        };
        let ghost before = text::views(out@);
        let ghost part = unified_hunk(
            hunk@.lines,
            h as int,
            line_cursor as int,
            top as int,
            height as int,
            marked,
        );
        let mut j: usize = from;
        while j < to
            invariant
                from <= j,
                from < to ==> j <= to,
                from >= to ==> j == from && part.len() == 0,
                from < to ==> part.len() == to - from,
                to <= hunk_len == hunk.lines.len(),
                forall|k: int|
                    0 <= k < part.len() ==> part[k] == unified_row(
                        hunk@.lines,
                        from + k,
                        h as int,
                        line_cursor as int,
                        marked,
                    ),
                line_cursor + hunk_len <= usize::MAX,
                selected_hunk == marked.hunk(h as int),
                text::views(out@).len() == before.len() + (j - from),
                forall|k: int| 0 <= k < before.len() ==> text::views(out@)[k] == before[k],
                forall|k: int|
                    before.len() <= k < before.len() + (j - from) ==> text::views(out@)[k]
                        == part[k - before.len()],
            decreases to - j,
        {
            let line = UnifiedLine {
                line: &hunk.lines[j],
                selected: marked.focused && marked.selection.contains(line_cursor + j),
                selected_hunk,
                end_of_hunk: j == hunk_len - 1,
            };
            proof {
                text::lemma_views_push(out@, line);
                assert(part[j - from] == line@);
            }
            out.push(line);
            j = j + 1;
        }
        proof {
            assert(text::views(out@) =~= before + part);
        }
        line_cursor = line_cursor + hunk_len;
        h = h + 1;
    }
    proof {
        lemma_rows_done(
            all,
            h as int,
            all.len() as int,
            top as int,
            height as int,
            marked,
        );
        assert(all.take(all.len() as int) =~= all);
    }
    out
}

/// The unified view of a diff with hunks.
pub fn unified_text<F: Fn(&String, usize) -> String>(
    file: &FileDiff,
    width: u16,
    height: u16,
    top: usize,
    scrolled_right: usize,
    marked: Marked,
    rules: &TextRules<F>,
) -> (r: Vec<ThemedLine>)
    requires
        file.sound(),
        rules.usable(),
    ensures
        shows_lines(r@, file@.hunks, width, height, top, scrolled_right, marked, rules),
{
    let rows = unified_lines(file, top, height, marked);
    let line_num_width: usize = hunks::line_number_width(file);
    let ghost views = text::views(rows@);
    let mut out: Vec<ThemedLine> = Vec::new();
    let mut i: usize = 0;
    while i < rows.len()
        invariant
            i <= rows.len(),
            rules.usable(),
            line_num_width <= 10,
            views == text::views(rows@),
            out@.len() == i,
            forall|k: int|
                0 <= k < i ==> shows_line(
                    (#[trigger] out@[k])@,
                    width,
                    views[k],
                    rules,
                    scrolled_right,
                    line_num_width,
                ),
        decreases rows.len() - i,
    {
        let row = &rows[i];
        let line = get_line_to_add(
            width,
            row.line,
            row.selected,
            row.selected_hunk,
            row.end_of_hunk,
            rules,
            scrolled_right,
            line_num_width,
        );
        assert(views[i as int] == row@);
        out.push(line);
        i = i + 1;
    }
    out
}

/// Whether `out` is the unified view of a diff with hunks.
pub open spec fn shows_lines<F: Fn(&String, usize) -> String>(
    out: Seq<ThemedLine>,
    all: Seq<HunkView>,
    width: u16,
    height: u16,
    top: usize,
    scrolled_right: usize,
    marked: Marked,
    rules: &TextRules<F>,
) -> bool {
    let rows = unified_rows(all, top as int, height as int, marked);
    let line_num_width = text::decimal_text(
        hunks::largest_number(diff::flat_lines(all)),
    ).len() as usize;
    &&& out.len() == rows.len()
    &&& forall|k: int|
        0 <= k < out.len() ==> shows_line(
            (#[trigger] out[k])@,
            width,
            rows[k],
            rules,
            scrolled_right,
            line_num_width,
        )
}

// ---------------------------------------------------------------------------
// Binary files
// ---------------------------------------------------------------------------
/// How `bytesize::ByteSize` writes a number of bytes.
pub uninterp spec fn byte_size_text(bytes: u64) -> Seq<char>;

/// How a number of bytes below a kibibyte is written.
pub open spec fn plain_size(bytes: u64) -> Seq<char> {
    text::decimal_text(bytes as nat) + seq![' ', 'B']
}

/// `bytesize::ByteSize::b` and its `Display`: a number of bytes in the unit
/// that suits it. Below a kibibyte that is the number itself; the rounding of
/// larger ones is left to the name.
#[verifier::external_body]
fn byte_size(bytes: u64) -> (r: String)
    ensures
        r@ == byte_size_text(bytes),
        bytes < 1024 ==> r@ == plain_size(bytes),
{
    bytesize::ByteSize::b(bytes).to_string()
}

pub open spec fn magnitude(n: i64) -> u64 {
    if n >= 0 {
        n as u64
    } else {
        (-n) as u64
    }
}

fn unsigned_abs(n: i64) -> (r: u64)
    ensures
        r == magnitude(n),
{
    if n >= 0 {
        n as u64
    } else {
        (-(n + 1)) as u64 + 1
    }
}

/// The line that shows the sizes of a binary file and what they differ by.
pub open spec fn binary_line(sizes: (u64, u64), size_delta: i64) -> Seq<ThemedSpanView> {
    let sign = if size_delta >= 0 {
        "+"@
    } else {
        "-"@
    };
    let line_type = if size_delta >= 0 {
        DiffLineType::Add
    } else {
        DiffLineType::Delete
    };
    seq![
        themed::piece("size: "@, Role::Raw),
        themed::piece(byte_size_text(sizes.0), themed::dim_text()),
        themed::piece(" -> "@, Role::Raw),
        themed::piece(byte_size_text(sizes.1), themed::dim_text()),
        themed::piece(" ("@, Role::Raw),
        themed::piece(
            sign + byte_size_text(magnitude(size_delta)),
            Role::DiffLine { line_type, selected: false },
        ),
        themed::piece(")"@, Role::Raw),
    ]
}

/// Whether sizes below a kibibyte are written as the number and its unit: those
/// of a binary file and what they differ by.
pub open spec fn small_sizes_plain(sizes: (u64, u64), size_delta: i64) -> bool {
    &&& sizes.0 < 1024 ==> byte_size_text(sizes.0) == plain_size(sizes.0)
    &&& sizes.1 < 1024 ==> byte_size_text(sizes.1) == plain_size(sizes.1)
    &&& magnitude(size_delta) < 1024 ==> byte_size_text(magnitude(size_delta)) == plain_size(
        magnitude(size_delta),
    )
}

/// The line that shows the sizes of a binary file.
pub fn get_text_binary(file: &FileDiff) -> (r: ThemedLine)
    ensures
        r@ == binary_line(file.sizes, file.size_delta),
        small_sizes_plain(file.sizes, file.size_delta),
{
    let is_positive = file.size_delta >= 0;
    let sign = if is_positive {
        "+"
    } else {
        "-"
    };
    let line_type = if is_positive {
        DiffLineType::Add
    } else {
        DiffLineType::Delete
    };
    let dim = Role::Text { enabled: false, selected: false };
    let mut delta = sign.to_owned();
    delta.append(byte_size(unsigned_abs(file.size_delta)).as_str());
    let mut spans: Vec<ThemedSpan> = Vec::new();
    spans.push(ThemedSpan::new("size: ".to_owned(), Role::Raw));
    spans.push(ThemedSpan::new(byte_size(file.sizes.0), dim));
    spans.push(ThemedSpan::new(" -> ".to_owned(), Role::Raw));
    spans.push(ThemedSpan::new(byte_size(file.sizes.1), dim));
    spans.push(ThemedSpan::new(" (".to_owned(), Role::Raw));
    spans.push(ThemedSpan::new(delta, Role::DiffLine { line_type, selected: false }));
    spans.push(ThemedSpan::new(")".to_owned(), Role::Raw));
    let out = ThemedLine { spans };
    assert(out@ =~= binary_line(file.sizes, file.size_delta));
    out
}

// ---------------------------------------------------------------------------
// Two columns
// ---------------------------------------------------------------------------
/// The bar in front of a row.
pub open spec fn row_bar(row: SideBySideLineView) -> Seq<char> {
    if row.is_hunk_end {
        bottom_bar()
    } else if row.is_hunk_start {
        top_bar()
    } else {
        middle_bar()
    }
}

fn bar_of(row: &SideBySideLine) -> (r: &'static str)
    ensures
        r@ == row_bar(row@),
{
    if row.is_hunk_end {
        "└"
    } else if row.is_hunk_start {
        "┌"
    } else {
        "│"
    }
}

/// How a row is marked and measured.
#[derive(Clone, Copy)]
pub struct RowLook {
    /// Whether the row is selected.
    pub selected: bool,
    /// Whether its hunk is selected.
    pub hunk_selected: bool,
    /// The width of the text.
    pub panel_width: usize,
    /// The width of the line number.
    pub line_num_width: usize,
}

/// One side of a row: the bar, the line number, a gap, and the text.
pub open spec fn column_line(
    bar: Seq<char>,
    number: Option<u32>,
    line_type: DiffLineType,
    content: Seq<char>,
    look: RowLook,
) -> Seq<ThemedSpanView> {
    seq![
        themed::piece(bar, Role::HunkMarker { selected: look.hunk_selected }),
        themed::piece(number_text(number, look.line_num_width as nat), themed::dim_text()),
        themed::piece(" "@, themed::dim_text()),
        themed::piece(
            filled(content, look.selected, look.panel_width as nat),
            Role::DiffLine { line_type, selected: look.selected },
        ),
    ]
}

fn make_column_line(
    bar: &str,
    number: Option<u32>,
    line_type: DiffLineType,
    content: &str,
    look: RowLook,
) -> (r: ThemedLine)
    ensures
        r@ == column_line(bar@, number, line_type, content@, look),
{
    let dim = Role::Text { enabled: false, selected: false };
    let mut spans: Vec<ThemedSpan> = Vec::new();
    spans.push(ThemedSpan::new(bar.to_owned(), Role::HunkMarker { selected: look.hunk_selected }));
    spans.push(ThemedSpan::new(number_column(number, look.line_num_width), dim));
    spans.push(ThemedSpan::new(" ".to_owned(), dim));
    spans.push(
        ThemedSpan::new(
            fill(content, look.selected, look.panel_width),
            Role::DiffLine { line_type, selected: look.selected },
        ),
    );
    let out = ThemedLine { spans };
    assert(out@ =~= column_line(bar@, number, line_type, content@, look));
    out
}

/// What stands for an empty left side: the line break sign, but nothing for a
/// side that is not part of the change.
pub open spec fn left_filler(row: SideBySideLineView, line_break: Seq<char>) -> Seq<char> {
    if row.left_type == DiffLineType::Context {
        Seq::empty()
    } else {
        line_break
    }
}

/// Whether `out` shows the left side of a row.
pub open spec fn shows_left<F: Fn(&String, usize) -> String>(
    out: Seq<ThemedSpanView>,
    row: SideBySideLineView,
    look: RowLook,
    scrolled_right: usize,
    rules: &TextRules<F>,
) -> bool {
    if row.left_content.len() == 0 {
        out == column_line(
            row_bar(row),
            row.left_line_num,
            row.left_type,
            left_filler(row, rules.line_break@),
            look,
        )
    } else {
        exists|content: Seq<char>| #[trigger]
            rules.cut(row.left_content, scrolled_right, content) && out == column_line(
                row_bar(row),
                row.left_line_num,
                row.left_type,
                content,
                look,
            )
    }
}

/// The left side of a row.
pub fn left_line<F: Fn(&String, usize) -> String>(
    row: &SideBySideLine,
    look: RowLook,
    scrolled_right: usize,
    rules: &TextRules<F>,
) -> (r: ThemedLine)
    requires
        rules.usable(),
    ensures
        shows_left(r@, row@, look, scrolled_right, rules),
{
    if row.left_content.as_str().is_empty() {
        let filler = if row.left_type == DiffLineType::Context {
            String::new()
        } else {
            rules.line_break.clone()
        };
        make_column_line(bar_of(row), row.left_line_num, row.left_type, filler.as_str(), look)
    } else {
        let content = rules.cut_text(row.left_content.clone(), scrolled_right);
        assert(rules.cut(row@.left_content, scrolled_right, content@));
        make_column_line(bar_of(row), row.left_line_num, row.left_type, content.as_str(), look)
    }
}

/// What stands for an empty right side: the line break sign for an added
/// line.
pub open spec fn right_filler(row: SideBySideLineView, line_break: Seq<char>) -> Seq<char> {
    if row.right_type == DiffLineType::Context || row.right_type == DiffLineType::Header {
        Seq::empty()
    } else {
        line_break
    }
}

/// Whether `out` shows the right side of a row.
pub open spec fn shows_right<F: Fn(&String, usize) -> String>(
    out: Seq<ThemedSpanView>,
    row: SideBySideLineView,
    look: RowLook,
    scrolled_right: usize,
    rules: &TextRules<F>,
) -> bool {
    if row.right_type == DiffLineType::Header || row.right_content.len() == 0 {
        out == column_line(
            row_bar(row),
            row.right_line_num,
            row.right_type,
            right_filler(row, rules.line_break@),
            look,
        )
    } else {
        exists|content: Seq<char>| #[trigger]
            rules.cut(row.right_content, scrolled_right, content) && out == column_line(
                row_bar(row),
                row.right_line_num,
                row.right_type,
                content,
                look,
            )
    }
}

/// The right side of a row.
pub fn right_line<F: Fn(&String, usize) -> String>(
    row: &SideBySideLine,
    look: RowLook,
    scrolled_right: usize,
    rules: &TextRules<F>,
) -> (r: ThemedLine)
    requires
        rules.usable(),
    ensures
        shows_right(r@, row@, look, scrolled_right, rules),
{
    if row.right_type == DiffLineType::Header || row.right_content.as_str().is_empty() {
        let filler = if row.right_type == DiffLineType::Context || row.right_type
            == DiffLineType::Header {
            String::new()
        } else {
            rules.line_break.clone()
        };
        make_column_line(bar_of(row), row.right_line_num, row.right_type, filler.as_str(), look)
    } else {
        let content = rules.cut_text(row.right_content.clone(), scrolled_right);
        assert(rules.cut(row@.right_content, scrolled_right, content@));
        make_column_line(bar_of(row), row.right_line_num, row.right_type, content.as_str(), look)
    }
}

/// How a row is marked: the row with the number of the moving end of the
/// selection is selected.
pub open spec fn row_look(
    row: SideBySideLineView,
    marked: Marked,
    panel_width: usize,
    line_num_width: usize,
) -> RowLook {
    RowLook {
        selected: marked.focused && row.global_line_idx == marked.selection.end(),
        hunk_selected: marked.hunk(row.hunk_idx),
        panel_width,
        line_num_width,
    }
}

/// The two columns of the rows.
pub fn columns<F: Fn(&String, usize) -> String>(
    rows: &Vec<SideBySideLine>,
    panel_width: usize,
    line_num_width: usize,
    scrolled_right: usize,
    marked: Marked,
    rules: &TextRules<F>,
) -> (r: (Vec<ThemedLine>, Vec<ThemedLine>))
    requires
        rules.usable(),
    ensures
        shows_columns(
            r.0@,
            r.1@,
            text::views(rows@),
            panel_width,
            line_num_width,
            scrolled_right,
            marked,
            rules,
        ),
{
    let ghost views = text::views(rows@);
    let mut left: Vec<ThemedLine> = Vec::new();
    let mut right: Vec<ThemedLine> = Vec::new();
    let mut i: usize = 0;
    while i < rows.len()
        invariant
            i <= rows.len(),
            rules.usable(),
            views == text::views(rows@),
            left@.len() == i,
            right@.len() == i,
            forall|k: int|
                0 <= k < i ==> shows_left(
                    (#[trigger] left@[k])@,
                    views[k],
                    row_look(views[k], marked, panel_width, line_num_width),
                    scrolled_right,
                    rules,
                ),
            forall|k: int|
                0 <= k < i ==> shows_right(
                    (#[trigger] right@[k])@,
                    views[k],
                    row_look(views[k], marked, panel_width, line_num_width),
                    scrolled_right,
                    rules,
                ),
        decreases rows.len() - i,
    {
        let row = &rows[i];
        let look = RowLook {
            selected: marked.focused && row.global_line_idx == marked.selection.get_end(),
            hunk_selected: match marked.selected_hunk {
                Some(h) => marked.focused && h == row.hunk_idx,
                None => false,
            },
            panel_width,
            line_num_width,
        };
        assert(views[i as int] == row@);
        let l = left_line(row, look, scrolled_right, rules);
        let r = right_line(row, look, scrolled_right, rules);
        left.push(l);
        right.push(r);
        i = i + 1;
    }
    (left, right)
}

/// Whether `left` and `right` are the two columns of the rows.
pub open spec fn shows_columns<F: Fn(&String, usize) -> String>(
    left: Seq<ThemedLine>,
    right: Seq<ThemedLine>,
    rows: Seq<SideBySideLineView>,
    panel_width: usize,
    line_num_width: usize,
    scrolled_right: usize,
    marked: Marked,
    rules: &TextRules<F>,
) -> bool {
    &&& left.len() == rows.len()
    &&& right.len() == rows.len()
    &&& forall|k: int|
        0 <= k < rows.len() ==> shows_left(
            (#[trigger] left[k])@,
            rows[k],
            row_look(rows[k], marked, panel_width, line_num_width),
            scrolled_right,
            rules,
        )
    &&& forall|k: int|
        0 <= k < rows.len() ==> shows_right(
            (#[trigger] right[k])@,
            rows[k],
            row_look(rows[k], marked, panel_width, line_num_width),
            scrolled_right,
            rules,
        )
}

// ---------------------------------------------------------------------------
// Laws
// ---------------------------------------------------------------------------
/// The unified view shows consecutive lines of the diff, from number `top` on:
/// at least as many as the window is high where the diff has that many, and at
/// most one more.
pub proof fn law_unified_consecutive(all: Seq<HunkView>, top: int, height: int, marked: Marked)
    requires
        0 <= top,
        0 <= height,
    ensures
        ({
            let lines = diff::flat_lines(all);
            let rows = unified_rows(all, top, height, marked);
            &&& rows.len() <= height + 1
            &&& height == 0 ==> rows.len() == 0
            &&& height > 0 && lines.len() <= top + height ==> rows.len() == selection::less(
                lines.len() as int,
                top,
            )
            &&& lines.len() > top + height ==> rows.len() >= height
            &&& forall|k: int|
                0 <= k < rows.len() ==> top + k < lines.len() && (#[trigger] rows[k]).line
                    == lines[top + k] && rows[k].selected == marked.line(top + k)
        }),
    decreases all.len(),
{
    if all.len() > 0 {
        let before = all.drop_last();
        law_unified_consecutive(before, top, height, marked);
        let n = all.len() - 1;
        assert(all.take(n) =~= before);
        let lines = diff::flat_lines(all);
        let old_lines = diff::flat_lines(before);
        let rows = unified_rows(all, top, height, marked);
        let old_rows = unified_rows(before, top, height, marked);
        let offset = hunks::offset(all, n);
        let part = unified_hunk(all.last().lines, n, offset, top, height, marked);
        assert(offset == old_lines.len());
        assert(lines == old_lines + all.last().lines);
        assert forall|k: int| 0 <= k < rows.len() implies top + k < lines.len() && (
        #[trigger] rows[k]).line == lines[top + k] && rows[k].selected == marked.line(top + k) by {
            if k < old_rows.len() {
                assert(rows[k] == old_rows[k]);
            } else {
                assert(rows[k] == part[k - old_rows.len()]);
            }
        }
    }
}

/// A hunk is closed by its last line and opened by its header, in both views; each bar
/// is one character, and the three differ.
pub proof fn law_bars(line_type: DiffLineType, row: SideBySideLineView)
    ensures
        unified_bar(line_type, true) == seq!['└'],
        unified_bar(DiffLineType::Header, false) == seq!['┌'],
        line_type != DiffLineType::Header ==> unified_bar(line_type, false) == seq!['│'],
        row.is_hunk_end ==> row_bar(row) == seq!['└'],
        !row.is_hunk_end && row.is_hunk_start ==> row_bar(row) == seq!['┌'],
        !row.is_hunk_end && !row.is_hunk_start ==> row_bar(row) == seq!['│'],
{
    reveal_strlit("└");
    reveal_strlit("┌");
    reveal_strlit("│");
    assert(bottom_bar() =~= seq!['└']);
    assert(top_bar() =~= seq!['┌']);
    assert(middle_bar() =~= seq!['│']);
}

/// A line number stands at the right of its column, behind blanks; a line without a
/// number has a blank column of the same width.
pub proof fn law_number_column(n: u32, width: nat)
    requires
        text::decimal_text(n as nat).len() <= width,
    ensures
        ({
            let digits = text::decimal_text(n as nat);
            let column = number_text(Some(n), width);
            &&& column.len() == width
            &&& column.skip(width - digits.len()) == digits
            &&& forall|i: int| 0 <= i < width - digits.len() ==> #[trigger] column[i] == ' '
        }),
        number_text(None, width).len() == width,
        forall|i: int| 0 <= i < width ==> #[trigger] number_text(None, width)[i] == ' ',
{
    text::law_padding(text::decimal_text(n as nat), width);
}

/// An empty line that belongs to a change shows the sign for a line break, an empty
/// line of the context nothing. Any other line shows its text with its tabs widened.
pub proof fn law_line_source(line: DiffLineView, line_break: Seq<char>, tab: nat)
    ensures
        line.content.len() == 0 && (line.line_type == DiffLineType::Add || line.line_type
            == DiffLineType::Delete || line.line_type == DiffLineType::Header) ==> line_source(
            line,
            line_break,
            tab,
        ) == line_break,
        line.content.len() == 0 && line.line_type == DiffLineType::Context ==> line_source(
            line,
            line_break,
            tab,
        ).len() == 0,
        line.content.len() > 0 ==> line_source(line, line_break, tab) == text::expand_tabs(
            line.content,
            tab,
        ),
        line.content.len() > 0 && !line.content.contains('\t') ==> line_source(line, line_break, tab)
            == line.content,
{
    if !line.content.contains('\t') {
        text::law_tabs(Seq::empty(), line.content, tab);
    }
}

/// What fills a column is the text and a line feed; a selected text is followed by
/// blanks up to the end of the column.
pub proof fn law_filled(content: Seq<char>, width: nat)
    ensures
        filled(content, false, width) == content + seq!['\n'],
        ({
            let out = filled(content, true, width);
            let n = if content.len() < width {
                width
            } else {
                content.len()
            };
            &&& out.len() == n + 1
            &&& out.last() == '\n'
            &&& out.take(content.len() as int) == content
            &&& forall|i: int| content.len() <= i < n ==> #[trigger] out[i] == ' '
        }),
{
    text::law_padding(content, width);
    assert(filled(content, false, width) =~= content + seq!['\n']);
    assert(filled(content, true, width).take(content.len() as int) =~= text::pad_end_of(
        content,
        width,
    ).take(content.len() as int));
}

/// A line of the unified view shows, from left to right, the bar, the old number, the
/// new number and the text. The look of the bar tells whether the hunk is selected, that
/// of the text the type of the line and whether it is selected. A selected line is as
/// wide as the view, beside the bar.
pub proof fn law_unified_line(
    width: int,
    line: DiffLineView,
    row: UnifiedRow,
    content: Seq<char>,
    digits: nat,
)
    requires
        0 <= width,
        line == row.line,
    ensures
        ({
            let out = unified_line(
                width,
                row.line,
                row.selected,
                row.selected_hunk,
                row.end_of_hunk,
                content,
                digits,
            );
            &&& out.len() == 3
            &&& out[0].content == unified_bar(line.line_type, row.end_of_hunk)
            &&& out[0].role == (Role::HunkMarker { selected: row.selected_hunk })
            &&& out[1].content == number_text(line.position.old_lineno, digits) + seq![' ']
                + number_text(line.position.new_lineno, digits) + seq![' ']
            &&& out[1].role == (Role::Text { enabled: false, selected: false })
            &&& out[2].role == (Role::DiffLine { line_type: line.line_type, selected: row.selected })
            &&& !row.selected ==> out[2].content == content + seq!['\n']
            &&& row.selected && 2 * digits + 2 + content.len() <= width ==> 2 * digits + 2 + (
            out[2].content.len() - 1) == width
            &&& out[2].content.take(content.len() as int) == content
            &&& themed::themed_text(out) == out[0].content + out[1].content + out[2].content
        }),
{
    let out = unified_line(
        width,
        row.line,
        row.selected,
        row.selected_hunk,
        row.end_of_hunk,
        content,
        digits,
    );
    law_filled(content, selection::less(width, (digits * 2 + 2) as int) as nat);
    let old_number = number_text(line.position.old_lineno, digits);
    let new_number = number_text(line.position.new_lineno, digits);
    assert(old_number.push(' ') + new_number.push(' ') =~= old_number + seq![' '] + new_number + seq![
        ' ',
    ]);
    assert(out[2].content.take(content.len() as int) =~= content);
    assert(out =~= seq![out[0]] + seq![out[1]] + seq![out[2]]);
    themed::law_themed_text(seq![out[0]] + seq![out[1]], seq![out[2]], out[2]);
    themed::law_themed_text(seq![out[0]], seq![out[1]], out[1]);
    themed::law_themed_text(seq![out[0]], seq![out[1]], out[0]);
}

/// Only a view with the focus marks anything: the selected hunk, and the lines of the
/// selection.
pub proof fn law_marks(marked: Marked, i: usize)
    ensures
        marked.hunk(i as int) <==> marked.focused && marked.selected_hunk == Some(i),
        marked.line(i as int) <==> marked.focused && marked.selection.has(i as int),
{
}

/// Each line in the unified view is marked as part of the hunk that it stands in, and
/// the last line of that hunk, and no other, is marked as its end.
pub proof fn law_unified_hunk_marks(
    all: Seq<HunkView>,
    top: int,
    height: int,
    marked: Marked,
    h: int,
    k: int,
)
    requires
        0 <= top,
        0 <= height,
        0 <= h < all.len(),
        0 <= k < unified_rows(all, top, height, marked).len(),
        hunks::offset(all, h) <= top + k < hunks::offset(all, h + 1),
    ensures
        ({
            let row = unified_rows(all, top, height, marked)[k];
            &&& row.selected_hunk == marked.hunk(h)
            &&& row.end_of_hunk == (top + k == hunks::offset(all, h + 1) - 1)
            &&& row.line == all[h].lines[top + k - hunks::offset(all, h)]
        }),
    decreases all.len(),
{
    let before = all.drop_last();
    let n = all.len() - 1;
    assert(all.take(n) =~= before);
    law_unified_consecutive(before, top, height, marked);
    hunks::lemma_flat_step(all, h);
    hunks::lemma_flat_whole(all);
    let old_rows = unified_rows(before, top, height, marked);
    let part = unified_hunk(
        all.last().lines,
        n,
        hunks::offset(all, n),
        top,
        height,
        marked,
    );
    let rows = unified_rows(all, top, height, marked);
    assert(rows == old_rows + part);
    if h < n {
        assert(before.take(h) =~= all.take(h));
        assert(before.take(h + 1) =~= all.take(h + 1));
        hunks::lemma_flat_whole(before);
        hunks::lemma_offset_monotone(before, h + 1, n);
        if k < old_rows.len() {
            law_unified_hunk_marks(before, top, height, marked, h, k);
        } else {
            assert(part.len() > 0);
            assert(rows[k] == part[k - old_rows.len()]);
            law_unified_consecutive(all, top, height, marked);
            assert(false);
        }
    } else {
        if k < old_rows.len() {
            assert(old_rows[k].line == diff::flat_lines(before)[top + k]);
            assert(false);
        } else {
            assert(rows[k] == part[k - old_rows.len()]);
        }
    }
}

/// One side of a row shows, from left to right, the bar, the number, a blank and the
/// text, and tells by its look whether the hunk and the row are selected.
pub proof fn law_column_line(
    bar: Seq<char>,
    number: Option<u32>,
    line_type: DiffLineType,
    content: Seq<char>,
    look: RowLook,
)
    ensures
        ({
            let out = column_line(bar, number, line_type, content, look);
            &&& out.len() == 4
            &&& out[0].content == bar
            &&& out[0].role == (Role::HunkMarker { selected: look.hunk_selected })
            &&& out[1].content == number_text(number, look.line_num_width as nat)
            &&& out[1].role == (Role::Text { enabled: false, selected: false })
            &&& out[2].content == seq![' ']
            &&& out[2].role == (Role::Text { enabled: false, selected: false })
            &&& out[3].content.take(content.len() as int) == content
            &&& out[3].role == (Role::DiffLine { line_type, selected: look.selected })
            &&& !look.selected ==> out[3].content == content + seq!['\n']
            &&& look.selected && content.len() <= look.panel_width ==> out[3].content.len()
                == look.panel_width + 1
        }),
{
    reveal_strlit(" ");
    assert(" "@ =~= seq![' ']);
    law_filled(content, look.panel_width as nat);
    let out = column_line(bar, number, line_type, content, look);
    assert(out[3].content.take(content.len() as int) =~= content);
}

/// The left column shows what a row holds on its left: its number, its type and its
/// text, or for an empty line of a change the sign for a line break.
pub proof fn law_left_side<F: Fn(&String, usize) -> String>(
    out: Seq<ThemedSpanView>,
    row: SideBySideLineView,
    look: RowLook,
    scrolled_right: usize,
    rules: &TextRules<F>,
)
    requires
        shows_left(out, row, look, scrolled_right, rules),
    ensures
        out.len() == 4,
        out[0].content == row_bar(row),
        out[0].role == (Role::HunkMarker { selected: look.hunk_selected }),
        out[1].content == number_text(row.left_line_num, look.line_num_width as nat),
        out[3].role == (Role::DiffLine { line_type: row.left_type, selected: look.selected }),
        out[3].content.len() > 0 && out[3].content.last() == '\n',
        !look.selected && row.left_content.len() > 0 ==> rules.cut(
            row.left_content,
            scrolled_right,
            out[3].content.drop_last(),
        ),
        !look.selected && row.left_content.len() == 0 && (row.left_type == DiffLineType::Add
            || row.left_type == DiffLineType::Delete || row.left_type == DiffLineType::Header)
            ==> out[3].content.drop_last() == rules.line_break@,
        !look.selected && row.left_content.len() == 0 && row.left_type == DiffLineType::Context
            ==> out[3].content.drop_last().len() == 0,
{
    let content = if row.left_content.len() == 0 {
        left_filler(row, rules.line_break@)
    } else {
        choose|content: Seq<char>| #[trigger]
            rules.cut(row.left_content, scrolled_right, content) && out == column_line(
                row_bar(row),
                row.left_line_num,
                row.left_type,
                content,
                look,
            )
    };
    law_column_line(row_bar(row), row.left_line_num, row.left_type, content, look);
    law_filled(content, look.panel_width as nat);
    if !look.selected {
        assert(out[3].content.drop_last() =~= content);
    }
}

/// The right column shows what a row holds on its right: its number, its type and its
/// text, or for an empty line of a change the sign for a line break. Beside a header it
/// is empty.
pub proof fn law_right_side<F: Fn(&String, usize) -> String>(
    out: Seq<ThemedSpanView>,
    row: SideBySideLineView,
    look: RowLook,
    scrolled_right: usize,
    rules: &TextRules<F>,
)
    requires
        shows_right(out, row, look, scrolled_right, rules),
    ensures
        out.len() == 4,
        out[0].content == row_bar(row),
        out[0].role == (Role::HunkMarker { selected: look.hunk_selected }),
        out[1].content == number_text(row.right_line_num, look.line_num_width as nat),
        out[3].role == (Role::DiffLine { line_type: row.right_type, selected: look.selected }),
        out[3].content.len() > 0 && out[3].content.last() == '\n',
        !look.selected && row.right_content.len() > 0 && row.right_type != DiffLineType::Header
            ==> rules.cut(row.right_content, scrolled_right, out[3].content.drop_last()),
        !look.selected && row.right_content.len() == 0 && (row.right_type == DiffLineType::Add
            || row.right_type == DiffLineType::Delete) ==> out[3].content.drop_last()
            == rules.line_break@,
        !look.selected && (row.right_type == DiffLineType::Header || (row.right_content.len() == 0
            && row.right_type == DiffLineType::Context)) ==> out[3].content.drop_last().len() == 0,
{
    let content = if row.right_type == DiffLineType::Header || row.right_content.len() == 0 {
        right_filler(row, rules.line_break@)
    } else {
        choose|content: Seq<char>| #[trigger]
            rules.cut(row.right_content, scrolled_right, content) && out == column_line(
                row_bar(row),
                row.right_line_num,
                row.right_type,
                content,
                look,
            )
    };
    law_column_line(row_bar(row), row.right_line_num, row.right_type, content, look);
    law_filled(content, look.panel_width as nat);
    if !look.selected {
        assert(out[3].content.drop_last() =~= content);
    }
}

/// Of the rows in two columns the one at the moving end of the selection is selected,
/// and all rows of the selected hunk belong to it; without the focus, none.
pub proof fn law_row_look(
    row: SideBySideLineView,
    marked: Marked,
    panel_width: usize,
    line_num_width: usize,
)
    ensures
        ({
            let look = row_look(row, marked, panel_width, line_num_width);
            &&& look.selected <==> marked.focused && row.global_line_idx == marked.selection.end()
            &&& look.hunk_selected <==> marked.focused && marked.selected_hunk is Some
                && marked.selected_hunk->0 == row.hunk_idx
            &&& look.panel_width == panel_width
            &&& look.line_num_width == line_num_width
        }),
{
}

/// The line for a binary file reads the old size, the new size and what they differ by,
/// without its sign but with `+` or `-` in front, in the look of an added or a deleted
/// line.
pub proof fn law_binary_line(sizes: (u64, u64), size_delta: i64)
    ensures
        ({
            let out = binary_line(sizes, size_delta);
            let sign = if size_delta < 0 {
                '-'
            } else {
                '+'
            };
            &&& themed::themed_text(out) == "size: "@ + byte_size_text(sizes.0) + " -> "@
                + byte_size_text(sizes.1) + " ("@ + (seq![sign] + byte_size_text(
                magnitude(size_delta),
            )) + ")"@
            &&& out[5].content == seq![sign] + byte_size_text(magnitude(size_delta))
            &&& out[5].role == (Role::DiffLine {
                line_type: if size_delta < 0 {
                    DiffLineType::Delete
                } else {
                    DiffLineType::Add
                },
                selected: false,
            })
        }),
        magnitude(size_delta) as int == size_delta || magnitude(size_delta) as int == -size_delta,
{
    reveal_strlit("+");
    reveal_strlit("-");
    assert("+"@ =~= seq!['+']);
    assert("-"@ =~= seq!['-']);
    let out = binary_line(sizes, size_delta);
    themed::lemma_text_step(out, 0);
    themed::lemma_text_step(out, 1);
    themed::lemma_text_step(out, 2);
    themed::lemma_text_step(out, 3);
    themed::lemma_text_step(out, 4);
    themed::lemma_text_step(out, 5);
    themed::lemma_text_step(out, 6);
    assert(themed::themed_text(out.take(0)) =~= Seq::<char>::empty());
    assert(themed::themed_text(out.take(1)) =~= "size: "@);
    assert(out.take(7) =~= out);
}

/// A line from the first one in view on is shown exactly if it stands no more than the
/// height of the window below it, and its hunk begins inside the window.
pub proof fn law_unified_window(
    all: Seq<HunkView>,
    top: int,
    height: int,
    marked: Marked,
    h: int,
    j: int,
)
    requires
        0 <= top,
        0 <= height,
        0 <= h < all.len(),
        0 <= j < all[h].lines.len(),
        top <= hunks::offset(all, h) + j,
    ensures
        ({
            let line = hunks::offset(all, h) + j;
            line - top < unified_rows(all, top, height, marked).len() <==> height > 0 && line <= top
                + height && hunks::offset(all, h) < top + height
        }),
    decreases all.len(),
{
    let before = all.drop_last();
    let n = all.len() - 1;
    assert(all.take(n) =~= before);
    law_unified_consecutive(before, top, height, marked);
    law_unified_consecutive(all, top, height, marked);
    hunks::lemma_flat_step(all, h);
    hunks::lemma_flat_whole(all);
    let old_rows = unified_rows(before, top, height, marked);
    let rows = unified_rows(all, top, height, marked);
    let offset = hunks::offset(all, n);
    let part = unified_hunk(all.last().lines, n, offset, top, height, marked);
    assert(rows == old_rows + part);
    assert(offset == diff::flat_lines(before).len());
    if h < n {
        assert(before.take(h) =~= all.take(h));
        assert(before.take(h + 1) =~= all.take(h + 1));
        hunks::lemma_offset_monotone(all, h + 1, n);
        law_unified_window(before, top, height, marked, h, j);
    } else if old_rows.len() > 0 {
        assert(old_rows[old_rows.len() - 1].line == diff::flat_lines(before)[top + old_rows.len()
            - 1]);
    }
}

/// A line of the unified view is seen as it is.
pub proof fn law_unified_lines_are_seen_as_they_are(line: UnifiedLine)
    ensures
        line@.line == line.line@,
        line@.selected == line.selected,
        line@.selected_hunk == line.selected_hunk,
        line@.end_of_hunk == line.end_of_hunk,
{
}

} // verus!
