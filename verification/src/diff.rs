//! The diff of a file: hunks of lines, built from what git prints.
use easy_cast::Conv;
use vstd::prelude::*;

use crate::text;
use crate::text::CharClass;

verus! {

// ---------------------------------------------------------------------------
// Types
// ---------------------------------------------------------------------------
/// type of diff of a single line
#[derive(Clone, Copy, PartialEq, Eq, Structural, Hash, Debug)]
pub enum DiffLineType {
    /// just surrounding line, no change
    Context,
    /// header of the hunk
    Header,
    /// line added
    Add,
    /// line deleted
    Delete,
}

impl Default for DiffLineType {
    fn default() -> (r: Self)
        ensures
            r == DiffLineType::Context,
    {
        DiffLineType::Context
    }
}

impl DiffLineType {
    /// The type that stands for a line's origin sign: `H` is a hunk header,
    /// `-` and `<` a deletion (of a line, of the last line's end), `+` and `>`
    /// an addition.
    pub open spec fn of_origin(origin: char) -> DiffLineType {
        if origin == 'H' {
            DiffLineType::Header
        } else if origin == '-' || origin == '<' {
            DiffLineType::Delete
        } else if origin == '+' || origin == '>' {
            DiffLineType::Add
        } else {
            DiffLineType::Context
        }
    }

    /// The type that stands for a line's origin sign.
    pub fn from_origin(origin: char) -> (r: DiffLineType)
        ensures
            r == DiffLineType::of_origin(origin),
    {
        if origin == 'H' {
            DiffLineType::Header
        } else if origin == '-' || origin == '<' {
            DiffLineType::Delete
        } else if origin == '+' || origin == '>' {
            DiffLineType::Add
        } else {
            DiffLineType::Context
        }
    }
}

/// Where a line stands in the old and in the new file.
#[derive(Clone, Copy, PartialEq, Eq, Structural, Hash, Debug)]
pub struct DiffLinePosition {
    pub old_lineno: Option<u32>,
    pub new_lineno: Option<u32>,
}

impl Default for DiffLinePosition {
    fn default() -> (r: Self)
        ensures
            r.old_lineno is None,
            r.new_lineno is None,
    {
        DiffLinePosition { old_lineno: None, new_lineno: None }
    }
}

/// A line of a diff.
#[derive(Hash, Debug)]
pub struct DiffLine {
    pub content: String,
    pub line_type: DiffLineType,
    pub position: DiffLinePosition,
}

#[verifier::ext_equal]
pub struct DiffLineView {
    pub content: Seq<char>,
    pub line_type: DiffLineType,
    pub position: DiffLinePosition,
}

impl View for DiffLine {
    type V = DiffLineView;

    open spec fn view(&self) -> DiffLineView {
        DiffLineView {
            content: self.content@,
            line_type: self.line_type,
            position: self.position,
        }
    }
}

/// The line numbers and lengths in the header of a hunk.
#[derive(Clone, Copy, PartialEq, Eq, Structural, Hash, Debug)]
pub struct HunkHeader {
    pub old_start: u32,
    pub old_lines: u32,
    pub new_start: u32,
    pub new_lines: u32,
}

/// single diff hunk
#[derive(Hash, Debug)]
pub struct Hunk {
    /// hash of the hunk header
    pub header_hash: u64,
    /// list of `DiffLine`s
    pub lines: Vec<DiffLine>,
}

#[verifier::ext_equal]
pub struct HunkView {
    pub header_hash: u64,
    pub lines: Seq<DiffLineView>,
}

impl View for Hunk {
    type V = HunkView;

    open spec fn view(&self) -> HunkView {
        HunkView { header_hash: self.header_hash, lines: text::views(self.lines@) }
    }
}

/// collection of hunks, sum of all diff lines
#[derive(Hash, Debug)]
pub struct FileDiff {
    /// list of hunks
    pub hunks: Vec<Hunk>,
    /// lines total summed up over hunks
    pub lines: usize,
    pub untracked: bool,
    /// old and new file size in bytes
    pub sizes: (u64, u64),
    /// size delta in bytes
    pub size_delta: i64,
}

#[verifier::ext_equal]
pub struct FileDiffView {
    pub hunks: Seq<HunkView>,
    pub lines: usize,
    pub untracked: bool,
    pub sizes: (u64, u64),
    pub size_delta: i64,
}

impl View for FileDiff {
    type V = FileDiffView;

    open spec fn view(&self) -> FileDiffView {
        FileDiffView {
            hunks: text::views(self.hunks@),
            lines: self.lines,
            untracked: self.untracked,
            sizes: self.sizes,
            size_delta: self.size_delta,
        }
    }
}

/// The lines of all hunks, one after the other.
pub open spec fn flat_lines(hunks: Seq<HunkView>) -> Seq<DiffLineView>
    decreases hunks.len(),
{
    if hunks.len() == 0 {
        Seq::empty()
    } else {
        flat_lines(hunks.drop_last()) + hunks.last().lines
    }
}

impl FileDiff {
    /// Whether the count of lines is that of all hunks together.
    pub open spec fn sound(&self) -> bool {
        self.lines == flat_lines(self@.hunks).len()
    }
}

/// see <https://libgit2.org/libgit2/#HEAD/type/git_diff_options>
#[derive(Clone, Copy, PartialEq, Eq, Structural, Hash, Debug)]
pub struct DiffOptions {
    pub ignore_whitespace: bool,
    pub context: u32,
    pub interhunk_lines: u32,
}

impl Default for DiffOptions {
    fn default() -> (r: Self)
        ensures
            r == (DiffOptions { ignore_whitespace: false, context: 3, interhunk_lines: 0 }),
    {
        DiffOptions { ignore_whitespace: false, context: 3, interhunk_lines: 0 }
    }
}

impl DiffLinePosition {
    /// Whether a printed line stands at this position.
    pub fn is_at(&self, line: &RawLine) -> (r: bool)
        ensures
            r == (*self == diff_line_of(line@).position),
    {
        line.new_lineno == self.new_lineno && line.old_lineno == self.old_lineno
    }
}

/// Why a diff could not be made.
#[derive(Clone, Copy, PartialEq, Eq, Structural, Debug)]
pub enum DiffError {
    /// git refused the content or the path.
    Git,
    /// The only file of the diff has no path.
    UnspecifiedPath,
}

/// A line as git prints it: the sizes of the old and the new file, the header
/// of the hunk that the line belongs to, the sign of its origin, its line
/// numbers and its bytes.
#[derive(Debug)]
pub struct RawLine {
    pub sizes: (u64, u64),
    pub hunk: Option<HunkHeader>,
    pub origin: char,
    pub old_lineno: Option<u32>,
    pub new_lineno: Option<u32>,
    pub content: Vec<u8>,
}

#[verifier::ext_equal]
pub struct RawLineView {
    pub sizes: (u64, u64),
    pub hunk: Option<HunkHeader>,
    pub origin: char,
    pub old_lineno: Option<u32>,
    pub new_lineno: Option<u32>,
    pub content: Seq<u8>,
}

impl View for RawLine {
    type V = RawLineView;

    open spec fn view(&self) -> RawLineView {
        RawLineView {
            sizes: self.sizes,
            hunk: self.hunk,
            origin: self.origin,
            old_lineno: self.old_lineno,
            new_lineno: self.new_lineno,
            content: self.content@,
        }
    }
}

// ---------------------------------------------------------------------------
// Outside calls
// ---------------------------------------------------------------------------
/// What `String::from_utf8_lossy` reads in some bytes.
pub uninterp spec fn lossy_text(bytes: Seq<u8>) -> Seq<char>;

/// `String::from_utf8_lossy`: the text of the bytes. Bytes that are valid
/// UTF-8 are decoded; what stands for invalid bytes is left to the name.
#[verifier::external_body]
pub(crate) fn decode_lossy(bytes: &Vec<u8>) -> (r: String)
    ensures
        r@ == lossy_text(bytes@),
        vstd::utf8::valid_utf8(bytes@) ==> r@ == vstd::utf8::decode_utf8(bytes@),
{
    String::from_utf8_lossy(bytes).into_owned()
}

/// `easy_cast::Conv::conv` from `u64` to `i64`: the same number, where it
/// fits.
#[verifier::external_body]
fn to_i64(n: u64) -> (r: i64)
    requires
        n <= i64::MAX,
    ensures
        r == n,
{
    i64::conv(n)
}

/// The error type of `git2`.
#[verifier::external_type_specification]
#[verifier::external_body]
pub struct ExGitError(git2::Error);

/// What git prints as the patch that adds a file with this content at this
/// path; none where git refuses them.
pub uninterp spec fn new_file_patch(content: Seq<u8>, path: Seq<char>) -> Option<Seq<RawLineView>>;

/// The index of the first line feed, or the length where there is none.
pub open spec fn line_feed_index(bytes: Seq<u8>) -> int
    decreases bytes.len(),
{
    if bytes.len() == 0 || bytes[0] == 10 {
        0
    } else {
        1 + line_feed_index(bytes.drop_first())
    }
}

pub proof fn lemma_line_feed_index(bytes: Seq<u8>)
    ensures
        0 <= line_feed_index(bytes) <= bytes.len(),
        line_feed_index(bytes) < bytes.len() ==> bytes[line_feed_index(bytes)] == 10,
        forall|j: int| 0 <= j < line_feed_index(bytes) ==> bytes[j] != 10,
    decreases bytes.len(),
{
    if bytes.len() > 0 && bytes[0] != 10 {
        lemma_line_feed_index(bytes.drop_first());
        assert forall|j: int| 0 <= j < line_feed_index(bytes) implies bytes[j] != 10 by {
            if j > 0 {
                assert(bytes[j] == bytes.drop_first()[j - 1]);
            }
        }
    }
}

/// The lines of a content, each with its line feed.
pub open spec fn byte_lines(content: Seq<u8>) -> Seq<Seq<u8>>
    decreases content.len(),
    via byte_lines_decreases
{
    let k = line_feed_index(content);
    if content.len() == 0 {
        Seq::empty()
    } else if k < content.len() {
        seq![content.take(k + 1)] + byte_lines(content.skip(k + 1))
    } else {
        seq![content]
    }
}

#[via_fn]
proof fn byte_lines_decreases(content: Seq<u8>) {
    lemma_line_feed_index(content);
}

/// Whether a printed line is a line that was added.
pub open spec fn is_added(line: RawLineView) -> bool {
    line.hunk is Some && line.origin == '+'
}

/// The bytes of the lines that were added.
pub open spec fn added_bytes(lines: Seq<RawLineView>) -> Seq<Seq<u8>>
    decreases lines.len(),
{
    if lines.len() == 0 {
        Seq::empty()
    } else if is_added(lines.last()) {
        added_bytes(lines.drop_last()).push(lines.last().content)
    } else {
        added_bytes(lines.drop_last())
    }
}

/// The numbers that the lines that were added have in the new file.
pub open spec fn added_numbers(lines: Seq<RawLineView>) -> Seq<Option<u32>>
    decreases lines.len(),
{
    if lines.len() == 0 {
        Seq::empty()
    } else if is_added(lines.last()) {
        added_numbers(lines.drop_last()).push(lines.last().new_lineno)
    } else {
        added_numbers(lines.drop_last())
    }
}

/// Whether lines are numbered in their order, from one on.
pub open spec fn counted_from_one(numbers: Seq<Option<u32>>) -> bool {
    forall|k: int|
        0 <= k < numbers.len() ==> ((#[trigger] numbers[k]) matches Some(n) && n == k + 1)
}

/// Whether the printed lines hold a hunk. A binary file has none.
pub open spec fn has_hunk(lines: Seq<RawLineView>) -> bool {
    exists|i: int| 0 <= i < lines.len() && (#[trigger] lines[i]).hunk is Some
}

/// Whether printed lines can be the patch that adds a file with this content:
/// every line tells the sizes of the two files, which are nothing and the
/// length of the content; and where there is a hunk, the lines that were added
/// are the lines of the content, numbered from one on.
pub open spec fn adds_content(lines: Seq<RawLineView>, content: Seq<u8>) -> bool {
    &&& forall|i: int|
        0 <= i < lines.len() ==> (#[trigger] lines[i]).sizes.0 == 0 && lines[i].sizes.1
            == content.len()
    &&& has_hunk(lines) ==> added_bytes(lines) == byte_lines(content) && counted_from_one(
        added_numbers(lines),
    )
}

/// `git2::Patch::from_buffers` on an empty old file, and the lines that
/// `git2::Patch::print` hands out for that patch, in their order: the sizes
/// that they tell, and the content and the numbers of the lines that were added:
/// they stand in one hunk, which begins at line one of the new file. What the
/// headers of the file and of the hunk hold, and when a file is taken to be
/// binary, is left to the name.
#[verifier::external_body]
fn print_new_file(content: &Vec<u8>, path: &str) -> (r: Result<Vec<RawLine>, git2::Error>)
    ensures
        match r {
            Ok(lines) => new_file_patch(content@, path@) == Some(text::views(lines@))
                && adds_content(text::views(lines@), content@),
            Err(_) => new_file_patch(content@, path@) is None,
        },
{
    let mut out: Vec<RawLine> = Vec::new();
    git2::Patch::from_buffers(&[], None, content, Some(path.as_ref()), None)?.print(&mut |d, h, l| {
        let hunk = h.map(|h| HunkHeader {
            old_start: h.old_start(),
            old_lines: h.old_lines(),
            new_start: h.new_start(),
            new_lines: h.new_lines(),
        });
        let sizes = (d.old_file().size(), d.new_file().size());
        let (old_lineno, new_lineno, content) = (l.old_lineno(), l.new_lineno(), l.content().to_vec());
        out.push(RawLine { sizes, hunk, origin: l.origin(), old_lineno, new_lineno, content });
        true
    })?;
    Ok(out)
}

// ---------------------------------------------------------------------------
// From printed lines to hunks
// ---------------------------------------------------------------------------
/// Whether the character ends a line.
pub fn is_newline(c: char) -> (r: bool)
    ensures
        r == text::newline_char(c),
{
    c == '\n' || c == '\r'
}

/// A printed line as a line of the diff: its text without the line ends at
/// both sides.
pub open spec fn diff_line_of(line: RawLineView) -> DiffLineView {
    DiffLineView {
        content: text::trim_of(lossy_text(line.content), CharClass::Newline),
        line_type: DiffLineType::of_origin(line.origin),
        position: DiffLinePosition { old_lineno: line.old_lineno, new_lineno: line.new_lineno },
    }
}

/// Whether the lines of hunks that are valid UTF-8 are read as the text that
/// they encode.
pub open spec fn valid_lines_decoded(lines: Seq<RawLineView>) -> bool {
    forall|i: int|
        0 <= i < lines.len() && (#[trigger] lines[i]).hunk is Some && vstd::utf8::valid_utf8(
            lines[i].content,
        ) ==> lossy_text(lines[i].content) == vstd::utf8::decode_utf8(lines[i].content)
}

/// Consecutive lines under the same hunk header.
#[verifier::ext_equal]
pub struct Run {
    pub header: HunkHeader,
    pub lines: Seq<DiffLineView>,
}

/// The runs of lines under the same header, in their order. Lines outside any
/// hunk are left out, and end no run.
pub open spec fn runs_of(lines: Seq<RawLineView>) -> Seq<Run>
    decreases lines.len(),
{
    if lines.len() == 0 {
        Seq::empty()
    } else {
        let before = runs_of(lines.drop_last());
        match lines.last().hunk {
            None => before,
            Some(header) => if before.len() > 0 && before.last().header == header {
                before.drop_last().push(
                    Run { header, lines: before.last().lines.push(diff_line_of(lines.last())) },
                )
            } else {
                before.push(Run { header, lines: seq![diff_line_of(lines.last())] })
            },
        }
    }
}

/// The printed lines that belong to a hunk.
pub open spec fn hunk_lines_of(lines: Seq<RawLineView>) -> Seq<DiffLineView>
    decreases lines.len(),
{
    if lines.len() == 0 {
        Seq::empty()
    } else if lines.last().hunk is Some {
        hunk_lines_of(lines.drop_last()).push(diff_line_of(lines.last()))
    } else {
        hunk_lines_of(lines.drop_last())
    }
}

/// The file sizes that the last printed line tells.
pub open spec fn sizes_of(lines: Seq<RawLineView>) -> (u64, u64) {
    if lines.len() == 0 {
        (0, 0)
    } else {
        lines.last().sizes
    }
}

/// Whether the hunks are the runs, each with a hash of its header.
pub open spec fn hashed_runs<H: Fn(&HunkHeader) -> u64>(
    hunks: Seq<HunkView>,
    runs: Seq<Run>,
    hash: H,
) -> bool {
    &&& hunks.len() == runs.len()
    &&& forall|i: int|
        0 <= i < hunks.len() ==> (#[trigger] hunks[i]).lines == runs[i].lines && call_ensures(
            hash,
            (&runs[i].header,),
            hunks[i].header_hash,
        )
}

/// The lines of the hunks that are finished, and of the one that is not.
spec fn open_runs(done: Seq<Run>, header: Option<HunkHeader>, lines: Seq<DiffLineView>) -> Seq<
    Run,
> {
    match header {
        Some(h) => done.push(Run { header: h, lines }),
        None => done,
    }
}

/// The diff that the printed lines make up. `hash` is the hash of a hunk
/// header.
pub fn raw_diff_to_file_diff<H: Fn(&HunkHeader) -> u64>(
    raw: &Vec<RawLine>,
    untracked: bool,
    hash: H,
) -> (r: FileDiff)
    requires
        forall|h: &HunkHeader| call_requires(hash, (h,)),
        forall|i: int|
            0 <= i < raw@.len() ==> (#[trigger] raw@[i]).sizes.0 <= i64::MAX && raw@[i].sizes.1
                <= i64::MAX,
    ensures
        hashed_runs(r@.hunks, runs_of(text::views(raw@)), hash),
        valid_lines_decoded(text::views(raw@)),
        r.lines == hunk_lines_of(text::views(raw@)).len(),
        r.sound(),
        r.untracked == untracked,
        r.sizes == sizes_of(text::views(raw@)),
        r.size_delta == r.sizes.1 - r.sizes.0,
{
    let ghost all = text::views(raw@);
    let mut hunks: Vec<Hunk> = Vec::new();
    let mut lines: usize = 0;
    let mut sizes: (u64, u64) = (0, 0);
    let mut size_delta: i64 = 0;
    let mut current_hunk: Option<HunkHeader> = None;
    let mut current_lines: Vec<DiffLine> = Vec::new();
    let ghost mut done: Seq<Run> = Seq::empty();
    let mut i: usize = 0;
    while i < raw.len()
        invariant
            i <= raw.len(),
            all == text::views(raw@),
            forall|h: &HunkHeader| call_requires(hash, (h,)),
            forall|j: int|
                0 <= j < raw@.len() ==> (#[trigger] raw@[j]).sizes.0 <= i64::MAX && raw@[j].sizes.1
                    <= i64::MAX,
            hashed_runs(text::views(hunks@), done, hash),
            runs_of(all.take(i as int)) == open_runs(
                done,
                current_hunk,
                text::views(current_lines@),
            ),
            current_hunk is None ==> current_lines@.len() == 0 && done.len() == 0,
            current_hunk is Some ==> current_lines@.len() > 0,
            lines + current_lines@.len() == hunk_lines_of(all.take(i as int)).len() <= i,
            valid_lines_decoded(all.take(i as int)),
            sizes == sizes_of(all.take(i as int)),
            size_delta == sizes.1 - sizes.0,
        decreases raw.len() - i,
    {
        let line = &raw[i];
        let ghost before = all.take(i as int);
        proof {
            assert(all.take(i + 1).drop_last() =~= before);
            assert(all.take(i + 1).last() == line@);
        }
        sizes = line.sizes;
        size_delta = to_i64(sizes.1) - to_i64(sizes.0);
        match line.hunk {
            Some(header) => {
                match current_hunk {
                    None => {
                        current_hunk = Some(header);
                    },
                    Some(h) => {
                        if h != header {
                            let mut finished: Vec<DiffLine> = Vec::new();
                            std::mem::swap(&mut finished, &mut current_lines);
                            lines = lines + finished.len();
                            let hunk = Hunk { header_hash: hash(&h), lines: finished };
                            proof {
                                text::lemma_views_push(hunks@, hunk);
                                done = done.push(Run { header: h, lines: text::views(finished@) });
                            }
                            hunks.push(hunk);
                            current_hunk = Some(header);
                        }
                    },
                }
                let content = decode_lossy(&line.content);
                let diff_line = DiffLine {
                    content: text::trim(content.as_str(), CharClass::Newline),
                    line_type: DiffLineType::from_origin(line.origin),
                    position: DiffLinePosition {
                        old_lineno: line.old_lineno,
                        new_lineno: line.new_lineno,
                    },
                };
                let ghost old_lines = text::views(current_lines@);
                proof {
                    text::lemma_views_push(current_lines@, diff_line);
                    assert(diff_line@ =~= diff_line_of(line@));
                }
                current_lines.push(diff_line);
                proof {
                    let grown = text::views(current_lines@);
                    assert(grown == old_lines.push(diff_line_of(line@)));
                    if old_lines.len() == 0 {
                        assert(grown =~= seq![diff_line_of(line@)]);
                        assert(runs_of(all.take(i + 1)) =~= done.push(Run { header, lines: grown }));
                    } else {
                        assert(runs_of(before).drop_last() =~= done);
                        assert(runs_of(all.take(i + 1)) =~= done.push(Run { header, lines: grown }));
                    }
                }
            },
            None => {},
        }
        proof {
            let grown = all.take(i + 1);
            assert forall|j: int|
                0 <= j < grown.len() && (#[trigger] grown[j]).hunk is Some
                    && vstd::utf8::valid_utf8(grown[j].content) implies lossy_text(
                grown[j].content,
            ) == vstd::utf8::decode_utf8(grown[j].content) by {
                if j < i {
                    assert(grown[j] == before[j]);
                }
            }
        }
        i = i + 1;
    }
    assert(all.take(all.len() as int) =~= all);
    match current_hunk {
        Some(h) => {
            lines = lines + current_lines.len();
            let hunk = Hunk { header_hash: hash(&h), lines: current_lines };
            proof {
                text::lemma_views_push(hunks@, hunk);
            }
            hunks.push(hunk);
        },
        None => {},
    }
    proof {
        let runs = runs_of(all);
        law_no_line_lost(all);
        lemma_flat_hashed(text::views(hunks@), runs, hash);
    }
    FileDiff { hunks, lines, untracked, sizes, size_delta }
}

/// The lines of all runs, one after the other.
pub open spec fn flat_runs(runs: Seq<Run>) -> Seq<DiffLineView>
    decreases runs.len(),
{
    if runs.len() == 0 {
        Seq::empty()
    } else {
        flat_runs(runs.drop_last()) + runs.last().lines
    }
}

proof fn lemma_flat_hashed<H: Fn(&HunkHeader) -> u64>(
    hunks: Seq<HunkView>,
    runs: Seq<Run>,
    hash: H,
)
    requires
        hashed_runs(hunks, runs, hash),
    ensures
        flat_lines(hunks) == flat_runs(runs),
    decreases hunks.len(),
{
    if hunks.len() > 0 {
        assert forall|i: int| 0 <= i < hunks.len() - 1 implies (#[trigger] hunks.drop_last()[i]).lines
            == runs.drop_last()[i].lines && call_ensures(
            hash,
            (&runs.drop_last()[i].header,),
            hunks.drop_last()[i].header_hash,
        ) by {
            assert(hunks[i].lines == runs[i].lines);
        }
        lemma_flat_hashed(hunks.drop_last(), runs.drop_last(), hash);
        assert(hunks[hunks.len() - 1].lines == runs[runs.len() - 1].lines);
    }
}

/// No line of a hunk is lost, doubled or moved by sorting the lines into
/// hunks; no hunk is empty; neighbouring hunks have different headers.
pub proof fn law_no_line_lost(lines: Seq<RawLineView>)
    ensures
        flat_runs(runs_of(lines)) == hunk_lines_of(lines),
        forall|i: int| 0 <= i < runs_of(lines).len() ==> (#[trigger] runs_of(lines)[i]).lines.len() > 0,
        forall|i: int, j: int|
            0 <= i && j == i + 1 && j < runs_of(lines).len() ==> (#[trigger] runs_of(
                lines,
            )[i]).header != (#[trigger] runs_of(lines)[j]).header,
    decreases lines.len(),
{
    if lines.len() > 0 {
        law_no_line_lost(lines.drop_last());
        let before = runs_of(lines.drop_last());
        let after = runs_of(lines);
        match lines.last().hunk {
            None => {},
            Some(header) => {
                let line = diff_line_of(lines.last());
                if before.len() > 0 && before.last().header == header {
                    assert(after.drop_last() =~= before.drop_last());
                    assert(flat_runs(before.drop_last()) + before.last().lines.push(line) =~= (
                    flat_runs(before.drop_last()) + before.last().lines).push(line));
                    assert forall|i: int| 0 <= i < after.len() implies (
                    #[trigger] after[i]).lines.len() > 0 by {
                        if i < after.len() - 1 {
                            assert(after[i] == before[i]);
                        }
                    }
                    assert forall|i: int, j: int|
                        0 <= i && j == i + 1 && j < after.len() implies (#[trigger] after[i]).header
                        != (#[trigger] after[j]).header by {
                        assert(before[i].header != before[j].header);
                    }
                } else {
                    assert(after.drop_last() =~= before);
                    assert(flat_runs(before) + seq![line] =~= flat_runs(before).push(line));
                    assert forall|i: int| 0 <= i < after.len() implies (
                    #[trigger] after[i]).lines.len() > 0 by {
                        if i < before.len() {
                            assert(after[i] == before[i]);
                        }
                    }
                    assert forall|i: int, j: int|
                        0 <= i && j == i + 1 && j < after.len() implies (#[trigger] after[i]).header
                        != (#[trigger] after[j]).header by {
                        if j < before.len() {
                            assert(before[i].header != before[j].header);
                        } else {
                            assert(before.last() == before[i]);
                        }
                    }
                }
            },
        }
    }
}

// ---------------------------------------------------------------------------
// Files that git does not know yet
// ---------------------------------------------------------------------------
/// A changed file of a diff, as far as its own content is concerned.
pub struct DeltaFacts {
    /// Whether git does not know the file yet.
    pub untracked: bool,
    /// The path of the file after the change.
    pub new_path: Option<String>,
}

/// The file whose content is to be read and shown as added: the only file of
/// the diff, where git does not know it. The diff is refused where that file
/// has no path.
pub open spec fn untracked_path_of(deltas: Seq<DeltaFacts>) -> Result<
    Option<Seq<char>>,
    DiffError,
> {
    if deltas.len() == 1 && deltas[0].untracked {
        match deltas[0].new_path {
            Some(path) => Ok(Some(path@)),
            None => Err(DiffError::UnspecifiedPath),
        }
    } else {
        Ok(None)
    }
}

/// The path of the file whose content is to be read and shown as added.
pub fn untracked_path(deltas: &Vec<DeltaFacts>) -> (r: Result<Option<String>, DiffError>)
    ensures
        match r {
            Ok(path) => untracked_path_of(deltas@) == Ok::<Option<Seq<char>>, DiffError>(
                text::opt_text(path),
            ),
            Err(e) => untracked_path_of(deltas@) == Err::<Option<Seq<char>>, DiffError>(e),
        },
{
    if deltas.len() == 1 && deltas[0].untracked {
        match &deltas[0].new_path {
            Some(path) => Ok(Some(path.clone())),
            None => Err(DiffError::UnspecifiedPath),
        }
    } else {
        Ok(None)
    }
}

/// What a path leads to.
#[derive(Clone, Copy, PartialEq, Eq, Structural, Debug)]
pub enum FileKind {
    Missing,
    Symlink,
    Directory,
    Other,
}

/// What stands for the content of a file.
#[derive(Clone, Copy, PartialEq, Eq, Structural, Debug)]
pub enum ContentSource {
    /// The path that a symbolic link points to.
    LinkTarget,
    /// The bytes of the file.
    Bytes,
    /// Nothing can be read.
    Nothing,
}

/// What stands for the content of a file that git does not know yet.
pub fn new_file_content(kind: FileKind) -> (r: ContentSource)
    ensures
        r == (match kind {
            FileKind::Missing => ContentSource::Nothing,
            FileKind::Symlink => ContentSource::LinkTarget,
            FileKind::Directory => ContentSource::Nothing,
            FileKind::Other => ContentSource::Bytes,
        }),
{
    match kind {
        FileKind::Symlink => ContentSource::LinkTarget,
        FileKind::Other => ContentSource::Bytes,
        FileKind::Missing => ContentSource::Nothing,
        FileKind::Directory => ContentSource::Nothing,
    }
}

/// The lines of the patch that adds a file with this content.
pub fn new_file_lines(content: &Vec<u8>, path: &str) -> (r: Result<Vec<RawLine>, DiffError>)
    ensures
        match r {
            Ok(lines) => new_file_patch(content@, path@) == Some(text::views(lines@))
                && adds_content(text::views(lines@), content@),
            Err(e) => e == DiffError::Git && new_file_patch(content@, path@) is None,
        },
{
    match print_new_file(content, path) {
        Ok(lines) => Ok(lines),
        Err(_) => Err(DiffError::Git),
    }
}

/// The diff that shows all of a file that git does not know yet as added.
pub fn untracked_file_diff<H: Fn(&HunkHeader) -> u64>(
    content: &Vec<u8>,
    path: &str,
    hash: H,
) -> (r: Result<FileDiff, DiffError>)
    requires
        content@.len() <= i64::MAX,
        forall|h: &HunkHeader| call_requires(hash, (h,)),
    ensures
        match (r, new_file_patch(content@, path@)) {
            (Ok(diff), Some(lines)) => {
                &&& hashed_runs(diff@.hunks, runs_of(lines), hash)
                &&& valid_lines_decoded(lines)
                &&& diff.lines == hunk_lines_of(lines).len()
                &&& diff.sound()
                &&& diff.untracked
                &&& diff.sizes == sizes_of(lines)
                &&& lines.len() > 0 ==> diff.sizes.0 == 0 && diff.sizes.1 == content@.len()
                &&& adds_content(lines, content@)
                &&& diff.size_delta == diff.sizes.1 - diff.sizes.0
            },
            (Err(e), None) => e == DiffError::Git,
            _ => false,
        },
{
    let lines = new_file_lines(content, path)?;
    proof {
        let all = text::views(lines@);
        assert forall|i: int| 0 <= i < lines@.len() implies (#[trigger] lines@[i]).sizes.0
            <= i64::MAX && lines@[i].sizes.1 <= i64::MAX by {
            assert(all[i].sizes == lines@[i].sizes);
        }
        if all.len() > 0 {
            assert(all.last() == all[all.len() - 1]);
        }
    }
    Ok(raw_diff_to_file_diff(&lines, true, hash))
}

// ---------------------------------------------------------------------------
// Laws
// ---------------------------------------------------------------------------
/// A line is added, deleted or a header exactly where git's sign says so: a plus
/// or a line end that came, a minus or a line end that went, and an `H`. Its
/// numbers are those that git tells.
pub proof fn law_line_types(line: RawLineView)
    ensures
        diff_line_of(line).line_type == DiffLineType::Add <==> line.origin == '+' || line.origin
            == '>',
        diff_line_of(line).line_type == DiffLineType::Delete <==> line.origin == '-' || line.origin
            == '<',
        diff_line_of(line).line_type == DiffLineType::Header <==> line.origin == 'H',
        diff_line_of(line).position.old_lineno == line.old_lineno,
        diff_line_of(line).position.new_lineno == line.new_lineno,
{
}

/// The text of a line is kept as it is but for the line ends at its sides: blanks
/// and tabs stay.
pub proof fn law_content_kept(line: RawLineView, front: Seq<char>, t: Seq<char>, back: Seq<char>)
    requires
        lossy_text(line.content) == front + t + back,
        forall|i: int| 0 <= i < front.len() ==> #[trigger] front[i] == '\n' || front[i] == '\r',
        forall|i: int| 0 <= i < back.len() ==> #[trigger] back[i] == '\n' || back[i] == '\r',
        t.len() > 0 ==> t[0] != '\n' && t[0] != '\r' && t.last() != '\n' && t.last() != '\r',
    ensures
        diff_line_of(line).content == t,
{
    text::law_trim(front, t, back, CharClass::Newline);
}

/// Where the lines of hunks that are valid UTF-8 were read as the text that they
/// encode, a line whose bytes encode a text and a line feed has exactly that text
/// as its content.
pub proof fn law_text_of_line(lines: Seq<RawLineView>, i: int, t: Seq<char>)
    requires
        valid_lines_decoded(lines),
        0 <= i < lines.len(),
        lines[i].hunk is Some,
        lines[i].content == vstd::utf8::encode_utf8(t.push('\n')),
        t.len() > 0 ==> t[0] != '\n' && t[0] != '\r' && t.last() != '\n' && t.last() != '\r',
    ensures
        diff_line_of(lines[i]).content == t,
{
    let whole = t.push('\n');
    vstd::utf8::encode_utf8_valid_utf8(whole);
    vstd::utf8::encode_utf8_decode_utf8(whole);
    let none = Seq::<char>::empty();
    assert(none + t + seq!['\n'] =~= whole);
    law_content_kept(lines[i], none, t, seq!['\n']);
}

/// The header of each line of the runs.
pub open spec fn flat_headers(runs: Seq<Run>) -> Seq<HunkHeader>
    decreases runs.len(),
{
    if runs.len() == 0 {
        Seq::empty()
    } else {
        flat_headers(runs.drop_last()) + Seq::new(
            runs.last().lines.len(),
            |i: int| runs.last().header,
        )
    }
}

/// Each line of a hunk stands under its own header: the headers of the lines in
/// the hunks are those that git printed with the lines, in their order.
pub proof fn law_lines_under_their_header(lines: Seq<RawLineView>)
    ensures
        flat_headers(runs_of(lines)) == lines.filter(|l: RawLineView| l.hunk is Some).map_values(
            |l: RawLineView| l.hunk->0,
        ),
        flat_runs(runs_of(lines)) == lines.filter(|l: RawLineView| l.hunk is Some).map_values(
            |l: RawLineView| diff_line_of(l),
        ),
    decreases lines.len(),
{
    reveal(Seq::filter);
    let keep = |l: RawLineView| l.hunk is Some;
    let head = |l: RawLineView| l.hunk->0;
    let line = |l: RawLineView| diff_line_of(l);
    if lines.len() == 0 {
        assert(lines.filter(keep).map_values(head) =~= Seq::<HunkHeader>::empty());
        assert(lines.filter(keep).map_values(line) =~= Seq::<DiffLineView>::empty());
    } else {
        let front = lines.drop_last();
        law_lines_under_their_header(front);
        let before = runs_of(front);
        let after = runs_of(lines);
        let last = lines.last();
        match last.hunk {
            None => {},
            Some(header) => {
                assert(lines.filter(keep) =~= front.filter(keep).push(last));
                assert(lines.filter(keep).map_values(head) =~= front.filter(keep).map_values(
                    head,
                ).push(header));
                assert(lines.filter(keep).map_values(line) =~= front.filter(keep).map_values(
                    line,
                ).push(diff_line_of(last)));
                if before.len() > 0 && before.last().header == header {
                    assert(after.drop_last() =~= before.drop_last());
                    assert(flat_headers(after) =~= flat_headers(before).push(header));
                    assert(flat_runs(after) =~= flat_runs(before).push(diff_line_of(last)));
                } else {
                    assert(after.drop_last() =~= before);
                    assert(flat_headers(after) =~= flat_headers(before).push(header));
                    assert(flat_runs(after) =~= flat_runs(before).push(diff_line_of(last)));
                }
            },
        }
    }
}

/// The sizes are those that the last printed line tells.
pub proof fn law_sizes(lines: Seq<RawLineView>, last: RawLineView)
    ensures
        sizes_of(lines.push(last)) == last.sizes,
        sizes_of(Seq::<RawLineView>::empty()) == (0u64, 0u64),
{
}

/// All lines of a diff are those of its hunks, one hunk after the other.
pub proof fn law_flat_lines(a: Seq<HunkView>, b: Seq<HunkView>, hunk: HunkView)
    ensures
        flat_lines(a + b) == flat_lines(a) + flat_lines(b),
        flat_lines(seq![hunk]) == hunk.lines,
    decreases b.len(),
{
    assert(seq![hunk].drop_last() =~= Seq::<HunkView>::empty());
    assert(flat_lines(Seq::<HunkView>::empty()) + hunk.lines =~= hunk.lines);
    if b.len() == 0 {
        assert(a + b =~= a);
        assert(flat_lines(a) + flat_lines(b) =~= flat_lines(a));
    } else {
        law_flat_lines(a, b.drop_last(), hunk);
        assert((a + b).drop_last() =~= a + b.drop_last());
        assert(flat_lines(a) + flat_lines(b.drop_last()) + b.last().lines =~= flat_lines(a) + (
        flat_lines(b.drop_last()) + b.last().lines));
    }
}

/// The lines of a content one after the other are the content; a line feed stands
/// at the end of each line but perhaps the last, and nowhere else.
pub proof fn law_byte_lines(content: Seq<u8>)
    ensures
        byte_lines(content).flatten() == content,
        forall|i: int|
            0 <= i < byte_lines(content).len() ==> (#[trigger] byte_lines(content)[i]).len() > 0
                && !byte_lines(content)[i].drop_last().contains(10) && (i + 1 < byte_lines(
                content,
            ).len() ==> byte_lines(content)[i].last() == 10),
    decreases content.len(),
{
    let lines = byte_lines(content);
    if content.len() > 0 {
        let k = line_feed_index(content);
        lemma_line_feed_index(content);
        if k < content.len() {
            let rest = content.skip(k + 1);
            law_byte_lines(rest);
            let first = content.take(k + 1);
            assert(lines.drop_first() =~= byte_lines(rest));
            assert(lines.first() == first);
            assert(first + rest =~= content);
            assert(first.last() == 10);
            assert forall|i: int| 0 <= i < lines.len() implies (#[trigger] lines[i]).len() > 0
                && !lines[i].drop_last().contains(10) && (i + 1 < lines.len() ==> lines[i].last()
                == 10) by {
                if i > 0 {
                    assert(lines[i] == byte_lines(rest)[i - 1]);
                }
            }
        } else {
            assert(lines.drop_first() =~= Seq::<Seq<u8>>::empty());
            assert(lines.first() == content);
            assert(lines.drop_first().flatten() =~= Seq::<u8>::empty());
            assert(content + Seq::<u8>::empty() =~= content);
        }
    }
}

/// A file is shown as added, by its content, exactly where it is the only one of
/// the diff and git does not know it; it then has to have a path.
pub proof fn law_untracked_path(deltas: Seq<DeltaFacts>)
    ensures
        untracked_path_of(deltas) matches Ok(Some(path)) ==> deltas.len() == 1
            && deltas[0].untracked && text::opt_text(deltas[0].new_path) == Some(path),
        untracked_path_of(deltas) is Err <==> deltas.len() == 1 && deltas[0].untracked
            && deltas[0].new_path is None,
        untracked_path_of(deltas) == Ok::<Option<Seq<char>>, DiffError>(None) <==> deltas.len() != 1
            || !deltas[0].untracked,
{
}

/// Lines that follow each other under the same header stand in one hunk: no hunk is empty,
/// and two hunks that follow each other have different headers.
pub proof fn law_hunks_are_whole(lines: Seq<RawLineView>, i: int)
    ensures
        0 <= i < runs_of(lines).len() ==> runs_of(lines)[i].lines.len() > 0,
        0 <= i < runs_of(lines).len() - 1 ==> runs_of(lines)[i].header != runs_of(lines)[i + 1].header,
        runs_of(lines).len() == 0 <==> !has_hunk(lines),
    decreases lines.len(),
{
    if lines.len() > 0 {
        let front = lines.drop_last();
        law_hunks_are_whole(front, i);
        law_hunks_are_whole(front, runs_of(front).len() - 1);
        assert(lines.last() == lines[lines.len() - 1]);
        if has_hunk(front) {
            let k = choose|k: int| 0 <= k < front.len() && (#[trigger] front[k]).hunk is Some;
            assert(lines[k].hunk is Some);
        }
        if has_hunk(lines) && lines.last().hunk is None {
            let k = choose|k: int| 0 <= k < lines.len() && (#[trigger] lines[k]).hunk is Some;
            assert(front[k].hunk is Some);
        }
    }
}

/// A position is that of a printed line exactly if both numbers are the same.
pub proof fn law_position_of_line(position: DiffLinePosition, line: RawLine, r: bool)
    requires
        call_ensures(DiffLinePosition::is_at, (&position, &line), r),
    ensures
        r <==> position.old_lineno == line.old_lineno && position.new_lineno == line.new_lineno,
{
}

/// The lines of a diff are the printed lines that belong to a hunk, all of them and in their
/// order. A file grows by what its new size exceeds its old one, and the diff tells both, as
/// the last printed line has them.
pub proof fn law_file_diff<H: Fn(&HunkHeader) -> u64>(
    raw: Vec<RawLine>,
    untracked: bool,
    hash: H,
    r: FileDiff,
)
    requires
        forall|h: &HunkHeader| call_requires(hash, (h,)),
        forall|i: int|
            0 <= i < raw@.len() ==> (#[trigger] raw@[i]).sizes.0 <= i64::MAX && raw@[i].sizes.1
                <= i64::MAX,
        call_ensures(raw_diff_to_file_diff::<H>, (&raw, untracked, hash), r),
    ensures
        r.untracked == untracked,
        r.size_delta + r.sizes.0 == r.sizes.1,
        raw@.len() > 0 ==> r.sizes == raw@[raw@.len() - 1].sizes,
        raw@.len() == 0 ==> r.sizes == (0u64, 0u64),
        r.lines == flat_lines(r@.hunks).len(),
        flat_lines(r@.hunks) == text::views(raw@).filter(
            |l: RawLineView| l.hunk is Some,
        ).map_values(|l: RawLineView| diff_line_of(l)),
{
    law_lines_under_their_header(text::views(raw@));
    lemma_flat_hashed(r@.hunks, runs_of(text::views(raw@)), hash);
}

/// A diff, its hunks and its lines are seen as they are, each with all of its parts and in
/// their order; and so is a printed line.
pub proof fn law_diffs_are_seen_as_they_are(
    line: DiffLine,
    hunk: Hunk,
    file: FileDiff,
    raw: RawLine,
    i: int,
)
    ensures
        line@.content == line.content@,
        line@.line_type == line.line_type,
        line@.position == line.position,
        hunk@.header_hash == hunk.header_hash,
        hunk@.lines.len() == hunk.lines@.len(),
        0 <= i < hunk.lines@.len() ==> hunk@.lines[i] == hunk.lines@[i]@,
        file@.hunks.len() == file.hunks@.len(),
        0 <= i < file.hunks@.len() ==> file@.hunks[i] == file.hunks@[i]@,
        file@.lines == file.lines,
        file@.untracked == file.untracked,
        file@.sizes == file.sizes,
        file@.size_delta == file.size_delta,
        raw@.sizes == raw.sizes,
        raw@.hunk == raw.hunk,
        raw@.origin == raw.origin,
        raw@.old_lineno == raw.old_lineno,
        raw@.new_lineno == raw.new_lineno,
        raw@.content == raw.content@,
{
}

/// What stands for the content of a new file: where a link points to, not what stands
/// there, and for anything else that can be read its bytes.
pub proof fn law_new_file_content(kind: FileKind, r: ContentSource)
    requires
        call_ensures(new_file_content, (kind,), r),
    ensures
        r is LinkTarget <==> kind is Symlink,
        r is Bytes <==> kind is Other,
        r is Nothing <==> kind is Missing || kind is Directory,
{
}

/// The diff of a file that git does not know yet is marked as such and grows from nothing
/// to the length of the content; it is refused exactly where git refuses the file.
pub proof fn law_untracked_file_diff<H: Fn(&HunkHeader) -> u64>(
    content: Vec<u8>,
    path: &str,
    hash: H,
    r: Result<FileDiff, DiffError>,
)
    requires
        content@.len() <= i64::MAX,
        forall|h: &HunkHeader| call_requires(hash, (h,)),
        call_ensures(untracked_file_diff::<H>, (&content, path, hash), r),
    ensures
        r is Err <==> new_file_patch(content@, path@) is None,
        r matches Err(e) ==> e == DiffError::Git,
        r matches Ok(file) ==> {
            let lines = new_file_patch(content@, path@)->0;
            &&& file.untracked
            &&& file.sound()
            &&& lines.len() > 0 ==> file.sizes.0 == 0 && file.sizes.1 == content@.len()
                && file.size_delta == content@.len()
            &&& flat_lines(file@.hunks) == lines.filter(
                |l: RawLineView| l.hunk is Some,
            ).map_values(|l: RawLineView| diff_line_of(l))
        },
{
    if let Ok(file) = r {
        let lines = new_file_patch(content@, path@)->0;
        law_lines_under_their_header(lines);
        lemma_flat_hashed(file@.hunks, runs_of(lines), hash);
    }
}

} // verus!
