//! Staging some lines of a file that git does not know yet.
use easy_cast::Conv;
use vstd::prelude::*;

use crate::diff;
use crate::diff::{DiffLinePosition, RawLine, RawLineView};
use crate::text;
use crate::text::CharClass;

verus! {

/// The error type of `easy_cast`.
#[verifier::external_type_specification]
#[verifier::external_body]
pub struct ExCastError(easy_cast::Error);

/// `easy_cast::Conv::try_conv` from `usize` to `u32`: the same number, or an
/// error where it does not fit.
#[verifier::external_body]
fn to_u32(n: usize) -> (r: Result<u32, easy_cast::Error>)
    ensures
        match r {
            Ok(m) => m == n,
            Err(_) => n > u32::MAX,
        },
{
    u32::try_conv(n)
}

/// Why lines could not be staged.
#[derive(Clone, Copy, PartialEq, Eq, Structural, Debug)]
pub enum StageError {
    /// git refused the content or the path.
    Git,
    /// The staged content is longer than the index can tell.
    TooLarge,
}

/// What is put into the index for a file.
pub struct StagedFile {
    /// The content of the new blob.
    pub content: String,
    /// The file mode: a plain file.
    pub mode: u32,
    /// The length of the content in bytes.
    pub file_size: u32,
    /// The path of the entry.
    pub path: String,
}

pub const FILE_MODE: u32 = 0o100644;

/// The position that an added line is found under.
pub open spec fn added_position(line: RawLineView) -> DiffLinePosition {
    DiffLinePosition { old_lineno: None, new_lineno: line.new_lineno }
}

/// Whether the line is an added line at one of the positions.
pub open spec fn is_selected(line: RawLineView, lines: Seq<DiffLinePosition>) -> bool {
    diff::is_added(line) && lines.contains(added_position(line))
}

/// The text of some bytes, ended by exactly one line feed.
pub open spec fn ended_bytes(bytes: Seq<u8>) -> Seq<char> {
    text::trim_end_of(diff::lossy_text(bytes), CharClass::LineFeed).push('\n')
}

/// The text of a line, ended by exactly one line feed.
pub open spec fn ended_line(line: RawLineView) -> Seq<char> {
    ended_bytes(line.content)
}

/// The text of the selected added lines, in the order of the file.
pub open spec fn selected_text(raw: Seq<RawLineView>, lines: Seq<DiffLinePosition>) -> Seq<char>
    decreases raw.len(),
{
    if raw.len() == 0 {
        Seq::empty()
    } else if is_selected(raw.last(), lines) {
        selected_text(raw.drop_last(), lines) + ended_line(raw.last())
    } else {
        selected_text(raw.drop_last(), lines)
    }
}

/// The text of a line that is valid UTF-8, ended by exactly one line feed.
pub open spec fn ended_utf8(bytes: Seq<u8>) -> Seq<char> {
    text::trim_end_of(vstd::utf8::decode_utf8(bytes), CharClass::LineFeed).push('\n')
}

/// The text of the selected added lines, where they are valid UTF-8.
pub open spec fn selected_utf8(raw: Seq<RawLineView>, lines: Seq<DiffLinePosition>) -> Seq<char>
    decreases raw.len(),
{
    if raw.len() == 0 {
        Seq::empty()
    } else if is_selected(raw.last(), lines) {
        selected_utf8(raw.drop_last(), lines) + ended_utf8(raw.last().content)
    } else {
        selected_utf8(raw.drop_last(), lines)
    }
}

/// Whether all selected lines are valid UTF-8.
pub open spec fn selected_valid(raw: Seq<RawLineView>, lines: Seq<DiffLinePosition>) -> bool {
    forall|i: int|
        0 <= i < raw.len() && is_selected(#[trigger] raw[i], lines) ==> vstd::utf8::valid_utf8(
            raw[i].content,
        )
}

/// Whether the added line with this number is one of the positions.
pub open spec fn number_selected(number: int, lines: Seq<DiffLinePosition>) -> bool {
    exists|i: int|
        0 <= i < lines.len() && (#[trigger] lines[i]).old_lineno is None && (
        lines[i].new_lineno matches Some(n) && n == number)
}

/// The text of the lines of a file whose numbers are selected, counted from one
/// on.
pub open spec fn numbered_text(file: Seq<Seq<u8>>, lines: Seq<DiffLinePosition>) -> Seq<char>
    decreases file.len(),
{
    if file.len() == 0 {
        Seq::empty()
    } else if number_selected(file.len() as int, lines) {
        numbered_text(file.drop_last(), lines) + ended_bytes(file.last())
    } else {
        numbered_text(file.drop_last(), lines)
    }
}

/// Where the added lines are counted from one on, those that are selected are
/// the ones whose numbers are.
proof fn lemma_selected_by_number(raw: Seq<RawLineView>, lines: Seq<DiffLinePosition>)
    requires
        diff::counted_from_one(diff::added_numbers(raw)),
    ensures
        selected_text(raw, lines) == numbered_text(diff::added_bytes(raw), lines),
        diff::added_numbers(raw).len() == diff::added_bytes(raw).len(),
    decreases raw.len(),
{
    if raw.len() > 0 {
        let front = raw.drop_last();
        let numbers = diff::added_numbers(raw);
        let before = diff::added_numbers(front);
        assert forall|k: int| 0 <= k < before.len() implies ((
        #[trigger] before[k]) matches Some(n) && n == k + 1) by {
            assert(before[k] == numbers[k]);
        }
        lemma_selected_by_number(front, lines);
        if diff::is_added(raw.last()) {
            let k = before.len() as int;
            assert(numbers[k] == raw.last().new_lineno);
            let position = added_position(raw.last());
            if lines.contains(position) {
                let i = choose|i: int| 0 <= i < lines.len() && lines[i] == position;
                assert(lines[i].old_lineno is None);
            }
            if number_selected(k + 1, lines) {
                let i = choose|i: int|
                    0 <= i < lines.len() && (#[trigger] lines[i]).old_lineno is None && (
                    lines[i].new_lineno matches Some(n) && n == k + 1);
                assert(lines[i] == position);
            }
            assert(diff::added_bytes(raw).drop_last() =~= diff::added_bytes(front));
        }
    }
}

fn has_position(lines: &Vec<DiffLinePosition>, position: DiffLinePosition) -> (r: bool)
    ensures
        r == lines@.contains(position),
{
    let mut i: usize = 0;
    while i < lines.len()
        invariant
            i <= lines.len(),
            forall|j: int| 0 <= j < i ==> lines@[j] != position,
        decreases lines.len() - i,
    {
        if lines[i] == position {
            return true;
        }
        i = i + 1;
    }
    false
}

/// The text of the selected added lines.
pub fn selected_content(raw: &Vec<RawLine>, lines: &Vec<DiffLinePosition>) -> (r: String)
    ensures
        r@ == selected_text(text::views(raw@), lines@),
        selected_valid(text::views(raw@), lines@) ==> r@ == selected_utf8(
            text::views(raw@),
            lines@,
        ),
{
    let ghost all = text::views(raw@);
    let mut out = String::new();
    let mut i: usize = 0;
    while i < raw.len()
        invariant
            i <= raw.len(),
            all == text::views(raw@),
            out@ == selected_text(all.take(i as int), lines@),
            selected_valid(all, lines@) ==> out@ == selected_utf8(all.take(i as int), lines@),
        decreases raw.len() - i,
    {
        let line = &raw[i];
        assert(all[i as int] == line@);
        proof {
            assert(all.take(i + 1).drop_last() =~= all.take(i as int));
            assert(all.take(i + 1).last() == line@);
        }
        if line.hunk.is_some() && line.origin == '+' {
            let position = DiffLinePosition { old_lineno: None, new_lineno: line.new_lineno };
            if has_position(lines, position) {
                let content = diff::decode_lossy(&line.content);
                let mut ended = text::trim_end(content.as_str(), CharClass::LineFeed);
                ended.push('\n');
                out.append(ended.as_str());
            }
        }
        i = i + 1;
    }
    assert(all.take(all.len() as int) =~= all);
    out
}

/// What the index gets for a content: nothing for an empty one.
pub open spec fn staged(r: Option<StagedFile>, content: Seq<char>, path: Seq<char>) -> bool {
    match r {
        None => content.len() == 0,
        Some(file) => {
            &&& content.len() > 0
            &&& file.content@ == content
            &&& file.mode == FILE_MODE
            &&& file.file_size == vstd::utf8::encode_utf8(content).len()
            &&& file.path@ == path
        },
    }
}

/// What the index gets for the selected lines of a printed patch.
pub fn stage_selected(raw: &Vec<RawLine>, path: &str, lines: &Vec<DiffLinePosition>) -> (r: Result<
    Option<StagedFile>,
    StageError,
>)
    ensures
        ({
            let content = selected_text(text::views(raw@), lines@);
            match r {
                Ok(file) => staged(file, content, path@) && vstd::utf8::encode_utf8(content).len()
                    <= u32::MAX,
                Err(e) => e == StageError::TooLarge && content.len() > 0
                    && vstd::utf8::encode_utf8(content).len() > u32::MAX,
            }
        }),
        selected_valid(text::views(raw@), lines@) ==> selected_text(text::views(raw@), lines@)
            == selected_utf8(text::views(raw@), lines@),
{
    let content = selected_content(raw, lines);
    if content.as_str().is_empty() {
        return Ok(None);
    }
    match to_u32(content.as_str().as_bytes().len()) {
        Ok(file_size) => Ok(
            Some(StagedFile { content, mode: FILE_MODE, file_size, path: path.to_owned() }),
        ),
        Err(_) => Err(StageError::TooLarge),
    }
}

/// Whether all lines of a text file are selected: one that is valid UTF-8 and
/// ends in a line feed.
pub open spec fn whole_file(
    content: Seq<u8>,
    raw: Seq<RawLineView>,
    lines: Seq<DiffLinePosition>,
) -> bool {
    &&& diff::has_hunk(raw)
    &&& vstd::utf8::valid_utf8(content)
    &&& content.len() > 0 && content.last() == 10
    &&& forall|i: int|
        0 <= i < raw.len() && diff::is_added(#[trigger] raw[i]) ==> is_selected(raw[i], lines)
}

/// Selecting all lines of a text file stages the file as it is.
pub open spec fn staged_whole(
    content: Seq<u8>,
    full_path: Seq<char>,
    path: Seq<char>,
    lines: Seq<DiffLinePosition>,
    r: Result<Option<StagedFile>, StageError>,
) -> bool {
    diff::new_file_patch(content, full_path) matches Some(raw) ==> whole_file(content, raw, lines)
        && content.len() <= u32::MAX ==> {
        &&& r matches Ok(Some(file))
        &&& file.content@ == vstd::utf8::decode_utf8(content)
        &&& file.mode == FILE_MODE
        &&& file.file_size == content.len()
        &&& file.path@ == path
    }
}

/// What the index gets for the selected lines of a file that git does not know
/// yet. `content` is what the file holds, `full_path` where it stands and
/// `path` its path inside the work tree.
pub fn stage_lines_untracked(
    content: &Vec<u8>,
    full_path: &str,
    path: &str,
    lines: &Vec<DiffLinePosition>,
) -> (r: Result<Option<StagedFile>, StageError>)
    ensures
        lines@.len() == 0 ==> r == Ok::<Option<StagedFile>, StageError>(None),
        lines@.len() > 0 ==> match diff::new_file_patch(content@, full_path@) {
            None => r == Err::<Option<StagedFile>, StageError>(StageError::Git),
            Some(raw) => {
                let text = selected_text(raw, lines@);
                &&& diff::has_hunk(raw) ==> text == numbered_text(
                    diff::byte_lines(content@),
                    lines@,
                )
                &&& match r {
                    Ok(file) => staged(file, text, path@) && vstd::utf8::encode_utf8(text).len()
                        <= u32::MAX,
                    Err(e) => e == StageError::TooLarge && text.len() > 0
                        && vstd::utf8::encode_utf8(text).len() > u32::MAX,
                }
            },
        },
        lines@.len() > 0 ==> staged_whole(content@, full_path@, path@, lines@, r),
{
    if lines.len() == 0 {
        return Ok(None);
    }
    match diff::new_file_lines(content, full_path) {
        Ok(raw) => {
            let r = stage_selected(&raw, path, lines);
            proof {
                let all = text::views(raw@);
                if diff::has_hunk(all) {
                    lemma_selected_by_number(all, lines@);
                }
                if whole_file(content@, all, lines@) {
                    lemma_whole_file(content@, all, lines@);
                    vstd::utf8::decode_utf8_encode_utf8(content@);
                }
            }
            r
        },
        Err(_) => Err(StageError::Git),
    }
}

// ---------------------------------------------------------------------------
// Laws
// ---------------------------------------------------------------------------
/// What is staged depends on which positions are selected, not on the order in
/// which they are given or on how often.
pub proof fn law_selection_is_a_set(
    raw: Seq<RawLineView>,
    a: Seq<DiffLinePosition>,
    b: Seq<DiffLinePosition>,
)
    requires
        a.to_set() == b.to_set(),
    ensures
        selected_text(raw, a) == selected_text(raw, b),
    decreases raw.len(),
{
    if raw.len() > 0 {
        law_selection_is_a_set(raw.drop_last(), a, b);
        let position = added_position(raw.last());
        assert(a.to_set().contains(position) == a.contains(position));
        assert(b.to_set().contains(position) == b.contains(position));
    }
}

/// All added lines of a patch, each ended by one line feed.
pub open spec fn added_text(raw: Seq<RawLineView>) -> Seq<char>
    decreases raw.len(),
{
    if raw.len() == 0 {
        Seq::empty()
    } else if diff::is_added(raw.last()) {
        added_text(raw.drop_last()) + ended_line(raw.last())
    } else {
        added_text(raw.drop_last())
    }
}

/// Selecting all added lines stages all of them.
pub proof fn law_select_all(raw: Seq<RawLineView>, lines: Seq<DiffLinePosition>)
    requires
        forall|i: int|
            0 <= i < raw.len() && diff::is_added(#[trigger] raw[i]) ==> is_selected(raw[i], lines),
    ensures
        selected_text(raw, lines) == added_text(raw),
    decreases raw.len(),
{
    if raw.len() > 0 {
        let front = raw.drop_last();
        assert forall|i: int|
            0 <= i < front.len() && diff::is_added(#[trigger] front[i]) implies is_selected(
            front[i],
            lines,
        ) by {
            assert(front[i] == raw[i]);
        }
        law_select_all(raw.drop_last(), lines);
        assert(raw.last() == raw[raw.len() - 1]);
    }
}

/// A staged line ends in exactly one line feed, however many the line of the file has:
/// none, as the last line may, or one. The rest of it is left as it is.
pub proof fn law_ended_line(bytes: Seq<u8>, t: Seq<char>, feeds: Seq<char>)
    requires
        t.len() > 0 ==> t.last() != '\n',
        forall|i: int| 0 <= i < feeds.len() ==> #[trigger] feeds[i] == '\n',
    ensures
        diff::lossy_text(bytes) == t + feeds ==> ended_bytes(bytes) == t + seq!['\n'],
        vstd::utf8::decode_utf8(bytes) == t + feeds ==> ended_utf8(bytes) == t + seq!['\n'],
{
    text::lemma_trim_end(t, feeds, CharClass::LineFeed);
    assert(t.push('\n') =~= t + seq!['\n']);
}

proof fn lemma_selected_first(
    line: RawLineView,
    back: Seq<RawLineView>,
    lines: Seq<DiffLinePosition>,
)
    ensures
        selected_text(seq![line] + back, lines) == selected_text(seq![line], lines)
            + selected_text(back, lines),
        selected_utf8(seq![line] + back, lines) == selected_utf8(seq![line], lines)
            + selected_utf8(back, lines),
    decreases back.len(),
{
    let all = seq![line] + back;
    if back.len() == 0 {
        assert(all =~= seq![line]);
        assert(selected_text(back, lines) =~= Seq::<char>::empty());
        assert(selected_utf8(back, lines) =~= Seq::<char>::empty());
        assert(selected_text(all, lines) + selected_text(back, lines) =~= selected_text(all, lines));
        assert(selected_utf8(all, lines) + selected_utf8(back, lines) =~= selected_utf8(all, lines));
    } else {
        lemma_selected_first(line, back.drop_last(), lines);
        assert(all.drop_last() =~= seq![line] + back.drop_last());
        assert(all.last() == back.last());
        let first = selected_text(seq![line], lines);
        let rest = selected_text(back.drop_last(), lines);
        let end = ended_line(back.last());
        assert(first + rest + end =~= first + (rest + end));
        let first = selected_utf8(seq![line], lines);
        let rest = selected_utf8(back.drop_last(), lines);
        let end = ended_utf8(back.last().content);
        assert(first + rest + end =~= first + (rest + end));
    }
}

/// Wherever a line of the patch stands, it is staged between the lines in front of it
/// and those behind it exactly if it is an added line whose new number is one of the
/// positions, without an old number.
pub proof fn law_staged_lines(
    front: Seq<RawLineView>,
    line: RawLineView,
    back: Seq<RawLineView>,
    lines: Seq<DiffLinePosition>,
)
    ensures
        ({
            let chosen = line.hunk is Some && line.origin == '+' && exists|i: int|
                0 <= i < lines.len() && (#[trigger] lines[i]).old_lineno is None
                    && lines[i].new_lineno == line.new_lineno;
            let part = if chosen {
                ended_line(line)
            } else {
                Seq::empty()
            };
            let part_utf8 = if chosen {
                ended_utf8(line.content)
            } else {
                Seq::empty()
            };
            &&& selected_text(front + seq![line] + back, lines) == selected_text(front, lines) + part
                + selected_text(back, lines)
            &&& selected_utf8(front + seq![line] + back, lines) == selected_utf8(front, lines)
                + part_utf8 + selected_utf8(back, lines)
        }),
        selected_text(Seq::empty(), lines) == Seq::<char>::empty(),
        selected_utf8(Seq::empty(), lines) == Seq::<char>::empty(),
    decreases front.len(),
{
    let one = seq![line];
    let all = front + one + back;
    if front.len() == 0 {
        assert(all =~= one + back);
        lemma_selected_first(line, back, lines);
        assert(one.drop_last() =~= Seq::<RawLineView>::empty());
        let position = added_position(line);
        if lines.contains(position) {
            let i = choose|i: int| 0 <= i < lines.len() && lines[i] == position;
            assert(lines[i].old_lineno is None && lines[i].new_lineno == line.new_lineno);
        }
        if exists|i: int|
            0 <= i < lines.len() && (#[trigger] lines[i]).old_lineno is None && lines[i].new_lineno
                == line.new_lineno {
            let i = choose|i: int|
                0 <= i < lines.len() && (#[trigger] lines[i]).old_lineno is None
                    && lines[i].new_lineno == line.new_lineno;
            assert(lines[i] == position);
        }
        assert(selected_text(one.drop_last(), lines) =~= Seq::<char>::empty());
        assert(selected_utf8(one.drop_last(), lines) =~= Seq::<char>::empty());
        assert(selected_text(front, lines) =~= Seq::<char>::empty());
        assert(selected_utf8(front, lines) =~= Seq::<char>::empty());
        assert(Seq::<char>::empty() + ended_line(line) =~= ended_line(line));
        assert(Seq::<char>::empty() + ended_utf8(line.content) =~= ended_utf8(line.content));
        assert(Seq::<char>::empty() + Seq::<char>::empty() =~= Seq::<char>::empty());
    } else {
        let first = front[0];
        let rest = front.drop_first();
        law_staged_lines(rest, line, back, lines);
        assert(front =~= seq![first] + rest);
        assert(all =~= seq![first] + (rest + one + back));
        lemma_selected_first(first, rest + one + back, lines);
        lemma_selected_first(first, rest, lines);
        let a = selected_text(seq![first], lines);
        let b = selected_text(rest, lines);
        let c = selected_text(back, lines);
        assert(a + (b + ended_line(line) + c) =~= a + b + ended_line(line) + c);
        assert(a + (b + Seq::<char>::empty() + c) =~= a + b + Seq::<char>::empty() + c);
        let a = selected_utf8(seq![first], lines);
        let b = selected_utf8(rest, lines);
        let c = selected_utf8(back, lines);
        let d = ended_utf8(line.content);
        assert(a + (b + d + c) =~= a + b + d + c);
        assert(a + (b + Seq::<char>::empty() + c) =~= a + b + Seq::<char>::empty() + c);
    }
}

/// A line of the file is staged behind what is staged of the lines in front of it,
/// exactly if its number, counted from one on, is that of a position without an old
/// number.
pub proof fn law_numbered_lines(front: Seq<Seq<u8>>, line: Seq<u8>, lines: Seq<DiffLinePosition>)
    ensures
        ({
            let chosen = exists|i: int|
                0 <= i < lines.len() && (#[trigger] lines[i]).old_lineno is None
                    && lines[i].new_lineno is Some && lines[i].new_lineno->0 == front.len() + 1;
            numbered_text(front + seq![line], lines) == numbered_text(front, lines) + if chosen {
                ended_bytes(line)
            } else {
                Seq::empty()
            }
        }),
        numbered_text(Seq::empty(), lines) == Seq::<char>::empty(),
{
    let all = front + seq![line];
    assert(all.drop_last() =~= front);
    assert(numbered_text(front, lines) + Seq::<char>::empty() =~= numbered_text(front, lines));
    let n = front.len() + 1;
    if number_selected(n as int, lines) {
        let i = choose|i: int|
            0 <= i < lines.len() && (#[trigger] lines[i]).old_lineno is None && (
            lines[i].new_lineno matches Some(m) && m == n);
        assert(lines[i].old_lineno is None && lines[i].new_lineno->0 == n);
    }
}

/// What is staged is a plain file that its owner may write and all may read, at this
/// path, with this content and as many bytes as its UTF-8 has; nothing is staged for no
/// content at all.
pub proof fn law_staged_file(r: Option<StagedFile>, content: Seq<char>, path: Seq<char>)
    requires
        staged(r, content, path),
    ensures
        r is None <==> content.len() == 0,
        r matches Some(file) ==> file.mode == 33188 && file.content@ == content && file.path@ == path
            && file.file_size as int == vstd::utf8::encode_utf8(file.content@).len(),
{
}

/// Without selected lines nothing is staged. What git refuses is refused. Whatever is
/// staged stands under the path inside the work tree, and it is the text of the lines of
/// the file whose numbers are selected.
pub proof fn law_staged_from_file(
    content: Vec<u8>,
    full_path: &str,
    path: &str,
    lines: Vec<DiffLinePosition>,
    r: Result<Option<StagedFile>, StageError>,
)
    requires
        call_ensures(stage_lines_untracked, (&content, full_path, path, &lines), r),
    ensures
        lines@.len() == 0 ==> r matches Ok(None),
        lines@.len() > 0 ==> (r == Err::<Option<StagedFile>, StageError>(StageError::Git)
            <==> diff::new_file_patch(content@, full_path@) is None),
        r matches Ok(Some(file)) ==> {
            &&& file.path@ == path@
            &&& file.mode == 33188
            &&& file.content@.len() > 0
            &&& diff::new_file_patch(content@, full_path@) matches Some(raw)
            &&& diff::has_hunk(raw) ==> file.content@ == numbered_text(
                diff::byte_lines(content@),
                lines@,
            )
        },
        lines@.len() > 0 ==> (r matches Ok(None) ==> (diff::new_file_patch(
            content@,
            full_path@,
        ) matches Some(raw) ==> diff::has_hunk(raw) ==> numbered_text(
            diff::byte_lines(content@),
            lines@,
        ).len() == 0)),
{
}

// ---------------------------------------------------------------------------
// Lines of UTF-8 text
// ---------------------------------------------------------------------------
/// Behind a line feed a character begins.
proof fn lemma_boundary_after_line_feed(bytes: Seq<u8>, k: int)
    requires
        vstd::utf8::valid_utf8(bytes),
        0 <= k < bytes.len(),
        bytes[k] == 10,
    ensures
        vstd::utf8::is_char_boundary(bytes, k),
        vstd::utf8::is_char_boundary(bytes, k + 1),
{
    broadcast use vstd::utf8::group_utf8_lib;

    let n = bytes.len() as int;
    assert(!vstd::utf8::is_continuation_byte(bytes[k]));
    assert(vstd::utf8::is_char_boundary(bytes, k));
    let tail = bytes.subrange(k, n);
    assert(vstd::utf8::valid_utf8(tail));
    assert(tail[0] == 10);
    assert(vstd::utf8::is_leading_byte_width_1(tail[0]));
    let rest = vstd::utf8::pop_first_scalar(tail);
    assert(rest =~= tail.subrange(1, tail.len() as int));
    if k + 1 < n {
        assert(rest[0] == bytes[k + 1]);
        assert(vstd::utf8::is_char_boundary(rest, 0));
        assert(!vstd::utf8::is_continuation_byte(rest[0]));
        assert(vstd::utf8::is_char_boundary(bytes, k + 1));
    } else {
        assert(vstd::utf8::is_char_boundary(bytes, n));
    }
}

/// A text ends in a line feed only where its bytes do.
proof fn lemma_last_line_feed(bytes: Seq<u8>)
    requires
        vstd::utf8::valid_utf8(bytes),
        bytes.len() > 0,
    ensures
        vstd::utf8::decode_utf8(bytes).len() > 0,
        vstd::utf8::decode_utf8(bytes).last() == '\n' ==> bytes.last() == 10,
    decreases bytes.len(),
{
    let rest = vstd::utf8::pop_first_scalar(bytes);
    let first = vstd::utf8::decode_first_scalar(bytes) as char;
    if rest.len() == 0 {
        vstd::utf8::decode_utf8_first_scalar(bytes);
        assert(vstd::utf8::take_first_scalar(bytes) =~= bytes);
        assert(vstd::utf8::decode_utf8(rest) =~= Seq::<char>::empty());
        assert(vstd::utf8::decode_utf8(bytes) =~= seq![first]);
        if first == '\n' {
            assert((10u32 & 0x7f) as u8 == 10u8) by (bit_vector);
            assert(vstd::utf8::encode_scalar(10u32) =~= seq![10u8]);
            assert(first as u32 == 10u32);
            assert(bytes =~= seq![10u8]);
        }
    } else {
        lemma_last_line_feed(rest);
        let whole = vstd::utf8::decode_utf8(bytes);
        let behind = vstd::utf8::decode_utf8(rest);
        assert(whole =~= seq![first] + behind);
        assert(whole.last() == behind.last());
        assert(rest.last() == bytes.last());
    }
}

/// The line feed alone.
proof fn lemma_decode_line_feed()
    ensures
        vstd::utf8::decode_utf8(seq![10u8]) == seq!['\n'],
{
    let bytes = seq![10u8];
    assert((10u8 & 0x7f) as u32 == 10u32) by (bit_vector);
    let rest = vstd::utf8::pop_first_scalar(bytes);
    assert(rest =~= Seq::<u8>::empty());
    assert(vstd::utf8::valid_utf8(rest));
    assert(vstd::utf8::valid_first_scalar(bytes));
    assert(vstd::utf8::valid_utf8(bytes));
    assert(vstd::utf8::decode_utf8(rest) =~= Seq::<char>::empty());
    assert(vstd::utf8::decode_utf8(bytes) =~= seq!['\n']);
}

/// To end a line that already ends in its only line feed changes nothing.
proof fn lemma_ended_line(bytes: Seq<u8>)
    requires
        vstd::utf8::valid_utf8(bytes),
        bytes.len() > 0,
        bytes.last() == 10,
        forall|j: int| 0 <= j < bytes.len() - 1 ==> bytes[j] != 10,
    ensures
        ended_utf8(bytes) == vstd::utf8::decode_utf8(bytes),
{
    let k = bytes.len() - 1;
    let start = bytes.subrange(0, k);
    let whole = vstd::utf8::decode_utf8(bytes);
    let front = vstd::utf8::decode_utf8(start);
    lemma_boundary_after_line_feed(bytes, k);
    vstd::utf8::valid_utf8_split(bytes, k);
    vstd::utf8::decode_utf8_split(bytes, k);
    assert(bytes.subrange(k, bytes.len() as int) =~= seq![10u8]);
    lemma_decode_line_feed();
    assert(whole =~= front.push('\n'));
    if start.len() > 0 {
        lemma_last_line_feed(start);
        assert(start.last() == bytes[k - 1]);
    } else {
        assert(front =~= Seq::<char>::empty());
    }
    assert(whole.drop_last() =~= front);
    assert(text::trim_end_of(front, CharClass::LineFeed) =~= front);
    assert(text::trim_end_of(whole, CharClass::LineFeed) =~= front);
}

/// Lines one after the other, each ended by exactly one line feed.
spec fn ended_lines(lines: Seq<Seq<u8>>) -> Seq<char>
    decreases lines.len(),
{
    if lines.len() == 0 {
        Seq::empty()
    } else {
        ended_lines(lines.drop_last()) + ended_utf8(lines.last())
    }
}

proof fn lemma_ended_lines_first(first: Seq<u8>, rest: Seq<Seq<u8>>)
    ensures
        ended_lines(seq![first] + rest) == ended_utf8(first) + ended_lines(rest),
    decreases rest.len(),
{
    let all = seq![first] + rest;
    if rest.len() == 0 {
        assert(all.drop_last() =~= Seq::<Seq<u8>>::empty());
        assert(ended_lines(all.drop_last()) =~= Seq::<char>::empty());
    } else {
        lemma_ended_lines_first(first, rest.drop_last());
        assert(all.drop_last() =~= seq![first] + rest.drop_last());
    }
}

/// The lines of a text are valid, and give the text back.
proof fn lemma_lines_of_text(content: Seq<u8>)
    requires
        vstd::utf8::valid_utf8(content),
        content.len() > 0 ==> content.last() == 10,
    ensures
        forall|i: int|
            0 <= i < diff::byte_lines(content).len() ==> vstd::utf8::valid_utf8(
                #[trigger] diff::byte_lines(content)[i],
            ),
        ended_lines(diff::byte_lines(content)) == vstd::utf8::decode_utf8(content),
    decreases content.len(),
{
    if content.len() > 0 {
        diff::lemma_line_feed_index(content);
        let n = content.len() as int;
        let k = diff::line_feed_index(content);
        assert(content[n - 1] == 10);
        let first = content.subrange(0, k + 1);
        let rest = content.subrange(k + 1, n);
        assert(content.take(k + 1) =~= first);
        assert(content.skip(k + 1) =~= rest);
        lemma_boundary_after_line_feed(content, k);
        vstd::utf8::valid_utf8_split(content, k + 1);
        vstd::utf8::decode_utf8_split(content, k + 1);
        if rest.len() > 0 {
            assert(rest.last() == content[n - 1]);
        }
        lemma_lines_of_text(rest);
        lemma_ended_line(first);
        lemma_ended_lines_first(first, diff::byte_lines(rest));
        assert forall|i: int| 0 <= i < diff::byte_lines(content).len() implies vstd::utf8::valid_utf8(
            #[trigger] diff::byte_lines(content)[i],
        ) by {
            if i > 0 {
                assert(diff::byte_lines(content)[i] == diff::byte_lines(rest)[i - 1]);
            }
        }
    }
}

/// The added lines of a patch, where all of them are selected.
proof fn lemma_all_added(raw: Seq<RawLineView>, lines: Seq<DiffLinePosition>)
    requires
        forall|i: int|
            0 <= i < raw.len() && diff::is_added(#[trigger] raw[i]) ==> is_selected(raw[i], lines),
    ensures
        selected_utf8(raw, lines) == ended_lines(diff::added_bytes(raw)),
        forall|i: int|
            0 <= i < raw.len() && is_selected(#[trigger] raw[i], lines)
                ==> diff::added_bytes(raw).contains(raw[i].content),
    decreases raw.len(),
{
    if raw.len() > 0 {
        let front = raw.drop_last();
        assert forall|i: int|
            0 <= i < front.len() && diff::is_added(#[trigger] front[i]) implies is_selected(
            front[i],
            lines,
        ) by {
            assert(front[i] == raw[i]);
        }
        lemma_all_added(front, lines);
        let last = raw[raw.len() - 1];
        let before = diff::added_bytes(front);
        let now = diff::added_bytes(raw);
        if diff::is_added(last) {
            assert(now.drop_last() =~= before);
            assert(now[now.len() - 1] == last.content);
        }
        assert forall|i: int|
            0 <= i < raw.len() && is_selected(#[trigger] raw[i], lines) implies now.contains(
            raw[i].content,
        ) by {
            if i < front.len() {
                assert(front[i] == raw[i]);
                assert(before.contains(front[i].content));
                let j = choose|j: int| 0 <= j < before.len() && before[j] == front[i].content;
                assert(now[j] == front[i].content);
            }
        }
    }
}

proof fn lemma_whole_file(content: Seq<u8>, raw: Seq<RawLineView>, lines: Seq<DiffLinePosition>)
    requires
        diff::adds_content(raw, content),
        whole_file(content, raw, lines),
    ensures
        selected_valid(raw, lines),
        selected_utf8(raw, lines) == vstd::utf8::decode_utf8(content),
        vstd::utf8::decode_utf8(content).len() > 0,
{
    lemma_all_added(raw, lines);
    lemma_lines_of_text(content);
    lemma_last_line_feed(content);
}

} // verus!
