//! The name of a build.
use vstd::prelude::*;

use crate::diff;
use crate::text;
use crate::text::CharClass;

verus! {

/// A text without the letters `v` at its front.
pub open spec fn without_v(s: Seq<char>) -> Seq<char>
    decreases s.len(),
{
    if s.len() > 0 && s[0] == 'v' {
        without_v(s.drop_first())
    } else {
        s
    }
}

/// The version that `git describe` tells: its first line, without the `v` in
/// front; `unknown` where it tells nothing.
pub open spec fn version_of(output: Seq<char>) -> Seq<char> {
    let lines = text::lines_of(output);
    let line = if lines.len() > 0 {
        text::trim_of(lines[0], CharClass::WhiteSpace)
    } else {
        Seq::empty()
    };
    if line.len() == 0 {
        "unknown"@
    } else {
        without_v(line)
    }
}

/// The version of a build: the short name of the commit that it was made from,
/// where that is given, else what `git describe` wrote.
pub fn get_version(commit: &Option<String>, output: &Vec<u8>) -> (r: String)
    requires
        commit matches Some(commit) ==> vstd::utf8::is_char_boundary(
            vstd::utf8::encode_utf8(commit@),
            7,
        ),
    ensures
        match commit {
            Some(commit) => vstd::utf8::encode_utf8(r@) == vstd::utf8::encode_utf8(
                commit@,
            ).subrange(0, 7),
            None => r@ == version_of(diff::lossy_text(output@)),
        },
{
    match commit {
        Some(commit) => short_commit(commit.as_str()),
        None => described_version(output),
    }
}

/// The version in what `git describe` wrote.
fn described_version(output: &Vec<u8>) -> (r: String)
    ensures
        r@ == version_of(diff::lossy_text(output@)),
{
    let raw = diff::decode_lossy(output);
    let lines = text::lines(raw.as_str());
    assert(text::views(lines@).len() == lines@.len());
    if lines.len() == 0 {
        return "unknown".to_owned();
    }
    assert(text::views(lines@)[0] == lines@[0]@);
    let line = text::chars_of(text::trim(lines[0].as_str(), CharClass::WhiteSpace).as_str());
    if line.len() == 0 {
        return "unknown".to_owned();
    }
    let mut i: usize = 0;
    assert(line@.skip(0) =~= line@);
    while i < line.len() && line[i] == 'v'
        invariant
            i <= line.len(),
            without_v(line@) == without_v(line@.skip(i as int)),
        decreases line.len() - i,
    {
        assert(line@.skip(i as int).drop_first() =~= line@.skip(i + 1));
        i = i + 1;
    }
    assert(line@.subrange(i as int, line@.len() as int) =~= line@.skip(i as int));
    text::slice_text(&line, i, line.len())
}

/// The first seven bytes of the name of a commit.
fn short_commit(commit: &str) -> (r: String)
    requires
        vstd::utf8::is_char_boundary(vstd::utf8::encode_utf8(commit@), 7),
    ensures
        vstd::utf8::encode_utf8(r@) == vstd::utf8::encode_utf8(commit@).subrange(0, 7),
{
    let parts = commit.split_at(7);
    parts.0.to_owned()
}

// ---------------------------------------------------------------------------
// Laws
// ---------------------------------------------------------------------------
/// All letters `v` at the front are left out, and nothing else.
pub proof fn law_without_v(front: Seq<char>, t: Seq<char>)
    requires
        forall|i: int| 0 <= i < front.len() ==> #[trigger] front[i] == 'v',
        t.len() == 0 || t[0] != 'v',
    ensures
        without_v(front + t) == t,
    decreases front.len(),
{
    if front.len() == 0 {
        assert(front + t =~= t);
    } else {
        assert((front + t)[0] == front[0]);
        assert((front + t).drop_first() =~= front.drop_first() + t);
        assert forall|i: int| 0 <= i < front.len() - 1 implies #[trigger] front.drop_first()[i]
            == 'v' by {
            assert(front.drop_first()[i] == front[i + 1]);
        }
        law_without_v(front.drop_first(), t);
    }
}

/// The version is the first line that was written, without a `v` in front and without
/// the blanks around it, whatever follows. Without anything on that line it is unknown.
pub proof fn law_version(version: Seq<char>, blanks: Seq<char>, rest: Seq<char>)
    requires
        version.len() > 0,
        version[0] != 'v',
        !text::white_space(version[0]),
        !text::white_space(version.last()),
        !version.contains('\n'),
        forall|i: int| 0 <= i < blanks.len() ==> #[trigger] blanks[i] == ' ',
    ensures
        version_of(seq!['v'] + version + blanks + seq!['\n'] + rest) == version,
        version_of(version + blanks + seq!['\n'] + rest) == version,
        version_of(seq!['v'] + version) == version,
        version_of(version) == version,
        version_of(Seq::empty()) == "unknown"@,
        version_of(blanks + seq!['\n'] + rest) == "unknown"@,
{
    let empty = Seq::<char>::empty();
    let v = seq!['v'];
    let long = v + version;
    law_without_v(v, version);
    law_without_v(empty, version);
    assert(empty + version =~= version);
    assert forall|i: int| 0 <= i < blanks.len() implies text::white_space(#[trigger] blanks[i]) by {
        assert(blanks[i] == ' ');
    }
    lemma_first_line(version, blanks, rest);
    assert(!long.contains('\n')) by {
        if long.contains('\n') {
            let i = choose|i: int| 0 <= i < long.len() && long[i] == '\n';
            assert(version[i - 1] == '\n');
        }
    }
    assert(long.last() == version.last());
    lemma_first_line(long, blanks, rest);
    lemma_first_line(version, empty, rest);
    lemma_first_line(long, empty, rest);
    assert(long + blanks + seq!['\n'] + rest =~= seq!['v'] + version + blanks + seq!['\n'] + rest);
    text::law_lines(empty, empty);
    text::law_trim(blanks, empty, empty, CharClass::WhiteSpace);
    assert(blanks + empty + empty =~= blanks);
    assert(!blanks.contains('\n')) by {
        if blanks.contains('\n') {
            let i = choose|i: int| 0 <= i < blanks.len() && blanks[i] == '\n';
            assert(blanks[i] == ' ');
        }
    }
    if blanks.len() > 0 {
        assert(blanks[blanks.len() - 1] == ' ');
    }
    text::law_lines(blanks, rest);
    assert(blanks.push('\n') + rest =~= blanks + seq!['\n'] + rest);
    assert((seq![blanks] + text::lines_of(rest))[0] == blanks);
}

/// The first line of a text, and what is left of it without the blanks around it.
proof fn lemma_first_line(line: Seq<char>, blanks: Seq<char>, rest: Seq<char>)
    requires
        line.len() > 0,
        !text::white_space(line[0]),
        !text::white_space(line.last()),
        !line.contains('\n'),
        forall|i: int| 0 <= i < blanks.len() ==> #[trigger] blanks[i] == ' ',
    ensures
        ({
            let lines = text::lines_of(line + blanks + seq!['\n'] + rest);
            lines.len() > 0 && text::trim_of(lines[0], CharClass::WhiteSpace) == line
        }),
        text::lines_of(line) == seq![line],
        text::trim_of(line, CharClass::WhiteSpace) == line,
{
    let empty = Seq::<char>::empty();
    let padded = line + blanks;
    assert forall|i: int| 0 <= i < blanks.len() implies text::white_space(#[trigger] blanks[i]) by {
        assert(blanks[i] == ' ');
    }
    text::law_trim(empty, line, blanks, CharClass::WhiteSpace);
    text::law_trim(empty, line, empty, CharClass::WhiteSpace);
    assert(empty + line + blanks =~= padded);
    assert(empty + line + empty =~= line);
    assert(!padded.contains('\n')) by {
        if padded.contains('\n') {
            let i = choose|i: int| 0 <= i < padded.len() && padded[i] == '\n';
            if i < line.len() {
                assert(line[i] == '\n');
            } else {
                assert(blanks[i - line.len()] == '\n');
            }
        }
    }
    if blanks.len() > 0 {
        assert(padded.last() == blanks[blanks.len() - 1]);
    } else {
        assert(padded.last() == line.last());
    }
    text::law_lines(padded, rest);
    text::law_lines(line, rest);
    assert(padded.push('\n') + rest =~= line + blanks + seq!['\n'] + rest);
    assert((seq![padded] + text::lines_of(rest))[0] == padded);
}

} // verus!
