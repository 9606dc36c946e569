//! The preview that the program `delta` makes of a diff: how it is run, and
//! which lines of the diff its lines stand for.
use std::collections::HashMap;

use vstd::prelude::*;

use crate::ansi;
use crate::ansi::ansi_to_lines;
use crate::diff;
use crate::diff::{
    DiffLine, DiffLinePosition, DiffLineType, DiffLineView, FileDiff,
};
use crate::hunks;
use crate::selection;
use crate::style;
use crate::style::{Line, Span, SpanView};
use crate::text;
use crate::text::CharClass;
use crate::themed;
use crate::themed::{Role, ThemedLine, ThemedSpan, ThemedSpanView};

verus! {

// ---------------------------------------------------------------------------
// Running the programs
// ---------------------------------------------------------------------------
/// What a diff compares. Commits are given by their names.
#[derive(Debug)]
pub enum DiffType {
    /// The work tree with the index.
    WorkDir,
    /// The index with the last commit.
    Stage,
    /// A commit with its parent.
    Commit(String),
    /// Two commits.
    Commits { old: String, new: String },
}

#[verifier::ext_equal]
pub enum DiffTypeView {
    WorkDir,
    Stage,
    Commit(Seq<char>),
    Commits { old: Seq<char>, new: Seq<char> },
}

impl View for DiffType {
    type V = DiffTypeView;

    open spec fn view(&self) -> DiffTypeView {
        match self {
            DiffType::WorkDir => DiffTypeView::WorkDir,
            DiffType::Stage => DiffTypeView::Stage,
            DiffType::Commit(id) => DiffTypeView::Commit(id@),
            DiffType::Commits { old, new } => DiffTypeView::Commits { old: old@, new: new@ },
        }
    }
}

impl DiffType {
    pub fn copy(&self) -> (r: DiffType)
        ensures
            r@ == self@,
    {
        match self {
            DiffType::WorkDir => DiffType::WorkDir,
            DiffType::Stage => DiffType::Stage,
            DiffType::Commit(id) => DiffType::Commit(id.clone()),
            DiffType::Commits { old, new } => DiffType::Commits {
                old: old.clone(),
                new: new.clone(),
            },
        }
    }
}

/// How a program ended: its exit code, where it ended by itself, and what it
/// wrote.
pub struct ProcessOutput {
    pub code: Option<i32>,
    pub stdout: Vec<u8>,
}

/// What is to be done next to get the preview.
pub enum DeltaRequest {
    /// Run git with these arguments in its own directory.
    FindWorkTree(Vec<String>),
    /// Run git with these arguments in the work tree.
    Git(Vec<String>),
    /// Run delta with these arguments in the work tree, on this input.
    Delta(Vec<String>, Vec<u8>),
    /// Nothing: this is the preview, where there is one.
    Done(Option<Vec<Line>>),
}

#[verifier::ext_equal]
pub enum DeltaRequestView {
    FindWorkTree(Seq<Seq<char>>),
    Git(Seq<Seq<char>>),
    Delta(Seq<Seq<char>>, Seq<u8>),
    Done(Option<Seq<Seq<SpanView>>>),
}

impl View for DeltaRequest {
    type V = DeltaRequestView;

    open spec fn view(&self) -> DeltaRequestView {
        match self {
            DeltaRequest::FindWorkTree(args) => DeltaRequestView::FindWorkTree(text::views(args@)),
            DeltaRequest::Git(args) => DeltaRequestView::Git(text::views(args@)),
            DeltaRequest::Delta(args, input) => DeltaRequestView::Delta(
                text::views(args@),
                input@,
            ),
            DeltaRequest::Done(None) => DeltaRequestView::Done(None),
            DeltaRequest::Done(Some(lines)) => DeltaRequestView::Done(Some(text::views(lines@))),
        }
    }
}

/// What the last request was.
#[derive(Clone, Copy, PartialEq, Eq, Structural, Debug)]
pub enum DeltaPhase {
    FindWorkTree,
    Diff,
    /// The diff of a commit without parent.
    FirstCommit,
    /// The diff of a file that git does not know yet.
    NewFile,
    Delta,
    Done,
}

/// A run of the programs that make the preview of a file.
pub struct DeltaRun {
    pub path: String,
    pub diff_type: DiffType,
    pub width: u16,
    pub side_by_side: bool,
    /// The work tree, once it is known.
    pub work_dir: Option<String>,
    pub phase: DeltaPhase,
}

/// Everything that a run knows.
#[verifier::ext_equal]
pub struct DeltaRunView {
    pub path: Seq<char>,
    pub diff_type: DiffTypeView,
    pub width: u16,
    pub side_by_side: bool,
    pub work_dir: Option<Seq<char>>,
    pub phase: DeltaPhase,
}

impl View for DeltaRun {
    type V = DeltaRunView;

    open spec fn view(&self) -> DeltaRunView {
        DeltaRunView {
            path: self.path@,
            diff_type: self.diff_type@,
            width: self.width,
            side_by_side: self.side_by_side,
            work_dir: text::opt_text(self.work_dir),
            phase: self.phase,
        }
    }
}

/// The arguments that make git tell the top of the work tree.
pub open spec fn work_tree_args() -> Seq<Seq<char>> {
    seq!["rev-parse"@, "--show-toplevel"@]
}

/// The arguments that make git write the diff of a file.
pub open spec fn diff_args(diff_type: DiffTypeView, path: Seq<char>) -> Seq<Seq<char>> {
    match diff_type {
        DiffTypeView::WorkDir => seq!["diff"@, path],
        DiffTypeView::Stage => seq!["diff"@, "--cached"@, path],
        DiffTypeView::Commit(id) => seq!["diff"@, id + "^.."@ + id, "--"@, path],
        DiffTypeView::Commits { old, new } => seq!["diff"@, old, new, "--"@, path],
    }
}

/// The arguments that make git compare a commit with the empty tree, whose
/// object id is the same in every repository.
pub open spec fn first_commit_args(id: Seq<char>, path: Seq<char>) -> Seq<Seq<char>> {
    seq!["diff"@, "4b825dc642cb6eb9a060e54bf8d69288fbee4904"@, id, "--"@, path]
}

/// The arguments that make git show a whole file as added.
pub open spec fn new_file_args(path: Seq<char>) -> Seq<Seq<char>> {
    seq!["diff"@, "--no-index"@, "/dev/null"@, path]
}

/// The arguments that delta gets. It is never given less than twenty columns.
pub open spec fn delta_args(width: int, side_by_side: bool) -> Seq<Seq<char>> {
    let common = seq![
        "--width"@,
        text::decimal_text(selection::max_of(width, 20) as nat),
        "--file-style"@,
        "omit"@,
        "--line-numbers"@,
    ];
    if side_by_side {
        common.push("--side-by-side"@)
    } else {
        common
    }
}

fn list2(a: &str, b: &str) -> (r: Vec<String>)
    ensures
        text::views(r@) == seq![a@, b@],
{
    let mut out: Vec<String> = Vec::new();
    out.push(a.to_owned());
    out.push(b.to_owned());
    assert(text::views(out@) =~= seq![a@, b@]);
    out
}

fn git_diff_args(diff_type: &DiffType, path: &str) -> (r: Vec<String>)
    ensures
        text::views(r@) == diff_args(diff_type@, path@),
{
    let mut out: Vec<String> = Vec::new();
    out.push("diff".to_owned());
    match diff_type {
        DiffType::WorkDir => {
            out.push(path.to_owned());
        },
        DiffType::Stage => {
            out.push("--cached".to_owned());
            out.push(path.to_owned());
        },
        DiffType::Commit(id) => {
            out.push(text::concat3(id.as_str(), "^..", id.as_str()));
            out.push("--".to_owned());
            out.push(path.to_owned());
        },
        DiffType::Commits { old, new } => {
            out.push(old.clone());
            out.push(new.clone());
            out.push("--".to_owned());
            out.push(path.to_owned());
        },
    }
    assert(text::views(out@) =~= diff_args(diff_type@, path@));
    out
}

fn git_first_commit_args(id: &str, path: &str) -> (r: Vec<String>)
    ensures
        text::views(r@) == first_commit_args(id@, path@),
{
    let mut out: Vec<String> = Vec::new();
    out.push("diff".to_owned());
    out.push("4b825dc642cb6eb9a060e54bf8d69288fbee4904".to_owned());
    out.push(id.to_owned());
    out.push("--".to_owned());
    out.push(path.to_owned());
    assert(text::views(out@) =~= first_commit_args(id@, path@));
    out
}

fn git_new_file_args(path: &str) -> (r: Vec<String>)
    ensures
        text::views(r@) == new_file_args(path@),
{
    let mut out: Vec<String> = Vec::new();
    out.push("diff".to_owned());
    out.push("--no-index".to_owned());
    out.push("/dev/null".to_owned());
    out.push(path.to_owned());
    assert(text::views(out@) =~= new_file_args(path@));
    out
}

fn delta_program_args(width: u16, side_by_side: bool) -> (r: Vec<String>)
    ensures
        text::views(r@) == delta_args(width as int, side_by_side),
{
    let width: u16 = if width < 20 {
        20
    } else {
        width
    };
    let mut out: Vec<String> = Vec::new();
    out.push("--width".to_owned());
    out.push(text::decimal(width as u64));
    out.push("--file-style".to_owned());
    out.push("omit".to_owned());
    out.push("--line-numbers".to_owned());
    if side_by_side {
        out.push("--side-by-side".to_owned());
    }
    assert(text::views(out@) =~= delta_args(width as int, side_by_side));
    out
}

/// Whether a program ran and ended well.
pub open spec fn ended_well(output: Option<ProcessOutput>) -> bool {
    output is Some && output->0.code == Some(0i32)
}

impl DeltaRunView {
    /// The run with no more to do.
    pub open spec fn stop(self, preview: Option<Seq<Seq<SpanView>>>) -> (
        DeltaRunView,
        DeltaRequestView,
    ) {
        (DeltaRunView { phase: DeltaPhase::Done, ..self }, DeltaRequestView::Done(preview))
    }

    /// The run that asks for the diff.
    pub open spec fn ask_diff(self, work_dir: Seq<char>) -> (DeltaRunView, DeltaRequestView) {
        (
            DeltaRunView { phase: DeltaPhase::Diff, work_dir: Some(work_dir), ..self },
            DeltaRequestView::Git(diff_args(self.diff_type, self.path)),
        )
    }

    /// The run that hands the diff to delta. Without a diff there is no
    /// preview.
    pub open spec fn ask_delta(self, diff: Seq<u8>) -> (DeltaRunView, DeltaRequestView) {
        if diff.len() == 0 {
            self.stop(None)
        } else {
            (
                DeltaRunView { phase: DeltaPhase::Delta, ..self },
                DeltaRequestView::Delta(delta_args(self.width as int, self.side_by_side), diff),
            )
        }
    }

    /// What is made of the diff. An empty diff of the work tree may be that of
    /// a file that git does not know yet.
    pub open spec fn use_diff(self, diff: Seq<u8>) -> (DeltaRunView, DeltaRequestView) {
        if diff.len() == 0 && self.diff_type is WorkDir {
            (
                DeltaRunView { phase: DeltaPhase::NewFile, ..self },
                DeltaRequestView::Git(new_file_args(self.path)),
            )
        } else {
            self.ask_delta(diff)
        }
    }

    /// The first request of a run. Where the work tree is not known, git is
    /// asked for it.
    pub open spec fn begin(self) -> (DeltaRunView, DeltaRequestView) {
        if self.path.len() == 0 {
            self.stop(None)
        } else {
            match self.work_dir {
                Some(dir) => self.ask_diff(dir),
                None => (
                    DeltaRunView { phase: DeltaPhase::FindWorkTree, ..self },
                    DeltaRequestView::FindWorkTree(work_tree_args()),
                ),
            }
        }
    }

    /// The request that follows the answer to the last one. A program that
    /// could not be run gives no output.
    pub open spec fn next(self, output: Option<ProcessOutput>) -> (DeltaRunView, DeltaRequestView) {
        match output {
            None => self.stop(None),
            Some(out) => match self.phase {
                DeltaPhase::FindWorkTree => if ended_well(output) {
                    self.ask_diff(
                        text::trim_of(diff::lossy_text(out.stdout@), CharClass::WhiteSpace),
                    )
                } else {
                    self.stop(None)
                },
                DeltaPhase::Diff => if ended_well(output) {
                    self.use_diff(out.stdout@)
                } else {
                    match self.diff_type {
                        DiffTypeView::Commit(id) => (
                            DeltaRunView { phase: DeltaPhase::FirstCommit, ..self },
                            DeltaRequestView::Git(first_commit_args(id, self.path)),
                        ),
                        _ => self.stop(None),
                    }
                },
                DeltaPhase::FirstCommit => if ended_well(output) {
                    self.use_diff(out.stdout@)
                } else {
                    self.stop(None)
                },
                // An exit code of one tells that the files differ.
                DeltaPhase::NewFile => if ended_well(output) || out.code == Some(1i32) {
                    self.ask_delta(out.stdout@)
                } else {
                    self.stop(None)
                },
                DeltaPhase::Delta => if ended_well(output) {
                    self.stop(Some(ansi::styled_lines(diff::lossy_text(out.stdout@))))
                } else {
                    self.stop(None)
                },
                DeltaPhase::Done => self.stop(None),
            },
        }
    }
}

impl DeltaRun {
    /// A run for a file. `work_dir` is the work tree, where it is known.
    pub fn new(
        path: String,
        diff_type: DiffType,
        width: u16,
        side_by_side: bool,
        work_dir: Option<String>,
    ) -> (r: DeltaRun)
        ensures
            r@ == (DeltaRunView {
                path: path@,
                diff_type: diff_type@,
                width,
                side_by_side,
                work_dir: text::opt_text(work_dir),
                phase: DeltaPhase::Done,
            }),
    {
        DeltaRun { path, diff_type, width, side_by_side, work_dir, phase: DeltaPhase::Done }
    }

    fn stop(&mut self) -> (r: DeltaRequest)
        ensures
            (final(self)@, r@) == old(self)@.stop(None),
    {
        self.phase = DeltaPhase::Done;
        DeltaRequest::Done(None)
    }

    fn ask_diff(&mut self, work_dir: String) -> (r: DeltaRequest)
        ensures
            (final(self)@, r@) == old(self)@.ask_diff(work_dir@),
    {
        self.phase = DeltaPhase::Diff;
        self.work_dir = Some(work_dir);
        DeltaRequest::Git(git_diff_args(&self.diff_type, self.path.as_str()))
    }

    fn ask_delta(&mut self, diff: Vec<u8>) -> (r: DeltaRequest)
        ensures
            (final(self)@, r@) == old(self)@.ask_delta(diff@),
    {
        if diff.len() == 0 {
            self.stop()
        } else {
            self.phase = DeltaPhase::Delta;
            DeltaRequest::Delta(delta_program_args(self.width, self.side_by_side), diff)
        }
    }

    fn use_diff(&mut self, diff: Vec<u8>) -> (r: DeltaRequest)
        ensures
            (final(self)@, r@) == old(self)@.use_diff(diff@),
    {
        let is_work_dir = match &self.diff_type {
            DiffType::WorkDir => true,
            _ => false,
        };
        if diff.len() == 0 && is_work_dir {
            self.phase = DeltaPhase::NewFile;
            DeltaRequest::Git(git_new_file_args(self.path.as_str()))
        } else {
            self.ask_delta(diff)
        }
    }

    /// The first request of the run.
    pub fn begin(&mut self) -> (r: DeltaRequest)
        ensures
            (final(self)@, r@) == old(self)@.begin(),
    {
        if self.path.as_str().is_empty() {
            return self.stop();
        }
        match &self.work_dir {
            Some(dir) => {
                let dir = dir.clone();
                self.ask_diff(dir)
            },
            None => {
                self.phase = DeltaPhase::FindWorkTree;
                DeltaRequest::FindWorkTree(list2("rev-parse", "--show-toplevel"))
            },
        }
    }

    /// The request that follows the answer to the last one.
    pub fn next(&mut self, output: Option<ProcessOutput>) -> (r: DeltaRequest)
        ensures
            (final(self)@, r@) == old(self)@.next(output),
    {
        let out = match output {
            Some(out) => out,
            None => {
                return self.stop();
            },
        };
        let success = match out.code {
            Some(code) => code == 0,
            None => false,
        };
        match self.phase {
            DeltaPhase::FindWorkTree => if success {
                let dir = diff::decode_lossy(&out.stdout);
                self.ask_diff(text::trim(dir.as_str(), CharClass::WhiteSpace))
            } else {
                self.stop()
            },
            DeltaPhase::Diff => if success {
                self.use_diff(out.stdout)
            } else {
                match &self.diff_type {
                    DiffType::Commit(id) => {
                        let args = git_first_commit_args(id.as_str(), self.path.as_str());
                        self.phase = DeltaPhase::FirstCommit;
                        DeltaRequest::Git(args)
                    },
                    _ => self.stop(),
                }
            },
            DeltaPhase::FirstCommit => if success {
                self.use_diff(out.stdout)
            } else {
                self.stop()
            },
            DeltaPhase::NewFile => {
                let differs = match out.code {
                    Some(code) => code == 1,
                    None => false,
                };
                if success || differs {
                    self.ask_delta(out.stdout)
                } else {
                    self.stop()
                }
            },
            DeltaPhase::Delta => if success {
                let text = diff::decode_lossy(&out.stdout);
                self.phase = DeltaPhase::Done;
                DeltaRequest::Done(Some(ansi_to_lines(text.as_str())))
            } else {
                self.stop()
            },
            DeltaPhase::Done => self.stop(),
        }
    }
}

// ---------------------------------------------------------------------------
// Which lines of the diff the preview stands for
// ---------------------------------------------------------------------------
/// The old or the new file.
#[derive(Clone, Copy, PartialEq, Eq, Structural, Debug)]
pub enum Side {
    Old,
    New,
}

/// The number of a line in the file.
pub open spec fn number_on(line: DiffLineView, side: Side) -> Option<u32> {
    match side {
        Side::Old => line.position.old_lineno,
        Side::New => line.position.new_lineno,
    }
}

/// Whether the line stands in this file alone.
pub open spec fn only_on(line: DiffLineView, side: Side) -> bool {
    match side {
        Side::Old => line.line_type == DiffLineType::Delete,
        Side::New => line.line_type == DiffLineType::Add,
    }
}

/// The positions of the lines by their number in one file. A line that stands
/// in this file alone takes a number over; any other unchanged line has it
/// only where no line had it before.
pub open spec fn lookup(lines: Seq<DiffLineView>, side: Side) -> Map<u32, DiffLinePosition>
    decreases lines.len(),
{
    if lines.len() == 0 {
        Map::empty()
    } else {
        let before = lookup(lines.drop_last(), side);
        let line = lines.last();
        match number_on(line, side) {
            None => before,
            Some(n) => if only_on(line, side) || (!hunks::changed(line) && !before.dom().contains(
                n,
            )) {
                before.insert(n, line.position)
            } else {
                before
            },
        }
    }
}

/// The positions of the lines by their number in one file.
fn build_lookup(lines: &Vec<&DiffLine>, side: Side) -> (r: HashMap<u32, DiffLinePosition>)
    ensures
        r@ == lookup(text::views(lines@), side),
{
    broadcast use vstd::std_specs::hash::group_hash_axioms;

    let ghost all = text::views(lines@);
    let mut map: HashMap<u32, DiffLinePosition> = HashMap::new();
    let mut i: usize = 0;
    while i < lines.len()
        invariant
            i <= lines.len(),
            all == text::views(lines@),
            map@ == lookup(all.take(i as int), side),
        decreases lines.len() - i,
    {
        let line = lines[i];
        proof {
            assert(all.take(i + 1).drop_last() =~= all.take(i as int));
            assert(all.take(i + 1).last() == line@);
        }
        let (number, only) = match side {
            Side::Old => (line.position.old_lineno, line.line_type == DiffLineType::Delete),
            Side::New => (line.position.new_lineno, line.line_type == DiffLineType::Add),
        };
        let changed = line.line_type == DiffLineType::Add || line.line_type
            == DiffLineType::Delete;
        match number {
            Some(n) => {
                if only || (!changed && !map.contains_key(&n)) {
                    map.insert(n, line.position);
                }
            },
            None => {},
        }
        i = i + 1;
    }
    assert(all.take(all.len() as int) =~= all);
    map
}

/// Whether a text is the line that delta draws above a hunk: a rule that ends
/// in a corner.
pub open spec fn is_separator(line: Seq<SpanView>) -> bool {
    let t = text::trim_of(style::line_text(line), CharClass::WhiteSpace);
    &&& t.len() > 0
    &&& t.last() == '\u{2510}'
    &&& forall|i: int| 0 <= i < t.len() ==> rule_char(#[trigger] t[i])
}

pub open spec fn rule_char(c: char) -> bool {
    c == '\u{2500}' || c == '\u{2510}' || text::white_space(c)
}

fn is_top_separator(line: &Line) -> (r: bool)
    ensures
        r == is_separator(line@),
{
    let text = line.text();
    let trimmed = text::trim(text.as_str(), CharClass::WhiteSpace);
    let chars = text::chars_of(trimmed.as_str());
    if chars.len() == 0 || chars[chars.len() - 1] != '\u{2510}' {
        return false;
    }
    let mut i: usize = 0;
    while i < chars.len()
        invariant
            i <= chars.len(),
            chars@ == text::trim_of(style::line_text(line@), CharClass::WhiteSpace),
            forall|j: int| 0 <= j < i ==> rule_char(#[trigger] chars@[j]),
        decreases chars.len() - i,
    {
        let c = chars[i];
        if !(c == '\u{2500}' || c == '\u{2510}' || text::is_white_space(c)) {
            assert(!rule_char(chars@[i as int]));
            return false;
        }
        i = i + 1;
    }
    true
}

/// How many hunks begin in the lines.
pub open spec fn separators(lines: Seq<Seq<SpanView>>) -> int
    decreases lines.len(),
{
    if lines.len() == 0 {
        0
    } else {
        separators(lines.drop_last()) + (if is_separator(lines.last()) {
            1int
        } else {
            0
        })
    }
}

/// The hunk of each line: lines in front of the first rule belong to the first
/// hunk.
pub open spec fn hunk_numbers(lines: Seq<Seq<SpanView>>) -> Seq<int> {
    Seq::new(lines.len(), |i: int| selection::less(separators(lines.take(i + 1)), 1))
}

/// The number in a gutter; none where there is anything but digits.
pub open spec fn gutter_number(content: Seq<char>) -> Option<u32> {
    let t = text::trim_of(content, CharClass::WhiteSpace);
    if t.len() > 0 && text::all_digits(t) {
        text::number_of(t)
    } else {
        None
    }
}

/// The old and the new line number in front of a line: the first and the third
/// piece, where the second is the sign between them.
pub open spec fn gutter_numbers(line: Seq<SpanView>) -> (Option<u32>, Option<u32>) {
    if line.len() >= 4 && text::trim_of(line[1].content, CharClass::WhiteSpace) == seq![
        '\u{22ee}',
    ] {
        (gutter_number(line[0].content), gutter_number(line[2].content))
    } else {
        (None, None)
    }
}

fn parse_gutter(content: &str) -> (r: Option<u32>)
    ensures
        r == gutter_number(content@),
{
    let trimmed = text::trim(content, CharClass::WhiteSpace);
    let chars = text::chars_of(trimmed.as_str());
    if chars.len() == 0 {
        return None;
    }
    let mut i: usize = 0;
    while i < chars.len()
        invariant
            i <= chars.len(),
            chars@ == text::trim_of(content@, CharClass::WhiteSpace),
            forall|j: int| 0 <= j < i ==> text::ascii_digit(#[trigger] chars@[j]),
        decreases chars.len() - i,
    {
        if chars[i] < '0' || '9' < chars[i] {
            assert(!text::ascii_digit(chars@[i as int]));
            return None;
        }
        i = i + 1;
    }
    text::parse_number(trimmed.as_str())
}

/// The old and the new line number in front of a line of the preview.
pub fn parse_delta_line_numbers(line: &Line) -> (r: (Option<u32>, Option<u32>))
    ensures
        r == gutter_numbers(line@),
{
    if line.spans.len() < 4 {
        return (None, None);
    }
    let sep = text::chars_of(
        text::trim(line.spans[1].content.as_str(), CharClass::WhiteSpace).as_str(),
    );
    if sep.len() != 1 || sep[0] != '\u{22ee}' {
        assert(text::trim_of(line@[1].content, CharClass::WhiteSpace) == sep@);
        return (None, None);
    }
    assert(sep@ =~= seq!['\u{22ee}']);
    (parse_gutter(line.spans[0].content.as_str()), parse_gutter(line.spans[2].content.as_str()))
}

/// The line of the diff that a line of the preview stands for: found by its
/// new number where it has one, else by its old one.
pub open spec fn position_of(
    line: Seq<SpanView>,
    old_lookup: Map<u32, DiffLinePosition>,
    new_lookup: Map<u32, DiffLinePosition>,
) -> Option<DiffLinePosition> {
    match gutter_numbers(line) {
        (_, Some(n)) => if new_lookup.dom().contains(n) {
            Some(new_lookup[n])
        } else {
            None
        },
        (Some(n), None) => if old_lookup.dom().contains(n) {
            Some(old_lookup[n])
        } else {
            None
        },
        (None, None) => None,
    }
}

/// All lines of a diff that may be missing.
pub open spec fn lines_of_diff(file: Option<FileDiff>) -> Seq<DiffLineView> {
    match file {
        Some(file) => diff::flat_lines(file@.hunks),
        None => Seq::empty(),
    }
}

/// The lines of the diff that the lines of a preview stand for.
pub open spec fn line_positions(lines: Seq<Seq<SpanView>>, diff_lines: Seq<DiffLineView>) -> Seq<
    Option<DiffLinePosition>,
> {
    Seq::new(
        lines.len(),
        |i: int|
            position_of(lines[i], lookup(diff_lines, Side::Old), lookup(diff_lines, Side::New)),
    )
}

fn find_position(map: &HashMap<u32, DiffLinePosition>, n: u32) -> (r: Option<DiffLinePosition>)
    ensures
        r == (if map@.dom().contains(n) {
            Some(map@[n])
        } else {
            None
        }),
{
    broadcast use vstd::std_specs::hash::group_hash_axioms;

    match map.get(&n) {
        Some(position) => Some(*position),
        None => None,
    }
}

/// The hunk and the line of the diff that each line of a preview stands for.
pub fn delta_maps(lines: &Vec<Line>, file: &Option<FileDiff>) -> (r: (
    Vec<usize>,
    Vec<Option<DiffLinePosition>>,
))
    ensures
        r.0@.len() == lines@.len(),
        r.0@.map_values(|h: usize| h as int) == hunk_numbers(text::views(lines@)),
        r.1@ == line_positions(text::views(lines@), lines_of_diff(*file)),
{
    let diff_lines = match file {
        Some(file) => hunks::all_lines(file),
        None => Vec::new(),
    };
    let ghost flat = lines_of_diff(*file);
    assert(text::views(diff_lines@) =~= flat);
    let old_lookup = build_lookup(&diff_lines, Side::Old);
    let new_lookup = build_lookup(&diff_lines, Side::New);
    let ghost all = text::views(lines@);
    let mut hunk_map: Vec<usize> = Vec::new();
    let mut pos_map: Vec<Option<DiffLinePosition>> = Vec::new();
    let mut seen: usize = 0;
    let mut i: usize = 0;
    while i < lines.len()
        invariant
            i <= lines.len(),
            all == text::views(lines@),
            old_lookup@ == lookup(flat, Side::Old),
            new_lookup@ == lookup(flat, Side::New),
            seen == separators(all.take(i as int)),
            seen <= i,
            hunk_map@.len() == i,
            pos_map@.len() == i,
            forall|j: int| 0 <= j < i ==> hunk_map@[j] == #[trigger] hunk_numbers(all)[j],
            forall|j: int| 0 <= j < i ==> pos_map@[j] == #[trigger] line_positions(all, flat)[j],
        decreases lines.len() - i,
    {
        let line = &lines[i];
        proof {
            assert(all.take(i + 1).drop_last() =~= all.take(i as int));
            assert(all.take(i + 1).last() == line@);
        }
        if is_top_separator(line) {
            seen = seen + 1;
        }
        let hunk: usize = if seen > 0 {
            seen - 1
        } else {
            0
        };
        assert(hunk == hunk_numbers(all)[i as int]);
        hunk_map.push(hunk);
        let (old_lineno, new_lineno) = parse_delta_line_numbers(line);
        let pos = match new_lineno {
            Some(n) => find_position(&new_lookup, n),
            None => match old_lineno {
                Some(n) => find_position(&old_lookup, n),
                None => None,
            },
        };
        assert(pos == line_positions(all, flat)[i as int]);
        pos_map.push(pos);
        i = i + 1;
    }
    assert(hunk_map@.map_values(|h: usize| h as int) =~= hunk_numbers(all));
    assert(pos_map@ =~= line_positions(all, flat));
    (hunk_map, pos_map)
}

// ---------------------------------------------------------------------------
// Showing the preview
// ---------------------------------------------------------------------------
/// A line without the first `offset` characters of its text. What is cut off
/// is counted through all pieces; empty pieces are left out.
pub open spec fn without_front(line: Seq<SpanView>, offset: int) -> Seq<SpanView>
    decreases line.len(),
{
    if line.len() == 0 {
        Seq::empty()
    } else {
        let first = line[0];
        if offset >= first.content.len() {
            without_front(line.drop_first(), offset - first.content.len())
        } else {
            seq![SpanView { content: first.content.skip(offset), style: first.style }]
                + without_front(line.drop_first(), 0)
        }
    }
}

/// A line that is scrolled by `offset` characters: not at all where that is
/// none.
pub open spec fn scrolled_line(line: Seq<SpanView>, offset: int) -> Seq<SpanView> {
    if offset == 0 {
        line
    } else {
        without_front(line, offset)
    }
}

/// The line without the first `offset` characters of its text.
pub fn trim_line_offset(line: &Line, offset: usize) -> (r: Line)
    ensures
        r@ == scrolled_line(line@, offset as int),
{
    let ghost all = line@;
    let mut spans: Vec<Span> = Vec::new();
    if offset == 0 {
        let mut i: usize = 0;
        while i < line.spans.len()
            invariant
                i <= line.spans.len(),
                all == text::views(line.spans@),
                text::views(spans@) == all.take(i as int),
            decreases line.spans.len() - i,
        {
            let span = line.spans[i].copy();
            proof {
                text::lemma_views_push(spans@, span);
                assert(all.take(i + 1) =~= all.take(i as int).push(all[i as int]));
            }
            spans.push(span);
            i = i + 1;
        }
        assert(all.take(all.len() as int) =~= all);
        return Line { spans };
    }
    let ghost goal = without_front(all, offset as int);
    let mut remaining: usize = offset;
    let mut i: usize = 0;
    assert(all.skip(0) =~= all);
    assert(Seq::<SpanView>::empty() + goal =~= goal);
    while i < line.spans.len()
        invariant
            i <= line.spans.len(),
            all == text::views(line.spans@),
            text::views(spans@) + without_front(all.skip(i as int), remaining as int) == goal,
        decreases line.spans.len() - i,
    {
        let span = &line.spans[i];
        let chars = text::chars_of(span.content.as_str());
        let ghost rest = all.skip(i as int);
        proof {
            assert(rest[0] == span@);
            assert(rest.drop_first() =~= all.skip(i + 1));
        }
        if remaining >= chars.len() {
            remaining = remaining - chars.len();
        } else {
            let trimmed = Span {
                content: text::slice_text(&chars, remaining, chars.len()),
                style: span.style,
            };
            proof {
                assert(chars@.subrange(remaining as int, chars@.len() as int) =~= chars@.skip(
                    remaining as int,
                ));
                text::lemma_views_push(spans@, trimmed);
                let tail = without_front(all.skip(i + 1), 0);
                assert(text::views(spans@) + (seq![trimmed@] + tail) =~= text::views(spans@).push(
                    trimmed@,
                ) + tail);
            }
            spans.push(trimmed);
            remaining = 0;
        }
        i = i + 1;
    }
    assert(all.skip(i as int).len() == 0);
    assert(text::views(spans@) + Seq::<SpanView>::empty() =~= text::views(spans@));
    Line { spans }
}

/// A line whose last piece has a background reaches to the width.
pub open spec fn padded_line(line: Seq<SpanView>, width: nat) -> Seq<SpanView> {
    let len = style::line_text(line).len();
    if len < width && line.len() > 0 && line.last().style.bg is Some {
        line.drop_last().push(
            SpanView {
                content: line.last().content + text::spaces_of((width - len) as nat),
                style: line.last().style,
            },
        )
    } else {
        line
    }
}

/// Pad a line's last span with spaces if it has a background color, so the
/// background extends to the full panel width.
pub fn pad_line_bg(line: Line, width: usize) -> (r: Line)
    ensures
        r@ == padded_line(line@, width as nat),
{
    let mut line = line;
    let content_width: usize = text::char_count(line.text().as_str());
    if content_width >= width {
        return line;
    }
    let ghost before = line@;
    match line.spans.pop() {
        Some(last) => {
            let ghost popped = line@;
            assert(popped =~= before.drop_last());
            assert(before.last() == last@);
            let mut last = last;
            if last.style.bg.is_some() {
                text::push_spaces(&mut last.content, width - content_width);
            }
            proof {
                text::lemma_views_push(line.spans@, last);
                assert(before.drop_last().push(before.last()) =~= before);
            }
            line.spans.push(last);
            line
        },
        None => line,
    }
}

/// How wide a preview is: the length of its longest line.
pub open spec fn preview_width(lines: Seq<Seq<SpanView>>) -> nat
    decreases lines.len(),
{
    if lines.len() == 0 {
        0
    } else {
        let before = preview_width(lines.drop_last());
        let n = style::line_text(lines.last()).len();
        if n > before {
            n
        } else {
            before
        }
    }
}

/// How wide a preview is.
pub fn longest_preview_line(lines: &Vec<Line>) -> (r: usize)
    ensures
        r == preview_width(text::views(lines@)),
{
    let ghost all = text::views(lines@);
    let mut longest: usize = 0;
    let mut i: usize = 0;
    while i < lines.len()
        invariant
            i <= lines.len(),
            all == text::views(lines@),
            longest == preview_width(all.take(i as int)),
        decreases lines.len() - i,
    {
        proof {
            assert(all.take(i + 1).drop_last() =~= all.take(i as int));
            assert(all.take(i + 1).last() == lines@[i as int]@);
        }
        let n: usize = text::char_count(lines[i].text().as_str());
        if n > longest {
            longest = n;
        }
        i = i + 1;
    }
    assert(all.take(all.len() as int) =~= all);
    longest
}

/// The role of selected text.
pub open spec fn marked_text() -> Role {
    Role::Text { enabled: true, selected: true }
}

/// The pieces of a line in their own styles.
pub open spec fn styled_pieces(line: Seq<SpanView>) -> Seq<ThemedSpanView> {
    Seq::new(line.len(), |i: int| themed::piece(line[i].content, Role::Styled(line[i].style)))
}

/// The pieces of a line as selected text that reaches to the width.
pub open spec fn marked_pieces(line: Seq<SpanView>, width: nat) -> Seq<ThemedSpanView> {
    let len = style::line_text(line).len();
    let pieces = Seq::new(line.len(), |i: int| themed::piece(line[i].content, marked_text()));
    if len < width {
        pieces.push(themed::piece(text::spaces_of((width - len) as nat), marked_text()))
    } else {
        pieces
    }
}

/// A line of the preview as it is shown.
pub open spec fn preview_line(
    line: Seq<SpanView>,
    scrolled_right: int,
    width: nat,
    marked: bool,
) -> Seq<ThemedSpanView> {
    let shown = padded_line(scrolled_line(line, scrolled_right), width);
    if marked {
        marked_pieces(shown, width)
    } else {
        styled_pieces(shown)
    }
}

fn show_line(line: &Line, scrolled_right: usize, width: usize, marked: bool) -> (r: ThemedLine)
    ensures
        r@ == preview_line(line@, scrolled_right as int, width as nat, marked),
{
    let shown = pad_line_bg(trim_line_offset(line, scrolled_right), width);
    let ghost pieces = Seq::new(
        shown@.len(),
        |i: int|
            themed::piece(
                shown@[i].content,
                if marked {
                    marked_text()
                } else {
                    Role::Styled(shown@[i].style)
                },
            ),
    );
    let mut spans: Vec<ThemedSpan> = Vec::new();
    let mut i: usize = 0;
    while i < shown.spans.len()
        invariant
            i <= shown.spans.len(),
            pieces == Seq::new(
                shown@.len(),
                |i: int|
                    themed::piece(
                        shown@[i].content,
                        if marked {
                            marked_text()
                        } else {
                            Role::Styled(shown@[i].style)
                        },
                    ),
            ),
            text::views(spans@) == pieces.take(i as int),
        decreases shown.spans.len() - i,
    {
        let role = if marked {
            Role::Text { enabled: true, selected: true }
        } else {
            Role::Styled(shown.spans[i].style)
        };
        let span = ThemedSpan::new(shown.spans[i].content.clone(), role);
        proof {
            text::lemma_views_push(spans@, span);
            assert(shown@[i as int] == shown.spans@[i as int]@);
            assert(pieces.take(i + 1) =~= pieces.take(i as int).push(span@));
        }
        spans.push(span);
        i = i + 1;
    }
    assert(pieces.take(pieces.len() as int) =~= pieces);
    if marked {
        let len: usize = text::char_count(shown.text().as_str());
        if len < width {
            let padding = ThemedSpan::new(
                text::spaces(width - len),
                Role::Text { enabled: true, selected: true },
            );
            proof {
                text::lemma_views_push(spans@, padding);
            }
            spans.push(padding);
        }
        let out = ThemedLine { spans };
        assert(out@ =~= marked_pieces(shown@, width as nat));
        return out;
    }
    let out = ThemedLine { spans };
    assert(out@ =~= styled_pieces(shown@));
    out
}

/// The preview as it is shown: as many lines from `scroll` on as fit, or a
/// note where there is no preview. The line at the cursor is marked; where the
/// cursor is out of view to the top, the first line.
pub open spec fn preview_text(
    lines: Option<Seq<Seq<SpanView>>>,
    scroll: int,
    height: int,
    scrolled_right: int,
    width: nat,
    cursor: int,
) -> Seq<Seq<ThemedSpanView>> {
    match lines {
        None => seq![seq![themed::piece("No delta output available."@, themed::dim_text())]],
        Some(lines) => Seq::new(
            selection::min_of(height, selection::less(lines.len() as int, scroll)) as nat,
            |i: int|
                preview_line(
                    lines[scroll + i],
                    scrolled_right,
                    width,
                    i == selection::less(cursor, scroll),
                ),
        ),
    }
}

/// The lines of an optional preview.
pub open spec fn opt_lines(lines: Option<Vec<Line>>) -> Option<Seq<Seq<SpanView>>> {
    match lines {
        Some(lines) => Some(text::views(lines@)),
        None => None,
    }
}

/// The preview as it is shown.
pub fn delta_text(
    lines: &Option<Vec<Line>>,
    scroll: usize,
    height: u16,
    scrolled_right: usize,
    width: usize,
    cursor: usize,
) -> (r: Vec<ThemedLine>)
    ensures
        text::views(r@) == preview_text(
            opt_lines(*lines),
            scroll as int,
            height as int,
            scrolled_right as int,
            width as nat,
            cursor as int,
        ),
{
    let mut out: Vec<ThemedLine> = Vec::new();
    match lines {
        None => {
            let mut spans: Vec<ThemedSpan> = Vec::new();
            spans.push(
                ThemedSpan::new(
                    "No delta output available.".to_owned(),
                    Role::Text { enabled: false, selected: false },
                ),
            );
            let line = ThemedLine { spans };
            assert(line@ =~= seq![
                themed::piece("No delta output available."@, themed::dim_text()),
            ]);
            out.push(line);
            assert(text::views(out@) =~= seq![line@]);
            out
        },
        Some(lines) => {
            let ghost all = text::views(lines@);
            let rest: usize = if lines.len() > scroll {
                lines.len() - scroll
            } else {
                0
            };
            let n: usize = if rest < height as usize {
                rest
            } else {
                height as usize
            };
            let at: usize = if cursor > scroll {
                cursor - scroll
            } else {
                0
            };
            let ghost goal = preview_text(
                Some(all),
                scroll as int,
                height as int,
                scrolled_right as int,
                width as nat,
                cursor as int,
            );
            let mut i: usize = 0;
            while i < n
                invariant
                    i <= n <= rest,
                    rest == selection::less(lines.len() as int, scroll as int),
                    n == goal.len(),
                    at == selection::less(cursor as int, scroll as int),
                    all == text::views(lines@),
                    goal == preview_text(
                        Some(all),
                        scroll as int,
                        height as int,
                        scrolled_right as int,
                        width as nat,
                        cursor as int,
                    ),
                    text::views(out@) == goal.take(i as int),
                decreases n - i,
            {
                let line = show_line(&lines[scroll + i], scrolled_right, width, i == at);
                proof {
                    text::lemma_views_push(out@, line);
                    assert(line@ == goal[i as int]);
                    assert(goal.take(i + 1) =~= goal.take(i as int).push(goal[i as int]));
                }
                out.push(line);
                i = i + 1;
            }
            assert(goal.take(goal.len() as int) =~= goal);
            out
        },
    }
}

// ---------------------------------------------------------------------------
// Laws
// ---------------------------------------------------------------------------
/// How many requests a run can still make.
pub open spec fn rank(phase: DeltaPhase) -> int {
    match phase {
        DeltaPhase::FindWorkTree => 5,
        DeltaPhase::Diff => 4,
        DeltaPhase::FirstCommit => 3,
        DeltaPhase::NewFile => 2,
        DeltaPhase::Delta => 1,
        DeltaPhase::Done => 0,
    }
}

/// Every answer brings a run closer to its end, and a run that is at its end
/// stays there. A run is at its end exactly when it asks for nothing more.
pub proof fn law_run_ends(run: DeltaRunView, output: Option<ProcessOutput>)
    ensures
        rank(run.next(output).0.phase) < rank(run.phase) || rank(run.phase) == 0,
        run.next(output).1 is Done <==> run.next(output).0.phase is Done,
        run.begin().1 is Done <==> run.begin().0.phase is Done,
{
}

/// There is a preview only after delta ended well, and it is what delta
/// wrote. Delta never gets an empty diff.
pub proof fn law_preview_comes_from_delta(run: DeltaRunView, output: Option<ProcessOutput>)
    ensures
        run.next(output).1 matches DeltaRequestView::Done(Some(lines)) ==> run.phase is Delta
            && ended_well(output) && lines == ansi::styled_lines(
            diff::lossy_text(output->0.stdout@),
        ),
        run.next(output).1 matches DeltaRequestView::Delta(_, input) ==> input.len() > 0,
        run.begin().1 matches DeltaRequestView::Done(lines) ==> lines is None,
{
}

proof fn lemma_line_text_first(line: Seq<SpanView>)
    requires
        line.len() > 0,
    ensures
        style::line_text(line) == line[0].content + style::line_text(line.drop_first()),
    decreases line.len(),
{
    if line.len() == 1 {
        assert(line.drop_last() =~= Seq::<SpanView>::empty());
        assert(line.drop_first() =~= Seq::<SpanView>::empty());
        assert(line[0].content + Seq::<char>::empty() =~= line[0].content);
        assert(Seq::<char>::empty() + line[0].content =~= line[0].content);
    } else {
        lemma_line_text_first(line.drop_last());
        assert(line.drop_last().drop_first() =~= line.drop_first().drop_last());
        assert(line.drop_last()[0] == line[0]);
        let first = line[0].content;
        let middle = style::line_text(line.drop_first().drop_last());
        let last = line.last().content;
        assert(first + middle + last =~= first + (middle + last));
    }
}

proof fn lemma_line_text_concat(a: Seq<SpanView>, b: Seq<SpanView>)
    ensures
        style::line_text(a + b) == style::line_text(a) + style::line_text(b),
    decreases b.len(),
{
    if b.len() == 0 {
        assert(a + b =~= a);
        assert(style::line_text(a) + Seq::<char>::empty() =~= style::line_text(a));
    } else {
        lemma_line_text_concat(a, b.drop_last());
        assert((a + b).drop_last() =~= a + b.drop_last());
        let x = style::line_text(a);
        let y = style::line_text(b.drop_last());
        let z = b.last().content;
        assert(x + y + z =~= x + (y + z));
    }
}

proof fn lemma_without_front(line: Seq<SpanView>, offset: int)
    requires
        0 <= offset,
    ensures
        style::line_text(without_front(line, offset)) == style::line_text(line).skip(
            selection::min_of(offset, style::line_text(line).len() as int),
        ),
    decreases line.len(),
{
    if line.len() > 0 {
        lemma_line_text_first(line);
        let first = line[0];
        let rest = style::line_text(line.drop_first());
        let whole = style::line_text(line);
        let n = selection::min_of(offset, whole.len() as int);
        if offset >= first.content.len() {
            lemma_without_front(line.drop_first(), offset - first.content.len());
            assert(whole.skip(n) =~= rest.skip(
                selection::min_of(offset - first.content.len(), rest.len() as int),
            ));
        } else {
            lemma_without_front(line.drop_first(), 0);
            let head = seq![
                SpanView { content: first.content.skip(offset), style: first.style },
            ];
            let tail = without_front(line.drop_first(), 0);
            lemma_line_text_concat(head, tail);
            assert(head.drop_last() =~= Seq::<SpanView>::empty());
            assert(Seq::<char>::empty() + first.content.skip(offset) =~= first.content.skip(
                offset,
            ));
            assert(head.last().content == first.content.skip(offset));
            assert(style::line_text(head.drop_last()) == Seq::<char>::empty());
            assert(style::line_text(head) == first.content.skip(offset));
            assert(rest.skip(0) =~= rest);
            assert(style::line_text(tail) == rest);
            assert(whole.skip(n) =~= first.content.skip(offset) + rest);
        }
    } else {
        assert(style::line_text(line).skip(0) =~= style::line_text(line));
    }
}

/// Scrolling a line sideways cuts exactly the given number of characters off
/// the front of its text, or all of it.
pub proof fn law_scrolled_text(line: Seq<SpanView>, offset: int)
    requires
        0 <= offset,
    ensures
        style::line_text(scrolled_line(line, offset)) == style::line_text(line).skip(
            selection::min_of(offset, style::line_text(line).len() as int),
        ),
{
    lemma_without_front(line, offset);
    if offset == 0 {
        assert(style::line_text(line).skip(0) =~= style::line_text(line));
    }
}

/// Padding never shortens a line, keeps its text in front, and reaches exactly
/// the width where the line has a background at its end.
pub proof fn law_padded_text(line: Seq<SpanView>, width: nat)
    ensures
        style::line_text(line).is_prefix_of(style::line_text(padded_line(line, width))),
        line.len() > 0 && line.last().style.bg is Some ==> style::line_text(
            padded_line(line, width),
        ).len() == selection::max_of(style::line_text(line).len() as int, width as int),
{
    let len = style::line_text(line).len();
    if len < width && line.len() > 0 && line.last().style.bg is Some {
        let padded = padded_line(line, width);
        assert(padded.drop_last() =~= line.drop_last());
        let pad = text::spaces_of((width - len) as nat);
        assert(style::line_text(padded) =~= style::line_text(line) + pad);
    }
}

/// The number of a line leads to the last line that was added (or deleted)
/// under it.
pub proof fn law_lookup_changed(lines: Seq<DiffLineView>, side: Side, i: int, n: u32)
    requires
        0 <= i < lines.len(),
        only_on(lines[i], side),
        number_on(lines[i], side) == Some(n),
        forall|j: int|
            i < j < lines.len() ==> !(only_on(#[trigger] lines[j], side) && number_on(
                lines[j],
                side,
            ) == Some(n)),
    ensures
        lookup(lines, side).dom().contains(n),
        lookup(lines, side)[n] == lines[i].position,
    decreases lines.len(),
{
    if i < lines.len() - 1 {
        assert forall|j: int| i < j < lines.len() - 1 implies !(only_on(
            #[trigger] lines.drop_last()[j],
            side,
        ) && number_on(lines.drop_last()[j], side) == Some(n)) by {
            assert(lines.drop_last()[j] == lines[j]);
        }
        law_lookup_changed(lines.drop_last(), side, i, n);
        assert(lines.last() == lines[lines.len() - 1]);
    }
}

/// The number of an unchanged line leads to the first line that has it, where
/// no line was added (or deleted) under it.
pub proof fn law_lookup_unchanged(lines: Seq<DiffLineView>, side: Side, i: int, n: u32)
    requires
        0 <= i < lines.len(),
        !hunks::changed(lines[i]),
        number_on(lines[i], side) == Some(n),
        forall|j: int|
            0 <= j < lines.len() ==> !(only_on(#[trigger] lines[j], side) && number_on(
                lines[j],
                side,
            ) == Some(n)),
        forall|j: int|
            0 <= j < i ==> !(!hunks::changed(#[trigger] lines[j]) && number_on(lines[j], side)
                == Some(n)),
    ensures
        lookup(lines, side).dom().contains(n),
        lookup(lines, side)[n] == lines[i].position,
    decreases lines.len(),
{
    let before = lines.drop_last();
    assert(forall|j: int| 0 <= j < before.len() ==> #[trigger] before[j] == lines[j]);
    if i < lines.len() - 1 {
        law_lookup_unchanged(before, side, i, n);
        assert(lines.last() == lines[lines.len() - 1]);
    } else {
        lemma_lookup_absent(before, side, n);
    }
}

/// A number that no line has leads nowhere.
proof fn lemma_lookup_absent(lines: Seq<DiffLineView>, side: Side, n: u32)
    requires
        forall|j: int|
            0 <= j < lines.len() ==> !((only_on(#[trigger] lines[j], side) || !hunks::changed(
                lines[j],
            )) && number_on(lines[j], side) == Some(n)),
    ensures
        !lookup(lines, side).dom().contains(n),
    decreases lines.len(),
{
    if lines.len() > 0 {
        assert(forall|j: int|
            0 <= j < lines.len() - 1 ==> #[trigger] lines.drop_last()[j] == lines[j]);
        lemma_lookup_absent(lines.drop_last(), side, n);
        assert(lines.last() == lines[lines.len() - 1]);
    }
}

/// git is asked for the diff of the file, and of nothing else: with the index for the
/// work tree, with the last commit for the index, with its parent for a commit, and of
/// two commits the old one with the new one.
pub proof fn law_diff_args(
    diff_type: DiffTypeView,
    path: Seq<char>,
    a: Seq<char>,
    b: Seq<char>,
)
    ensures
        diff_args(diff_type, path).len() >= 2,
        diff_args(diff_type, path)[0] == "diff"@,
        diff_args(diff_type, path).last() == path,
        diff_args(DiffTypeView::WorkDir, path).len() == 2,
        diff_args(DiffTypeView::Stage, path).len() == 3,
        diff_args(DiffTypeView::Stage, path)[1] == "--cached"@,
        ({
            let args = diff_args(DiffTypeView::Commit(a), path);
            &&& args.len() == 4
            &&& args[1] == a + seq!['^', '.', '.'] + a
            &&& args[2] == "--"@
        }),
        ({
            let args = diff_args(DiffTypeView::Commits { old: a, new: b }, path);
            &&& args.len() == 5
            &&& args[1] == a
            &&& args[2] == b
            &&& args[3] == "--"@
        }),
{
    reveal_strlit("^..");
    assert("^.."@ =~= seq!['^', '.', '.']);
}

/// Where a commit has no parent it is compared with the empty tree instead, for the same
/// file; a file that git does not know is compared with no file at all.
pub proof fn law_other_diff_args(id: Seq<char>, path: Seq<char>)
    ensures
        ({
            let args = first_commit_args(id, path);
            let known = diff_args(DiffTypeView::Commits { old: args[1], new: id }, path);
            &&& args == known
            &&& args[1] == "4b825dc642cb6eb9a060e54bf8d69288fbee4904"@
        }),
        new_file_args(path).len() == 4,
        new_file_args(path)[0] == "diff"@,
        new_file_args(path)[1] == "--no-index"@,
        new_file_args(path)[2] == "/dev/null"@,
        new_file_args(path)[3] == path,
        work_tree_args().len() == 2,
        work_tree_args()[0] == "rev-parse"@,
        work_tree_args()[1] == "--show-toplevel"@,
{
    assert(first_commit_args(id, path) =~= diff_args(
        DiffTypeView::Commits { old: first_commit_args(id, path)[1], new: id },
        path,
    ));
}

/// delta is told the width of the view, but no less than twenty, to leave out the name
/// of the file and to write line numbers; and for two columns that it is to make them.
pub proof fn law_delta_args(width: int, side_by_side: bool)
    requires
        0 <= width <= u16::MAX,
    ensures
        ({
            let args = delta_args(width, side_by_side);
            &&& args[0] == "--width"@
            &&& width >= 20 ==> args[1] == text::decimal_text(width as nat)
            &&& width < 20 ==> args[1] == text::decimal_text(20)
            &&& args[2] == "--file-style"@
            &&& args[3] == "omit"@
            &&& args[4] == "--line-numbers"@
            &&& args.len() == if side_by_side {
                6
            } else {
                5int
            }
            &&& side_by_side ==> args[5] == "--side-by-side"@
        }),
{
}

/// A run never forgets what it was made for.
pub proof fn law_run_keeps_its_file(run: DeltaRunView, output: Option<ProcessOutput>)
    ensures
        run.next(output).0.path == run.path,
        run.next(output).0.diff_type == run.diff_type,
        run.next(output).0.width == run.width,
        run.next(output).0.side_by_side == run.side_by_side,
        !(run.phase is FindWorkTree) ==> run.next(output).0.work_dir == run.work_dir,
        run.begin().0.path == run.path,
        run.begin().0.diff_type == run.diff_type,
        run.begin().0.width == run.width,
        run.begin().0.side_by_side == run.side_by_side,
        run.begin().0.work_dir == run.work_dir,
{
}

/// A run without a file has nothing to do. Any other asks for the diff, once it knows
/// the work tree.
pub proof fn law_run_begins(run: DeltaRunView)
    ensures
        run.path.len() == 0 ==> run.begin().1 == DeltaRequestView::Done(None),
        run.path.len() > 0 && run.work_dir is Some ==> run.begin().1 == DeltaRequestView::Git(
            diff_args(run.diff_type, run.path),
        ) && run.begin().0.phase == DeltaPhase::Diff,
        run.path.len() > 0 && run.work_dir is None ==> run.begin().1
            == DeltaRequestView::FindWorkTree(work_tree_args()) && run.begin().0.phase
            == DeltaPhase::FindWorkTree,
{
}

/// What git writes when it is asked for the work tree is its path, once the blanks and
/// line feeds around it are taken off; then the diff is asked for.
pub proof fn law_work_tree_is_found(
    run: DeltaRunView,
    out: ProcessOutput,
    front: Seq<char>,
    dir: Seq<char>,
    back: Seq<char>,
)
    requires
        run.phase is FindWorkTree,
        diff::lossy_text(out.stdout@) == front + dir + back,
        forall|i: int| 0 <= i < front.len() ==> text::white_space(#[trigger] front[i]),
        forall|i: int| 0 <= i < back.len() ==> text::white_space(#[trigger] back[i]),
        dir.len() > 0,
        !text::white_space(dir[0]),
        !text::white_space(dir.last()),
    ensures
        out.code == Some(0i32) ==> run.next(Some(out)).1 == DeltaRequestView::Git(
            diff_args(run.diff_type, run.path),
        ) && run.next(Some(out)).0.work_dir == Some(dir) && run.next(Some(out)).0.phase
            == DeltaPhase::Diff,
        out.code != Some(0i32) ==> run.next(Some(out)).1 == DeltaRequestView::Done(None),
{
    text::law_trim(front, dir, back, CharClass::WhiteSpace);
}

/// What git writes as the diff is handed to delta as it is. Where git writes nothing,
/// there is no preview, unless the work tree is looked at: then the file may be one that
/// git does not know. Where git fails on a commit, the commit may be the first one. In
/// any other case a program that fails ends the run without a preview.
pub proof fn law_run_goes_on(run: DeltaRunView, out: ProcessOutput)
    ensures
        ({
            let (after, request) = run.next(Some(out));
            let well = out.code == Some(0i32);
            let some = out.stdout@.len() > 0;
            let handed = request == DeltaRequestView::Delta(
                delta_args(run.width as int, run.side_by_side),
                out.stdout@,
            ) && after.phase is Delta;
            let ended = request == DeltaRequestView::Done(None) && after.phase is Done;
            &&& run.phase is Diff && well && some ==> handed
            &&& run.phase is Diff && well && !some && run.diff_type is WorkDir ==> request
                == DeltaRequestView::Git(new_file_args(run.path)) && after.phase is NewFile
            &&& run.phase is Diff && well && !some && !(run.diff_type is WorkDir) ==> ended
            &&& run.phase is Diff && !well ==> (run.diff_type matches DiffTypeView::Commit(id)
                ==> request == DeltaRequestView::Git(first_commit_args(id, run.path))
                && after.phase is FirstCommit)
            &&& run.phase is Diff && !well && !(run.diff_type is Commit) ==> ended
            &&& run.phase is FirstCommit && well && some ==> handed
            &&& run.phase is FirstCommit && !well ==> ended
            &&& run.phase is NewFile && some && (well || out.code == Some(1i32)) ==> handed
            &&& run.phase is NewFile && !some ==> ended
            &&& run.phase is NewFile && !well && out.code != Some(1i32) ==> ended
            &&& run.phase is Delta && well ==> request == DeltaRequestView::Done(
                Some(ansi::styled_lines(diff::lossy_text(out.stdout@))),
            ) && after.phase is Done
            &&& run.phase is Delta && !well ==> ended
            &&& run.phase is Done ==> ended
        }),
        run.next(None).1 == DeltaRequestView::Done(None),
{
}

/// A line that was deleted is found by its old number, one that was added by its new
/// number, and any other line by both, where no other line has that number.
pub proof fn law_lines_are_found_by_number(lines: Seq<DiffLineView>, i: int, n: u32)
    requires
        0 <= i < lines.len(),
    ensures
        ({
            let line = lines[i];
            let old_alone = line.position.old_lineno == Some(n) && forall|j: int|
                0 <= j < lines.len() && j != i ==> (#[trigger] lines[j]).position.old_lineno
                    != Some(n);
            let new_alone = line.position.new_lineno == Some(n) && forall|j: int|
                0 <= j < lines.len() && j != i ==> (#[trigger] lines[j]).position.new_lineno
                    != Some(n);
            &&& old_alone && line.line_type != DiffLineType::Add ==> lookup(
                lines,
                Side::Old,
            ).dom().contains(n) && lookup(lines, Side::Old)[n] == line.position
            &&& new_alone && line.line_type != DiffLineType::Delete ==> lookup(
                lines,
                Side::New,
            ).dom().contains(n) && lookup(lines, Side::New)[n] == line.position
        }),
{
    let line = lines[i];
    if line.position.old_lineno == Some(n) && line.line_type != DiffLineType::Add && (forall|j: int|
        0 <= j < lines.len() && j != i ==> (#[trigger] lines[j]).position.old_lineno != Some(n)) {
        if line.line_type == DiffLineType::Delete {
            law_lookup_changed(lines, Side::Old, i, n);
        } else {
            law_lookup_unchanged(lines, Side::Old, i, n);
        }
    }
    if line.position.new_lineno == Some(n) && line.line_type != DiffLineType::Delete && (forall|
        j: int,
    |
        0 <= j < lines.len() && j != i ==> (#[trigger] lines[j]).position.new_lineno != Some(n)) {
        if line.line_type == DiffLineType::Add {
            law_lookup_changed(lines, Side::New, i, n);
        } else {
            law_lookup_unchanged(lines, Side::New, i, n);
        }
    }
}

/// Whatever is found by a number is the position of a line with that number: by an old
/// number never that of an added line, by a new one never that of a deleted line.
pub proof fn law_found_lines_have_the_number(lines: Seq<DiffLineView>, n: u32)
    ensures
        lookup(lines, Side::Old).dom().contains(n) ==> exists|i: int|
            0 <= i < lines.len() && (#[trigger] lines[i]).position == lookup(lines, Side::Old)[n]
                && lines[i].position.old_lineno == Some(n) && lines[i].line_type
                != DiffLineType::Add,
        lookup(lines, Side::New).dom().contains(n) ==> exists|i: int|
            0 <= i < lines.len() && (#[trigger] lines[i]).position == lookup(lines, Side::New)[n]
                && lines[i].position.new_lineno == Some(n) && lines[i].line_type
                != DiffLineType::Delete,
    decreases lines.len(),
{
    if lines.len() > 0 {
        let front = lines.drop_last();
        law_found_lines_have_the_number(front, n);
        assert(lines.last() == lines[lines.len() - 1]);
        assert(forall|j: int| 0 <= j < front.len() ==> #[trigger] front[j] == lines[j]);
        if lookup(front, Side::Old).dom().contains(n) {
            let i = choose|i: int|
                0 <= i < front.len() && (#[trigger] front[i]).position == lookup(front, Side::Old)[n]
                    && front[i].position.old_lineno == Some(n) && front[i].line_type
                    != DiffLineType::Add;
            assert(lines[i] == front[i]);
        }
        if lookup(front, Side::New).dom().contains(n) {
            let i = choose|i: int|
                0 <= i < front.len() && (#[trigger] front[i]).position == lookup(front, Side::New)[n]
                    && front[i].position.new_lineno == Some(n) && front[i].line_type
                    != DiffLineType::Delete;
            assert(lines[i] == front[i]);
        }
    }
}

/// A rule with a corner at its end begins a hunk, whatever blanks stand around it.
/// No line with another character does, and none that ends otherwise.
pub proof fn law_separators(
    line: Seq<SpanView>,
    front: Seq<char>,
    t: Seq<char>,
    back: Seq<char>,
)
    requires
        style::line_text(line) == front + t + back,
        forall|i: int| 0 <= i < front.len() ==> text::white_space(#[trigger] front[i]),
        forall|i: int| 0 <= i < back.len() ==> text::white_space(#[trigger] back[i]),
        t.len() > 0 ==> !text::white_space(t[0]) && !text::white_space(t.last()),
    ensures
        t.len() > 0 && t.last() == '┐' && (forall|i: int|
            0 <= i < t.len() - 1 ==> #[trigger] t[i] == '─') ==> is_separator(line),
        t.len() == 0 || t.last() != '┐' ==> !is_separator(line),
        (exists|i: int|
            0 <= i < t.len() && #[trigger] t[i] != '─' && t[i] != '┐' && !text::white_space(t[i]))
            ==> !is_separator(line),
{
    text::law_trim(front, t, back, CharClass::WhiteSpace);
    if t.len() > 0 && t.last() == '┐' && (forall|i: int|
        0 <= i < t.len() - 1 ==> #[trigger] t[i] == '─') {
        assert forall|i: int| 0 <= i < t.len() implies rule_char(#[trigger] t[i]) by {
            if i == t.len() - 1 {
                assert(t[i] == t.last());
            }
        }
    }
    if exists|i: int|
        0 <= i < t.len() && #[trigger] t[i] != '─' && t[i] != '┐' && !text::white_space(t[i]) {
        let i = choose|i: int|
            0 <= i < t.len() && #[trigger] t[i] != '─' && t[i] != '┐' && !text::white_space(t[i]);
        assert(!rule_char(t[i]));
    }
}

proof fn lemma_separators_seen(lines: Seq<Seq<SpanView>>)
    ensures
        separators(lines) >= 0,
        separators(lines) > 0 <==> exists|j: int|
            0 <= j < lines.len() && is_separator(#[trigger] lines[j]),
    decreases lines.len(),
{
    if lines.len() > 0 {
        let front = lines.drop_last();
        lemma_separators_seen(front);
        assert(lines.last() == lines[lines.len() - 1]);
        if separators(front) > 0 {
            let j = choose|j: int| 0 <= j < front.len() && is_separator(#[trigger] front[j]);
            assert(lines[j] == front[j]);
        }
        if exists|j: int| 0 <= j < lines.len() && is_separator(#[trigger] lines[j]) {
            let j = choose|j: int| 0 <= j < lines.len() && is_separator(#[trigger] lines[j]);
            if j < front.len() {
                assert(front[j] == lines[j]);
            }
        }
    }
}

/// The preview begins in the first hunk. A line belongs to the hunk of the line in front
/// of it, but each rule except the first one begins the next hunk.
pub proof fn law_hunks_of_preview(lines: Seq<Seq<SpanView>>, i: int)
    requires
        0 <= i < lines.len(),
    ensures
        hunk_numbers(lines).len() == lines.len(),
        i == 0 ==> hunk_numbers(lines)[i] == 0,
        i > 0 ==> hunk_numbers(lines)[i] == hunk_numbers(lines)[i - 1] + if is_separator(lines[i]) && (
        exists|j: int| 0 <= j < i && is_separator(#[trigger] lines[j])) {
            1int
        } else {
            0
        },
{
    let upto = lines.take(i);
    let with = lines.take(i + 1);
    assert(with.drop_last() =~= upto);
    lemma_separators_seen(upto);
    if exists|j: int| 0 <= j < i && is_separator(#[trigger] lines[j]) {
        let j = choose|j: int| 0 <= j < i && is_separator(#[trigger] lines[j]);
        assert(upto[j] == lines[j]);
        assert(separators(upto) > 0);
    }
    if separators(upto) > 0 {
        let j = choose|j: int| 0 <= j < upto.len() && is_separator(#[trigger] upto[j]);
        assert(lines[j] == upto[j]);
    }
}

/// A number in a gutter is read with any blanks around it; a gutter that is blank has
/// none.
pub proof fn law_gutter_number(front: Seq<char>, n: u32, back: Seq<char>)
    requires
        forall|i: int| 0 <= i < front.len() ==> text::white_space(#[trigger] front[i]),
        forall|i: int| 0 <= i < back.len() ==> text::white_space(#[trigger] back[i]),
    ensures
        gutter_number(front + text::decimal_text(n as nat) + back) == Some(n),
        gutter_number(front) is None,
{
    let digits = text::decimal_text(n as nat);
    text::law_decimal(n as nat);
    assert(text::ascii_digit(digits[0]));
    assert(text::ascii_digit(digits[digits.len() - 1]));
    text::law_trim(front, digits, back, CharClass::WhiteSpace);
    let empty = Seq::<char>::empty();
    text::law_trim(front, empty, empty, CharClass::WhiteSpace);
    assert(front + empty + empty =~= front);
}

/// The numbers of a line stand in front of it, the old one in front of the sign between
/// them and the new one behind it. Without that sign, or with nothing behind the numbers,
/// there are none.
pub proof fn law_gutter_numbers(line: Seq<SpanView>, front: Seq<char>, back: Seq<char>)
    requires
        forall|i: int| 0 <= i < front.len() ==> text::white_space(#[trigger] front[i]),
        forall|i: int| 0 <= i < back.len() ==> text::white_space(#[trigger] back[i]),
    ensures
        line.len() >= 4 && line[1].content == front + seq!['⋮'] + back ==> gutter_numbers(line).0
            == gutter_number(line[0].content) && gutter_numbers(line).1 == gutter_number(
            line[2].content,
        ),
        line.len() < 4 ==> gutter_numbers(line).0 is None && gutter_numbers(line).1 is None,
        line.len() >= 4 && !line[1].content.contains('⋮') ==> gutter_numbers(line).0 is None
            && gutter_numbers(line).1 is None,
{
    let sign = seq!['⋮'];
    text::law_trim(front, sign, back, CharClass::WhiteSpace);
    if line.len() >= 4 {
        let t = text::trim_of(line[1].content, CharClass::WhiteSpace);
        text::lemma_trimmed_part(line[1].content, CharClass::WhiteSpace);
        if t == sign {
            assert(t[0] == '⋮');
        }
    }
}

/// A line of the preview stands for the line of the diff that has its new number in the
/// new file; where it has no new number, for the one that has its old number in the old
/// file. A line without numbers stands for none.
pub proof fn law_preview_line_stands_for(
    lines: Seq<Seq<SpanView>>,
    diff_lines: Seq<DiffLineView>,
    i: int,
)
    requires
        0 <= i < lines.len(),
    ensures
        ({
            let position = line_positions(lines, diff_lines)[i];
            let (old_number, new_number) = gutter_numbers(lines[i]);
            &&& line_positions(lines, diff_lines).len() == lines.len()
            &&& new_number matches Some(n) ==> position == if lookup(
                diff_lines,
                Side::New,
            ).dom().contains(n) {
                Some(lookup(diff_lines, Side::New)[n])
            } else {
                None
            }
            &&& new_number is None ==> (old_number matches Some(n) ==> position == if lookup(
                diff_lines,
                Side::Old,
            ).dom().contains(n) {
                Some(lookup(diff_lines, Side::Old)[n])
            } else {
                None
            })
            &&& new_number is None && old_number is None ==> position is None
        }),
{
}

/// The characters of a line, each with its style.
pub open spec fn styled_chars(line: Seq<SpanView>) -> Seq<(char, style::Style)>
    decreases line.len(),
{
    if line.len() == 0 {
        Seq::empty()
    } else {
        Seq::new(line[0].content.len(), |i: int| (line[0].content[i], line[0].style)) + styled_chars(
            line.drop_first(),
        )
    }
}

proof fn lemma_styled_without_front(line: Seq<SpanView>, offset: int)
    requires
        0 <= offset,
    ensures
        styled_chars(without_front(line, offset)) == styled_chars(line).skip(
            selection::min_of(offset, styled_chars(line).len() as int),
        ),
    decreases line.len(),
{
    let all = styled_chars(line);
    if line.len() == 0 {
        assert(all.skip(0) =~= all);
    } else {
        let first = line[0];
        let rest = styled_chars(line.drop_first());
        let len = first.content.len();
        let n = selection::min_of(offset, all.len() as int);
        if offset >= len {
            lemma_styled_without_front(line.drop_first(), offset - len);
            assert(all.skip(n) =~= rest.skip(selection::min_of(offset - len, rest.len() as int)));
        } else {
            lemma_styled_without_front(line.drop_first(), 0);
            let head = SpanView { content: first.content.skip(offset), style: first.style };
            let tail = without_front(line.drop_first(), 0);
            let out = seq![head] + tail;
            assert(out.drop_first() =~= tail);
            assert(out[0] == head);
            assert(rest.skip(0) =~= rest);
            assert(styled_chars(out) =~= all.skip(n));
        }
    }
}

/// Scrolling a line sideways leaves each character that stays in its own style.
pub proof fn law_scrolled_styles(line: Seq<SpanView>, offset: int)
    requires
        0 <= offset,
    ensures
        offset <= styled_chars(line).len() ==> styled_chars(scrolled_line(line, offset))
            == styled_chars(line).skip(offset),
        offset > styled_chars(line).len() ==> styled_chars(scrolled_line(line, offset)).len() == 0,
{
    lemma_styled_without_front(line, offset);
    if offset == 0 {
        assert(styled_chars(line).skip(0) =~= styled_chars(line));
    }
}

/// Padding adds blanks in the style of the last piece and leaves all else as it is; a
/// line whose last piece has no background, and one that is wide enough, stays as it is.
pub proof fn law_padding_of_background(line: Seq<SpanView>, width: nat)
    ensures
        ({
            let out = padded_line(line, width);
            let n = style::line_text(line).len();
            &&& line.len() == 0 || line.last().style.bg is None || n >= width ==> out == line
            &&& line.len() > 0 && line.last().style.bg is Some && n < width ==> {
                &&& out.len() == line.len()
                &&& out.drop_last() == line.drop_last()
                &&& out.last().style == line.last().style
                &&& out.last().content.take(line.last().content.len() as int) == line.last().content
                &&& out.last().content.len() == line.last().content.len() + width - n
                &&& forall|i: int|
                    line.last().content.len() <= i < out.last().content.len()
                        ==> #[trigger] out.last().content[i] == ' '
            }
        }),
{
    let out = padded_line(line, width);
    let n = style::line_text(line).len();
    if line.len() > 0 && line.last().style.bg is Some && n < width {
        text::law_padding(Seq::empty(), (width - n) as nat);
        assert(out.drop_last() =~= line.drop_last());
        assert(out.last().content.take(line.last().content.len() as int) =~= line.last().content);
    }
}

proof fn lemma_pieces_text(line: Seq<SpanView>, pieces: Seq<ThemedSpanView>)
    requires
        pieces.len() == line.len(),
        forall|i: int| 0 <= i < line.len() ==> (#[trigger] pieces[i]).content == line[i].content,
    ensures
        themed::themed_text(pieces) == style::line_text(line),
    decreases line.len(),
{
    if line.len() > 0 {
        let front = pieces.drop_last();
        assert forall|i: int| 0 <= i < front.len() implies (#[trigger] front[i]).content
            == line.drop_last()[i].content by {
            assert(front[i] == pieces[i]);
        }
        lemma_pieces_text(line.drop_last(), front);
        assert(pieces[line.len() - 1].content == line[line.len() - 1].content);
    }
}

/// A line of the preview is shown scrolled and padded. Elsewhere than at the cursor each
/// of its pieces keeps its own style; at the cursor all of it is selected text, up to the
/// width.
pub proof fn law_preview_line(line: Seq<SpanView>, scrolled_right: int, width: nat, i: int)
    ensures
        ({
            let shown = padded_line(scrolled_line(line, scrolled_right), width);
            let t = style::line_text(shown);
            let plain = preview_line(line, scrolled_right, width, false);
            let marked = preview_line(line, scrolled_right, width, true);
            &&& themed::themed_text(plain) == t
            &&& plain.len() == shown.len()
            &&& 0 <= i < plain.len() ==> plain[i].role == Role::Styled(shown[i].style)
            &&& 0 <= i < plain.len() ==> plain[i].content == shown[i].content
            &&& themed::themed_text(marked).len() == selection::max_of(t.len() as int, width as int)
            &&& themed::themed_text(marked).take(t.len() as int) == t
            &&& forall|k: int|
                t.len() <= k < themed::themed_text(marked).len() ==> #[trigger] themed::themed_text(
                    marked,
                )[k] == ' '
            &&& 0 <= i < marked.len() ==> marked[i].role == (Role::Text {
                enabled: true,
                selected: true,
            })
        }),
{
    let shown = padded_line(scrolled_line(line, scrolled_right), width);
    let t = style::line_text(shown);
    lemma_pieces_text(shown, styled_pieces(shown));
    let pieces = Seq::new(shown.len(), |i: int| themed::piece(shown[i].content, marked_text()));
    lemma_pieces_text(shown, pieces);
    let marked = preview_line(line, scrolled_right, width, true);
    if t.len() < width {
        text::law_padding(Seq::empty(), (width - t.len()) as nat);
        assert(marked.drop_last() =~= pieces);
    }
    assert(themed::themed_text(marked).take(t.len() as int) =~= t);
}

/// As many lines of the preview are shown as fit, from the first line in view on, and the
/// one at the cursor is marked, or the first one where the cursor is above. Without a preview
/// there is one line that says so.
pub proof fn law_preview_in_view(
    lines: Seq<Seq<SpanView>>,
    scroll: int,
    height: int,
    scrolled_right: int,
    width: nat,
    cursor: int,
    i: int,
)
    requires
        0 <= scroll,
        0 <= height,
    ensures
        ({
            let out = preview_text(Some(lines), scroll, height, scrolled_right, width, cursor);
            &&& out.len() <= height
            &&& scroll + out.len() <= lines.len() || out.len() == 0
            &&& out.len() == height || scroll + out.len() >= lines.len()
            &&& 0 <= i < out.len() ==> out[i] == preview_line(
                lines[scroll + i],
                scrolled_right,
                width,
                scroll + i == cursor || (i == 0 && cursor < scroll),
            )
        }),
        preview_text(None, scroll, height, scrolled_right, width, cursor).len() == 1,
        themed::themed_text(preview_text(None, scroll, height, scrolled_right, width, cursor)[0])
            == "No delta output available."@,
{
    let note = preview_text(None, scroll, height, scrolled_right, width, cursor)[0];
    assert(note =~= seq![note[0]]);
    themed::law_themed_text(Seq::empty(), Seq::empty(), note[0]);
}

/// The width of a preview is the length of some line, and no line is longer.
pub proof fn law_preview_width(lines: Seq<Seq<SpanView>>, i: int)
    ensures
        0 <= i < lines.len() ==> style::line_text(lines[i]).len() <= preview_width(lines),
        lines.len() == 0 ==> preview_width(lines) == 0,
        lines.len() > 0 ==> exists|k: int|
            0 <= k < lines.len() && style::line_text(#[trigger] lines[k]).len() == preview_width(
                lines,
            ),
    decreases lines.len(),
{
    if lines.len() > 0 {
        let front = lines.drop_last();
        law_preview_width(front, i);
        let last = lines.len() - 1;
        assert(lines.last() == lines[last]);
        if 0 <= i < last {
            assert(front[i] == lines[i]);
        }
        if front.len() > 0 && preview_width(lines) == preview_width(front) {
            let k = choose|k: int|
                0 <= k < front.len() && style::line_text(#[trigger] front[k]).len() == preview_width(
                    front,
                );
            assert(lines[k] == front[k]);
        } else {
            assert(style::line_text(lines[last]).len() == preview_width(lines));
        }
    }
}

/// A run and its requests are seen as they are, with all that they hold.
pub proof fn law_runs_are_seen_as_they_are(
    run: DeltaRun,
    args: Vec<String>,
    input: Vec<u8>,
    lines: Vec<Line>,
    a: String,
    b: String,
)
    ensures
        run@.path == run.path@,
        run@.diff_type == run.diff_type@,
        run@.width == run.width,
        run@.side_by_side == run.side_by_side,
        run@.phase == run.phase,
        run.work_dir is None <==> run@.work_dir is None,
        run.work_dir matches Some(dir) ==> run@.work_dir == Some(dir@),
        DiffType::WorkDir@ is WorkDir,
        DiffType::Stage@ is Stage,
        DiffType::Commit(a)@ == DiffTypeView::Commit(a@),
        (DiffType::Commits { old: a, new: b })@ == (DiffTypeView::Commits { old: a@, new: b@ }),
        DeltaRequest::FindWorkTree(args)@ == DeltaRequestView::FindWorkTree(text::views(args@)),
        DeltaRequest::Git(args)@ == DeltaRequestView::Git(text::views(args@)),
        DeltaRequest::Delta(args, input)@ == DeltaRequestView::Delta(text::views(args@), input@),
        DeltaRequest::Done(None)@ == DeltaRequestView::Done(None),
        DeltaRequest::Done(Some(lines))@ == DeltaRequestView::Done(Some(text::views(lines@))),
{
}

/// A run begins with what it is made for, and with no request under way.
pub proof fn law_new_run(
    path: String,
    diff_type: DiffType,
    width: u16,
    side_by_side: bool,
    work_dir: Option<String>,
    run: DeltaRun,
)
    requires
        call_ensures(DeltaRun::new, (path, diff_type, width, side_by_side, work_dir), run),
    ensures
        run@.path == path@,
        run@.diff_type == diff_type@,
        run@.width == width,
        run@.side_by_side == side_by_side,
        run@.work_dir is Some <==> work_dir is Some,
        work_dir matches Some(dir) ==> run@.work_dir == Some(dir@),
        run@.phase is Done,
{
}

proof fn lemma_no_empty_piece(line: Seq<SpanView>, offset: int)
    requires
        0 <= offset,
    ensures
        forall|i: int|
            0 <= i < without_front(line, offset).len() ==> (#[trigger] without_front(
                line,
                offset,
            )[i]).content.len() > 0,
    decreases line.len(),
{
    if line.len() > 0 {
        let first = line[0];
        let rest = line.drop_first();
        if offset >= first.content.len() {
            lemma_no_empty_piece(rest, offset - first.content.len());
        } else {
            lemma_no_empty_piece(rest, 0);
            let out = without_front(line, offset);
            assert forall|i: int| 0 <= i < out.len() implies (#[trigger] out[i]).content.len()
                > 0 by {
                if i > 0 {
                    assert(out[i] == without_front(rest, 0)[i - 1]);
                }
            }
        }
    }
}

/// A line that is scrolled sideways has no empty pieces; one that is not scrolled stays as
/// it is.
pub proof fn law_scrolled_pieces(line: Seq<SpanView>, offset: int, i: int)
    requires
        0 <= offset,
    ensures
        offset > 0 && 0 <= i < scrolled_line(line, offset).len() ==> scrolled_line(
            line,
            offset,
        )[i].content.len() > 0,
        scrolled_line(line, 0) == line,
{
    lemma_no_empty_piece(line, offset);
}

/// A gutter with anything but digits between its blanks has no number.
pub proof fn law_gutter_without_number(
    front: Seq<char>,
    t: Seq<char>,
    back: Seq<char>,
    i: int,
)
    requires
        forall|k: int| 0 <= k < front.len() ==> text::white_space(#[trigger] front[k]),
        forall|k: int| 0 <= k < back.len() ==> text::white_space(#[trigger] back[k]),
        0 <= i < t.len(),
        !('0' <= t[i] <= '9'),
        !text::white_space(t[0]),
        !text::white_space(t.last()),
    ensures
        gutter_number(front + t + back) is None,
{
    text::law_trim(front, t, back, CharClass::WhiteSpace);
    assert(!text::ascii_digit(t[i]));
}

} // verus!
