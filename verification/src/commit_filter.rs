//! Searching commits: which of their parts are searched, and how a pattern is
//! matched.
use fuzzy_matcher::FuzzyMatcher;
use vstd::prelude::*;

use crate::text;

verus! {

// ---------------------------------------------------------------------------
// Outside calls
// ---------------------------------------------------------------------------
/// The lower case letter of an ASCII capital.
pub open spec fn ascii_lower(c: char) -> char {
    if 'A' <= c <= 'Z' {
        (c as u32 + 32) as char
    } else {
        c
    }
}

pub open spec fn all_ascii(s: Seq<char>) -> bool {
    forall|i: int| 0 <= i < s.len() ==> (#[trigger] s[i]) <= '\u{7f}'
}

/// A text with its ASCII capitals in lower case.
pub open spec fn ascii_lowered(s: Seq<char>) -> Seq<char> {
    Seq::new(s.len(), |i: int| ascii_lower(s[i]))
}

/// What `str::to_lowercase` makes of a text.
pub uninterp spec fn lowercase_text(s: Seq<char>) -> Seq<char>;

/// `str::to_lowercase`: the text in lower case. ASCII text keeps its length,
/// and only its capitals change; what becomes of other letters is left to the
/// name.
#[verifier::external_body]
fn to_lowercase(s: &str) -> (r: String)
    ensures
        r@ == lowercase_text(s@),
        all_ascii(s@) ==> r@ == ascii_lowered(s@),
{
    s.to_lowercase()
}

/// Whether two characters are taken to be the same.
pub open spec fn same_letter(a: char, b: char, case_sensitive: bool) -> bool {
    if case_sensitive {
        a == b
    } else {
        ascii_lower(a) == ascii_lower(b)
    }
}

/// Whether the characters of the pattern occur in the text in this order,
/// with anything between them.
pub open spec fn subsequence(text: Seq<char>, pattern: Seq<char>, case_sensitive: bool) -> bool
    decreases text.len(),
{
    if pattern.len() == 0 {
        true
    } else if text.len() == 0 {
        false
    } else if same_letter(text[0], pattern[0], case_sensitive) {
        subsequence(text.drop_first(), pattern.drop_first(), case_sensitive)
    } else {
        subsequence(text.drop_first(), pattern, case_sensitive)
    }
}

pub open spec fn has_capital(s: Seq<char>) -> bool {
    exists|i: int| 0 <= i < s.len() && 'A' <= #[trigger] s[i] <= 'Z'
}

/// Whether a fuzzy search finds the pattern: case matters where the pattern
/// has an ASCII capital.
pub open spec fn fuzzy_finds(text: Seq<char>, pattern: Seq<char>) -> bool {
    subsequence(text, pattern, has_capital(pattern))
}

/// A fuzzy search takes texts and patterns that are shorter than this. Each
/// character of a pattern adds at most 32 to a score of 32 bits, and two rows of
/// 16 bytes a character are kept of the text: below this limit neither
/// overflows on a machine of 32 bits.
pub const FUZZY_LIMIT: usize = 0x3ff_ffff;

/// How well `fuzzy_matcher::skim::SkimMatcherV2` finds a pattern in a text.
pub uninterp spec fn fuzzy_score(text: Seq<char>, pattern: Seq<char>) -> Option<i64>;

/// `fuzzy_matcher::FuzzyMatcher::fuzzy_match` of a default `SkimMatcherV2`:
/// there is a score exactly where the pattern's characters occur in this
/// order. The scores are 32-bit sums, so the lengths are bounded.
#[verifier::external_body]
fn fuzzy_match(text: &str, pattern: &str) -> (r: Option<i64>)
    requires
        text@.len() < FUZZY_LIMIT,
        pattern@.len() < FUZZY_LIMIT,
    ensures
        r == fuzzy_score(text@, pattern@),
        r is Some <==> fuzzy_finds(text@, pattern@),
{
    fuzzy_matcher::skim::SkimMatcherV2::default().fuzzy_match(text, pattern)
}

// ---------------------------------------------------------------------------
// Options
// ---------------------------------------------------------------------------
/// The parts of a commit that are searched.
#[derive(Clone, Copy, PartialEq, Eq, Structural, Debug)]
pub struct SearchFields {
    pub message_summary: bool,
    pub message_body: bool,
    pub filenames: bool,
    pub authors: bool,
    pub commit_hashes: bool,
}

impl Default for SearchFields {
    fn default() -> (r: Self)
        ensures
            r == (SearchFields {
                message_summary: true,
                message_body: false,
                filenames: false,
                authors: false,
                commit_hashes: false,
            }),
    {
        SearchFields {
            message_summary: true,
            message_body: false,
            filenames: false,
            authors: false,
            commit_hashes: false,
        }
    }
}

/// How the pattern is matched.
#[derive(Clone, Copy, PartialEq, Eq, Structural, Debug)]
pub struct SearchOptions {
    pub case_sensitive: bool,
    pub fuzzy_search: bool,
}

impl Default for SearchOptions {
    fn default() -> (r: Self)
        ensures
            r == (SearchOptions { case_sensitive: false, fuzzy_search: false }),
    {
        SearchOptions { case_sensitive: false, fuzzy_search: false }
    }
}

/// A search.
#[derive(Debug)]
pub struct LogFilterSearchOptions {
    pub search_pattern: String,
    pub fields: SearchFields,
    pub options: SearchOptions,
}

impl Default for LogFilterSearchOptions {
    fn default() -> (r: Self)
        ensures
            r.search_pattern@.len() == 0,
            r.fields == (SearchFields {
                message_summary: true,
                message_body: false,
                filenames: false,
                authors: false,
                commit_hashes: false,
            }),
            r.options == (SearchOptions { case_sensitive: false, fuzzy_search: false }),
    {
        LogFilterSearchOptions {
            search_pattern: String::new(),
            fields: SearchFields::default(),
            options: SearchOptions::default(),
        }
    }
}

/// A search whose pattern is prepared.
pub struct LogFilterSearch {
    pub options: LogFilterSearchOptions,
}

/// Whether a search finds a text.
pub open spec fn finds(pattern: Seq<char>, options: SearchOptions, text: Seq<char>) -> bool {
    if options.fuzzy_search {
        fuzzy_finds(text, pattern)
    } else if options.case_sensitive {
        text::contains_text(text, pattern)
    } else {
        text::contains_text(lowercase_text(text), pattern)
    }
}

/// Two paths of a changed file: what it was called and what it is called. A
/// path that is no text is left out.
pub struct DeltaPaths {
    pub new_file: Option<String>,
    pub old_file: Option<String>,
}

/// What is known of a commit.
pub struct CommitFacts {
    pub summary: Option<String>,
    pub body: Option<String>,
    /// The changed files, where they could be told.
    pub files: Option<Vec<DeltaPaths>>,
    pub author_email: Option<String>,
    pub author_name: Option<String>,
    /// The name that the commit was asked for by.
    pub short_hash: String,
    /// The full name of the commit.
    pub full_hash: String,
}

impl LogFilterSearch {
    pub open spec fn pattern(&self) -> Seq<char> {
        self.options.search_pattern@
    }

    /// Whether the search finds a text.
    pub open spec fn has_text(&self, text: Seq<char>) -> bool {
        finds(self.pattern(), self.options.options, text)
    }

    /// Whether a text is short enough for the search.
    pub open spec fn fits(&self, text: Seq<char>) -> bool {
        self.options.options.fuzzy_search ==> text.len() < FUZZY_LIMIT && self.pattern().len()
            < FUZZY_LIMIT
    }

    pub open spec fn fits_opt(&self, text: Option<String>) -> bool {
        text matches Some(t) ==> self.fits(t@)
    }

    /// Whether the search finds a text that may be missing.
    pub open spec fn has_opt(&self, text: Option<String>) -> bool {
        match text {
            Some(t) => self.has_text(t@),
            None => false,
        }
    }

    /// Whether the search finds the name of a changed file.
    pub open spec fn has_file(&self, files: Seq<DeltaPaths>) -> bool {
        exists|i: int|
            0 <= i < files.len() && (self.has_opt((#[trigger] files[i]).new_file) || self.has_opt(
                files[i].old_file,
            ))
    }

    pub open spec fn fits_files(&self, files: Seq<DeltaPaths>) -> bool {
        forall|i: int|
            0 <= i < files.len() ==> self.fits_opt((#[trigger] files[i]).new_file)
                && self.fits_opt(files[i].old_file)
    }

    /// Whether the parts of a commit that the search looks at are short enough.
    pub open spec fn fits_commit(&self, commit: CommitFacts) -> bool {
        let fields = self.options.fields;
        &&& fields.message_summary ==> self.fits_opt(commit.summary)
        &&& fields.message_body ==> self.fits_opt(commit.body)
        &&& fields.filenames && commit.files is Some ==> self.fits_files(commit.files->0@)
        &&& fields.authors ==> self.fits_opt(commit.author_email) && self.fits_opt(
            commit.author_name,
        )
        &&& fields.commit_hashes ==> self.fits(commit.short_hash@) && self.fits(commit.full_hash@)
    }

    /// Whether the search finds a commit: in any of the parts that it looks
    /// at.
    pub open spec fn has_commit(&self, commit: CommitFacts) -> bool {
        let fields = self.options.fields;
        ||| fields.message_summary && self.has_opt(commit.summary)
        ||| fields.message_body && self.has_opt(commit.body)
        ||| fields.filenames && commit.files is Some && self.has_file(commit.files->0@)
        ||| fields.authors && (self.has_opt(commit.author_email) || self.has_opt(
            commit.author_name,
        ))
        ||| fields.commit_hashes && (self.has_text(commit.short_hash@) || self.has_text(
            commit.full_hash@,
        ))
    }

    /// Prepares a search: without regard to case, the pattern is put into lower
    /// case.
    pub fn new(options: LogFilterSearchOptions) -> (r: LogFilterSearch)
        ensures
            r.options.fields == options.fields,
            r.options.options == options.options,
            r.options.search_pattern@ == if options.options.case_sensitive {
                options.search_pattern@
            } else {
                lowercase_text(options.search_pattern@)
            },
            !options.options.case_sensitive && all_ascii(options.search_pattern@)
                ==> r.options.search_pattern@ == ascii_lowered(options.search_pattern@),
    {
        let mut options = options;
        if !options.options.case_sensitive {
            options.search_pattern = to_lowercase(options.search_pattern.as_str());
        }
        LogFilterSearch { options }
    }

    /// Whether the search finds the text.
    pub fn match_text(&self, text: &str) -> (r: bool)
        requires
            self.fits(text@),
        ensures
            r == self.has_text(text@),
            !self.options.options.fuzzy_search && !self.options.options.case_sensitive
                && all_ascii(text@) ==> lowercase_text(text@) == ascii_lowered(text@) && r
                == text::contains_text(ascii_lowered(text@), self.pattern()),
    {
        let pattern = self.options.search_pattern.as_str();
        if self.options.options.fuzzy_search {
            fuzzy_match(text, pattern).is_some()
        } else if self.options.options.case_sensitive {
            text::contains(text, pattern)
        } else {
            text::contains(to_lowercase(text).as_str(), pattern)
        }
    }

    fn match_opt(&self, text: &Option<String>) -> (r: bool)
        requires
            self.fits_opt(*text),
        ensures
            r == self.has_opt(*text),
    {
        match text {
            Some(text) => self.match_text(text.as_str()),
            None => false,
        }
    }

    /// Whether the search finds the name of a changed file.
    pub fn match_diff(&self, files: &Vec<DeltaPaths>) -> (r: bool)
        requires
            self.fits_files(files@),
        ensures
            r == self.has_file(files@),
    {
        let mut i: usize = 0;
        while i < files.len()
            invariant
                i <= files.len(),
                self.fits_files(files@),
                forall|j: int|
                    0 <= j < i ==> !(self.has_opt((#[trigger] files@[j]).new_file)
                        || self.has_opt(files@[j].old_file)),
            decreases files.len() - i,
        {
            let file = &files[i];
            assert(self.fits_opt(files@[i as int].new_file));
            if self.match_opt(&file.new_file) || self.match_opt(&file.old_file) {
                assert(self.has_opt(files@[i as int].new_file) || self.has_opt(
                    files@[i as int].old_file,
                ));
                return true;
            }
            i = i + 1;
        }
        false
    }
}

/// Whether the search finds the commit.
pub fn filter_commit_by_search(filter: &LogFilterSearch, commit: &CommitFacts) -> (r: bool)
    requires
        filter.fits_commit(*commit),
    ensures
        r == filter.has_commit(*commit),
{
    let fields = filter.options.fields;
    let file_match = match &commit.files {
        Some(files) => fields.filenames && filter.match_diff(files),
        None => false,
    };
    (fields.message_summary && filter.match_opt(&commit.summary)) || (fields.message_body
        && filter.match_opt(&commit.body)) || file_match || (fields.authors && (filter.match_opt(
        &commit.author_email,
    ) || filter.match_opt(&commit.author_name))) || (fields.commit_hashes && (filter.match_text(
        commit.short_hash.as_str(),
    ) || filter.match_text(commit.full_hash.as_str())))
}

/// Whether a diff that was made for one file has that file, by the number of
/// files in it.
pub fn diff_contains_file(deltas: usize) -> (r: bool)
    ensures
        r == (deltas > 0),
{
    deltas > 0
}

// ---------------------------------------------------------------------------
// Timings
// ---------------------------------------------------------------------------
/// A part of the work of a filter.
#[derive(Clone, Copy, PartialEq, Eq, Structural, Debug)]
pub enum FilterPhase {
    Mailmap,
    FindCommit,
    Diff,
    Author,
    Other,
}

/// Cumulative time spent inside the per-commit filter, broken down by phase.
#[derive(Clone, Copy, PartialEq, Eq, Structural, Debug)]
pub struct FilterTimings {
    /// Time spent in `repo.mailmap()` across all calls (microseconds).
    pub mailmap_us: u64,
    /// Time spent in `repo.find_commit()` across all calls (microseconds).
    pub find_commit_us: u64,
    /// Time spent in `get_commit_diff()` across all calls (microseconds).
    pub diff_us: u64,
    /// Time spent resolving authors with mailmap across all calls (microseconds).
    pub author_us: u64,
    /// Wall-clock time of the whole filter call accumulated across calls (microseconds).
    pub other_us: u64,
    /// Number of times the filter closure was invoked.
    pub calls: u64,
}

impl Default for FilterTimings {
    fn default() -> (r: Self)
        ensures
            r == (FilterTimings {
                mailmap_us: 0,
                find_commit_us: 0,
                diff_us: 0,
                author_us: 0,
                other_us: 0,
                calls: 0,
            }),
    {
        FilterTimings {
            mailmap_us: 0,
            find_commit_us: 0,
            diff_us: 0,
            author_us: 0,
            other_us: 0,
            calls: 0,
        }
    }
}

impl FilterTimings {
    /// Counts time of a phase. The counters wrap around.
    pub fn add(&mut self, phase: FilterPhase, us: u64)
        ensures
            *final(self) == match phase {
                FilterPhase::Mailmap => FilterTimings {
                    mailmap_us: old(self).mailmap_us.wrapping_add(us),
                    ..*old(self)
                },
                FilterPhase::FindCommit => FilterTimings {
                    find_commit_us: old(self).find_commit_us.wrapping_add(us),
                    ..*old(self)
                },
                FilterPhase::Diff => FilterTimings {
                    diff_us: old(self).diff_us.wrapping_add(us),
                    ..*old(self)
                },
                FilterPhase::Author => FilterTimings {
                    author_us: old(self).author_us.wrapping_add(us),
                    ..*old(self)
                },
                FilterPhase::Other => FilterTimings {
                    other_us: old(self).other_us.wrapping_add(us),
                    ..*old(self)
                },
            },
    {
        match phase {
            FilterPhase::Mailmap => {
                self.mailmap_us = self.mailmap_us.wrapping_add(us);
            },
            FilterPhase::FindCommit => {
                self.find_commit_us = self.find_commit_us.wrapping_add(us);
            },
            FilterPhase::Diff => {
                self.diff_us = self.diff_us.wrapping_add(us);
            },
            FilterPhase::Author => {
                self.author_us = self.author_us.wrapping_add(us);
            },
            FilterPhase::Other => {
                self.other_us = self.other_us.wrapping_add(us);
            },
        }
    }

    /// Counts a call.
    pub fn called(&mut self)
        ensures
            *final(self) == (FilterTimings {
                calls: old(self).calls.wrapping_add(1),
                ..*old(self)
            }),
    {
        self.calls = self.calls.wrapping_add(1);
    }
}

// ---------------------------------------------------------------------------
// Laws
// ---------------------------------------------------------------------------
/// An empty pattern finds every text.
pub proof fn law_empty_pattern(options: SearchOptions, t: Seq<char>)
    ensures
        finds(Seq::<char>::empty(), options, t),
{
    let empty = Seq::<char>::empty();
    let lower = lowercase_text(t);
    assert(t.subrange(0, 0) =~= empty);
    assert(text::occurs_at(t, empty, 0));
    assert(lower.subrange(0, 0) =~= empty);
    assert(text::occurs_at(lower, empty, 0));
}

proof fn lemma_shorter_pattern(t: Seq<char>, p: Seq<char>, case_sensitive: bool)
    requires
        p.len() > 0,
        subsequence(t, p, case_sensitive),
    ensures
        subsequence(t, p.drop_first(), case_sensitive),
    decreases t.len(),
{
    let rest = p.drop_first();
    if rest.len() > 0 {
        if same_letter(t[0], p[0], case_sensitive) {
            if same_letter(t[0], rest[0], case_sensitive) {
                lemma_shorter_pattern(t.drop_first(), rest, case_sensitive);
            }
        } else {
            lemma_shorter_pattern(t.drop_first(), p, case_sensitive);
            if same_letter(t[0], rest[0], case_sensitive) {
                lemma_shorter_pattern(t.drop_first(), rest, case_sensitive);
            }
        }
    }
}

proof fn lemma_longer_text(t: Seq<char>, p: Seq<char>, case_sensitive: bool)
    requires
        t.len() > 0,
        subsequence(t.drop_first(), p, case_sensitive),
    ensures
        subsequence(t, p, case_sensitive),
{
    if p.len() > 0 && same_letter(t[0], p[0], case_sensitive) {
        lemma_shorter_pattern(t.drop_first(), p, case_sensitive);
    }
}

proof fn lemma_prefix_found(t: Seq<char>, p: Seq<char>, case_sensitive: bool)
    requires
        p.is_prefix_of(t),
    ensures
        subsequence(t, p, case_sensitive),
    decreases t.len(),
{
    if p.len() > 0 {
        assert(t[0] == p[0]);
        assert(p.drop_first().is_prefix_of(t.drop_first())) by {
            assert(t.drop_first().take(p.len() - 1) =~= p.drop_first());
        }
        lemma_prefix_found(t.drop_first(), p.drop_first(), case_sensitive);
    }
}

proof fn lemma_skip_found(t: Seq<char>, p: Seq<char>, at: int, case_sensitive: bool)
    requires
        0 <= at <= t.len(),
        subsequence(t.skip(at), p, case_sensitive),
    ensures
        subsequence(t, p, case_sensitive),
    decreases at,
{
    if at == 0 {
        assert(t.skip(0) =~= t);
    } else {
        assert(t.drop_first().skip(at - 1) =~= t.skip(at));
        lemma_skip_found(t.drop_first(), p, at - 1, case_sensitive);
        lemma_longer_text(t, p, case_sensitive);
    }
}

/// What a plain search with regard to case finds, a fuzzy search finds too.
pub proof fn law_fuzzy_finds_substrings(t: Seq<char>, pattern: Seq<char>)
    requires
        text::contains_text(t, pattern),
    ensures
        fuzzy_finds(t, pattern),
{
    let at = choose|at: int| text::occurs_at(t, pattern, at);
    let rest = t.skip(at);
    assert(pattern.is_prefix_of(rest)) by {
        assert(rest.take(pattern.len() as int) =~= t.subrange(at, at + pattern.len()));
    }
    lemma_prefix_found(rest, pattern, has_capital(pattern));
    lemma_skip_found(t, pattern, at, has_capital(pattern));
}

/// Looking at more parts of a commit never loses a commit, and looking at none
/// finds none.
pub proof fn law_more_fields_find_more(
    few: LogFilterSearch,
    many: LogFilterSearch,
    commit: CommitFacts,
)
    requires
        few.pattern() == many.pattern(),
        few.options.options == many.options.options,
        few.options.fields.message_summary ==> many.options.fields.message_summary,
        few.options.fields.message_body ==> many.options.fields.message_body,
        few.options.fields.filenames ==> many.options.fields.filenames,
        few.options.fields.authors ==> many.options.fields.authors,
        few.options.fields.commit_hashes ==> many.options.fields.commit_hashes,
    ensures
        few.has_commit(commit) ==> many.has_commit(commit),
        few.has_commit(commit) ==> few.options.fields.message_summary
            || few.options.fields.message_body || few.options.fields.filenames
            || few.options.fields.authors || few.options.fields.commit_hashes,
{
    if commit.files is Some {
        assert(few.has_file(commit.files->0@) ==> many.has_file(commit.files->0@)) by {
            if few.has_file(commit.files->0@) {
                let files = commit.files->0@;
                let i = choose|i: int|
                    0 <= i < files.len() && (few.has_opt((#[trigger] files[i]).new_file)
                        || few.has_opt(files[i].old_file));
                assert(many.has_opt(files[i].new_file) || many.has_opt(files[i].old_file));
            }
        }
    }
}

/// A search that looks at a part of a commit finds every commit in whose part it finds
/// the pattern, whatever else the commit holds: in the summary, in the body, in either
/// name of any changed file, in the email or the name of the author, in the short or
/// the full hash.
pub proof fn law_each_part_is_searched(search: LogFilterSearch, commit: CommitFacts, t: Seq<char>)
    requires
        finds(search.pattern(), search.options.options, t),
    ensures
        ({
            let fields = search.options.fields;
            let found = search.has_commit(commit);
            &&& fields.message_summary && (commit.summary matches Some(s) && s@ == t) ==> found
            &&& fields.message_body && (commit.body matches Some(s) && s@ == t) ==> found
            &&& fields.authors && (commit.author_email matches Some(s) && s@ == t) ==> found
            &&& fields.authors && (commit.author_name matches Some(s) && s@ == t) ==> found
            &&& fields.commit_hashes && commit.short_hash@ == t ==> found
            &&& fields.commit_hashes && commit.full_hash@ == t ==> found
            &&& fields.filenames ==> (commit.files matches Some(files) ==> forall|i: int|
                0 <= i < files@.len() && (((#[trigger] files@[i]).new_file matches Some(s) && s@
                    == t) || (files@[i].old_file matches Some(s) && s@ == t)) ==> found)
        }),
{
    if let Some(files) = commit.files {
        assert forall|i: int|
            0 <= i < files@.len() && (((#[trigger] files@[i]).new_file matches Some(s) && s@ == t)
                || (files@[i].old_file matches Some(s) && s@ == t)) implies search.has_file(
            files@,
        ) by {
            assert(search.has_opt(files@[i].new_file) || search.has_opt(files@[i].old_file));
        }
    }
}

/// A text that may be missing is this one.
pub open spec fn is_text(part: Option<String>, t: Seq<char>) -> bool {
    match part {
        Some(s) => s@ == t,
        None => false,
    }
}

/// Whether `t` stands in a part of the commit that the search looks at.
pub open spec fn in_searched_part(fields: SearchFields, commit: CommitFacts, t: Seq<char>) -> bool {
    ||| fields.message_summary && is_text(commit.summary, t)
    ||| fields.message_body && is_text(commit.body, t)
    ||| fields.authors && is_text(commit.author_email, t)
    ||| fields.authors && is_text(commit.author_name, t)
    ||| fields.commit_hashes && commit.short_hash@ == t
    ||| fields.commit_hashes && commit.full_hash@ == t
    ||| fields.filenames && (commit.files matches Some(files) && exists|i: int|
        0 <= i < files@.len() && (is_text((#[trigger] files@[i]).new_file, t) || is_text(
            files@[i].old_file,
            t,
        )))
}

proof fn lemma_found_text(search: LogFilterSearch, commit: CommitFacts) -> (t: Seq<char>)
    requires
        search.has_commit(commit),
    ensures
        finds(search.pattern(), search.options.options, t),
        in_searched_part(search.options.fields, commit, t),
{
    let fields = search.options.fields;
    if fields.message_summary && search.has_opt(commit.summary) {
        commit.summary->0@
    } else if fields.message_body && search.has_opt(commit.body) {
        commit.body->0@
    } else if fields.filenames && commit.files is Some && search.has_file(commit.files->0@) {
        let files = commit.files->0@;
        let i = choose|i: int|
            0 <= i < files.len() && (search.has_opt((#[trigger] files[i]).new_file)
                || search.has_opt(files[i].old_file));
        if search.has_opt(files[i].new_file) {
            files[i].new_file->0@
        } else {
            files[i].old_file->0@
        }
    } else if fields.authors && search.has_opt(commit.author_email) {
        commit.author_email->0@
    } else if fields.authors && search.has_opt(commit.author_name) {
        commit.author_name->0@
    } else if search.has_text(commit.short_hash@) {
        commit.short_hash@
    } else {
        commit.full_hash@
    }
}

/// A commit is found only for a text that stands in a part that the search looks at
/// and in which the pattern is found.
pub proof fn law_found_commits_have_the_text(search: LogFilterSearch, commit: CommitFacts)
    requires
        search.has_commit(commit),
    ensures
        exists|t: Seq<char>|
            finds(search.pattern(), search.options.options, t) && #[trigger] in_searched_part(
                search.options.fields,
                commit,
                t,
            ),
{
    let t = lemma_found_text(search, commit);
}

/// A plain search finds the pattern with anything in front of it and behind it, and
/// nothing else. Without regard to case, it is the text in lower case that is searched.
pub proof fn law_plain_search(
    options: SearchOptions,
    pattern: Seq<char>,
    t: Seq<char>,
    read: Seq<char>,
    a: Seq<char>,
    b: Seq<char>,
)
    requires
        !options.fuzzy_search,
        options.case_sensitive ==> read == t,
        !options.case_sensitive ==> read == lowercase_text(t),
    ensures
        read == a + pattern + b ==> finds(pattern, options, t),
        finds(pattern, options, t) ==> exists|at: int|
            0 <= at && at + pattern.len() <= read.len() && #[trigger] read.subrange(
                at,
                at + pattern.len(),
            ) == pattern,
{
    if read == a + pattern + b {
        let at = a.len() as int;
        assert(read.subrange(at, at + pattern.len()) =~= pattern);
        assert(text::occurs_at(read, pattern, at));
    }
    if finds(pattern, options, t) {
        let at = choose|at: int| text::occurs_at(read, pattern, at);
        assert(read.subrange(at, at + pattern.len()) == pattern);
    }
}

/// Where case matters two letters are the same only if they are equal; where it does
/// not, a capital of the ASCII letters is the same as its small letter, and no other
/// two letters are the same.
pub proof fn law_same_letter(a: char, b: char)
    ensures
        same_letter(a, b, true) <==> a == b,
        same_letter(a, b, false) <==> (a == b || ('A' <= a <= 'Z' && b as int == a as int + 32) || (
        'A' <= b <= 'Z' && a as int == b as int + 32)),
{
}

/// Case matters to a fuzzy search for a pattern with a capital of the ASCII letters,
/// and to no other.
pub proof fn law_smart_case(front: Seq<char>, c: char, back: Seq<char>)
    ensures
        has_capital(front + seq![c] + back) <==> has_capital(front) || 'A' <= c <= 'Z'
            || has_capital(back),
        !has_capital(Seq::<char>::empty()),
{
    let all = front + seq![c] + back;
    let n = front.len();
    assert forall|i: int| 0 <= i < front.len() implies front[i] == #[trigger] all[i] by {}
    assert(all[n as int] == c);
    assert forall|i: int| 0 <= i < back.len() implies #[trigger] back[i] == all[n + 1 + i] by {}
    if has_capital(all) {
        let i = choose|i: int| 0 <= i < all.len() && 'A' <= #[trigger] all[i] <= 'Z';
        if i < n {
            assert('A' <= front[i] <= 'Z');
        } else if i > n {
            assert('A' <= back[i - n - 1] <= 'Z');
        }
    }
    if has_capital(front) {
        let i = choose|i: int| 0 <= i < front.len() && 'A' <= #[trigger] front[i] <= 'Z';
        assert('A' <= all[i] <= 'Z');
    }
    if has_capital(back) {
        let i = choose|i: int| 0 <= i < back.len() && 'A' <= #[trigger] back[i] <= 'Z';
        assert('A' <= all[n + 1 + i] <= 'Z');
    }
}

/// Whether `places` holds, for each character of the pattern, a place of the text where
/// it stands, each behind the one before.
pub open spec fn stands_at(
    t: Seq<char>,
    pattern: Seq<char>,
    case_sensitive: bool,
    places: Seq<int>,
) -> bool {
    &&& places.len() == pattern.len()
    &&& forall|i: int|
        0 <= i < places.len() ==> 0 <= #[trigger] places[i] < t.len() && same_letter(
            t[places[i]],
            pattern[i],
            case_sensitive,
        )
    &&& forall|i: int, j: int| 0 <= i < j < places.len() ==> places[i] < places[j]
}

proof fn lemma_places_found(
    t: Seq<char>,
    pattern: Seq<char>,
    case_sensitive: bool,
    places: Seq<int>,
)
    requires
        stands_at(t, pattern, case_sensitive, places),
    ensures
        subsequence(t, pattern, case_sensitive),
    decreases t.len(),
{
    if pattern.len() > 0 {
        assert(0 <= places[0] < t.len());
        if places[0] == 0 {
            let rest = Seq::new((places.len() - 1) as nat, |i: int| places[i + 1] - 1);
            assert forall|i: int| 0 <= i < rest.len() implies 0 <= #[trigger] rest[i]
                < t.drop_first().len() && same_letter(
                t.drop_first()[rest[i]],
                pattern.drop_first()[i],
                case_sensitive,
            ) by {
                assert(0 <= places[i + 1] < t.len() && places[0] < places[i + 1]);
                assert(same_letter(t[places[i + 1]], pattern[i + 1], case_sensitive));
                assert(t.drop_first()[rest[i]] == t[places[i + 1]]);
                assert(pattern.drop_first()[i] == pattern[i + 1]);
            }
            lemma_places_found(t.drop_first(), pattern.drop_first(), case_sensitive, rest);
        } else {
            let rest = Seq::new(places.len(), |i: int| places[i] - 1);
            assert forall|i: int| 0 <= i < rest.len() implies 0 <= #[trigger] rest[i]
                < t.drop_first().len() && same_letter(
                t.drop_first()[rest[i]],
                pattern[i],
                case_sensitive,
            ) by {
                assert(0 <= places[i] < t.len() && places[0] <= places[i]);
                assert(same_letter(t[places[i]], pattern[i], case_sensitive));
                assert(t.drop_first()[rest[i]] == t[places[i]]);
            }
            lemma_places_found(t.drop_first(), pattern, case_sensitive, rest);
            lemma_longer_text(t, pattern, case_sensitive);
        }
    }
}

proof fn lemma_found_places(t: Seq<char>, pattern: Seq<char>, case_sensitive: bool) -> (places: Seq<
    int,
>)
    requires
        subsequence(t, pattern, case_sensitive),
    ensures
        stands_at(t, pattern, case_sensitive, places),
    decreases t.len(),
{
    if pattern.len() == 0 {
        Seq::empty()
    } else if same_letter(t[0], pattern[0], case_sensitive) {
        let rest = lemma_found_places(t.drop_first(), pattern.drop_first(), case_sensitive);
        let places = seq![0int] + Seq::new(rest.len(), |i: int| rest[i] + 1);
        assert forall|i: int| 0 <= i < places.len() implies 0 <= #[trigger] places[i] < t.len()
            && same_letter(t[places[i]], pattern[i], case_sensitive) by {
            if i > 0 {
                assert(0 <= rest[i - 1] < t.drop_first().len());
                assert(t.drop_first()[rest[i - 1]] == t[places[i]]);
                assert(pattern.drop_first()[i - 1] == pattern[i]);
            }
        }
        assert forall|i: int, j: int| 0 <= i < j < places.len() implies places[i] < places[j] by {
            assert(0 <= rest[j - 1]);
            if i > 0 {
                assert(rest[i - 1] < rest[j - 1]);
            }
        }
        places
    } else {
        let rest = lemma_found_places(t.drop_first(), pattern, case_sensitive);
        let places = Seq::new(rest.len(), |i: int| rest[i] + 1);
        assert forall|i: int| 0 <= i < places.len() implies 0 <= #[trigger] places[i] < t.len()
            && same_letter(t[places[i]], pattern[i], case_sensitive) by {
            assert(0 <= rest[i] < t.drop_first().len());
            assert(t.drop_first()[rest[i]] == t[places[i]]);
        }
        places
    }
}

/// A fuzzy search finds a pattern exactly where there are places in the text for its
/// characters, each behind the one before, whatever stands between them.
pub proof fn law_fuzzy_search(
    options: SearchOptions,
    pattern: Seq<char>,
    t: Seq<char>,
    places: Seq<int>,
)
    requires
        options.fuzzy_search,
    ensures
        stands_at(t, pattern, has_capital(pattern), places) ==> finds(pattern, options, t),
        finds(pattern, options, t) ==> exists|found: Seq<int>| #[trigger]
            stands_at(t, pattern, has_capital(pattern), found),
{
    if stands_at(t, pattern, has_capital(pattern), places) {
        lemma_places_found(t, pattern, has_capital(pattern), places);
    }
    if finds(pattern, options, t) {
        let found = lemma_found_places(t, pattern, has_capital(pattern));
    }
}

/// In lower case, a text of ASCII characters has no capital, as many characters, and at
/// each place the same letter.
pub proof fn law_lower_case(t: Seq<char>, i: int)
    requires
        0 <= i < t.len(),
    ensures
        ascii_lowered(t).len() == t.len(),
        same_letter(ascii_lowered(t)[i], t[i], false),
        !has_capital(ascii_lowered(t)),
        ascii_lowered(ascii_lowered(t)) == ascii_lowered(t),
{
    assert(ascii_lowered(ascii_lowered(t)) =~= ascii_lowered(t));
}

/// A search without regard to case finds a pattern of ASCII characters in such a text
/// exactly where it stands there with any of its letters in either case; one with regard
/// to case only where it stands there letter for letter.
pub proof fn law_search_by_case(
    options: LogFilterSearchOptions,
    search: LogFilterSearch,
    t: &str,
    found: bool,
)
    requires
        call_ensures(LogFilterSearch::new, (options,), search),
        call_ensures(LogFilterSearch::match_text, (&search, t), found),
        !options.options.fuzzy_search,
        all_ascii(options.search_pattern@),
        all_ascii(t@),
    ensures
        found <==> exists|at: int| #[trigger]
            stands_here(t@, options.search_pattern@, at, options.options.case_sensitive),
{
    let pattern = options.search_pattern@;
    let case_sensitive = options.options.case_sensitive;
    let read = if case_sensitive {
        t@
    } else {
        ascii_lowered(t@)
    };
    let wanted = if case_sensitive {
        pattern
    } else {
        ascii_lowered(pattern)
    };
    assert(found == text::contains_text(read, wanted));
    assert forall|at: int| 0 <= at && at + pattern.len() <= t@.len() implies text::occurs_at(
        read,
        wanted,
        at,
    ) == #[trigger] stands_here(t@, pattern, at, case_sensitive) by {
        let part = read.subrange(at, at + wanted.len());
        if part == wanted {
            assert forall|i: int| 0 <= i < pattern.len() implies same_letter(
                #[trigger] t@[at + i],
                pattern[i],
                case_sensitive,
            ) by {
                assert(part[i] == wanted[i]);
            }
        }
        if stands_here(t@, pattern, at, case_sensitive) {
            assert forall|i: int| 0 <= i < wanted.len() implies part[i] == wanted[i] by {
                assert(same_letter(t@[at + i], pattern[i], case_sensitive));
            }
            assert(part =~= wanted);
        }
    }
    if found {
        let at = choose|at: int| text::occurs_at(read, wanted, at);
        assert(stands_here(t@, pattern, at, case_sensitive));
    }
    if exists|at: int| #[trigger] stands_here(t@, pattern, at, case_sensitive) {
        let at = choose|at: int| #[trigger] stands_here(t@, pattern, at, case_sensitive);
        assert(text::occurs_at(read, wanted, at));
    }
}

/// Whether the pattern stands at this place of the text, letter by letter.
pub open spec fn stands_here(
    t: Seq<char>,
    pattern: Seq<char>,
    at: int,
    case_sensitive: bool,
) -> bool {
    &&& 0 <= at
    &&& at + pattern.len() <= t.len()
    &&& forall|i: int|
        0 <= i < pattern.len() ==> same_letter(
            #[trigger] t[at + i],
            pattern[i],
            case_sensitive,
        )
}

/// To prepare a search changes nothing of what it looks at and how.
pub proof fn law_prepared_search(options: LogFilterSearchOptions, search: LogFilterSearch)
    requires
        call_ensures(LogFilterSearch::new, (options,), search),
    ensures
        search.options.fields == options.fields,
        search.options.options == options.options,
        options.options.case_sensitive ==> search.pattern() == options.search_pattern@,
        !options.options.case_sensitive ==> search.pattern() == lowercase_text(
            options.search_pattern@,
        ),
{
}

/// The time of a phase is added to the counter of that phase, and to no other.
pub proof fn law_timings(timings: &mut FilterTimings, phase: FilterPhase, us: u64)
    requires
        call_ensures(FilterTimings::add, (timings, phase, us), ()),
    ensures
        final(timings).calls == old(timings).calls,
        final(timings).mailmap_us == if phase is Mailmap {
            old(timings).mailmap_us.wrapping_add(us)
        } else {
            old(timings).mailmap_us
        },
        final(timings).find_commit_us == if phase is FindCommit {
            old(timings).find_commit_us.wrapping_add(us)
        } else {
            old(timings).find_commit_us
        },
        final(timings).diff_us == if phase is Diff {
            old(timings).diff_us.wrapping_add(us)
        } else {
            old(timings).diff_us
        },
        final(timings).author_us == if phase is Author {
            old(timings).author_us.wrapping_add(us)
        } else {
            old(timings).author_us
        },
        final(timings).other_us == if phase is Other {
            old(timings).other_us.wrapping_add(us)
        } else {
            old(timings).other_us
        },
{
}

/// A call is counted once, and takes no time of any phase.
pub proof fn law_calls(timings: &mut FilterTimings)
    requires
        call_ensures(FilterTimings::called, (timings,), ()),
    ensures
        final(timings).calls == old(timings).calls.wrapping_add(1),
        final(timings).mailmap_us == old(timings).mailmap_us,
        final(timings).find_commit_us == old(timings).find_commit_us,
        final(timings).diff_us == old(timings).diff_us,
        final(timings).author_us == old(timings).author_us,
        final(timings).other_us == old(timings).other_us,
{
}

/// A diff has the file exactly if it has any file at all.
pub proof fn law_diff_contains_file(deltas: usize, r: bool)
    requires
        call_ensures(diff_contains_file, (deltas,), r),
    ensures
        r <==> deltas != 0,
{
}

/// A commit is found exactly if the pattern is found in a text that stands in a part of it
/// that the search looks at.
pub proof fn law_commit_is_found(filter: LogFilterSearch, commit: CommitFacts, r: bool)
    requires
        filter.fits_commit(commit),
        call_ensures(filter_commit_by_search, (&filter, &commit), r),
    ensures
        r <==> exists|t: Seq<char>|
            finds(filter.pattern(), filter.options.options, t) && #[trigger] in_searched_part(
                filter.options.fields,
                commit,
                t,
            ),
{
    if r {
        law_found_commits_have_the_text(filter, commit);
    }
    if exists|t: Seq<char>|
        finds(filter.pattern(), filter.options.options, t) && #[trigger] in_searched_part(
            filter.options.fields,
            commit,
            t,
        ) {
        let t = choose|t: Seq<char>|
            finds(filter.pattern(), filter.options.options, t) && #[trigger] in_searched_part(
                filter.options.fields,
                commit,
                t,
            );
        law_each_part_is_searched(filter, commit, t);
    }
}

} // verus!
