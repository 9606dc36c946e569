use gitui::async_reflog::{
    git_dir, main_git_dir, reflog_path, AsyncReflog, AsyncReflogResult, FetchStatus, GitDir,
    PathFacts, ReflogFile,
};
use gitui::commit_files::{
    AsyncCommitFiles, CommitFilesParams, CommitId, FilesRead, FilesRequest, OldNew,
};
use gitui::commit_filter::{
    diff_contains_file, filter_commit_by_search, CommitFacts, DeltaPaths, FilterPhase,
    FilterTimings, LogFilterSearch, LogFilterSearchOptions, SearchFields, SearchOptions,
};
use gitui::diff::DiffOptions;
use gitui::linestats::{AsyncLineStats, LineStats, StatsRequest};

fn id(low: u32) -> CommitId {
    CommitId { high: 1, low }
}

fn params(low: u32) -> CommitFilesParams {
    CommitFilesParams::from(id(low))
}

#[test]
fn params_from_commits() {
    assert_eq!(params(3).other, None);
    assert_eq!(CommitFilesParams::from((id(1), id(2))).other, Some(id(2)));
    let from = CommitFilesParams::from(OldNew { old: id(1), new: id(2) });
    assert_eq!((from.id, from.other), (id(2), Some(id(1))));
}

#[test]
fn the_last_request_is_read_next() {
    let mut files: AsyncCommitFiles<u8> = AsyncCommitFiles::new();
    assert_eq!(files.fetch(params(1)), FilesRequest::Read(params(1)));
    assert!(files.is_pending());
    assert_eq!(files.fetch(params(2)), FilesRequest::Waiting);
    assert_eq!(files.fetch(params(3)), FilesRequest::Waiting);
    assert_eq!(files.fetched(params(1), vec![1]), FilesRead::Read(params(3)));
    assert!(files.is_pending());
    assert_eq!(files.fetched(params(3), vec![3, 3]), FilesRead::Notify);
    assert!(!files.is_pending());
    let (whose, what) = files.current().unwrap();
    assert_eq!((whose, what.clone()), (params(3), vec![3, 3]));
    assert_eq!(files.fetch(params(3)), FilesRequest::Known);
    assert_eq!(files.fetch(params(4)), FilesRequest::Read(params(4)));
    assert_eq!(files.fetched(params(4), vec![]), FilesRead::Notify);
}

#[test]
fn a_request_during_a_second_read_is_served() {
    let mut files: AsyncCommitFiles<u8> = AsyncCommitFiles::new();
    assert_eq!(files.fetch(params(1)), FilesRequest::Read(params(1)));
    assert_eq!(files.fetch(params(2)), FilesRequest::Waiting);
    assert_eq!(files.fetched(params(1), vec![1]), FilesRead::Read(params(2)));
    // the read of the second files is under way
    assert_eq!(files.fetch(params(3)), FilesRequest::Waiting);
    assert_eq!(files.fetched(params(2), vec![2]), FilesRead::Read(params(3)));
    assert!(files.is_pending());
    assert_eq!(files.fetched(params(3), vec![3]), FilesRead::Notify);
    assert!(!files.is_pending() && files.desired.is_none());
    let (whose, what) = files.current().unwrap();
    assert_eq!((whose, what.clone()), (params(3), vec![3]));
    assert_eq!(files.fetch(params(3)), FilesRequest::Known);
}

#[test]
fn stale_counts_answer_nothing() {
    let hash = |o: DiffOptions, generation: u64| o.context as u64 * 100 + generation;
    let mut stats = AsyncLineStats::new();
    let options = DiffOptions::default();
    let count = LineStats { staged: (1, 2), unstaged: (3, 4) };
    assert_eq!(stats.fetch(options, hash), StatsRequest::Count(300));
    assert_eq!(stats.fetch(options, hash), StatsRequest::Pending);
    stats.fetched(300, Some(count));
    assert_eq!(stats.last(), Some(count));
    assert!(!stats.is_pending());
    assert_eq!(stats.current, (300, Some(count)));
    // the next request is another one
    assert_eq!(stats.fetch(options, hash), StatsRequest::Count(301));
    stats.fetched(300, Some(LineStats::default()));
    assert_eq!(stats.current, (301, None));
    assert_eq!(stats.generation, 2);
    let again = stats.fetch(options, |_: DiffOptions, _: u64| 301);
    assert_eq!(again.known(), None);
    assert_eq!(again, StatsRequest::Known(None));
    // a count that fails is no answer either
    assert_eq!(stats.fetch(options, hash), StatsRequest::Count(302));
    stats.fetched(302, None);
    assert_eq!(stats.last(), Some(LineStats::default()));
}

#[test]
fn a_log_is_read_when_its_file_changed() {
    let mut log: AsyncReflog<u8> = AsyncReflog::new();
    assert_eq!(log.fetch(None), FetchStatus::Started);
    assert_eq!(log.request(Some(5)), FetchStatus::Pending);
    let told = log.fetched(Some(AsyncReflogResult { entries: vec![1, 2], duration: 9 }), Some(Some(5)));
    assert!(told && !log.is_pending());
    assert_eq!((log.count(), log.get_items().clone()), (2, vec![1, 2]));
    assert_eq!(log.fetch(Some(5)), FetchStatus::NoChange);
    assert_eq!(log.fetch(Some(4)), FetchStatus::Started);
    assert!(!log.fetched(None, Some(Some(4))));
    assert_eq!(log.reflog_mtime, Some(5));
    assert!(log.reflog_changed(None));
    // looking for updates asks as a request does
    assert_eq!(log.check_for_updates(Some(5)), FetchStatus::NoChange);
    assert_eq!(log.check_for_updates(Some(6)), FetchStatus::Started);
    assert_eq!(log.check_for_updates(Some(7)), FetchStatus::Pending);
    assert!(log.fetched(Some(AsyncReflogResult { entries: vec![3], duration: 1 }), Some(Some(7))));
    assert_eq!(log.check_for_updates(Some(7)), FetchStatus::NoChange);
}

#[test]
fn where_the_log_is() {
    let facts = PathFacts {
        has_dot_git: false,
        named_dot_git: false,
        has_extension: false,
        has_logs: true,
    };
    assert_eq!(git_dir(facts), GitDir::Itself);
    assert_eq!(git_dir(PathFacts { has_dot_git: true, ..facts }), GitDir::Inside);
    assert_eq!(git_dir(PathFacts { has_extension: true, ..facts }), GitDir::Inside);
    assert_eq!(
        git_dir(PathFacts { named_dot_git: true, has_extension: true, ..facts }),
        GitDir::Itself
    );
    assert_eq!(main_git_dir(true), GitDir::Inside);
    assert_eq!(main_git_dir(false), GitDir::Itself);
    assert_eq!(reflog_path(false, true, true), ReflogFile::Main);
    assert_eq!(reflog_path(true, true, true), ReflogFile::Own);
    assert_eq!(reflog_path(false, false, true), ReflogFile::Own);
    assert_eq!(reflog_path(false, true, false), ReflogFile::Own);
}

fn search(pattern: &str, case_sensitive: bool, fuzzy_search: bool) -> LogFilterSearch {
    LogFilterSearch::new(LogFilterSearchOptions {
        search_pattern: pattern.to_string(),
        fields: SearchFields::default(),
        options: SearchOptions { case_sensitive, fuzzy_search },
    })
}

#[test]
fn patterns_with_and_without_case() {
    let any = search("FiX", false, false);
    assert_eq!(any.options.search_pattern, "fix");
    assert!(any.match_text("Prefix") && any.match_text("FIXED"));
    assert!(search("ÄB", false, false).match_text("xäb"));
    let exact = search("FiX", true, false);
    assert!(exact.match_text("aFiXb") && !exact.match_text("fix"));
    assert!(search("", false, false).match_text(""));
    assert!(search("", false, true).match_text("abc"));
}

#[test]
fn fuzzy_patterns() {
    let fuzzy = search("fbr", false, true);
    assert!(fuzzy.match_text("Foo BaR") && !fuzzy.match_text("rbf"));
    let capital = search("FB", true, true);
    assert!(capital.match_text("FooBar") && !capital.match_text("foobar"));
    let small = search("fb", true, true);
    assert!(small.match_text("FooBar"));
    // whatever is found as it stands is found fuzzily
    assert!(search("oBa", true, true).match_text("FooBar"));
}

fn commit() -> CommitFacts {
    CommitFacts {
        summary: Some("one".to_string()),
        body: Some("two".to_string()),
        files: Some(vec![
            DeltaPaths { new_file: Some("three.rs".to_string()), old_file: None },
            DeltaPaths { new_file: None, old_file: Some("gone.rs".to_string()) },
        ]),
        author_email: None,
        author_name: Some("four".to_string()),
        short_hash: "abc".to_string(),
        full_hash: "abcdef".to_string(),
    }
}

#[test]
fn commits_are_found_by_their_parts() {
    let none = SearchFields {
        message_summary: false,
        message_body: false,
        filenames: false,
        authors: false,
        commit_hashes: false,
    };
    let finds = |pattern: &str, fields: SearchFields| {
        let mut s = search(pattern, false, false);
        s.options.fields = fields;
        filter_commit_by_search(&s, &commit())
    };
    assert!(finds("one", SearchFields::default()));
    assert!(!finds("two", SearchFields::default()));
    assert!(finds("two", SearchFields { message_body: true, ..none }));
    assert!(finds("three", SearchFields { filenames: true, ..none }));
    assert!(finds("gone", SearchFields { filenames: true, ..none }));
    assert!(finds("FOUR", SearchFields { authors: true, ..none }));
    assert!(finds("def", SearchFields { commit_hashes: true, ..none }));
    assert!(!finds("one", none));
    let mut unknown = commit();
    unknown.files = None;
    let mut s = search("three", false, false);
    s.options.fields = SearchFields { filenames: true, ..none };
    assert!(!filter_commit_by_search(&s, &unknown));
    assert!(diff_contains_file(1) && !diff_contains_file(0));
    let defaults = LogFilterSearchOptions::default();
    assert!(defaults.search_pattern.is_empty() && !defaults.options.fuzzy_search);
}

#[test]
fn timings_add_up() {
    let mut t = FilterTimings::default();
    t.called();
    t.add(FilterPhase::Diff, 3);
    t.add(FilterPhase::Diff, 4);
    t.add(FilterPhase::Other, u64::MAX);
    t.add(FilterPhase::Other, 2);
    t.add(FilterPhase::Mailmap, 1);
    t.add(FilterPhase::FindCommit, 2);
    t.add(FilterPhase::Author, 5);
    assert_eq!((t.calls, t.diff_us, t.other_us), (1, 7, 1));
    assert_eq!((t.mailmap_us, t.find_commit_us, t.author_us), (1, 2, 5));
}
