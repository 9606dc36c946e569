use gitui::diff::{
    is_newline, new_file_content, raw_diff_to_file_diff, untracked_file_diff, untracked_path,
    ContentSource, DeltaFacts, DiffError, DiffLinePosition, DiffLineType, DiffOptions, FileDiff,
    FileKind, HunkHeader, RawLine,
};
use gitui::stage_untracked::{
    selected_content, stage_lines_untracked, stage_selected, StageError, FILE_MODE,
};

fn hash(h: &HunkHeader) -> u64 {
    (h.old_start as u64) * 1000 + h.new_start as u64
}

fn header(start: u32) -> HunkHeader {
    HunkHeader { old_start: start, old_lines: 1, new_start: start, new_lines: 1 }
}

fn raw(hunk: Option<HunkHeader>, origin: char, text: &str) -> RawLine {
    RawLine {
        sizes: (10, 25),
        hunk,
        origin,
        old_lineno: None,
        new_lineno: None,
        content: text.as_bytes().to_vec(),
    }
}

fn at(line: u32) -> DiffLinePosition {
    DiffLinePosition { old_lineno: None, new_lineno: Some(line) }
}

fn diff_of(content: &str) -> FileDiff {
    untracked_file_diff(&content.as_bytes().to_vec(), "new.txt", hash).unwrap()
}

#[test]
fn test_stage_lines_untracked() {
    let content = "line1\nline2\nline3\n";
    // Stage only line2
    let staged = stage_lines_untracked(
        &content.as_bytes().to_vec(),
        "/repo/new.txt",
        "new.txt",
        &vec![DiffLinePosition { old_lineno: None, new_lineno: Some(2) }],
    )
    .unwrap()
    .unwrap();
    assert_eq!(staged.path, "new.txt");
    assert_eq!(staged.mode, FILE_MODE);
    assert_eq!(staged.file_size, 6);

    // The staged diff should show line2 as an addition
    // diff.lines counts hunk header + content lines
    let diff = diff_of(&staged.content);
    assert_eq!(diff.lines, 2);
    assert_eq!(diff.hunks[0].lines[1].content, "line2");
}

#[test]
fn test_stage_all_lines_untracked() {
    let content = "line1\nline2\nline3\n";
    // Stage all lines
    let staged = stage_lines_untracked(
        &content.as_bytes().to_vec(),
        "/repo/new.txt",
        "new.txt",
        &vec![
            DiffLinePosition { old_lineno: None, new_lineno: Some(1) },
            DiffLinePosition { old_lineno: None, new_lineno: Some(2) },
            DiffLinePosition { old_lineno: None, new_lineno: Some(3) },
        ],
    )
    .unwrap()
    .unwrap();

    // The staged diff should show all 3 lines as additions
    // (header + 3 content lines)
    let staged_diff = diff_of(&staged.content);
    assert_eq!(staged_diff.lines, 4);

    // And no remaining unstaged changes
    assert_eq!(staged.content, content);
}

#[test]
fn staging_all_lines_gives_back_the_file() {
    let content = "\u{e4}\r\n\n\tz\u{4e2d}\n";
    let all = vec![at(1), at(2), at(3)];
    let bytes = content.as_bytes().to_vec();
    let staged = stage_lines_untracked(&bytes, "f", "f", &all).unwrap().unwrap();
    assert_eq!(staged.content, content);
    assert_eq!(staged.file_size as usize, bytes.len());
    // without a line feed at its end the file gets one
    let open = "a\nb".as_bytes().to_vec();
    let staged = stage_lines_untracked(&open, "f", "f", &all).unwrap().unwrap();
    assert_eq!(staged.content, "a\nb\n");
}

#[test]
fn staging_follows_the_file_and_not_the_selection() {
    let content = "a\nb\nc".as_bytes().to_vec();
    let twice = vec![at(3), at(1), at(3)];
    let staged = stage_lines_untracked(&content, "f", "f", &twice).unwrap().unwrap();
    assert_eq!(staged.content, "a\nc\n");
    let once = vec![at(1), at(3)];
    let again = stage_lines_untracked(&content, "f", "f", &once).unwrap().unwrap();
    assert_eq!(again.content, staged.content);
}

#[test]
fn a_number_selects_the_line_of_the_file() {
    let content = "a\n\nc\r\nd".as_bytes().to_vec();
    let expected = ["a\n", "\n", "c\r\n", "d\n"];
    let diff = diff_of("a\n\nc\r\nd");
    for (k, line) in expected.iter().enumerate() {
        let number = k as u32 + 1;
        let staged = stage_lines_untracked(&content, "f", "f", &vec![at(number)]);
        assert_eq!(staged.unwrap().unwrap().content, *line);
        assert_eq!(diff.hunks[0].lines[k + 1].position, at(number));
    }
    // a line that was there before is no added line
    let old = DiffLinePosition { old_lineno: Some(1), new_lineno: Some(1) };
    assert!(stage_lines_untracked(&content, "f", "f", &vec![old]).unwrap().is_none());
}

#[test]
fn nothing_selected_stages_nothing() {
    let content = "a\nb\n".as_bytes().to_vec();
    assert!(stage_lines_untracked(&content, "f", "f", &Vec::new()).unwrap().is_none());
    assert!(stage_lines_untracked(&content, "f", "f", &vec![at(7)]).unwrap().is_none());
}

#[test]
fn a_path_that_git_refuses_stages_nothing() {
    let content = "a\n".as_bytes().to_vec();
    let r = stage_lines_untracked(&content, "a\0b", "f", &vec![at(1)]);
    assert_eq!(r.err(), Some(StageError::Git));
    assert_eq!(
        untracked_file_diff(&content, "a\0b", hash).err(),
        Some(DiffError::Git)
    );
}

#[test]
fn only_added_lines_are_staged() {
    let mut add = raw(Some(header(1)), '+', "x\n\n");
    add.new_lineno = Some(1);
    let mut context = raw(Some(header(1)), ' ', "y\n");
    context.new_lineno = Some(2);
    let mut outside = raw(None, '+', "z\n");
    outside.new_lineno = Some(3);
    let lines = vec![add, context, outside];
    let all = vec![at(1), at(2), at(3)];
    assert_eq!(selected_content(&lines, &all), "x\n");
    let staged = stage_selected(&lines, "p", &all).unwrap().unwrap();
    assert_eq!(staged.file_size, 2);
}

#[test]
fn an_untracked_file_is_shown_as_added() {
    let diff = diff_of("test\nfoo");
    assert_eq!(diff.hunks.len(), 1);
    assert!(diff.untracked);
    assert_eq!(diff.hunks[0].lines[0].line_type, DiffLineType::Header);
    assert_eq!(diff.hunks[0].lines[1].content, "test");
    assert_eq!(diff.hunks[0].lines[1].line_type, DiffLineType::Add);
    assert_eq!(diff.hunks[0].lines[1].position, at(1));
    assert_eq!(diff.sizes, (0, 8));
    assert_eq!(diff.size_delta, 8);
}

#[test]
fn an_untracked_binary_file_tells_its_size() {
    let diff = untracked_file_diff(&vec![0x00, 0xc7], "bar", hash).unwrap();
    assert_eq!(diff.hunks.len(), 0);
    assert_eq!(diff.size_delta, 2);
    assert_eq!(diff.sizes, (0, 2));
}

#[test]
fn lines_are_sorted_into_hunks() {
    let lines = vec![
        raw(None, 'F', "diff --git\n"),
        raw(Some(header(1)), 'H', "@@\n"),
        raw(Some(header(1)), '-', "old\r\n"),
        raw(None, 'B', "odd\n"),
        raw(Some(header(1)), '+', "new\n"),
        raw(Some(header(9)), 'H', "@@\n"),
        raw(Some(header(9)), '>', "\n"),
    ];
    let diff = raw_diff_to_file_diff(&lines, false, hash);
    assert_eq!(diff.hunks.len(), 2);
    assert_eq!(diff.lines, 5);
    assert_eq!(diff.hunks[0].header_hash, 1001);
    assert_eq!(diff.hunks[1].header_hash, 9009);
    let contents: Vec<&str> =
        diff.hunks.iter().flat_map(|h| h.lines.iter()).map(|l| l.content.as_str()).collect();
    assert_eq!(contents, vec!["@@", "old", "new", "@@", ""]);
    assert_eq!(diff.hunks[0].lines[1].line_type, DiffLineType::Delete);
    assert_eq!(diff.hunks[1].lines[1].line_type, DiffLineType::Add);
    assert!(!diff.untracked);
    assert_eq!(diff.sizes, (10, 25));
    assert_eq!(diff.size_delta, 15);
    let empty = raw_diff_to_file_diff(&Vec::new(), false, hash);
    assert_eq!(empty.sizes, (0, 0));
    assert_eq!(empty.lines, 0);
}

#[test]
fn invalid_bytes_are_replaced() {
    let mut line = raw(Some(header(1)), '+', "");
    line.content = vec![b'a', 0xff, b'\n'];
    let diff = raw_diff_to_file_diff(&vec![line], false, hash);
    assert_eq!(diff.hunks[0].lines[0].content, "a\u{fffd}");
}

#[test]
fn origins_and_positions() {
    assert_eq!(DiffLineType::from_origin('H'), DiffLineType::Header);
    assert_eq!(DiffLineType::from_origin('<'), DiffLineType::Delete);
    assert_eq!(DiffLineType::from_origin('>'), DiffLineType::Add);
    assert_eq!(DiffLineType::from_origin(' '), DiffLineType::Context);
    assert_eq!(DiffLineType::default(), DiffLineType::Context);
    let mut line = raw(None, ' ', "");
    line.new_lineno = Some(4);
    assert!(at(4).is_at(&line));
    assert!(!at(5).is_at(&line));
    assert!(is_newline('\r') && is_newline('\n') && !is_newline(' '));
    let options = DiffOptions::default();
    assert_eq!((options.ignore_whitespace, options.context, options.interhunk_lines), (false, 3, 0));
}

#[test]
fn where_new_content_comes_from() {
    let facts = |untracked: bool, path: Option<&str>| DeltaFacts {
        untracked,
        new_path: path.map(|p| p.to_string()),
    };
    assert_eq!(untracked_path(&vec![facts(true, Some("a"))]), Ok(Some("a".to_string())));
    assert_eq!(untracked_path(&vec![facts(true, None)]), Err(DiffError::UnspecifiedPath));
    assert_eq!(untracked_path(&vec![facts(false, Some("a"))]), Ok(None));
    assert_eq!(untracked_path(&vec![facts(true, Some("a")), facts(true, Some("b"))]), Ok(None));
    assert_eq!(new_file_content(FileKind::Symlink), ContentSource::LinkTarget);
    assert_eq!(new_file_content(FileKind::Other), ContentSource::Bytes);
    assert_eq!(new_file_content(FileKind::Directory), ContentSource::Nothing);
    assert_eq!(new_file_content(FileKind::Missing), ContentSource::Nothing);
}
