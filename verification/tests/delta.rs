use gitui::ansi::ansi_to_lines;
use gitui::delta::{
    delta_maps, delta_text, longest_preview_line, pad_line_bg, parse_delta_line_numbers,
    trim_line_offset, DeltaPhase, DeltaRequest, DeltaRun, DiffType, ProcessOutput,
};
use gitui::diff::{DiffLine, DiffLinePosition, DiffLineType, FileDiff, Hunk};
use gitui::style::{Color, Line, Span, Style};
use gitui::themed::Role;

fn run(diff_type: DiffType, work_dir: Option<&str>) -> DeltaRun {
    DeltaRun::new("f.rs".to_string(), diff_type, 10, false, work_dir.map(|d| d.to_string()))
}

fn out(code: i32, stdout: &str) -> Option<ProcessOutput> {
    Some(ProcessOutput { code: Some(code), stdout: stdout.as_bytes().to_vec() })
}

fn git(request: DeltaRequest) -> Vec<String> {
    match request {
        DeltaRequest::Git(args) => args,
        _ => panic!("no request to git"),
    }
}

fn done(request: DeltaRequest) -> Option<Vec<Line>> {
    match request {
        DeltaRequest::Done(lines) => lines,
        _ => panic!("not done"),
    }
}

fn plain(text: &str) -> Span {
    Span { content: text.to_string(), style: Style::unstyled() }
}

#[test]
fn arguments_of_git() {
    assert_eq!(git(run(DiffType::WorkDir, Some("/w")).begin()), vec!["diff", "f.rs"]);
    assert_eq!(git(run(DiffType::Stage, Some("/w")).begin()), vec!["diff", "--cached", "f.rs"]);
    assert_eq!(
        git(run(DiffType::Commit("abc".to_string()), Some("/w")).begin()),
        vec!["diff", "abc^..abc", "--", "f.rs"]
    );
    let both = DiffType::Commits { old: "a".to_string(), new: "b".to_string() };
    assert_eq!(git(run(both, Some("/w")).begin()), vec!["diff", "a", "b", "--", "f.rs"]);
}

#[test]
fn the_diff_goes_through_delta() {
    let mut r = run(DiffType::WorkDir, Some("/w"));
    r.begin();
    match r.next(out(0, "+x\n")) {
        DeltaRequest::Delta(args, input) => {
            assert_eq!(
                args,
                vec!["--width", "20", "--file-style", "omit", "--line-numbers"]
            );
            assert_eq!(input, b"+x\n".to_vec());
        }
        _ => panic!("delta was not asked"),
    }
    let lines = done(r.next(out(0, "\x1b[31mx\x1b[0m\n"))).unwrap();
    assert_eq!(lines.len(), 1);
    assert_eq!(lines[0].spans[0].style.fg, Some(Color::Red));
    assert_eq!(r.phase, DeltaPhase::Done);
}

#[test]
fn a_file_that_git_does_not_know() {
    let mut r = run(DiffType::WorkDir, Some("/w"));
    r.begin();
    assert_eq!(git(r.next(out(0, ""))), vec!["diff", "--no-index", "/dev/null", "f.rs"]);
    assert!(matches!(r.next(out(1, "+x\n")), DeltaRequest::Delta(_, _)));
    let mut other = run(DiffType::WorkDir, Some("/w"));
    other.begin();
    other.next(out(0, ""));
    assert!(done(other.next(out(2, "+x\n"))).is_none());
    let mut staged = run(DiffType::Stage, Some("/w"));
    staged.begin();
    assert!(done(staged.next(out(0, ""))).is_none());
}

#[test]
fn a_commit_without_parent() {
    let mut r = run(DiffType::Commit("abc".to_string()), Some("/w"));
    r.begin();
    assert_eq!(
        git(r.next(out(128, ""))),
        vec!["diff", "4b825dc642cb6eb9a060e54bf8d69288fbee4904", "abc", "--", "f.rs"]
    );
    assert!(matches!(r.next(out(0, "+x\n")), DeltaRequest::Delta(_, _)));
    let mut other = run(DiffType::WorkDir, Some("/w"));
    other.begin();
    assert!(done(other.next(out(128, ""))).is_none());
}

#[test]
fn the_work_tree_is_looked_for() {
    let mut r = run(DiffType::Stage, None);
    match r.begin() {
        DeltaRequest::FindWorkTree(args) => assert_eq!(args, vec!["rev-parse", "--show-toplevel"]),
        _ => panic!("git was not asked for the work tree"),
    }
    assert_eq!(git(r.next(out(0, " /work/tree\n"))), vec!["diff", "--cached", "f.rs"]);
    assert_eq!(r.work_dir.as_deref(), Some("/work/tree"));
    let mut lost = run(DiffType::Stage, None);
    lost.begin();
    assert!(done(lost.next(None)).is_none());
    let mut nothing = DeltaRun::new(String::new(), DiffType::Stage, 10, false, None);
    assert!(done(nothing.begin()).is_none());
}

fn position(old: Option<u32>, new: Option<u32>) -> DiffLinePosition {
    DiffLinePosition { old_lineno: old, new_lineno: new }
}

fn diff_line(line_type: DiffLineType, old: Option<u32>, new: Option<u32>) -> DiffLine {
    DiffLine { content: String::new(), line_type, position: position(old, new) }
}

fn gutter(old: &str, new: &str) -> Line {
    Line { spans: vec![plain(old), plain(" \u{22ee} "), plain(new), plain("\u{2502}"), plain("x")] }
}

#[test]
fn numbers_in_the_gutter() {
    assert_eq!(parse_delta_line_numbers(&gutter(" 3 ", "  12")), (Some(3), Some(12)));
    assert_eq!(parse_delta_line_numbers(&gutter("", " 4 ")), (None, Some(4)));
    assert_eq!(parse_delta_line_numbers(&gutter("+3", "4x")), (None, None));
    assert_eq!(parse_delta_line_numbers(&gutter("99999999999", "1")), (None, Some(1)));
    let short = Line { spans: vec![plain("1"), plain("\u{22ee}"), plain("2")] };
    assert_eq!(parse_delta_line_numbers(&short), (None, None));
    let other = Line { spans: vec![plain("1"), plain("|"), plain("2"), plain("x")] };
    assert_eq!(parse_delta_line_numbers(&other), (None, None));
}

#[test]
fn lines_of_the_preview_stand_for_lines_of_the_diff() {
    let hunk = Hunk {
        header_hash: 1,
        lines: vec![
            diff_line(DiffLineType::Header, None, None),
            diff_line(DiffLineType::Context, Some(1), Some(1)),
            diff_line(DiffLineType::Delete, Some(2), None),
            diff_line(DiffLineType::Add, None, Some(2)),
            diff_line(DiffLineType::Context, Some(3), Some(2)),
        ],
    };
    let file = FileDiff {
        hunks: vec![hunk],
        lines: 5,
        untracked: false,
        sizes: (0, 0),
        size_delta: 0,
    };
    let rule = Line { spans: vec![plain("\u{2500}\u{2500}\u{2510} ")] };
    let second = Line { spans: vec![plain("\u{2500}\u{2510}")] };
    let lines = vec![
        gutter("", ""),
        rule,
        gutter("2", ""),
        gutter("", "2"),
        gutter("1", "1"),
        second,
        gutter("3", ""),
        gutter("", "9"),
    ];
    let (hunks, positions) = delta_maps(&lines, &Some(file));
    assert_eq!(hunks, vec![0, 0, 0, 0, 0, 1, 1, 1]);
    assert_eq!(positions[0], None);
    assert_eq!(positions[2], Some(position(Some(2), None)));
    // an added line goes before an unchanged one with the same number
    assert_eq!(positions[3], Some(position(None, Some(2))));
    assert_eq!(positions[4], Some(position(Some(1), Some(1))));
    assert_eq!(positions[6], Some(position(Some(3), Some(2))));
    assert_eq!(positions[7], None);
    let (_, none) = delta_maps(&lines, &None);
    assert!(none.iter().all(|p| p.is_none()));
}

#[test]
fn lines_scroll_sideways() {
    let line = Line { spans: vec![plain("ab"), plain(""), plain("cde")] };
    assert_eq!(trim_line_offset(&line, 0).spans.len(), 3);
    let cut = trim_line_offset(&line, 1);
    let pieces: Vec<&str> = cut.spans.iter().map(|s| s.content.as_str()).collect();
    assert_eq!(pieces, vec!["b", "cde"]);
    assert_eq!(trim_line_offset(&line, 3).text(), "de");
    assert_eq!(trim_line_offset(&line, 9).spans.len(), 0);
}

#[test]
fn backgrounds_reach_to_the_edge() {
    let mut colored = plain("ab");
    colored.style = colored.style.bg(Color::Green);
    let padded = pad_line_bg(Line { spans: vec![plain("x"), colored] }, 6);
    assert_eq!(padded.text(), "xab   ");
    let bare = pad_line_bg(Line { spans: vec![plain("x")] }, 6);
    assert_eq!(bare.text(), "x");
}

#[test]
fn the_preview_marks_the_cursor() {
    let lines = ansi_to_lines("one\ntwo\nthree\nfour");
    assert_eq!(longest_preview_line(&lines), 5);
    let shown = delta_text(&Some(lines), 1, 2, 1, 6, 2);
    assert_eq!(shown.len(), 2);
    assert_eq!(shown[0].text(), "wo");
    assert_eq!(shown[1].text(), "hree  ");
    assert_eq!(shown[1].spans[0].role, Role::Text { enabled: true, selected: true });
    assert_eq!(shown[0].spans[0].role, Role::Styled(Style::unstyled()));
    let none = delta_text(&None, 0, 5, 0, 6, 0);
    assert_eq!(none[0].text(), "No delta output available.");
}
