use gitui::diff::{DiffLine, DiffLinePosition, DiffLineType, FileDiff, Hunk};
use gitui::diff_view::{
    columns, get_line_to_add, get_text_binary, left_line, right_line, unified_text, Marked, RowLook,
    TextRules,
};
use gitui::hunks::{
    find_selected_hunk, hunk_offset, line_number_width, longest_line, selected_changes,
    selected_text,
};
use gitui::selection::{Direction, ScrollType, Selection};
use gitui::side_by_side::{
    find_hunk_of_row, hunk_visible, side_by_side_lines, side_by_side_rows, SideBySideLine,
};
use gitui::themed::{Role, ThemedLine};

fn cut(s: &String, n: usize) -> String {
    s.chars().skip(n).collect()
}

fn rules(line_break: &str) -> TextRules<fn(&String, usize) -> String> {
    TextRules { line_break: line_break.to_string(), tab: 2, trim: cut }
}

fn line(line_type: DiffLineType, content: &str, old: Option<u32>, new: Option<u32>) -> DiffLine {
    DiffLine {
        content: content.to_string(),
        line_type,
        position: DiffLinePosition { old_lineno: old, new_lineno: new },
    }
}

fn sample() -> FileDiff {
    let first = vec![
        line(DiffLineType::Header, "@@ -1,3 +1,3 @@", None, None),
        line(DiffLineType::Context, "a", Some(1), Some(1)),
        line(DiffLineType::Delete, "b", Some(2), None),
        line(DiffLineType::Add, "B", None, Some(2)),
        line(DiffLineType::Add, "new", None, Some(3)),
    ];
    let second = vec![
        line(DiffLineType::Header, "@@ -98,2 +99,1 @@", None, None),
        line(DiffLineType::Delete, "x", Some(98), None),
        line(DiffLineType::Delete, "\ty", Some(99), None),
        line(DiffLineType::Context, "z", Some(100), Some(99)),
    ];
    FileDiff {
        hunks: vec![
            Hunk { header_hash: 11, lines: first },
            Hunk { header_hash: 22, lines: second },
        ],
        lines: 9,
        untracked: false,
        sizes: (0, 0),
        size_delta: 0,
    }
}

fn marked(selection: Selection, hunk: Option<usize>) -> Marked {
    Marked { focused: true, selection, selected_hunk: hunk }
}

fn texts(lines: &Vec<ThemedLine>) -> Vec<String> {
    lines.iter().map(|l| l.text()).collect()
}

#[test]
fn test_line_break() {
    let diff_line = line(DiffLineType::Add, "", None, None);
    {
        let shown =
            get_line_to_add(4, &diff_line, false, false, false, &rules("¶"), 0, 1);
        let last = shown.spans.last().unwrap();
        assert_eq!(last.content, "¶\n");
        assert_eq!(
            last.role,
            Role::DiffLine { line_type: diff_line.line_type, selected: false }
        );
    }
    {
        let shown =
            get_line_to_add(4, &diff_line, false, false, false, &rules("+"), 0, 1);
        let last = shown.spans.last().unwrap();
        assert_eq!(last.content, "+\n");
        assert_eq!(
            last.role,
            Role::DiffLine { line_type: diff_line.line_type, selected: false }
        );
    }
}

#[test]
fn a_line_has_a_bar_numbers_and_text() {
    let l = line(DiffLineType::Context, "\tab", Some(7), Some(12));
    let shown = get_line_to_add(12, &l, true, true, false, &rules("¶"), 1, 2);
    assert_eq!(shown.spans[0].content, ratatui::symbols::line::VERTICAL);
    assert_eq!(shown.spans[0].role, Role::HunkMarker { selected: true });
    assert_eq!(shown.spans[1].content, " 7 12 ");
    assert_eq!(shown.spans[2].content, " ab   \n");
    let end = get_line_to_add(12, &l, false, false, true, &rules("¶"), 0, 2);
    assert_eq!(end.spans[0].content, ratatui::symbols::line::BOTTOM_LEFT);
    assert_eq!(end.spans[2].content, "  ab\n");
    let head = line(DiffLineType::Header, "@@", None, None);
    let top = get_line_to_add(12, &head, false, false, false, &rules("¶"), 0, 2);
    assert_eq!(top.spans[0].content, ratatui::symbols::line::TOP_LEFT);
    assert_eq!(top.spans[1].content, "      ");
}

#[test]
fn the_unified_view_shows_lines_in_a_row() {
    let file = sample();
    let none = marked(Selection::Single(0), None);
    let all = unified_text(&file, 40, 20, 0, 0, none, &rules("¶"));
    assert_eq!(all.len(), 9);
    // a hunk that begins right behind the window is left out
    let some = unified_text(&file, 40, 4, 1, 0, none, &rules("¶"));
    assert_eq!(texts(&some), texts(&all)[1..5].to_vec());
    // any other line behind the window is shown
    let more = unified_text(&file, 40, 3, 1, 0, none, &rules("¶"));
    assert_eq!(texts(&more), texts(&all)[1..5].to_vec());
    assert_eq!(unified_text(&file, 40, 0, 0, 0, none, &rules("¶")).len(), 0);
    let chosen = marked(Selection::Multiple(3, 2), Some(0));
    let shown = unified_text(&file, 40, 20, 0, 0, chosen, &rules("¶"));
    let selected: Vec<bool> = shown
        .iter()
        .map(|l| matches!(l.spans[2].role, Role::DiffLine { selected: true, .. }))
        .collect();
    assert_eq!(selected, vec![false, false, true, true, false, false, false, false, false]);
    assert_eq!(shown[4].spans[0].role, Role::HunkMarker { selected: true });
    assert_eq!(shown[5].spans[0].role, Role::HunkMarker { selected: false });
}

#[test]
fn a_binary_file_shows_its_sizes() {
    let mut file = sample();
    file.sizes = (1, 2048);
    file.size_delta = 2047;
    assert_eq!(get_text_binary(&file).text(), "size: 1 B -> 2.0 KiB (+2.0 KiB)");
    file.sizes = (100, 58);
    file.size_delta = -42;
    let shrunk = get_text_binary(&file);
    assert_eq!(shrunk.text(), "size: 100 B -> 58 B (-42 B)");
    assert_eq!(
        shrunk.spans[5].role,
        Role::DiffLine { line_type: DiffLineType::Delete, selected: false }
    );
}

#[test]
fn rows_pair_deleted_and_added_lines() {
    let file = sample();
    assert_eq!(side_by_side_rows(&file), 8);
    let rows = side_by_side_lines(&file, 0, 20, 2);
    assert_eq!(rows.len(), 8);
    let pair: &SideBySideLine = &rows[2];
    assert_eq!((pair.left_content.as_str(), pair.right_content.as_str()), ("b", "B"));
    assert_eq!((pair.left_line_num, pair.right_line_num), (Some(2), Some(2)));
    assert_eq!((pair.left_type, pair.right_type), (DiffLineType::Delete, DiffLineType::Add));
    let add = &rows[3];
    assert_eq!((add.left_content.as_str(), add.right_content.as_str()), ("", "new"));
    assert!(add.is_hunk_end && !add.is_hunk_start);
    let header = &rows[4];
    assert!(header.is_hunk_start);
    assert_eq!(header.hunk_idx, 1);
    assert_eq!(header.right_type, DiffLineType::Header);
    assert_eq!(rows[6].left_content, "  y");
    assert_eq!(rows[6].right_type, DiffLineType::Context);
    assert_eq!((rows[7].left_content.as_str(), rows[7].right_content.as_str()), ("z", "z"));
    // the rows are numbered, and each belongs to the hunk that holds its number
    for (k, row) in rows.iter().enumerate() {
        assert_eq!(row.global_line_idx, k);
        assert_eq!(find_hunk_of_row(&file, k), Some(row.hunk_idx));
    }
    // from the top, the rows in view are the first ones
    let first = side_by_side_lines(&file, 0, 2, 2);
    let numbers: Vec<usize> = first.iter().map(|r| r.global_line_idx).collect();
    assert_eq!(numbers, vec![0, 1, 2]);
}

#[test]
fn scrolling_shows_the_same_rows() {
    let file = sample();
    let all = side_by_side_lines(&file, 0, 20, 2);
    for top in 0..9 {
        for height in 0..9u16 {
            let rows = side_by_side_lines(&file, top, height, 2);
            let end = all.len().min(top + usize::from(height) + 1);
            let expected = &all[top.min(end)..end];
            assert_eq!(rows.len(), expected.len());
            for (row, same) in rows.iter().zip(expected) {
                assert_eq!(row.global_line_idx, same.global_line_idx);
                assert_eq!(row.hunk_idx, same.hunk_idx);
                assert_eq!(row.left_content, same.left_content);
                assert_eq!(row.right_content, same.right_content);
                assert_eq!(row.is_hunk_start, same.is_hunk_start);
                assert_eq!(row.is_hunk_end, same.is_hunk_end);
            }
        }
    }
    // a window that reaches past all numbers is as good as any other
    assert!(side_by_side_lines(&file, usize::MAX, 9, 2).is_empty());
    let shown = unified_text(&file, 80, 9, usize::MAX, 0, marked(Selection::Single(0), None), &rules(""));
    assert!(shown.is_empty());
    // a pair above the window counts for one row
    let rows = side_by_side_lines(&file, 3, 1, 2);
    let seen: Vec<(usize, String)> =
        rows.iter().map(|r| (r.global_line_idx, r.right_content.clone())).collect();
    assert_eq!(seen[0], (3, "new".to_string()));
    assert_eq!((seen.len(), seen[1].0), (2, 4));
    assert!(rows[1].is_hunk_start);
}

#[test]
fn a_pair_above_the_window_is_one_row() {
    let lines = vec![
        line(DiffLineType::Header, "@@ -1,3 +1,3 @@", None, None),
        line(DiffLineType::Delete, "a", Some(1), None),
        line(DiffLineType::Add, "b", None, Some(1)),
        line(DiffLineType::Context, "c", Some(2), Some(2)),
        line(DiffLineType::Context, "d", Some(3), Some(3)),
    ];
    let file = FileDiff {
        hunks: vec![Hunk { header_hash: 1, lines }],
        lines: 5,
        untracked: false,
        sizes: (0, 0),
        size_delta: 0,
    };
    let rows = side_by_side_lines(&file, 2, 1, 2);
    let seen: Vec<(usize, &str)> =
        rows.iter().map(|r| (r.global_line_idx, r.right_content.as_str())).collect();
    assert_eq!(seen, vec![(2, "c"), (3, "d")]);
}

#[test]
fn hunks_by_line_and_by_row() {
    let file = sample();
    assert_eq!(find_selected_hunk(&file, 4), Some(0));
    assert_eq!(find_selected_hunk(&file, 5), Some(1));
    assert_eq!(find_selected_hunk(&file, 9), None);
    assert_eq!(find_hunk_of_row(&file, 3), Some(0));
    assert_eq!(find_hunk_of_row(&file, 4), Some(1));
    assert_eq!(find_hunk_of_row(&file, 8), None);
    assert_eq!(hunk_offset(&file, 1), 5);
    assert!(hunk_visible(0, 5, 2, 3));
    assert!(hunk_visible(5, 9, 2, 5));
    assert!(!hunk_visible(6, 9, 2, 5));
    assert!(hunk_visible(0, 2, 2, 5));
    assert!(!hunk_visible(0, 1, 2, 5));
}

#[test]
fn widths_of_the_diff() {
    let file = sample();
    assert_eq!(line_number_width(&file), 3);
    assert_eq!(longest_line(&file, 2), "@@ -98,2 +99,1 @@".len() + 1);
    let empty = FileDiff { hunks: Vec::new(), lines: 0, untracked: false, sizes: (0, 0), size_delta: 0 };
    assert_eq!(line_number_width(&empty), 1);
    assert_eq!(longest_line(&empty, 2), 0);
}

#[test]
fn what_is_selected() {
    let file = sample();
    let selection = Selection::Multiple(4, 1);
    assert_eq!(selected_text(&file, selection), "a\nb\nB\nnew");
    let positions: Vec<(Option<u32>, Option<u32>)> =
        selected_changes(&file, selection).iter().map(|p| (p.old_lineno, p.new_lineno)).collect();
    assert_eq!(positions, vec![(Some(2), None), (None, Some(2)), (None, Some(3))]);
}

#[test]
fn the_two_sides_of_a_row() {
    let file = sample();
    let rows = side_by_side_lines(&file, 0, 20, 2);
    let look = RowLook { selected: true, hunk_selected: false, panel_width: 4, line_num_width: 3 };
    let left = left_line(&rows[3], look, 0, &rules("¶"));
    assert_eq!(left.text(), "└        \n");
    let right = right_line(&rows[3], look, 1, &rules("¶"));
    assert_eq!(right.text(), "└  3 ew  \n");
    let header = right_line(&rows[0], look, 0, &rules("¶"));
    assert_eq!(header.text(), "┌        \n");
    let (l, r) = columns(&rows, 10, 3, 0, marked(Selection::Single(2), Some(0)), &rules("¶"));
    assert_eq!(l.len(), 8);
    assert_eq!(r[2].spans[3].role, Role::DiffLine { line_type: DiffLineType::Add, selected: true });
    assert_eq!(l[2].spans[3].content, "b         \n");
    assert_eq!(l[1].spans[3].content, "a\n");
    assert_eq!(l[0].spans[0].role, Role::HunkMarker { selected: true });
}

#[test]
fn selections_move_and_grow() {
    let mut s = Selection::Single(3);
    assert!(s.contains(3) && !s.contains(4));
    s.modify(Direction::Up, 9);
    s.modify(Direction::Up, 9);
    assert_eq!(s, Selection::Multiple(3, 1));
    assert_eq!((s.get_start(), s.get_end(), s.get_top(), s.get_bottom()), (3, 1, 1, 3));
    assert!(s.contains(2) && !s.contains(0));
    let mut end = Selection::Single(9);
    end.modify(Direction::Down, 9);
    assert_eq!(end, Selection::Multiple(9, 9));
    let mut far = Selection::Single(usize::MAX);
    far.modify(Direction::Down, usize::MAX);
    assert_eq!(far.get_end(), usize::MAX);
    assert_eq!(s.moved(ScrollType::Down, 9, 5), 4);
    assert_eq!(s.moved(ScrollType::Up, 9, 5), 0);
    assert_eq!(s.moved(ScrollType::PageDown, 9, 5), 7);
    assert_eq!(s.moved(ScrollType::PageDown, 5, 5), 5);
    assert_eq!(s.moved(ScrollType::PageUp, 9, 0), 1);
    assert_eq!(s.moved(ScrollType::End, 9, 5), 9);
    assert_eq!(s.moved(ScrollType::Home, 9, 5), 0);
}
