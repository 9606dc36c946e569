use gitui::ansi::ansi_to_lines;
use gitui::delta::DiffType;
use gitui::diff::{DiffLine, DiffLinePosition, DiffLineType, FileDiff, Hunk};
use gitui::diff_actions::{DiffAction, DiffCommand, DiffKeys, DiffOffer};
use gitui::diff_component::{delta_missing_text, DiffComponent, DiffMode};
use gitui::diff_draw::DrawKind;
use gitui::diff_view::TextRules;
use gitui::layout::Area;
use gitui::selection::{Direction, HorizontalScrollType, ScrollType, Selection};

fn cut(s: &String, n: usize) -> String {
    s.chars().skip(n).collect()
}

fn rules() -> TextRules<fn(&String, usize) -> String> {
    TextRules { line_break: "¶".to_string(), tab: 2, trim: cut }
}

fn line(line_type: DiffLineType, content: &str, n: u32) -> DiffLine {
    let (old_lineno, new_lineno) = match line_type {
        DiffLineType::Add => (None, Some(n)),
        DiffLineType::Delete => (Some(n), None),
        DiffLineType::Header => (None, None),
        DiffLineType::Context => (Some(n), Some(n)),
    };
    DiffLine {
        content: content.to_string(),
        line_type,
        position: DiffLinePosition { old_lineno, new_lineno },
    }
}

fn sample() -> FileDiff {
    let hunk = |hash: u64, n: u32| Hunk {
        header_hash: hash,
        lines: vec![
            line(DiffLineType::Header, "@@", 0),
            line(DiffLineType::Delete, "old", n),
            line(DiffLineType::Add, "new", n),
        ],
    };
    FileDiff {
        hunks: vec![hunk(7, 1), hunk(8, 12)],
        lines: 6,
        untracked: false,
        sizes: (0, 0),
        size_delta: 0,
    }
}

fn shown(mode: DiffMode) -> DiffComponent {
    let mut c = DiffComponent::new(false, mode);
    c.focus(true);
    c.resize(42, 12);
    c.update("f".to_string(), false, sample(), DiffType::WorkDir, 1, 2);
    c
}

fn no_keys() -> DiffKeys {
    DiffKeys {
        move_down: false,
        shift_down: false,
        shift_up: false,
        end: false,
        home: false,
        move_up: false,
        page_up: false,
        page_down: false,
        move_right: false,
        move_left: false,
        diff_line_start: false,
        underscore: false,
        diff_line_end: false,
        diff_hunk_next: false,
        diff_hunk_prev: false,
        stage_unstage_item: false,
        status_reset_item: false,
        diff_stage_lines: false,
        diff_reset_lines: false,
        copy: false,
        diff_mode_toggle: false,
    }
}

#[test]
fn a_new_component_is_empty() {
    let mut c = DiffComponent::new(true, DiffMode::default());
    assert_eq!(c.current(), (String::new(), false));
    assert!(!c.can_scroll());
    assert_eq!(c.calc_hunk_move_target(1), None);
    assert_eq!(c.commands().len(), 6);
    c.move_selection(ScrollType::Down);
    assert_eq!(c.selection, Selection::Single(0));
    assert!(c.copy_selection().is_none());
}

#[test]
fn an_update_selects_a_line_and_its_hunk() {
    let mut c = shown(DiffMode::Unified);
    assert_eq!(c.current(), ("f".to_string(), false));
    assert_eq!(c.selection, Selection::Single(0));
    assert_eq!(c.selected_hunk, Some(0));
    assert_eq!(c.longest_line, 4);
    c.move_selection(ScrollType::End);
    assert_eq!((c.selection, c.selected_hunk), (Selection::Single(5), Some(1)));
    // the same diff changes nothing
    let same = c.update("g".to_string(), true, sample(), DiffType::Stage, 1, 2);
    assert!(!same.reset_scroll && !same.run_delta);
    assert_eq!(c.current(), ("f".to_string(), false));
    // another diff of the same file keeps the place
    let mut smaller = sample();
    smaller.hunks.pop();
    smaller.lines = 3;
    let kept = c.update("f".to_string(), false, smaller, DiffType::WorkDir, 2, 2);
    assert!(!kept.reset_scroll);
    assert_eq!((c.selection, c.selected_hunk), (Selection::Single(2), Some(0)));
    // another file begins at its top
    let other = c.update("g".to_string(), false, sample(), DiffType::WorkDir, 3, 2);
    assert!(other.reset_scroll);
    assert_eq!(c.selection, Selection::Single(0));
    c.clear(true);
    assert!(c.pending && c.diff.is_none() && c.selected_hunk.is_none());
}

#[test]
fn rows_are_fewer_than_lines() {
    let mut c = shown(DiffMode::SideBySide);
    assert_eq!(c.side_by_side_lines_count(), 4);
    c.move_selection(ScrollType::End);
    assert_eq!((c.selection, c.selected_hunk), (Selection::Single(3), Some(1)));
    c.move_selection(ScrollType::PageUp);
    assert_eq!((c.selection, c.selected_hunk), (Selection::Single(0), Some(0)));
}

#[test]
fn hunks_are_walked() {
    let mut c = shown(DiffMode::Unified);
    let area = c.diff_hunk_move_up_down(1).unwrap();
    assert_eq!((area.height, area.start, area.end), (10, 3, 6));
    assert_eq!((c.selection, c.selected_hunk), (Selection::Single(3), Some(1)));
    assert!(c.diff_hunk_move_up_down(1).is_none());
    assert_eq!(c.calc_hunk_move_target(-1), Some(0));
    assert_eq!(c.calc_hunk_move_target(isize::MIN), Some(0));
    assert_eq!(c.calc_hunk_move_target(isize::MAX), Some(1));
    c.diff_hunk_move_up_down(-1);
    assert_eq!(c.selected_hunk, Some(0));
}

#[test]
fn keys_stage_and_reset() {
    let mut c = shown(DiffMode::Unified);
    let mut stage = no_keys();
    stage.stage_unstage_item = true;
    match c.event(Some(stage)).action {
        DiffAction::StageHunk { path, hash } => assert_eq!((path.as_str(), hash), ("f", 7)),
        _ => panic!("hunk was not staged"),
    }
    let mut reset = no_keys();
    reset.status_reset_item = true;
    match c.event(Some(reset)).action {
        DiffAction::ConfirmResetHunk { path, hash } => assert_eq!((path.as_str(), hash), ("f", 7)),
        _ => panic!("hunk was not reset"),
    }
    c.selection = Selection::Multiple(1, 4);
    let mut lines = no_keys();
    lines.diff_stage_lines = true;
    match c.event(Some(lines)).action {
        DiffAction::StageLines { is_stage, lines, .. } => {
            assert!(!is_stage);
            let numbers: Vec<(Option<u32>, Option<u32>)> =
                lines.iter().map(|p| (p.old_lineno, p.new_lineno)).collect();
            assert_eq!(numbers, vec![(Some(1), None), (None, Some(1)), (Some(12), None)]);
        }
        _ => panic!("lines were not staged"),
    }
    let mut reset_lines = no_keys();
    reset_lines.diff_reset_lines = true;
    assert!(matches!(c.event(Some(reset_lines)).action, DiffAction::ConfirmResetLines { .. }));
    let mut copy = no_keys();
    copy.copy = true;
    match c.event(Some(copy)).action {
        DiffAction::Copy(text) => assert_eq!(text, "old\nnew\n@@\nold"),
        _ => panic!("nothing was copied"),
    }
    c.current.is_stage = true;
    assert!(matches!(c.event(Some(stage)).action, DiffAction::UnstageHunk { hash: 7, .. }));
    // what is staged cannot be reset
    assert!(!c.event(Some(reset)).consumed);
    c.is_immutable = true;
    assert!(!c.event(Some(stage)).consumed);
}

#[test]
fn files_that_git_does_not_know() {
    let mut c = shown(DiffMode::Unified);
    let mut file = sample();
    file.untracked = true;
    c.diff = Some(file);
    assert!(matches!(c.stage_hunk(), DiffAction::StageFile { .. }));
    assert!(matches!(c.stage_lines(), DiffAction::Nothing));
    let mut reset = no_keys();
    reset.status_reset_item = true;
    assert!(matches!(c.event(Some(reset)).action, DiffAction::ConfirmReset { .. }));
    c.selected_hunk = Some(9);
    c.diff = Some(sample());
    assert!(matches!(c.stage_hunk(), DiffAction::Refresh));
    assert!(matches!(c.unstage_hunk(), DiffAction::Nothing));
}

#[test]
fn the_first_binding_of_a_key_counts() {
    let mut c = shown(DiffMode::Unified);
    let mut keys = no_keys();
    keys.copy = true;
    keys.move_down = true;
    assert_eq!(c.command(keys), DiffCommand::Move(ScrollType::Down));
    let mut side = no_keys();
    side.underscore = true;
    let r = c.event(Some(side));
    assert!(r.consumed);
    assert!(matches!(r.action, DiffAction::Sideways(HorizontalScrollType::Home)));
    let mut grow = no_keys();
    grow.shift_down = true;
    c.event(Some(grow));
    assert_eq!(c.selection, Selection::Multiple(0, 1));
    assert!(!c.event(Some(no_keys())).consumed);
    assert!(!c.event(None).consumed);
    c.focus(false);
    assert!(!c.event(Some(keys)).consumed);
    assert_eq!(c.selection, Selection::Multiple(0, 1));
    c.modify_selection(Direction::Up);
    assert_eq!(c.selection, Selection::Multiple(0, 0));
}

#[test]
fn modes_follow_each_other() {
    let mut c = shown(DiffMode::Unified);
    assert!(!c.toggle_needs_delta());
    assert_eq!(c.toggle_diff_mode(false).mode, DiffMode::SideBySide);
    assert!(c.toggle_needs_delta());
    let missing = c.toggle_diff_mode(false);
    assert!(missing.delta_missing && !missing.run_delta);
    assert_eq!(missing.mode, DiffMode::Unified);
    assert!(delta_missing_text().starts_with("delta not found"));
    c.toggle_diff_mode(true);
    let delta = c.toggle_diff_mode(true);
    assert!(delta.run_delta);
    assert_eq!(c.diff_mode, DiffMode::Delta);
    assert_eq!(c.toggle_diff_mode(true).mode, DiffMode::DeltaSideBySide);
    assert_eq!(c.toggle_diff_mode(true).mode, DiffMode::Unified);
}

#[test]
fn the_preview_has_lines_of_its_own() {
    let mut c = shown(DiffMode::Unified);
    c.toggle_diff_mode(true);
    c.toggle_diff_mode(true);
    let text = "\u{2500}\u{2510}\n1\x1b[0m \u{22ee} \x1b[0m \x1b[0m\u{2502}\nb\n\u{2500}\u{2510}\nlonger line\n";
    c.set_delta_output(Some(ansi_to_lines(text)));
    assert_eq!(c.lines_count(), 5);
    c.move_selection(ScrollType::End);
    assert_eq!((c.selection, c.selected_hunk), (Selection::Single(4), Some(1)));
    c.move_selection(ScrollType::Home);
    let area = c.diff_hunk_move_up_down(1).unwrap();
    assert_eq!((area.start, area.end), (3, 5));
    c.selection = Selection::Multiple(0, 2);
    let lines: Vec<Option<u32>> = c.selected_lines().iter().map(|p| p.old_lineno).collect();
    assert_eq!(lines, vec![Some(1)]);
    // an update keeps the line as far as it is there
    c.selection = Selection::Single(4);
    let again = c.update("f".to_string(), false, sample(), DiffType::WorkDir, 5, 2);
    assert!(again.run_delta);
    c.delta_updated(Some(ansi_to_lines("a\nbcd\n")));
    assert_eq!(c.selection, Selection::Single(1));
    assert_eq!(c.longest_line, 3);
    assert_eq!(c.selected_hunk, Some(0));
    // the same diff again touches nothing of it
    let same = c.update("g".to_string(), true, sample(), DiffType::Stage, 5, 4);
    assert!(!same.reset_scroll && !same.run_delta && !c.pending);
    assert_eq!(c.current(), ("f".to_string(), false));
    assert_eq!((c.selection, c.longest_line, c.lines_count()), (Selection::Single(1), 3, 2));
    assert!(!c.delta_outdated());
    c.resize(80, 12);
    assert!(c.delta_outdated());
    c.delta_refreshed(None);
    assert!(!c.delta_outdated());
    assert_eq!(c.longest_line, 0);
    assert_eq!(c.draw_delta(5, 0, 0)[0].text(), "No delta output available.");
}

#[test]
fn what_is_drawn() {
    let mut c = shown(DiffMode::Unified);
    let plan = c.draw("Diff: ");
    assert_eq!(plan.kind, DrawKind::Unified);
    assert_eq!(plan.title, "Diff: f [1/2]");
    assert_eq!(plan.lines, 6);
    assert_eq!(plan.height, 10);
    // 40 columns, without two numbers of two digits and three more
    assert_eq!(plan.text_width, 33);
    assert!(plan.draw_vertical && !plan.draw_horizontal);
    let text = c.get_text(42, 10, 0, 0, &rules());
    assert_eq!(text.len(), 6);
    c.longest_line = 50;
    assert_eq!(c.max_scroll_right(), 17);
    c.toggle_diff_mode(true);
    let columns = c.draw("Diff: ");
    assert_eq!(columns.kind, DrawKind::SideBySide);
    assert_eq!(columns.title, "Diff: f");
    assert_eq!(columns.hunk_info, " [1/2]");
    assert_eq!(columns.text_width, 14);
    let titles = c.column_titles(&columns.title);
    assert_eq!(titles.left, "Diff: f [Old] [1/2]");
    assert_eq!(titles.right, "[New] [1/2]");
    let area = Area { x: 3, y: 1, width: 42, height: 12 };
    let ((left, left_text), (right, right_text)) =
        c.draw_side_by_side(area, 10, 0, 0, &rules());
    assert_eq!((left.x, left.width, right.x, right.width), (3, 21, 24, 21));
    assert_eq!((left.y, right.height), (1, 12));
    assert_eq!((left_text.len(), right_text.len()), (4, 4));
    c.pending = true;
    assert_eq!(c.draw("").kind, DrawKind::Loading);
}

#[test]
fn commands_are_offered() {
    let mut c = shown(DiffMode::Unified);
    let offers: Vec<DiffOffer> = c.commands().iter().map(|o| o.offer).collect();
    assert_eq!(offers.len(), 12);
    assert!(offers.contains(&DiffOffer::LinesRevert));
    assert!(c.commands()[3].hidden);
    assert!(c.commands()[1].enabled && !c.commands()[2].enabled);
    c.toggle_diff_mode(true);
    c.toggle_diff_mode(true);
    let preview: Vec<DiffOffer> = c.commands().iter().map(|o| o.offer).collect();
    assert!(!preview.contains(&DiffOffer::LinesRevert));
}
