use gitui::async_reflog::FetchStatus;
use gitui::commit_files::CommitId;
use gitui::copy_path::{
    extension, file_name, file_stem, CopyPathKeys, CopyPathOffer, CopyPathPopup, CopyPathType,
};
use gitui::external_editor::{choose_editor, parse_args, EditorError, ExternalEditorPopup};
use gitui::layout::Area;
use gitui::msg::{wrap, MsgKeys, MsgOffer, MsgPopup, POPUP_HEIGHT};
use gitui::reflog_tab::{
    action_style, GitNotification, Reflog, ReflogAction, ReflogAreas, ReflogBody, ReflogEntry,
    ReflogKeys, ReflogOffer, ReflogRequest,
};
use gitui::selection::ScrollType;
use gitui::style::Color;
use gitui::themed::Role;
use gitui::version::get_version;
use ratatui::backend::TestBackend;
use ratatui::layout::Rect;
use ratatui::text::Line;
use ratatui::widgets::{Block, BorderType, Borders, Clear, Paragraph};
use ratatui::Terminal;

fn rect(area: Area) -> Rect {
    Rect::new(area.x, area.y, area.width, area.height)
}

/// When the buffer behind the popup is filled with wide characters, one that
/// sits just outside the popup must not reach into its border.
#[test]
fn msg_popup_left_border_survives_adjacent_wide_char() {
    let mut popup = MsgPopup::new();
    popup.show_info("复制完成：测试中文路径/文件.txt", "info".to_string());

    let backend = TestBackend::new(100, 30);
    let mut terminal = Terminal::new(backend).expect("create terminal");

    terminal
        .draw(|f| {
            for y in 0..f.area().height {
                for x in 0..f.area().width {
                    f.buffer_mut()[(x, y)].set_symbol("中");
                }
            }
            let width = popup.width(f.area().width);
            let area = Area {
                x: (f.area().width - width) / 2,
                y: (f.area().height - POPUP_HEIGHT) / 2,
                width,
                height: POPUP_HEIGHT,
            };
            assert_eq!(area, Area { x: 20, y: 2, width: 60, height: 25 });
            let lines = popup.msg_lines(area.width);
            let height = MsgPopup::height(f.area().height);
            let text: Vec<Line> = MsgPopup::scrolled_lines(&lines, 0, height)
                .iter()
                .map(|l| Line::from(l.text()))
                .collect();
            f.render_widget(Clear, rect(MsgPopup::clear_area(area)));
            let block = Block::default()
                .title(popup.title.clone())
                .borders(Borders::ALL)
                .border_type(BorderType::Thick);
            f.render_widget(Paragraph::new(text).block(block), rect(area));
        })
        .expect("terminal draw");

    let buf = terminal.backend().buffer();
    assert_eq!(
        buf[(20, 14)].symbol(),
        "┃",
        "left border must not be stomped by adjacent CJK"
    );
    assert_eq!(buf[(19, 14)].symbol(), " ", "cell adjacent to popup must be cleared");
    assert_eq!(
        buf[(79, 14)].symbol(),
        "┃",
        "right border must not be stomped by CJK content"
    );
}

#[test]
fn messages_are_measured_and_wrapped() {
    let mut popup = MsgPopup::new();
    popup.show_error("short", "error".to_string());
    assert_eq!(popup.width(200), 60);
    assert_eq!(popup.width(10), 60);
    popup.show_error(&"x".repeat(70), "error".to_string());
    assert_eq!(popup.width(200), 72);
    assert_eq!(popup.width(65), 65);
    assert_eq!(popup.msg_lines(62), vec!["x".repeat(60), "x".repeat(10)]);
    assert_eq!(wrap("We need an example", 15), "We need an exam\nple");
    assert_eq!(wrap("", 3), "");
    // wide characters that do not fill a line
    assert_eq!(wrap("中中中", 3), "中\n中\n中");
    assert_eq!(MsgPopup::height(30), 23);
    assert_eq!(MsgPopup::height(10), 8);
    assert_eq!(MsgPopup::height(1), 0);
    let lines: Vec<String> = vec!["a".to_string(), "b".to_string(), "c".to_string()];
    let seen: Vec<String> =
        MsgPopup::scrolled_lines(&lines, 1, 5).iter().map(|l| l.text()).collect();
    assert_eq!(seen, vec!["b", "c"]);
    let corner = Area { x: 0, y: 0, width: u16::MAX, height: 3 };
    assert_eq!(
        MsgPopup::clear_area(corner),
        Area { x: 0, y: 0, width: u16::MAX, height: 5 }
    );
}

#[test]
fn keys_of_the_message() {
    let none = MsgKeys {
        exit_popup: false,
        move_down: false,
        popup_down: false,
        move_up: false,
        popup_up: false,
    };
    let mut popup = MsgPopup::new();
    assert_eq!(popup.event(Some(none)), (false, None));
    popup.show_info("x", "info".to_string());
    assert!(popup.commands()[0].available && popup.commands()[0].offer == MsgOffer::Close);
    assert_eq!(popup.event(Some(none)), (true, None));
    assert_eq!(
        popup.event(Some(MsgKeys { popup_down: true, ..none })),
        (true, Some(ScrollType::Down))
    );
    assert_eq!(
        popup.event(Some(MsgKeys { move_up: true, ..none })),
        (true, Some(ScrollType::Up))
    );
    assert_eq!(popup.event(Some(MsgKeys { exit_popup: true, ..none })), (true, None));
    assert!(!popup.is_visible());
}

#[test]
fn parts_of_a_path_are_those_of_std() {
    for path in [
        "", "a", "a.b", "a.b.c", "d/a.rs", "d/", "d/.", "d/..", "..", ".", "/", ".hidden",
        "x/.hidden.txt", "a.", "./a", "/a//b", "a/./b.tar.gz", "...", "..a",
        "src\\a.rs", "d/a:b.rs", "C:a.rs", "//s/t", "//s/t/a.rs",
        "logs/12:30.txt", "a:", ":a.b", "//./d/a.rs", "//?/a.rs",
    ] {
        let p = std::path::Path::new(path);
        let name = file_name(path);
        let expected = p.file_name().map(|f| f.to_string_lossy().into_owned());
        assert_eq!(name, expected.unwrap_or_default(), "{}", path);
        let expected = p.file_stem().map(|f| f.to_string_lossy().into_owned());
        assert_eq!(file_stem(&name), expected.unwrap_or_default(), "{}", path);
        let expected = p.extension().map(|f| f.to_string_lossy().into_owned());
        assert_eq!(extension(&name), expected.unwrap_or_default(), "{}", path);
    }
}

#[test]
fn what_can_be_copied() {
    let mut popup = CopyPathPopup::new();
    assert!(!popup.is_visible());
    popup.open("src/main.rs".to_string(), "/w/src/main.rs".to_string(), None);
    assert!(popup.is_visible());
    assert_eq!(popup.value(CopyPathType::Filename), "main.rs");
    assert_eq!(popup.value(CopyPathType::Basename), "main");
    assert_eq!(popup.value(CopyPathType::Extension), "rs");
    popup.open("logs/12:30.txt".to_string(), "/w/logs/12:30.txt".to_string(), None);
    assert_eq!(popup.value(CopyPathType::Filename), "12:30.txt");
    assert_eq!(popup.value(CopyPathType::Basename), "12:30");
    assert_eq!(popup.value(CopyPathType::Extension), "txt");
    assert_eq!(popup.available_types().len(), 5);
    popup.previous_kind();
    assert_eq!(popup.kind, CopyPathType::Extension);
    popup.next_kind();
    assert_eq!(popup.kind, CopyPathType::Relative);
    popup.open("a.txt".to_string(), "/w/a.txt".to_string(), Some("x\ny\n".to_string()));
    popup.previous_kind();
    assert_eq!(popup.kind, CopyPathType::Content);
    let lines: Vec<String> = popup.get_text().iter().map(|l| l.text()).collect();
    assert_eq!(lines.len(), 6);
    assert_eq!(lines[0], "    Relative:   a.txt");
    assert_eq!(lines[5], ">   Content:    (2 lines)");
    assert_eq!(popup.get_text()[5].spans[0].role, Role::Text { enabled: true, selected: true });
    let request = popup.copy_selected();
    assert_eq!((request.text.as_str(), request.label.as_str()), ("x\ny\n", "a.txt"));
    assert!(!popup.is_visible());
    // a kind that is not there stays
    popup.content = None;
    popup.next_kind();
    assert_eq!(popup.kind, CopyPathType::Content);
    assert_eq!(CopyPathType::Absolute.label(), "  Absolute:   ");
}

#[test]
fn keys_of_the_copy_popup() {
    let none = CopyPathKeys {
        exit_popup: false,
        move_down: false,
        popup_down: false,
        move_up: false,
        popup_up: false,
        enter: false,
    };
    let mut popup = CopyPathPopup::new();
    assert!(popup.commands(false).is_empty());
    assert_eq!(popup.commands(true)[2], CopyPathOffer::ChangeType);
    assert!(!popup.event(Some(none)).0);
    popup.open("d/f.rs".to_string(), "/d/f.rs".to_string(), None);
    assert!(popup.event(Some(CopyPathKeys { popup_down: true, ..none })).0);
    assert_eq!(popup.kind, CopyPathType::Absolute);
    popup.event(Some(CopyPathKeys { move_up: true, ..none }));
    let (used, request) = popup.event(Some(CopyPathKeys { enter: true, ..none }));
    assert!(used && !popup.is_visible());
    assert_eq!(request.unwrap().label, "d/f.rs");
    popup.show();
    popup.event(Some(CopyPathKeys { exit_popup: true, enter: true, ..none }));
    assert!(!popup.is_visible());
}

#[test]
fn command_lines_are_split() {
    assert_eq!(parse_args("vim -f"), vec!["vim", "-f"]);
    assert_eq!(parse_args("  'a b'\t\"c \\\" d\" e\\ f\n"), vec!["a b", "c \" d", "e f"]);
    assert_eq!(parse_args("'it''s' x\\"), vec!["its", "x"]);
    assert_eq!(parse_args("'\\' \"\" ''"), vec!["\\"]);
    assert_eq!(parse_args("a'b\"c'd"), vec!["ab\"cd"]);
    assert!(parse_args(" \r\n").is_empty());
}

#[test]
fn command_lines_join() {
    let join = |a: &str, b: &str| {
        let mut both = parse_args(a);
        both.extend(parse_args(b));
        (parse_args(&format!("{} {}", a, b)), both)
    };
    for (a, b) in [("vim -f", "'x y'"), ("a\\ ", "b"), ("\"q\\\"\"", "c\\"), ("", "d 'e")] {
        let (whole, parts) = join(a, b);
        assert_eq!(whole, parts);
    }
    // behind an open quote or a backslash the gap is no gap
    assert_eq!(join("'a", "b'").0, vec!["a b"]);
    assert_eq!(join("a\\", "b").0, vec!["a b"]);
    let args = ["a b", "\\", "\"", "\n"];
    let line: Vec<String> = args.iter().map(|a| format!("'{}'", a)).collect();
    assert_eq!(parse_args(&line.join(" ")), args);
}

#[test]
fn the_editor_of_the_user() {
    let s = |t: &str| Some(t.to_string());
    assert_eq!(choose_editor(s("a"), s("b"), s("c")), "a");
    assert_eq!(choose_editor(None, s("b"), s("c")), "b");
    assert_eq!(choose_editor(None, None, s("c")), "c");
    assert_eq!(choose_editor(None, None, None), "vi");
    let command =
        ExternalEditorPopup::open_file_in_editor(None, s("code --wait 'x y'"), None, "/f").unwrap();
    assert_eq!(command.program, "code");
    assert_eq!(command.args, vec!["--wait", "x y", "/f"]);
    let empty = ExternalEditorPopup::open_file_in_editor(s(" "), s("vim"), None, "/f");
    assert_eq!(empty.err(), Some(EditorError::Empty));
    assert_eq!(
        EditorError::Empty.text(),
        "editor env variable found empty: GIT_EDITOR or EDITOR"
    );
    let mut popup = ExternalEditorPopup::new();
    assert!(popup.draw("x").is_none() && !popup.event() && !popup.clears_commands(false));
    popup.show();
    assert_eq!(popup.draw("opening\neditor").unwrap().spans.len(), 2);
    assert!(popup.event() && popup.clears_commands(false) && !popup.clears_commands(true));
    popup.close();
    assert!(!popup.is_visible());
}

fn entry(n: u32) -> ReflogEntry {
    ReflogEntry {
        new_oid: CommitId { high: 0, low: n },
        hash: format!("hash{}", n),
        short_hash: format!("h{}", n),
        time: "now".to_string(),
        committer: "me".to_string(),
        action: ReflogAction::Rebase,
        action_name: "rebase".to_string(),
        message: "msg".to_string(),
        commit_subject: "subject".to_string(),
    }
}

fn entries(n: u32) -> Vec<ReflogEntry> {
    (0..n).map(|i| entry(i)).collect()
}

fn tab_keys() -> ReflogKeys {
    ReflogKeys {
        switch_tab: false,
        exit_popup: false,
        enter: false,
        move_up: false,
        move_down: false,
        home: false,
        end: false,
        page_up: false,
        page_down: false,
        move_right: false,
        copy: false,
    }
}

#[test]
fn the_log_is_taken_over() {
    let mut tab = Reflog::new();
    assert!(tab.update(FetchStatus::Started, entries(3), true).is_none());
    assert!(tab.entries.is_empty());
    tab.show();
    assert_eq!(
        tab.update(FetchStatus::NoChange, entries(3), true),
        Some(CommitId { high: 0, low: 0 })
    );
    tab.selected = 2;
    tab.update(FetchStatus::NoChange, entries(2), false);
    assert_eq!((tab.entries.len(), tab.selected), (2, 1));
    tab.update(FetchStatus::Started, Vec::new(), false);
    assert_eq!((tab.entries.len(), tab.selected), (0, 1));
    // the selection is reset on the first load only
    tab.update(FetchStatus::Pending, entries(5), false);
    assert_eq!((tab.entries.len(), tab.selected), (5, 1));
    tab.selected = 3;
    tab.update(FetchStatus::Started, entries(5), false);
    assert_eq!((tab.entries.len(), tab.selected), (5, 3));
    tab.update(FetchStatus::Started, entries(2), false);
    assert_eq!((tab.entries.len(), tab.selected), (2, 1));
    let mut fresh = Reflog::new();
    fresh.show();
    fresh.selected = 4;
    fresh.update(FetchStatus::Started, entries(6), false);
    assert_eq!((fresh.selected, fresh.loaded), (0, true));
    assert!(tab.update_git(GitNotification::CommitFiles) && !tab.update_git(GitNotification::Other));
    assert!(Reflog::any_work_pending(false, true) && !Reflog::any_work_pending(false, false));
}

#[test]
fn the_selection_goes_faster() {
    let mut tab = Reflog::new();
    tab.show();
    tab.update(FetchStatus::NoChange, entries(20), false);
    tab.resize(Area { x: 0, y: 0, width: 80, height: 8 });
    assert!(tab.move_selection(ScrollType::Down, 0));
    assert_eq!(tab.selected, 1);
    tab.move_selection(ScrollType::Down, 4);
    assert_eq!(tab.selected, 5);
    tab.move_selection(ScrollType::PageDown, 4);
    assert_eq!(tab.selected, 10);
    tab.move_selection(ScrollType::Down, i64::MAX);
    assert_eq!(tab.selected, 19);
    assert!(!tab.move_selection(ScrollType::End, 1));
    tab.move_selection(ScrollType::Up, -3);
    assert_eq!(tab.selected, 18);
    tab.move_selection(ScrollType::PageUp, 1);
    assert_eq!(tab.selected, 13);
    tab.move_selection(ScrollType::Home, 1);
    assert_eq!(tab.selected, 0);
    assert_eq!(tab.title("Reflog"), "Reflog 20/20");
}

#[test]
fn the_table_of_the_log() {
    let mut tab = Reflog::new();
    match tab.draw_table(0, 5, true) {
        ReflogBody::Note(text) => assert_eq!(text, "Loading..."),
        ReflogBody::Rows(_) => panic!("no rows expected"),
    }
    match tab.draw_table(0, 5, false) {
        ReflogBody::Note(text) => assert_eq!(text, "No reflog entries"),
        ReflogBody::Rows(_) => panic!("no rows expected"),
    }
    tab.show();
    tab.update(FetchStatus::NoChange, entries(4), false);
    tab.selected = 2;
    match tab.draw_table(1, 2, true) {
        ReflogBody::Rows(rows) => {
            assert_eq!(rows.len(), 2);
            let cells: Vec<&str> = rows[1].cells.iter().map(|c| c.content.as_str()).collect();
            assert_eq!(cells, vec!["h2", "now", "me", "rebase", "msg", "subject"]);
            assert_eq!(rows[1].cells[0].role, Role::CommitHash { selected: true });
            assert_eq!(rows[0].cells[4].role, Role::Text { enabled: false, selected: false });
            assert_eq!(rows[1].cells[4].role, Role::Text { enabled: true, selected: true });
        }
        ReflogBody::Note(_) => panic!("rows expected"),
    }
    let style = action_style(ReflogAction::Merge, true);
    assert_eq!((style.fg, style.bg), (Some(Color::LightMagenta), Some(Color::Blue)));
    assert!(style.add_modifier.bold);
    assert_eq!(action_style(ReflogAction::Unknown, false).bg, None);
    let area = Area { x: 0, y: 0, width: 100, height: 10 };
    assert_eq!(tab.draw(area, false, 60), ReflogAreas::Table(area));
    match tab.draw(area, true, 60) {
        ReflogAreas::Split(left, right) => {
            assert_eq!((left.width, right.x, right.width), (60, 60, 40));
        }
        _ => panic!("two areas expected"),
    }
    tab.close();
    assert_eq!(tab.draw(area, false, 60), ReflogAreas::Nothing);
}

#[test]
fn keys_of_the_log() {
    let mut tab = Reflog::new();
    let none = tab_keys();
    assert!(!tab.event(Some(none), false, false, 1).consumed);
    assert!(tab.commands(false, true).is_empty());
    tab.show();
    tab.update(FetchStatus::NoChange, entries(3), false);
    assert!(!tab.event(Some(ReflogKeys { switch_tab: true, ..none }), false, true, 1).consumed);
    assert!(tab.event(None, false, false, 1).consumed);
    assert!(tab.event(Some(ReflogKeys { move_down: true, ..none }), true, true, 1).consumed);
    assert_eq!(tab.selected, 0);
    let moved = tab.event(Some(ReflogKeys { move_down: true, ..none }), false, true, 1);
    assert!(matches!(moved.request, ReflogRequest::Details(CommitId { high: 0, low: 1 })));
    assert!(tab.scrolls(Some(ReflogKeys { home: true, ..none }), false));
    assert!(!tab.scrolls(Some(ReflogKeys { home: true, ..none }), true));
    let enter = ReflogKeys { enter: true, ..none };
    assert!(matches!(
        tab.event(Some(enter), false, false, 1).request,
        ReflogRequest::ShowDetails(CommitId { high: 0, low: 1 })
    ));
    assert!(matches!(tab.event(Some(enter), false, true, 1).request, ReflogRequest::HideDetails));
    let exit = ReflogKeys { exit_popup: true, ..none };
    assert!(matches!(tab.event(Some(exit), false, false, 1).request, ReflogRequest::Nothing));
    let right = ReflogKeys { move_right: true, copy: true, ..none };
    assert!(matches!(tab.event(Some(right), false, true, 1).request, ReflogRequest::Inspect(_)));
    match tab.event(Some(right), false, false, 1).request {
        ReflogRequest::Copy(text) => assert_eq!(text, "hash1"),
        _ => panic!("nothing was copied"),
    }
    let offers: Vec<(ReflogOffer, bool)> =
        tab.commands(false, false).iter().map(|c| (c.offer, c.available)).collect();
    assert_eq!(
        offers,
        vec![
            (ReflogOffer::Navigate, true),
            (ReflogOffer::ToggleDetails, true),
            (ReflogOffer::OpenDetails, false),
            (ReflogOffer::CopyHash, true),
        ]
    );
}

#[test]
fn the_name_of_a_build() {
    let bytes = |s: &str| s.as_bytes().to_vec();
    assert_eq!(get_version(&None, &bytes("v0.28.0-3-gabc\nmore\n")), "0.28.0-3-gabc");
    assert_eq!(get_version(&None, &bytes("  vv1 \r\n")), "1");
    assert_eq!(get_version(&None, &bytes("")), "unknown");
    assert_eq!(get_version(&None, &bytes(" \n1.0\n")), "unknown");
    assert_eq!(get_version(&Some("0123456789".to_string()), &bytes("v1.0")), "0123456");
}

#[test]
fn columns_share_the_width() {
    let mut tab = Reflog::new();
    tab.show();
    let mut sizes: Vec<(u16, u16)> = Vec::new();
    for width in 0..=200 {
        sizes.push((3, width));
    }
    for width in [997, 4001, 12345, 32767, 65533] {
        sizes.push((2, width));
    }
    sizes.push((65535, 0));
    sizes.push((60000, 5535));
    for (x, width) in sizes {
        for percent in 0..=100u16 {
            let area = Area { x, y: 1, width, height: 7 };
            let first = ((width as u32 * percent as u32 + 50) / 100) as u16;
            let left = Area { width: first, ..area };
            let right = Area { x: x + first, width: width - first, ..area };
            assert_eq!(tab.draw(area, true, percent), ReflogAreas::Split(left, right));
        }
    }
}

#[test]
fn wrapped_lines_fit() {
    let texts = [
        "",
        "\n",
        "\n\n",
        "\nab",
        "a\n\nb",
        "a b  c   d    e",
        "one line that is long enough to be broken more than once",
        "first line of some length\nsecond\n\n   third line, indented and long\n",
    ];
    for text in texts {
        for width in 1..20 {
            let wrapped = wrap(text, width);
            assert!(wrapped.lines().all(|line| line.len() <= width), "{text:?} {width}");
            assert_eq!(wrapped.replace('\n', ""), text.replace('\n', ""));
        }
    }
}

#[test]
fn wrapping_keeps_every_character() {
    let texts = [
        "\u{4e2d}",
        "a\u{4e2d}b\u{6587}c",
        "\u{4e2d}\u{6587}\u{4e2d}\u{6587}\u{4e2d}\u{6587}",
        "ab\n\u{4e2d}\u{6587}\n\ncd\u{4e2d}",
        "\n\u{4e2d}e\u{301}x\u{1f600}\u{200b}y\tz\r\n\u{e4}\u{f6}",
        "\u{1f468}\u{200d}\u{1f469}\u{200d}\u{1f467} family and \u{1f1e9}\u{1f1ea} flag",
        "mixed \u{4e2d}\u{6587} text with \u{1f600} signs\nand \u{4e2d} lines \u{6587}\u{6587}\u{6587}",
    ];
    for text in texts {
        for width in 1..30 {
            let wrapped = wrap(text, width);
            assert_eq!(wrapped.replace('\n', ""), text.replace('\n', ""), "{text:?} {width}");
        }
    }
}
