use gitui::ansi::{ansi_bright_color, ansi_standard_color, ansi_to_lines, apply_sgr, parse_extended_color};
use gitui::style::{Color, Modifier, Style};

#[test]
fn test_plain_text() {
    let lines = ansi_to_lines("hello world");
    assert_eq!(lines.len(), 1);
    let spans = &lines[0].spans;
    assert_eq!(spans.len(), 1);
    assert_eq!(spans[0].content.as_str(), "hello world");
}

#[test]
fn test_multiline() {
    let lines = ansi_to_lines("line1\nline2\nline3");
    assert_eq!(lines.len(), 3);
    assert_eq!(lines[0].spans[0].content.as_str(), "line1");
    assert_eq!(lines[1].spans[0].content.as_str(), "line2");
    assert_eq!(lines[2].spans[0].content.as_str(), "line3");
}

#[test]
fn test_sgr_color() {
    // Red foreground
    let lines = ansi_to_lines("\x1b[31mred\x1b[0m");
    assert_eq!(lines.len(), 1);
    let spans = &lines[0].spans;
    assert_eq!(spans.len(), 1);
    assert_eq!(spans[0].content.as_str(), "red");
    assert_eq!(spans[0].style.fg, Some(Color::Red));
}

#[test]
fn test_sgr_rgb_color() {
    // RGB foreground
    let lines = ansi_to_lines("\x1b[38;2;200;100;50mrgb\x1b[0m");
    assert_eq!(lines.len(), 1);
    let spans = &lines[0].spans;
    assert_eq!(spans.len(), 1);
    assert_eq!(spans[0].content.as_str(), "rgb");
    assert_eq!(spans[0].style.fg, Some(Color::Rgb(200, 100, 50)));
}

#[test]
fn test_sgr_background() {
    // Green background
    let lines = ansi_to_lines("\x1b[42mgreen bg\x1b[0m");
    assert_eq!(lines.len(), 1);
    let spans = &lines[0].spans;
    assert_eq!(spans[0].style.bg, Some(Color::Green));
}

#[test]
fn test_erase_in_line_ignored() {
    // \x1b[0K should be ignored (erase in line)
    let lines = ansi_to_lines(
        "\x1b[48;2;73;111;74m+\x1b[0m\x1b[48;2;73;111;74m\x1b[0K\x1b[0m",
    );
    assert_eq!(lines.len(), 1);
    let spans = &lines[0].spans;
    // Should have "+" span with green bg, then a reset span
    assert!(spans.len() >= 1);
    // The "+" should be present
    let has_plus = spans.iter().any(|s| s.content.as_str() == "+");
    assert!(has_plus, "should contain '+'");
    // Should not contain any raw escape codes
    for span in spans {
        assert!(
            !span.content.contains('\x1b'),
            "should not contain raw escape: {:?}",
            span.content
        );
    }
}

#[test]
fn test_delta_style_output() {
    // Simulate real delta output
    let input = "\x1b[48;2;73;111;74m+\x1b[38;2;202;158;230mmod\x1b[38;2;198;208;245m \x1b[38;2;239;159;118mansi\x1b[38;2;148;156;187m;\x1b[0m\x1b[48;2;73;111;74m\x1b[0K\x1b[0m";
    let lines = ansi_to_lines(input);
    assert_eq!(lines.len(), 1);
    let spans = &lines[0].spans;
    // Should have multiple spans with different colors
    assert!(spans.len() >= 4, "expected >= 4 spans, got {}", spans.len());
    // All content should be clean (no escape codes)
    for span in spans {
        assert!(!span.content.contains('\x1b'));
    }
    // First span should have green background (the "+")
    assert_eq!(spans[0].content.as_str(), "+");
    assert_eq!(spans[0].style.bg, Some(Color::Rgb(73, 111, 74)));
}

#[test]
fn test_mixed_content_and_escapes() {
    let input = "plain\x1b[1mbold\x1b[0mplain";
    let lines = ansi_to_lines(input);
    assert_eq!(lines.len(), 1);
    let spans = &lines[0].spans;
    assert_eq!(spans.len(), 3);
    assert_eq!(spans[0].content.as_str(), "plain");
    assert_eq!(spans[1].content.as_str(), "bold");
    assert!(spans[1].style.add_modifier.bold);
    assert_eq!(spans[2].content.as_str(), "plain");
}

#[test]
fn standard_and_bright_colors() {
    assert_eq!(ansi_standard_color(0), Color::Black);
    assert_eq!(ansi_standard_color(3), Color::Yellow);
    assert_eq!(ansi_standard_color(6), Color::Cyan);
    assert_eq!(ansi_bright_color(0), Color::Gray);
    assert_eq!(ansi_bright_color(5), Color::LightMagenta);
    assert_eq!(ansi_bright_color(7), Color::White);
}

#[test]
fn extended_colors() {
    assert_eq!(parse_extended_color(&vec![5, 200], 0), Some((Color::Indexed(200), 2)));
    assert_eq!(parse_extended_color(&vec![2, 1, 2, 3], 0), Some((Color::Rgb(1, 2, 3), 4)));
    assert_eq!(parse_extended_color(&vec![2, 1, 2], 0), None);
    assert_eq!(parse_extended_color(&vec![9, 1, 2], 0), None);
}

#[test]
fn reset_forgets_everything() {
    let colored = apply_sgr(Style::unstyled(), "1;31;44");
    assert_eq!(colored.fg, Some(Color::Red));
    assert_eq!(colored.bg, Some(Color::Blue));
    assert!(colored.add_modifier.bold);
    assert_eq!(apply_sgr(colored, "0"), Style::unstyled());
    assert_eq!(apply_sgr(colored, ""), colored);
    assert_eq!(apply_sgr(colored, "31;0;32").fg, Some(Color::Green));
    assert_eq!(apply_sgr(colored, "31;0;32").bg, None);
}

#[test]
fn modifiers_switch_off_again() {
    let on = apply_sgr(Style::unstyled(), "1;3;4");
    assert_eq!(
        on.add_modifier,
        Modifier { bold: true, dim: false, italic: true, underlined: true }
    );
    let off = apply_sgr(on, "22;24");
    assert!(!off.add_modifier.bold);
    assert!(!off.add_modifier.underlined);
    assert!(off.add_modifier.italic);
}

#[test]
fn erasing_shows_the_background() {
    let lines = ansi_to_lines("\x1b[41m\x1b[K\x1b[0m\x1b[K");
    assert_eq!(lines.len(), 1);
    assert_eq!(lines[0].text(), " ");
    assert_eq!(lines[0].spans[0].style.bg, Some(Color::Red));
}

#[test]
fn carriage_returns_and_empty_lines() {
    let lines = ansi_to_lines("a\r\n\nb\n");
    let texts: Vec<String> = lines.iter().map(|l| l.text()).collect();
    assert_eq!(texts, vec!["a", "", "b"]);
    assert_eq!(ansi_to_lines("").len(), 0);
    assert_eq!(ansi_to_lines("\x1b[31").len(), 0);
}

#[test]
fn plain_text_loses_only_its_returns() {
    let lines = ansi_to_lines("a\rb\r\n\r\nc");
    let seen: Vec<Vec<String>> = lines
        .iter()
        .map(|line| line.spans.iter().map(|span| span.content.clone()).collect())
        .collect();
    assert_eq!(seen, vec![vec!["ab".to_string()], vec![], vec!["c".to_string()]]);
    assert_eq!(lines[0].spans[0].style, Style::unstyled());
}

#[test]
fn joined_codes_act_in_turn() {
    for (a, b) in [("1;31", "22;44"), ("38;5;9", "4"), ("", "7;32"), ("0", "38;2;1;2;3")] {
        let both = apply_sgr(Style::unstyled(), &format!("{};{}", a, b));
        assert_eq!(both, apply_sgr(apply_sgr(Style::unstyled(), a), b));
    }
    // a colour that is not complete takes what is behind it
    let both = apply_sgr(Style::unstyled(), "38;5");
    assert_eq!(both, Style::unstyled());
    assert_eq!(apply_sgr(Style::unstyled(), "38;5;1").fg, Some(Color::Indexed(1)));
}
