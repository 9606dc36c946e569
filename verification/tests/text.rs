use gitui::text::{
    contains, decimal, is_white_space, join, lines, pad_end, pad_start, parse_number, split,
    tabs_to_spaces, trim, trim_end, CharClass,
};

#[test]
fn white_space_is_that_of_unicode() {
    let mut n: u32 = 0;
    while n <= 0x10_ffff {
        if let Some(c) = char::from_u32(n) {
            assert_eq!(is_white_space(c), c.is_whitespace(), "{:?}", c);
        }
        n += 1;
    }
}

#[test]
fn trims_like_std() {
    for s in ["", "a", "\r\n a \n", "\n\n", "  x y\t", "\u{3000}z\u{85}"] {
        assert_eq!(trim(s, CharClass::WhiteSpace), s.trim());
        assert_eq!(trim(s, CharClass::Newline), s.trim_matches(|c| c == '\n' || c == '\r'));
        assert_eq!(trim_end(s, CharClass::LineFeed), s.trim_end_matches('\n'));
    }
}

#[test]
fn splits_like_std() {
    for s in ["", "a", "a/b", "/", "//x/", "a\nb\r\nc", "\n", "a\r", "x\n\ny\n"] {
        let pieces: Vec<&str> = s.split('/').collect();
        assert_eq!(split(s, '/'), pieces);
        let rows: Vec<&str> = s.lines().collect();
        assert_eq!(lines(s), rows);
    }
}

#[test]
fn finds_text_like_std() {
    for (t, p) in [("abcabd", "abd"), ("abc", ""), ("", ""), ("", "a"), ("aab", "ab"), ("xyz", "zz")] {
        assert_eq!(contains(t, p), t.contains(p));
    }
}

#[test]
fn numbers() {
    assert_eq!(decimal(0), "0");
    assert_eq!(decimal(u64::MAX), u64::MAX.to_string());
    for s in ["0", "42", "+7", "", "+", "-1", "4294967295", "4294967296", "12a", "0000000000001"] {
        assert_eq!(parse_number(s), s.parse::<u32>().ok(), "{}", s);
    }
}

#[test]
fn pads_and_joins() {
    assert_eq!(pad_end("ab", 4), "ab  ");
    assert_eq!(pad_end("abcde", 4), "abcde");
    assert_eq!(pad_start("7", 3), "  7");
    assert_eq!(tabs_to_spaces("\ta\tb", 2), "  a  b");
    assert_eq!(join(&vec!["a".to_string(), "b".to_string(), "c".to_string()], "\n"), "a\nb\nc");
    assert_eq!(join(&Vec::new(), "\n"), "");
}
