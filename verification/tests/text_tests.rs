use termx::text::{
    chars_of, decimal_string, first_word, line_preview, same_ignoring_ascii_case, trimmed,
    white_space,
};

#[test]
fn white_space_matches_std() {
    for c in ['\t', '\n', '\u{b}', '\u{c}', '\r', ' ', '\u{85}', '\u{a0}', '\u{1680}', '\u{2000}', '\u{200a}', '\u{2028}', '\u{2029}', '\u{202f}', '\u{205f}', '\u{3000}'] {
        assert!(white_space(c));
        assert!(c.is_whitespace());
    }
    for c in ['a', '0', '\u{0}', '\u{8}', '\u{e}', '\u{200b}', '\u{feff}', '\u{180e}'] {
        assert_eq!(white_space(c), c.is_whitespace(), "{:?}", c);
    }
}

#[test]
fn first_words() {
    assert_eq!(first_word("  ls -la"), Some("ls".to_string()));
    assert_eq!(first_word("echo"), Some("echo".to_string()));
    assert_eq!(first_word(" \t "), None);
    assert_eq!(first_word(""), None);
    assert_eq!(first_word("\u{3000}caf\u{e9}\u{3000}x"), Some("caf\u{e9}".to_string()));
}

#[test]
fn trimming() {
    assert_eq!(trimmed("  hi there \n"), "hi there");
    assert_eq!(trimmed("   "), "");
    assert_eq!(trimmed("x"), "x");
    assert_eq!(trimmed("\u{a0}y\u{2029}"), "y");
}

#[test]
fn ascii_case() {
    assert!(same_ignoring_ascii_case("QuIt", "quit"));
    assert!(!same_ignoring_ascii_case("quit ", "quit"));
    assert!(!same_ignoring_ascii_case("\u{c9}", "\u{e9}"));
    assert!(same_ignoring_ascii_case("", ""));
}

#[test]
fn decimals() {
    assert_eq!(decimal_string(0), "0");
    assert_eq!(decimal_string(7), "7");
    assert_eq!(decimal_string(30), "30");
    assert_eq!(decimal_string(1234567890), "1234567890");
    assert_eq!(decimal_string(u64::MAX), u64::MAX.to_string());
}

#[test]
fn lines_follow_str_lines() {
    for text in ["", "a", "a\n", "a\nb", "a\r\nb\r\n", "x\r", "\n\n", "a\n\nb\n", "\r\n", "a\rb\n"] {
        let p = line_preview(text, 100);
        let expected: Vec<String> = text.lines().map(|l| l.to_string()).collect();
        assert_eq!(p.shown, expected, "{:?}", text);
        assert_eq!(p.hidden, 0);
    }
}

#[test]
fn preview_counts_hidden_lines() {
    let p = line_preview("1\n2\n3\n4\n5", 3);
    assert_eq!(p.shown, vec!["1", "2", "3"]);
    assert_eq!(p.hidden, 2);
    let p = line_preview("1\n2", 0);
    assert!(p.shown.is_empty());
    assert_eq!(p.hidden, 2);
}

#[test]
fn final_line_ending_is_optional() {
    let a = line_preview("a\nb", 10);
    let b = line_preview("a\nb\n", 10);
    let c = line_preview("a\nb\r\n", 10);
    assert_eq!(a.shown, b.shown);
    assert_eq!(a.shown, c.shown);
}

#[test]
fn chars_in_order() {
    assert_eq!(chars_of("h\u{e9}!"), vec!['h', '\u{e9}', '!']);
}
