use practicals::text::{
    chars_equal, chars_of, contains_chars, is_white_space_char, lines_of, split_on_chars,
    split_whitespace_chars, subrange_chars, trim_chars,
};

fn chars(s: &str) -> Vec<char> {
    s.chars().collect()
}

fn strings(vs: &[Vec<char>]) -> Vec<String> {
    vs.iter().map(|v| v.iter().collect()).collect()
}

#[test]
fn white_space_follows_unicode() {
    assert!(is_white_space_char(' '));
    assert!(is_white_space_char('\t'));
    assert!(is_white_space_char('\u{3000}'));
    assert!(is_white_space_char('\u{85}'));
    assert!(!is_white_space_char('a'));
    assert!(!is_white_space_char('\u{200b}'));
    for c in ['\u{0}', 'x', '\u{a0}', '\u{2028}', '\u{180e}', '\u{feff}'] {
        assert_eq!(is_white_space_char(c), c.is_whitespace());
    }
}

#[test]
fn chars_of_keeps_every_character() {
    assert_eq!(chars_of("héllo ✓"), chars("héllo ✓"));
    assert!(chars_of("").is_empty());
}

#[test]
fn split_whitespace_matches_std() {
    for s in ["  GET  /index.html HTTP/1.1 ", "", "   ", "a\u{3000}b\tc\n", "one"] {
        let expected: Vec<String> = s.split_whitespace().map(|t| t.to_string()).collect();
        assert_eq!(strings(&split_whitespace_chars(&chars(s))), expected);
    }
}

#[test]
fn split_on_separator() {
    assert_eq!(strings(&split_on_chars(&chars("a, b, c"), &chars(", "))), vec!["a", "b", "c"]);
    assert_eq!(strings(&split_on_chars(&chars("aaa"), &chars("aa"))), vec!["", "a"]);
    assert_eq!(strings(&split_on_chars(&chars(", x, "), &chars(", "))), vec!["", "x", ""]);
    assert_eq!(strings(&split_on_chars(&chars(""), &chars(", "))), vec![""]);
    for s in ["baa", "gzip, deflate,br", ",,", "x"] {
        let expected: Vec<String> = s.split(", ").map(|t| t.to_string()).collect();
        assert_eq!(strings(&split_on_chars(&chars(s), &chars(", "))), expected);
    }
}

#[test]
fn contains_finds_patterns() {
    assert!(contains_chars(&chars("accept-encoding: gzip"), &chars("gzip")));
    assert!(!contains_chars(&chars("accept-encoding: br"), &chars("gzip")));
    assert!(contains_chars(&chars("abc"), &chars("")));
    assert!(!contains_chars(&chars("ab"), &chars("abc")));
    assert!(contains_chars(&chars("gzip"), &chars("gzip")));
}

#[test]
fn trim_removes_outer_white_space() {
    assert_eq!(trim_chars(&chars("  gzip \t")), chars("gzip"));
    assert_eq!(trim_chars(&chars("\u{3000}a b\u{a0}")), chars("a b"));
    assert_eq!(trim_chars(&chars("   ")), chars(""));
}

#[test]
fn lines_match_std() {
    for s in ["a\r\nb\n\nc", "x\n", "", "y\r", "\n", "\r\n\r\n", "one\ntwo\r\nthree\r\n"] {
        let expected: Vec<String> = s.lines().map(|t| t.to_string()).collect();
        assert_eq!(strings(&lines_of(&chars(s))), expected, "input {:?}", s);
    }
}

#[test]
fn equality_and_subranges() {
    assert!(chars_equal(&chars("gzip"), &chars("gzip")));
    assert!(!chars_equal(&chars("gzip"), &chars("gzi")));
    assert!(!chars_equal(&chars("gzip"), &chars("gzap")));
    assert_eq!(subrange_chars(&chars("abcdef"), 1, 4), chars("bcd"));
}
