use minitel::chars::{parse_usize, same_text, lowercase_ascii};
use minitel::chat::{split_lines, trim_text};
use minitel::videotex::split_words;

fn chars(s: &str) -> Vec<char> {
    s.chars().collect()
}

#[test]
fn trimming_both_ends() {
    assert_eq!(trim_text("  a b \t\n"), "a b");
    assert_eq!(trim_text("\u{3000}x\u{00A0}"), "x");
    assert_eq!(trim_text("   "), "");
}

#[test]
fn parsing_usize_like_std() {
    assert_eq!(parse_usize(&chars("42")), Some(42));
    assert_eq!(parse_usize(&chars("+7")), Some(7));
    assert_eq!(parse_usize(&chars("007")), Some(7));
    assert_eq!(parse_usize(&chars("+")), None);
    assert_eq!(parse_usize(&chars("")), None);
    assert_eq!(parse_usize(&chars("-1")), None);
    assert_eq!(parse_usize(&chars("12a")), None);
    assert_eq!(parse_usize(&chars(&usize::MAX.to_string())), Some(usize::MAX));
    assert_eq!(parse_usize(&chars(&format!("{}0", usize::MAX))), None);
    for s in ["0", "+0", "99", "x", " 1"] {
        assert_eq!(parse_usize(&chars(s)), s.parse::<usize>().ok(), "{s}");
    }
}

#[test]
fn lines_and_words_like_std() {
    for t in ["a\r\nb\n\nc", "", "\n", "x\r", "a\nb\n", "é\r\n\r\n"] {
        let expected: Vec<String> = t.lines().map(|l| l.to_string()).collect();
        assert_eq!(split_lines(t), expected, "{t:?}");
    }
    for t in ["  a  b\tc\n", "", "   ", "mot"] {
        let expected: Vec<String> = t.split_whitespace().map(|w| w.to_string()).collect();
        assert_eq!(split_words(t), expected, "{t:?}");
    }
}

#[test]
fn small_text_helpers() {
    assert!(same_text("abc", "abc"));
    assert!(!same_text("abc", "abd"));
    assert!(!same_text("ab", "abc"));
    assert_eq!(lowercase_ascii(&chars("Content-LENGTH: É")), chars("content-length: É"));
}

#[test]
fn whitespace_is_the_unicode_set() {
    for u in 0u32..=0x10FFFF {
        if let Some(c) = char::from_u32(u) {
            assert_eq!(minitel::chars::is_whitespace(c), c.is_whitespace(), "U+{u:04X}");
        }
    }
}
