use norgdo::text::{
    chars_of, contains_chars, count_leading_run, count_leading_whitespace, count_trailing_run,
    count_trailing_whitespace, decimal_of, is_blank, is_whitespace_char, join_all, same_text,
    split_lines, string_of, trim_of, trim_start_of,
};

fn chars(s: &str) -> Vec<char> {
    s.chars().collect()
}

#[test]
fn whitespace_is_the_unicode_property() {
    for n in 0..=0x10FFFFu32 {
        if let Some(c) = char::from_u32(n) {
            assert_eq!(is_whitespace_char(c), c.is_whitespace());
        }
    }
}

#[test]
fn trimming_agrees_with_the_standard_library() {
    for s in ["", " ", "a", "  a b  ", "\t\n x \r\n", "\u{a0}x\u{3000}", "x  ", "   "] {
        let v = chars(s);
        assert_eq!(string_of(trim_of(&v)), s.trim());
        assert_eq!(string_of(trim_start_of(&v)), s.trim_start());
        assert_eq!(count_leading_whitespace(&v), s.chars().count() - s.trim_start().chars().count());
        assert_eq!(count_trailing_whitespace(&v), s.chars().count() - s.trim_end().chars().count());
        assert_eq!(is_blank(s), s.trim().is_empty());
    }
}

#[test]
fn runs_of_a_character() {
    assert_eq!(count_leading_run(&chars("--- x-"), '-'), 3);
    assert_eq!(count_leading_run(&chars("x--"), '-'), 0);
    assert_eq!(count_leading_run(&chars("----"), '-'), 4);
    assert_eq!(count_leading_run(&chars(""), '-'), 0);
    assert_eq!(count_trailing_run(&chars("-x__"), '_'), 2);
    assert_eq!(count_trailing_run(&chars("__"), '_'), 2);
    assert_eq!(count_trailing_run(&chars("_x"), '_'), 0);
}

#[test]
fn lines_of_a_text() {
    let cases: [(&str, Vec<&str>); 6] = [
        ("", vec![""]),
        ("a", vec!["a"]),
        ("a\nb", vec!["a", "b"]),
        ("a\n", vec!["a", ""]),
        ("\n\na\n\n", vec!["", "", "a", "", ""]),
        ("a\r\nb", vec!["a\r", "b"]),
    ];
    for (text, expected) in cases {
        let v = chars(text);
        let lines = split_lines(&v);
        let found: Vec<String> = lines.iter().map(|l| string_of(l)).collect();
        assert_eq!(found, expected);
        assert_eq!(string_of(&join_all(&lines)), text);
    }
}

#[test]
fn strings_and_characters() {
    assert_eq!(chars_of("h\u{e9}llo"), vec!['h', '\u{e9}', 'l', 'l', 'o']);
    assert_eq!(string_of(&['o', 'k']), "ok");
    assert!(same_text("abc", "abc"));
    assert!(!same_text("abc", "abd"));
    assert!(!same_text("abc", "ab"));
    assert!(same_text("", ""));
}

#[test]
fn numbers_in_decimal() {
    for n in [0usize, 1, 9, 10, 11, 99, 100, 12345, 1_000_000, usize::MAX] {
        assert_eq!(string_of(&decimal_of(n)), n.to_string());
    }
}

#[test]
fn searching_for_a_piece() {
    let cases = [
        ("hello world", "lo w", true),
        ("hello", "hello", true),
        ("hello", "", true),
        ("", "", true),
        ("", "a", false),
        ("hello", "hello!", false),
        ("aaab", "aab", true),
        ("abab", "bb", false),
        ("hello", "o", true),
        ("hello", "h", true),
    ];
    for (haystack, needle, expected) in cases {
        assert_eq!(contains_chars(&chars(haystack), &chars(needle)), expected);
        assert_eq!(haystack.contains(needle), expected);
    }
}
