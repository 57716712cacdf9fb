use embedded_support::order::{name_at_most, sort_names};
use embedded_support::text::{
    chars_of, contains, has_suffix, is_ascii_alphanumeric, is_white_space, join, lines_of,
    replace_chars, string_of, to_ascii_lower, to_ascii_upper, trim_chars, trim_prefixes_chars,
    CharClass,
};

#[test]
fn characters_are_classified_as_in_std() {
    for n in 0..=0x10ffffu32 {
        if let Some(c) = char::from_u32(n) {
            assert_eq!(is_white_space(c), c.is_whitespace(), "{n:x}");
            assert_eq!(is_ascii_alphanumeric(c), c.is_ascii_alphanumeric());
            assert_eq!(to_ascii_lower(c), c.to_ascii_lowercase());
            assert_eq!(to_ascii_upper(c), c.to_ascii_uppercase());
        }
    }
}

#[test]
fn text_to_characters_and_back() {
    for s in ["", "a", "arm-none-eabi", "嵌入式 ✓\n"] {
        assert_eq!(string_of(&chars_of(s)), s);
        assert_eq!(chars_of(s), s.chars().collect::<Vec<char>>());
    }
}

#[test]
fn substrings_are_found() {
    assert!(contains("set(CC arm-none-eabi-gcc)", "arm-none-eabi"));
    assert!(!contains("set(CC gcc)", "arm-none-eabi"));
    assert!(contains("abc", ""));
    assert!(contains("", ""));
    assert!(!contains("", "a"));
    assert!(contains("aab", "ab"));
    assert!(contains("abc", "c"));
    assert!(has_suffix("x: build", ": build"));
    assert!(!has_suffix("x: builds", ": build"));
    assert!(!has_suffix("d", ": build"));
}

#[test]
fn lines_end_as_in_std() {
    for s in ["", "\n", "a", "a\n", "a\r\nb", "a\n\nb\r", "\r\n\r\n", "a\rb\nc", "\r\r\n", "x\n\r"] {
        let found: Vec<String> = lines_of(&chars_of(s)).iter().map(string_of).collect();
        let expected: Vec<String> = s.lines().map(str::to_string).collect();
        assert_eq!(found, expected, "{s:?}");
    }
}

#[test]
fn replacement_goes_from_the_left() {
    let cases = [
        ("aaaa", "aa", "b"),
        ("aaa", "aa", "aab"),
        ("${sourceDir}/build", "${sourceDir}", "/p"),
        ("x", "y", "z"),
        ("", "y", "z"),
        ("abab", "ab", ""),
    ];
    for (s, pattern, to) in cases {
        let out = replace_chars(&chars_of(s), &chars_of(pattern), &chars_of(to));
        assert_eq!(string_of(&out), s.replace(pattern, to));
    }
}

#[test]
fn trimming() {
    let quoted = chars_of("\"'name'\"");
    assert_eq!(string_of(&trim_chars(&quoted, CharClass::Quote)), "name");
    let blank = chars_of(" \t\u{2003}");
    assert_eq!(string_of(&trim_chars(&blank, CharClass::White)), "");
    let twice = chars_of("project(project(x");
    assert_eq!(string_of(&trim_prefixes_chars(&twice, &chars_of("project("))), "x");
}

#[test]
fn joining() {
    let none: Vec<String> = vec![];
    assert_eq!(join(&none, "、"), "");
    assert_eq!(join(&vec!["a".to_string()], "、"), "a");
    assert_eq!(join(&vec!["a".to_string(), "b".to_string(), "c".to_string()], "、"), "a、b、c");
}

#[test]
fn names_are_ordered_by_bytes() {
    let b = |s: &str| s.as_bytes().to_vec();
    assert!(name_at_most(&b("0.24.0"), &b("0.3.0")));
    assert!(name_at_most(&b("a"), &b("ab")));
    assert!(!name_at_most(&b("b"), &b("ab")));
    assert!(name_at_most(&b(""), &b("")));
    let sorted = sort_names(vec![b("v2"), b("v10"), b("v1"), b("é"), b("v2")]);
    assert_eq!(sorted, vec![b("v1"), b("v10"), b("v2"), b("v2"), b("é")]);
}
