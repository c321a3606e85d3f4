use launchpad::text::{
    is_white_space, chars_of, contains, decimal, ends_with, join, join_first, join_strings, same_text, slice_chars, split_lines,
    starts_with, str_contains, str_ends_with, str_eq, str_starts_with, string_of, take_chars,
};

fn v(s: &str) -> Vec<char> {
    s.chars().collect()
}

#[test]
fn characters_round_trip() {
    for s in ["", "abc", "héllo wörld", "日本語\n\u{1F600}"] {
        assert_eq!(chars_of(s), v(s));
        assert_eq!(string_of(&v(s)), s);
    }
}

#[test]
fn substring_search_agrees_with_the_standard_library() {
    let cases = [("hello world", "o w"), ("hello", ""), ("", ""), ("", "a"), ("abc", "abcd"), ("aaab", "aab"), ("abcabc", "cab"), ("abc", "c"), ("abc", "d"), ("ab", "ba")];
    for (hay, needle) in cases {
        assert_eq!(str_contains(hay, needle), hay.contains(needle), "{:?} {:?}", hay, needle);
        assert_eq!(contains(&v(hay), &v(needle)), hay.contains(needle));
        assert_eq!(str_starts_with(hay, needle), hay.starts_with(needle));
        assert_eq!(starts_with(&v(hay), &v(needle)), hay.starts_with(needle));
        assert_eq!(str_ends_with(hay, needle), hay.ends_with(needle));
        assert_eq!(ends_with(&v(hay), &v(needle)), hay.ends_with(needle));
        assert_eq!(str_eq(hay, needle), hay == needle);
        assert_eq!(same_text(&v(hay), &v(needle)), hay == needle);
    }
    assert!(str_eq("same", "same"));
}

#[test]
fn lines_agree_with_the_standard_library() {
    for text in ["", "a", "a\n", "\n", "\n\n", "a\nb", "a\r\nb\r\n", "a\r", "a\r\r\n", "\r", "x\n\ny\n", "end\r\n\r\n"] {
        let expected: Vec<Vec<char>> = text.lines().map(v).collect();
        assert_eq!(split_lines(&v(text)), expected, "{:?}", text);
    }
}

#[test]
fn joining_and_slicing() {
    let parts = vec![v("a"), v(""), v("bc")];
    assert_eq!(join(&parts, &v(", ")), v("a, , bc"));
    assert_eq!(join_first(&parts, 2, &v("-")), v("a-"));
    assert_eq!(join_first(&parts, 0, &v("-")), v(""));
    assert_eq!(join(&vec![], &v("-")), v(""));
    assert_eq!(join_strings(&vec!["x".to_string(), "y".to_string()], "/"), "x/y");
    assert_eq!(join_strings(&vec!["x".to_string()], "/"), "x");
    assert_eq!(slice_chars(&v("hello"), 1, 3), v("el"));
    assert_eq!(take_chars(&v("hello"), 2), v("he"));
    assert_eq!(take_chars(&v("hello"), 9), v("hello"));
    assert_eq!(take_chars(&v("hello"), 0), v(""));
}

#[test]
fn decimal_numerals() {
    for n in [0u64, 7, 10, 42, 100, 600, 1_000_000, u64::MAX] {
        assert_eq!(string_of(&decimal(n)), n.to_string());
    }
}

#[test]
fn white_space_is_the_class_of_the_standard_library() {
    for code in 0u32..=0x10FFFF {
        if let Some(c) = char::from_u32(code) {
            assert_eq!(is_white_space(c), c.is_whitespace(), "U+{:04X}", code);
        }
    }
}
