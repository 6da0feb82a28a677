use openrouter_mcp::text::{
    begins_with, char_is_whitespace, chars_of, equals_str, find, lower, matches_at, push_decimal,
    push_range, same_chars, str_eq, string_of, trim, Finder,
};

fn chars(s: &str) -> Vec<char> {
    s.chars().collect()
}

#[test]
fn whitespace_is_what_the_standard_library_calls_whitespace() {
    for code in 0..=0x10FFFFu32 {
        if let Some(c) = char::from_u32(code) {
            assert_eq!(char_is_whitespace(c), c.is_whitespace(), "U+{:04X}", code);
        }
    }
}

#[test]
fn lower_case_touches_ascii_letters_only() {
    for code in 0..=0x10FFFFu32 {
        if let Some(c) = char::from_u32(code) {
            assert_eq!(lower(c), c.to_ascii_lowercase(), "U+{:04X}", code);
        }
    }
}

#[test]
fn trimming_agrees_with_the_standard_library() {
    for s in ["", " ", "a", " a", "a ", "  a b  ", "\t\n x \r\n", "\u{3000}x\u{2009}", " \u{feff} ", "   "] {
        assert_eq!(string_of(&trim(&chars(s))), s.trim(), "{:?}", s);
    }
}

#[test]
fn strings_and_characters_convert_both_ways() {
    for s in ["", "abc", "caf\u{e9} \u{1F600}"] {
        assert_eq!(chars_of(s), chars(s));
        assert_eq!(string_of(&chars(s)), s);
    }
}

#[test]
fn decimal_notation_agrees_with_the_standard_library() {
    for n in [0u64, 1, 9, 10, 11, 99, 100, 101, 12345, 1_000_000, u64::MAX - 1, u64::MAX] {
        let mut out = chars("n=");
        push_decimal(&mut out, n);
        assert_eq!(string_of(&out), format!("n={}", n));
    }
}

#[test]
fn ranges_are_appended() {
    let mut out = chars("ab");
    push_range(&mut out, &chars("012345"), 2, 5);
    assert_eq!(string_of(&out), "ab234");
    push_range(&mut out, &chars("012345"), 3, 3);
    assert_eq!(string_of(&out), "ab234");
}

#[test]
fn patterns_are_found_where_they_first_occur() {
    let t = chars("abcabcabc");
    assert!(matches_at(&t, 3, &chars("abc")));
    assert!(!matches_at(&t, 4, &chars("abc")));
    assert!(!matches_at(&t, 7, &chars("abc")));
    assert!(matches_at(&t, 9, &chars("")));
    assert!(!matches_at(&t, 10, &chars("")));
    assert_eq!(find(&t, 0, &chars("bc")), Some(1));
    assert_eq!(find(&t, 2, &chars("bc")), Some(4));
    assert_eq!(find(&t, 8, &chars("bc")), None);
    assert_eq!(find(&t, 0, &chars("x")), None);
    assert_eq!(find(&t, 9, &chars("")), Some(9));
    assert_eq!(find(&t, 10, &chars("")), None);
    assert_eq!(find(&t, usize::MAX, &chars("a")), None);
}

#[test]
fn remembered_search_answers_as_a_fresh_one() {
    let t = chars("..ab....ab..ab.");
    let pattern = chars("ab");
    let mut finder = Finder::new(&t, pattern.clone());
    for start in [0usize, 1, 2, 3, 7, 8, 9, 3, 12, 13, 0, 15, 16, 5] {
        assert_eq!(finder.first_from(&t, start), find(&t, start, &pattern), "from {}", start);
    }
}

#[test]
fn comparisons_go_by_characters() {
    assert!(same_chars(&chars("abc"), &chars("abc")));
    assert!(!same_chars(&chars("abc"), &chars("abd")));
    assert!(!same_chars(&chars("abc"), &chars("ab")));
    assert!(equals_str(&chars(""), ""));
    assert!(!equals_str(&chars("a"), "A"));
    assert!(str_eq("caf\u{e9}", "caf\u{e9}"));
    assert!(!str_eq("cafe", "caf\u{e9}"));
    assert!(begins_with(&chars("http://x"), "http://"));
    assert!(!begins_with(&chars("http:/"), "http://"));
    assert!(begins_with(&chars("x"), ""));
}
