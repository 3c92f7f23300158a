use ph::text::{
    contains_str, i64_to_decimal, join_strings, join_strs, split_once_ws, split_whitespace,
    starts_with, str_eq, strip_prefix_char, trim_end_matches_char, trim_start_matches_char,
    trim_ws, u64_to_decimal, is_whitespace,
};

#[test]
fn split_whitespace_skips_runs_of_blanks() {
    assert_eq!(split_whitespace("  foo \t bar\nbaz  "), vec!["foo", "bar", "baz"]);
    assert_eq!(split_whitespace(""), Vec::<&str>::new());
    assert_eq!(split_whitespace(" \u{3000}\u{a0} "), Vec::<&str>::new());
    assert_eq!(split_whitespace("one"), vec!["one"]);
}

#[test]
fn whitespace_matches_std() {
    for c in ['\t', '\n', '\u{b}', '\u{c}', '\r', ' ', '\u{85}', '\u{a0}', '\u{1680}', '\u{2000}',
        '\u{200a}', '\u{2028}', '\u{2029}', '\u{202f}', '\u{205f}', '\u{3000}', 'a', '_', '\u{200b}',
        '\u{feff}', '0']
    {
        assert_eq!(is_whitespace(c), c.is_whitespace(), "{c:?}");
    }
}

#[test]
fn join_puts_separator_between_parts() {
    assert_eq!(join_strs(&vec!["a", "b", "c"], ", "), "a, b, c");
    assert_eq!(join_strs(&vec![], " "), "");
    assert_eq!(join_strs(&vec!["only"], " AND "), "only");
    assert_eq!(join_strings(&vec!["x".to_string(), "y".to_string()], " AND "), "x AND y");
}

#[test]
fn string_predicates() {
    assert!(str_eq("abc", "abc"));
    assert!(!str_eq("abc", "abd"));
    assert!(!str_eq("abc", "ab"));
    assert!(starts_with("needs-review", "needs"));
    assert!(starts_with("x", ""));
    assert!(!starts_with("ne", "needs"));
    assert!(contains_str("phabricator", "bric"));
    assert!(contains_str("abc", ""));
    assert!(!contains_str("abc", "abcd"));
    assert!(!contains_str("abc", "ac"));
    assert_eq!(strip_prefix_char("@alice", '@'), Some("alice"));
    assert_eq!(strip_prefix_char("@", '@'), Some(""));
    assert_eq!(strip_prefix_char("alice", '@'), None);
}

#[test]
fn trimming() {
    assert_eq!(trim_ws("  diffs foo \n"), "diffs foo");
    assert_eq!(trim_ws("   "), "");
    assert_eq!(trim_end_matches_char("https://ph.example.com///", '/'), "https://ph.example.com");
    assert_eq!(trim_start_matches_char("//a/b/", '/'), "a/b/");
    assert_eq!(split_once_ws("diffs  foo bar"), Some(("diffs", " foo bar")));
    assert_eq!(split_once_ws("diffs"), None);
}

#[test]
fn decimal_rendering() {
    assert_eq!(u64_to_decimal(0), "0");
    assert_eq!(u64_to_decimal(1234), "1234");
    assert_eq!(u64_to_decimal(u64::MAX), u64::MAX.to_string());
    assert_eq!(i64_to_decimal(-500), "-500");
    assert_eq!(i64_to_decimal(i64::MAX), i64::MAX.to_string());
    assert_eq!(i64_to_decimal(i64::MIN), i64::MIN.to_string());
}

#[test]
fn string_helpers_agree_with_std() {
    let samples = [
        "", " ", "a", " a b ", "\tx\u{3000}y\u{a0}z\n", "@alice +open", "ÉLan  vital", "//w//", "a\u{200b}b",
    ];
    for s in samples {
        assert_eq!(split_whitespace(s), s.split_whitespace().collect::<Vec<_>>(), "{s:?}");
        assert_eq!(trim_ws(s), s.trim(), "{s:?}");
        assert_eq!(trim_end_matches_char(s, '/'), s.trim_end_matches('/'), "{s:?}");
        assert_eq!(trim_start_matches_char(s, '/'), s.trim_start_matches('/'), "{s:?}");
        assert_eq!(split_once_ws(s), s.split_once(char::is_whitespace), "{s:?}");
        for t in ["", "a", " ", "/w", "l"] {
            assert_eq!(starts_with(s, t), s.starts_with(t), "{s:?} {t:?}");
            assert_eq!(contains_str(s, t), s.contains(t), "{s:?} {t:?}");
            assert_eq!(str_eq(s, t), s == t, "{s:?} {t:?}");
        }
    }
}
