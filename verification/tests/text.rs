use rdf_knowledge_extractor::text::{
    ascii_lowercase, char_count, chars_of, contains, contains_ignoring_ascii_case, contains_text,
    decimal_text, escape_double_quotes, is_absolute, join2, parse_integer, same_text, starts_with,
    suffix_after_last, text_of, text_of_range, trimmed, without_prefix,
};
use rdf_knowledge_extractor::text_map::TextMap;

#[test]
fn characters_round_trip() {
    let v = chars_of("häßlich ✓");
    assert_eq!(v.len(), 9);
    assert_eq!(text_of(&v), "häßlich ✓");
    assert_eq!(text_of_range(&v, 1, 4), "äßl");
    assert_eq!(text_of_range(&v, 3, 3), "");
    assert_eq!(char_count("häßlich ✓"), 9);
    assert_eq!(char_count(""), 0);
}

#[test]
fn prefixes_and_substrings() {
    assert!(starts_with("http://x", "http://"));
    assert!(starts_with("abc", ""));
    assert!(starts_with("", ""));
    assert!(!starts_with("htt", "http"));
    assert!(!starts_with("xhttp://", "http://"));
    assert!(contains("say hasName twice", "hasName"));
    assert!(contains("hasName", "hasName"));
    assert!(contains("abc", ""));
    assert!(contains("", ""));
    assert!(!contains("hasNam", "hasName"));
    assert!(!contains("hasname", "hasName"));
    assert!(contains("aab", "ab"));
    assert!(contains_ignoring_ascii_case("rdfType", "type"));
    assert!(contains_ignoring_ascii_case("TYPE", "type"));
    assert!(!contains_ignoring_ascii_case("typ", "type"));
    assert!(!contains_ignoring_ascii_case("type", "Type"));
    assert_eq!(ascii_lowercase("AbC-Z[a@\u{c4}"), "abc-z[a@\u{c4}");
}

#[test]
fn absolute_uris_begin_with_a_web_scheme() {
    assert!(is_absolute("http://a"));
    assert!(is_absolute("https://a"));
    assert!(is_absolute("http://"));
    assert!(!is_absolute("http:/a"));
    assert!(!is_absolute("httpx://a"));
    assert!(!is_absolute("ftp://a"));
    assert!(!is_absolute(""));
    assert!(!is_absolute("HTTP://a"));
}

#[test]
fn equality_is_by_characters() {
    assert!(same_text("abc", "abc"));
    assert!(same_text("", ""));
    assert!(!same_text("abc", "abd"));
    assert!(!same_text("abc", "ab"));
    let strings = vec!["a".to_string(), "b".to_string()];
    assert!(contains_text(&strings, "b"));
    assert!(!contains_text(&strings, "c"));
    assert!(!contains_text(&Vec::new(), ""));
}

#[test]
fn quotes_are_escaped_with_a_backslash() {
    assert_eq!(escape_double_quotes("a\"b\"\"c"), "a\\\"b\\\"\\\"c");
    assert_eq!(escape_double_quotes("plain"), "plain");
    assert_eq!(escape_double_quotes("back\\slash"), "back\\slash");
    assert_eq!(escape_double_quotes(""), "");
}

#[test]
fn suffixes_and_prefixes() {
    assert_eq!(suffix_after_last("http://a/b#c", '#'), "c");
    assert_eq!(suffix_after_last("http://a/b#c", '/'), "b#c");
    assert_eq!(suffix_after_last("abc", '#'), "abc");
    assert_eq!(suffix_after_last("abc#", '#'), "");
    assert_eq!(suffix_after_last("", '#'), "");
    assert_eq!(without_prefix("prefix-rest", 7), "rest");
    assert_eq!(without_prefix("abc", 0), "abc");
    assert_eq!(without_prefix("abc", 3), "");
    assert_eq!(join2("ab", "cd"), "abcd");
}

#[test]
fn numbers_are_written_in_decimal() {
    assert_eq!(decimal_text(0), "0");
    assert_eq!(decimal_text(7), "7");
    assert_eq!(decimal_text(10), "10");
    assert_eq!(decimal_text(4096), "4096");
    assert_eq!(decimal_text(1_000_000_007), "1000000007");
    assert_eq!(decimal_text(usize::MAX), usize::MAX.to_string());
}

#[test]
fn white_space_is_trimmed_at_both_ends() {
    assert_eq!(trimmed("  a b \t\n"), "a b");
    assert_eq!(trimmed("\u{2003}x\u{a0}"), "x");
    assert_eq!(trimmed("   "), "");
    assert_eq!(trimmed(""), "");
    assert_eq!(trimmed("x"), "x");
}

#[test]
fn integers_are_read_as_the_standard_library_reads_them() {
    let cases = [
        "0", "7", "-7", "+7", "007", "-0", "+", "-", "", " 1", "1 ", "1.0", "1e3", "abc", "12a",
        "9223372036854775807", "9223372036854775808", "-9223372036854775808",
        "-9223372036854775809", "99999999999999999999999", "0000000000000000000000000001",
        "--1", "+-1", "١٢٣", "1_000",
    ];
    for case in cases {
        assert_eq!(parse_integer(case), case.parse::<i64>().ok(), "for {:?}", case);
    }
    assert_eq!(parse_integer("-9223372036854775808"), Some(i64::MIN));
    assert_eq!(parse_integer("42"), Some(42));
}

#[test]
fn a_map_keeps_the_order_of_first_insertion() {
    let mut map = TextMap::new();
    assert!(map.is_empty());
    assert_eq!(map.insert("b".to_string(), "1".to_string()), None);
    assert_eq!(map.insert("a".to_string(), "2".to_string()), None);
    assert_eq!(map.insert("b".to_string(), "3".to_string()), Some("1".to_string()));
    assert_eq!(map.len(), 2);
    assert_eq!(map.key_at(0), "b");
    assert_eq!(map.value_at(0), "3");
    assert_eq!(map.key_at(1), "a");
    assert_eq!(map.get("a"), Some(&"2".to_string()));
    assert_eq!(map.get("c"), None);
    assert!(map.contains_key("b"));
    assert!(!map.contains_key(""));
    let copy = map.clone();
    assert_eq!(copy.to_pairs(), vec![("b".to_string(), "3".to_string()), ("a".to_string(), "2".to_string())]);
}
