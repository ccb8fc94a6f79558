use base64::Engine;
use card_copilot::strings::{
    replace_all, split_trim_nonempty, trim_str, count_words, u64_to_string, parse_i32, parse_u32,
    parse_bool, str_eq, find_from,
};

#[test]
fn test_base64_encode_decode() {
    let test_json = r#"{"name":"测试角色","description":"这是一个测试"}"#;
    let base64_data = base64::engine::general_purpose::STANDARD.encode(test_json.as_bytes());
    let decoded = base64::engine::general_purpose::STANDARD.decode(&base64_data).unwrap();
    let decoded_str = String::from_utf8(decoded).unwrap();
    assert_eq!(test_json, decoded_str);
}

#[test]
fn replace_all_replaces_every_occurrence() {
    assert_eq!(replace_all("a{{X}}b{{X}}c", "{{X}}", "Y"), "aYbYc");
    assert_eq!(replace_all("no markers", "{{X}}", "Y"), "no markers");
    assert_eq!(replace_all("{{X}}", "{{X}}", ""), "");
}

#[test]
fn split_trim_drops_empty_pieces() {
    let parts = split_trim_nonempty("a, b,,  ,c ", ",");
    assert_eq!(parts, vec!["a".to_string(), "b".to_string(), "c".to_string()]);
    let greetings = split_trim_nonempty("hi<START_ALT> hello <START_ALT>", "<START_ALT>");
    assert_eq!(greetings, vec!["hi".to_string(), "hello".to_string()]);
}

#[test]
fn trim_removes_unicode_whitespace() {
    assert_eq!(trim_str("  hello\t"), "hello");
    assert_eq!(trim_str("\u{3000}x\u{a0}"), "x");
    assert_eq!(trim_str("   "), "");
}

#[test]
fn word_count_counts_runs() {
    assert_eq!(count_words(""), 0);
    assert_eq!(count_words("one"), 1);
    assert_eq!(count_words("a  b\tc"), 3);
    assert_eq!(count_words("  lead and trail  "), 3);
}

#[test]
fn decimal_rendering_is_exact() {
    assert_eq!(u64_to_string(0), "0");
    assert_eq!(u64_to_string(1234), "1234");
    assert_eq!(u64_to_string(u64::MAX), format!("{}", u64::MAX));
}

#[test]
fn parse_i32_matches_std() {
    assert_eq!(parse_i32("-5"), Some(-5));
    assert_eq!(parse_i32("+7"), Some(7));
    assert_eq!(parse_i32("2147483647"), Some(i32::MAX));
    assert_eq!(parse_i32("-2147483648"), Some(i32::MIN));
    assert_eq!(parse_i32("2147483648"), None);
    assert_eq!(parse_i32(""), None);
    assert_eq!(parse_i32("12x"), None);
}

#[test]
fn parse_u32_matches_std() {
    assert_eq!(parse_u32("0"), Some(0));
    assert_eq!(parse_u32("+10"), Some(10));
    assert_eq!(parse_u32("4294967295"), Some(u32::MAX));
    assert_eq!(parse_u32("4294967296"), None);
    assert_eq!(parse_u32("-1"), None);
}

#[test]
fn parse_bool_matches_std() {
    assert_eq!(parse_bool("true"), Some(true));
    assert_eq!(parse_bool("false"), Some(false));
    assert_eq!(parse_bool("True"), None);
    assert_eq!(parse_bool(""), None);
}

#[test]
fn str_eq_and_find() {
    assert!(str_eq("abc", "abc"));
    assert!(!str_eq("abc", "abd"));
    assert_eq!(find_from("hello world", "world", 0), Some(6));
    assert_eq!(find_from("hello world", "world", 7), None);
    assert_eq!(find_from("aaa", "aa", 0), Some(0));
}
