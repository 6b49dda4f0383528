use feedscan::json::{as_str, get, JsonValue};
use feedscan::text::{
    decimal_string, join_strings, lines_of, replace_char_str, signed_decimal_string,
    split_chars, starts_with, str_eq, trim_str,
};

#[test]
fn numerals() {
    assert_eq!(decimal_string(0), "0");
    assert_eq!(decimal_string(u64::MAX), "18446744073709551615");
    assert_eq!(signed_decimal_string(-42), "-42");
    assert_eq!(signed_decimal_string(i64::MIN), "-9223372036854775808");
    assert_eq!(signed_decimal_string(i64::MAX), "9223372036854775807");
}

#[test]
fn strings() {
    assert_eq!(trim_str(" \t a b \n"), "a b");
    assert_eq!(feedscan::text::concat("ab", "cd"), "abcd");
    assert!(str_eq("x", "x"));
    assert!(!str_eq("x", "y"));
    assert!(starts_with("https://x", "https://"));
    assert_eq!(replace_char_str("a\\b\\c", '\\', "/"), "a/b/c");
    assert_eq!(join_strings(&vec!["a".into(), "b".into(), "c".into()], ", "), "a, b, c");
    let parts = split_chars(&['a', '/', '/', 'b'], '/');
    assert_eq!(parts, vec![vec!['a'], vec![], vec!['b']]);
}

#[test]
fn lines_like_std() {
    for s in ["a\nb", "a\r\nb\n", "", "\n", "x\r", "a\n\nb\r\n\r\n"] {
        let ours: Vec<String> = lines_of(s).into_iter().map(|l| l.into_iter().collect()).collect();
        let std: Vec<String> = s.lines().map(|l| l.to_string()).collect();
        assert_eq!(ours, std, "{:?}", s);
    }
}

#[test]
fn json_lookups_take_the_last_member() {
    let o = JsonValue::Object(vec![
        ("k".to_string(), JsonValue::Str("first".to_string())),
        ("k".to_string(), JsonValue::Str("second".to_string())),
        ("n".to_string(), JsonValue::Number("1".to_string())),
    ]);
    assert_eq!(as_str(get(&o, "k")).map(|s| s.as_str()), Some("second"));
    assert_eq!(as_str(get(&o, "n")), None);
    assert_eq!(get(&o, "missing"), None);
    assert_eq!(get(&JsonValue::Null, "k"), None);
}
