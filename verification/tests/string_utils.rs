use substrait_textplan::textplan::common::string_utils::{escape_string, unescape_string};

#[test]
fn test_escape_string() {
    assert_eq!(escape_string("hello"), r#""hello""#);
    assert_eq!(escape_string("hello\nworld"), r#""hello\nworld""#);
    assert_eq!(escape_string("hello\"world"), r#""hello\"world""#);
    assert_eq!(escape_string("hello\\world"), r#""hello\\world""#);
}

#[test]
fn test_unescape_string() {
    assert_eq!(unescape_string(r#""hello""#), "hello");
    assert_eq!(unescape_string(r#""hello\nworld""#), "hello\nworld");
    assert_eq!(unescape_string(r#""hello\"world""#), "hello\"world");
    assert_eq!(unescape_string(r#""hello\\world""#), "hello\\world");
}
