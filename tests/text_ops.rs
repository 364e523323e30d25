use mog::run::{ambient_context, uploaded_uri, AmbientContext, KeyValue};
use mog::text::{find_char, first_line_of, parse_i32, trim};

#[test]
fn parse_i32_accepts_signed_decimals() {
    assert_eq!(parse_i32("42"), Some(42));
    assert_eq!(parse_i32("-7"), Some(-7));
    assert_eq!(parse_i32("+3"), Some(3));
    assert_eq!(parse_i32("2147483647"), Some(i32::MAX));
    assert_eq!(parse_i32("-2147483648"), Some(i32::MIN));
}

#[test]
fn parse_i32_rejects_other_text() {
    assert_eq!(parse_i32(""), None);
    assert_eq!(parse_i32("-"), None);
    assert_eq!(parse_i32("12a"), None);
    assert_eq!(parse_i32(" 1"), None);
    assert_eq!(parse_i32("2147483648"), None);
    assert_eq!(parse_i32("99999999999999"), None);
}

#[test]
fn trim_removes_unicode_white_space() {
    assert_eq!(trim("  a b \t\n"), "a b");
    assert_eq!(trim("\u{3000}x\u{a0}"), "x");
    assert_eq!(trim("   "), "");
    assert_eq!(trim(""), "");
}

#[test]
fn first_line_stops_at_line_feed() {
    assert_eq!(first_line_of("one\ntwo"), "one");
    assert_eq!(first_line_of("only"), "only");
    assert_eq!(first_line_of("\nsecond"), "");
    assert_eq!(find_char("a=b=c", '='), Some(1));
    assert_eq!(find_char("abc", '='), None);
}

#[test]
fn uploader_uri_is_first_trimmed_line() {
    assert_eq!(uploaded_uri(true, "s3://bucket/key\nextra\n"), Some("s3://bucket/key".to_string()));
    assert_eq!(uploaded_uri(true, "  gs://b/o  \r\n"), Some("gs://b/o".to_string()));
}

#[test]
fn uploader_failure_or_blank_output_gives_no_uri() {
    assert_eq!(uploaded_uri(false, "s3://bucket/key\n"), None);
    assert_eq!(uploaded_uri(true, ""), None);
    assert_eq!(uploaded_uri(true, "   \nlater"), None);
}

#[test]
fn key_value_splits_at_first_equals() {
    let kv = KeyValue::parse("A=b=c", None).unwrap();
    assert_eq!(kv.key, "A");
    assert_eq!(kv.value, "b=c");
    let kv = KeyValue::parse("=x", None).unwrap();
    assert_eq!(kv.key, "");
    assert_eq!(kv.value, "x");
    let kv = KeyValue::parse("K=", Some("ignored".to_string())).unwrap();
    assert_eq!(kv.value, "");
}

#[test]
fn key_value_without_equals_takes_environment_value() {
    let kv = KeyValue::parse("HOME", Some("/root".to_string())).unwrap();
    assert_eq!(kv.key, "HOME");
    assert_eq!(kv.value, "/root");
    assert!(KeyValue::parse("MISSING", None).is_none());
}

#[test]
fn ambient_context_reads_inherited_id() {
    assert_eq!(ambient_context(None), AmbientContext::Absent);
    assert_eq!(ambient_context(Some("12")), AmbientContext::Id(12));
    assert_eq!(ambient_context(Some("x12")), AmbientContext::Malformed);
    assert_eq!(ambient_context(Some("")), AmbientContext::Malformed);
}
