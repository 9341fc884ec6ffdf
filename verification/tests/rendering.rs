use user_service::json::{escape_to_string, u64_to_dec, user_to_json, users_to_json};
use user_service::timestamp::is_valid_timestamp;
use user_service::user::User;

#[test]
fn decimal_rendering_exact_values() {
    assert_eq!(u64_to_dec(0), "0");
    assert_eq!(u64_to_dec(7), "7");
    assert_eq!(u64_to_dec(10), "10");
    assert_eq!(u64_to_dec(1234567890), "1234567890");
    assert_eq!(u64_to_dec(u64::MAX), "18446744073709551615");
}

#[test]
fn escaping_plain_text_is_identity() {
    assert_eq!(escape_to_string("1 Oak St"), "1 Oak St");
    assert_eq!(escape_to_string(""), "");
}

#[test]
fn escaping_quotes_backslashes_and_controls() {
    assert_eq!(escape_to_string("a\"b"), "a\\\"b");
    assert_eq!(escape_to_string("a\\b"), "a\\\\b");
    assert_eq!(escape_to_string("a\nb\tc\rd"), "a\\nb\\tc\\rd");
    assert_eq!(escape_to_string("\u{8}\u{c}"), "\\b\\f");
    assert_eq!(escape_to_string("\u{1}\u{1f}"), "\\u0001\\u001f");
}

#[test]
fn user_object_with_escaped_fields() {
    let u = User {
        id: 12,
        name: String::from("An\"n"),
        address: String::from("1\\2 Oak"),
        date_created: String::from("2015-09-18 23:56:04.123"),
    };
    assert_eq!(
        user_to_json(&u),
        "{\"id\":12,\"name\":\"An\\\"n\",\"address\":\"1\\\\2 Oak\",\"date_created\":\"2015-09-18 23:56:04.123\"}"
    );
}

#[test]
fn empty_vec_renders_as_empty_array() {
    assert_eq!(users_to_json(&Vec::new()), "[]");
}

#[test]
fn timestamp_shapes_accepted() {
    assert!(is_valid_timestamp("2015-09-18 23:56:04"));
    assert!(is_valid_timestamp("2015-09-18 23:56:04.123"));
    assert!(is_valid_timestamp("2015-09-18 23:56:04.123456789"));
}

#[test]
fn timestamp_shapes_rejected() {
    assert!(!is_valid_timestamp(""));
    assert!(!is_valid_timestamp("2015-09-18"));
    assert!(!is_valid_timestamp("2015-09-18T23:56:04"));
    assert!(!is_valid_timestamp("2015-09-18 23:56:04."));
    assert!(!is_valid_timestamp("2015-09-18 23:56:0x"));
    assert!(!is_valid_timestamp("2015-09-18 23:56:04.12a"));
}
