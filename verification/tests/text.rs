use ai_group_chat::text::{decimal_string, signed_decimal_string, truncate_text};

#[test]
fn short_text_is_kept() {
    assert_eq!(truncate_text("hello", 5), "hello");
    assert_eq!(truncate_text("", 0), "");
    assert_eq!(truncate_text("héllo", 5), "héllo");
}

#[test]
fn long_text_is_cut_with_a_note() {
    assert_eq!(
        truncate_text("hello world", 5),
        "hello...\n[Content truncated — showing first 5 characters]"
    );
    assert_eq!(
        truncate_text("ééé", 2),
        "éé...\n[Content truncated — showing first 2 characters]"
    );
    assert_eq!(truncate_text("ab", 0), "...\n[Content truncated — showing first 0 characters]");
}

#[test]
fn decimals() {
    assert_eq!(decimal_string(0), "0");
    assert_eq!(decimal_string(1234567890), "1234567890");
    assert_eq!(decimal_string(u64::MAX), u64::MAX.to_string());
    assert_eq!(signed_decimal_string(-42), "-42");
    assert_eq!(signed_decimal_string(i64::MIN), i64::MIN.to_string());
}
