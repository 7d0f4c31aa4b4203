use steel_core::time::{format_expiry, parse_expiry, text_equals, DateParseError, UtcTime};

#[test]
fn ordering_of_times() {
    let a = UtcTime { secs: 10, nanos: 5 };
    assert!(a.is_after(&UtcTime { secs: 10, nanos: 4 }));
    assert!(a.is_after(&UtcTime { secs: 9, nanos: 999 }));
    assert!(!a.is_after(&a));
    assert!(!a.is_after(&UtcTime { secs: 11, nanos: 0 }));
}

#[test]
fn formatting_and_parsing() {
    let t = UtcTime { secs: 1_700_000_000, nanos: 0 };
    assert_eq!(format_expiry(None).unwrap(), "forever");
    assert_eq!(format_expiry(Some(t)).unwrap(), "2023-11-14 22:13:20 +0000");
    assert!(format_expiry(Some(UtcTime { secs: i64::MAX, nanos: 0 })).is_none());
    assert_eq!(parse_expiry("forever"), Ok(None));
    assert_eq!(parse_expiry("2023-11-14 22:13:20 +0000"), Ok(Some(t)));
    assert_eq!(parse_expiry("2023-11-15 00:13:20 +0200"), Ok(Some(t)));
    assert_eq!(parse_expiry("yesterday"), Err(DateParseError::InvalidDate));
    assert_eq!(parse_expiry("Forever"), Err(DateParseError::InvalidDate));
}

#[test]
fn text_comparison() {
    assert!(text_equals("abc", "abc"));
    assert!(!text_equals("abc", "abd"));
    assert!(!text_equals("ab", "abc"));
    assert!(text_equals("", ""));
}
