use dockhand::timefmt::{parse_created_at, parse_timestamp};

#[test]
fn timestamp_epoch_zero() {
    assert_eq!(parse_timestamp("1970-01-01 00:00:00 +0000"), Some(0));
}

#[test]
fn timestamp_known_instants() {
    assert_eq!(parse_timestamp("2024-01-01 00:00:00 +0000"), Some(1704067200));
    assert_eq!(parse_timestamp("2020-02-29 00:00:00 +0000"), Some(1582934400));
    assert_eq!(parse_timestamp("2024-02-29 12:30:45 +0530"), Some(1709190045));
}

#[test]
fn timestamp_offsets() {
    assert_eq!(parse_timestamp("2024-01-01 00:00:00 -0500"), Some(1704067200 + 5 * 3600));
    assert_eq!(parse_timestamp("2024-01-01 00:00:00 +0100"), Some(1704067200 - 3600));
}

#[test]
fn timestamp_rejects_bad_shapes() {
    assert_eq!(parse_timestamp(""), None);
    assert_eq!(parse_timestamp("2024-01-01"), None);
    assert_eq!(parse_timestamp("2024-01-01 00:00:00 +0000 UTC"), None);
    assert_eq!(parse_timestamp("2024/01/01 00:00:00 +0000"), None);
    assert_eq!(parse_timestamp("2024-01-01T00:00:00 +0000"), None);
}

#[test]
fn timestamp_rejects_out_of_range_fields() {
    assert_eq!(parse_timestamp("2024-13-01 00:00:00 +0000"), None);
    assert_eq!(parse_timestamp("2024-00-01 00:00:00 +0000"), None);
    assert_eq!(parse_timestamp("2023-02-29 00:00:00 +0000"), None);
    assert_eq!(parse_timestamp("2024-01-32 00:00:00 +0000"), None);
    assert_eq!(parse_timestamp("2024-01-01 24:00:00 +0000"), None);
    assert_eq!(parse_timestamp("2024-01-01 00:60:00 +0000"), None);
    assert_eq!(parse_timestamp("2024-01-01 00:00:61 +0000"), None);
    assert_eq!(parse_timestamp("2024-01-01 00:00:00 +2500"), None);
}

#[test]
fn created_at_uses_parsed_value() {
    assert_eq!(parse_created_at("2024-01-01 00:00:00 +0000"), 1704067200);
}

#[test]
fn created_at_falls_back_to_now() {
    let before = chrono::Utc::now().timestamp();
    let got = parse_created_at("not a timestamp");
    let after = chrono::Utc::now().timestamp();
    assert!(got >= before - 5 && got <= after + 5);
}
