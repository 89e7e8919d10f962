use dta::data::parsing::{offset_or_default, parse_fixed_offset};
use dta::error::ErrorKind;

fn offset(text: &str) -> Result<i32, dta::Error> {
    let owned = text.to_string();
    parse_fixed_offset(Some(&owned))
}

#[test]
fn colon_offsets() {
    assert_eq!(offset("+05:30").unwrap(), 5 * 3_600 + 30 * 60);
    assert_eq!(offset("-08:00").unwrap(), -8 * 3_600);
    assert_eq!(offset("+00:00").unwrap(), 0);
    assert_eq!(offset("-00:01").unwrap(), -60);
}

#[test]
fn compact_offsets() {
    assert_eq!(offset("+0530").unwrap(), 19_800);
    assert_eq!(offset("-0800").unwrap(), -28_800);
    assert_eq!(offset("+0100").unwrap(), 3_600);
}

#[test]
fn the_widest_offsets() {
    // Hours up to 19 and minutes up to 99 are read as they stand.
    assert_eq!(offset("+19:59").unwrap(), 19 * 3_600 + 59 * 60);
    assert_eq!(offset("-19:99").unwrap(), -(19 * 3_600 + 99 * 60));
    assert_eq!(offset("+1899").unwrap(), 18 * 3_600 + 99 * 60);
}

#[test]
fn a_token_may_stand_anywhere() {
    assert_eq!(offset("UTC+01:00").unwrap(), 3_600);
    assert_eq!(offset("zone -0230 (winter)").unwrap(), -(2 * 3_600 + 30 * 60));
    // The first token of the shape counts.
    assert_eq!(offset("+01:00 or +02:00").unwrap(), 3_600);
    assert_eq!(offset("é+01:00").unwrap(), 3_600);
}

#[test]
fn texts_without_a_token() {
    for text in ["", "UTC", "+1:00", "01:00", "+20:00", "+2000", "+0a:00", "+01-00", "+01:0", "+010"] {
        let e = offset(text).unwrap_err();
        assert_eq!(e.kind, ErrorKind::Timezone, "{}", text);
        assert_eq!(e.reason, format!("Could not convert \"{}\" into a timezone", text));
    }
}

#[test]
fn tokens_of_both_shapes_are_refused() {
    let e = offset("+01:00 +0200").unwrap_err();
    assert_eq!(e.kind, ErrorKind::Timezone);
    let e = offset("+0200+01:00").unwrap_err();
    assert_eq!(e.kind, ErrorKind::Timezone);
}

#[test]
fn no_text_is_no_offset() {
    let e = parse_fixed_offset(None).unwrap_err();
    assert_eq!(e.kind, ErrorKind::Timezone);
    assert_eq!(e.reason, "Could not parse a timezone because no format provided.");
    assert_eq!(e.message(), "Error: Could not parse a timezone because no format provided.");
}

#[test]
fn utc_stands_in_for_a_missing_offset() {
    assert_eq!(offset_or_default(None), 0);
    let bad = "nowhere".to_string();
    assert_eq!(offset_or_default(Some(&bad)), 0);
    let good = "-03:30".to_string();
    assert_eq!(offset_or_default(Some(&good)), -12_600);
}
