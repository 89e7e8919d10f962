use dta::error::ErrorKind;
use dta::timestamp::Timestamp;
use dta::{Data, FormatDictionary};

fn triple(t: Timestamp) -> (i64, u32, i32) {
    (t.secs, t.nanos, t.offset)
}

fn two_patterns() -> FormatDictionary {
    let mut d = FormatDictionary::new();
    d.insert("decoy".to_string(), "%Y-%d-%m %H:%M:%S".to_string());
    d.insert("iso".to_string(), "%Y-%m-%d %H:%M:%S".to_string());
    d
}

const FEB_3: i64 = 1_612_310_400;
const MAR_2: i64 = 1_614_643_200;

#[test]
fn a_new_dictionary_has_no_priorities() {
    let d = two_patterns();
    assert_eq!(d.len(), 2);
    assert!(d.priority().is_empty());
    assert_eq!(d.position("iso"), Some(1));
    assert_eq!(d.position("decoy"), Some(0));
    assert_eq!(d.position("other"), None);
}

#[test]
fn the_cold_path_goes_by_the_order_of_insertion() {
    let mut d = two_patterns();
    let t = d.parse_datetime("2021-02-03 00:00:00", None).unwrap();
    assert_eq!(triple(t), (MAR_2, 0, 0));
    assert_eq!(d.priority(), vec!["decoy".to_string()]);
}

#[test]
fn a_promoted_pattern_is_tried_first() {
    let mut d = two_patterns();
    // The thirteenth month shuts the decoy out.
    let t = d.parse_datetime("2021-12-13 00:00:00", None).unwrap();
    assert_eq!(triple(t), (1_639_353_600, 0, 0));
    assert_eq!(d.priority(), vec!["iso".to_string()]);
    // Both patterns read this one; the promoted one answers.
    let t = d.parse_datetime("2021-02-03 00:00:00", None).unwrap();
    assert_eq!(triple(t), (FEB_3, 0, 0));
    assert_eq!(d.priority(), vec!["iso".to_string()]);
}

#[test]
fn a_hit_in_the_priority_list_leaves_it_alone() {
    let mut d = two_patterns();
    d.parse_datetime("2021-12-13 00:00:00", None).unwrap();
    // Only the decoy reads the thirteenth day in second place.
    let t = d.parse_datetime("2021-13-11 00:00:00", None).unwrap();
    assert_eq!(triple(t), (1_639_353_600 - 30 * 86_400, 0, 0));
    assert_eq!(d.priority(), vec!["decoy".to_string(), "iso".to_string()]);
    // Read by the second of the list: the list stays.
    let t = d.parse_datetime("2021-12-13 00:00:00", None).unwrap();
    assert_eq!(triple(t), (1_639_353_600, 0, 0));
    assert_eq!(d.priority(), vec!["decoy".to_string(), "iso".to_string()]);
    // Read by both: the first of the list answers.
    let t = d.parse_datetime("2021-02-03 00:00:00", None).unwrap();
    assert_eq!(triple(t), (MAR_2, 0, 0));
}

#[test]
fn what_no_pattern_reads() {
    let mut d = two_patterns();
    d.parse_datetime("2021-12-13 00:00:00", None).unwrap();
    let e = d.parse_datetime("1622541600", None).unwrap_err();
    assert_eq!(e.kind, ErrorKind::Format);
    assert_eq!(e.reason, "Unable to find format to parse 1622541600");
    assert_eq!(d.priority(), vec!["iso".to_string()]);
    let mut empty = FormatDictionary::new();
    assert_eq!(empty.parse_datetime("2021-12-13 00:00:00", None).unwrap_err().kind, ErrorKind::Format);
}

#[test]
fn offsets_in_a_dictionary() {
    let mut d = FormatDictionary::new();
    d.insert("zoned".to_string(), "%Y-%m-%d %H:%M:%S %z".to_string());
    d.insert("plain".to_string(), "%Y-%m-%d %H:%M:%S".to_string());
    let tz = "+02:00".to_string();
    let t = d.parse_datetime("2021-02-03 00:00:00 -0100", Some(&tz)).unwrap();
    assert_eq!(triple(t), (FEB_3 + 3_600, 0, -3_600));
    let t = d.parse_datetime("2021-02-03 00:00:00", Some(&tz)).unwrap();
    assert_eq!(triple(t), (FEB_3, 0, 7_200));
    assert_eq!(d.priority(), vec!["plain".to_string(), "zoned".to_string()]);
}

#[test]
fn inserting_under_a_known_name_replaces_the_pattern() {
    let mut d = two_patterns();
    d.insert("decoy".to_string(), "%H:%M:%S %Y-%m-%d".to_string());
    assert_eq!(d.len(), 2);
    assert_eq!(d.position("decoy"), Some(0));
    let t = d.parse_datetime("2021-02-03 00:00:00", None).unwrap();
    assert_eq!(triple(t), (FEB_3, 0, 0));
    assert_eq!(d.priority(), vec!["iso".to_string()]);
}

#[test]
fn promoting_by_hand() {
    let mut d = two_patterns();
    d.insert("third".to_string(), "%s".to_string());
    d.promote(1);
    d.promote(2);
    assert_eq!(d.priority(), vec!["third".to_string(), "iso".to_string()]);
    d.promote(1);
    assert_eq!(d.priority(), vec!["iso".to_string(), "third".to_string()]);
    d.promote(1);
    assert_eq!(d.priority(), vec!["iso".to_string(), "third".to_string()]);
    d.promote(0);
    assert_eq!(d.priority(), vec!["decoy".to_string(), "iso".to_string(), "third".to_string()]);
}

#[test]
fn records_from_a_dictionary() {
    let mut d = two_patterns();
    let r = Data::from_dict("2021-12-13 00:00:00", b"raw".to_vec(), None, &mut d).unwrap();
    assert_eq!(triple(r.timestamp), (1_639_353_600, 0, 0));
    assert_eq!(r.raw, b"raw".to_vec());
    let e = Data::from_dict("nothing", Vec::new(), None, &mut d).unwrap_err();
    assert_eq!(e.kind, ErrorKind::Format);
}

#[test]
fn a_pattern_beats_the_dictionary_and_the_dictionary_the_guesses() {
    let mut d = two_patterns();
    let f = "%Y-%m-%d %H:%M:%S".to_string();
    // With a pattern the dictionary is not asked, and does not learn.
    let r = Data::normalized("2021-02-03 00:00:00", Some(&f), None, Some(&mut d), Vec::new()).unwrap();
    assert_eq!(r.timestamp.secs, FEB_3);
    assert!(d.priority().is_empty());
    let r = Data::normalized("2021-02-03 00:00:00", None, None, Some(&mut d), Vec::new()).unwrap();
    assert_eq!(r.timestamp.secs, MAR_2);
    assert_eq!(d.priority(), vec!["decoy".to_string()]);
    // The dictionary knows no counts of seconds; the cascade does.
    let e = Data::normalized("1622541600", None, None, Some(&mut d), Vec::new()).unwrap_err();
    assert_eq!(e.kind, ErrorKind::Format);
    let r = Data::normalized("1622541600", None, None, None, Vec::new()).unwrap();
    assert_eq!(r.timestamp.secs, 1_622_541_600);
    let r = Data::normalized("1622541600", Some(&f), None, Some(&mut d), Vec::new()).unwrap();
    assert_eq!(r.timestamp.secs, 1_622_541_600);
    let e = Data::normalized("soon", Some(&f), None, Some(&mut d), Vec::new()).unwrap_err();
    assert_eq!(e.kind, ErrorKind::DateTime);
}
