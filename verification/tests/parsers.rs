use dta::error::ErrorKind;
use dta::input::csv::CsvParser;
use dta::input::json::JsonParser;
use dta::input::{Parser, SimpleParser};
use dta::FormatDictionary;

const JUNE_1_10: i64 = 1_622_541_600;

#[test]
fn a_plain_line_is_its_own_timestamp() {
    let p = SimpleParser::default();
    let d = p.parse_data(b"2021-06-01T10:00:00Z".to_vec(), None, None, None, None).unwrap();
    assert_eq!(d.timestamp.secs, JUNE_1_10);
    assert_eq!(d.raw, b"2021-06-01T10:00:00Z".to_vec());
    let t = "%Y".to_string();
    let d = p.parse_data(b"2021-06-01T10:00:00Z".to_vec(), None, None, None, Some(&t)).unwrap();
    assert_eq!(d.raw, b"2021-06-01T10:00:00Z".to_vec());
}

#[test]
fn a_plain_line_that_is_no_text() {
    let p = SimpleParser::default();
    let e = p.parse_data(vec![b'1', 0xff], None, None, None, None).unwrap_err();
    assert_eq!(e.kind, ErrorKind::Parser);
    assert!(e.reason.starts_with("Timestamp could not be parsed: "));
}

#[test]
fn a_plain_line_with_a_dictionary() {
    let p = SimpleParser::default();
    let mut dict = FormatDictionary::new();
    dict.insert("slashes".to_string(), "%Y/%m/%d %H:%M".to_string());
    let tz = "+01:00".to_string();
    let d = p.parse_data(b"2021/06/01 10:00".to_vec(), None, Some(&tz), Some(&mut dict), None).unwrap();
    assert_eq!((d.timestamp.secs, d.timestamp.offset), (JUNE_1_10, 3_600));
    assert_eq!(dict.priority(), vec!["slashes".to_string()]);
    let e = p.parse_data(b"2021-06-01T10:00:00Z".to_vec(), None, None, Some(&mut dict), None).unwrap_err();
    assert_eq!(e.kind, ErrorKind::Format);
    let e = p.parse_data(b"soon".to_vec(), None, None, None, None).unwrap_err();
    assert_eq!(e.kind, ErrorKind::DateTime);
}

#[test]
fn a_column_of_a_row() {
    let row = b"a,2021-06-01T10:00:00Z,\"x, y\"\n".to_vec();
    let d = CsvParser::new(1).parse_data(row.clone(), None, None, None, None).unwrap();
    assert_eq!(d.timestamp.secs, JUNE_1_10);
    assert_eq!(d.raw, row);
    let d = CsvParser::new(0).parse_data(b"1622541600,b".to_vec(), None, None, None, None).unwrap();
    assert_eq!(d.timestamp.secs, JUNE_1_10);
}

#[test]
fn quoted_fields_and_the_first_row() {
    let row = b"\"2021-06-01 10:00:00\",\"b\"\n2021-06-02 10:00:00,c\n".to_vec();
    let d = CsvParser::new(0).parse_data(row, None, None, None, None).unwrap();
    assert_eq!(d.timestamp.secs, JUNE_1_10);
    // The first row is no header.
    let e = CsvParser::new(0).parse_data(b"when,what\n1622541600,b\n".to_vec(), None, None, None, None);
    assert_eq!(e.unwrap_err().kind, ErrorKind::DateTime);
}

#[test]
fn rows_without_the_column() {
    let e = CsvParser::new(2).parse_data(b"a,b".to_vec(), None, None, None, None).unwrap_err();
    assert_eq!(e.kind, ErrorKind::Parser);
    assert_eq!(e.reason, "No CSV row in data provided: a,b");
    let e = CsvParser::new(0).parse_data(Vec::new(), None, None, None, None).unwrap_err();
    assert_eq!(e.kind, ErrorKind::Parser);
    assert_eq!(e.reason, "No CSV row in data provided: ");
    let e = CsvParser::new(0).parse_data(vec![0xc3], None, None, None, None).unwrap_err();
    assert_eq!(e.kind, ErrorKind::Parser);
    assert!(e.reason.starts_with("Data coverted: "));
}

#[test]
fn a_row_rewritten() {
    let t = "%d.%m.%Y".to_string();
    let row = b"a,2021-06-01T10:00:00Z,2021-06-01T10:00:00Z!\n".to_vec();
    let d = CsvParser::new(1).parse_data(row, None, None, None, Some(&t)).unwrap();
    assert_eq!(d.timestamp.secs, JUNE_1_10);
    assert_eq!(String::from_utf8(d.raw).unwrap(), "a,01.06.2021,01.06.2021!\n");
}

#[test]
fn a_row_and_a_dictionary() {
    let mut dict = FormatDictionary::new();
    dict.insert("a".to_string(), "%Y/%m/%d %H:%M".to_string());
    dict.insert("b".to_string(), "%d.%m.%Y %H:%M".to_string());
    let d = CsvParser::new(1).parse_data(b"x,01.06.2021 10:00".to_vec(), None, None, Some(&mut dict), None).unwrap();
    assert_eq!(d.timestamp.secs, JUNE_1_10);
    assert_eq!(dict.priority(), vec!["b".to_string()]);
    // A row without the column does not reach the dictionary.
    let e = CsvParser::new(5).parse_data(b"x,2021/06/01 10:00".to_vec(), None, None, Some(&mut dict), None);
    assert_eq!(e.unwrap_err().kind, ErrorKind::Parser);
    assert_eq!(dict.priority(), vec!["b".to_string()]);
}

#[test]
fn a_pattern_that_cannot_be_written() {
    let t = "%Q".to_string();
    let e = CsvParser::new(0).parse_data(b"1622541600".to_vec(), None, None, None, Some(&t)).unwrap_err();
    assert_eq!(e.kind, ErrorKind::DateTime);
    assert_eq!(e.reason, "Format string provided (%Q) is not valid.");
    let e = JsonParser::new("t").parse_data(b"{\"t\":0}".to_vec(), None, None, None, Some(&t)).unwrap_err();
    assert_eq!(e.kind, ErrorKind::DateTime);
}

#[test]
fn a_field_of_a_document() {
    let doc = b"{\"id\": 7, \"ts\": \"2021-06-01T10:00:00Z\"}".to_vec();
    let d = JsonParser::new("ts").parse_data(doc.clone(), None, None, None, None).unwrap();
    assert_eq!(d.timestamp.secs, JUNE_1_10);
    assert_eq!(d.raw, doc);
    let d = JsonParser::new("id").parse_data(b"{\"id\": 1622541600}".to_vec(), None, None, None, None).unwrap();
    assert_eq!(d.timestamp.secs, JUNE_1_10);
}

#[test]
fn a_document_rewritten() {
    let t = "%Y/%m/%d %H:%M %z".to_string();
    let tz = "+02:00".to_string();
    let doc = b"{\"ts\": \"2021-06-01 10:00:00\", \"id\": [1, 2]}".to_vec();
    let d = JsonParser::new("ts").parse_data(doc, None, Some(&tz), None, Some(&t)).unwrap();
    assert_eq!((d.timestamp.secs, d.timestamp.offset), (JUNE_1_10, 7_200));
    assert_eq!(String::from_utf8(d.raw).unwrap(), "{\"id\":[1,2],\"ts\":\"2021/06/01 12:00 +0200\"}");
}

#[test]
fn documents_without_the_field() {
    let e = JsonParser::new("when").parse_data(b"{\"ts\": \"2021-06-01T10:00:00Z\"}".to_vec(), None, None, None, None);
    let e = e.unwrap_err();
    assert_eq!(e.kind, ErrorKind::Parser);
    assert_eq!(e.reason, "Timestamp (when) could not be parsed: {\"ts\": \"2021-06-01T10:00:00Z\"}");
    let e = JsonParser::new("ts").parse_data(Vec::new(), None, None, None, None).unwrap_err();
    assert_eq!(e.kind, ErrorKind::Parser);
}

#[test]
fn bytes_that_are_no_document() {
    let e = JsonParser::new("ts").parse_data(vec![b'{', 0xff, b'}'], None, None, None, None).unwrap_err();
    assert_eq!(e.kind, ErrorKind::Parser);
    assert!(e.reason.starts_with("Data coverted: "));
    // The field is found and read, but the document does not end.
    let e = JsonParser::new("ts").parse_data(b"{\"ts\": \"2021-06-01T10:00:00Z\", ".to_vec(), None, None, None, None);
    assert_eq!(e.unwrap_err().kind, ErrorKind::Parser);
    let e = JsonParser::new("ts").parse_data(b"{\"ts\": \"soon\"}".to_vec(), None, None, None, None);
    assert_eq!(e.unwrap_err().kind, ErrorKind::DateTime);
}

#[test]
fn a_field_below_the_top_cannot_be_rewritten() {
    let t = "%Y".to_string();
    let doc = b"{\"a\": {\"ts\": \"2021-06-01T10:00:00Z\"}}".to_vec();
    let d = JsonParser::new("a.ts").parse_data(doc.clone(), None, None, None, None).unwrap();
    assert_eq!(d.timestamp.secs, JUNE_1_10);
    let e = JsonParser::new("a.ts").parse_data(doc, None, None, None, Some(&t)).unwrap_err();
    assert_eq!(e.kind, ErrorKind::Parser);
}

#[test]
fn a_document_and_a_dictionary() {
    let mut dict = FormatDictionary::new();
    dict.insert("a".to_string(), "%Y/%m/%d %H:%M".to_string());
    let d = JsonParser::new("ts").parse_data(b"{\"ts\": \"2021/06/01 10:00\"}".to_vec(), None, None, Some(&mut dict), None);
    assert_eq!(d.unwrap().timestamp.secs, JUNE_1_10);
    assert_eq!(dict.priority(), vec!["a".to_string()]);
}

#[test]
fn a_record_from_a_row_in_hand() {
    let p = CsvParser::new(1);
    let row = Some(vec!["a".to_string(), "2021-06-01T10:00:00Z".to_string()]);
    let t = "%H".to_string();
    let d = p.from_row("whatever 2021-06-01T10:00:00Z", row.clone(), b"kept".to_vec(), None, None, None, None).unwrap();
    assert_eq!((d.timestamp.secs, d.raw), (JUNE_1_10, b"kept".to_vec()));
    let d = p.from_row("whatever 2021-06-01T10:00:00Z", row, b"kept".to_vec(), None, None, None, Some(&t)).unwrap();
    assert_eq!(d.raw, b"whatever 10".to_vec());
    let e = p.from_row("text", None, Vec::new(), None, None, None, None).unwrap_err();
    assert_eq!((e.kind, e.reason.as_str()), (ErrorKind::Parser, "No CSV row in data provided: text"));
    let e = p.from_row("text", Some(vec!["0".to_string()]), Vec::new(), None, None, None, None).unwrap_err();
    assert_eq!(e.kind, ErrorKind::Parser);
    let e = p.from_row("text", Some(vec!["0".to_string(), "x".to_string()]), Vec::new(), None, None, None, None);
    assert_eq!(e.unwrap_err().kind, ErrorKind::DateTime);
}

#[test]
fn a_record_from_a_value_in_hand() {
    let p = JsonParser::new("ts");
    let value = Some("1622541600".to_string());
    let d = p.from_value("{}", value, b"kept".to_vec(), None, None, None).unwrap();
    assert_eq!((d.timestamp.secs, d.raw), (JUNE_1_10, b"kept".to_vec()));
    let e = p.from_value("{}", None, Vec::new(), None, None, None).unwrap_err();
    assert_eq!((e.kind, e.reason.as_str()), (ErrorKind::Parser, "Timestamp (ts) could not be parsed: {}"));
    let e = p.from_value("{}", Some(String::new()), Vec::new(), None, None, None).unwrap_err();
    assert_eq!(e.kind, ErrorKind::DateTime);
}

#[test]
fn a_rewriting_in_hand() {
    let p = JsonParser::new("ts");
    let data = || {
        p.from_value("{}", Some("1622541600".to_string()), b"old".to_vec(), None, None, None).unwrap()
    };
    let d = p.settle(data(), "{}", Ok(Some(b"new".to_vec()))).unwrap();
    assert_eq!((d.timestamp.secs, d.raw), (JUNE_1_10, b"new".to_vec()));
    let e = p.settle(data(), "{}", Ok(None)).unwrap_err();
    assert_eq!((e.kind, e.reason.as_str()), (ErrorKind::Parser, "Timestamp (ts) could not be parsed: {}"));
    let e = p.settle(data(), "{}", Err("broken".to_string())).unwrap_err();
    assert_eq!((e.kind, e.reason.as_str()), (ErrorKind::Parser, "broken"));
}

#[test]
fn a_string_that_does_not_end_is_no_value() {
    let t = "%Y".to_string();
    for path in ["@this", "@flatten", "@join", "@reverse", "@valid", "@ugly", "@pretty", "a", "a.b", "0"] {
        for doc in ["\"abc", "\"", "\"abc\\", "{\"a\":\"abc", "[\"abc", "{\"a\":{\"b\":\"", "[[\"x\"],[\"y"] {
            let p = JsonParser::new(path);
            let e = p.parse_data(doc.as_bytes().to_vec(), None, None, None, None).unwrap_err();
            assert!(e.kind == ErrorKind::Parser || e.kind == ErrorKind::DateTime, "{} {}", path, doc);
            let _ = p.parse_data(doc.as_bytes().to_vec(), None, None, None, Some(&t));
        }
    }
    let e = JsonParser::new("@this").parse_data(b"\"abc".to_vec(), None, None, None, None).unwrap_err();
    assert_eq!(e.kind, ErrorKind::Parser);
    let d = JsonParser::new("@this").parse_data(b"\"1622541600\"".to_vec(), None, None, None, None).unwrap();
    assert_eq!(d.timestamp.secs, JUNE_1_10);
}
