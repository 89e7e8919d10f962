use dta::text::{
    append_bytes, chars_of, copy_of, decimal_text, digit_of, has_char, read_integer, read_number,
    replace_all, trim_line_feeds,
};

fn chars(s: &str) -> Vec<char> {
    s.chars().collect()
}

#[test]
fn the_characters_of_a_text() {
    assert_eq!(chars_of("héllo ✓"), vec!['h', 'é', 'l', 'l', 'o', ' ', '✓']);
    assert!(chars_of("").is_empty());
}

#[test]
fn digits() {
    assert_eq!(digit_of('0'), Some(0));
    assert_eq!(digit_of('7'), Some(7));
    assert_eq!(digit_of('9'), Some(9));
    for c in ['/', ':', 'a', ' ', '٣', '７'] {
        assert_eq!(digit_of(c), None);
    }
}

#[test]
fn numbers_of_a_fixed_width() {
    let s = chars("ab2021-07x");
    assert_eq!(read_number(&s, 2, 4), Some(2021));
    assert_eq!(read_number(&s, 7, 2), Some(7));
    assert_eq!(read_number(&s, 2, 0), Some(0));
    assert_eq!(read_number(&s, 10, 0), Some(0));
    assert_eq!(read_number(&s, 1, 2), None);
    assert_eq!(read_number(&s, 5, 2), None);
    assert_eq!(read_number(&s, 8, 3), None);
    assert_eq!(read_number(&s, 11, 0), None);
    assert_eq!(read_number(&chars("999999999999999999"), 0, 18), Some(999_999_999_999_999_999));
}

#[test]
fn whole_numbers() {
    for (text, value) in [
        ("0", 0),
        ("-0", 0),
        ("+0", 0),
        ("007", 7),
        ("1622541600", 1_622_541_600),
        ("-1622541600", -1_622_541_600),
        ("+42", 42),
        ("9223372036854775807", i64::MAX),
        ("-9223372036854775808", i64::MIN),
        ("000000000000000000000000000009223372036854775807", i64::MAX),
    ] {
        assert_eq!(read_integer(&chars(text)), Some(value), "{}", text);
        assert_eq!(text.parse::<i64>().ok(), Some(value));
    }
}

#[test]
fn what_is_no_whole_number() {
    for text in [
        "", "+", "-", "--1", "+-1", "1-", " 1", "1 ", "1.0", "1e3", "0x10", "１",
        "9223372036854775808", "-9223372036854775809", "99999999999999999999999999",
    ] {
        assert_eq!(read_integer(&chars(text)), None, "{}", text);
        assert!(text.parse::<i64>().is_err());
    }
}

#[test]
fn numbers_in_decimal() {
    for n in [0u64, 1, 9, 10, 11, 99, 100, 1_000_000, 18_446_744_073_709_551_615] {
        assert_eq!(decimal_text(n), n.to_string());
    }
}

#[test]
fn line_feeds_at_the_end() {
    assert_eq!(trim_line_feeds("a\n"), "a");
    assert_eq!(trim_line_feeds("a\n\n\n"), "a");
    assert_eq!(trim_line_feeds("\na\nb"), "\na\nb");
    assert_eq!(trim_line_feeds("a \n"), "a ");
    assert_eq!(trim_line_feeds("a\r\n"), "a\r");
    assert_eq!(trim_line_feeds("\n\n"), "");
    assert_eq!(trim_line_feeds(""), "");
}

#[test]
fn replacing() {
    for (text, from, to) in [
        ("a,b,a", "a", "xy"),
        ("aaaa", "aa", "b"),
        ("aaa", "aa", "b"),
        ("abcabc", "bc", ""),
        ("abc", "abcd", "x"),
        ("abc", "abc", "x"),
        ("abc", "", "-"),
        ("", "", "-"),
        ("", "a", "-"),
        ("héé✓é", "é", "e"),
        ("ababab", "aba", "c"),
        ("2021-06-01,x,2021-06-01", "2021-06-01", "01.06.2021"),
    ] {
        assert_eq!(replace_all(text, from, to), text.replace(from, to), "{:?} {:?} {:?}", text, from, to);
    }
    assert_eq!(replace_all("abc", "", "-"), "-a-b-c-");
    assert_eq!(replace_all("aaa", "aa", "b"), "ba");
}

#[test]
fn characters_in_a_text() {
    assert!(has_char("%Y/%m", '/'));
    assert!(!has_char("%Y-%m", '/'));
    assert!(!has_char("", '/'));
    assert!(has_char("é/", '/'));
}

#[test]
fn bytes() {
    let mut a = vec![1u8, 2];
    append_bytes(&mut a, &vec![3, 4, 5]);
    assert_eq!(a, vec![1, 2, 3, 4, 5]);
    append_bytes(&mut a, &Vec::new());
    assert_eq!(a, vec![1, 2, 3, 4, 5]);
    assert_eq!(copy_of(&a), a);
}
