use dta::aggregators::Increment;
use dta::error::ErrorKind;
use dta::timestamp::Timestamp;

fn parts(i: &Increment) -> (i64, i64, i64, i64, i64, i64) {
    (i.years(), i.months(), i.days(), i.hours(), i.minutes(), i.seconds())
}

fn utc(secs: i64) -> Timestamp {
    Timestamp { secs, nanos: 0, offset: 0 }
}

#[test]
fn it_works() {
    let i = Increment::try_from("0001-01-01".to_string());
    println!("{:?}", i);
    assert!(i.is_ok());
    let i = Increment::try_from("02:06:01".to_string());
    println!("{:?}", i);
    assert!(i.is_ok());
    let i = Increment::try_from("0001-01-01 02:06:01".to_string());
    println!("{:?}", i);
    assert!(i.is_ok());
}

#[test]
fn date_names_years_months_days() {
    let i = Increment::try_from("2021-01-01".to_string()).unwrap();
    assert_eq!(parts(&i), (2021, 1, 1, 0, 0, 0));
}

#[test]
fn clock_names_hours_minutes_seconds() {
    let i = Increment::try_from("01:02:03".to_string()).unwrap();
    assert_eq!(parts(&i), (0, 0, 0, 1, 2, 3));
    assert_eq!(i.seconds_total(), 3723);
}

#[test]
fn date_and_clock_name_all_parts() {
    let i = Increment::try_from("0001-02-03 04:05:06".to_string()).unwrap();
    assert_eq!(parts(&i), (1, 2, 3, 4, 5, 6));
    assert_eq!(
        i.seconds_total(),
        52 * 7 * 86_400 + 2 * 30 * 86_400 + 3 * 86_400 + 4 * 3_600 + 5 * 60 + 6
    );
}

#[test]
fn malformed_increments_are_refused() {
    for text in [
        "2021-01",
        "",
        "1 day",
        "2021-01-01T00:00:00",
        "2021-01-01  00:00:00",
        "2021/01/01",
        "1:02:03",
        "01:02:03 ",
        " 01:02:03",
        "0a:02:03",
        "２０２１-01-01",
        "2021-01-01 01:02",
    ] {
        let e = Increment::try_from(text.to_string()).unwrap_err();
        assert_eq!(e.kind, ErrorKind::Increment, "{}", text);
        assert_eq!(e.reason, format!("Unable to parse {} into increment", text));
    }
}

#[test]
fn empty_increments_are_refused() {
    for text in ["0000-00-00", "00:00:00", "0000-00-00 00:00:00"] {
        let e = Increment::try_from(text.to_string()).unwrap_err();
        assert_eq!(e.kind, ErrorKind::Increment);
    }
}

#[test]
fn from_parts_keeps_the_parts() {
    let i = Increment::from_parts(0, 0, 1, -1, 0, 0);
    assert_eq!(parts(&i), (0, 0, 1, -1, 0, 0));
    assert_eq!(i.seconds_total(), 23 * 3_600);
}

#[test]
fn from_parts_takes_any_positive_span_that_fits() {
    let i = Increment::from_parts(0, 0, 0, 0, 0, 2_000_000_000);
    assert_eq!(i.seconds_total(), 2_000_000_000);
    let i = Increment::from_parts(3, 2, 1, 4, 5, 6);
    assert_eq!(i.seconds_total(), (3 * 364 + 2 * 30 + 1) * 86_400 + 4 * 3_600 + 5 * 60 + 6);
    let i = Increment::from_parts(0, 0, 0, 0, 0, i64::MAX);
    assert_eq!(i.seconds_total(), i64::MAX);
    let i = Increment::from_parts(i64::MAX, 0, 0, 0, 0, -(i64::MAX - 1));
    assert_eq!(parts(&i), (i64::MAX, 0, 0, 0, 0, -(i64::MAX - 1)));
    let i = Increment::from_parts(1, 0, 0, 0, 0, -31_449_599);
    assert_eq!(i.seconds_total(), 1);
    let i = Increment::from_parts(-1, 13, 0, 0, 0, 0);
    assert_eq!(i.seconds_total(), 26 * 86_400);
}

#[test]
fn a_day_rounds_to_the_nearest_midnight() {
    let day = Increment::try_from("0000-00-01".to_string()).unwrap();
    // 2021-01-01T05:00:00Z and T11:00:00Z go down, T23:00:00Z goes up.
    let midnight = 1_609_459_200;
    assert_eq!(day.rounded(utc(midnight + 5 * 3_600)).unwrap().secs, midnight);
    assert_eq!(day.rounded(utc(midnight + 11 * 3_600)).unwrap().secs, midnight);
    assert_eq!(day.rounded(utc(midnight + 23 * 3_600)).unwrap().secs, midnight + 86_400);
    assert_eq!(day.rounded(utc(midnight)).unwrap().secs, midnight);
}

#[test]
fn a_tie_rounds_to_the_later_boundary() {
    let day = Increment::try_from("0000-00-01".to_string()).unwrap();
    let midnight = 1_609_459_200;
    assert_eq!(day.rounded(utc(midnight + 12 * 3_600)).unwrap().secs, midnight + 86_400);
    let just_before = Timestamp { secs: midnight + 12 * 3_600 - 1, nanos: 999_999_999, offset: 0 };
    let r = day.rounded(just_before).unwrap();
    assert_eq!((r.secs, r.nanos, r.offset), (midnight, 0, 0));
}

#[test]
fn rounding_before_the_epoch() {
    let five = Increment::try_from("00:00:05".to_string()).unwrap();
    assert_eq!(five.rounded(utc(-7)).unwrap().secs, -5);
    assert_eq!(five.rounded(utc(-8)).unwrap().secs, -10);
    assert_eq!(five.rounded(utc(-10)).unwrap().secs, -10);
    let half = Timestamp { secs: -8, nanos: 500_000_000, offset: 0 };
    // -7.5 s lies as near to -10 as to -5: the later one wins.
    assert_eq!(five.rounded(half).unwrap().secs, -5);
}

#[test]
fn rounding_goes_by_local_time() {
    let day = Increment::try_from("0000-00-01".to_string()).unwrap();
    let midnight = 1_609_459_200;
    // 2021-01-01T11:00:00Z is 13:00 at +02:00, past the local noon.
    let at = Timestamp { secs: midnight + 11 * 3_600, nanos: 0, offset: 7_200 };
    let r = day.rounded(at).unwrap();
    assert_eq!((r.secs, r.nanos, r.offset), (midnight + 86_400 - 7_200, 0, 7_200));
}

fn nearest(secs: i64, nanos: u32, offset: i32, span: i64) -> i64 {
    let local = (secs as i128 + offset as i128) * 1_000_000_000 + nanos as i128;
    let width = span as i128 * 1_000_000_000;
    let below = local - local.rem_euclid(width);
    let target = if local == below || local - below < below + width - local {
        below
    } else {
        below + width
    };
    (target / 1_000_000_000 - offset as i128) as i64
}

#[test]
fn rounding_agrees_with_the_formula() {
    let texts = ["00:00:01", "00:00:07", "00:01:00", "01:00:00", "0000-00-01", "0000-01-00", "0001-00-00"];
    let mut seed: u64 = 0x9e37_79b9_7f4a_7c15;
    for text in texts {
        let inc = Increment::try_from(text.to_string()).unwrap();
        for _ in 0..500 {
            seed = seed.wrapping_mul(6364136223846793005).wrapping_add(1442695040888963407);
            let secs = ((seed >> 20) % 8_000_000_000) as i64 - 4_000_000_000;
            seed = seed.wrapping_mul(6364136223846793005).wrapping_add(1442695040888963407);
            let nanos = ((seed >> 33) % 1_000_000_000) as u32;
            seed = seed.wrapping_mul(6364136223846793005).wrapping_add(1442695040888963407);
            let offset = ((seed >> 33) % 172_799) as i32 - 86_399;
            let at = Timestamp { secs, nanos, offset };
            let r = inc.rounded(at).unwrap();
            assert_eq!(r.secs, nearest(secs, nanos, offset, inc.seconds_total()), "{:?} {}", at, text);
            assert_eq!(r.nanos, 0);
            assert_eq!(r.offset, offset);
        }
    }
}

#[test]
fn rounding_fails_beyond_the_limits() {
    // 9999 years do not fit a count of nanoseconds.
    let wide = Increment::try_from("9999-00-00".to_string()).unwrap();
    assert_eq!(wide.rounded(utc(0)).unwrap_err().kind, ErrorKind::Aggregator);
    // The longest span that does, and the first that does not.
    let longest = Increment::from_parts(0, 0, 0, 0, 0, 9_223_372_036);
    assert_eq!(longest.rounded(utc(1)).unwrap().secs, 0);
    let too_long = Increment::from_parts(0, 0, 0, 0, 0, 9_223_372_037);
    assert!(too_long.rounded(utc(1)).is_err());
    // A timestamp whose nanoseconds do not fit.
    let second = Increment::try_from("00:00:01".to_string()).unwrap();
    assert!(second.rounded(utc(9_223_372_037)).is_err());
    assert!(second.rounded(utc(9_223_372_036)).is_ok());
    assert!(second.rounded(utc(-9_223_372_037)).is_err());
    assert!(second.rounded(utc(-9_223_372_036)).is_ok());
    let edge = Timestamp { secs: 9_223_372_036, nanos: 854_775_807, offset: 0 };
    assert!(second.rounded(edge).is_ok());
    let over = Timestamp { secs: 9_223_372_036, nanos: 854_775_808, offset: 0 };
    assert!(second.rounded(over).is_err());
    // A timestamp that is not valid.
    let odd = Timestamp { secs: 0, nanos: 0, offset: 86_400 };
    assert_eq!(second.rounded(odd).unwrap_err().kind, ErrorKind::Aggregator);
}
