//! The calendar arithmetic this crate takes from `chrono`, and the clock.
//!
//! Every function here is a thin call into `chrono` or std whose contract is
//! taken on trust: it was read off the source of `chrono` and the
//! documentation of std, and Verus does not check it.

use crate::timestamp::{representable, Timestamp, SECOND_NANOS};
use chrono::DurationRound;
use std::fmt::Write;
use vstd::prelude::*;

verus! {

/// The instant and offset that `chrono` reads from `text` by the `strftime`
/// pattern `pattern`, where the two together name an instant and its offset.
pub uninterp spec fn zoned_reading(text: Seq<char>, pattern: Seq<char>) -> Option<(i64, u32, i32)>;

/// The date and time that `chrono` reads from `text` by the `strftime` pattern
/// `pattern`, counted in seconds and nanoseconds from the epoch as if it were
/// UTC, where the two together name a date and a time.
pub uninterp spec fn naive_reading(text: Seq<char>, pattern: Seq<char>) -> Option<(i64, u32)>;

/// The instant and offset that `chrono` reads from `text` as an RFC 2822 date.
pub uninterp spec fn rfc2822_reading(text: Seq<char>) -> Option<(i64, u32, i32)>;

/// The instant and offset that `chrono` reads from `text` as an RFC 3339 date.
pub uninterp spec fn rfc3339_reading(text: Seq<char>) -> Option<(i64, u32, i32)>;

/// The text that `chrono` writes for an instant at an offset by the `strftime`
/// pattern `pattern`; none where the three numbers name no date and time, and
/// where the pattern cannot be written.
pub uninterp spec fn rendering(secs: i64, nanos: u32, offset: i32, pattern: Seq<char>) -> Option<
    Seq<char>,
>;

/// The text that `chrono` shows for an instant in UTC, as in
/// `2021-06-01 10:00:00 UTC`; none where the numbers name no date and time.
pub uninterp spec fn utc_rendering(secs: i64, nanos: u32) -> Option<Seq<char>>;

/// The longest span, in seconds, whose nanoseconds fit a signed 64-bit count.
pub const LONGEST_SPAN: i64 = 9_223_372_036;

/// What `chrono` returns when it rounds an instant that lies within a leap
/// second (`nanos` of a full second or more) by a span of whole seconds.
pub uninterp spec fn leap_rounding(secs: i64, nanos: u32, offset: i32, span: i64) -> Option<
    (i64, u32, i32),
>;

/// The reading of a triple of seconds, nanoseconds and offset as a timestamp.
pub open spec fn stamp(t: (i64, u32, i32)) -> Timestamp {
    Timestamp { secs: t.0, nanos: t.1, offset: t.2 }
}

/// `stamp` of the triple, where there is one.
pub open spec fn stamped(t: Option<(i64, u32, i32)>) -> Option<Timestamp> {
    match t {
        Some(t) => Some(stamp(t)),
        None => None,
    }
}

/// The local time of `ts` in nanoseconds since the epoch, for a timestamp
/// outside a leap second.
pub open spec fn local_nanos(ts: Timestamp) -> int {
    (ts.secs + ts.offset) * 1_000_000_000 + ts.nanos
}

/// The multiple of `span` seconds nearest to the local time of `ts`, counted
/// from the epoch; of two equally near, the later one. There is none when the
/// span is not positive, when its nanoseconds or those of the local time
/// exceed a signed 64-bit count.
pub open spec fn nearest_boundary(ts: Timestamp, span: int) -> Option<Timestamp> {
    let local = local_nanos(ts);
    let width = span * 1_000_000_000;
    let below = local - local % width;
    let target = if local == below || local - below < below + width - local {
        below
    } else {
        below + width
    };
    if 0 < span <= LONGEST_SPAN && i64::MIN <= local <= i64::MAX {
        Some(
            Timestamp {
                secs: (target / 1_000_000_000 - ts.offset) as i64,
                nanos: 0,
                offset: ts.offset,
            },
        )
    } else {
        None
    }
}

/// The timestamp that `ts` rounds to by a span of `span` seconds.
pub open spec fn rounding(ts: Timestamp, span: int) -> Option<Timestamp> {
    if ts.nanos < SECOND_NANOS {
        nearest_boundary(ts, span)
    } else {
        stamped(leap_rounding(ts.secs, ts.nanos, ts.offset, span as i64))
    }
}

/// `DateTime::parse_from_str` of `chrono`, with the instant and the offset of
/// what it returns.
///
/// Trusted: the result depends on the two texts alone.
#[verifier::external_body]
pub(crate) fn read_zoned(text: &str, pattern: &str) -> (r: Option<Timestamp>)
    ensures
        r == stamped(zoned_reading(text@, pattern@)),
{
    let at = chrono::DateTime::parse_from_str(text, pattern).ok()?;
    Some(
        Timestamp {
            secs: at.timestamp(),
            nanos: at.timestamp_subsec_nanos(),
            offset: at.offset().local_minus_utc(),
        },
    )
}

/// `NaiveDateTime::parse_from_str` of `chrono`, with the seconds and
/// nanoseconds of what it returns, taken as UTC.
///
/// Trusted: the result depends on the two texts alone.
#[verifier::external_body]
pub(crate) fn read_naive(text: &str, pattern: &str) -> (r: Option<(i64, u32)>)
    ensures
        r == naive_reading(text@, pattern@),
{
    let at = chrono::NaiveDateTime::parse_from_str(text, pattern).ok()?.and_utc();
    Some((at.timestamp(), at.timestamp_subsec_nanos()))
}

/// `DateTime::parse_from_rfc2822` of `chrono`, with the instant and the offset
/// of what it returns.
///
/// Trusted: the result depends on the text alone.
#[verifier::external_body]
pub(crate) fn read_rfc2822(text: &str) -> (r: Option<Timestamp>)
    ensures
        r == stamped(rfc2822_reading(text@)),
{
    let at = chrono::DateTime::parse_from_rfc2822(text).ok()?;
    Some(
        Timestamp {
            secs: at.timestamp(),
            nanos: at.timestamp_subsec_nanos(),
            offset: at.offset().local_minus_utc(),
        },
    )
}

/// `DateTime::parse_from_rfc3339` of `chrono`, with the instant and the offset
/// of what it returns.
///
/// Trusted: the result depends on the text alone.
#[verifier::external_body]
pub(crate) fn read_rfc3339(text: &str) -> (r: Option<Timestamp>)
    ensures
        r == stamped(rfc3339_reading(text@)),
{
    let at = chrono::DateTime::parse_from_rfc3339(text).ok()?;
    Some(
        Timestamp {
            secs: at.timestamp(),
            nanos: at.timestamp_subsec_nanos(),
            offset: at.offset().local_minus_utc(),
        },
    )
}

/// `DateTime::from_timestamp` of `chrono`, with the seconds and nanoseconds
/// of what it returns.
///
/// Trusted: there is a date and time for exactly the representable pairs, and
/// it counts the seconds and nanoseconds it was made of.
#[verifier::external_body]
pub(crate) fn read_epoch(secs: i64, nanos: u32) -> (r: Option<(i64, u32)>)
    ensures
        r == (if representable(secs as int, nanos as int) {
            Some((secs, nanos))
        } else {
            None
        }),
{
    let at = chrono::DateTime::from_timestamp(secs, nanos)?;
    Some((at.timestamp(), at.timestamp_subsec_nanos()))
}

/// `DateTime::format` of `chrono`, written out, on the date and time that
/// `DateTime::from_timestamp` and `DateTime::with_timezone` make of `ts`.
///
/// Trusted: the result depends on the timestamp and the pattern alone.
#[verifier::external_body]
pub(crate) fn render(ts: &Timestamp, pattern: &str) -> (r: Option<String>)
    ensures
        match r {
            Some(text) => rendering(ts.secs, ts.nanos, ts.offset, pattern@) == Some(text@),
            None => rendering(ts.secs, ts.nanos, ts.offset, pattern@) is None,
        },
{
    let zone = chrono::FixedOffset::east_opt(ts.offset)?;
    let at = chrono::DateTime::from_timestamp(ts.secs, ts.nanos)?.with_timezone(&zone);
    let mut text = String::new();
    write!(text, "{}", at.format(pattern)).ok()?;
    Some(text)
}

/// The `Display` of `chrono` for the date and time in UTC that
/// `DateTime::from_timestamp` makes of the instant of `ts`.
///
/// Trusted: the result depends on the instant alone.
#[verifier::external_body]
pub(crate) fn render_utc(ts: &Timestamp) -> (r: Option<String>)
    ensures
        match r {
            Some(text) => utc_rendering(ts.secs, ts.nanos) == Some(text@),
            None => utc_rendering(ts.secs, ts.nanos) is None,
        },
{
    let at = chrono::DateTime::from_timestamp(ts.secs, ts.nanos)?;
    let mut text = String::new();
    write!(text, "{}", at).ok()?;
    Some(text)
}

/// `SystemTime::elapsed` of std on `UNIX_EPOCH`: the seconds and nanoseconds
/// that the clock of the machine stands behind the epoch.
///
/// Trusted: nothing is claimed of the result, which differs from call to
/// call. There is none where the clock stands before the epoch.
#[verifier::external_body]
pub(crate) fn since_epoch() -> Option<(u64, u32)> {
    let since = std::time::UNIX_EPOCH.elapsed().ok()?;
    Some((since.as_secs(), since.subsec_nanos()))
}

/// `DurationRound::duration_round` of `chrono`, on the date and time that
/// `DateTime::from_timestamp` and `DateTime::with_timezone` make of `ts`, by
/// the `TimeDelta` that `TimeDelta::try_seconds` makes of `span`.
///
/// Trusted: outside a leap second the result is the nearest multiple of the
/// span in local time, ties going to the later one, and there is none where
/// `chrono` reports that span or timestamp exceed its limits. `chrono` panics
/// when the local time is outside its calendar, which `valid` rules out.
#[verifier::external_body]
pub(crate) fn round_by_seconds(ts: Timestamp, span: i64) -> (r: Option<Timestamp>)
    requires
        ts.valid(),
    ensures
        ts.nanos < SECOND_NANOS ==> r == nearest_boundary(ts, span as int),
        ts.nanos >= SECOND_NANOS ==> r == stamped(leap_rounding(ts.secs, ts.nanos, ts.offset, span)),
{
    let zone = chrono::FixedOffset::east_opt(ts.offset)?;
    let at = chrono::DateTime::from_timestamp(ts.secs, ts.nanos)?.with_timezone(&zone);
    let to = at.duration_round(chrono::TimeDelta::try_seconds(span)?).ok()?;
    Some(
        Timestamp {
            secs: to.timestamp(),
            nanos: to.timestamp_subsec_nanos(),
            offset: to.offset().local_minus_utc(),
        },
    )
}

} // verus!
