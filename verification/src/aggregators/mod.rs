//! Aggregators take the records of a stream one by one and report once the
//! stream has ended. The bucketed ones file each record under the multiple of
//! an [`Increment`] nearest to its timestamp.

pub mod buckets;
pub mod count;
pub mod max;
pub mod min;
pub mod range;
pub mod split;

use crate::calendar::{round_by_seconds, rounding};
use crate::data::{Data, Record};
use crate::error::{Error, ErrorKind};
use crate::text::{chars_of, digits_at, number_at, number_at_bound, read_number};
use crate::timestamp::Timestamp;
use vstd::prelude::*;
use vstd::string::*;

verus! {

/// What is left to do outside once an aggregator has taken a record.
#[derive(Debug)]
pub enum Effect {
    /// Nothing.
    Nothing,
    /// Append `bytes` to the file `target` in `directory`, which is made if it
    /// is missing; with `parents`, the directories that `target` names on the
    /// way to the file are made first.
    Append { directory: String, target: String, parents: bool, bytes: Vec<u8> },
}

/// An aggregator takes the records of a stream one by one and reports at its end.
pub trait Aggregator: Sized {
    /// What the aggregator relies on between two calls.
    spec fn wf(&self) -> bool;

    /// Whether the aggregator, as it stands, refuses the record.
    spec fn refuses(&self, data: Record) -> bool;

    /// Whether the aggregator, once it has taken the record, is `after`, and
    /// `effect` is what is left to do for it.
    spec fn took(&self, data: Record, after: &Self, effect: Effect) -> bool;

    /// Takes one record, or refuses it. A record that is refused leaves the
    /// aggregator as it was.
    fn update(&mut self, data: &Data) -> (r: Result<Effect, Error>)
        requires
            old(self).wf(),
        ensures
            final(self).wf(),
            r is Err <==> old(self).refuses(data@),
            r is Err ==> *final(self) == *old(self),
            r matches Ok(effect) ==> old(self).took(data@, final(self), effect),
    ;

    /// The report, as text. It does not depend on a record having been taken.
    fn return_value(&self) -> (r: Result<String, Error>)
        requires
            self.wf(),
    ;
}

pub const MINUTE: i64 = 60;

pub const HOUR: i64 = 3_600;

pub const DAY: i64 = 86_400;

/// A month of an increment counts as thirty days.
pub const MONTH: i64 = 2_592_000;

/// A year of an increment counts as fifty-two weeks.
pub const YEAR: i64 = 31_449_600;

/// The seconds in a span of the given parts.
pub open spec fn span_of(
    years: int,
    months: int,
    days: int,
    hours: int,
    minutes: int,
    seconds: int,
) -> int {
    years * YEAR + months * MONTH + days * DAY + hours * HOUR + minutes * MINUTE + seconds
}

/// The span that the parts make is positive, and its seconds fit a signed
/// 64-bit count.
pub open spec fn parts_make_span(
    years: int,
    months: int,
    days: int,
    hours: int,
    minutes: int,
    seconds: int,
) -> bool {
    0 < span_of(years, months, days, hours, minutes, seconds) <= i64::MAX
}

/// From `at` on, `s` reads four digits, a hyphen, two digits, a hyphen and two digits.
pub open spec fn date_at(s: Seq<char>, at: int) -> bool {
    &&& digits_at(s, at, 4)
    &&& digits_at(s, at + 5, 2)
    &&& digits_at(s, at + 8, 2)
    &&& s[at + 4] == '-'
    &&& s[at + 7] == '-'
}

/// From `at` on, `s` reads two digits, a colon, two digits, a colon and two digits.
pub open spec fn clock_at(s: Seq<char>, at: int) -> bool {
    &&& digits_at(s, at, 2)
    &&& digits_at(s, at + 3, 2)
    &&& digits_at(s, at + 6, 2)
    &&& s[at + 2] == ':'
    &&& s[at + 5] == ':'
}

/// The parts that the text of an increment names, in the order years, months,
/// days, hours, minutes, seconds. The text is a date `YYYY-MM-DD`, a clock
/// `HH:MM:SS`, or the date, one space and the clock; anything else names none.
pub open spec fn increment_parts(s: Seq<char>) -> Option<(int, int, int, int, int, int)> {
    if s.len() == 19 && date_at(s, 0) && s[10] == ' ' && clock_at(s, 11) {
        Some(
            (
                number_at(s, 0, 4),
                number_at(s, 5, 2),
                number_at(s, 8, 2),
                number_at(s, 11, 2),
                number_at(s, 14, 2),
                number_at(s, 17, 2),
            ),
        )
    } else if s.len() == 8 && clock_at(s, 0) {
        Some((0, 0, 0, number_at(s, 0, 2), number_at(s, 3, 2), number_at(s, 6, 2)))
    } else if s.len() == 10 && date_at(s, 0) {
        Some((number_at(s, 0, 4), number_at(s, 5, 2), number_at(s, 8, 2), 0, 0, 0))
    } else {
        None
    }
}

/// The parts of the increment that `s` names, where it names one that is not empty.
pub open spec fn increment_of(s: Seq<char>) -> Option<(int, int, int, int, int, int)> {
    match increment_parts(s) {
        Some(p) => if span_of(p.0, p.1, p.2, p.3, p.4, p.5) > 0 {
            Some(p)
        } else {
            None
        },
        None => None,
    }
}

/// What the error says of a text that names no increment.
pub open spec fn increment_complaint(s: Seq<char>) -> Seq<char> {
    "Unable to parse "@ + s + " into increment"@
}

/// Reads the three numbers of a date from `at` on.
fn read_date(s: &Vec<char>, at: usize) -> (r: Option<(i64, i64, i64)>)
    requires
        at + 10 <= usize::MAX,
    ensures
        r == (if date_at(s@, at as int) {
            Some(
                (
                    number_at(s@, at as int, 4) as i64,
                    number_at(s@, at + 5, 2) as i64,
                    number_at(s@, at + 8, 2) as i64,
                ),
            )
        } else {
            None
        }),
        r matches Some(d) ==> 0 <= d.0 < 10_000 && 0 <= d.1 < 100 && 0 <= d.2 < 100 && d.0
            == number_at(s@, at as int, 4) && d.1 == number_at(s@, at + 5, 2) && d.2 == number_at(
            s@,
            at + 8,
            2,
        ),
{
    let years = read_number(s, at, 4);
    let months = read_number(s, at + 5, 2);
    let days = read_number(s, at + 8, 2);
    match (years, months, days) {
        (Some(y), Some(m), Some(d)) => {
            if s[at + 4] == '-' && s[at + 7] == '-' {
                proof {
                    reveal_with_fuel(crate::text::ten_to, 5);
                    number_at_bound(s@, at as int, 4);
                    number_at_bound(s@, at + 5, 2);
                    number_at_bound(s@, at + 8, 2);
                }
                Some((y, m, d))
            } else {
                None
            }
        },
        _ => None,
    }
}

/// Reads the three numbers of a clock from `at` on.
fn read_clock(s: &Vec<char>, at: usize) -> (r: Option<(i64, i64, i64)>)
    requires
        at + 8 <= usize::MAX,
    ensures
        r == (if clock_at(s@, at as int) {
            Some(
                (
                    number_at(s@, at as int, 2) as i64,
                    number_at(s@, at + 3, 2) as i64,
                    number_at(s@, at + 6, 2) as i64,
                ),
            )
        } else {
            None
        }),
        r matches Some(d) ==> 0 <= d.0 < 100 && 0 <= d.1 < 100 && 0 <= d.2 < 100 && d.0
            == number_at(s@, at as int, 2) && d.1 == number_at(s@, at + 3, 2) && d.2 == number_at(
            s@,
            at + 6,
            2,
        ),
{
    let hours = read_number(s, at, 2);
    let minutes = read_number(s, at + 3, 2);
    let seconds = read_number(s, at + 6, 2);
    match (hours, minutes, seconds) {
        (Some(h), Some(m), Some(x)) => {
            if s[at + 2] == ':' && s[at + 5] == ':' {
                proof {
                    reveal_with_fuel(crate::text::ten_to, 3);
                    number_at_bound(s@, at as int, 2);
                    number_at_bound(s@, at + 3, 2);
                    number_at_bound(s@, at + 6, 2);
                }
                Some((h, m, x))
            } else {
                None
            }
        },
        _ => None,
    }
}

/// The width of a bucket: a positive span of years, months, days, hours,
/// minutes and seconds, a year counting as 52 weeks and a month as 30 days.
#[derive(Debug, Clone, Copy)]
pub struct Increment {
    years: i64,
    months: i64,
    days: i64,
    hours: i64,
    minutes: i64,
    seconds: i64,
}

impl Increment {
    #[verifier::type_invariant]
    spec fn well_formed(self) -> bool {
        parts_make_span(
            self.years as int,
            self.months as int,
            self.days as int,
            self.hours as int,
            self.minutes as int,
            self.seconds as int,
        )
    }

    /// The parts in the order years, months, days, hours, minutes, seconds.
    pub closed spec fn parts(self) -> (int, int, int, int, int, int) {
        (
            self.years as int,
            self.months as int,
            self.days as int,
            self.hours as int,
            self.minutes as int,
            self.seconds as int,
        )
    }

    /// The seconds in the increment.
    pub open spec fn span(self) -> int {
        let p = self.parts();
        span_of(p.0, p.1, p.2, p.3, p.4, p.5)
    }

    /// An increment of the given parts. The span they make, a year counting
    /// as 52 weeks and a month as 30 days, has to be positive and to fit a
    /// signed 64-bit count of seconds.
    pub fn from_parts(
        years: i64,
        months: i64,
        days: i64,
        hours: i64,
        minutes: i64,
        seconds: i64,
    ) -> (inc: Self)
        requires
            parts_make_span(
                years as int,
                months as int,
                days as int,
                hours as int,
                minutes as int,
                seconds as int,
            ),
        ensures
            inc.parts() == (
                years as int,
                months as int,
                days as int,
                hours as int,
                minutes as int,
                seconds as int,
            ),
            inc.span() == ((years * 364 + months * 30 + days) * 86_400 + hours * 3_600 + minutes
                * 60 + seconds),
    {
        Increment { years, months, days, hours, minutes, seconds }
    }

    /// Reads an increment from its text: a date `YYYY-MM-DD` for years, months
    /// and days, a clock `HH:MM:SS` for hours, minutes and seconds, or both with
    /// one space between. A text of another shape, or one whose numbers are all
    /// zero, is refused.
    pub fn try_from(s: String) -> (r: Result<Increment, Error>)
        ensures
            match r {
                Ok(inc) => increment_of(s@) == Some(inc.parts()),
                Err(e) => increment_of(s@) is None && e.kind == ErrorKind::Increment && e.reason@
                    == increment_complaint(s@),
            },
    {
        let chars = chars_of(s.as_str());
        let parts = if chars.len() == 19 {
            match (read_date(&chars, 0), read_clock(&chars, 11)) {
                (Some(d), Some(c)) => if chars[10] == ' ' {
                    Some((d.0, d.1, d.2, c.0, c.1, c.2))
                } else {
                    None
                },
                _ => None,
            }
        } else if chars.len() == 8 {
            match read_clock(&chars, 0) {
                Some(c) => Some((0i64, 0i64, 0i64, c.0, c.1, c.2)),
                None => None,
            }
        } else if chars.len() == 10 {
            match read_date(&chars, 0) {
                Some(d) => Some((d.0, d.1, d.2, 0i64, 0i64, 0i64)),
                None => None,
            }
        } else {
            None
        };
        match parts {
            Some(p) => {
                if p.0 > 0 || p.1 > 0 || p.2 > 0 || p.3 > 0 || p.4 > 0 || p.5 > 0 {
                    return Ok(Increment::from_parts(p.0, p.1, p.2, p.3, p.4, p.5));
                }
            },
            None => {},
        }
        let reason = String::from_str("Unable to parse ").concat(s.as_str()).concat(
            " into increment",
        );
        Err(Error::new(reason, ErrorKind::Increment))
    }

    pub fn years(&self) -> (n: i64)
        ensures
            n == self.parts().0,
    {
        self.years
    }

    pub fn months(&self) -> (n: i64)
        ensures
            n == self.parts().1,
    {
        self.months
    }

    pub fn days(&self) -> (n: i64)
        ensures
            n == self.parts().2,
    {
        self.days
    }

    pub fn hours(&self) -> (n: i64)
        ensures
            n == self.parts().3,
    {
        self.hours
    }

    pub fn minutes(&self) -> (n: i64)
        ensures
            n == self.parts().4,
    {
        self.minutes
    }

    pub fn seconds(&self) -> (n: i64)
        ensures
            n == self.parts().5,
    {
        self.seconds
    }

    /// The number of seconds in the increment.
    pub fn seconds_total(&self) -> (n: i64)
        ensures
            n == self.span(),
            n > 0,
    {
        proof {
            use_type_invariant(self);
        }
        let days: i128 = (self.years as i128) * 364 + (self.months as i128) * 30
            + (self.days as i128);
        let total: i128 = days * 86_400 + (self.hours as i128) * 3_600
            + (self.minutes as i128) * 60 + (self.seconds as i128);
        total as i64
    }
}

impl Increment {
    /// Rounds `dt` to the multiple of the increment nearest to its local time.
    /// Fails where `dt` is not valid, and where the increment or the local
    /// time of `dt` is too wide to count in nanoseconds.
    pub fn rounded(&self, dt: Timestamp) -> (r: Result<Timestamp, Error>)
        ensures
            match r {
                Ok(t) => dt.valid() && rounding(dt, self.span()) == Some(t),
                Err(e) => e.kind == ErrorKind::Aggregator && (!dt.valid() || rounding(
                    dt,
                    self.span(),
                ) is None),
            },
    {
        if dt.is_valid() {
            match round_by_seconds(dt, self.seconds_total()) {
                Some(t) => {
                    return Ok(t);
                },
                None => {},
            }
        }
        Err(
            Error::new(
                String::from_str("The timestamp cannot be rounded by the increment"),
                ErrorKind::Aggregator,
            ),
        )
    }
}

} // verus!
