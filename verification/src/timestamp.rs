//! The instant a record carries: seconds and nanoseconds since the Unix epoch,
//! together with the fixed offset from UTC it is shown in.

use vstd::prelude::*;

verus! {

/// Seconds since the epoch of the first representable instant, `-262143-01-01T00:00:00Z`.
pub const FIRST_SECOND: i64 = -8_334_601_228_800;

/// Seconds since the epoch of the last representable second, `+262142-12-31T23:59:59Z`.
pub const LAST_SECOND: i64 = 8_210_266_876_799;

/// A fixed offset lies strictly within one day of UTC, in seconds.
pub const DAY_SECONDS: i32 = 86_400;

pub const SECOND_NANOS: u32 = 1_000_000_000;

/// An instant with the offset from UTC it is read in.
///
/// `secs` and `nanos` count from the Unix epoch in UTC; `offset` is the number
/// of seconds that local time is ahead of UTC. Two timestamps are ordered and
/// compared by the instant alone.
#[derive(Clone, Copy, Debug)]
pub struct Timestamp {
    pub secs: i64,
    pub nanos: u32,
    pub offset: i32,
}

/// Whether `secs` and `nanos` name an instant of the calendar: the seconds lie
/// within its years, and a nanosecond count of a full second or more (a leap
/// second) stands only in the last second of a minute.
pub open spec fn representable(secs: int, nanos: int) -> bool {
    &&& FIRST_SECOND <= secs <= LAST_SECOND
    &&& 0 <= nanos < 2 * SECOND_NANOS
    &&& (nanos >= SECOND_NANOS ==> secs % 60 == 59)
}

/// The key of an instant: two thousand million for each of its seconds, and
/// one for each of its nanoseconds.
pub open spec fn instant_key(t: Timestamp) -> int {
    t.secs * 2_000_000_000 + t.nanos
}

impl Timestamp {
    /// The key of the instant.
    pub fn key(&self) -> (k: i128)
        ensures
            k == instant_key(*self),
    {
        (self.secs as i128) * 2_000_000_000 + (self.nanos as i128)
    }

    /// The instant is representable, the offset is less than a day, and the
    /// local time is within the calendar as well.
    pub open spec fn valid(self) -> bool {
        &&& representable(self.secs as int, self.nanos as int)
        &&& -DAY_SECONDS < self.offset < DAY_SECONDS
        &&& FIRST_SECOND <= self.secs + self.offset <= LAST_SECOND
    }

    /// `self` is strictly earlier than `other`.
    pub open spec fn precedes(self, other: Timestamp) -> bool {
        self.secs < other.secs || (self.secs == other.secs && self.nanos < other.nanos)
    }

    /// `self` and `other` are the same instant, whatever their offsets.
    pub open spec fn coincides(self, other: Timestamp) -> bool {
        self.secs == other.secs && self.nanos == other.nanos
    }

    pub fn is_valid(&self) -> (b: bool)
        ensures
            b == self.valid(),
    {
        if self.secs < FIRST_SECOND || self.secs > LAST_SECOND {
            return false;
        }
        if self.offset <= -DAY_SECONDS || self.offset >= DAY_SECONDS {
            return false;
        }
        let minute: i64 = self.secs % 60;
        let leap_ok = self.nanos < SECOND_NANOS || minute == 59 || minute == -1;
        let local: i64 = self.secs + (self.offset as i64);
        self.nanos < 2 * SECOND_NANOS && leap_ok && FIRST_SECOND <= local && local <= LAST_SECOND
    }

    pub fn is_before(&self, other: &Timestamp) -> (b: bool)
        ensures
            b == self.precedes(*other),
    {
        self.secs < other.secs || (self.secs == other.secs && self.nanos < other.nanos)
    }

    pub fn is_same_instant(&self, other: &Timestamp) -> (b: bool)
        ensures
            b == self.coincides(*other),
    {
        self.secs == other.secs && self.nanos == other.nanos
    }
}

} // verus!
