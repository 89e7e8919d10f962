//! The records of a window of time. They are held in memory up to a limit
//! of bytes; what goes beyond it is handed out for an overflow file.

use crate::aggregators::split::line_of;
use crate::aggregators::{Aggregator, Effect};
use crate::calendar::{read_epoch, render_utc, since_epoch, utc_rendering};
use crate::data::{instant_of, Data, Record};
use crate::error::{Error, ErrorKind};
use crate::text::{append_bytes, trimmed, value_view};
use crate::timestamp::{representable, Timestamp};
use vstd::prelude::*;
use vstd::string::*;
use vstd::utf8::{decode_utf8, valid_utf8};

verus! {

/// The bytes of records that an aggregator holds before it hands them out.
pub const SIZE_LIMIT: usize = 1_000_000;

/// The directory of the overflow file.
pub const OVERFLOW_DIRECTORY: &'static str = "/tmp";

/// The name of the overflow file.
pub const OVERFLOW_FILE: &'static str = "DTA_RANGE_AGG";

/// Whether a record of the timestamp `at` is taken: one from `start` to `end`,
/// both included; or, with `inverted`, one up to `start` or from `end` on,
/// both included again.
pub open spec fn within(start: Timestamp, end: Timestamp, inverted: bool, at: Timestamp) -> bool {
    if inverted {
        !start.precedes(at) || !at.precedes(end)
    } else {
        !at.precedes(start) && !end.precedes(at)
    }
}

/// The bytes that the records hold together.
pub open spec fn size_of(records: Seq<Record>) -> nat
    decreases records.len(),
{
    if records.len() == 0 {
        0
    } else {
        size_of(records.drop_last()) + records.last().raw.len()
    }
}

/// The records as they are written to a file: each with one line feed behind it.
pub open spec fn lines_of(records: Seq<Record>) -> Seq<u8>
    decreases records.len(),
{
    if records.len() == 0 {
        Seq::<u8>::empty()
    } else {
        lines_of(records.drop_last()) + line_of(records.last().raw)
    }
}

/// What is held and what is handed out once a record has arrived: a record
/// outside the window changes nothing; one within it joins those held, and
/// where they then hold more than `limit` bytes all of them are handed out.
pub open spec fn range_step(limit: nat, held: Seq<Record>, taken: bool, new: Record) -> (
    Seq<Record>,
    Seq<Record>,
) {
    if !taken {
        (held, Seq::<Record>::empty())
    } else if size_of(held.push(new)) > limit {
        (Seq::<Record>::empty(), held.push(new))
    } else {
        (held.push(new), Seq::<Record>::empty())
    }
}

/// What is held, and all that has been handed out, once the records have
/// arrived in their order at an aggregator that held nothing.
pub open spec fn range_run(
    start: Timestamp,
    end: Timestamp,
    inverted: bool,
    limit: nat,
    records: Seq<Record>,
) -> (Seq<Record>, Seq<Record>)
    decreases records.len(),
{
    if records.len() == 0 {
        (Seq::<Record>::empty(), Seq::<Record>::empty())
    } else {
        let before = range_run(start, end, inverted, limit, records.drop_last());
        let new = records.last();
        let step = range_step(limit, before.0, within(start, end, inverted, new.timestamp), new);
        (step.0, before.1 + step.1)
    }
}

/// The records of the window among `records`, in their order.
pub open spec fn chosen(start: Timestamp, end: Timestamp, inverted: bool, records: Seq<Record>) -> Seq<
    Record,
>
    decreases records.len(),
{
    if records.len() == 0 {
        Seq::<Record>::empty()
    } else if within(start, end, inverted, records.last().timestamp) {
        chosen(start, end, inverted, records.drop_last()).push(records.last())
    } else {
        chosen(start, end, inverted, records.drop_last())
    }
}

/// Writing one run of records behind another writes the two together.
pub proof fn lines_of_both(first: Seq<Record>, second: Seq<Record>)
    ensures
        lines_of(first + second) == lines_of(first) + lines_of(second),
    decreases second.len(),
{
    if second.len() == 0 {
        assert(first + second =~= first);
    } else {
        lines_of_both(first, second.drop_last());
        assert((first + second).drop_last() =~= first + second.drop_last());
        assert((first + second).last() == second.last());
    }
}

/// Whatever records arrive, those handed out followed by those held are the
/// records of the window, each once and in the order of arrival; the same
/// holds of their lines; and those held never exceed the limit.
pub proof fn nothing_lost(
    start: Timestamp,
    end: Timestamp,
    inverted: bool,
    limit: nat,
    records: Seq<Record>,
)
    ensures
        ({
            let run = range_run(start, end, inverted, limit, records);
            &&& run.1 + run.0 == chosen(start, end, inverted, records)
            &&& lines_of(run.1) + lines_of(run.0) == lines_of(
                chosen(start, end, inverted, records),
            )
            &&& size_of(run.0) <= limit
        }),
    decreases records.len(),
{
    let run = range_run(start, end, inverted, limit, records);
    if records.len() > 0 {
        let before = range_run(start, end, inverted, limit, records.drop_last());
        nothing_lost(start, end, inverted, limit, records.drop_last());
        let new = records.last();
        if within(start, end, inverted, new.timestamp) {
            assert(run.1 + run.0 =~= (before.1 + before.0).push(new));
        } else {
            assert(run.1 + run.0 =~= before.1 + before.0);
        }
    } else {
        assert(run.1 + run.0 =~= Seq::<Record>::empty());
    }
    lines_of_both(run.1, run.0);
}

/// The report for the first `upto` records held: the text of each without
/// the line feeds at its end, and one line feed behind it. There is no
/// report where the bytes of a record are no text.
pub open spec fn held_lines(held: Seq<Record>, upto: nat) -> Option<Seq<char>>
    decreases upto,
{
    if upto == 0 {
        Some(Seq::<char>::empty())
    } else {
        let raw = held[upto - 1].raw;
        match held_lines(held, (upto - 1) as nat) {
            Some(above) => if valid_utf8(raw) {
                Some(above + trimmed(decode_utf8(raw)) + "\n"@)
            } else {
                None
            },
            None => None,
        }
    }
}

/// Once there is no report for some of the records, there is none for more of them.
pub proof fn held_lines_stay_none(held: Seq<Record>, some: nat, more: nat)
    requires
        some <= more,
        held_lines(held, some) is None,
    ensures
        held_lines(held, more) is None,
    decreases more,
{
    if some < more {
        held_lines_stay_none(held, some, (more - 1) as nat);
    }
}

/// The text of the instant that a clock shows, as it is written in UTC:
/// none without a clock, and none for an instant beyond the calendar.
pub open spec fn clock_reading(clock: Option<(u64, u32)>) -> Option<Seq<char>> {
    match clock {
        Some(shown) => if shown.0 <= i64::MAX && representable(shown.0 as int, shown.1 as int) {
            utc_rendering(shown.0 as i64, shown.1)
        } else {
            None
        },
        None => None,
    }
}

/// `effect` appends `bytes` to the overflow file.
pub open spec fn spills(effect: Effect, bytes: Seq<u8>) -> bool {
    match effect {
        Effect::Append { directory, target, parents, bytes: b } => directory@
            == OVERFLOW_DIRECTORY@ && target@ == OVERFLOW_FILE@ && !parents && b@ == bytes,
        Effect::Nothing => false,
    }
}

/// Keeps the records of a window of time.
pub struct RangeAggregator {
    start: Timestamp,
    end: Timestamp,
    inverted: bool,
    in_range: Vec<Data>,
    current_size: usize,
    data_written_to_file: bool,
    limit: usize,
}

impl RangeAggregator {
    /// The first instant of the window.
    pub closed spec fn start(&self) -> Timestamp {
        self.start
    }

    /// The last instant of the window.
    pub closed spec fn end(&self) -> Timestamp {
        self.end
    }

    /// Whether the records outside the window are taken, and its two ends.
    pub closed spec fn inverted(&self) -> bool {
        self.inverted
    }

    /// The bytes of records that are held before they are handed out.
    pub closed spec fn limit(&self) -> nat {
        self.limit as nat
    }

    /// The records held, in the order of their arrival.
    pub closed spec fn held(&self) -> Seq<Record> {
        Seq::new(self.in_range@.len(), |i: int| self.in_range@[i]@)
    }

    /// Whether records have been handed out for the overflow file.
    pub closed spec fn spilled(&self) -> bool {
        self.data_written_to_file
    }

    /// An aggregator that holds nothing, for the window from `start` to
    /// `end`, or with `inverted` for what lies outside it; it holds records
    /// of up to `limit` bytes.
    pub fn between(start: Timestamp, end: Timestamp, inverted: bool, limit: usize) -> (a: Self)
        ensures
            a.wf(),
            a.start() == start,
            a.end() == end,
            a.inverted() == inverted,
            a.limit() == limit,
            a.held() == Seq::<Record>::empty(),
            !a.spilled(),
    {
        let a = Self {
            start,
            end,
            inverted,
            in_range: Vec::new(),
            current_size: 0,
            data_written_to_file: false,
            limit,
        };
        assert(a.held() =~= Seq::<Record>::empty());
        a
    }

    /// An aggregator that holds nothing, for the window between the two
    /// timestamps that the texts name.
    pub fn from_texts(start: &str, end: &str, inverted: bool) -> (r: Result<Self, Error>)
        ensures
            match r {
                Ok(a) => instant_of(start@, None, None) == Some(a.start()) && instant_of(
                    end@,
                    None,
                    None,
                ) == Some(a.end()) && a.wf() && a.inverted() == inverted && a.limit() == SIZE_LIMIT
                    && a.held() == Seq::<Record>::empty() && !a.spilled(),
                Err(e) => e.kind == ErrorKind::DateTime && (instant_of(start@, None, None) is None
                    || instant_of(end@, None, None) is None),
            },
    {
        let first = Data::new(start, None, None, Vec::new())?;
        let last = Data::new(end, None, None, Vec::new())?;
        Ok(Self::between(first.timestamp, last.timestamp, inverted, SIZE_LIMIT))
    }

    /// The text of the instant that a clock shows, `secs` seconds and `nanos`
    /// nanoseconds behind the epoch, as it is written in UTC. There is none
    /// for an instant beyond the calendar.
    pub fn clock_text(secs: u64, nanos: u32) -> (r: Option<String>)
        ensures
            value_view(r) == clock_reading(Some((secs, nanos))),
    {
        if secs > 0x7fff_ffff_ffff_ffff {
            return None;
        }
        match read_epoch(secs as i64, nanos) {
            Some(at) => render_utc(&Timestamp { secs: at.0, nanos: at.1, offset: 0 }),
            None => None,
        }
    }

    /// An aggregator that holds nothing, for the window from the timestamp
    /// that `start` names to the instant that a clock shows, read again from
    /// the text that it is written as. There is none without a clock, for an
    /// instant beyond the calendar, and where one of the two texts names no
    /// timestamp.
    pub fn until(start: &str, clock: Option<(u64, u32)>, inverted: bool) -> (r: Result<Self, Error>)
        ensures
            match r {
                Ok(a) => clock_reading(clock) matches Some(end) && instant_of(
                    start@,
                    None,
                    None,
                ) == Some(a.start()) && instant_of(end, None, None) == Some(a.end()) && a.wf()
                    && a.inverted() == inverted && a.limit() == SIZE_LIMIT && a.held()
                    == Seq::<Record>::empty() && !a.spilled(),
                Err(e) => e.kind == ErrorKind::DateTime && match clock_reading(clock) {
                    Some(end) => instant_of(start@, None, None) is None || instant_of(
                        end,
                        None,
                        None,
                    ) is None,
                    None => true,
                },
            },
    {
        let text = match clock {
            Some(shown) => Self::clock_text(shown.0, shown.1),
            None => None,
        };
        match text {
            Some(end) => Self::from_texts(start, end.as_str(), inverted),
            None => Err(
                Error::new(String::from_str("The clock shows no time"), ErrorKind::DateTime),
            ),
        }
    }

    /// An aggregator that holds nothing, for the window from the timestamp
    /// that `start` names to the one that `end` names. Without an `end`, the
    /// window ends at the time of the call, as `until` reads it from the clock.
    pub fn new(start: String, end: Option<String>, inverted: bool) -> (r: Result<Self, Error>)
        ensures
            match r {
                Ok(a) => instant_of(start@, None, None) == Some(a.start()) && (end matches Some(
                    text,
                ) ==> instant_of(text@, None, None) == Some(a.end())) && a.wf() && a.inverted()
                    == inverted && a.limit() == SIZE_LIMIT && a.held() == Seq::<Record>::empty()
                    && !a.spilled(),
                Err(e) => e.kind == ErrorKind::DateTime && (end matches Some(text) ==> instant_of(
                    start@,
                    None,
                    None,
                ) is None || instant_of(text@, None, None) is None),
            },
    {
        match end {
            Some(text) => Self::from_texts(start.as_str(), text.as_str(), inverted),
            None => Self::until(start.as_str(), since_epoch(), inverted),
        }
    }

    /// Whether a record of the timestamp `at` is taken.
    pub fn takes(&self, at: &Timestamp) -> (taken: bool)
        ensures
            taken == within(self.start(), self.end(), self.inverted(), *at),
    {
        if self.inverted {
            !self.start.is_before(at) || !at.is_before(&self.end)
        } else {
            !at.is_before(&self.start) && !self.end.is_before(at)
        }
    }

    /// Whether records have been handed out for the overflow file.
    pub fn has_spilled(&self) -> (spilled: bool)
        ensures
            spilled == self.spilled(),
    {
        self.data_written_to_file
    }

    /// The lines of the records held, and behind them the line of `last`.
    fn lines(&self, last: &Data) -> (bytes: Vec<u8>)
        ensures
            bytes@ == lines_of(self.held().push(last@)),
    {
        let mut bytes: Vec<u8> = Vec::new();
        let mut at: usize = 0;
        while at < self.in_range.len()
            invariant
                at <= self.in_range.len(),
                bytes@ == lines_of(self.held().take(at as int)),
            decreases self.in_range.len() - at,
        {
            append_bytes(&mut bytes, &self.in_range[at].raw);
            bytes.push(10u8);
            assert(self.held().take(at + 1).drop_last() =~= self.held().take(at as int));
            at = at + 1;
        }
        assert(self.held().take(at as int) =~= self.held());
        append_bytes(&mut bytes, &last.raw);
        bytes.push(10u8);
        assert(self.held().push(last@).drop_last() =~= self.held());
        bytes
    }
}

impl Aggregator for RangeAggregator {
    /// The bytes of the records held are counted, and are within the limit.
    closed spec fn wf(&self) -> bool {
        self.current_size == size_of(self.held()) && self.current_size <= self.limit
    }

    /// No record is refused.
    open spec fn refuses(&self, data: Record) -> bool {
        false
    }

    /// A record of the window joins those held; where they then hold more
    /// bytes than the limit, all of them are to be appended to the overflow
    /// file and none is held. A record outside the window changes nothing.
    open spec fn took(&self, data: Record, after: &Self, effect: Effect) -> bool {
        let step = range_step(
            self.limit(),
            self.held(),
            within(self.start(), self.end(), self.inverted(), data.timestamp),
            data,
        );
        &&& after.start() == self.start()
        &&& after.end() == self.end()
        &&& after.inverted() == self.inverted()
        &&& after.limit() == self.limit()
        &&& after.held() == step.0
        &&& if step.1.len() > 0 {
            spills(effect, lines_of(step.1)) && after.spilled()
        } else {
            effect is Nothing && after.spilled() == self.spilled()
        }
    }

    /// Takes the record if it lies in the window. The records held are
    /// handed out, for the overflow file, once they hold more bytes than the limit.
    fn update(&mut self, data: &Data) -> (r: Result<Effect, Error>)
        ensures
            final(self).start() == old(self).start(),
            final(self).end() == old(self).end(),
            final(self).inverted() == old(self).inverted(),
            final(self).limit() == old(self).limit(),
            r matches Ok(effect) && ({
                let step = range_step(
                    old(self).limit(),
                    old(self).held(),
                    within(old(self).start(), old(self).end(), old(self).inverted(), data.timestamp),
                    data@,
                );
                &&& final(self).held() == step.0
                &&& if step.1.len() > 0 {
                    spills(effect, lines_of(step.1)) && final(self).spilled()
                } else {
                    effect is Nothing && final(self).spilled() == old(self).spilled()
                }
            }),
    {
        if !self.takes(&data.timestamp) {
            return Ok(Effect::Nothing);
        }
        let ghost before = self.held();
        assert(before.push(data@).drop_last() =~= before);
        if data.raw.len() > self.limit - self.current_size {
            let bytes = self.lines(data);
            self.in_range = Vec::new();
            self.current_size = 0;
            self.data_written_to_file = true;
            assert(self.held() =~= Seq::<Record>::empty());
            return Ok(
                Effect::Append {
                    directory: String::from_str(OVERFLOW_DIRECTORY),
                    target: String::from_str(OVERFLOW_FILE),
                    parents: false,
                    bytes,
                },
            );
        }
        self.current_size = self.current_size + data.raw.len();
        self.in_range.push(data.clone());
        assert(self.held() =~= before.push(data@));
        Ok(Effect::Nothing)
    }

    /// The records held, one to a line. Where records have been handed out,
    /// the overflow file holds the lines that come behind these.
    fn return_value(&self) -> (r: Result<String, Error>)
        ensures
            match r {
                Ok(text) => held_lines(self.held(), self.held().len()) == Some(text@),
                Err(e) => e.kind == ErrorKind::DateTime && held_lines(
                    self.held(),
                    self.held().len(),
                ) is None,
            },
    {
        let mut text = String::new();
        let mut at: usize = 0;
        while at < self.in_range.len()
            invariant
                at <= self.in_range.len(),
                self.held().len() == self.in_range.len(),
                held_lines(self.held(), at as nat) == Some(text@),
            decreases self.in_range.len() - at,
        {
            assert(self.held()[at as int] == self.in_range[at as int]@);
            match self.in_range[at].as_string() {
                Ok(line) => {
                    text = text.concat(line.as_str()).concat("\n");
                },
                Err(e) => {
                    proof {
                        held_lines_stay_none(self.held(), (at + 1) as nat, self.held().len());
                    }
                    return Err(e);
                },
            }
            at = at + 1;
        }
        Ok(text)
    }
}

} // verus!
