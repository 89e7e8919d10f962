//! Counting records: all of them, or those of each bucket.

use crate::aggregators::buckets::{
    keys_differ, slot_of, slot_of_finds, slot_of_pushed, slot_of_same_keys, Buckets,
};
use crate::aggregators::{Aggregator, Effect, Increment};
use crate::calendar::{render_utc, rounding, utc_rendering};
use crate::data::{Data, Record};
use crate::error::{Error, ErrorKind};
use crate::text::decimal;
use crate::timestamp::{instant_key, Timestamp};
use vstd::prelude::*;
use vstd::string::*;

verus! {

/// Counts the records of a stream.
pub struct CountAggregator {
    pub n: u64,
}

impl Default for CountAggregator {
    fn default() -> (a: Self)
        ensures
            a.n == 0,
    {
        Self { n: 0 }
    }
}

impl Aggregator for CountAggregator {
    open spec fn wf(&self) -> bool {
        true
    }

    /// A count that has reached the largest number a counter can hold refuses.
    open spec fn refuses(&self, data: Record) -> bool {
        self.n == u64::MAX
    }

    /// The count is one more, and nothing is left to do.
    open spec fn took(&self, data: Record, after: &Self, effect: Effect) -> bool {
        effect is Nothing && after.n == self.n + 1
    }

    /// Counts the record, whatever it holds. A count that has reached the
    /// largest number a counter can hold stays there, and the record is refused.
    fn update(&mut self, data: &Data) -> (r: Result<Effect, Error>)
        ensures
            match r {
                Ok(effect) => effect is Nothing && final(self).n == old(self).n + 1,
                Err(e) => e.kind == ErrorKind::Aggregator && old(self).n == u64::MAX
                    && final(self).n == old(self).n,
            },
    {
        if self.n == u64::MAX {
            return Err(
                Error::new(String::from_str("The count is full"), ErrorKind::Aggregator),
            );
        }
        self.n = self.n + 1;
        Ok(Effect::Nothing)
    }

    fn return_value(&self) -> (r: Result<String, Error>)
        ensures
            r matches Ok(text) && text@ == "Count: "@ + decimal(self.n as nat),
    {
        Ok(String::from_str("Count: ").concat(crate::text::decimal_text(self.n).as_str()))
    }
}

impl CountAggregator {
    /// The number of records counted.
    pub fn output(&self) -> (r: Result<u64, Error>)
        ensures
            r matches Ok(n) && n == self.n,
    {
        Ok(self.n)
    }
}

/// The buckets once a record has been counted in the one that `bucket`
/// names: its count is one more and it is named by `bucket` from now on, or
/// it is opened behind the others with a count of one.
pub open spec fn counted(entries: Seq<(Timestamp, u64)>, bucket: Timestamp) -> Seq<
    (Timestamp, u64),
> {
    match slot_of(entries, instant_key(bucket), 0) {
        Some(at) => entries.update(at, (bucket, (entries[at].1 + 1) as u64)),
        None => entries.push((bucket, 1)),
    }
}

/// The count of the bucket that `bucket` names has reached the largest
/// number a counter can hold.
pub open spec fn bucket_full(entries: Seq<(Timestamp, u64)>, bucket: Timestamp) -> bool {
    slot_of(entries, instant_key(bucket), 0) matches Some(at) && entries[at].1 == u64::MAX
}

/// The buckets once a record of the timestamp `at` has been counted by an
/// increment of `span` seconds: the record is counted in the bucket that the
/// rounded timestamp names. There are none where the timestamp is not valid
/// or cannot be rounded, and where the bucket is full.
pub open spec fn counts_after(entries: Seq<(Timestamp, u64)>, at: Timestamp, span: int) -> Option<
    Seq<(Timestamp, u64)>,
> {
    if at.valid() {
        match rounding(at, span) {
            Some(bucket) => if bucket_full(entries, bucket) {
                None
            } else {
                Some(counted(entries, bucket))
            },
            None => None,
        }
    } else {
        None
    }
}

/// Two records whose timestamps round to one bucket are counted in it
/// together: once both have arrived at an aggregator without buckets, it has
/// that one bucket, with a count of two.
pub proof fn one_bucket_counts_both(first: Timestamp, second: Timestamp, span: int)
    requires
        first.valid(),
        second.valid(),
        rounding(first, span) is Some,
        rounding(second, span) is Some,
        instant_key(rounding(first, span)->0) == instant_key(rounding(second, span)->0),
    ensures
        counts_after(Seq::<(Timestamp, u64)>::empty(), first, span) is Some,
        counts_after(
            counts_after(Seq::<(Timestamp, u64)>::empty(), first, span)->0,
            second,
            span,
        ) == Some(seq![(rounding(second, span)->0, 2u64)]),
{
    let none = Seq::<(Timestamp, u64)>::empty();
    let a = rounding(first, span)->0;
    let b = rounding(second, span)->0;
    let one = none.push((a, 1u64));
    assert(slot_of(none, instant_key(a), 0) is None);
    assert(counted(none, a) == one);
    assert(slot_of(one, instant_key(b), 0) == Some(0int));
    assert(one.update(0, (b, 2u64)) =~= seq![(b, 2u64)]);
}

/// The buckets once one record has been counted in each of the buckets that
/// `named` names, in their order, by an aggregator without buckets.
pub open spec fn tally(named: Seq<Timestamp>) -> Seq<(Timestamp, u64)>
    decreases named.len(),
{
    if named.len() == 0 {
        Seq::<(Timestamp, u64)>::empty()
    } else {
        counted(tally(named.drop_last()), named.last())
    }
}

/// How many of `named` are of the key `key`.
pub open spec fn occurrences(named: Seq<Timestamp>, key: int) -> nat
    decreases named.len(),
{
    if named.len() == 0 {
        0
    } else if instant_key(named.last()) == key {
        occurrences(named.drop_last(), key) + 1
    } else {
        occurrences(named.drop_last(), key)
    }
}

/// No more of `named` are of one key than there are of them.
pub proof fn occurrences_bounded(named: Seq<Timestamp>, key: int)
    ensures
        occurrences(named, key) <= named.len(),
    decreases named.len(),
{
    if named.len() > 0 {
        occurrences_bounded(named.drop_last(), key);
    }
}

/// However the records arrive, there is one bucket for each key among the
/// buckets named, and its count is the number of records of that key; for
/// any other key there is no bucket.
pub proof fn tally_counts_each_key(named: Seq<Timestamp>, key: int)
    requires
        named.len() < u64::MAX,
    ensures
        keys_differ(tally(named)),
        match slot_of(tally(named), key, 0) {
            Some(at) => 0 <= at < tally(named).len() && instant_key(tally(named)[at].0) == key
                && tally(named)[at].1 == occurrences(named, key) && occurrences(named, key) > 0,
            None => occurrences(named, key) == 0,
        },
    decreases named.len(),
{
    if named.len() > 0 {
        let before = named.drop_last();
        let last = named.last();
        let held = tally(before);
        let now = tally(named);
        tally_counts_each_key(before, key);
        tally_counts_each_key(before, instant_key(last));
        occurrences_bounded(before, instant_key(last));
        slot_of_finds(held, key, 0);
        slot_of_finds(held, instant_key(last), 0);
        slot_of_finds(now, key, 0);
        match slot_of(held, instant_key(last), 0) {
            Some(_) => {
                slot_of_same_keys(now, held, key, 0);
            },
            None => {
                slot_of_pushed(held, (last, 1u64), key, 0);
            },
        }
    }
}

/// The lines of the report for the first `upto` buckets: for each a line
/// feed, the bucket as it is shown in UTC, a colon, a space and the count.
/// There is no report where a bucket cannot be shown.
pub open spec fn count_lines(entries: Seq<(Timestamp, u64)>, upto: nat) -> Option<Seq<char>>
    decreases upto,
{
    if upto == 0 {
        Some(Seq::<char>::empty())
    } else {
        let slot = entries[upto - 1];
        match (count_lines(entries, (upto - 1) as nat), utc_rendering(slot.0.secs, slot.0.nanos)) {
            (Some(above), Some(shown)) => Some(
                above + "\n"@ + shown + ": "@ + decimal(slot.1 as nat),
            ),
            _ => None,
        }
    }
}

/// Counts the records of each bucket of an increment.
pub struct CountsAggregator {
    pub counts: Buckets<u64>,
    pub increment: Increment,
}

impl CountsAggregator {
    /// An aggregator without buckets, for the increment that the text names.
    pub fn new(increment: String) -> (r: Result<Self, Error>)
        ensures
            match r {
                Ok(a) => crate::aggregators::increment_of(increment@) == Some(a.increment.parts())
                    && a.wf() && a.counts.entries() == Seq::<(Timestamp, u64)>::empty(),
                Err(e) => crate::aggregators::increment_of(increment@) is None && e.kind
                    == ErrorKind::Increment,
            },
    {
        Ok(Self { increment: Increment::try_from(increment)?, counts: Buckets::new() })
    }

    /// Counts one record in the bucket that `bucket` names. A count that has
    /// reached the largest number a counter can hold stays there, and the
    /// record is refused.
    pub fn count_in(&mut self, bucket: Timestamp) -> (r: Result<(), Error>)
        requires
            old(self).wf(),
        ensures
            final(self).wf(),
            final(self).increment == old(self).increment,
            r is Err ==> *final(self) == *old(self),
            match r {
                Ok(_) => !bucket_full(old(self).counts.entries(), bucket)
                    && final(self).counts.entries() == counted(old(self).counts.entries(), bucket),
                Err(e) => bucket_full(old(self).counts.entries(), bucket)
                    && e.kind == ErrorKind::Aggregator
                    && final(self).counts.entries() == old(self).counts.entries(),
            },
    {
        match self.counts.find(&bucket) {
            Some(at) => {
                let count = self.counts.get(at).1;
                if count == u64::MAX {
                    return Err(
                        Error::new(String::from_str("The count is full"), ErrorKind::Aggregator),
                    );
                }
                self.counts.replace(at, bucket, count + 1);
            },
            None => {
                self.counts.add(bucket, 1);
            },
        }
        Ok(())
    }

    /// The buckets with their counts, the one filled first in front.
    pub fn output(&self) -> (r: Result<Vec<(Timestamp, u64)>, Error>)
        ensures
            r matches Ok(counts) && counts@ == self.counts.entries(),
    {
        let mut counts: Vec<(Timestamp, u64)> = Vec::new();
        let mut at: usize = 0;
        while at < self.counts.len()
            invariant
                at <= self.counts.entries().len(),
                counts@ == self.counts.entries().take(at as int),
            decreases self.counts.entries().len() - at,
        {
            let slot = self.counts.get(at);
            counts.push((slot.0, slot.1));
            at = at + 1;
        }
        Ok(counts)
    }
}

impl Aggregator for CountsAggregator {
    open spec fn wf(&self) -> bool {
        self.counts.wf()
    }

    /// A record is refused where its timestamp cannot be rounded, and where
    /// the count of its bucket is full.
    open spec fn refuses(&self, data: Record) -> bool {
        counts_after(self.counts.entries(), data.timestamp, self.increment.span()) is None
    }

    /// The record is counted in the bucket of its rounded timestamp, and
    /// nothing is left to do.
    open spec fn took(&self, data: Record, after: &Self, effect: Effect) -> bool {
        &&& effect is Nothing
        &&& after.increment == self.increment
        &&& counts_after(self.counts.entries(), data.timestamp, self.increment.span()) == Some(
            after.counts.entries(),
        )
    }

    /// Rounds the timestamp of the record by the increment and counts the
    /// record in the bucket of the rounded timestamp. A record whose
    /// timestamp cannot be rounded, or whose bucket is full, is refused.
    fn update(&mut self, data: &Data) -> (r: Result<Effect, Error>)
        ensures
            final(self).increment == old(self).increment,
            match r {
                Ok(effect) => effect is Nothing && counts_after(
                    old(self).counts.entries(),
                    data.timestamp,
                    old(self).increment.span(),
                ) == Some(final(self).counts.entries()),
                Err(e) => e.kind == ErrorKind::Aggregator && counts_after(
                    old(self).counts.entries(),
                    data.timestamp,
                    old(self).increment.span(),
                ) is None && final(self).counts.entries() == old(self).counts.entries(),
            },
    {
        let bucket = self.increment.rounded(data.timestamp)?;
        self.count_in(bucket)?;
        Ok(Effect::Nothing)
    }

    /// One line for each bucket behind a heading: the bucket in UTC and its count.
    fn return_value(&self) -> (r: Result<String, Error>)
        ensures
            match r {
                Ok(text) => count_lines(
                    self.counts.entries(),
                    self.counts.entries().len(),
                ) matches Some(lines) && text@ == "Counts for increment: "@ + lines,
                Err(e) => e.kind == ErrorKind::Aggregator && count_lines(
                    self.counts.entries(),
                    self.counts.entries().len(),
                ) is None,
            },
    {
        let mut text = String::from_str("Counts for increment: ");
        let ghost mut lines = Seq::<char>::empty();
        let mut at: usize = 0;
        while at < self.counts.len()
            invariant
                at <= self.counts.entries().len(),
                count_lines(self.counts.entries(), at as nat) == Some(lines),
                text@ == "Counts for increment: "@ + lines,
            decreases self.counts.entries().len() - at,
        {
            let slot = self.counts.get(at);
            match render_utc(&slot.0) {
                Some(shown) => {
                    text = text.concat("\n").concat(shown.as_str()).concat(": ").concat(
                        crate::text::decimal_text(slot.1).as_str(),
                    );
                    proof {
                        lines = lines + "\n"@ + shown@ + ": "@ + decimal(slot.1 as nat);
                    }
                },
                None => {
                    proof {
                        lemma_count_lines_stay_none(
                            self.counts.entries(),
                            (at + 1) as nat,
                            self.counts.entries().len(),
                        );
                    }
                    return Err(
                        Error::new(
                            String::from_str("A bucket is beyond the calendar"),
                            ErrorKind::Aggregator,
                        ),
                    );
                },
            }
            at = at + 1;
        }
        Ok(text)
    }
}

/// Once there is no report for some of the buckets, there is none for more of them.
pub proof fn lemma_count_lines_stay_none(entries: Seq<(Timestamp, u64)>, some: nat, more: nat)
    requires
        some <= more,
        count_lines(entries, some) is None,
    ensures
        count_lines(entries, more) is None,
    decreases more,
{
    if some < more {
        lemma_count_lines_stay_none(entries, some, (more - 1) as nat);
    }
}

} // verus!
