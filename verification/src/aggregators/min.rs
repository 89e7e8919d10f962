//! The record with the earliest timestamp: of the whole stream, or of each bucket.

use crate::aggregators::max::{held_view, instants_differ};
use crate::aggregators::buckets::{
    copied, keys_differ, record_lines, report, slot_of, slot_of_finds, slot_of_pushed,
    slot_of_same_keys, slot_of_viewed, viewed, Buckets,
};
use crate::aggregators::{increment_of, Aggregator, Effect, Increment};
use crate::calendar::rounding;
use crate::data::{Data, Record};
use crate::error::{Error, ErrorKind};
use crate::text::trimmed;
use crate::timestamp::{instant_key, Timestamp};
use vstd::prelude::*;
use vstd::string::*;
use vstd::utf8::{decode_utf8, valid_utf8};

verus! {

/// The record held once `new` has arrived: what was held where it is
/// strictly earlier than `new`, and `new` otherwise.
pub open spec fn earlier_of(held: Option<Record>, new: Record) -> Option<Record> {
    match held {
        Some(old) => if old.timestamp.precedes(new.timestamp) {
            Some(old)
        } else {
            Some(new)
        },
        None => Some(new),
    }
}

/// The record held once the records have arrived in their order.
pub open spec fn earliest(records: Seq<Record>) -> Option<Record>
    decreases records.len(),
{
    if records.len() == 0 {
        None
    } else {
        earlier_of(earliest(records.drop_last()), records.last())
    }
}

/// Of records that have arrived, the one held is one of them, and none of
/// them is earlier than it.
pub proof fn earliest_is_least(records: Seq<Record>)
    requires
        records.len() > 0,
    ensures
        earliest(records) matches Some(held) && records.contains(held) && forall|i: int|
            0 <= i < records.len() ==> !(#[trigger] records[i]).timestamp.precedes(held.timestamp),
    decreases records.len(),
{
    let before = records.drop_last();
    if before.len() > 0 {
        earliest_is_least(before);
        let held = earliest(before)->0;
        let at = choose|i: int| 0 <= i < before.len() && before[i] == held;
        assert(records[at] == held);
        assert forall|i: int| 0 <= i < records.len() implies !(
        #[trigger] records[i]).timestamp.precedes((earliest(records)->0).timestamp) by {
            if i < before.len() {
                assert(before[i] == records[i]);
            }
        }
    } else {
        assert(records[0] == records.last());
    }
    assert(records[records.len() - 1] == records.last());
}

/// Records of different instants leave the same record held in whatever
/// order they arrive: the one with the earliest timestamp.
pub proof fn earliest_ignores_order(records: Seq<Record>, other: Seq<Record>)
    requires
        instants_differ(records),
        records.to_multiset() == other.to_multiset(),
    ensures
        earliest(records) == earliest(other),
{
    vstd::seq_lib::to_multiset_len(records);
    vstd::seq_lib::to_multiset_len(other);
    if records.len() > 0 {
        earliest_is_least(records);
        earliest_is_least(other);
        let here = earliest(records)->0;
        let there = earliest(other)->0;
        vstd::seq_lib::to_multiset_contains(records, here);
        vstd::seq_lib::to_multiset_contains(other, here);
        vstd::seq_lib::to_multiset_contains(records, there);
        vstd::seq_lib::to_multiset_contains(other, there);
        let i = choose|i: int| 0 <= i < records.len() && records[i] == here;
        let j = choose|j: int| 0 <= j < records.len() && records[j] == there;
        let k = choose|k: int| 0 <= k < other.len() && other[k] == here;
        assert(!other[k].timestamp.precedes(there.timestamp));
        assert(!records[j].timestamp.precedes(here.timestamp));
        assert(records[i].timestamp.coincides(records[j].timestamp));
    }
}

/// Of two records of one instant, the one that arrived last is held.
pub proof fn earliest_keeps_last_of_equals(first: Record, second: Record)
    requires
        first.timestamp.coincides(second.timestamp),
    ensures
        earliest(seq![first, second]) == Some(second),
{
    let both = seq![first, second];
    assert(both.drop_last() =~= seq![first]);
    assert(seq![first].drop_last() =~= Seq::<Record>::empty());
    reveal_with_fuel(earliest, 3);
}

/// Keeps the record with the earliest timestamp of a stream; of two records
/// of one instant, the one that arrived last.
pub struct MinimumAggregator {
    pub smallest: Option<Data>,
}

impl Default for MinimumAggregator {
    fn default() -> (a: Self)
        ensures
            a.smallest is None,
    {
        Self { smallest: None }
    }
}

impl Aggregator for MinimumAggregator {
    open spec fn wf(&self) -> bool {
        true
    }

    /// No record is refused.
    open spec fn refuses(&self, data: Record) -> bool {
        false
    }

    /// The record held is the one that `earlier_of` keeps, and nothing is left to do.
    open spec fn took(&self, data: Record, after: &Self, effect: Effect) -> bool {
        effect is Nothing && held_view(after.smallest) == earlier_of(held_view(self.smallest), data)
    }

    /// Keeps the record unless the one held is strictly earlier.
    fn update(&mut self, data: &Data) -> (r: Result<Effect, Error>)
        ensures
            r matches Ok(effect) && effect is Nothing,
            held_view(final(self).smallest) == earlier_of(held_view(old(self).smallest), data@),
    {
        let replace = match &self.smallest {
            Some(smallest) => !smallest.timestamp.is_before(&data.timestamp),
            None => true,
        };
        if replace {
            self.smallest = Some(data.clone());
        }
        Ok(Effect::Nothing)
    }

    /// The text of the record held. Without a record there is nothing to report.
    fn return_value(&self) -> (r: Result<String, Error>)
        ensures
            match r {
                Ok(text) => self.smallest matches Some(d) && valid_utf8(d.raw@) && text@ == trimmed(
                    decode_utf8(d.raw@),
                ),
                Err(e) => match self.smallest {
                    Some(d) => !valid_utf8(d.raw@) && e.kind == ErrorKind::DateTime,
                    None => e.kind == ErrorKind::Aggregator,
                },
            },
    {
        match &self.smallest {
            Some(d) => d.as_string(),
            None => Err(
                Error::new(
                    String::from_str("Aggregator did not return a value"),
                    ErrorKind::Aggregator,
                ),
            ),
        }
    }
}

impl MinimumAggregator {
    /// The record held, if one has arrived.
    pub fn output(&self) -> (r: Result<Option<Data>, Error>)
        ensures
            r matches Ok(held) && held_view(held) == held_view(self.smallest),
    {
        match &self.smallest {
            Some(d) => Ok(Some(d.clone())),
            None => Ok(None),
        }
    }
}

/// The buckets once `new` has arrived for the bucket that `bucket` names: a
/// bucket whose record is strictly earlier stays as it is, another bucket of
/// that key takes `new` and the name `bucket`, and without one a bucket is
/// opened behind the others.
pub open spec fn lowered(buckets: Seq<(Timestamp, Record)>, bucket: Timestamp, new: Record) -> Seq<
    (Timestamp, Record),
> {
    match slot_of(buckets, instant_key(bucket), 0) {
        Some(at) => if buckets[at].1.timestamp.precedes(new.timestamp) {
            buckets
        } else {
            buckets.update(at, (bucket, new))
        },
        None => buckets.push((bucket, new)),
    }
}

/// The buckets once the records have arrived, each for the bucket it is
/// filed under, at an aggregator without buckets.
pub open spec fn lowered_all(filed: Seq<(Timestamp, Record)>) -> Seq<(Timestamp, Record)>
    decreases filed.len(),
{
    if filed.len() == 0 {
        Seq::<(Timestamp, Record)>::empty()
    } else {
        lowered(lowered_all(filed.drop_last()), filed.last().0, filed.last().1)
    }
}

/// The records that are filed under buckets of the key `key`, in their order.
pub open spec fn filed_under(filed: Seq<(Timestamp, Record)>, key: int) -> Seq<Record>
    decreases filed.len(),
{
    if filed.len() == 0 {
        Seq::<Record>::empty()
    } else if instant_key(filed.last().0) == key {
        filed_under(filed.drop_last(), key).push(filed.last().1)
    } else {
        filed_under(filed.drop_last(), key)
    }
}

/// However the records arrive, each bucket keeps its own extreme: there is
/// one bucket for each key that a record was filed under, it holds what an
/// aggregator of the whole stream would hold of the records of that key
/// alone, and for any other key there is no bucket.
pub proof fn each_bucket_keeps_its_earliest(filed: Seq<(Timestamp, Record)>, key: int)
    ensures
        keys_differ(lowered_all(filed)),
        match slot_of(lowered_all(filed), key, 0) {
            Some(at) => 0 <= at < lowered_all(filed).len() && instant_key(lowered_all(filed)[at].0)
                == key && earliest(filed_under(filed, key)) == Some(lowered_all(filed)[at].1),
            None => filed_under(filed, key).len() == 0,
        },
    decreases filed.len(),
{
    if filed.len() > 0 {
        let before = filed.drop_last();
        let bucket = filed.last().0;
        let new = filed.last().1;
        let held = lowered_all(before);
        let now = lowered_all(filed);
        each_bucket_keeps_its_earliest(before, key);
        each_bucket_keeps_its_earliest(before, instant_key(bucket));
        slot_of_finds(held, key, 0);
        slot_of_finds(held, instant_key(bucket), 0);
        slot_of_finds(now, key, 0);
        if instant_key(bucket) == key {
            assert(filed_under(filed, key).drop_last() =~= filed_under(before, key));
        }
        match slot_of(held, instant_key(bucket), 0) {
            Some(_) => {
                slot_of_same_keys(now, held, key, 0);
            },
            None => {
                slot_of_pushed(held, (bucket, new), key, 0);
            },
        }
    }
}

/// The buckets once a record has arrived that is filed by an increment of
/// `span` seconds. There are none where the timestamp of the record is not
/// valid or cannot be rounded.
pub open spec fn lowered_by(buckets: Seq<(Timestamp, Record)>, new: Record, span: int) -> Option<
    Seq<(Timestamp, Record)>,
> {
    if new.timestamp.valid() {
        match rounding(new.timestamp, span) {
            Some(bucket) => Some(lowered(buckets, bucket, new)),
            None => None,
        }
    } else {
        None
    }
}

/// Keeps, for each bucket of an increment, the record with the earliest
/// timestamp; of two records of one instant, the one that arrived last.
pub struct MinimumsAggregator {
    pub smallests: Buckets<Data>,
    pub increment: Increment,
}

impl MinimumsAggregator {
    /// The buckets with the record each holds, the one filled first in front.
    pub open spec fn buckets(&self) -> Seq<(Timestamp, Record)> {
        viewed(self.smallests.entries())
    }

    /// An aggregator without buckets, for the increment that the text names.
    pub fn new(increment: String) -> (r: Result<Self, Error>)
        ensures
            match r {
                Ok(a) => increment_of(increment@) == Some(a.increment.parts()) && a.wf()
                    && a.buckets() == Seq::<(Timestamp, Record)>::empty(),
                Err(e) => increment_of(increment@) is None && e.kind == ErrorKind::Increment,
            },
    {
        let a = Self { increment: Increment::try_from(increment)?, smallests: Buckets::new() };
        assert(a.buckets() =~= Seq::<(Timestamp, Record)>::empty());
        Ok(a)
    }

    /// Offers a record to the bucket that `bucket` names.
    pub fn offer(&mut self, bucket: Timestamp, data: &Data)
        requires
            old(self).wf(),
        ensures
            final(self).wf(),
            final(self).increment == old(self).increment,
            final(self).buckets() == lowered(old(self).buckets(), bucket, data@),
    {
        proof {
            slot_of_viewed(self.smallests.entries(), instant_key(bucket), 0);
        }
        let ghost before = self.smallests.entries();
        match self.smallests.find(&bucket) {
            Some(at) => {
                if !self.smallests.get(at).1.timestamp.is_before(&data.timestamp) {
                    self.smallests.replace(at, bucket, data.clone());
                    assert(self.buckets() =~= viewed(before).update(at as int, (bucket, data@)));
                }
            },
            None => {
                self.smallests.add(bucket, data.clone());
                assert(self.buckets() =~= viewed(before).push((bucket, data@)));
            },
        }
    }

    /// The buckets with the record each holds, the one filled first in front.
    pub fn output(&self) -> (r: Result<Vec<(Timestamp, Data)>, Error>)
        ensures
            r matches Ok(held) && viewed(held@) == self.buckets(),
    {
        Ok(copied(&self.smallests))
    }
}

impl Aggregator for MinimumsAggregator {
    open spec fn wf(&self) -> bool {
        self.smallests.wf()
    }

    /// A record is refused where its timestamp cannot be rounded.
    open spec fn refuses(&self, data: Record) -> bool {
        lowered_by(self.buckets(), data, self.increment.span()) is None
    }

    /// The record was offered to the bucket of its rounded timestamp, and
    /// nothing is left to do.
    open spec fn took(&self, data: Record, after: &Self, effect: Effect) -> bool {
        &&& effect is Nothing
        &&& after.increment == self.increment
        &&& lowered_by(self.buckets(), data, self.increment.span()) == Some(after.buckets())
    }

    /// Rounds the timestamp of the record by the increment and offers the
    /// record to the bucket of the rounded timestamp. A record whose
    /// timestamp cannot be rounded is refused.
    fn update(&mut self, data: &Data) -> (r: Result<Effect, Error>)
        ensures
            final(self).increment == old(self).increment,
            match r {
                Ok(effect) => effect is Nothing && lowered_by(
                    old(self).buckets(),
                    data@,
                    old(self).increment.span(),
                ) == Some(final(self).buckets()),
                Err(e) => e.kind == ErrorKind::Aggregator && lowered_by(
                    old(self).buckets(),
                    data@,
                    old(self).increment.span(),
                ) is None && final(self).buckets() == old(self).buckets(),
            },
    {
        let bucket = self.increment.rounded(data.timestamp)?;
        self.offer(bucket, data);
        Ok(Effect::Nothing)
    }

    /// One line for each bucket behind a heading: the text of its record.
    fn return_value(&self) -> (r: Result<String, Error>)
        ensures
            match r {
                Ok(text) => record_lines(self.buckets(), self.buckets().len()) matches Some(lines)
                    && text@ == "Minimums for increment: "@ + lines,
                Err(e) => e.kind == ErrorKind::DateTime && record_lines(
                    self.buckets(),
                    self.buckets().len(),
                ) is None,
            },
    {
        report("Minimums for increment: ", &self.smallests)
    }
}

} // verus!
