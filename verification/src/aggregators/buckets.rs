//! Buckets of an increment, in the order in which they were first filled.

use crate::data::{Data, Record};
use crate::error::{Error, ErrorKind};
use crate::text::trimmed;
use crate::timestamp::{instant_key, Timestamp};
use std::collections::HashMap;
use vstd::prelude::*;
use vstd::string::*;
use vstd::utf8::{decode_utf8, valid_utf8};

verus! {

broadcast use vstd::std_specs::hash::group_hash_axioms;

/// The first place from `from` on at which a bucket of the key `key` stands.
pub open spec fn slot_of<V>(entries: Seq<(Timestamp, V)>, key: int, from: int) -> Option<int>
    decreases entries.len() - from,
{
    if from < 0 || from >= entries.len() {
        None
    } else if instant_key(entries[from].0) == key {
        Some(from)
    } else {
        slot_of(entries, key, from + 1)
    }
}

/// No two buckets have the same key.
pub open spec fn keys_differ<V>(entries: Seq<(Timestamp, V)>) -> bool {
    forall|p: int, q: int|
        0 <= p < q < entries.len() ==> instant_key(#[trigger] entries[p].0) != instant_key(
            #[trigger] entries[q].0,
        )
}

/// What `slot_of` finds is the one place of the key, and where it finds
/// nothing the key stands nowhere from `from` on.
pub proof fn slot_of_finds<V>(entries: Seq<(Timestamp, V)>, key: int, from: int)
    requires
        0 <= from,
    ensures
        match slot_of(entries, key, from) {
            Some(at) => from <= at < entries.len() && instant_key(entries[at].0) == key
                && forall|p: int| from <= p < at ==> instant_key(#[trigger] entries[p].0) != key,
            None => forall|p: int|
                from <= p < entries.len() ==> instant_key(#[trigger] entries[p].0) != key,
        },
    decreases entries.len() - from,
{
    if from < entries.len() && instant_key(entries[from].0) != key {
        slot_of_finds(entries, key, from + 1);
    }
}

/// Where two runs of buckets have the same keys place by place, `slot_of`
/// finds the same in both.
pub proof fn slot_of_same_keys<V, W>(
    entries: Seq<(Timestamp, V)>,
    others: Seq<(Timestamp, W)>,
    key: int,
    from: int,
)
    requires
        0 <= from,
        entries.len() == others.len(),
        forall|p: int|
            0 <= p < entries.len() ==> instant_key(#[trigger] entries[p].0) == instant_key(
                others[p].0,
            ),
    ensures
        slot_of(entries, key, from) == slot_of(others, key, from),
    decreases entries.len() - from,
{
    if from < entries.len() {
        slot_of_same_keys(entries, others, key, from + 1);
    }
}

/// What `slot_of` finds once a bucket stands behind the others: what it
/// found before, and the new bucket where it found nothing and the key is
/// that of the new bucket.
pub proof fn slot_of_pushed<V>(entries: Seq<(Timestamp, V)>, last: (Timestamp, V), key: int, from: int)
    requires
        0 <= from <= entries.len(),
    ensures
        slot_of(entries.push(last), key, from) == (match slot_of(entries, key, from) {
            Some(at) => Some(at),
            None => if instant_key(last.0) == key {
                Some(entries.len() as int)
            } else {
                None
            },
        }),
    decreases entries.len() - from,
{
    let more = entries.push(last);
    if from < entries.len() {
        assert(more[from] == entries[from]);
        slot_of_pushed(entries, last, key, from + 1);
    } else {
        assert(more[from] == last);
        assert(slot_of(more, key, from + 1) is None);
    }
}

/// The buckets of records as they are spoken of: each record by its view.
pub open spec fn viewed(entries: Seq<(Timestamp, Data)>) -> Seq<(Timestamp, Record)> {
    Seq::new(entries.len(), |p: int| (entries[p].0, entries[p].1@))
}

/// `slot_of` finds in the views what it finds in the buckets.
pub proof fn slot_of_viewed(entries: Seq<(Timestamp, Data)>, key: int, from: int)
    requires
        0 <= from,
    ensures
        slot_of(viewed(entries), key, from) == slot_of(entries, key, from),
    decreases entries.len() - from,
{
    if from < entries.len() {
        slot_of_viewed(entries, key, from + 1);
    }
}

/// The lines of a report for the first `upto` buckets of records: for each
/// a line feed and the text of its record without the line feeds at its
/// end. There is no report where the bytes of a record are no text.
pub open spec fn record_lines(buckets: Seq<(Timestamp, Record)>, upto: nat) -> Option<Seq<char>>
    decreases upto,
{
    if upto == 0 {
        Some(Seq::<char>::empty())
    } else {
        let raw = buckets[upto - 1].1.raw;
        match record_lines(buckets, (upto - 1) as nat) {
            Some(above) => if valid_utf8(raw) {
                Some(above + "\n"@ + trimmed(decode_utf8(raw)))
            } else {
                None
            },
            None => None,
        }
    }
}

/// Once there is no report for some of the buckets, there is none for more of them.
pub proof fn record_lines_stay_none(buckets: Seq<(Timestamp, Record)>, some: nat, more: nat)
    requires
        some <= more,
        record_lines(buckets, some) is None,
    ensures
        record_lines(buckets, more) is None,
    decreases more,
{
    if some < more {
        record_lines_stay_none(buckets, some, (more - 1) as nat);
    }
}

/// Writes the report of buckets of records behind `heading`.
pub fn report(heading: &str, buckets: &Buckets<Data>) -> (r: Result<String, Error>)
    ensures
        match r {
            Ok(text) => record_lines(
                viewed(buckets.entries()),
                buckets.entries().len(),
            ) matches Some(lines) && text@ == heading@ + lines,
            Err(e) => e.kind == ErrorKind::DateTime && record_lines(
                viewed(buckets.entries()),
                buckets.entries().len(),
            ) is None,
        },
{
    let mut text = String::from_str(heading);
    let ghost mut lines = Seq::<char>::empty();
    let mut at: usize = 0;
    while at < buckets.len()
        invariant
            at <= buckets.entries().len(),
            record_lines(viewed(buckets.entries()), at as nat) == Some(lines),
            text@ == heading@ + lines,
        decreases buckets.entries().len() - at,
    {
        match buckets.get(at).1.as_string() {
            Ok(line) => {
                text = text.concat("\n").concat(line.as_str());
                proof {
                    lines = lines + "\n"@ + line@;
                }
            },
            Err(e) => {
                proof {
                    record_lines_stay_none(
                        viewed(buckets.entries()),
                        (at + 1) as nat,
                        buckets.entries().len(),
                    );
                }
                return Err(e);
            },
        }
        at = at + 1;
    }
    Ok(text)
}

/// A copy of the buckets of records, in their order.
pub fn copied(buckets: &Buckets<Data>) -> (copy: Vec<(Timestamp, Data)>)
    ensures
        viewed(copy@) == viewed(buckets.entries()),
{
    let mut copy: Vec<(Timestamp, Data)> = Vec::new();
    let mut at: usize = 0;
    while at < buckets.len()
        invariant
            at <= buckets.entries().len(),
            copy@.len() == at,
            forall|p: int|
                0 <= p < at ==> (#[trigger] copy@[p]).0 == buckets.entries()[p].0 && copy@[p].1@
                    == buckets.entries()[p].1@,
        decreases buckets.entries().len() - at,
    {
        let slot = buckets.get(at);
        copy.push((slot.0, slot.1.clone()));
        at = at + 1;
    }
    assert(viewed(copy@) =~= viewed(buckets.entries()));
    copy
}

/// Buckets in the order in which they were first filled, each under the
/// timestamp it is named by and found again by the key of that instant.
pub struct Buckets<V> {
    index: HashMap<i128, usize>,
    slots: Vec<(Timestamp, V)>,
}

impl<V> Buckets<V> {
    /// The buckets, the one filled first in front.
    pub closed spec fn entries(&self) -> Seq<(Timestamp, V)> {
        self.slots@
    }

    /// The index leads from the key of each bucket to its place, and to nothing else.
    pub closed spec fn wf(&self) -> bool {
        &&& forall|k: i128| #[trigger]
            self.index@.contains_key(k) ==> self.index@[k] < self.slots@.len() && instant_key(
                self.slots@[self.index@[k] as int].0,
            ) == k
        &&& forall|p: int|
            0 <= p < self.slots@.len() ==> self.index@.contains_key(
                instant_key(#[trigger] self.slots@[p].0) as i128,
            ) && self.index@[instant_key(self.slots@[p].0) as i128] == p
    }

    /// In well-formed buckets no key stands twice.
    pub proof fn lemma_keys_differ(&self)
        requires
            self.wf(),
        ensures
            keys_differ(self.entries()),
    {
        assert forall|p: int, q: int| 0 <= p < q < self.entries().len() implies instant_key(
            #[trigger] self.entries()[p].0,
        ) != instant_key(#[trigger] self.entries()[q].0) by {
            let kp = instant_key(self.slots@[p].0) as i128;
            let kq = instant_key(self.slots@[q].0) as i128;
            assert(self.index@[kp] == p);
            assert(self.index@[kq] == q);
        }
    }

    /// No buckets.
    pub fn new() -> (b: Self)
        ensures
            b.wf(),
            b.entries() == Seq::<(Timestamp, V)>::empty(),
    {
        Buckets { index: HashMap::new(), slots: Vec::new() }
    }

    /// The number of buckets.
    pub fn len(&self) -> (n: usize)
        ensures
            n == self.entries().len(),
    {
        self.slots.len()
    }

    /// The place of the bucket that `bucket` names.
    pub fn find(&self, bucket: &Timestamp) -> (r: Option<usize>)
        requires
            self.wf(),
        ensures
            match r {
                Some(at) => slot_of(self.entries(), instant_key(*bucket), 0) == Some(at as int)
                    && at < self.entries().len() && instant_key(self.entries()[at as int].0)
                    == instant_key(*bucket),
                None => slot_of(self.entries(), instant_key(*bucket), 0) is None,
            },
    {
        let key = bucket.key();
        proof {
            slot_of_finds(self.entries(), key as int, 0);
            self.lemma_keys_differ();
        }
        match self.index.get(&key) {
            Some(at) => {
                let at = *at;
                assert(self.index@.contains_key(key));
                Some(at)
            },
            None => {
                assert(!self.index@.contains_key(key));
                None
            },
        }
    }

    /// The bucket at `at`: the timestamp it is named by, and what it holds.
    pub fn get(&self, at: usize) -> (slot: &(Timestamp, V))
        requires
            at < self.entries().len(),
        ensures
            *slot == self.entries()[at as int],
    {
        &self.slots[at]
    }

    /// Puts `value` into the bucket at `at`, which from now on is named by
    /// `bucket`, a timestamp of the same key.
    pub fn replace(&mut self, at: usize, bucket: Timestamp, value: V)
        requires
            old(self).wf(),
            at < old(self).entries().len(),
            instant_key(bucket) == instant_key(old(self).entries()[at as int].0),
        ensures
            final(self).wf(),
            final(self).entries() == old(self).entries().update(at as int, (bucket, value)),
    {
        self.slots[at] = (bucket, value);
    }

    /// Opens a bucket named by `bucket` behind the others and puts `value` into it.
    pub fn add(&mut self, bucket: Timestamp, value: V)
        requires
            old(self).wf(),
            slot_of(old(self).entries(), instant_key(bucket), 0) is None,
        ensures
            final(self).wf(),
            final(self).entries() == old(self).entries().push((bucket, value)),
    {
        proof {
            slot_of_finds(self.entries(), instant_key(bucket), 0);
        }
        let at = self.slots.len();
        self.index.insert(bucket.key(), at);
        self.slots.push((bucket, value));
    }
}

} // verus!
