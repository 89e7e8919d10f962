//! Splitting a stream into files: each record goes to the file that its
//! timestamp names by a pattern.

use crate::aggregators::{Aggregator, Effect};
use crate::calendar::{render, rendering};
use crate::data::{Data, Record};
use crate::error::{Error, ErrorKind};
use crate::text::{copy_of, has_char};
use vstd::prelude::*;
use vstd::string::*;

verus! {

/// The list of targets once `target` has been touched: it stands in the list
/// once, behind the others where it is new.
pub open spec fn listed(targets: Seq<Seq<char>>, target: Seq<char>) -> Seq<Seq<char>> {
    if targets.contains(target) {
        targets
    } else {
        targets.push(target)
    }
}

/// The list of targets once all of `touched` have been touched, in their order.
pub open spec fn listing(touched: Seq<Seq<char>>) -> Seq<Seq<char>>
    decreases touched.len(),
{
    if touched.len() == 0 {
        Seq::<Seq<char>>::empty()
    } else {
        listed(listing(touched.drop_last()), touched.last())
    }
}

/// Whatever targets are touched, and however often, the list names each of
/// them once and names nothing else.
pub proof fn listing_names_each_once(touched: Seq<Seq<char>>)
    ensures
        listing(touched).no_duplicates(),
        forall|target: Seq<char>| listing(touched).contains(target) <==> touched.contains(target),
    decreases touched.len(),
{
    if touched.len() > 0 {
        let before = touched.drop_last();
        let last = touched.last();
        listing_names_each_once(before);
        let list = listing(before);
        assert forall|target: Seq<char>| listing(touched).contains(target) <==> touched.contains(
            target,
        ) by {
            if touched.contains(target) {
                let i = choose|i: int| 0 <= i < touched.len() && touched[i] == target;
                if i < before.len() {
                    assert(before[i] == target);
                    assert(before.contains(target));
                    assert(list.contains(target));
                    let j = choose|j: int| 0 <= j < list.len() && list[j] == target;
                    assert(listed(list, last)[j] == target);
                } else {
                    if !list.contains(last) {
                        assert(list.push(last)[list.len() as int] == last);
                    }
                }
            }
            if listing(touched).contains(target) {
                let j = choose|j: int|
                    0 <= j < listing(touched).len() && listing(touched)[j] == target;
                if j < list.len() {
                    assert(list[j] == target);
                    assert(list.contains(target));
                    assert(before.contains(target));
                    let i = choose|i: int| 0 <= i < before.len() && before[i] == target;
                    assert(touched[i] == target);
                } else {
                    assert(target == last);
                    assert(touched[touched.len() - 1] == target);
                }
            }
        }
    }
}

/// The bytes appended for a record: its own, and one line feed.
pub open spec fn line_of(raw: Seq<u8>) -> Seq<u8> {
    raw.push(10u8)
}

/// The lines of the summary for the first `upto` targets: each between
/// quotes behind four spaces, with a comma and a line feed.
pub open spec fn target_lines(targets: Seq<Seq<char>>, upto: nat) -> Seq<char>
    decreases upto,
{
    if upto == 0 {
        Seq::<char>::empty()
    } else {
        target_lines(targets, (upto - 1) as nat) + "    \""@ + targets[upto - 1] + "\",\n"@
    }
}

/// The summary of a split: a heading and the targets between brackets, each
/// on its own line. A target is listed by the name that the pattern made,
/// which is relative to the directory of the aggregator.
pub open spec fn summary(targets: Seq<Seq<char>>) -> Seq<char> {
    if targets.len() == 0 {
        "Completed split, files created: []\n"@
    } else {
        "Completed split, files created: [\n"@ + target_lines(targets, targets.len()) + "]\n"@
    }
}

/// `effect` appends the line of `raw` to the file `name` in `directory`,
/// behind directories of its own where `pattern` holds a slash.
pub open spec fn sent(
    effect: Effect,
    directory: Seq<char>,
    pattern: Seq<char>,
    name: Option<Seq<char>>,
    raw: Seq<u8>,
) -> bool {
    match effect {
        Effect::Append { directory: d, target, parents, bytes } => d@ == directory && Some(target@)
            == name && parents == pattern.contains('/') && bytes@ == line_of(raw),
        Effect::Nothing => false,
    }
}

/// Splits a stream into the files that a pattern makes of the timestamps.
pub struct SplitAggregator {
    output_directory: String,
    filename: String,
    created_files: Vec<String>,
    data_written_to_file: bool,
}

impl SplitAggregator {
    /// The directory in which the files are made.
    pub closed spec fn directory(&self) -> Seq<char> {
        self.output_directory@
    }

    /// The pattern that makes the name of a file of a timestamp.
    pub closed spec fn pattern(&self) -> Seq<char> {
        self.filename@
    }

    /// The targets touched so far, the one touched first in front, each by
    /// its name relative to the directory.
    pub closed spec fn targets(&self) -> Seq<Seq<char>> {
        Seq::new(self.created_files@.len(), |i: int| self.created_files@[i]@)
    }

    /// Whether a record has been handed out for writing.
    pub closed spec fn written(&self) -> bool {
        self.data_written_to_file
    }

    /// An aggregator that has touched no target. The files will stand in
    /// `output_directory` under the names that the pattern `filename` makes
    /// of the timestamps; a name may lead through directories of its own.
    pub fn new(output_directory: String, filename: String) -> (r: Result<Self, Error>)
        ensures
            r matches Ok(a) && a.wf() && a.directory() == output_directory@ && a.pattern()
                == filename@ && a.targets() == Seq::<Seq<char>>::empty() && !a.written(),
    {
        let a = Self {
            output_directory,
            filename,
            created_files: Vec::new(),
            data_written_to_file: false,
        };
        assert(a.targets() =~= Seq::<Seq<char>>::empty());
        Ok(a)
    }

    /// Nothing is held back: every record has been handed out when it arrived.
    pub fn output(&self) -> (r: Result<(), Error>)
        ensures
            r is Ok,
    {
        Ok(())
    }

    /// The targets touched so far, the one touched first in front.
    pub fn created_files(&self) -> (names: Vec<String>)
        ensures
            names@.len() == self.targets().len(),
            forall|i: int| 0 <= i < names@.len() ==> (#[trigger] names@[i])@ == self.targets()[i],
    {
        let mut names: Vec<String> = Vec::new();
        let mut at: usize = 0;
        while at < self.created_files.len()
            invariant
                at <= self.created_files.len(),
                names@.len() == at,
                forall|i: int| 0 <= i < at ==> (#[trigger] names@[i])@ == self.targets()[i],
            decreases self.created_files.len() - at,
        {
            names.push(self.created_files[at].clone());
            at = at + 1;
        }
        names
    }

    /// Whether `target` has been touched.
    fn knows(&self, target: &String) -> (known: bool)
        ensures
            known == self.targets().contains(target@),
    {
        let mut at: usize = 0;
        while at < self.created_files.len()
            invariant
                at <= self.created_files.len(),
                forall|i: int| 0 <= i < at ==> self.targets()[i] != target@,
            decreases self.created_files.len() - at,
        {
            if self.created_files[at] == *target {
                assert(self.targets()[at as int] == target@);
                return true;
            }
            at = at + 1;
        }
        false
    }

    /// Sends a record to the target `target`: the target is listed if it is
    /// new, and the bytes of the record with one line feed behind them are to
    /// be appended to the file of that name in the directory of the
    /// aggregator, behind directories of its own where the pattern holds a slash.
    pub fn route(&mut self, target: String, data: &Data) -> (effect: Effect)
        requires
            old(self).wf(),
        ensures
            final(self).wf(),
            final(self).directory() == old(self).directory(),
            final(self).pattern() == old(self).pattern(),
            final(self).targets() == listed(old(self).targets(), target@),
            final(self).written(),
            sent(effect, old(self).directory(), old(self).pattern(), Some(target@), data.raw@),
    {
        let ghost before = self.targets();
        if !self.knows(&target) {
            self.created_files.push(target.clone());
            assert(self.targets() =~= before.push(target@));
        }
        let mut bytes = copy_of(&data.raw);
        bytes.push(10u8);
        self.data_written_to_file = true;
        Effect::Append {
            directory: self.output_directory.clone(),
            target,
            parents: has_char(self.filename.as_str(), '/'),
            bytes,
        }
    }
}

impl Aggregator for SplitAggregator {
    /// No target is listed twice.
    closed spec fn wf(&self) -> bool {
        self.targets().no_duplicates()
    }

    /// A record is refused where the pattern cannot be written for its timestamp.
    open spec fn refuses(&self, data: Record) -> bool {
        rendering(
            data.timestamp.secs,
            data.timestamp.nanos,
            data.timestamp.offset,
            self.pattern(),
        ) is None
    }

    /// The target that the pattern makes of the timestamp is listed, and the
    /// line of the record is to be appended to the file of that name.
    open spec fn took(&self, data: Record, after: &Self, effect: Effect) -> bool {
        let name = rendering(
            data.timestamp.secs,
            data.timestamp.nanos,
            data.timestamp.offset,
            self.pattern(),
        );
        &&& name is Some
        &&& sent(effect, self.directory(), self.pattern(), name, data.raw)
        &&& after.directory() == self.directory()
        &&& after.pattern() == self.pattern()
        &&& after.targets() == listed(self.targets(), name->0)
        &&& after.written()
    }

    /// Sends the record to the target that the pattern makes of its
    /// timestamp. A record for whose timestamp the pattern cannot be written
    /// is refused.
    fn update(&mut self, data: &Data) -> (r: Result<Effect, Error>)
        ensures
            final(self).directory() == old(self).directory(),
            final(self).pattern() == old(self).pattern(),
            match r {
                Ok(effect) => sent(
                    effect,
                    old(self).directory(),
                    old(self).pattern(),
                    rendering(
                        data.timestamp.secs,
                        data.timestamp.nanos,
                        data.timestamp.offset,
                        old(self).pattern(),
                    ),
                    data.raw@,
                ) && final(self).written() && final(self).targets() == listed(
                    old(self).targets(),
                    rendering(
                        data.timestamp.secs,
                        data.timestamp.nanos,
                        data.timestamp.offset,
                        old(self).pattern(),
                    )->0,
                ),
                Err(e) => e.kind == ErrorKind::Aggregator && rendering(
                    data.timestamp.secs,
                    data.timestamp.nanos,
                    data.timestamp.offset,
                    old(self).pattern(),
                ) is None && final(self).targets() == old(self).targets() && final(self).written()
                    == old(self).written(),
            },
    {
        match render(&data.timestamp, self.filename.as_str()) {
            Some(target) => Ok(self.route(target, data)),
            None => Err(
                Error::new(
                    String::from_str("The pattern of the file name cannot be written"),
                    ErrorKind::Aggregator,
                ),
            ),
        }
    }

    /// The summary: the targets touched, each once, by their names relative
    /// to the directory of the aggregator.
    fn return_value(&self) -> (r: Result<String, Error>)
        ensures
            r matches Ok(text) && text@ == summary(self.targets()),
    {
        if self.created_files.len() == 0 {
            return Ok(String::from_str("Completed split, files created: []\n"));
        }
        let mut text = String::from_str("Completed split, files created: [\n");
        let mut at: usize = 0;
        while at < self.created_files.len()
            invariant
                at <= self.created_files.len(),
                self.targets().len() == self.created_files.len(),
                text@ == "Completed split, files created: [\n"@ + target_lines(
                    self.targets(),
                    at as nat,
                ),
            decreases self.created_files.len() - at,
        {
            assert(self.targets()[at as int] == self.created_files[at as int]@);
            text = text.concat("    \"").concat(self.created_files[at].as_str()).concat("\",\n");
            at = at + 1;
        }
        Ok(text.concat("]\n"))
    }
}

} // verus!
