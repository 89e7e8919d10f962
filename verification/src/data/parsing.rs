//! Reading offsets and timestamps from text.

use crate::calendar::{
    naive_reading, read_epoch, read_naive, read_rfc2822, read_rfc3339, read_zoned, rfc2822_reading,
    rfc3339_reading, stamped, zoned_reading,
};
use crate::error::{Error, ErrorKind};
use crate::text::{chars_of, digit_of, is_digit, number_at, read_number};
use crate::timestamp::{representable, Timestamp};
use vstd::prelude::*;
use vstd::string::*;

verus! {

/// `c` is a plus or a minus sign.
pub open spec fn is_sign(c: char) -> bool {
    c == '+' || c == '-'
}

/// An offset token stands in `s` at `at`: a sign, an hour of two digits whose
/// first is `0` or `1`, and a minute of two digits, the two with a colon
/// between them where `colon` is set and with nothing between them otherwise.
pub open spec fn token_at(s: Seq<char>, at: int, colon: bool) -> bool {
    let minute = if colon {
        at + 4
    } else {
        at + 3
    };
    &&& 0 <= at
    &&& minute + 2 <= s.len()
    &&& is_sign(s[at])
    &&& (s[at + 1] == '0' || s[at + 1] == '1')
    &&& is_digit(s[at + 2])
    &&& (colon ==> s[at + 3] == ':')
    &&& is_digit(s[minute])
    &&& is_digit(s[minute + 1])
}

/// The first place from `from` on at which an offset token stands in `s`.
pub open spec fn token_from(s: Seq<char>, from: int, colon: bool) -> Option<int>
    decreases s.len() - from,
{
    if from < 0 || from >= s.len() {
        None
    } else if token_at(s, from, colon) {
        Some(from)
    } else {
        token_from(s, from + 1, colon)
    }
}

/// The seconds east of UTC that the token at `at` names: hours and minutes
/// in seconds, negated behind a minus sign.
pub open spec fn token_seconds(s: Seq<char>, at: int, colon: bool) -> int {
    let minute = if colon {
        at + 4
    } else {
        at + 3
    };
    let size = 3600 * number_at(s, at + 1, 2) + 60 * number_at(s, minute, 2);
    if s[at] == '+' {
        size
    } else {
        -size
    }
}

/// The offset that `s` names, in seconds east of UTC. It names one where a
/// token of exactly one of the two shapes stands in it; the first token of
/// that shape counts.
pub open spec fn offset_of(s: Seq<char>) -> Option<int> {
    match (token_from(s, 0, true), token_from(s, 0, false)) {
        (Some(at), None) => Some(token_seconds(s, at, true)),
        (None, Some(at)) => Some(token_seconds(s, at, false)),
        _ => None,
    }
}

/// What the error says of a text that names no offset.
pub open spec fn offset_complaint(tz: Option<Seq<char>>) -> Seq<char> {
    match tz {
        Some(s) => "Could not convert \""@ + s + "\" into a timezone"@,
        None => "Could not parse a timezone because no format provided."@,
    }
}

/// The view of an optional text.
pub open spec fn text_of(s: Option<&String>) -> Option<Seq<char>> {
    match s {
        Some(s) => Some(s@),
        None => None,
    }
}

/// Whether an offset token stands in `s` at `at`.
fn is_token_at(s: &Vec<char>, at: usize, colon: bool) -> (b: bool)
    requires
        at < s.len(),
    ensures
        b == token_at(s@, at as int, colon),
{
    let width: usize = if colon {
        6
    } else {
        5
    };
    if s.len() - at < width {
        return false;
    }
    let minute: usize = if colon {
        at + 4
    } else {
        at + 3
    };
    (s[at] == '+' || s[at] == '-') && (s[at + 1] == '0' || s[at + 1] == '1') && digit_of(
        s[at + 2],
    ).is_some() && (!colon || s[at + 3] == ':') && digit_of(s[minute]).is_some() && digit_of(
        s[minute + 1],
    ).is_some()
}

/// Finds the first offset token of the given shape in `s`.
fn find_token(s: &Vec<char>, colon: bool) -> (r: Option<usize>)
    ensures
        match r {
            Some(at) => token_from(s@, 0, colon) == Some(at as int) && token_at(
                s@,
                at as int,
                colon,
            ),
            None => token_from(s@, 0, colon) is None,
        },
{
    let mut at: usize = 0;
    while at < s.len()
        invariant
            at <= s.len(),
            token_from(s@, 0, colon) == token_from(s@, at as int, colon),
        decreases s.len() - at,
    {
        if is_token_at(s, at, colon) {
            return Some(at);
        }
        at = at + 1;
    }
    None
}

/// The seconds that the token at `at` names.
fn read_token(s: &Vec<char>, at: usize, colon: bool) -> (r: i32)
    requires
        token_at(s@, at as int, colon),
    ensures
        r == token_seconds(s@, at as int, colon),
        -86_400 < r < 86_400,
{
    assert(s@.len() == s.len());
    let minute: usize = if colon {
        at + 4
    } else {
        at + 3
    };
    proof {
        reveal_with_fuel(number_at, 3);
    }
    let hours = read_number(s, at + 1, 2).unwrap();
    let minutes = read_number(s, minute, 2).unwrap();
    let size: i32 = (3600 * hours + 60 * minutes) as i32;
    if s[at] == '+' {
        size
    } else {
        -size
    }
}

/// Reads a fixed offset from UTC, in seconds east, from a token `+HH:MM` or
/// `+HHMM` (or with a minus sign) that stands in the text. There is none
/// without a text, without a token, and where tokens of both shapes stand in it.
pub fn parse_fixed_offset(tz: Option<&String>) -> (r: Result<i32, Error>)
    ensures
        match r {
            Ok(seconds) => text_of(tz) matches Some(s) && offset_of(s) == Some(seconds as int)
                && -86_400 < seconds < 86_400,
            Err(e) => (text_of(tz) matches Some(s) ==> offset_of(s) is None) && e.kind
                == ErrorKind::Timezone && e.reason@ == offset_complaint(text_of(tz)),
        },
{
    match tz {
        Some(text) => {
            let chars = chars_of(text.as_str());
            match (find_token(&chars, true), find_token(&chars, false)) {
                (Some(at), None) => {
                    return Ok(read_token(&chars, at, true));
                },
                (None, Some(at)) => {
                    return Ok(read_token(&chars, at, false));
                },
                _ => {},
            }
            let reason = String::from_str("Could not convert \"").concat(text.as_str()).concat(
                "\" into a timezone",
            );
            Err(Error::new(reason, ErrorKind::Timezone))
        },
        None => Err(
            Error::new(
                String::from_str("Could not parse a timezone because no format provided."),
                ErrorKind::Timezone,
            ),
        ),
    }
}

/// The offset that `tz` names, and UTC where it names none.
pub open spec fn offset_or_utc(tz: Option<Seq<char>>) -> i32 {
    match tz {
        Some(s) => match offset_of(s) {
            Some(seconds) => seconds as i32,
            None => 0,
        },
        None => 0,
    }
}

/// The first of the two that is there.
pub open spec fn or_else(first: Option<Timestamp>, second: Option<Timestamp>) -> Option<
    Timestamp,
> {
    match first {
        Some(t) => Some(t),
        None => second,
    }
}

/// A date and time without an offset, taken as UTC and shown at `offset`.
pub open spec fn placed(naive: Option<(i64, u32)>, offset: i32) -> Option<Timestamp> {
    match naive {
        Some(n) => Some(Timestamp { secs: n.0, nanos: n.1, offset }),
        None => None,
    }
}

/// The timestamp that `s` names together with its own offset: by the pattern
/// `f` where there is one; else by the pattern `%Y-%m-%d %H:%M:%S %z`, as an
/// RFC 2822 date or as an RFC 3339 date, whichever reads it first.
pub open spec fn zoned_of(s: Seq<char>, f: Option<Seq<char>>) -> Option<Timestamp> {
    match f {
        Some(pattern) => stamped(zoned_reading(s, pattern)),
        None => or_else(
            stamped(zoned_reading(s, "%Y-%m-%d %H:%M:%S %z"@)),
            or_else(stamped(rfc2822_reading(s)), stamped(rfc3339_reading(s))),
        ),
    }
}

/// The timestamp that `s` names without an offset, shown at `offset`: by the
/// pattern `f` where there is one; else by the first that reads it of
/// `%Y-%m-%d %H:%M:%S`, `%a, %d %b %Y %H:%M:%S` and `%Y-%m-%dT%H:%M:%S`.
pub open spec fn naive_of(s: Seq<char>, f: Option<Seq<char>>, offset: i32) -> Option<Timestamp> {
    match f {
        Some(pattern) => placed(naive_reading(s, pattern), offset),
        None => or_else(
            placed(naive_reading(s, "%Y-%m-%d %H:%M:%S"@), offset),
            or_else(
                placed(naive_reading(s, "%a, %d %b %Y %H:%M:%S"@), offset),
                placed(naive_reading(s, "%Y-%m-%dT%H:%M:%S"@), offset),
            ),
        ),
    }
}

/// The instant `secs` seconds and `nanos` nanoseconds after the epoch, shown
/// at `offset`, where the calendar holds it.
pub open spec fn epoch_at(secs: i64, nanos: u32, offset: i32) -> Option<Timestamp> {
    if representable(secs as int, nanos as int) {
        Some(Timestamp { secs, nanos, offset })
    } else {
        None
    }
}

/// The offset that `tz` names, and UTC where it names none.
pub fn offset_or_default(tz: Option<&String>) -> (seconds: i32)
    ensures
        seconds == offset_or_utc(text_of(tz)),
        -86_400 < seconds < 86_400,
{
    match parse_fixed_offset(tz) {
        Ok(seconds) => seconds,
        Err(_) => 0,
    }
}

/// Places a date and time that was read without an offset: it is taken as
/// UTC and shown at `offset`.
pub fn place(naive: Option<(i64, u32)>, offset: i32) -> (r: Option<Timestamp>)
    ensures
        r == placed(naive, offset),
{
    match naive {
        Some(n) => Some(Timestamp { secs: n.0, nanos: n.1, offset }),
        None => None,
    }
}

/// Reads a count of seconds and nanoseconds since the epoch as a timestamp at
/// the offset that `tz` names, or at UTC.
pub fn parse_integer(i: i64, n: u32, tz: Option<&String>) -> (r: Option<Timestamp>)
    ensures
        r == epoch_at(i, n, offset_or_utc(text_of(tz))),
{
    let offset = offset_or_default(tz);
    place(read_epoch(i, n), offset)
}

/// Reads a timestamp that carries its own offset.
pub fn parse_dt(s: &str, f: Option<&String>) -> (r: Option<Timestamp>)
    ensures
        r == zoned_of(s@, text_of(f)),
{
    match f {
        Some(pattern) => read_zoned(s, pattern.as_str()),
        None => {
            let fixed = read_zoned(s, "%Y-%m-%d %H:%M:%S %z");
            if fixed.is_some() {
                return fixed;
            }
            let mail = read_rfc2822(s);
            if mail.is_some() {
                return mail;
            }
            read_rfc3339(s)
        },
    }
}

/// Reads a timestamp that carries no offset, and shows it at the offset that
/// `tz` names, or at UTC.
pub fn parse_naive_dt(s: &str, f: Option<&String>, tz: Option<&String>) -> (r: Option<Timestamp>)
    ensures
        r == naive_of(s@, text_of(f), offset_or_utc(text_of(tz))),
{
    let offset = offset_or_default(tz);
    match f {
        Some(pattern) => place(read_naive(s, pattern.as_str()), offset),
        None => {
            let plain = place(read_naive(s, "%Y-%m-%d %H:%M:%S"), offset);
            if plain.is_some() {
                return plain;
            }
            let mail = place(read_naive(s, "%a, %d %b %Y %H:%M:%S"), offset);
            if mail.is_some() {
                return mail;
            }
            place(read_naive(s, "%Y-%m-%dT%H:%M:%S"), offset)
        },
    }
}

/// The timestamp that `s` names by one pattern: with its own offset if the
/// pattern reads one, else without and shown at `offset`.
pub open spec fn reading(s: Seq<char>, pattern: Seq<char>, offset: i32) -> Option<Timestamp> {
    or_else(stamped(zoned_reading(s, pattern)), placed(naive_reading(s, pattern), offset))
}

/// Reads `s` by one pattern.
pub fn read_by(s: &str, pattern: &str, offset: i32) -> (r: Option<Timestamp>)
    ensures
        r == reading(s@, pattern@, offset),
{
    let zoned = read_zoned(s, pattern);
    if zoned.is_some() {
        return zoned;
    }
    place(read_naive(s, pattern), offset)
}

/// The first place from `from` on in the priority list `order` whose pattern reads `s`.
pub open spec fn first_ranked(
    patterns: Seq<(Seq<char>, Seq<char>)>,
    order: Seq<int>,
    s: Seq<char>,
    offset: i32,
    from: int,
) -> Option<int>
    decreases order.len() - from,
{
    if from < 0 || from >= order.len() {
        None
    } else if reading(s, patterns[order[from]].1, offset) is Some {
        Some(from)
    } else {
        first_ranked(patterns, order, s, offset, from + 1)
    }
}

/// The first place from `from` on in `patterns` whose pattern reads `s`.
pub open spec fn first_listed(
    patterns: Seq<(Seq<char>, Seq<char>)>,
    s: Seq<char>,
    offset: i32,
    from: int,
) -> Option<int>
    decreases patterns.len() - from,
{
    if from < 0 || from >= patterns.len() {
        None
    } else if reading(s, patterns[from].1, offset) is Some {
        Some(from)
    } else {
        first_listed(patterns, s, offset, from + 1)
    }
}

/// The first place from `from` on at which `item` stands in `order`.
pub open spec fn place_of(order: Seq<int>, item: int, from: int) -> Option<int>
    decreases order.len() - from,
{
    if from < 0 || from >= order.len() {
        None
    } else if order[from] == item {
        Some(from)
    } else {
        place_of(order, item, from + 1)
    }
}

/// The priority list once `item` has moved to its front.
pub open spec fn promoted(order: Seq<int>, item: int) -> Seq<int> {
    match place_of(order, item, 0) {
        Some(at) => seq![item] + order.remove(at),
        None => seq![item] + order,
    }
}

/// The timestamp a dictionary finds for `s`: by the first pattern of the
/// priority list that reads it, else by the first of all patterns that does.
pub open spec fn found(
    patterns: Seq<(Seq<char>, Seq<char>)>,
    order: Seq<int>,
    s: Seq<char>,
    offset: i32,
) -> Option<Timestamp> {
    match first_ranked(patterns, order, s, offset, 0) {
        Some(k) => reading(s, patterns[order[k]].1, offset),
        None => match first_listed(patterns, s, offset, 0) {
            Some(j) => reading(s, patterns[j].1, offset),
            None => None,
        },
    }
}

/// The priority list after a dictionary has looked `s` up: as it was where a
/// pattern of the list read `s` or none at all did, and with the pattern that
/// read it moved to the front otherwise.
pub open spec fn order_after(
    patterns: Seq<(Seq<char>, Seq<char>)>,
    order: Seq<int>,
    s: Seq<char>,
    offset: i32,
) -> Seq<int> {
    match first_ranked(patterns, order, s, offset, 0) {
        Some(_) => order,
        None => match first_listed(patterns, s, offset, 0) {
            Some(j) => promoted(order, j),
            None => order,
        },
    }
}

/// No name stands twice among the patterns.
pub open spec fn names_differ(patterns: Seq<(Seq<char>, Seq<char>)>) -> bool {
    forall|i: int, j: int|
        0 <= i < j < patterns.len() ==> (#[trigger] patterns[i]).0 != (#[trigger] patterns[j]).0
}

/// Every entry of the priority list is the place of a pattern, and none stands twice.
pub open spec fn order_fits(order: Seq<int>, count: int) -> bool {
    &&& forall|k: int| 0 <= k < order.len() ==> 0 <= #[trigger] order[k] < count
    &&& forall|k: int, l: int| 0 <= k < l < order.len() ==> #[trigger] order[k] != #[trigger] order[l]
}

/// What the error says of a text that no pattern reads.
pub open spec fn lookup_complaint(s: Seq<char>) -> Seq<char> {
    "Unable to find format to parse "@ + s
}

/// One pattern of a dictionary.
#[derive(Debug)]
pub struct FormatDictionaryInner {
    fmt: String,
}

impl FormatDictionaryInner {
    pub closed spec fn pattern(&self) -> Seq<char> {
        self.fmt@
    }

    pub fn new(fmt: String) -> (inner: Self)
        ensures
            inner.pattern() == fmt@,
    {
        FormatDictionaryInner { fmt }
    }

    pub fn get_fmt(&self) -> (fmt: &str)
        ensures
            fmt@ == self.pattern(),
    {
        self.fmt.as_str()
    }
}

/// Named patterns, and the order in which they are tried first: the names of
/// those that last read a timestamp, the latest first.
#[derive(Debug)]
pub struct FormatDictionary {
    inner: Vec<(String, FormatDictionaryInner)>,
    priority: Vec<usize>,
}

impl FormatDictionary {
    /// No two patterns share a name, and the priority list names patterns of
    /// the dictionary, none of them twice.
    pub open spec fn wf(self) -> bool {
        names_differ(self.patterns()) && order_fits(self.order(), self.patterns().len() as int)
    }

    /// The names and their patterns, in the order in which they were added.
    pub closed spec fn patterns(self) -> Seq<(Seq<char>, Seq<char>)> {
        Seq::new(self.inner@.len(), |i: int| (self.inner@[i].0@, self.inner@[i].1.pattern()))
    }

    /// The priority list: places in `patterns`, the one tried first in front.
    pub closed spec fn order(self) -> Seq<int> {
        Seq::new(self.priority@.len(), |k: int| self.priority@[k] as int)
    }

    /// The names of the priority list, the one tried first in front.
    pub open spec fn priority_names(self) -> Seq<Seq<char>> {
        Seq::new(self.order().len(), |k: int| self.patterns()[self.order()[k]].0)
    }

    /// A dictionary without patterns.
    pub fn new() -> (d: Self)
        ensures
            d.wf(),
            d.patterns() == Seq::<(Seq<char>, Seq<char>)>::empty(),
            d.order() == Seq::<int>::empty(),
    {
        let d = FormatDictionary { inner: Vec::new(), priority: Vec::new() };
        assert(d.patterns() =~= Seq::<(Seq<char>, Seq<char>)>::empty());
        assert(d.order() =~= Seq::<int>::empty());
        d
    }

    /// The number of patterns.
    pub fn len(&self) -> (n: usize)
        ensures
            n == self.patterns().len(),
    {
        self.inner.len()
    }

    /// The place of the pattern called `name`.
    pub fn position(&self, name: &str) -> (r: Option<usize>)
        ensures
            match r {
                Some(at) => at < self.patterns().len() && self.patterns()[at as int].0 == name@,
                None => forall|i: int|
                    0 <= i < self.patterns().len() ==> (#[trigger] self.patterns()[i]).0 != name@,
            },
    {
        let wanted = String::from_str(name);
        let mut at: usize = 0;
        while at < self.inner.len()
            invariant
                at <= self.inner.len(),
                wanted@ == name@,
                forall|i: int| 0 <= i < at ==> (#[trigger] self.patterns()[i]).0 != name@,
            decreases self.inner.len() - at,
        {
            if self.inner[at].0 == wanted {
                return Some(at);
            }
            at = at + 1;
        }
        None
    }

    /// Adds the pattern `fmt` under `name`; a pattern that stood under that
    /// name gives way to it. The priority list stays as it is.
    pub fn insert(&mut self, name: String, fmt: String)
        requires
            old(self).wf(),
        ensures
            final(self).wf(),
            final(self).order() == old(self).order(),
            final(self).patterns() == (match place_named(old(self).patterns(), name@, 0) {
                Some(at) => old(self).patterns().update(at, (name@, fmt@)),
                None => old(self).patterns().push((name@, fmt@)),
            }),
    {
        let ghost before = self.patterns();
        let ghost order = self.order();
        let mut at: usize = 0;
        while at < self.inner.len()
            invariant
                at <= self.inner.len(),
                self.patterns() == before,
                self.order() == order,
                before == old(self).patterns(),
                order == old(self).order(),
                place_named(before, name@, 0) == place_named(before, name@, at as int),
                forall|i: int| 0 <= i < at ==> (#[trigger] before[i]).0 != name@,
                names_differ(before),
                order_fits(order, before.len() as int),
            decreases self.inner.len() - at,
        {
            if self.inner[at].0 == name {
                let ghost text = fmt@;
                self.inner[at] = (name, FormatDictionaryInner::new(fmt));
                assert(self.patterns() =~= before.update(at as int, (name@, text)));
                assert(self.order() =~= order);
                assert(names_differ(self.patterns())) by {
                    assert forall|i: int, j: int| 0 <= i < j < self.patterns().len() implies (
                    #[trigger] self.patterns()[i]).0 != (#[trigger] self.patterns()[j]).0 by {
                        assert(self.patterns()[i].0 == before[i].0);
                        assert(self.patterns()[j].0 == before[j].0);
                    }
                }
                return ;
            }
            at = at + 1;
        }
        let ghost text = fmt@;
        self.inner.push((name, FormatDictionaryInner::new(fmt)));
        assert(self.patterns() =~= before.push((name@, text)));
        assert(self.order() =~= order);
        assert(names_differ(self.patterns())) by {
            assert forall|i: int, j: int| 0 <= i < j < self.patterns().len() implies (
            #[trigger] self.patterns()[i]).0 != (#[trigger] self.patterns()[j]).0 by {
                assert(self.patterns()[i] == before[i]);
                if j < before.len() {
                    assert(self.patterns()[j] == before[j]);
                }
            }
        }
    }
}

impl FormatDictionary {
    /// The names of the priority list, the one tried first in front.
    pub fn priority(&self) -> (names: Vec<String>)
        requires
            self.wf(),
        ensures
            names@.len() == self.priority_names().len(),
            forall|k: int| 0 <= k < names@.len() ==> (#[trigger] names@[k])@ == self.priority_names()[k],
    {
        let mut names: Vec<String> = Vec::new();
        let mut k: usize = 0;
        while k < self.priority.len()
            invariant
                self.wf(),
                k <= self.priority.len(),
                names@.len() == k,
                forall|l: int| 0 <= l < k ==> (#[trigger] names@[l])@ == self.priority_names()[l],
            decreases self.priority.len() - k,
        {
            assert(self.order()[k as int] == self.priority@[k as int]);
            let at = self.priority[k];
            names.push(self.inner[at].0.clone());
            k = k + 1;
        }
        names
    }

    /// Where `item` stands in the priority list.
    fn rank(&self, item: usize) -> (r: Option<usize>)
        ensures
            match r {
                Some(k) => place_of(self.order(), item as int, 0) == Some(k as int) && k
                    < self.order().len(),
                None => place_of(self.order(), item as int, 0) is None,
            },
    {
        let mut k: usize = 0;
        while k < self.priority.len()
            invariant
                k <= self.priority.len(),
                place_of(self.order(), item as int, 0) == place_of(self.order(), item as int, k as int),
            decreases self.priority.len() - k,
        {
            if self.priority[k] == item {
                return Some(k);
            }
            k = k + 1;
        }
        None
    }

    /// Moves the pattern at `item` to the front of the priority list, from
    /// wherever it stood in it if it did.
    pub fn promote(&mut self, item: usize)
        requires
            old(self).wf(),
            item < old(self).patterns().len(),
        ensures
            final(self).wf(),
            final(self).patterns() == old(self).patterns(),
            final(self).order() == promoted(old(self).order(), item as int),
    {
        let ghost order = self.order();
        let ghost patterns = self.patterns();
        match self.rank(item) {
            Some(k) => {
                self.priority.remove(k);
                assert(self.order() =~= order.remove(k as int));
            },
            None => {
                proof {
                    place_of_none(order, item as int, 0);
                }
            },
        }
        let ghost rest = self.order();
        assert(forall|l: int| 0 <= l < rest.len() ==> #[trigger] rest[l] != item) by {
            place_of_some(order, item as int, 0);
        }
        self.priority.insert(0, item);
        assert(self.order() =~= seq![item as int] + rest);
        assert(self.patterns() =~= patterns);
    }

    /// Reads `s` by the patterns of the dictionary: first by those of the
    /// priority list, in its order, then by all of them in the order in which
    /// they were added. A pattern of the list that reads `s` leaves the list as
    /// it is; another one that does moves to its front. A timestamp read
    /// without an offset is shown at the offset that `tz` names, or at UTC.
    pub fn parse_datetime(&mut self, s: &str, tz: Option<&String>) -> (r: Result<Timestamp, Error>)
        requires
            old(self).wf(),
        ensures
            final(self).wf(),
            final(self).patterns() == old(self).patterns(),
            final(self).order() == order_after(
                old(self).patterns(),
                old(self).order(),
                s@,
                offset_or_utc(text_of(tz)),
            ),
            match r {
                Ok(t) => found(
                    old(self).patterns(),
                    old(self).order(),
                    s@,
                    offset_or_utc(text_of(tz)),
                ) == Some(t),
                Err(e) => found(
                    old(self).patterns(),
                    old(self).order(),
                    s@,
                    offset_or_utc(text_of(tz)),
                ) is None && e.kind == ErrorKind::Format && e.reason@ == lookup_complaint(s@),
            },
    {
        let offset = offset_or_default(tz);
        let ghost patterns = self.patterns();
        let ghost order = self.order();
        let mut k: usize = 0;
        while k < self.priority.len()
            invariant
                self.wf(),
                self.patterns() == patterns,
                self.order() == order,
                patterns == old(self).patterns(),
                order == old(self).order(),
                offset == offset_or_utc(text_of(tz)),
                k <= self.priority.len(),
                first_ranked(patterns, order, s@, offset, 0) == first_ranked(
                    patterns,
                    order,
                    s@,
                    offset,
                    k as int,
                ),
            decreases self.priority.len() - k,
        {
            assert(order[k as int] == self.priority@[k as int]);
            let at = self.priority[k];
            let hit = read_by(s, self.inner[at].1.get_fmt(), offset);
            if let Some(t) = hit {
                return Ok(t);
            }
            k = k + 1;
        }
        let mut j: usize = 0;
        while j < self.inner.len()
            invariant
                self.wf(),
                self.patterns() == patterns,
                self.order() == order,
                patterns == old(self).patterns(),
                order == old(self).order(),
                offset == offset_or_utc(text_of(tz)),
                j <= self.inner.len(),
                first_ranked(patterns, order, s@, offset, 0) is None,
                first_listed(patterns, s@, offset, 0) == first_listed(patterns, s@, offset, j as int),
            decreases self.inner.len() - j,
        {
            let hit = read_by(s, self.inner[j].1.get_fmt(), offset);
            if let Some(t) = hit {
                self.promote(j);
                return Ok(t);
            }
            j = j + 1;
        }
        Err(
            Error::new(
                String::from_str("Unable to find format to parse ").concat(s),
                ErrorKind::Format,
            ),
        )
    }
}

/// Once a lookup has moved a pattern to the front of the priority list, a text
/// that this pattern reads is read by it at the first try, whatever other
/// patterns would read it too, and the priority list stays as it is.
pub proof fn promoted_pattern_reads_next(
    patterns: Seq<(Seq<char>, Seq<char>)>,
    order: Seq<int>,
    first: Seq<char>,
    first_offset: i32,
    next: Seq<char>,
    next_offset: i32,
)
    requires
        names_differ(patterns),
        order_fits(order, patterns.len() as int),
        first_ranked(patterns, order, first, first_offset, 0) is None,
        first_listed(patterns, first, first_offset, 0) matches Some(j) && reading(
            next,
            patterns[j].1,
            next_offset,
        ) is Some,
    ensures
        ({
            let j = first_listed(patterns, first, first_offset, 0)->0;
            let after = order_after(patterns, order, first, first_offset);
            &&& after.len() > 0
            &&& after[0] == j
            &&& first_ranked(patterns, after, next, next_offset, 0) == Some(0int)
            &&& found(patterns, after, next, next_offset) == reading(
                next,
                patterns[j].1,
                next_offset,
            )
            &&& order_after(patterns, after, next, next_offset) == after
        }),
{
}

/// Where nothing is found from `from` on, `item` stands nowhere from there on.
pub proof fn place_of_none(order: Seq<int>, item: int, from: int)
    requires
        0 <= from,
        place_of(order, item, from) is None,
    ensures
        forall|l: int| from <= l < order.len() ==> #[trigger] order[l] != item,
    decreases order.len() - from,
{
    if from < order.len() {
        place_of_none(order, item, from + 1);
    }
}

/// Where `item` is found from `from` on, it stands at the place found and
/// nowhere between `from` and there.
pub proof fn place_of_some(order: Seq<int>, item: int, from: int)
    requires
        0 <= from,
    ensures
        place_of(order, item, from) matches Some(at) ==> from <= at < order.len() && order[at]
            == item && forall|l: int| from <= l < at ==> #[trigger] order[l] != item,
    decreases order.len() - from,
{
    if from < order.len() && order[from] != item {
        place_of_some(order, item, from + 1);
    }
}

/// The first place from `from` on at which a pattern called `name` stands.
pub open spec fn place_named(patterns: Seq<(Seq<char>, Seq<char>)>, name: Seq<char>, from: int) -> Option<
    int,
>
    decreases patterns.len() - from,
{
    if from < 0 || from >= patterns.len() {
        None
    } else if patterns[from].0 == name {
        Some(from)
    } else {
        place_named(patterns, name, from + 1)
    }
}

} // verus!
