//! Records, and the normalisation of the text of a timestamp into an instant.

pub mod parsing;

use crate::data::parsing::{
    epoch_at, found, lookup_complaint, naive_of, offset_or_utc, or_else, order_after, parse_dt,
    parse_integer, parse_naive_dt, text_of, zoned_of, FormatDictionary,
};
use crate::error::{Error, ErrorKind};
use crate::text::{
    chars_of, copy_of, integer_of, read_integer, trim_line_feeds, trimmed, utf8_complaint, utf8_text,
};
use crate::timestamp::Timestamp;
use vstd::prelude::*;
use vstd::string::*;
use vstd::utf8::{decode_utf8, valid_utf8};

verus! {

/// What a record is: an instant and the bytes it was read from.
pub struct Record {
    pub timestamp: Timestamp,
    pub raw: Seq<u8>,
}

/// A record of the stream: the instant it was normalised to, and its bytes as
/// they came. Aggregators order records by the instant alone.
#[derive(Debug)]
pub struct Data {
    pub timestamp: Timestamp,
    pub raw: Vec<u8>,
}

impl View for Data {
    type V = Record;

    open spec fn view(&self) -> Record {
        Record { timestamp: self.timestamp, raw: self.raw@ }
    }
}

impl Clone for Data {
    fn clone(&self) -> (copy: Self)
        ensures
            copy@ == self@,
    {
        Data { timestamp: self.timestamp, raw: copy_of(&self.raw) }
    }
}

impl Default for Data {
    /// The epoch at UTC, with no bytes.
    fn default() -> (d: Self)
        ensures
            d.timestamp == (Timestamp { secs: 0, nanos: 0, offset: 0 }),
            d.raw@ == Seq::<u8>::empty(),
    {
        Data { timestamp: Timestamp { secs: 0, nanos: 0, offset: 0 }, raw: Vec::new() }
    }
}

/// The timestamp that `s` names when no dictionary is asked: with its own
/// offset if it reads so, else without one and shown at the offset `tz`
/// names, else as a count of seconds since the epoch.
pub open spec fn instant_of(s: Seq<char>, f: Option<Seq<char>>, tz: Option<Seq<char>>) -> Option<
    Timestamp,
> {
    or_else(
        zoned_of(s, f),
        or_else(
            naive_of(s, f, offset_or_utc(tz)),
            match integer_of(s) {
                Some(seconds) => epoch_at(seconds, 0, offset_or_utc(tz)),
                None => None,
            },
        ),
    )
}

/// The patterns and the priority list of a dictionary, where there is one.
pub open spec fn shelf(dict: Option<&mut FormatDictionary>) -> Option<
    (Seq<(Seq<char>, Seq<char>)>, Seq<int>),
> {
    match dict {
        Some(d) => Some((d.patterns(), d.order())),
        None => None,
    }
}

/// The timestamp that `s` names: by the pattern `f` where there is one, else
/// by the dictionary where there is one, else by the patterns every stream is
/// tried with. With a pattern or without a dictionary, a text that reads as a
/// whole number is a count of seconds since the epoch where nothing else
/// reads it.
pub open spec fn normal_form(
    s: Seq<char>,
    f: Option<Seq<char>>,
    tz: Option<Seq<char>>,
    dict: Option<(Seq<(Seq<char>, Seq<char>)>, Seq<int>)>,
) -> Option<Timestamp> {
    match (f, dict) {
        (None, Some(d)) => found(d.0, d.1, s, offset_or_utc(tz)),
        _ => instant_of(s, f, tz),
    }
}

/// What the error says of a text that names no timestamp.
pub open spec fn instant_complaint(s: Seq<char>, f: Option<Seq<char>>) -> Seq<char> {
    s + " cannot be parsed. Format string provided "@ + (match f {
        Some(pattern) => "("@ + pattern + ") "@,
        None => Seq::<char>::empty(),
    }) + "is not valid."@
}

impl Data {
    /// Normalises the text `s` of a timestamp by the patterns of a dictionary
    /// and makes a record of it and `raw`.
    pub fn from_dict(
        s: &str,
        raw: Vec<u8>,
        tz: Option<&String>,
        dictionary: &mut FormatDictionary,
    ) -> (r: Result<Self, Error>)
        requires
            old(dictionary).wf(),
        ensures
            final(dictionary).wf(),
            final(dictionary).patterns() == old(dictionary).patterns(),
            final(dictionary).order() == order_after(
                old(dictionary).patterns(),
                old(dictionary).order(),
                s@,
                offset_or_utc(text_of(tz)),
            ),
            match r {
                Ok(d) => found(
                    old(dictionary).patterns(),
                    old(dictionary).order(),
                    s@,
                    offset_or_utc(text_of(tz)),
                ) == Some(d.timestamp) && d.raw == raw,
                Err(e) => found(
                    old(dictionary).patterns(),
                    old(dictionary).order(),
                    s@,
                    offset_or_utc(text_of(tz)),
                ) is None && e.kind == ErrorKind::Format && e.reason@ == lookup_complaint(s@),
            },
    {
        match dictionary.parse_datetime(s, tz) {
            Ok(timestamp) => Ok(Data { timestamp, raw }),
            Err(e) => Err(e),
        }
    }

    /// Normalises the text `s` of a timestamp and makes a record of it and
    /// `raw`. A pattern `f` decides how the text is read; without one the
    /// dictionary does, where there is one; without either the text is read by
    /// the patterns every stream is tried with.
    pub fn normalized(
        s: &str,
        f: Option<&String>,
        tz: Option<&String>,
        dict: Option<&mut FormatDictionary>,
        raw: Vec<u8>,
    ) -> (r: Result<Self, Error>)
        requires
            dict matches Some(d) ==> d.wf(),
        ensures
            dict matches Some(d) ==> final(d).wf(),
            dict matches Some(d) ==> final(d).patterns() == d.patterns(),
            dict matches Some(d) ==> final(d).order() == (if f is None {
                order_after(d.patterns(), d.order(), s@, offset_or_utc(text_of(tz)))
            } else {
                d.order()
            }),
            match r {
                Ok(data) => normal_form(s@, text_of(f), text_of(tz), shelf(dict)) == Some(
                    data.timestamp,
                ) && data.raw == raw,
                Err(e) => normal_form(s@, text_of(f), text_of(tz), shelf(dict)) is None && e.kind
                    == (if f is None && dict is Some {
                    ErrorKind::Format
                } else {
                    ErrorKind::DateTime
                }),
            },
    {
        if f.is_some() {
            return Data::new(s, f, tz, raw);
        }
        match dict {
            Some(dictionary) => Data::from_dict(s, raw, tz, dictionary),
            None => Data::new(s, f, tz, raw),
        }
    }

    /// Normalises the text `s` of a timestamp and makes a record of it and `raw`.
    pub fn new(s: &str, f: Option<&String>, tz: Option<&String>, raw: Vec<u8>) -> (r: Result<
        Self,
        Error,
    >)
        ensures
            match r {
                Ok(d) => instant_of(s@, text_of(f), text_of(tz)) == Some(d.timestamp) && d.raw
                    == raw,
                Err(e) => instant_of(s@, text_of(f), text_of(tz)) is None && e.kind
                    == ErrorKind::DateTime && e.reason@ == instant_complaint(s@, text_of(f)),
            },
    {
        if let Some(timestamp) = parse_dt(s, f) {
            return Ok(Data { timestamp, raw });
        }
        if let Some(timestamp) = parse_naive_dt(s, f, tz) {
            return Ok(Data { timestamp, raw });
        }
        let chars = chars_of(s);
        if let Some(epoch) = read_integer(&chars) {
            if let Some(timestamp) = parse_integer(epoch, 0, tz) {
                return Ok(Data { timestamp, raw });
            }
        }
        let head = String::from_str(s).concat(" cannot be parsed. Format string provided ");
        let named = match f {
            Some(pattern) => head.concat("(").concat(pattern.as_str()).concat(") "),
            None => head,
        };
        Err(Error::new(named.concat("is not valid."), ErrorKind::DateTime))
    }

    /// The bytes of the record as text, without the line feeds at its end.
    pub fn as_string(&self) -> (r: Result<String, Error>)
        ensures
            match r {
                Ok(text) => valid_utf8(self.raw@) && text@ == trimmed(decode_utf8(self.raw@)),
                Err(e) => !valid_utf8(self.raw@) && e.kind == ErrorKind::DateTime && e.reason@
                    == utf8_complaint(self.raw@),
            },
    {
        match utf8_text(self.raw.as_slice()) {
            Ok(text) => Ok(trim_line_feeds(text)),
            Err(reason) => Err(Error::new(reason, ErrorKind::DateTime)),
        }
    }

    /// The record as it is shown: its text, or the message of the error that
    /// its bytes give.
    pub fn to_text(&self) -> (text: String)
        ensures
            text@ == (if valid_utf8(self.raw@) {
                trimmed(decode_utf8(self.raw@))
            } else {
                "Error: "@ + utf8_complaint(self.raw@)
            }),
    {
        match self.as_string() {
            Ok(text) => text,
            Err(e) => e.message(),
        }
    }
}

} // verus!
