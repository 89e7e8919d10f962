//! The two ends of the input: sources hand out the bytes of one record at a
//! time, and parsers find the timestamp in them and make a record.

pub mod csv;
pub mod file;
pub mod json;

use crate::data::parsing::{offset_or_utc, order_after, text_of, FormatDictionary};
use crate::data::{normal_form, shelf, Data, Record};
use crate::error::{Error, ErrorKind};
use crate::text::utf8_text;
use vstd::prelude::*;
use vstd::string::*;
use vstd::utf8::{decode_utf8, valid_utf8};

verus! {

/// A source of records. It keeps its own place in the input.
pub trait Source {
    /// The bytes of the next record; none at all once the input has ended.
    fn read_data(&mut self) -> Result<Vec<u8>, Error>;
}

/// A parser makes a record of the bytes a source handed out.
pub trait Parser {
    /// The text of the timestamp that the parser finds in `raw`, where it finds one.
    spec fn timestamp_text(&self, raw: Seq<u8>) -> Option<Seq<char>>;

    /// What becomes of `raw`: the record made of it, or the kind of the error.
    spec fn outcome(
        &self,
        raw: Seq<u8>,
        fmt: Option<Seq<char>>,
        tz: Option<Seq<char>>,
        dict: Option<(Seq<(Seq<char>, Seq<char>)>, Seq<int>)>,
        transform: Option<Seq<char>>,
    ) -> Result<Record, ErrorKind>;

    /// Finds the timestamp in `raw` and normalises it: by the pattern `fmt`
    /// where there is one, else by the dictionary where there is one. A
    /// timestamp read without an offset is shown at the offset that `tz`
    /// names. With `transform`, a parser that reads a field writes the
    /// timestamp back into it by that pattern. The dictionary is asked, and
    /// learns, only where a text was found and no pattern was given.
    fn parse_data(
        &self,
        raw: Vec<u8>,
        fmt: Option<&String>,
        tz: Option<&String>,
        dict: Option<&mut FormatDictionary>,
        transform: Option<&String>,
    ) -> (r: Result<Data, Error>)
        requires
            dict matches Some(d) ==> d.wf(),
        ensures
            dict matches Some(d) ==> final(d).wf(),
            dict matches Some(d) ==> final(d).patterns() == d.patterns(),
            dict matches Some(d) ==> final(d).order() == learnt(
                d.patterns(),
                d.order(),
                self.timestamp_text(raw@),
                text_of(fmt),
                text_of(tz),
            ),
            agrees(
                r,
                self.outcome(raw@, text_of(fmt), text_of(tz), shelf(dict), text_of(transform)),
            ),
    ;
}

/// The priority list of a dictionary once a parser has worked on a record:
/// the list after the dictionary has looked up the text of the timestamp,
/// where one was found and no pattern was given, and the list as it was otherwise.
pub open spec fn learnt(
    patterns: Seq<(Seq<char>, Seq<char>)>,
    order: Seq<int>,
    text: Option<Seq<char>>,
    fmt: Option<Seq<char>>,
    tz: Option<Seq<char>>,
) -> Seq<int> {
    match (text, fmt) {
        (Some(s), None) => order_after(patterns, order, s, offset_or_utc(tz)),
        _ => order,
    }
}

/// `r` is the record, or an error of the kind, that `outcome` names.
pub open spec fn agrees(r: Result<Data, Error>, outcome: Result<Record, ErrorKind>) -> bool {
    match (r, outcome) {
        (Ok(data), Ok(record)) => data@ == record,
        (Err(e), Err(kind)) => e.kind == kind,
        _ => false,
    }
}

/// The kind of the error for a text that names no timestamp: no pattern of
/// the dictionary read it, where the dictionary was asked, and no stage of
/// the cascade did otherwise.
pub open spec fn unread(
    fmt: Option<Seq<char>>,
    dict: Option<(Seq<(Seq<char>, Seq<char>)>, Seq<int>)>,
) -> ErrorKind {
    if fmt is None && dict is Some {
        ErrorKind::Format
    } else {
        ErrorKind::DateTime
    }
}

/// What becomes of a plain line: the record made of it, or the kind of the error.
pub open spec fn line_outcome(
    raw: Seq<u8>,
    fmt: Option<Seq<char>>,
    tz: Option<Seq<char>>,
    dict: Option<(Seq<(Seq<char>, Seq<char>)>, Seq<int>)>,
) -> Result<Record, ErrorKind> {
    if !valid_utf8(raw) {
        Err(ErrorKind::Parser)
    } else {
        match normal_form(decode_utf8(raw), fmt, tz, dict) {
            Some(at) => Ok(Record { timestamp: at, raw }),
            None => Err(unread(fmt, dict)),
        }
    }
}

/// The parser of plain lines: the whole line is the timestamp.
pub struct SimpleParser;

impl Default for SimpleParser {
    fn default() -> Self {
        SimpleParser
    }
}

impl Parser for SimpleParser {
    /// The whole line, where it is text.
    open spec fn timestamp_text(&self, raw: Seq<u8>) -> Option<Seq<char>> {
        if valid_utf8(raw) {
            Some(decode_utf8(raw))
        } else {
            None
        }
    }

    /// The record keeps the line as it is; `transform` has no field to work on.
    open spec fn outcome(
        &self,
        raw: Seq<u8>,
        fmt: Option<Seq<char>>,
        tz: Option<Seq<char>>,
        dict: Option<(Seq<(Seq<char>, Seq<char>)>, Seq<int>)>,
        transform: Option<Seq<char>>,
    ) -> Result<Record, ErrorKind> {
        line_outcome(raw, fmt, tz, dict)
    }

    fn parse_data(
        &self,
        raw: Vec<u8>,
        fmt: Option<&String>,
        tz: Option<&String>,
        dict: Option<&mut FormatDictionary>,
        transform: Option<&String>,
    ) -> (r: Result<Data, Error>) {
        let kept = crate::text::copy_of(&raw);
        match utf8_text(raw.as_slice()) {
            Ok(text) => Data::normalized(text, fmt, tz, dict, kept),
            Err(reason) => Err(
                Error::new(
                    String::from_str("Timestamp could not be parsed: ").concat(reason.as_str()),
                    ErrorKind::Parser,
                ),
            ),
        }
    }
}

} // verus!
