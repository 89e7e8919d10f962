//! The parser of rows: the timestamp is one field of a row of comma-separated values.

use crate::calendar::{render, rendering};
use crate::data::parsing::{text_of, FormatDictionary};
use crate::data::{normal_form, shelf, Data, Record};
use crate::error::{Error, ErrorKind};
use crate::input::{agrees, learnt, unread, Parser};
use crate::text::{copy_of, replace_all, replaced, utf8_text};
use crate::timestamp::Timestamp;
use vstd::prelude::*;
use vstd::string::*;
use vstd::utf8::{decode_utf8, encode_utf8, valid_utf8};

verus! {

/// The fields of the first row that the `csv` crate reads from `text` where
/// no row is a header: nothing at all where it reports an error, and no row
/// where the text holds none.
pub uninterp spec fn csv_first_row(text: Seq<char>) -> Option<Option<Seq<Seq<char>>>>;

/// `ReaderBuilder::from_reader` of the `csv` crate with `has_headers` off,
/// and the first item of `Reader::records`, its fields copied out.
///
/// Trusted: the result depends on the text alone.
#[verifier::external_body]
fn first_row(text: &str) -> (r: Result<Option<Vec<String>>, String>)
    ensures
        match r {
            Ok(row) => csv_first_row(text@) == Some(row_view(row)),
            Err(_) => csv_first_row(text@) is None,
        },
{
    let mut reader = ::csv::ReaderBuilder::new().has_headers(false).from_reader(text.as_bytes());
    match reader.records().next() {
        Some(Ok(row)) => Ok(Some(row.iter().map(String::from).collect())),
        Some(Err(e)) => Err(format!("{}", e)),
        None => Ok(None),
    }
}

/// The field at `level` of a row, where there is a row and it has the field.
pub open spec fn row_field(row: Option<Seq<Seq<char>>>, level: int) -> Option<Seq<char>> {
    match row {
        Some(fields) => if 0 <= level < fields.len() {
            Some(fields[level])
        } else {
            None
        },
        None => None,
    }
}

/// The field at `level` of the first row of `text`.
pub open spec fn csv_field(text: Seq<char>, level: int) -> Option<Seq<char>> {
    match csv_first_row(text) {
        Some(row) => row_field(row, level),
        None => None,
    }
}

/// The bytes a record keeps: `raw` as it came, or with `transform` the text
/// of the row in which the text of the timestamp has given way to the
/// timestamp written by that pattern.
pub open spec fn row_bytes(
    text: Seq<char>,
    raw: Seq<u8>,
    field: Seq<char>,
    at: Timestamp,
    transform: Option<Seq<char>>,
) -> Option<Seq<u8>> {
    match transform {
        Some(pattern) => match rendering(at.secs, at.nanos, at.offset, pattern) {
            Some(written) => Some(encode_utf8(replaced(text, field, written))),
            None => None,
        },
        None => Some(raw),
    }
}

/// What becomes of a row that has been read from `text`: the record made of
/// it, or the kind of the error.
pub open spec fn row_outcome(
    text: Seq<char>,
    raw: Seq<u8>,
    row: Option<Seq<Seq<char>>>,
    level: int,
    fmt: Option<Seq<char>>,
    tz: Option<Seq<char>>,
    dict: Option<(Seq<(Seq<char>, Seq<char>)>, Seq<int>)>,
    transform: Option<Seq<char>>,
) -> Result<Record, ErrorKind> {
    match row_field(row, level) {
        None => Err(ErrorKind::Parser),
        Some(field) => match normal_form(field, fmt, tz, dict) {
            None => Err(unread(fmt, dict)),
            Some(at) => match row_bytes(text, raw, field, at, transform) {
                None => Err(ErrorKind::DateTime),
                Some(bytes) => Ok(Record { timestamp: at, raw: bytes }),
            },
        },
    }
}

/// What becomes of the bytes of a row: the record made of them, or the kind
/// of the error.
pub open spec fn csv_outcome(
    raw: Seq<u8>,
    level: int,
    fmt: Option<Seq<char>>,
    tz: Option<Seq<char>>,
    dict: Option<(Seq<(Seq<char>, Seq<char>)>, Seq<int>)>,
    transform: Option<Seq<char>>,
) -> Result<Record, ErrorKind> {
    if !valid_utf8(raw) {
        Err(ErrorKind::Parser)
    } else {
        match csv_first_row(decode_utf8(raw)) {
            None => Err(ErrorKind::Parser),
            Some(row) => row_outcome(decode_utf8(raw), raw, row, level, fmt, tz, dict, transform),
        }
    }
}

/// The fields of a row that may be there, each by its characters.
pub open spec fn row_view(row: Option<Vec<String>>) -> Option<Seq<Seq<char>>> {
    match row {
        Some(fields) => Some(fields.deep_view()),
        None => None,
    }
}

/// The parser of rows of comma-separated values.
pub struct CsvParser {
    level: u8,
}

impl CsvParser {
    /// The column of the timestamp, counted from zero.
    pub closed spec fn column(&self) -> int {
        self.level as int
    }

    /// A parser that reads the timestamp from the column `level`, counted from zero.
    pub fn new(level: u8) -> (parser: Self)
        ensures
            parser.column() == level,
    {
        Self { level }
    }

    /// Makes a record of a row that has been read from `text`. The timestamp
    /// is the field at the column of the parser; without a row, or without
    /// that field in it, there is no record. The record keeps `raw`, or with
    /// `transform` the text in which the timestamp is rewritten by that
    /// pattern wherever its text stands.
    pub fn from_row(
        &self,
        text: &str,
        row: Option<Vec<String>>,
        raw: Vec<u8>,
        fmt: Option<&String>,
        tz: Option<&String>,
        dict: Option<&mut FormatDictionary>,
        transform: Option<&String>,
    ) -> (r: Result<Data, Error>)
        requires
            dict matches Some(d) ==> d.wf(),
        ensures
            dict matches Some(d) ==> final(d).wf(),
            dict matches Some(d) ==> final(d).patterns() == d.patterns(),
            dict matches Some(d) ==> final(d).order() == learnt(
                d.patterns(),
                d.order(),
                row_field(row_view(row), self.column()),
                text_of(fmt),
                text_of(tz),
            ),
            agrees(
                r,
                row_outcome(
                    text@,
                    raw@,
                    row_view(row),
                    self.column(),
                    text_of(fmt),
                    text_of(tz),
                    shelf(dict),
                    text_of(transform),
                ),
            ),
    {
        if let Some(fields) = row {
            let level = self.level as usize;
            if level < fields.len() {
                let field = fields[level].as_str();
                let mut data = Data::normalized(field, fmt, tz, dict, raw)?;
                if let Some(pattern) = transform {
                    match render(&data.timestamp, pattern.as_str()) {
                        Some(written) => {
                            let row = replace_all(text, field, written.as_str());
                            data.raw = row.as_str().as_bytes_vec();
                        },
                        None => {
                            return Err(
                                Error::new(
                                    String::from_str("Format string provided (").concat(
                                        pattern.as_str(),
                                    ).concat(") is not valid."),
                                    ErrorKind::DateTime,
                                ),
                            );
                        },
                    }
                }
                return Ok(data);
            }
        }
        Err(
            Error::new(
                String::from_str("No CSV row in data provided: ").concat(text),
                ErrorKind::Parser,
            ),
        )
    }
}

impl Parser for CsvParser {
    /// The field at the column of the parser in the first row, no row being a header.
    open spec fn timestamp_text(&self, raw: Seq<u8>) -> Option<Seq<char>> {
        if valid_utf8(raw) {
            csv_field(decode_utf8(raw), self.column())
        } else {
            None
        }
    }

    /// With `transform`, the record keeps the row with the timestamp
    /// rewritten by that pattern wherever its text stands in the row.
    open spec fn outcome(
        &self,
        raw: Seq<u8>,
        fmt: Option<Seq<char>>,
        tz: Option<Seq<char>>,
        dict: Option<(Seq<(Seq<char>, Seq<char>)>, Seq<int>)>,
        transform: Option<Seq<char>>,
    ) -> Result<Record, ErrorKind> {
        csv_outcome(raw, self.column(), fmt, tz, dict, transform)
    }

    fn parse_data(
        &self,
        raw: Vec<u8>,
        fmt: Option<&String>,
        tz: Option<&String>,
        dict: Option<&mut FormatDictionary>,
        transform: Option<&String>,
    ) -> (r: Result<Data, Error>) {
        let text = match utf8_text(raw.as_slice()) {
            Ok(text) => text,
            Err(reason) => {
                return Err(
                    Error::new(
                        String::from_str("Data coverted: ").concat(reason.as_str()),
                        ErrorKind::Parser,
                    ),
                );
            },
        };
        match first_row(text) {
            Ok(row) => self.from_row(text, row, copy_of(&raw), fmt, tz, dict, transform),
            Err(reason) => Err(Error::new(reason, ErrorKind::Parser)),
        }
    }
}

} // verus!
