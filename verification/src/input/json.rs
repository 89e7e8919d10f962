//! The parser of documents: the timestamp is the value of one field of a JSON object.

use crate::calendar::{render, rendering};
use crate::data::parsing::{text_of, FormatDictionary};
use crate::data::{normal_form, shelf, Data, Record};
use crate::error::{Error, ErrorKind};
use crate::input::{agrees, learnt, unread, Parser};
use crate::text::{copy_of, utf8_text, value_view};
use vstd::prelude::*;
use vstd::string::*;
use vstd::utf8::{decode_utf8, valid_utf8};

verus! {

/// The text that `gjson` gives for the value it finds at `path` in `json`,
/// where it finds one.
pub uninterp spec fn json_value(json: Seq<char>, path: Seq<char>) -> Option<Seq<char>>;

/// Whether `serde_json` reads `raw` as a JSON document.
pub uninterp spec fn json_document(raw: Seq<u8>) -> bool;

/// The document `raw` as `serde_json` writes it once the value of its field
/// `field` has given way to the string `text`: nothing at all where `raw` is
/// no document or cannot be written, and no document where it has no such field.
pub uninterp spec fn json_rewritten(raw: Seq<u8>, field: Seq<char>, text: Seq<char>) -> Option<
    Option<Seq<u8>>,
>;

/// `gjson::get`, with `Value::str` of what it returns where `Value::exists`
/// tells that a value was found. Of a value that was not found the text is
/// not asked: `gjson` panics there on a string that does not end.
///
/// Trusted: the result depends on the two texts alone.
#[verifier::external_body]
fn lookup(json: &str, path: &str) -> (r: Option<String>)
    ensures
        value_view(r) == json_value(json@, path@),
{
    let value = gjson::get(json, path);
    if value.exists() {
        Some(value.str().to_string())
    } else {
        None
    }
}

/// `serde_json::from_slice` for a `serde_json::Value`, with the text of its error.
///
/// Trusted: whether it succeeds depends on the bytes alone.
#[verifier::external_body]
fn check(raw: &[u8]) -> (r: Result<(), String>)
    ensures
        json_document(raw@) == (r is Ok),
{
    match serde_json::from_slice::<serde_json::Value>(raw) {
        Ok(_) => Ok(()),
        Err(e) => Err(format!("{}", e)),
    }
}

/// `serde_json::from_slice` for a `serde_json::Value`, `Value::get_mut` with
/// `field`, the assignment of a `Value::String` of `text` to what it
/// returns, and `serde_json::to_string`.
///
/// Trusted: the result depends on the bytes and the two texts alone.
#[verifier::external_body]
fn rewrite(raw: &[u8], field: &str, text: &str) -> (r: Result<Option<Vec<u8>>, String>)
    ensures
        rewritten_view(r) == json_rewritten(raw@, field@, text@),
{
    let mut document: serde_json::Value = serde_json::from_slice(raw).map_err(|e| format!("{}", e))?;
    match document.get_mut(field) {
        Some(value) => *value = serde_json::Value::String(text.to_string()),
        None => return Ok(None),
    }
    serde_json::to_string(&document).map(|s| Some(s.into_bytes())).map_err(|e| format!("{}", e))
}

/// What becomes of the value that was looked up in a document: the record
/// made of it and of `raw`, or the kind of the error. Without a value there
/// is no record.
pub open spec fn value_outcome(
    value: Option<Seq<char>>,
    raw: Seq<u8>,
    fmt: Option<Seq<char>>,
    tz: Option<Seq<char>>,
    dict: Option<(Seq<(Seq<char>, Seq<char>)>, Seq<int>)>,
) -> Result<Record, ErrorKind> {
    match value {
        None => Err(ErrorKind::Parser),
        Some(text) => match normal_form(text, fmt, tz, dict) {
            Some(at) => Ok(Record { timestamp: at, raw }),
            None => Err(unread(fmt, dict)),
        },
    }
}

/// What becomes of a record whose document was to be rewritten: the record
/// with the bytes of the document as rewritten, or the kind of the error
/// where the bytes are no document or lack the field.
pub open spec fn settled(record: Record, rewritten: Option<Option<Seq<u8>>>) -> Result<
    Record,
    ErrorKind,
> {
    match rewritten {
        Some(Some(bytes)) => Ok(Record { timestamp: record.timestamp, raw: bytes }),
        _ => Err(ErrorKind::Parser),
    }
}

/// What becomes of a document: the record made of it, or the kind of the error.
pub open spec fn json_outcome(
    raw: Seq<u8>,
    field: Seq<char>,
    fmt: Option<Seq<char>>,
    tz: Option<Seq<char>>,
    dict: Option<(Seq<(Seq<char>, Seq<char>)>, Seq<int>)>,
    transform: Option<Seq<char>>,
) -> Result<Record, ErrorKind> {
    if !valid_utf8(raw) {
        Err(ErrorKind::Parser)
    } else {
        match value_outcome(json_value(decode_utf8(raw), field), raw, fmt, tz, dict) {
            Err(kind) => Err(kind),
            Ok(record) => if !json_document(raw) {
                Err(ErrorKind::Parser)
            } else {
                match transform {
                    None => Ok(record),
                    Some(pattern) => match rendering(
                        record.timestamp.secs,
                        record.timestamp.nanos,
                        record.timestamp.offset,
                        pattern,
                    ) {
                        None => Err(ErrorKind::DateTime),
                        Some(written) => settled(record, json_rewritten(raw, field, written)),
                    },
                }
            },
        }
    }
}

/// What a rewriting gave, by the bytes it may hold.
pub open spec fn rewritten_view(rewritten: Result<Option<Vec<u8>>, String>) -> Option<
    Option<Seq<u8>>,
> {
    match rewritten {
        Ok(Some(bytes)) => Some(Some(bytes@)),
        Ok(None) => Some(None),
        Err(_) => None,
    }
}

/// The parser of JSON documents.
pub struct JsonParser {
    field: String,
}

impl JsonParser {
    /// The name of the field of the timestamp.
    pub closed spec fn name(&self) -> Seq<char> {
        self.field@
    }

    /// A parser that reads the timestamp from the field `field`.
    pub fn new(field: &str) -> (parser: Self)
        ensures
            parser.name() == field@,
    {
        Self { field: String::from_str(field) }
    }
}

impl Parser for JsonParser {
    /// The value of the field of the parser, where the document has it.
    open spec fn timestamp_text(&self, raw: Seq<u8>) -> Option<Seq<char>> {
        if valid_utf8(raw) {
            json_value(decode_utf8(raw), self.name())
        } else {
            None
        }
    }

    /// A record is made only of bytes that are a JSON document. With
    /// `transform`, the record keeps the document with the timestamp written
    /// by that pattern in the field.
    open spec fn outcome(
        &self,
        raw: Seq<u8>,
        fmt: Option<Seq<char>>,
        tz: Option<Seq<char>>,
        dict: Option<(Seq<(Seq<char>, Seq<char>)>, Seq<int>)>,
        transform: Option<Seq<char>>,
    ) -> Result<Record, ErrorKind> {
        json_outcome(raw, self.name(), fmt, tz, dict, transform)
    }

    fn parse_data(
        &self,
        raw: Vec<u8>,
        fmt: Option<&String>,
        tz: Option<&String>,
        dict: Option<&mut FormatDictionary>,
        transform: Option<&String>,
    ) -> (r: Result<Data, Error>) {
        let text = match utf8_text(raw.as_slice()) {
            Ok(text) => text,
            Err(reason) => {
                return Err(
                    Error::new(
                        String::from_str("Data coverted: ").concat(reason.as_str()),
                        ErrorKind::Parser,
                    ),
                );
            },
        };
        let value = lookup(text, self.field.as_str());
        let data = self.from_value(text, value, copy_of(&raw), fmt, tz, dict)?;
        if let Err(reason) = check(raw.as_slice()) {
            return Err(Error::new(reason, ErrorKind::Parser));
        }
        match transform {
            Some(pattern) => match render(&data.timestamp, pattern.as_str()) {
                Some(written) => self.settle(
                    data,
                    text,
                    rewrite(raw.as_slice(), self.field.as_str(), written.as_str()),
                ),
                None => Err(
                    Error::new(
                        String::from_str("Format string provided (").concat(
                            pattern.as_str(),
                        ).concat(") is not valid."),
                        ErrorKind::DateTime,
                    ),
                ),
            },
            None => Ok(data),
        }
    }
}

impl JsonParser {
    /// Makes a record of the value that was looked up in the document `text`
    /// and of the bytes `raw`. Without a value there is no record.
    pub fn from_value(
        &self,
        text: &str,
        value: Option<String>,
        raw: Vec<u8>,
        fmt: Option<&String>,
        tz: Option<&String>,
        dict: Option<&mut FormatDictionary>,
    ) -> (r: Result<Data, Error>)
        requires
            dict matches Some(d) ==> d.wf(),
        ensures
            dict matches Some(d) ==> final(d).wf(),
            dict matches Some(d) ==> final(d).patterns() == d.patterns(),
            dict matches Some(d) ==> final(d).order() == learnt(
                d.patterns(),
                d.order(),
                value_view(value),
                text_of(fmt),
                text_of(tz),
            ),
            agrees(
                r,
                value_outcome(value_view(value), raw@, text_of(fmt), text_of(tz), shelf(dict)),
            ),
    {
        match value {
            Some(found) => Data::normalized(found.as_str(), fmt, tz, dict, raw),
            None => Err(self.missing(text)),
        }
    }

    /// Gives a record the bytes of its document as rewritten. Where the
    /// document `text` could not be rewritten, for want of the field or
    /// because it is no document, there is no record.
    pub fn settle(&self, data: Data, text: &str, rewritten: Result<Option<Vec<u8>>, String>) -> (r:
        Result<Data, Error>)
        ensures
            agrees(r, settled(data@, rewritten_view(rewritten))),
    {
        match rewritten {
            Ok(Some(bytes)) => Ok(Data { timestamp: data.timestamp, raw: bytes }),
            Ok(None) => Err(self.missing(text)),
            Err(reason) => Err(Error::new(reason, ErrorKind::Parser)),
        }
    }
}

impl JsonParser {
    /// The error for a document without the field of the parser.
    fn missing(&self, text: &str) -> (e: Error)
        ensures
            e.kind == ErrorKind::Parser,
    {
        Error::new(
            String::from_str("Timestamp (").concat(self.field.as_str()).concat(
                ") could not be parsed: ",
            ).concat(text),
            ErrorKind::Parser,
        )
    }
}

} // verus!
