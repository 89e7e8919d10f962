//! The error every fallible operation of this crate returns.

use vstd::prelude::*;
use vstd::string::*;

verus! {

/// What went wrong, with a sentence for the reader.
#[derive(Debug, Clone)]
pub struct Error {
    pub reason: String,
    pub kind: ErrorKind,
}

/// The stage at which an operation failed.
#[derive(Debug, Clone, PartialEq, Eq)]
pub enum ErrorKind {
    /// A record could not be used; `raw` holds its bytes.
    Data { raw: Vec<u8> },
    /// An extractor met malformed input, or the field or column it was asked for is missing.
    Parser,
    /// No stage of the timestamp cascade matched.
    DateTime,
    /// The offset token is not a timezone.
    Timezone,
    /// The text is no increment, or names an empty one.
    Increment,
    /// No pattern of the dictionary matched.
    Format,
    /// An aggregator has nothing to report or cannot take the record.
    Aggregator,
    /// The byte source could not be opened or read.
    Input,
    /// A file of an aggregator could not be created, appended to, read or removed.
    Storage,
}

impl Error {
    pub fn new(reason: String, kind: ErrorKind) -> (e: Error)
        ensures
            e.reason == reason,
            e.kind == kind,
    {
        Error { reason, kind }
    }

    /// The text shown to the user: the reason behind the word `Error`.
    pub open spec fn message_text(self) -> Seq<char> {
        "Error: "@ + self.reason@
    }

    pub fn message(&self) -> (s: String)
        ensures
            s@ == self.message_text(),
    {
        String::from_str("Error: ").concat(self.reason.as_str())
    }
}

} // verus!
