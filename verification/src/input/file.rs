//! The rule by which the files of a glob are read one after the other.

use crate::error::{Error, ErrorKind};
use vstd::prelude::*;
use vstd::string::*;

verus! {

/// What follows the reading of one line from the current file.
#[derive(Debug)]
pub enum Step {
    /// The line is the next record.
    Deliver(Vec<u8>),
    /// The file is at its end: go on with the next one.
    Advance,
    /// The last file is at its end, and so is the input.
    Finish,
}

/// Decides what follows a line that was read from the current file. A line
/// without bytes is the end of that file; `more` tells whether another file waits.
pub fn after_line(line: Vec<u8>, more: bool) -> (step: Step)
    ensures
        match step {
            Step::Deliver(bytes) => line@.len() > 0 && bytes == line,
            Step::Advance => line@.len() == 0 && more,
            Step::Finish => line@.len() == 0 && !more,
        },
{
    if line.len() > 0 {
        Step::Deliver(line)
    } else if more {
        Step::Advance
    } else {
        Step::Finish
    }
}

/// What the error says of a glob that matches no path.
pub open spec fn glob_complaint(glob: Seq<char>) -> Seq<char> {
    "The glob provided ("@ + glob + ") did not return any paths."@
}

/// The error for a glob that matches no path.
pub fn no_paths(glob: &str) -> (e: Error)
    ensures
        e.kind == ErrorKind::Input,
        e.reason@ == glob_complaint(glob@),
{
    Error::new(
        String::from_str("The glob provided (").concat(glob).concat(") did not return any paths."),
        ErrorKind::Input,
    )
}

} // verus!
