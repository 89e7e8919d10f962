//! Timestamp normalisation and increment-bucketed aggregation over a stream of
//! opaque records.
//!
//! A parser finds the text of a timestamp in the bytes of a record and
//! normalises it into an instant; an aggregator takes the records one by one
//! and reports at the end of the stream.

pub mod aggregators;
pub mod calendar;
pub mod data;
pub mod error;
pub mod input;
pub mod pipeline;
pub mod text;
pub mod timespan;
pub mod timestamp;

pub use crate::data::parsing::FormatDictionary;
pub use crate::data::Data;
pub use crate::error::{Error, ErrorKind};
pub use crate::timestamp::Timestamp;
