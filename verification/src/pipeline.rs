//! One turn of the loop that drives a stream: the bytes a source handed out
//! go through a parser into an aggregator.

use crate::aggregators::{Aggregator, Effect};
use crate::data::parsing::{text_of, FormatDictionary};
use crate::data::shelf;
use crate::error::Error;
use crate::input::{learnt, Parser};
use vstd::prelude::*;

verus! {

/// What became of the bytes a source handed out.
#[derive(Debug)]
pub enum Fed {
    /// There were no bytes: the input has ended.
    End,
    /// The parser made no record of the bytes. The stream goes on without them.
    Skipped(Error),
    /// The aggregator took the record, and this is left to do for it.
    Taken(Effect),
    /// The aggregator refused the record.
    Failed(Error),
}

/// Feeds the bytes of one record to an aggregator. No bytes mean the end of
/// the input, and neither the parser nor the aggregator is asked. Bytes of
/// which the parser makes no record do not reach the aggregator; the record
/// it makes of the others goes to the aggregator. What the aggregator leaves
/// to do for a record it took is handed on; a record it refuses leaves it as
/// it was.
pub fn feed<P: Parser, A: Aggregator>(
    parser: &P,
    aggregator: &mut A,
    raw: Vec<u8>,
    fmt: Option<&String>,
    tz: Option<&String>,
    dict: Option<&mut FormatDictionary>,
    transform: Option<&String>,
) -> (fed: Fed)
    requires
        old(aggregator).wf(),
        dict matches Some(d) ==> d.wf(),
    ensures
        final(aggregator).wf(),
        dict matches Some(d) ==> final(d).wf() && final(d).patterns() == d.patterns(),
        dict matches Some(d) ==> final(d).order() == (if raw@.len() == 0 {
            d.order()
        } else {
            learnt(
                d.patterns(),
                d.order(),
                parser.timestamp_text(raw@),
                text_of(fmt),
                text_of(tz),
            )
        }),
        if raw@.len() == 0 {
            fed is End && *final(aggregator) == *old(aggregator)
        } else {
            match parser.outcome(
                raw@,
                text_of(fmt),
                text_of(tz),
                shelf(dict),
                text_of(transform),
            ) {
                Ok(record) => if old(aggregator).refuses(record) {
                    fed is Failed && *final(aggregator) == *old(aggregator)
                } else {
                    fed matches Fed::Taken(effect) && old(aggregator).took(
                        record,
                        final(aggregator),
                        effect,
                    )
                },
                Err(kind) => fed matches Fed::Skipped(e) && e.kind == kind && *final(aggregator)
                    == *old(aggregator),
            }
        },
{
    if raw.len() == 0 {
        return Fed::End;
    }
    match parser.parse_data(raw, fmt, tz, dict, transform) {
        Ok(data) => match aggregator.update(&data) {
            Ok(effect) => Fed::Taken(effect),
            Err(e) => Fed::Failed(e),
        },
        Err(e) => Fed::Skipped(e),
    }
}

} // verus!
