//! A span of time written as a count and the letter of a unit.

use crate::text::chars_of;
use vstd::prelude::*;

verus! {

/// The units a span is counted in.
#[derive(Debug, PartialEq, Eq, Clone, Copy)]
pub enum Unit {
    Month,
    Week,
    Day,
    Hour,
    Minute,
    Second,
}

/// The unit that a letter stands for: `M` a month, `w` a week, `d` a day,
/// `h` an hour, `m` a minute and `s` a second.
pub open spec fn unit_of(code: Seq<char>) -> Option<Unit> {
    if code.len() != 1 {
        None
    } else if code[0] == 'M' {
        Some(Unit::Month)
    } else if code[0] == 'w' {
        Some(Unit::Week)
    } else if code[0] == 'd' {
        Some(Unit::Day)
    } else if code[0] == 'h' {
        Some(Unit::Hour)
    } else if code[0] == 'm' {
        Some(Unit::Minute)
    } else if code[0] == 's' {
        Some(Unit::Second)
    } else {
        None
    }
}

impl Unit {
    /// Reads a unit from its letter.
    pub fn from_code(code: &str) -> (r: Option<Unit>)
        ensures
            r == unit_of(code@),
    {
        let chars = chars_of(code);
        if chars.len() != 1 {
            return None;
        }
        let c = chars[0];
        if c == 'M' {
            Some(Unit::Month)
        } else if c == 'w' {
            Some(Unit::Week)
        } else if c == 'd' {
            Some(Unit::Day)
        } else if c == 'h' {
            Some(Unit::Hour)
        } else if c == 'm' {
            Some(Unit::Minute)
        } else if c == 's' {
            Some(Unit::Second)
        } else {
            None
        }
    }
}

/// A count of one unit.
#[derive(Debug, PartialEq)]
pub struct Timespan {
    value: u8,
    unit: Unit,
}

impl Timespan {
    pub closed spec fn parts(&self) -> (u8, Unit) {
        (self.value, self.unit)
    }

    pub fn new(value: u8, unit: Unit) -> (span: Self)
        ensures
            span.parts() == (value, unit),
    {
        Self { value, unit }
    }

    pub fn value(&self) -> (value: u8)
        ensures
            value == self.parts().0,
    {
        self.value
    }

    pub fn unit(&self) -> (unit: Unit)
        ensures
            unit == self.parts().1,
    {
        self.unit
    }
}

} // verus!
