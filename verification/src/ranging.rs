//! Three-way comparison of a value against an inclusive range, used when
//! validating declared packet lengths.

use vstd::prelude::*;

verus! {

/// Where a value stands relative to a range.
#[derive(Debug, Clone, Copy, PartialEq, Eq, Structural)]
pub enum Ranging {
    LessThanStart,
    Contained,
    GreaterThanEnd,
}

/// A range that can place a value on one of its three sides.
pub trait RangeCmp {
    /// The inclusive lower end.
    spec fn spec_start(&self) -> int;

    /// The inclusive upper end.
    spec fn spec_end(&self) -> int;

    /// Places `value` relative to the range. A value no greater than the
    /// start of a range that does not contain it counts as below the range.
    fn ranging(&self, value: &i32) -> (r: Ranging)
        ensures
            r is Contained <==> self.spec_start() <= *value as int <= self.spec_end(),
            !(r is Contained) ==> ((r is LessThanStart) <==> *value as int <= self.spec_start()),
    ;
}

/// An inclusive range of signed 32-bit values.
#[derive(Debug, Clone, Copy)]
pub struct I32Range {
    pub start: i32,
    pub end: i32,
}

impl RangeCmp for I32Range {
    open spec fn spec_start(&self) -> int {
        self.start as int
    }

    open spec fn spec_end(&self) -> int {
        self.end as int
    }

    fn ranging(&self, value: &i32) -> (r: Ranging) {
        if self.start <= *value && *value <= self.end {
            Ranging::Contained
        } else if *value <= self.start {
            Ranging::LessThanStart
        } else {
            Ranging::GreaterThanEnd
        }
    }
}

} // verus!
