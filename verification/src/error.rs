//! The ways in which a query on a trace can fail.

use vstd::prelude::*;

verus! {

/// Why a query could not be answered.
#[derive(Clone, Copy, Debug, PartialEq, Eq, Structural)]
pub enum Error {
    /// The operation needs at least one sample and the trace has none.
    EmptyTrace,
    /// No sample is exactly equal to the location that was looked up.
    NotFound,
    /// A distance mark is negative.
    NegativeMark,
    /// The start of a section is negative.
    NegativeValues,
    /// There are no running totals to answer from: the analysed trace has no
    /// samples.
    NoStatistics,
    /// A mark lies beyond the end of the trace, or an index beyond its samples.
    OutOfBounds,
}

impl Error {
    /// The text that describes each kind of failure.
    pub open spec fn text(self) -> Seq<char> {
        match self {
            Error::EmptyTrace => "empty trace"@,
            Error::NotFound => "not found"@,
            Error::NegativeMark => "negative mark"@,
            Error::NegativeValues => "negative values"@,
            Error::NoStatistics => "no statistics computed yet"@,
            Error::OutOfBounds => "out of bounds"@,
        }
    }

    /// A short description of the failure, for people.
    pub fn message(&self) -> (message: &'static str)
        ensures
            message@ == self.text(),
    {
        match self {
            Error::EmptyTrace => "empty trace",
            Error::NotFound => "not found",
            Error::NegativeMark => "negative mark",
            Error::NegativeValues => "negative values",
            Error::NoStatistics => "no statistics computed yet",
            Error::OutOfBounds => "out of bounds",
        }
    }
}

} // verus!
