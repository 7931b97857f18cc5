//! The error taxonomy of the extraction core.

use vstd::prelude::*;

verus! {

/// Why a lookup, a statistic or a whole report could not be produced.
///
/// Every failure is terminal for the value under construction: there are no
/// partial results anywhere in this crate.
#[derive(Clone, Copy, Debug, PartialEq, Eq, Structural)]
pub enum Error {
    /// No candidate file name for the requested year exists on disk.
    FileNotFound,
    /// The named worksheet is absent from the workbook.
    SheetNotFound,
    /// A required group/region row is absent from the table.
    RowNotFound,
    /// A statistic over an empty series is undefined.
    EmptySeries,
    /// The average of the non-zero entries is undefined when every entry is zero.
    NoNonZeroElements,
}

impl Error {
    /// A short diagnostic text, for the top-level failure message.
    pub fn message(&self) -> (r: &'static str)
        ensures
            *self == Error::FileNotFound ==> r@ == "no candidate file exists for this year"@,
            *self == Error::SheetNotFound ==> r@ == "the worksheet is missing from the workbook"@,
            *self == Error::RowNotFound ==> r@ == "a required group/region row is missing"@,
            *self == Error::EmptySeries ==> r@ == "the series is empty"@,
            *self == Error::NoNonZeroElements ==> r@ == "every entry of the series is zero"@,
    {
        match self {
            Error::FileNotFound => "no candidate file exists for this year",
            Error::SheetNotFound => "the worksheet is missing from the workbook",
            Error::RowNotFound => "a required group/region row is missing",
            Error::EmptySeries => "the series is empty",
            Error::NoNonZeroElements => "every entry of the series is zero",
        }
    }
}

} // verus!
