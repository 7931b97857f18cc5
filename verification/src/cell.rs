//! Cells and row keys: the shape of a loaded table.
//!
//! The spreadsheet collaborator hands each sheet over as an ordered table of
//! rows of typed cells. The core reads only two things out of a cell: its
//! text, to match row labels, and its number, coerced into a weekly count.

use vstd::prelude::*;

verus! {

/// One cell of a loaded table.
///
/// A numeric cell carries the integer part of the source value (the edge that
/// loads the sheet truncates toward zero); everything that is neither text
/// nor a number is [`Cell::Empty`] or [`Cell::Other`] and counts as zero in a
/// numeric payload.
#[derive(Debug, Clone)]
pub enum Cell {
    /// A textual cell, used for row labels.
    Text(String),
    /// A numeric cell, truncated toward zero by the loading edge.
    Number(i64),
    /// An empty cell.
    Empty,
    /// Any other cell kind (an error marker, a boolean, a date).
    Other,
}

impl Cell {
    /// True when the cell is text whose characters are exactly `t`.
    pub open spec fn is_text(self, t: Seq<char>) -> bool {
        match self {
            Cell::Text(s) => s@ == t,
            _ => false,
        }
    }

    /// The count a cell contributes to a numeric payload: the number clamped
    /// into the count range, and zero for any non-numeric cell.
    pub open spec fn spec_count(self) -> u32 {
        match self {
            Cell::Number(n) => if n < 0 {
                0u32
            } else if n > u32::MAX as i64 {
                u32::MAX
            } else {
                n as u32
            },
            _ => 0u32,
        }
    }

    /// Coerce the cell to a weekly count.
    pub fn to_count(&self) -> (r: u32)
        ensures
            r == self.spec_count(),
    {
        match self {
            Cell::Number(n) => if *n < 0 {
                0
            } else if *n > u32::MAX as i64 {
                u32::MAX
            } else {
                *n as u32
            },
            _ => 0,
        }
    }

    /// True when the cell is text equal to `t`, decided at run time.
    pub fn matches_text(&self, t: &String) -> (r: bool)
        ensures
            r == self.is_text(t@),
    {
        match self {
            Cell::Text(s) => *s == *t,
            _ => false,
        }
    }
}

/// The pair of labels that identifies one row of a sheet: an age-group label
/// and a region label (the whole-country marker, in this program).
#[derive(Debug, Clone)]
pub struct RowKey {
    pub group_label: String,
    pub region_label: String,
}

} // verus!
