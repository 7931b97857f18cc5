//! Picking the source file for a year among several candidate names.
//!
//! The source files are named inconsistently, so a year is looked up under
//! an ordered list of candidate names; the first name that exists on disk
//! wins. The collaborator that owns the file system checks each candidate
//! and hands the flags in; the choice itself is made here.

use vstd::prelude::*;

use crate::error::Error;

verus! {

/// Pick the first candidate that exists.
///
/// `candidates` are the file names to try, in order of preference;
/// `present[i]` says whether `candidates[i]` exists on disk. The result is
/// the first present candidate, or [`Error::FileNotFound`] when none of the
/// names exists.
pub fn resolve_source(candidates: &Vec<String>, present: &Vec<bool>) -> (r: Result<String, Error>)
    requires
        candidates@.len() == present@.len(),
    ensures
        match r {
            Ok(name) => exists|i: int|
                {
                    &&& 0 <= i < present@.len()
                    &&& present@[i]
                    &&& forall|j: int| 0 <= j < i ==> !present@[j]
                    &&& name@ == (#[trigger] candidates@[i])@
                },
            Err(e) => e == Error::FileNotFound && forall|j: int|
                0 <= j < present@.len() ==> !present@[j],
        },
{
    let n = candidates.len();
    let mut i: usize = 0;
    while i < n
        invariant
            n == candidates@.len(),
            n == present@.len(),
            i <= n,
            forall|j: int| 0 <= j < i ==> !present@[j],
        decreases n - i,
    {
        if present[i] {
            return Ok(candidates[i].clone());
        }
        i = i + 1;
    }
    Err(Error::FileNotFound)
}

} // verus!
