//! Locating one named row in a loaded table and extracting its payload.

use vstd::prelude::*;

use crate::cell::{Cell, RowKey};
use crate::error::Error;
use crate::series::AgeGroupSeries;

verus! {

/// Column where the numeric payload of a row begins: the two label columns
/// and one unused column before it are dropped.
pub const PAYLOAD_START: usize = 3;

/// True when `row` is named by the two labels: its first cell is the group
/// label and its second cell the region label. Rows with fewer than two
/// cells never match.
pub open spec fn row_matches(row: Vec<Cell>, group: Seq<char>, region: Seq<char>) -> bool {
    &&& row@.len() >= 2
    &&& row@[0].is_text(group)
    &&& row@[1].is_text(region)
}

/// How many payload cells a row has.
pub open spec fn payload_len(row: Vec<Cell>) -> nat {
    if row@.len() >= PAYLOAD_START {
        (row@.len() - PAYLOAD_START) as nat
    } else {
        0
    }
}

/// The numeric payload of a row: every cell from the payload column on,
/// each coerced to a count.
pub open spec fn payload_of(row: Vec<Cell>) -> Seq<u32> {
    Seq::new(payload_len(row), |k: int| row@[PAYLOAD_START + k].spec_count())
}

/// Whether some row of `table` is named by the two labels.
pub open spec fn has_match(table: Seq<Vec<Cell>>, group: Seq<char>, region: Seq<char>) -> bool {
    exists|i: int| 0 <= i < table.len() && #[trigger] row_matches(table[i], group, region)
}

/// `i` is the index of the first row of `table` named by the two labels.
pub open spec fn is_first_match(
    table: Seq<Vec<Cell>>,
    group: Seq<char>,
    region: Seq<char>,
    i: int,
) -> bool {
    &&& 0 <= i < table.len()
    &&& row_matches(table[i], group, region)
    &&& forall|j: int| 0 <= j < i ==> !#[trigger] row_matches(table[j], group, region)
}

/// `payload` is what a lookup of the two labels in `table` yields: the
/// coerced payload of the first matching row.
pub open spec fn located(
    table: Seq<Vec<Cell>>,
    group: Seq<char>,
    region: Seq<char>,
    payload: Seq<u32>,
) -> bool {
    exists|i: int|
        #[trigger] is_first_match(table, group, region, i) && payload == payload_of(table[i])
}

/// All rows of the table have the same number of cells, as a sheet loaded by
/// the spreadsheet collaborator always does.
pub open spec fn rectangular(table: Seq<Vec<Cell>>) -> bool {
    forall|i: int, j: int|
        0 <= i < table.len() && 0 <= j < table.len() ==> #[trigger] table[i]@.len()
            == #[trigger] table[j]@.len()
}

/// The payload width every row of a rectangular table shares.
pub open spec fn payload_width(table: Seq<Vec<Cell>>) -> nat {
    if table.len() > 0 {
        payload_len(table[0])
    } else {
        0
    }
}

/// At most one index is the first match for given labels.
pub proof fn lemma_first_match_unique(
    table: Seq<Vec<Cell>>,
    group: Seq<char>,
    region: Seq<char>,
    i1: int,
    i2: int,
)
    requires
        is_first_match(table, group, region, i1),
        is_first_match(table, group, region, i2),
    ensures
        i1 == i2,
{
    if i1 < i2 {
        assert(!row_matches(table[i1], group, region));
    }
    if i2 < i1 {
        assert(!row_matches(table[i2], group, region));
    }
}

/// A lookup is insensitive to everything but the first matching row: two
/// tables whose first matching rows for the labels hold the same cells
/// locate the same payload, however the other rows were permuted, added or
/// removed.
pub proof fn lemma_locate_depends_on_first_match(
    t1: Seq<Vec<Cell>>,
    t2: Seq<Vec<Cell>>,
    group: Seq<char>,
    region: Seq<char>,
    i1: int,
    i2: int,
    payload1: Seq<u32>,
    payload2: Seq<u32>,
)
    requires
        is_first_match(t1, group, region, i1),
        is_first_match(t2, group, region, i2),
        t1[i1]@ == t2[i2]@,
        located(t1, group, region, payload1),
        located(t2, group, region, payload2),
    ensures
        payload1 == payload2,
{
    let j1 = choose|j: int| #[trigger]
        is_first_match(t1, group, region, j) && payload1 == payload_of(t1[j]);
    lemma_first_match_unique(t1, group, region, i1, j1);
    let j2 = choose|j: int| #[trigger]
        is_first_match(t2, group, region, j) && payload2 == payload_of(t2[j]);
    lemma_first_match_unique(t2, group, region, i2, j2);
    assert(payload1 =~= payload2);
}

/// In a rectangular table the payload of the matched row has the common
/// payload width, whichever row matched.
pub proof fn lemma_rectangular_payload(
    table: Seq<Vec<Cell>>,
    group: Seq<char>,
    region: Seq<char>,
    i: int,
)
    requires
        rectangular(table),
        is_first_match(table, group, region, i),
    ensures
        payload_of(table[i]).len() == payload_width(table),
{
    assert(table[i]@.len() == table[0]@.len());
}

/// Finds the unique row named by a pair of labels in an immutable in-memory
/// table and returns its numeric payload. A pure, stateless query.
pub struct RowLocator;

impl RowLocator {
    /// Scan `table` in row order for the first row whose first two cells are
    /// the key's labels, and return its coerced numeric payload.
    ///
    /// A matching row that ends before the payload column yields an empty
    /// series. Text, empty and other non-numeric cells in the payload
    /// contribute zero; no cell kind makes the lookup fail. When no row
    /// matches, the lookup fails with [`Error::RowNotFound`].
    pub fn find(table: &Vec<Vec<Cell>>, key: &RowKey) -> (r: Result<AgeGroupSeries, Error>)
        ensures
            match r {
                Ok(series) => located(table@, key.group_label@, key.region_label@, series@),
                Err(e) => e == Error::RowNotFound && !has_match(
                    table@,
                    key.group_label@,
                    key.region_label@,
                ),
            },
            r is Ok <==> has_match(table@, key.group_label@, key.region_label@),
    {
        let n = table.len();
        let mut i: usize = 0;
        while i < n
            invariant
                n == table@.len(),
                i <= n,
                forall|j: int|
                    0 <= j < i ==> !row_matches(table@[j], key.group_label@, key.region_label@),
            decreases n - i,
        {
            let row = &table[i];
            if row.len() >= 2 && row[0].matches_text(&key.group_label) && row[1].matches_text(
                &key.region_label,
            ) {
                let counts = Self::payload_counts(row);
                proof {
                    assert(is_first_match(
                        table@,
                        key.group_label@,
                        key.region_label@,
                        i as int,
                    ));
                }
                return Ok(AgeGroupSeries::new(counts));
            }
            i = i + 1;
        }
        Err(Error::RowNotFound)
    }

    /// Coerce every payload cell of a matched row to a count.
    fn payload_counts(row: &Vec<Cell>) -> (r: Vec<u32>)
        ensures
            r@ == payload_of(*row),
    {
        let mut out: Vec<u32> = Vec::new();
        let n = row.len();
        if n <= PAYLOAD_START {
            proof {
                assert(out@ =~= payload_of(*row));
            }
            return out;
        }
        let mut j: usize = PAYLOAD_START;
        while j < n
            invariant
                n == row@.len(),
                PAYLOAD_START <= j <= n,
                out@.len() == j - PAYLOAD_START,
                forall|k: int|
                    0 <= k < out@.len() ==> out@[k] == row@[PAYLOAD_START + k].spec_count(),
            decreases n - j,
        {
            out.push(row[j].to_count());
            j = j + 1;
        }
        proof {
            assert(out@ =~= payload_of(*row));
        }
        out
    }
}

} // verus!
