//! One year's weekly counts for one stratum, and its summary statistics.

use vstd::prelude::*;

use crate::error::Error;

verus! {

/// Sum of all entries of a sequence of counts.
pub open spec fn sum_of(s: Seq<u32>) -> int
    decreases s.len(),
{
    if s.len() == 0 {
        0
    } else {
        sum_of(s.drop_last()) + s.last()
    }
}

/// Sum of the entries that are strictly greater than zero.
pub open spec fn nonzero_sum(s: Seq<u32>) -> int
    decreases s.len(),
{
    if s.len() == 0 {
        0
    } else {
        nonzero_sum(s.drop_last()) + if s.last() == 0 {
            0int
        } else {
            s.last() as int
        }
    }
}

/// How many entries are strictly greater than zero.
pub open spec fn nonzero_count(s: Seq<u32>) -> int
    decreases s.len(),
{
    if s.len() == 0 {
        0
    } else {
        nonzero_count(s.drop_last()) + if s.last() == 0 {
            0int
        } else {
            1int
        }
    }
}

/// The three statistics above stay within the bounds that the entry type and
/// the length dictate; this is what keeps the running sums from overflowing.
pub proof fn lemma_sums_bounded(s: Seq<u32>)
    ensures
        0 <= sum_of(s) <= s.len() * (u32::MAX as int),
        0 <= nonzero_sum(s) <= s.len() * (u32::MAX as int),
        0 <= nonzero_count(s) <= s.len(),
        nonzero_sum(s) <= sum_of(s),
    decreases s.len(),
{
    if s.len() > 0 {
        lemma_sums_bounded(s.drop_last());
        assert((s.len() - 1) * (u32::MAX as int) + (u32::MAX as int) == s.len() * (
        u32::MAX as int)) by (nonlinear_arith);
    }
}

/// An exact average: the integer sum of the contributing entries and how many
/// they were. Kept as a fraction so that no precision is lost inside the
/// core; consumers divide when they render.
#[derive(Clone, Copy, Debug, PartialEq, Eq, Structural)]
pub struct Mean {
    /// Sum of the contributing entries.
    pub sum: u128,
    /// Number of contributing entries; positive whenever a `Mean` is returned.
    pub count: usize,
}

/// An ordered sequence of non-negative weekly counts for one stratum of one
/// year, in source-row order. Read-only once built.
#[derive(Debug, Clone)]
pub struct AgeGroupSeries {
    counts: Vec<u32>,
}

impl View for AgeGroupSeries {
    type V = Seq<u32>;

    closed spec fn view(&self) -> Seq<u32> {
        self.counts@
    }
}

impl AgeGroupSeries {
    /// Wrap an extracted sequence of weekly counts.
    pub fn new(counts: Vec<u32>) -> (s: Self)
        ensures
            s@ == counts@,
    {
        AgeGroupSeries { counts }
    }

    /// Number of weeks in the series.
    pub fn len(&self) -> (n: usize)
        ensures
            n == self@.len(),
    {
        self.counts.len()
    }

    /// The count of week `week`.
    pub fn count_at(&self, week: usize) -> (r: u32)
        requires
            week < self@.len(),
        ensures
            r == self@[week as int],
    {
        self.counts[week]
    }

    /// The whole sequence of counts, for consumers that walk it.
    pub fn counts(&self) -> (r: &Vec<u32>)
        ensures
            r@ == self@,
    {
        &self.counts
    }

    /// The average of the entries that are strictly greater than zero.
    ///
    /// When every entry is zero the statistic is undefined; that case is the
    /// explicit error [`Error::NoNonZeroElements`], never a silent
    /// not-a-number.
    pub fn average_of_nonzero(&self) -> (r: Result<Mean, Error>)
        ensures
            nonzero_count(self@) == 0 ==> r == Err::<Mean, Error>(Error::NoNonZeroElements),
            nonzero_count(self@) != 0 ==> (r matches Ok(m) && m.sum == nonzero_sum(self@)
                && m.count == nonzero_count(self@)),
    {
        let n = self.counts.len();
        let mut sum: u128 = 0;
        let mut count: usize = 0;
        let mut i: usize = 0;
        while i < n
            invariant
                n == self@.len(),
                i <= n,
                sum == nonzero_sum(self@.take(i as int)),
                count == nonzero_count(self@.take(i as int)),
            decreases n - i,
        {
            let v = self.counts[i];
            proof {
                assert(self@.take(i + 1 as int).drop_last() =~= self@.take(i as int));
                lemma_sums_bounded(self@.take(i + 1 as int));
                assert((i + 1) * (u32::MAX as int) <= n * (u32::MAX as int)) by (nonlinear_arith)
                    requires
                        0 <= i + 1 <= n,
                ;
            }
            if v != 0 {
                sum = sum + v as u128;
                count = count + 1;
            }
            i = i + 1;
        }
        proof {
            assert(self@.take(n as int) =~= self@);
        }
        if count == 0 {
            Err(Error::NoNonZeroElements)
        } else {
            Ok(Mean { sum, count })
        }
    }

    /// The plain arithmetic mean: sum of all entries over the length.
    ///
    /// Undefined for an empty series, which is the explicit error
    /// [`Error::EmptySeries`].
    pub fn simple_average(&self) -> (r: Result<Mean, Error>)
        ensures
            self@.len() == 0 ==> r == Err::<Mean, Error>(Error::EmptySeries),
            self@.len() != 0 ==> (r matches Ok(m) && m.sum == sum_of(self@) && m.count == self@.len()),
    {
        let n = self.counts.len();
        if n == 0 {
            return Err(Error::EmptySeries);
        }
        let mut sum: u128 = 0;
        let mut i: usize = 0;
        while i < n
            invariant
                n == self@.len(),
                i <= n,
                sum == sum_of(self@.take(i as int)),
            decreases n - i,
        {
            let v = self.counts[i];
            proof {
                assert(self@.take(i + 1 as int).drop_last() =~= self@.take(i as int));
                lemma_sums_bounded(self@.take(i + 1 as int));
                assert((i + 1) * (u32::MAX as int) <= n * (u32::MAX as int)) by (nonlinear_arith)
                    requires
                        0 <= i + 1 <= n,
                ;
            }
            sum = sum + v as u128;
            i = i + 1;
        }
        proof {
            assert(self@.take(n as int) =~= self@);
        }
        Ok(Mean { sum, count: n })
    }

    /// The smallest count of the series, or zero for an empty series.
    pub fn min_count(&self) -> (r: u32)
        ensures
            self@.len() == 0 ==> r == 0,
            self@.len() > 0 ==> self@.contains(r) && forall|k: int|
                0 <= k < self@.len() ==> r <= self@[k],
    {
        let n = self.counts.len();
        if n == 0 {
            return 0;
        }
        let mut m = self.counts[0];
        let mut i: usize = 1;
        while i < n
            invariant
                n == self@.len(),
                1 <= i <= n,
                exists|k: int| 0 <= k < i && self@[k] == m,
                forall|k: int| 0 <= k < i ==> m <= self@[k],
            decreases n - i,
        {
            let v = self.counts[i];
            if v < m {
                m = v;
            }
            i = i + 1;
        }
        m
    }

    /// The largest count of the series, or zero for an empty series.
    pub fn max_count(&self) -> (r: u32)
        ensures
            self@.len() == 0 ==> r == 0,
            self@.len() > 0 ==> self@.contains(r) && forall|k: int|
                0 <= k < self@.len() ==> self@[k] <= r,
    {
        let n = self.counts.len();
        if n == 0 {
            return 0;
        }
        let mut m = self.counts[0];
        let mut i: usize = 1;
        while i < n
            invariant
                n == self@.len(),
                1 <= i <= n,
                exists|k: int| 0 <= k < i && self@[k] == m,
                forall|k: int| 0 <= k < i ==> self@[k] <= m,
            decreases n - i,
        {
            let v = self.counts[i];
            if v > m {
                m = v;
            }
            i = i + 1;
        }
        m
    }

    /// Append this series' counts to `out`, keeping their order; used to
    /// flatten several years of one stratum into a single week line.
    pub fn push_counts_onto(&self, out: &mut Vec<u32>)
        ensures
            final(out)@ == old(out)@ + self@,
    {
        let n = self.counts.len();
        let mut i: usize = 0;
        while i < n
            invariant
                n == self@.len(),
                i <= n,
                out@ == old(out)@ + self@.take(i as int),
            decreases n - i,
        {
            out.push(self.counts[i]);
            proof {
                assert(old(out)@ + self@.take(i + 1 as int) =~= (old(out)@ + self@.take(
                i as int)).push(self@[i as int]));
            }
            i = i + 1;
        }
        proof {
            assert(self@.take(n as int) =~= self@);
        }
    }
}

} // verus!
