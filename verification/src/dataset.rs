//! A dataset of one annual report per requested year, built all-or-nothing,
//! and the read-only queries its consumers need.

use vstd::pervasive::VecAdditionalExecFns;
use vstd::prelude::*;

use crate::cell::Cell;
use crate::error::Error;
use crate::report::{all_rows_present, report_models, AnnualReport, ReportConfig};
use crate::locator::rectangular;

verus! {

/// One year's table as the loading collaborator handed it over, together
/// with the text identifying where it came from.
pub struct LoadedTable {
    /// Where the table came from (a resolved file path).
    pub source_identifier: String,
    /// The loaded sheet: ordered rows of typed cells.
    pub table: Vec<Vec<Cell>>,
}

/// What the loading collaborator produced for one requested year: either the
/// year's table, or the error (file or worksheet missing) that ended the
/// attempt.
pub struct YearInput {
    /// The requested year.
    pub year: u64,
    /// The loaded table, or the loading failure.
    pub loaded: Result<LoadedTable, Error>,
}

/// The year was loaded and every required row is present in its table.
pub open spec fn input_ok(input: YearInput, config: ReportConfig) -> bool {
    input.loaded matches Ok(lt) && all_rows_present(lt.table@, config)
}

/// The error a failing year contributes: its loading error, or
/// [`Error::RowNotFound`] when the table loaded but a required row is
/// missing.
pub open spec fn input_err(input: YearInput, config: ReportConfig) -> Error {
    match input.loaded {
        Result::Err(e) => e,
        Result::Ok(_) => Error::RowNotFound,
    }
}

/// No two inputs ask for the same year.
pub open spec fn distinct_years(inputs: Seq<YearInput>) -> bool {
    forall|a: int, b: int|
        0 <= a < b < inputs.len() ==> inputs[a].year != inputs[b].year
}

/// Concatenation, in report order, of the series for label `g` across the
/// reports: one long week line per stratum.
pub open spec fn concat_group(reports: Seq<AnnualReport>, g: int) -> Seq<u32>
    decreases reports.len(),
{
    if reports.len() == 0 {
        Seq::empty()
    } else {
        concat_group(reports.drop_last(), g) + reports.last().spec_group_at(g)
    }
}

/// The smallest entry of a series, or zero for an empty series.
pub open spec fn seq_min_or0(s: Seq<u32>) -> u32
    decreases s.len(),
{
    if s.len() == 0 {
        0u32
    } else if s.len() == 1 {
        s.last()
    } else if s.last() < seq_min_or0(s.drop_last()) {
        s.last()
    } else {
        seq_min_or0(s.drop_last())
    }
}

/// The largest entry of a series, or zero for an empty series.
pub open spec fn seq_max_or0(s: Seq<u32>) -> u32
    decreases s.len(),
{
    if s.len() == 0 {
        0u32
    } else if s.last() > seq_max_or0(s.drop_last()) {
        s.last()
    } else {
        seq_max_or0(s.drop_last())
    }
}

/// The smallest per-year minimum of the series for label `g` across the
/// reports (an empty series counts as zero), or zero with no reports.
pub open spec fn groups_min(reports: Seq<AnnualReport>, g: int) -> u32
    decreases reports.len(),
{
    if reports.len() == 0 {
        0u32
    } else if reports.len() == 1 {
        seq_min_or0(reports.last().spec_group_at(g))
    } else if seq_min_or0(reports.last().spec_group_at(g)) < groups_min(reports.drop_last(), g) {
        seq_min_or0(reports.last().spec_group_at(g))
    } else {
        groups_min(reports.drop_last(), g)
    }
}

/// The largest per-year maximum of the series for label `g` across the
/// reports, or zero with no reports.
pub open spec fn groups_max(reports: Seq<AnnualReport>, g: int) -> u32
    decreases reports.len(),
{
    if reports.len() == 0 {
        0u32
    } else if seq_max_or0(reports.last().spec_group_at(g)) > groups_max(reports.drop_last(), g) {
        seq_max_or0(reports.last().spec_group_at(g))
    } else {
        groups_max(reports.drop_last(), g)
    }
}

/// Total number of weeks the reports cover together: the sum of their
/// overall series lengths.
pub open spec fn total_weeks(reports: Seq<AnnualReport>) -> int
    decreases reports.len(),
{
    if reports.len() == 0 {
        0
    } else {
        total_weeks(reports.drop_last()) + reports.last().spec_overall().len()
    }
}

/// Concatenating one label's series across well-formed reports yields the
/// total week count, whichever label it is: every flattened week line is
/// equally long.
proof fn lemma_concat_group_len(reports: Seq<AnnualReport>, g: int)
    requires
        0 <= g,
        forall|i: int| 0 <= i < reports.len() ==> (#[trigger] reports[i]).wf(),
        forall|i: int| 0 <= i < reports.len() ==> g < (#[trigger] reports[i]).spec_group_count(),
    ensures
        concat_group(reports, g).len() == total_weeks(reports),
    decreases reports.len(),
{
    if reports.len() > 0 {
        let dl = reports.drop_last();
        assert forall|i: int| 0 <= i < dl.len() implies (#[trigger] dl[i]).wf() && g < dl[i].spec_group_count() by {
            assert(dl[i] == reports[i]);
        }
        lemma_concat_group_len(dl, g);
        assert(reports[reports.len() - 1].wf());
    }
}

/// A non-empty series contains its minimum, which bounds every entry below.
proof fn lemma_min_or0_props(s: Seq<u32>)
    ensures
        s.len() > 0 ==> s.contains(seq_min_or0(s)) && forall|k: int|
            0 <= k < s.len() ==> seq_min_or0(s) <= s[k],
    decreases s.len(),
{
    if s.len() > 1 {
        lemma_min_or0_props(s.drop_last());
        let dl = s.drop_last();
        assert forall|k: int| 0 <= k < s.len() implies seq_min_or0(s) <= s[k] by {
            if k < s.len() - 1 {
                assert(dl[k] == s[k]);
            }
        }
        if !(s.last() < seq_min_or0(dl)) {
            let w = choose|w: int| 0 <= w < dl.len() && dl[w] == seq_min_or0(dl);
            assert(s[w] == seq_min_or0(s));
        }
    }
}

/// A series contains its maximum when it is non-empty, and the maximum
/// bounds every entry above.
proof fn lemma_max_or0_props(s: Seq<u32>)
    ensures
        s.len() > 0 ==> s.contains(seq_max_or0(s)),
        forall|k: int| 0 <= k < s.len() ==> s[k] <= seq_max_or0(s),
    decreases s.len(),
{
    if s.len() > 0 {
        lemma_max_or0_props(s.drop_last());
        let dl = s.drop_last();
        assert forall|k: int| 0 <= k < s.len() implies s[k] <= seq_max_or0(s) by {
            if k < s.len() - 1 {
                assert(dl[k] == s[k]);
            }
        }
        if !(s.last() > seq_max_or0(dl)) {
            if s.len() == 1 {
                assert(seq_max_or0(s) == s.last());
                assert(s[0] == s.last());
            } else {
                let w = choose|w: int| 0 <= w < dl.len() && dl[w] == seq_max_or0(dl);
                assert(s[w] == seq_max_or0(s));
            }
        }
    }
}

/// Any value that a non-empty series contains and that bounds every entry
/// below is the series' minimum.
proof fn lemma_min_or0_unique(s: Seq<u32>, m: u32)
    requires
        s.len() > 0,
        s.contains(m),
        forall|k: int| 0 <= k < s.len() ==> m <= s[k],
    ensures
        m == seq_min_or0(s),
{
    lemma_min_or0_props(s);
    let w = choose|w: int| 0 <= w < s.len() && s[w] == seq_min_or0(s);
    assert(m <= s[w]);
    let v = choose|v: int| 0 <= v < s.len() && s[v] == m;
    assert(seq_min_or0(s) <= s[v]);
}

/// Any value that a non-empty series contains and that bounds every entry
/// above is the series' maximum.
proof fn lemma_max_or0_unique(s: Seq<u32>, m: u32)
    requires
        s.len() > 0,
        s.contains(m),
        forall|k: int| 0 <= k < s.len() ==> s[k] <= m,
    ensures
        m == seq_max_or0(s),
{
    lemma_max_or0_props(s);
    let w = choose|w: int| 0 <= w < s.len() && s[w] == seq_max_or0(s);
    assert(s[w] <= m);
    let v = choose|v: int| 0 <= v < s.len() && s[v] == m;
    assert(s[v] <= seq_max_or0(s));
}

/// An ordered collection of annual reports, one per requested year, in
/// request order. Built once, read-only thereafter.
pub struct MultiYearDataset {
    reports: Vec<AnnualReport>,
}

impl MultiYearDataset {
    /// The reports, in request order.
    pub closed spec fn spec_reports(&self) -> Seq<AnnualReport> {
        self.reports@
    }

    /// Well-formedness: every report is well-formed, no two reports share a
    /// year, and all reports track the same labels.
    pub open spec fn wf(&self) -> bool {
        &&& forall|i: int|
            0 <= i < self.spec_reports().len() ==> (#[trigger] self.spec_reports()[i]).wf()
        &&& forall|a: int, b: int|
            0 <= a < b < self.spec_reports().len() ==> self.spec_reports()[a].spec_year()
                != self.spec_reports()[b].spec_year()
        &&& forall|i: int|
            0 <= i < self.spec_reports().len() ==> (#[trigger] self.spec_reports()[i]).spec_labels()
                == self.spec_reports()[0].spec_labels()
    }

    /// Build one report per input, in input order, all-or-nothing.
    ///
    /// The first year that failed to load, or whose table misses a required
    /// row, fails the whole dataset: no report is produced for any year, not
    /// even for years that would have succeeded.
    pub fn build(inputs: &Vec<YearInput>, config: &ReportConfig) -> (r: Result<
        MultiYearDataset,
        Error,
    >)
        requires
            config.wf(),
            distinct_years(inputs@),
            forall|i: int|
                0 <= i < inputs@.len() ==> ((#[trigger] inputs@[i]).loaded matches Ok(lt)
                    ==> rectangular(lt.table@)),
        ensures
            r is Ok <==> (forall|i: int|
                0 <= i < inputs@.len() ==> input_ok(#[trigger] inputs@[i], *config)),
            r matches Ok(d) ==> {
                &&& d.wf()
                &&& d.spec_reports().len() == inputs@.len()
                &&& forall|i: int|
                    0 <= i < inputs@.len() ==> report_models(
                        #[trigger] d.spec_reports()[i],
                        inputs@[i].year,
                        inputs@[i].loaded->Ok_0.source_identifier@,
                        inputs@[i].loaded->Ok_0.table@,
                        *config,
                    )
            },
            r matches Err(e) ==> exists|i: int|
                {
                    &&& 0 <= i < inputs@.len()
                    &&& !input_ok(#[trigger] inputs@[i], *config)
                    &&& forall|j: int| 0 <= j < i ==> input_ok(#[trigger] inputs@[j], *config)
                    &&& e == input_err(inputs@[i], *config)
                },
    {
        let n = inputs.len();
        let mut reports: Vec<AnnualReport> = Vec::new();
        let mut i: usize = 0;
        while i < n
            invariant
                n == inputs@.len(),
                i <= n,
                config.wf(),
                distinct_years(inputs@),
                forall|k: int|
                    0 <= k < inputs@.len() ==> ((#[trigger] inputs@[k]).loaded matches Ok(lt)
                        ==> rectangular(lt.table@)),
                reports@.len() == i,
                forall|j: int| 0 <= j < i ==> input_ok(#[trigger] inputs@[j], *config),
                forall|j: int| 0 <= j < i ==> (#[trigger] reports@[j]).wf(),
                forall|j: int|
                    0 <= j < i ==> report_models(
                        #[trigger] reports@[j],
                        inputs@[j].year,
                        inputs@[j].loaded->Ok_0.source_identifier@,
                        inputs@[j].loaded->Ok_0.table@,
                        *config,
                    ),
            decreases n - i,
        {
            match &inputs[i].loaded {
                Ok(lt) => {
                    match AnnualReport::build(
                        inputs[i].year,
                        lt.source_identifier.clone(),
                        &lt.table,
                        config,
                    ) {
                        Ok(rep) => {
                            reports.push(rep);
                        },
                        Err(e) => {
                            proof {
                                assert(!input_ok(inputs@[i as int], *config));
                            }
                            return Err(e);
                        },
                    }
                },
                Err(e) => {
                    proof {
                        assert(!input_ok(inputs@[i as int], *config));
                    }
                    return Err(*e);
                },
            }
            i = i + 1;
        }
        let d = MultiYearDataset { reports };
        proof {
            assert forall|a: int, b: int|
                0 <= a < b < d.spec_reports().len() implies d.spec_reports()[a].spec_year()
                != d.spec_reports()[b].spec_year() by {
                assert(report_models(
                    d.spec_reports()[a],
                    inputs@[a].year,
                    inputs@[a].loaded->Ok_0.source_identifier@,
                    inputs@[a].loaded->Ok_0.table@,
                    *config,
                ));
                assert(report_models(
                    d.spec_reports()[b],
                    inputs@[b].year,
                    inputs@[b].loaded->Ok_0.source_identifier@,
                    inputs@[b].loaded->Ok_0.table@,
                    *config,
                ));
            }
            assert forall|k: int|
                0 <= k < d.spec_reports().len() implies (
            #[trigger] d.spec_reports()[k]).spec_labels() == d.spec_reports()[0].spec_labels() by {
                assert(report_models(
                    d.spec_reports()[k],
                    inputs@[k].year,
                    inputs@[k].loaded->Ok_0.source_identifier@,
                    inputs@[k].loaded->Ok_0.table@,
                    *config,
                ));
                if d.spec_reports().len() > 0 {
                    assert(report_models(
                        d.spec_reports()[0],
                        inputs@[0].year,
                        inputs@[0].loaded->Ok_0.source_identifier@,
                        inputs@[0].loaded->Ok_0.table@,
                        *config,
                    ));
                }
            }
        }
        Ok(d)
    }

    /// The reports, in request order.
    pub fn reports(&self) -> (r: &Vec<AnnualReport>)
        ensures
            r@ == self.spec_reports(),
    {
        &self.reports
    }

    /// How many years the dataset covers.
    pub fn year_count(&self) -> (n: usize)
        ensures
            n == self.spec_reports().len(),
    {
        self.reports.len()
    }

    /// The report for `year`, if the dataset holds one.
    pub fn by_year(&self, year: u64) -> (r: Option<&AnnualReport>)
        ensures
            r is Some <==> exists|i: int|
                0 <= i < self.spec_reports().len() && (#[trigger] self.spec_reports()[i]).spec_year()
                    == year,
            r matches Some(rep) ==> exists|i: int|
                {
                    &&& 0 <= i < self.spec_reports().len()
                    &&& (#[trigger] self.spec_reports()[i]).spec_year() == year
                    &&& forall|j: int|
                        0 <= j < i ==> (#[trigger] self.spec_reports()[j]).spec_year() != year
                    &&& *rep == self.spec_reports()[i]
                },
    {
        let n = self.reports.len();
        let mut i: usize = 0;
        while i < n
            invariant
                n == self.spec_reports().len(),
                i <= n,
                forall|j: int| 0 <= j < i ==> (#[trigger] self.spec_reports()[j]).spec_year() != year,
            decreases n - i,
        {
            if self.reports[i].year() == year {
                return Some(&self.reports[i]);
            }
            i = i + 1;
        }
        None
    }

    /// Flatten the dataset into one week line per tracked label: for each
    /// label, the concatenation of that label's weekly counts across the
    /// years, in report order.
    pub fn flatten_into_weeks(&self) -> (r: Vec<Vec<u32>>)
        requires
            self.wf(),
        ensures
            self.spec_reports().len() == 0 ==> r@.len() == 0,
            self.spec_reports().len() > 0 ==> r@.len() == self.spec_reports()[0].spec_labels().len(),
            forall|g: int| 0 <= g < r@.len() ==> #[trigger] r@[g]@ == concat_group(
                self.spec_reports(),
                g,
            ),
            forall|g: int| 0 <= g < r@.len() ==> (#[trigger] r@[g])@.len() == total_weeks(
                self.spec_reports(),
            ),
    {
        let mut out: Vec<Vec<u32>> = Vec::new();
        let yn = self.reports.len();
        if yn == 0 {
            return out;
        }
        let gn = self.reports[0].group_count();
        let mut g: usize = 0;
        while g < gn
            invariant
                self.wf(),
                yn == self.spec_reports().len(),
                yn > 0,
                gn == self.spec_reports()[0].spec_labels().len(),
                g <= gn,
                out@.len() == g,
                forall|k: int| 0 <= k < g ==> #[trigger] out@[k]@ == concat_group(
                    self.spec_reports(),
                    k,
                ),
            decreases gn - g,
        {
            let mut line: Vec<u32> = Vec::new();
            let mut y: usize = 0;
            while y < yn
                invariant
                    self.wf(),
                    yn == self.spec_reports().len(),
                    gn == self.spec_reports()[0].spec_labels().len(),
                    g < gn,
                    y <= yn,
                    line@ == concat_group(self.spec_reports().take(y as int), g as int),
                decreases yn - y,
            {
                proof {
                    assert(self.spec_reports()[y as int].spec_labels() == self.spec_reports()[0].spec_labels());
                    assert(self.spec_reports().take(y + 1 as int).drop_last() =~= self.spec_reports().take(y as int));
                    assert(self.spec_reports().take(y + 1 as int).last() == self.spec_reports()[y as int]);
                }
                self.reports[y].series_at(g).push_counts_onto(&mut line);
                y = y + 1;
            }
            proof {
                assert(self.spec_reports().take(yn as int) =~= self.spec_reports());
            }
            out.push(line);
            g = g + 1;
        }
        proof {
            assert forall|g2: int| 0 <= g2 < out@.len() implies (#[trigger] out@[g2])@.len()
                == total_weeks(self.spec_reports()) by {
                assert forall|i: int| 0 <= i < self.spec_reports().len() implies (
                #[trigger] self.spec_reports()[i]).wf() && g2
                    < self.spec_reports()[i].spec_group_count() by {
                    assert(self.spec_reports()[i].spec_labels()
                        == self.spec_reports()[0].spec_labels());
                }
                lemma_concat_group_len(self.spec_reports(), g2);
            }
        }
        out
    }

    /// The smallest and largest count of label `g`'s series across all
    /// years, each taken per year first with zero standing in for an empty
    /// series, as the chart bounds are computed.
    pub fn value_range(&self, g: usize) -> (r: (u32, u32))
        requires
            self.wf(),
            self.spec_reports().len() > 0 ==> g < self.spec_reports()[0].spec_labels().len(),
        ensures
            r.0 == groups_min(self.spec_reports(), g as int),
            r.1 == groups_max(self.spec_reports(), g as int),
    {
        let yn = self.reports.len();
        if yn == 0 {
            return (0, 0);
        }
        let first = self.reports[0].series_at(g);
        let mut lo = first.min_count();
        let mut hi = first.max_count();
        proof {
            lemma_year_extremes(self.spec_reports()[0].spec_group_at(g as int), lo, hi);
            assert(self.spec_reports().take(1).last() == self.spec_reports()[0]);
            assert(self.spec_reports().take(1).len() == 1);
            assert(self.spec_reports().take(1).drop_last() =~= Seq::<AnnualReport>::empty());
            assert(groups_min(Seq::<AnnualReport>::empty(), g as int) == 0);
            assert(groups_max(Seq::<AnnualReport>::empty(), g as int) == 0);
        }
        let mut y: usize = 1;
        while y < yn
            invariant
                self.wf(),
                yn == self.spec_reports().len(),
                self.spec_reports().len() > 0 ==> g < self.spec_reports()[0].spec_labels().len(),
                1 <= y <= yn,
                lo == groups_min(self.spec_reports().take(y as int), g as int),
                hi == groups_max(self.spec_reports().take(y as int), g as int),
            decreases yn - y,
        {
            proof {
                assert(self.spec_reports()[y as int].spec_labels() == self.spec_reports()[0].spec_labels());
            }
            let series = self.reports[y].series_at(g);
            let mut ylo = series.min_count();
            let mut yhi = series.max_count();
            proof {
                lemma_year_extremes(self.spec_reports()[y as int].spec_group_at(g as int), ylo, yhi);
                assert(self.spec_reports().take(y + 1 as int).drop_last() =~= self.spec_reports().take(y as int));
                assert(self.spec_reports().take(y + 1 as int).last() == self.spec_reports()[y as int]);
            }
            if ylo < lo {
                lo = ylo;
            }
            if yhi > hi {
                hi = yhi;
            }
            y = y + 1;
        }
        proof {
            assert(self.spec_reports().take(yn as int) =~= self.spec_reports());
        }
        (lo, hi)
    }

    /// The order that walks the reports by year, newest first: a permutation
    /// of the report positions along which the years strictly decrease.
    pub fn year_order_desc(&self) -> (r: Vec<usize>)
        requires
            self.wf(),
        ensures
            r@.len() == self.spec_reports().len(),
            forall|k: int| 0 <= k < r@.len() ==> (#[trigger] r@[k]) < self.spec_reports().len(),
            forall|a: int, b: int|
                #![trigger r@[a], r@[b]]
                0 <= a < b < r@.len() ==> r@[a] != r@[b],
            forall|a: int, b: int|
                #![trigger r@[a], r@[b]]
                0 <= a < b < r@.len() ==> self.spec_reports()[r@[a] as int].spec_year()
                    > self.spec_reports()[r@[b] as int].spec_year(),
    {
        let n = self.reports.len();
        let mut idx: Vec<usize> = Vec::new();
        let mut t: usize = 0;
        while t < n
            invariant
                t <= n,
                idx@.len() == t,
                forall|k: int| 0 <= k < t ==> (#[trigger] idx@[k]) == k,
            decreases n - t,
        {
            idx.push(t);
            t = t + 1;
        }
        let ghost reps = self.spec_reports();
        let mut k: usize = 0;
        while k < n
            invariant
                self.wf(),
                reps == self.spec_reports(),
                n == reps.len(),
                k <= n,
                idx@.len() == n,
                forall|p: int| 0 <= p < n ==> (#[trigger] idx@[p]) < n,
                forall|p: int, q: int|
                    #![trigger idx@[p], idx@[q]]
                    0 <= p < q < n ==> idx@[p] != idx@[q],
                forall|a: int, b: int|
                    #![trigger idx@[a], idx@[b]]
                    0 <= a < b < k ==> reps[idx@[a] as int].spec_year()
                        >= reps[idx@[b] as int].spec_year(),
                forall|a: int, b: int|
                    #![trigger idx@[a], idx@[b]]
                    0 <= a < k && k <= b < n ==> reps[idx@[a] as int].spec_year()
                        >= reps[idx@[b] as int].spec_year(),
            decreases n - k,
        {
            let mut m: usize = k;
            let mut j: usize = k + 1;
            while j < n
                invariant
                    reps == self.spec_reports(),
                    n == reps.len(),
                    k <= m < j <= n,
                    idx@.len() == n,
                    forall|p: int| 0 <= p < n ==> (#[trigger] idx@[p]) < n,
                    forall|t2: int|
                        k <= t2 < j ==> reps[(#[trigger] idx@[t2]) as int].spec_year()
                            <= reps[idx@[m as int] as int].spec_year(),
                decreases n - j,
            {
                if self.reports[idx[j]].year() > self.reports[idx[m]].year() {
                    m = j;
                }
                j = j + 1;
            }
            let a = idx[k];
            let b = idx[m];
            idx.set(k, b);
            idx.set(m, a);
            k = k + 1;
        }
        proof {
            assert forall|a: int, b: int|
                #![trigger idx@[a], idx@[b]]
                0 <= a < b < n implies reps[idx@[a] as int].spec_year()
                > reps[idx@[b] as int].spec_year() by {
                assert(reps[idx@[a] as int].spec_year() >= reps[idx@[b] as int].spec_year());
                assert(idx@[a] != idx@[b]);
                if idx@[a] < idx@[b] {
                    assert(reps[idx@[a] as int].spec_year() != reps[idx@[b] as int].spec_year());
                } else {
                    assert(reps[idx@[b] as int].spec_year() != reps[idx@[a] as int].spec_year());
                }
            }
        }
        idx
    }
}

/// The minimum and maximum that one year's series reports are exactly the
/// per-year extremes the range specs fold over.
proof fn lemma_year_extremes(s: Seq<u32>, lo: u32, hi: u32)
    requires
        s.len() == 0 ==> lo == 0 && hi == 0,
        s.len() > 0 ==> s.contains(lo) && forall|k: int| 0 <= k < s.len() ==> lo <= s[k],
        s.len() > 0 ==> s.contains(hi) && forall|k: int| 0 <= k < s.len() ==> s[k] <= hi,
    ensures
        lo == seq_min_or0(s),
        hi == seq_max_or0(s),
{
    if s.len() > 0 {
        lemma_min_or0_unique(s, lo);
        lemma_max_or0_unique(s, hi);
    }
}

} // verus!
