//! One year's complete report: one series per tracked age group plus the
//! overall series, assembled in a single pass over a loaded table.

use vstd::prelude::*;

use crate::cell::{Cell, RowKey};
use crate::error::Error;
use crate::locator::{
    has_match, is_first_match, located, payload_width, rectangular, RowLocator,
};
use crate::series::AgeGroupSeries;

verus! {

/// No two labels of the sequence read the same.
pub open spec fn distinct_labels(labels: Seq<Seq<char>>) -> bool {
    forall|a: int, b: int| 0 <= a < b < labels.len() ==> #[trigger] labels[a] != #[trigger] labels[b]
}

/// The configuration a report is assembled under: the ordered set of
/// canonical age-group labels to track, the region label that marks the
/// whole-country rows, and the group label of the overall row.
///
/// The label set is validated once, at construction, so that report assembly
/// never meets a duplicate label.
#[derive(Debug, Clone)]
pub struct ReportConfig {
    labels: Vec<String>,
    region_label: String,
    overall_label: String,
}

impl ReportConfig {
    /// The canonical age-group labels, in their fixed order.
    pub closed spec fn spec_labels(&self) -> Seq<Seq<char>> {
        self.labels.deep_view()
    }

    /// The whole-country region label.
    pub closed spec fn spec_region(&self) -> Seq<char> {
        self.region_label@
    }

    /// The group label of the overall (all ages) row.
    pub closed spec fn spec_overall(&self) -> Seq<char> {
        self.overall_label@
    }

    /// A well-formed configuration tracks pairwise distinct labels.
    pub open spec fn wf(&self) -> bool {
        distinct_labels(self.spec_labels())
    }

    /// Validate and build a configuration. Rejects a label list with
    /// duplicates, so the tracked strata really form an ordered set.
    pub fn new(labels: Vec<String>, region_label: String, overall_label: String) -> (r: Option<
        ReportConfig,
    >)
        ensures
            r is Some <==> distinct_labels(labels.deep_view()),
            r matches Some(c) ==> c.wf() && c.spec_labels() == labels.deep_view()
                && c.spec_region() == region_label@ && c.spec_overall() == overall_label@,
    {
        if Self::all_distinct(&labels) {
            Some(ReportConfig { labels, region_label, overall_label })
        } else {
            None
        }
    }

    /// Decide whether the labels are pairwise distinct.
    fn all_distinct(labels: &Vec<String>) -> (r: bool)
        ensures
            r == distinct_labels(labels.deep_view()),
    {
        let n = labels.len();
        let mut i: usize = 0;
        while i < n
            invariant
                n == labels@.len(),
                i <= n,
                distinct_labels(labels.deep_view().take(i as int)),
            decreases n - i,
        {
            let mut j: usize = 0;
            while j < i
                invariant
                    n == labels@.len(),
                    j <= i < n,
                    forall|a: int| 0 <= a < j ==> labels.deep_view()[a] != labels.deep_view()[i as int],
                decreases i - j,
            {
                proof {
                    assert(labels.deep_view()[j as int] == labels@[j as int]@);
                    assert(labels.deep_view()[i as int] == labels@[i as int]@);
                }
                if labels[j] == labels[i] {
                    return false;
                }
                j = j + 1;
            }
            i = i + 1;
        }
        proof {
            assert(labels.deep_view().take(n as int) =~= labels.deep_view());
        }
        true
    }

    /// How many labels are tracked.
    pub fn label_count(&self) -> (n: usize)
        ensures
            n == self.spec_labels().len(),
    {
        self.labels.len()
    }

    /// The tracked labels, in order.
    pub fn labels(&self) -> (r: &Vec<String>)
        ensures
            r.deep_view() == self.spec_labels(),
    {
        &self.labels
    }

    /// The whole-country region label.
    pub fn region_label(&self) -> (r: &String)
        ensures
            r@ == self.spec_region(),
    {
        &self.region_label
    }

    /// The group label of the overall row.
    pub fn overall_label(&self) -> (r: &String)
        ensures
            r@ == self.spec_overall(),
    {
        &self.overall_label
    }
}

/// Every required row — one per tracked label, and the overall row — is
/// present in the table under the configuration's region label.
pub open spec fn all_rows_present(table: Seq<Vec<Cell>>, config: ReportConfig) -> bool {
    &&& has_match(table, config.spec_overall(), config.spec_region())
    &&& forall|g: int|
        0 <= g < config.spec_labels().len() ==> has_match(
            table,
            #[trigger] config.spec_labels()[g],
            config.spec_region(),
        )
}

/// The report `rep` is exactly what assembling `table` under `config` for
/// `year` yields: the right year and source text, the configured labels, and
/// for every tracked label — and for the overall row — the payload of the
/// first matching row of the table.
pub open spec fn report_models(
    rep: AnnualReport,
    year: u64,
    source: Seq<char>,
    table: Seq<Vec<Cell>>,
    config: ReportConfig,
) -> bool {
    &&& rep.spec_year() == year
    &&& rep.spec_source() == source
    &&& rep.spec_labels() == config.spec_labels()
    &&& rep.spec_group_count() == config.spec_labels().len()
    &&& forall|g: int|
        0 <= g < config.spec_labels().len() ==> located(
            table,
            config.spec_labels()[g],
            config.spec_region(),
            #[trigger] rep.spec_group_at(g),
        )
    &&& located(table, config.spec_overall(), config.spec_region(), rep.spec_overall())
}

/// One year's report: the overall weekly series and one series per tracked
/// age-group label. Fully constructed in one pass and immutable thereafter.
#[derive(Debug, Clone)]
pub struct AnnualReport {
    year: u64,
    source_identifier: String,
    labels: Vec<String>,
    by_group: Vec<AgeGroupSeries>,
    overall: AgeGroupSeries,
}

impl AnnualReport {
    /// The year the report covers.
    pub closed spec fn spec_year(&self) -> u64 {
        self.year
    }

    /// The text identifying where the table came from.
    pub closed spec fn spec_source(&self) -> Seq<char> {
        self.source_identifier@
    }

    /// The tracked labels, in order.
    pub closed spec fn spec_labels(&self) -> Seq<Seq<char>> {
        self.labels.deep_view()
    }

    /// How many per-group series the report holds.
    pub closed spec fn spec_group_count(&self) -> nat {
        self.by_group@.len()
    }

    /// The weekly counts of the series for label `g` of the label order.
    pub closed spec fn spec_group_at(&self, g: int) -> Seq<u32> {
        self.by_group@[g]@
    }

    /// The weekly counts of the overall series.
    pub closed spec fn spec_overall(&self) -> Seq<u32> {
        self.overall@
    }

    /// Well-formedness: one series per label, labels pairwise distinct, and
    /// every series as long as the overall one (one entry per week).
    pub open spec fn wf(&self) -> bool {
        &&& self.spec_labels().len() == self.spec_group_count()
        &&& distinct_labels(self.spec_labels())
        &&& forall|g: int|
            0 <= g < self.spec_group_count() ==> #[trigger] self.spec_group_at(g).len()
                == self.spec_overall().len()
    }

    /// Assemble one year's report from an already-loaded table.
    ///
    /// For every tracked label the first row matching (label, region) is
    /// located, and once more for (overall label, region); each payload
    /// becomes one series. The report is all-or-nothing: if any required row
    /// is missing the whole construction fails with [`Error::RowNotFound`]
    /// and no partial report exists.
    ///
    /// The table must be rectangular, as every sheet handed over by the
    /// spreadsheet collaborator is; this is what makes all series of the
    /// report equally long.
    pub fn build(
        year: u64,
        source_identifier: String,
        table: &Vec<Vec<Cell>>,
        config: &ReportConfig,
    ) -> (r: Result<AnnualReport, Error>)
        requires
            config.wf(),
            rectangular(table@),
        ensures
            r is Ok <==> all_rows_present(table@, *config),
            r matches Ok(rep) ==> rep.wf() && report_models(
                rep,
                year,
                source_identifier@,
                table@,
                *config,
            ) && rep.spec_overall().len() == payload_width(table@),
            r matches Err(e) ==> e == Error::RowNotFound,
    {
        let labels = config.labels();
        let n = labels.len();
        let mut by_group: Vec<AgeGroupSeries> = Vec::new();
        let mut g: usize = 0;
        while g < n
            invariant
                n == config.spec_labels().len(),
                config.wf(),
                rectangular(table@),
                g <= n,
                by_group@.len() == g,
                labels.deep_view() == config.spec_labels(),
                forall|k: int|
                    0 <= k < g ==> located(
                        table@,
                        config.spec_labels()[k],
                        config.spec_region(),
                        #[trigger] by_group@[k]@,
                    ),
                forall|k: int|
                    0 <= k < g ==> #[trigger] by_group@[k]@.len() == payload_width(table@),
            decreases n - g,
        {
            let key = RowKey {
                group_label: labels[g].clone(),
                region_label: config.region_label().clone(),
            };
            match RowLocator::find(table, &key) {
                Ok(series) => {
                    proof {
                        let i = choose|i: int|
                            #[trigger] is_first_match(
                                table@,
                                key.group_label@,
                                key.region_label@,
                                i,
                            ) && series@ == crate::locator::payload_of(table@[i]);
                        crate::locator::lemma_rectangular_payload(
                            table@,
                            key.group_label@,
                            key.region_label@,
                            i,
                        );
                    }
                    by_group.push(series);
                },
                Err(e) => {
                    proof {
                        assert(!has_match(
                            table@,
                            config.spec_labels()[g as int],
                            config.spec_region(),
                        ));
                    }
                    return Err(e);
                },
            }
            g = g + 1;
        }
        let okey = RowKey {
            group_label: config.overall_label().clone(),
            region_label: config.region_label().clone(),
        };
        match RowLocator::find(table, &okey) {
            Ok(overall) => {
                proof {
                    let i = choose|i: int|
                        #[trigger] is_first_match(
                            table@,
                            okey.group_label@,
                            okey.region_label@,
                            i,
                        ) && overall@ == crate::locator::payload_of(table@[i]);
                    crate::locator::lemma_rectangular_payload(
                        table@,
                        okey.group_label@,
                        okey.region_label@,
                        i,
                    );
                    lemma_all_located_present(table@, *config, by_group@);
                }
                let owned_labels = clone_labels(labels);
                Ok(
                    AnnualReport {
                        year,
                        source_identifier,
                        labels: owned_labels,
                        by_group,
                        overall,
                    },
                )
            },
            Err(e) => Err(e),
        }
    }

    /// The year the report covers.
    pub fn year(&self) -> (r: u64)
        ensures
            r == self.spec_year(),
    {
        self.year
    }

    /// The text identifying where the table came from (a resolved file path).
    pub fn source_identifier(&self) -> (r: &String)
        ensures
            r@ == self.spec_source(),
    {
        &self.source_identifier
    }

    /// The tracked labels, in order.
    pub fn labels(&self) -> (r: &Vec<String>)
        ensures
            r.deep_view() == self.spec_labels(),
    {
        &self.labels
    }

    /// How many per-group series the report holds.
    pub fn group_count(&self) -> (n: usize)
        ensures
            n == self.spec_group_count(),
    {
        self.by_group.len()
    }

    /// The series for label `g` of the label order.
    pub fn series_at(&self, g: usize) -> (r: &AgeGroupSeries)
        requires
            g < self.spec_group_count(),
        ensures
            r@ == self.spec_group_at(g as int),
    {
        &self.by_group[g]
    }

    /// The overall (all ages) series.
    pub fn overall(&self) -> (r: &AgeGroupSeries)
        ensures
            r@ == self.spec_overall(),
    {
        &self.overall
    }

    /// The series tracked under `label`, if `label` is one of the report's.
    pub fn by_age_group(&self, label: &String) -> (r: Option<&AgeGroupSeries>)
        requires
            self.wf(),
        ensures
            r is Some <==> exists|g: int|
                0 <= g < self.spec_labels().len() && self.spec_labels()[g] == label@,
            r matches Some(s) ==> exists|g: int|
                0 <= g < self.spec_labels().len() && #[trigger] self.spec_labels()[g] == label@
                    && s@ == self.spec_group_at(g),
    {
        let n = self.labels.len();
        let mut g: usize = 0;
        while g < n
            invariant
                n == self.spec_labels().len(),
                self.wf(),
                g <= n,
                forall|k: int| 0 <= k < g ==> self.spec_labels()[k] != label@,
            decreases n - g,
        {
            proof {
                assert(self.spec_labels()[g as int] == self.labels@[g as int]@);
            }
            if self.labels[g] == *label {
                return Some(&self.by_group[g]);
            }
            g = g + 1;
        }
        None
    }
}

/// Clone a label list; the clone reads exactly as the list it came from.
fn clone_labels(labels: &Vec<String>) -> (r: Vec<String>)
    ensures
        r.deep_view() == labels.deep_view(),
{
    let r = labels.clone();
    proof {
        assert forall|i: int| 0 <= i < labels@.len() implies r.deep_view()[i]
            == labels.deep_view()[i] by {
            assert(cloned::<String>(labels@[i], r@[i]));
        }
        assert(r.deep_view() =~= labels.deep_view());
    }
    r
}

/// When every tracked label's series was located, every tracked label's row
/// is present.
proof fn lemma_all_located_present(
    table: Seq<Vec<Cell>>,
    config: ReportConfig,
    groups: Seq<AgeGroupSeries>,
)
    requires
        groups.len() == config.spec_labels().len(),
        forall|k: int|
            0 <= k < groups.len() ==> located(
                table,
                config.spec_labels()[k],
                config.spec_region(),
                #[trigger] groups[k]@,
            ),
    ensures
        forall|g: int|
            0 <= g < config.spec_labels().len() ==> has_match(
                table,
                #[trigger] config.spec_labels()[g],
                config.spec_region(),
            ),
{
    assert forall|g: int| 0 <= g < config.spec_labels().len() implies has_match(
        table,
        #[trigger] config.spec_labels()[g],
        config.spec_region(),
    ) by {
        assert(located(table, config.spec_labels()[g], config.spec_region(), groups[g]@));
        let i = choose|i: int|
            #[trigger] is_first_match(table, config.spec_labels()[g], config.spec_region(), i)
                && groups[g]@ == crate::locator::payload_of(table[i]);
        assert(crate::locator::row_matches(
            table[i],
            config.spec_labels()[g],
            config.spec_region(),
        ));
    }
}

} // verus!
