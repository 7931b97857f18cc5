use mortality_stats::cell::Cell;
use mortality_stats::error::Error;
use mortality_stats::report::{AnnualReport, ReportConfig};

const AGE_GROUPS: [&str; 19] = [
    "0 - 4",
    "5 - 9",
    "10 - 14",
    "15 - 19",
    "20 - 24",
    "25 - 29",
    "30 - 34",
    "35 - 39",
    "40 - 44",
    "45 - 49",
    "50 - 54",
    "55 - 59",
    "60 - 64",
    "65 - 69",
    "70 - 74",
    "75 - 79",
    "80 - 84",
    "85 - 89",
    "90 i więcej",
];

fn text(s: &str) -> Cell {
    Cell::Text(s.to_string())
}

fn num(n: i64) -> Cell {
    Cell::Number(n)
}

fn canonical_config() -> ReportConfig {
    let labels: Vec<String> = AGE_GROUPS.iter().map(|l| l.to_string()).collect();
    ReportConfig::new(labels, "PL".to_string(), "Ogółem".to_string()).unwrap()
}

fn data_row(group: &str, weeks: &[i64]) -> Vec<Cell> {
    let mut row = vec![text(group), text("PL"), Cell::Empty];
    for w in weeks {
        row.push(num(*w));
    }
    row
}

/// A synthetic year: one row per canonical label plus the overall row, all
/// with the same number of weekly values.
fn canonical_table(weeks: usize) -> Vec<Vec<Cell>> {
    let mut table = Vec::new();
    for (g, label) in AGE_GROUPS.iter().enumerate() {
        let values: Vec<i64> = (0..weeks).map(|w| (g * 100 + w) as i64).collect();
        table.push(data_row(label, &values));
    }
    let overall: Vec<i64> = (0..weeks).map(|w| (10_000 + w) as i64).collect();
    table.push(data_row("Ogółem", &overall));
    table
}

#[test]
fn config_rejects_duplicate_labels() {
    let labels = vec!["a".to_string(), "b".to_string(), "a".to_string()];
    assert!(ReportConfig::new(labels, "PL".to_string(), "Ogółem".to_string()).is_none());
}

#[test]
fn config_accepts_distinct_labels() {
    let c = canonical_config();
    assert_eq!(c.label_count(), 19);
    assert_eq!(c.region_label(), "PL");
    assert_eq!(c.overall_label(), "Ogółem");
}

#[test]
fn report_holds_every_canonical_group() {
    let config = canonical_config();
    let table = canonical_table(4);
    let report =
        AnnualReport::build(2020, "table-2020".to_string(), &table, &config).unwrap();
    assert_eq!(report.year(), 2020);
    assert_eq!(report.source_identifier(), "table-2020");
    assert_eq!(report.group_count(), 19);
    assert_eq!(report.overall().len(), 4);
    for label in AGE_GROUPS.iter() {
        let series = report.by_age_group(&label.to_string()).unwrap();
        assert_eq!(series.len(), 4);
    }
}

#[test]
fn report_series_carry_the_row_values() {
    let config = canonical_config();
    let table = canonical_table(3);
    let report = AnnualReport::build(2021, "t".to_string(), &table, &config).unwrap();
    let first = report.by_age_group(&"0 - 4".to_string()).unwrap();
    assert_eq!(first.counts(), &vec![0, 1, 2]);
    let last = report.by_age_group(&"90 i więcej".to_string()).unwrap();
    assert_eq!(last.counts(), &vec![1800, 1801, 1802]);
    assert_eq!(report.overall().counts(), &vec![10_000, 10_001, 10_002]);
    assert_eq!(report.series_at(0).counts(), &vec![0, 1, 2]);
}

#[test]
fn missing_overall_row_fails_whole_report() {
    let config = canonical_config();
    let mut table = canonical_table(4);
    table.pop();
    assert!(matches!(
        AnnualReport::build(2020, "t".to_string(), &table, &config),
        Err(Error::RowNotFound)
    ));
}

#[test]
fn missing_group_row_fails_whole_report() {
    let config = canonical_config();
    let table: Vec<Vec<Cell>> = canonical_table(4)
        .into_iter()
        .filter(|row| !matches!(&row[0], Cell::Text(t) if t == "50 - 54"))
        .collect();
    assert!(matches!(
        AnnualReport::build(2020, "t".to_string(), &table, &config),
        Err(Error::RowNotFound)
    ));
}

#[test]
fn unknown_label_has_no_series() {
    let config = canonical_config();
    let table = canonical_table(2);
    let report = AnnualReport::build(2020, "t".to_string(), &table, &config).unwrap();
    assert!(report.by_age_group(&"95 - 99".to_string()).is_none());
}

#[test]
fn labels_keep_their_order() {
    let config = canonical_config();
    let table = canonical_table(2);
    let report = AnnualReport::build(2020, "t".to_string(), &table, &config).unwrap();
    let labels = report.labels();
    assert_eq!(labels.len(), 19);
    for (g, label) in AGE_GROUPS.iter().enumerate() {
        assert_eq!(&labels[g], label);
    }
}
