use mortality_stats::cell::Cell;
use mortality_stats::dataset::{LoadedTable, MultiYearDataset, YearInput};
use mortality_stats::discovery::resolve_source;
use mortality_stats::error::Error;
use mortality_stats::report::ReportConfig;

fn text(s: &str) -> Cell {
    Cell::Text(s.to_string())
}

fn num(n: i64) -> Cell {
    Cell::Number(n)
}

fn small_config() -> ReportConfig {
    let labels = vec!["young".to_string(), "old".to_string()];
    ReportConfig::new(labels, "PL".to_string(), "all".to_string()).unwrap()
}

fn data_row(group: &str, weeks: &[i64]) -> Vec<Cell> {
    let mut row = vec![text(group), text("PL"), Cell::Empty];
    for w in weeks {
        row.push(num(*w));
    }
    row
}

/// A small year table for the two-label configuration: `base` seeds the
/// values so that different years carry different counts.
fn small_table(base: i64) -> Vec<Vec<Cell>> {
    vec![
        data_row("young", &[base, base + 1]),
        data_row("old", &[base + 10, base + 11]),
        data_row("all", &[base + 20, base + 21]),
    ]
}

fn loaded_year(year: u64, base: i64) -> YearInput {
    YearInput {
        year,
        loaded: Ok(LoadedTable {
            source_identifier: format!("table-{}", year),
            table: small_table(base),
        }),
    }
}

#[test]
fn missing_year_fails_the_whole_dataset() {
    let config = small_config();
    let inputs = vec![
        loaded_year(2019, 100),
        YearInput {
            year: 2020,
            loaded: Err(Error::FileNotFound),
        },
    ];
    assert!(matches!(
        MultiYearDataset::build(&inputs, &config),
        Err(Error::FileNotFound)
    ));
}

#[test]
fn missing_row_in_one_year_fails_the_whole_dataset() {
    let config = small_config();
    let mut bad_table = small_table(200);
    bad_table.remove(1);
    let inputs = vec![
        loaded_year(2019, 100),
        YearInput {
            year: 2020,
            loaded: Ok(LoadedTable {
                source_identifier: "table-2020".to_string(),
                table: bad_table,
            }),
        },
    ];
    assert!(matches!(
        MultiYearDataset::build(&inputs, &config),
        Err(Error::RowNotFound)
    ));
}

#[test]
fn dataset_keeps_request_order_and_sources() {
    let config = small_config();
    let inputs = vec![loaded_year(2019, 100), loaded_year(2020, 200)];
    let dataset = MultiYearDataset::build(&inputs, &config).unwrap();
    assert_eq!(dataset.year_count(), 2);
    let reports = dataset.reports();
    assert_eq!(reports[0].year(), 2019);
    assert_eq!(reports[1].year(), 2020);
    assert_eq!(reports[0].source_identifier(), "table-2019");
    assert_eq!(reports[1].source_identifier(), "table-2020");
    assert_eq!(reports[0].overall().counts(), &vec![120, 121]);
    assert_eq!(reports[1].overall().counts(), &vec![220, 221]);
}

#[test]
fn by_year_finds_the_right_report() {
    let config = small_config();
    let inputs = vec![loaded_year(2019, 100), loaded_year(2020, 200)];
    let dataset = MultiYearDataset::build(&inputs, &config).unwrap();
    let r2020 = dataset.by_year(2020).unwrap();
    assert_eq!(r2020.source_identifier(), "table-2020");
    assert!(dataset.by_year(2018).is_none());
}

#[test]
fn flatten_concatenates_years_per_label() {
    let config = small_config();
    let inputs = vec![loaded_year(2019, 100), loaded_year(2020, 200)];
    let dataset = MultiYearDataset::build(&inputs, &config).unwrap();
    let lines = dataset.flatten_into_weeks();
    assert_eq!(lines.len(), 2);
    assert_eq!(lines[0], vec![100, 101, 200, 201]);
    assert_eq!(lines[1], vec![110, 111, 210, 211]);
}

#[test]
fn flatten_of_empty_dataset_is_empty() {
    let config = small_config();
    let inputs: Vec<YearInput> = Vec::new();
    let dataset = MultiYearDataset::build(&inputs, &config).unwrap();
    assert_eq!(dataset.year_count(), 0);
    assert!(dataset.flatten_into_weeks().is_empty());
}

#[test]
fn value_range_spans_all_years() {
    let config = small_config();
    let inputs = vec![loaded_year(2019, 100), loaded_year(2020, 200)];
    let dataset = MultiYearDataset::build(&inputs, &config).unwrap();
    assert_eq!(dataset.value_range(0), (100, 201));
    assert_eq!(dataset.value_range(1), (110, 211));
}

#[test]
fn year_order_desc_sorts_newest_first() {
    let config = small_config();
    let inputs = vec![
        loaded_year(2019, 100),
        loaded_year(2021, 300),
        loaded_year(2020, 200),
    ];
    let dataset = MultiYearDataset::build(&inputs, &config).unwrap();
    let order = dataset.year_order_desc();
    let years: Vec<u64> = order
        .iter()
        .map(|&i| dataset.reports()[i].year())
        .collect();
    assert_eq!(years, vec![2021, 2020, 2019]);
}

#[test]
fn resolve_source_takes_first_present_candidate() {
    let candidates = vec![
        "data/one.xlsx".to_string(),
        "data/two.xlsx".to_string(),
        "data/three.xlsx".to_string(),
    ];
    let present = vec![false, true, true];
    assert_eq!(
        resolve_source(&candidates, &present),
        Ok("data/two.xlsx".to_string())
    );
}

#[test]
fn resolve_source_fails_when_nothing_exists() {
    let candidates = vec!["data/one.xlsx".to_string()];
    assert_eq!(
        resolve_source(&candidates, &vec![false]),
        Err(Error::FileNotFound)
    );
    let none: Vec<String> = Vec::new();
    assert_eq!(resolve_source(&none, &Vec::new()), Err(Error::FileNotFound));
}

#[test]
fn empty_series_year_counts_as_zero_in_range() {
    let labels = vec!["g".to_string()];
    let config = ReportConfig::new(labels, "PL".to_string(), "all".to_string()).unwrap();
    let bare = vec![
        vec![text("g"), text("PL"), Cell::Empty],
        vec![text("all"), text("PL"), Cell::Empty],
    ];
    let full = vec![
        data_row("g", &[5, 7]),
        data_row("all", &[1, 2]),
    ];
    let inputs = vec![
        YearInput {
            year: 2019,
            loaded: Ok(LoadedTable {
                source_identifier: "t1".to_string(),
                table: bare,
            }),
        },
        YearInput {
            year: 2020,
            loaded: Ok(LoadedTable {
                source_identifier: "t2".to_string(),
                table: full,
            }),
        },
    ];
    let dataset = MultiYearDataset::build(&inputs, &config).unwrap();
    assert_eq!(dataset.reports()[0].overall().len(), 0);
    assert_eq!(dataset.value_range(0), (0, 7));
    let lines = dataset.flatten_into_weeks();
    assert_eq!(lines[0], vec![5, 7]);
}

#[test]
fn missing_worksheet_fails_the_whole_dataset() {
    let config = small_config();
    let inputs = vec![
        YearInput {
            year: 2019,
            loaded: Err(Error::SheetNotFound),
        },
        loaded_year(2020, 200),
    ];
    assert!(matches!(
        MultiYearDataset::build(&inputs, &config),
        Err(Error::SheetNotFound)
    ));
}
