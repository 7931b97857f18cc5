use mortality_stats::cell::{Cell, RowKey};
use mortality_stats::error::Error;
use mortality_stats::locator::RowLocator;

fn text(s: &str) -> Cell {
    Cell::Text(s.to_string())
}

fn num(n: i64) -> Cell {
    Cell::Number(n)
}

fn key(group: &str, region: &str) -> RowKey {
    RowKey {
        group_label: group.to_string(),
        region_label: region.to_string(),
    }
}

#[test]
fn find_extracts_payload_after_label_columns() {
    let table = vec![
        vec![text("other"), text("PL"), Cell::Empty, num(1), num(2)],
        vec![text("0 - 4"), text("PL"), Cell::Empty, num(10), num(20)],
    ];
    let s = RowLocator::find(&table, &key("0 - 4", "PL")).unwrap();
    assert_eq!(s.counts(), &vec![10, 20]);
}

#[test]
fn find_fails_when_no_row_matches() {
    let table = vec![vec![text("0 - 4"), text("DE"), Cell::Empty, num(1)]];
    assert!(matches!(
        RowLocator::find(&table, &key("0 - 4", "PL")),
        Err(Error::RowNotFound)
    ));
}

#[test]
fn find_takes_first_of_duplicate_rows() {
    let table = vec![
        vec![text("a"), text("PL"), Cell::Empty, num(1)],
        vec![text("a"), text("PL"), Cell::Empty, num(2)],
    ];
    let s = RowLocator::find(&table, &key("a", "PL")).unwrap();
    assert_eq!(s.counts(), &vec![1]);
}

#[test]
fn find_skips_rows_shorter_than_two_cells() {
    let table = vec![
        vec![],
        vec![text("a")],
        vec![text("a"), text("PL"), Cell::Empty, num(3)],
    ];
    let s = RowLocator::find(&table, &key("a", "PL")).unwrap();
    assert_eq!(s.counts(), &vec![3]);
}

#[test]
fn find_is_blind_to_unrelated_rows() {
    let junk1 = vec![text("x"), text("PL"), Cell::Empty, num(7)];
    let junk2 = vec![text("y"), text("PL"), Cell::Empty, num(8)];
    let wanted = vec![text("a"), text("PL"), Cell::Empty, num(5), num(6)];
    let t1 = vec![junk1.clone(), wanted.clone(), junk2.clone()];
    let t2 = vec![junk2, wanted, junk1];
    let s1 = RowLocator::find(&t1, &key("a", "PL")).unwrap();
    let s2 = RowLocator::find(&t2, &key("a", "PL")).unwrap();
    assert_eq!(s1.counts(), s2.counts());
    assert_eq!(s1.counts(), &vec![5, 6]);
}

#[test]
fn text_in_numeric_column_counts_as_zero() {
    let table = vec![vec![
        text("a"),
        text("PL"),
        Cell::Empty,
        num(4),
        text("not a number"),
        Cell::Empty,
        Cell::Other,
        num(9),
    ]];
    let s = RowLocator::find(&table, &key("a", "PL")).unwrap();
    assert_eq!(s.counts(), &vec![4, 0, 0, 0, 9]);
}

#[test]
fn negative_and_oversized_numbers_are_clamped() {
    let table = vec![vec![
        text("a"),
        text("PL"),
        Cell::Empty,
        num(-3),
        num(u32::MAX as i64 + 10),
        num(u32::MAX as i64),
    ]];
    let s = RowLocator::find(&table, &key("a", "PL")).unwrap();
    assert_eq!(s.counts(), &vec![0, u32::MAX, u32::MAX]);
}

#[test]
fn matched_row_without_payload_gives_empty_series() {
    let table = vec![vec![text("a"), text("PL"), Cell::Empty]];
    let s = RowLocator::find(&table, &key("a", "PL")).unwrap();
    assert_eq!(s.len(), 0);
    assert_eq!(s.simple_average(), Err(Error::EmptySeries));
}

#[test]
fn labels_must_match_exactly() {
    let table = vec![vec![text("a "), text("PL"), Cell::Empty, num(1)]];
    assert!(matches!(
        RowLocator::find(&table, &key("a", "PL")),
        Err(Error::RowNotFound)
    ));
}
