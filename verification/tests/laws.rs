use chrono::{Datelike, NaiveDate};
use rcal::calendar::build;
use rcal::date::{Date, MonthKey};
use rcal::grid::{render_month, MonthGrid};
use rcal::compose::Layout;
use rcal::holiday::Day;
use rcal::text::line_text;
use rcal::{CalCmd, MONTH_NAMES};

fn date(year: i32, month: u32, day: u32) -> Date {
    Date::new(year, month, day).unwrap()
}

fn days(dates: &[Date]) -> Vec<Day> {
    dates.iter().map(|d| Day { date: *d, holiday: None }).collect()
}

fn filled(grid: &MonthGrid) -> usize {
    grid.rows.iter().map(|r| r.cells.iter().filter(|c| c.is_some()).count()).sum()
}

fn whole_month(year: i32, month: u32) -> (MonthKey, MonthGrid) {
    let key = MonthKey::new(year, month).unwrap();
    let buckets = build(key.first_day(), key.last_day());
    assert_eq!(buckets.len(), 1);
    assert_eq!(buckets[0].key, key);
    let grid = render_month(&key, &days(&buckets[0].dates), "", &date(2000, 1, 1));
    (key, grid)
}

#[test]
fn every_cell_stands_in_the_column_of_its_weekday() {
    for year in [1, 1900, 2000, 2023, 2024, 9999] {
        for month in 1..=12 {
            let (_, grid) = whole_month(year, month);
            for row in &grid.rows {
                for (column, cell) in row.cells.iter().enumerate() {
                    if let Some(cell) = cell {
                        assert_eq!(date(year, month, cell.day).weekday() as usize, column);
                    }
                }
            }
        }
    }
}

#[test]
fn a_whole_month_fills_as_many_cells_as_it_has_days() {
    for year in [1, 1900, 2000, 2023, 2024, 9999] {
        for month in 1..=12 {
            let (key, grid) = whole_month(year, month);
            assert_eq!(filled(&grid), key.length() as usize);
        }
    }
}

#[test]
fn a_whole_month_has_a_row_for_each_week_and_a_blank_one() {
    for year in [1, 1900, 2000, 2023, 2024, 2026, 9999] {
        for month in 1..=12 {
            let (key, grid) = whole_month(year, month);
            let leading = key.first_day().weekday() as usize;
            let weeks = (leading + key.length() as usize + 6) / 7;
            assert_eq!(grid.rows.len(), weeks + 1);
            assert!(grid.rows[weeks].cells.iter().all(|c| c.is_none()));
            for row in &grid.rows[..weeks] {
                assert!(row.cells.iter().any(|c| c.is_some()));
            }
            let last = key.last_day();
            let cell = grid.rows[weeks - 1].cells[last.weekday() as usize].unwrap();
            assert_eq!(cell.day, last.day());
        }
    }
}

#[test]
fn a_border_month_fills_as_many_cells_as_it_has_days_in_the_range() {
    // 2024-03-09 and 2024-08-31 are Saturdays; 2024-02-29 ends its month.
    for (start, end) in [
        (date(2024, 1, 15), date(2024, 2, 10)),
        (date(2023, 12, 25), date(2024, 3, 9)),
        (date(2024, 2, 29), date(2024, 2, 29)),
        (date(2024, 8, 31), date(2024, 8, 31)),
        (date(2024, 2, 3), date(2024, 2, 29)),
    ] {
        for bucket in build(start, end) {
            let grid = render_month(&bucket.key, &days(&bucket.dates), "", &start);
            assert_eq!(filled(&grid), bucket.dates.len());
        }
    }
}

#[test]
fn a_range_that_ends_inside_a_week_loses_the_days_of_that_week() {
    // 2024-02-08 is a Thursday.
    let buckets = build(date(2024, 1, 15), date(2024, 2, 8));
    assert_eq!(buckets.len(), 2);
    let january = render_month(&buckets[0].key, &days(&buckets[0].dates), "", &date(2000, 1, 1));
    assert_eq!(filled(&january), 17);
    let february = render_month(&buckets[1].key, &days(&buckets[1].dates), "", &date(2000, 1, 1));
    assert_eq!(buckets[1].dates.len(), 8);
    assert_eq!(filled(&february), 3);
}

#[test]
fn inner_buckets_are_whole_months() {
    let buckets = build(date(2023, 11, 20), date(2024, 3, 5));
    assert_eq!(buckets.len(), 5);
    assert_eq!(buckets[0].dates.len(), 11);
    assert_eq!(buckets[0].dates[0], date(2023, 11, 20));
    for bucket in &buckets[1..4] {
        assert_eq!(bucket.dates.len(), bucket.key.length() as usize);
        assert_eq!(bucket.dates[0], bucket.key.first_day());
        assert_eq!(*bucket.dates.last().unwrap(), bucket.key.last_day());
    }
    assert_eq!(buckets[4].dates.len(), 5);
    assert_eq!(*buckets[4].dates.last().unwrap(), date(2024, 3, 5));
}

#[test]
fn lines_of_a_group_are_aligned() {
    let cmd = CalCmd::new(date(2024, 1, 1), date(2024, 5, 31));
    let labels: Vec<String> = (0..5).map(|_| "令和6年".to_string()).collect();
    let layout = Layout::default();
    let lines = cmd.print_cal(&labels, &date(2024, 2, 3), &layout);
    assert_eq!(lines.len(), 16);
    for (i, line) in lines.iter().enumerate() {
        let columns = if i < 8 { 3 } else { 2 };
        let width = if i % 8 == 0 { 15 } else { 21 };
        assert_eq!(line_text(line).chars().count(), columns * width + (columns - 1) * 3);
    }
}

#[test]
fn six_rows_show_every_day_of_a_month() {
    for year in [2023, 2024, 2025, 2026] {
        for month in 1..=12 {
            let (key, grid) = whole_month(year, month);
            assert!(grid.rows.len() <= 7);
            let shown: usize = grid
                .rows
                .iter()
                .take(6)
                .map(|r| r.cells.iter().filter(|c| c.is_some()).count())
                .sum();
            assert_eq!(shown, key.length() as usize);
        }
    }
}

#[test]
fn the_days_of_a_range_are_those_that_chrono_counts() {
    let start = date(1999, 11, 30);
    let end = date(2005, 3, 1);
    let mut expected = NaiveDate::from_ymd_opt(1999, 11, 30).unwrap();
    let mut count = 0;
    for bucket in build(start, end) {
        for d in &bucket.dates {
            assert_eq!((d.year(), d.month(), d.day()), (expected.year(), expected.month(), expected.day()));
            assert_eq!(d.weekday(), expected.weekday().num_days_from_sunday());
            assert_eq!(d.text(), expected.to_string());
            assert_eq!((bucket.key.year(), bucket.key.month()), (expected.year(), expected.month()));
            expected = expected.succ_opt().unwrap();
            count += 1;
        }
    }
    assert_eq!(expected, NaiveDate::from_ymd_opt(2005, 3, 2).unwrap());
    assert_eq!(count, 1919);
}

#[test]
fn dates_are_those_that_chrono_has() {
    for year in [1, 4, 100, 400, 1900, 2000, 2023, 2024, 9999] {
        for month in 0..=13 {
            for day in 0..=32 {
                assert_eq!(
                    Date::new(year, month, day).is_some(),
                    NaiveDate::from_ymd_opt(year, month, day).is_some()
                );
            }
        }
    }
}

#[test]
fn names_at_the_root() {
    assert_eq!(MONTH_NAMES.len(), 12);
    assert_eq!(MONTH_NAMES[0], "January");
    assert_eq!(MONTH_NAMES[11], "December");
    let cmd = CalCmd::new(date(2024, 5, 1), date(2024, 5, 31));
    assert_eq!(cmd.buckets().len(), 1);
}
