use std::collections::HashMap;

use hitmap::common::{
    day_to_row_index, format_section_label, saturday_on_or_after, shift_back_representable,
    shift_date_by_months, shift_datetime_back, sunday_on_or_before, DateTime,
};
use hitmap::dates::{day_number_of, Date};
use hitmap::sections::{
    build_sections_for_explicit_range, build_sections_for_period, build_year_section, iter_dates,
    resolve_period_window, PeriodWindow,
};

fn d(year: i32, month: u32, day: u32) -> Date {
    Date { year, month, day }
}

fn midnight(date: Date) -> DateTime {
    DateTime { date, hour: 0, minute: 0, second: 0 }
}

#[test]
fn grid_rows_start_on_sunday() {
    assert_eq!(day_to_row_index(&d(2026, 1, 4)), 0);
    assert_eq!(day_to_row_index(&d(2026, 1, 5)), 1);
    assert_eq!(day_to_row_index(&d(2026, 1, 10)), 6);
    assert_eq!(sunday_on_or_before(d(2026, 1, 7)), d(2026, 1, 4));
    assert_eq!(sunday_on_or_before(d(2026, 1, 4)), d(2026, 1, 4));
    assert_eq!(saturday_on_or_after(d(2025, 12, 31)), d(2026, 1, 3));
    assert_eq!(saturday_on_or_after(d(2026, 1, 3)), d(2026, 1, 3));
}

#[test]
fn month_shifts_clamp_the_day() {
    assert_eq!(shift_date_by_months(&d(2024, 3, 31), -1), d(2024, 2, 29));
    assert_eq!(shift_date_by_months(&d(2023, 3, 31), -1), d(2023, 2, 28));
    assert_eq!(shift_date_by_months(&d(2024, 1, 15), -12), d(2023, 1, 15));
    assert_eq!(shift_date_by_months(&d(2024, 11, 30), 3), d(2025, 2, 28));
}

#[test]
fn shifting_back_by_each_unit() {
    let t = DateTime { date: d(2026, 3, 31), hour: 7, minute: 8, second: 9 };
    let back = |amount: u32, unit: char| shift_datetime_back(&t, amount, unit);
    assert_eq!(back(10, 'd'), Ok(DateTime { date: d(2026, 3, 21), ..t }));
    assert_eq!(back(2, 'W'), Ok(DateTime { date: d(2026, 3, 17), ..t }));
    assert_eq!(back(1, 'm'), Ok(DateTime { date: d(2026, 2, 28), ..t }));
    assert_eq!(back(1, 'y'), Ok(DateTime { date: d(2025, 3, 31), ..t }));
    assert_eq!(back(1, 'x'), Err("Invalid --last unit: x".to_string()));
    assert!(shift_back_representable(&t, 1, 'y'));
    assert!(!shift_back_representable(&t, 300000, 'y'));
}

#[test]
fn section_labels() {
    assert_eq!(format_section_label(&d(2025, 1, 5), &d(2026, 1, 4), true), "2025-01-05 - 2026-01-04");
    assert_eq!(format_section_label(&d(2025, 1, 5), &d(2026, 1, 4), false), "2025 - 2026");
}

#[test]
fn dates_iterate_inclusively() {
    let dates = iter_dates(d(2024, 2, 27), d(2024, 3, 2));
    assert_eq!(
        dates,
        vec![d(2024, 2, 27), d(2024, 2, 28), d(2024, 2, 29), d(2024, 3, 1), d(2024, 3, 2)]
    );
    assert!(iter_dates(d(2024, 3, 2), d(2024, 3, 1)).is_empty());
}

#[test]
fn year_section_places_counts_in_cells() {
    let mut counts = HashMap::new();
    counts.insert(day_number_of(d(2026, 1, 1)), 2u64);
    counts.insert(day_number_of(d(2026, 1, 6)), 5u64);
    counts.insert(day_number_of(d(2026, 2, 1)), 9u64);
    counts.insert(day_number_of(d(2025, 12, 31)), 4u64);
    let section = build_year_section(&counts, d(2026, 1, 1), d(2026, 2, 1), None);
    assert_eq!(section.label, "2026 - 2026");
    assert_eq!(section.visible_start, d(2025, 12, 28));
    assert_eq!(section.visible_end, d(2026, 2, 7));
    assert_eq!(section.week_count, 6);
    assert_eq!(section.day_counts.len(), 42);
    assert_eq!(section.day_counts[4], 2);
    assert_eq!(section.day_counts[3], 0);
    assert_eq!(section.day_counts[7 + 2], 5);
    assert_eq!(section.day_counts[35], 9);
    assert_eq!(section.day_counts.iter().sum::<u64>(), 16);
    assert_eq!(
        section.month_labels,
        vec![(0, "Jan".to_string()), (5, "Feb".to_string())]
    );
}

#[test]
fn month_labels_skip_a_taken_week() {
    let counts = HashMap::new();
    let section = build_year_section(&counts, d(2026, 1, 30), d(2026, 3, 2), Some("x".to_string()));
    assert_eq!(section.label, "x");
    assert_eq!(
        section.month_labels,
        vec![(0, "Jan".to_string()), (1, "Feb".to_string()), (5, "Mar".to_string())]
    );
    let section = build_year_section(&counts, d(2026, 3, 30), d(2026, 4, 10), None);
    assert_eq!(section.month_labels, vec![(0, "Mar".to_string())]);
}

#[test]
fn explicit_ranges_split_at_year_ends() {
    let counts = HashMap::new();
    let sections = build_sections_for_explicit_range(&counts, d(2024, 11, 15), d(2026, 2, 3));
    let ranges: Vec<(Date, Date, String)> = sections
        .iter()
        .map(|s| (s.range_start, s.range_end, s.label.clone()))
        .collect();
    assert_eq!(
        ranges,
        vec![
            (d(2024, 11, 15), d(2024, 12, 31), "2024-11-15 - 2024-12-31".to_string()),
            (d(2025, 1, 1), d(2025, 12, 31), "2025-01-01 - 2025-12-31".to_string()),
            (d(2026, 1, 1), d(2026, 2, 3), "2026-01-01 - 2026-02-03".to_string()),
        ]
    );
}

#[test]
fn period_windows() {
    let today = d(2026, 3, 15);
    let w = resolve_period_window(Some(d(2026, 1, 1)), None, None, today).unwrap();
    assert_eq!((w.start, w.end, w.exact), (midnight(d(2026, 1, 1)), midnight(today), true));
    assert_eq!(
        resolve_period_window(Some(d(2026, 4, 1)), None, None, today).unwrap_err(),
        "--from must be on or before --to"
    );
    let w = resolve_period_window(None, None, None, today).unwrap();
    assert_eq!((w.start, w.end, w.exact), (midnight(d(2025, 3, 15)), midnight(today), false));
    let w = resolve_period_window(None, Some(d(2026, 1, 10)), Some("2w"), today).unwrap();
    assert_eq!(w.start, midnight(d(2025, 12, 27)));
    assert_eq!(
        resolve_period_window(None, None, Some("9q"), today).unwrap_err(),
        "Invalid --last unit: 'q'"
    );
}

#[test]
fn rolling_windows_make_one_section() {
    let counts = HashMap::new();
    let window = PeriodWindow {
        start: midnight(d(2025, 3, 15)),
        end: midnight(d(2026, 3, 15)),
        exact: false,
    };
    let sections = build_sections_for_period(&counts, &window);
    assert_eq!(sections.len(), 1);
    assert_eq!(sections[0].label, "2025-03-15 - 2026-03-15");
    let exact = PeriodWindow { exact: true, ..window };
    assert_eq!(build_sections_for_period(&counts, &exact).len(), 2);
}
