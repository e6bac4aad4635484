//! Year sections of the hitmap grid: the visible weeks, the month labels and
//! the per-cell commit counts.

use std::collections::HashMap;
use vstd::prelude::*;

use crate::strings::string_of;

use crate::common::{
    format_section_label, is_shifted_back, last_window_spec, midnight, shift_back_in_range,
    valid_date_time, parse_last_window, saturday_on_or_after, section_label_text,
    shift_datetime_back, sunday_on_or_before, DateTime,
};
use crate::dates::{
    day_number, day_number_bounds, day_number_of, days_between, format_month_abbrev,
    lemma_next_date_valid, lemma_not_after_year_end, max_day_number, min_day_number, month_abbrev,
    next_date, succ_date, valid_date, weekday_from_sunday, weekday_of, year_end, Date,
};

verus! {

/// A single year section of the hitmap.
///
/// `day_counts` holds one entry per visible cell, week by week: the cell of
/// week `w` and row `r` (Sunday is row 0) is at `w * 7 + r`; cells without
/// commits, or outside the range, hold 0.
#[derive(Debug)]
pub struct YearSection {
    pub label: String,
    pub range_start: Date,
    pub range_end: Date,
    pub visible_start: Date,
    pub visible_end: Date,
    pub week_count: u32,
    pub month_labels: Vec<(u32, String)>,
    pub day_counts: Vec<u64>,
}

/// Period window for rendering.
#[derive(Clone, Copy, Debug, PartialEq, Eq, Structural)]
pub struct PeriodWindow {
    pub start: DateTime,
    pub end: DateTime,
    pub exact: bool,
}

/// The commits counted for a grid cell: the day's count if the day lies in
/// the range and has an entry, else 0.
pub open spec fn cell_count(counts: Map<i64, u64>, first: int, last: int, dn: int) -> u64 {
    if first <= dn <= last && counts.contains_key(dn as i64) {
        counts[dn as i64]
    } else {
        0
    }
}

/// Month labels as plain values.
pub open spec fn label_views(labels: Seq<(u32, String)>) -> Seq<(u32, Seq<char>)> {
    labels.map_values(|l: (u32, String)| (l.0, l.1@))
}

/// The month labels from date `d` to `end`: a date is labelled when it is the
/// first of the range or the first of a month, unless the previous label
/// fell in the same week; `vs` is the day number of the first visible day.
pub open spec fn month_labels_from(d: Date, start: Date, end: Date, vs: int, last: Option<int>) -> Seq<
    (u32, Seq<char>),
>
    decreases day_number(end) - day_number(d) + 1,
{
    if !valid_date(d) || day_number(d) > day_number(end) || day_number(d) >= max_day_number() {
        seq![]
    } else {
        proof {
            lemma_next_date_valid(d);
        }
        let week = (day_number(d) - vs) / 7;
        if (d == start || d.day == 1) && last != Some(week) {
            seq![(week as u32, month_abbrev(d.month as int))] + month_labels_from(
                next_date(d),
                start,
                end,
                vs,
                Some(week),
            )
        } else {
            month_labels_from(next_date(d), start, end, vs, last)
        }
    }
}

/// First and last visible day numbers of a range.
pub open spec fn visible_first(start: Date) -> int {
    day_number(start) - weekday_from_sunday(start)
}

pub open spec fn visible_last(end: Date) -> int {
    day_number(end) + 6 - weekday_from_sunday(end)
}

/// Whether a range can be laid out: its visible weeks are representable.
pub open spec fn section_range_ok(start: Date, end: Date) -> bool {
    &&& valid_date(start)
    &&& valid_date(end)
    &&& day_number(start) <= day_number(end)
    &&& min_day_number() <= visible_first(start)
    &&& visible_last(end) <= max_day_number()
    &&& day_number(end) < max_day_number()
}

/// `s` is the section laid out for `start..=end` with the given label.
pub open spec fn is_year_section(
    s: YearSection,
    counts: Map<i64, u64>,
    start: Date,
    end: Date,
    label: Seq<char>,
) -> bool {
    let vs = visible_first(start);
    let ve = visible_last(end);
    &&& s.label@ == label
    &&& s.range_start == start
    &&& s.range_end == end
    &&& valid_date(s.visible_start)
    &&& day_number(s.visible_start) == vs
    &&& valid_date(s.visible_end)
    &&& day_number(s.visible_end) == ve
    &&& s.week_count == (ve - vs + 1) / 7
    &&& s.week_count * 7 == ve - vs + 1
    &&& s.day_counts@.len() == s.week_count * 7
    &&& forall|k: int|
        0 <= k < s.day_counts@.len() ==> #[trigger] s.day_counts@[k] == cell_count(
            counts,
            day_number(start),
            day_number(end),
            vs + k,
        )
    &&& label_views(s.month_labels@) == month_labels_from(start, start, end, vs, None)
}

/// Iterate dates from start to end, inclusive.
pub fn iter_dates(start: Date, end: Date) -> (r: Vec<Date>)
    requires
        valid_date(start),
        valid_date(end),
        day_number(start) <= day_number(end) ==> day_number(end) < max_day_number(),
    ensures
        r@.len() == if day_number(start) <= day_number(end) {
            day_number(end) - day_number(start) + 1
        } else {
            0
        },
        forall|i: int|
            0 <= i < r@.len() ==> valid_date(#[trigger] r@[i]) && day_number(r@[i])
                == day_number(start) + i,
        r@.len() > 0 ==> r@[0] == start,
        forall|i: int| 0 <= i < r@.len() - 1 ==> #[trigger] r@[i + 1] == next_date(r@[i]),
{
    let mut out: Vec<Date> = Vec::new();
    let span = days_between(end, start);
    if span < 0 {
        return out;
    }
    let mut current = start;
    let mut i: i64 = 0;
    while i <= span
        invariant
            0 <= i <= span + 1,
            span == day_number(end) - day_number(start),
            day_number(end) < max_day_number(),
            out@.len() == i,
            valid_date(current),
            i <= span ==> day_number(current) == day_number(start) + i,
            forall|j: int|
                0 <= j < i ==> valid_date(#[trigger] out@[j]) && day_number(out@[j])
                    == day_number(start) + j,
            i > 0 ==> out@[0] == start,
            i == 0 ==> current == start,
            i > 0 ==> current == next_date(out@[i - 1]) || i == span + 1,
            forall|j: int| 0 <= j < i - 1 ==> #[trigger] out@[j + 1] == next_date(out@[j]),
        decreases span + 1 - i,
    {
        out.push(current);
        if i < span {
            proof {
                lemma_next_date_valid(current);
            }
            current = succ_date(current);
        }
        i = i + 1;
    }
    out
}

/// The index of a day in the week-major cell order.
proof fn lemma_cell_index(x: int, vs: int)
    requires
        x >= 0,
        (vs + 4) % 7 == 0,
    ensures
        (x / 7) * 7 + (x + vs + 4) % 7 == x,
        (x + vs + 4) % 7 < 7,
{
    let q = (vs + 4) / 7;
    vstd::arithmetic::div_mod::lemma_fundamental_div_mod(vs + 4, 7);
    vstd::arithmetic::div_mod::lemma_mod_multiples_vanish(q, x, 7);
    assert(x + vs + 4 == 7 * q + x);
    vstd::arithmetic::div_mod::lemma_fundamental_div_mod(x, 7);
}

/// The visible span of a range is a whole number of weeks.
proof fn lemma_week_span(vs: int, ve: int)
    requires
        vs <= ve,
        (vs + 4) % 7 == 0,
        (ve + 4) % 7 == 6,
    ensures
        ((ve - vs + 1) / 7) * 7 == ve - vs + 1,
{
    let a = (vs + 4) / 7;
    let b = (ve + 4) / 7;
    vstd::arithmetic::div_mod::lemma_fundamental_div_mod(vs + 4, 7);
    vstd::arithmetic::div_mod::lemma_fundamental_div_mod(ve + 4, 7);
    assert(ve - vs + 1 == 7 * (b - a + 1));
    vstd::arithmetic::div_mod::lemma_div_multiples_vanish(b - a + 1, 7);
}

/// The commits recorded for a day, 0 when the day has no entry.
fn recorded_count(day_counts: &HashMap<i64, u64>, d: Date) -> (r: u64)
    requires
        valid_date(d),
    ensures
        r == if day_counts@.contains_key(day_number(d) as i64) {
            day_counts@[day_number(d) as i64]
        } else {
            0
        },
{
    broadcast use vstd::std_specs::hash::group_hash_axioms;

    match day_counts.get(&day_number_of(d)) {
        Some(count) => *count,
        None => 0,
    }
}

/// Fill the per-cell counts of the visible grid.
fn grid_counts(
    day_counts: &HashMap<i64, u64>,
    dates: &Vec<Date>,
    visible_start: Date,
    start_date: Date,
    end_date: Date,
    cells: usize,
) -> (r: Vec<u64>)
    requires
        section_range_ok(start_date, end_date),
        valid_date(visible_start),
        day_number(visible_start) == visible_first(start_date),
        (day_number(visible_start) + 4) % 7 == 0,
        cells == visible_last(end_date) - visible_first(start_date) + 1,
        dates@.len() == day_number(end_date) - day_number(start_date) + 1,
        forall|j: int|
            0 <= j < dates@.len() ==> valid_date(#[trigger] dates@[j]) && day_number(dates@[j])
                == day_number(start_date) + j,
    ensures
        r@.len() == cells,
        forall|k: int|
            0 <= k < cells ==> #[trigger] r@[k] == cell_count(
                day_counts@,
                day_number(start_date),
                day_number(end_date),
                visible_first(start_date) + k,
            ),
{
    let ghost vs = day_number(visible_start);
    let ghost first = day_number(start_date);
    let ghost last = day_number(end_date);
    let mut counts: Vec<u64> = Vec::new();
    while counts.len() < cells
        invariant
            counts@.len() <= cells,
            forall|k: int| 0 <= k < counts@.len() ==> #[trigger] counts@[k] == 0,
        decreases cells - counts@.len(),
    {
        counts.push(0);
    }
    let mut i: usize = 0;
    while i < dates.len()
        invariant
            vs == day_number(visible_start) == visible_first(start_date),
            valid_date(visible_start),
            (vs + 4) % 7 == 0,
            first == day_number(start_date),
            last == day_number(end_date),
            first <= last,
            vs <= first,
            cells == visible_last(end_date) - vs + 1,
            last <= visible_last(end_date),
            dates@.len() == last - first + 1,
            forall|j: int|
                0 <= j < dates@.len() ==> valid_date(#[trigger] dates@[j]) && day_number(dates@[j])
                    == first + j,
            0 <= i <= dates@.len(),
            counts@.len() == cells,
            forall|k: int|
                0 <= k < cells ==> #[trigger] counts@[k] == if vs + k < first + i {
                    cell_count(day_counts@, first, last, vs + k)
                } else {
                    0
                },
        decreases dates@.len() - i,
    {
        let current = dates[i];
        let offset = days_between(current, visible_start);
        let week_index: u32 = (offset as u32) / 7;
        let row_index = weekday_of(current);
        proof {
            lemma_cell_index(offset as int, vs);
        }
        let idx: usize = week_index as usize * 7 + row_index as usize;
        assert(idx == first + i - vs);
        let count = recorded_count(day_counts, current);
        if count > 0 {
            counts.set(idx, count);
        }
        i = i + 1;
    }
    counts
}

/// The month labels of the dates of a range.
fn grid_month_labels(dates: &Vec<Date>, visible_start: Date, start_date: Date, end_date: Date) -> (r:
    Vec<(u32, String)>)
    requires
        section_range_ok(start_date, end_date),
        valid_date(visible_start),
        day_number(visible_start) == visible_first(start_date),
        dates@.len() == day_number(end_date) - day_number(start_date) + 1,
        forall|j: int|
            0 <= j < dates@.len() ==> valid_date(#[trigger] dates@[j]) && day_number(dates@[j])
                == day_number(start_date) + j,
        dates@[0] == start_date,
        forall|j: int| 0 <= j < dates@.len() - 1 ==> #[trigger] dates@[j + 1] == next_date(dates@[j]),
    ensures
        label_views(r@) == month_labels_from(
            start_date,
            start_date,
            end_date,
            visible_first(start_date),
            None,
        ),
{
    let ghost vs = day_number(visible_start);
    let ghost first = day_number(start_date);
    let ghost last = day_number(end_date);
    let mut month_labels: Vec<(u32, String)> = Vec::new();
    let mut last_labeled_week: Option<u32> = None;
    let mut i: usize = 0;
    while i < dates.len()
        invariant
            section_range_ok(start_date, end_date),
            vs == day_number(visible_start) == visible_first(start_date),
            valid_date(visible_start),
            first == day_number(start_date),
            last == day_number(end_date),
            dates@.len() == last - first + 1,
            forall|j: int|
                0 <= j < dates@.len() ==> valid_date(#[trigger] dates@[j]) && day_number(dates@[j])
                    == first + j,
            dates@[0] == start_date,
            forall|j: int| 0 <= j < dates@.len() - 1 ==> #[trigger] dates@[j + 1] == next_date(dates@[j]),
            0 <= i <= dates@.len(),
            label_views(month_labels@) + month_labels_from(
                if i < dates@.len() {
                    dates@[i as int]
                } else {
                    next_date(dates@[dates@.len() - 1])
                },
                start_date,
                end_date,
                vs,
                match last_labeled_week {
                    Some(w) => Some(w as int),
                    None => None,
                },
            ) == month_labels_from(start_date, start_date, end_date, vs, None),
        decreases dates@.len() - i,
    {
        let current = dates[i];
        let offset = days_between(current, visible_start);
        let week_index: u32 = (offset as u32) / 7;
        let ghost before = month_labels@;
        let ghost last_before = match last_labeled_week {
            Some(w) => Some(w as int),
            None => None::<int>,
        };
        proof {
            lemma_next_date_valid(current);
            assert(current == start_date <==> i == 0) by {
                if current == start_date && i != 0 {
                    assert(day_number(current) == first + i);
                }
            }
            if i + 1 < dates@.len() {
                assert(dates@[i + 1] == next_date(dates@[i as int]));
            }
        }
        let should_label = i == 0 || current.day == 1;
        if should_label {
            let differs = match last_labeled_week {
                Some(lw) => week_index != lw,
                None => true,
            };
            if differs {
                let name = format_month_abbrev(current);
                month_labels.push((week_index, name));
                last_labeled_week = Some(week_index);
                proof {
                    assert(label_views(month_labels@) =~= label_views(before).push(
                        (week_index, month_abbrev(current.month as int)),
                    ));
                }
            }
        }
        i = i + 1;
    }
    proof {
        let d = next_date(dates@[dates@.len() - 1]);
        lemma_next_date_valid(dates@[dates@.len() - 1]);
        assert(month_labels_from(d, start_date, end_date, vs, None) =~= seq![]);
        assert(label_views(month_labels@) + seq![] =~= label_views(month_labels@));
    }
    month_labels
}

/// Create the visible week matrix and month labels for a date slice.
pub fn build_year_section(
    day_counts: &HashMap<i64, u64>,
    start_date: Date,
    end_date: Date,
    label: Option<String>,
) -> (r: YearSection)
    requires
        section_range_ok(start_date, end_date),
    ensures
        is_year_section(
            r,
            day_counts@,
            start_date,
            end_date,
            match label {
                Some(l) => l@,
                None => section_label_text(start_date, end_date, false),
            },
        ),
        section_wf(r),
{
    let visible_start = sunday_on_or_before(start_date);
    let visible_end = saturday_on_or_after(end_date);
    let ghost vs = day_number(visible_start);
    let ghost ve = day_number(visible_end);
    proof {
        lemma_week_span(vs, ve);
    }
    let span = days_between(visible_end, visible_start);
    let week_count: u32 = ((span + 1) / 7) as u32;
    let cells: usize = week_count as usize * 7;
    let dates = iter_dates(start_date, end_date);
    let counts = grid_counts(day_counts, &dates, visible_start, start_date, end_date, cells);
    let month_labels = grid_month_labels(&dates, visible_start, start_date, end_date);
    let section_label = match label {
        Some(l) => l,
        None => format_section_label(&start_date, &end_date, false),
    };
    YearSection {
        label: section_label,
        range_start: start_date,
        range_end: end_date,
        visible_start,
        visible_end,
        week_count,
        month_labels,
        day_counts: counts,
    }
}

/// The Sunday on or before a day does not move backwards as the day moves forwards.
proof fn lemma_visible_monotone(a: int, b: int)
    requires
        a <= b,
    ensures
        a - (a + 4) % 7 <= b - (b + 4) % 7,
        a + 6 - (a + 4) % 7 <= b + 6 - (b + 4) % 7,
{
    vstd::arithmetic::div_mod::lemma_fundamental_div_mod(a + 4, 7);
    vstd::arithmetic::div_mod::lemma_fundamental_div_mod(b + 4, 7);
    vstd::arithmetic::div_mod::lemma_div_is_ordered(a + 4, b + 4, 7);
}

/// Where the section that starts at `start` ends: at the end of its year,
/// or at `end` if that comes first.
pub open spec fn segment_end(start: Date, end: Date) -> Date {
    if day_number(year_end(start)) <= day_number(end) {
        year_end(start)
    } else {
        end
    }
}

/// The year-bounded pieces of the range from `start` to `end`.
pub open spec fn explicit_segments(start: Date, end: Date) -> Seq<(Date, Date)>
    decreases day_number(end) - day_number(start) + 1,
{
    if !valid_date(start) || !valid_date(end) || day_number(start) > day_number(end)
        || day_number(end) >= max_day_number() {
        seq![]
    } else {
        proof {
            lemma_not_after_year_end(start);
            lemma_next_date_valid(segment_end(start, end));
        }
        seq![(start, segment_end(start, end))] + explicit_segments(
            next_date(segment_end(start, end)),
            end,
        )
    }
}

/// `segs` tiles the days from `start` to `end`: the first piece starts at
/// `start`, the last ends at `end`, each starts the day after the previous
/// one ends, and each lies within one calendar year.
pub open spec fn tiles(segs: Seq<(Date, Date)>, start: Date, end: Date) -> bool {
    &&& segs.len() >= 1
    &&& segs[0].0 == start
    &&& segs.last().1 == end
    &&& forall|i: int|
        0 <= i < segs.len() ==> valid_date(#[trigger] segs[i].0) && valid_date(segs[i].1)
            && segs[i].0.year == segs[i].1.year && day_number(segs[i].0) <= day_number(segs[i].1)
    &&& forall|i: int| 0 <= i < segs.len() - 1 ==> #[trigger] segs[i + 1].0 == next_date(segs[i].1)
}

proof fn lemma_tiles_prepend(rest: Seq<(Date, Date)>, start: Date, ae: Date, end: Date)
    requires
        tiles(rest, next_date(ae), end),
        valid_date(start),
        valid_date(ae),
        start.year == ae.year,
        day_number(start) <= day_number(ae),
    ensures
        tiles(seq![(start, ae)] + rest, start, end),
{
    let segs = seq![(start, ae)] + rest;
    assert forall|i: int| 0 <= i < segs.len() - 1 implies #[trigger] segs[i + 1].0 == next_date(
        segs[i].1,
    ) by {
        if i > 0 {
            assert(segs[i] == rest[i - 1]);
            assert(segs[i + 1] == rest[(i - 1) + 1]);
            assert(rest[(i - 1) + 1].0 == next_date(rest[i - 1].1));
        } else {
            assert(segs[1] == rest[0]);
        }
    }
    assert forall|i: int| 0 <= i < segs.len() implies valid_date(#[trigger] segs[i].0) && valid_date(
        segs[i].1,
    ) && segs[i].0.year == segs[i].1.year && day_number(segs[i].0) <= day_number(segs[i].1) by {
        if i > 0 {
            assert(segs[i] == rest[i - 1]);
        }
    }
    assert(segs.last() == rest.last());
}

/// The pieces of an explicit range tile it: the first starts at `start`,
/// the last ends at `end`, each starts the day after the previous one ends,
/// and each lies within one calendar year.
#[verifier::rlimit(40)]
pub proof fn law_segments_tile_range(start: Date, end: Date)
    requires
        valid_date(start),
        valid_date(end),
        day_number(start) <= day_number(end),
        day_number(end) < max_day_number(),
    ensures
        tiles(explicit_segments(start, end), start, end),
    decreases day_number(end) - day_number(start),
{
    let ae = segment_end(start, end);
    lemma_not_after_year_end(start);
    lemma_next_date_valid(ae);
    let rest = explicit_segments(next_date(ae), end);
    assert(explicit_segments(start, end) == seq![(start, ae)] + rest);
    if day_number(ae) < day_number(end) {
        law_segments_tile_range(next_date(ae), end);
        lemma_tiles_prepend(rest, start, ae, end);
    } else {
        assert(ae == end) by {
            if ae != end {
                assert(ae == year_end(start));
            }
        }
        assert(rest =~= seq![]);
        assert(explicit_segments(start, end) =~= seq![(start, ae)]);
    }
}

/// Whether an explicit range can be split and laid out.
pub open spec fn explicit_range_ok(start: Date, end: Date) -> bool {
    &&& valid_date(start)
    &&& valid_date(end)
    &&& min_day_number() <= visible_first(start)
    &&& visible_last(end) <= max_day_number()
    &&& day_number(end) < max_day_number()
}

/// `r` holds the sections laid out for the given pieces, labelled with their
/// exact dates.
pub open spec fn are_exact_sections(
    r: Seq<YearSection>,
    counts: Map<i64, u64>,
    segs: Seq<(Date, Date)>,
) -> bool {
    &&& r.len() == segs.len()
    &&& forall|j: int|
        0 <= j < r.len() ==> is_year_section(
            #[trigger] r[j],
            counts,
            segs[j].0,
            segs[j].1,
            section_label_text(segs[j].0, segs[j].1, true),
        )
}

/// Split an explicit date range into year-bounded sections.
pub fn build_sections_for_explicit_range(
    day_counts: &HashMap<i64, u64>,
    start_date: Date,
    end_date: Date,
) -> (r: Vec<YearSection>)
    requires
        explicit_range_ok(start_date, end_date),
    ensures
        are_exact_sections(r@, day_counts@, explicit_segments(start_date, end_date)),
{
    let ghost segs = explicit_segments(start_date, end_date);
    let mut sections: Vec<YearSection> = Vec::new();
    let mut current_start = start_date;
    let final_end = end_date;
    if days_between(current_start, final_end) > 0 {
        assert(segs =~= seq![]);
        return sections;
    }
    loop
        invariant
            final_end == end_date,
            explicit_range_ok(start_date, end_date),
            segs == explicit_segments(start_date, end_date),
            valid_date(current_start),
            day_number(start_date) <= day_number(current_start),
            day_number(current_start) <= day_number(end_date) + 1,
            segs == segs.take(sections@.len() as int) + explicit_segments(current_start, end_date),
            sections@.len() <= segs.len(),
            forall|j: int|
                0 <= j < sections@.len() ==> is_year_section(
                    #[trigger] sections@[j],
                    day_counts@,
                    segs[j].0,
                    segs[j].1,
                    section_label_text(segs[j].0, segs[j].1, true),
                ),
        ensures
            are_exact_sections(sections@, day_counts@, segs),
        decreases day_number(end_date) + 1 - day_number(current_start),
    {
        if days_between(current_start, final_end) > 0 {
            assert(explicit_segments(current_start, end_date) =~= seq![]);
            assert(segs.take(sections@.len() as int) =~= segs);
            break;
        }
        let year = current_start.year;
        let current_end = Date { year, month: 12, day: 31 };
        let actual_end = if days_between(current_end, final_end) <= 0 {
            current_end
        } else {
            final_end
        };
        proof {
            lemma_not_after_year_end(current_start);
            lemma_visible_monotone(day_number(start_date), day_number(current_start));
            lemma_visible_monotone(day_number(actual_end), day_number(end_date));
            lemma_next_date_valid(actual_end);
            assert(actual_end == segment_end(current_start, end_date));
            let rest = explicit_segments(current_start, end_date);
            assert(rest == seq![(current_start, actual_end)] + explicit_segments(
                next_date(actual_end),
                end_date,
            ));
            assert(segs[sections@.len() as int] == (current_start, actual_end));
        }
        let label = format_section_label(&current_start, &actual_end, true);
        let section = build_year_section(day_counts, current_start, actual_end, Some(label));
        sections.push(section);
        proof {
            let k = sections@.len() as int;
            assert(segs.take(k) =~= segs.take(k - 1).push((current_start, actual_end)));
            assert(segs == segs.take(k) + explicit_segments(next_date(actual_end), end_date)) by {
                assert(segs.take(k - 1) + (seq![(current_start, actual_end)] + explicit_segments(
                    next_date(actual_end),
                    end_date,
                )) =~= segs.take(k) + explicit_segments(next_date(actual_end), end_date));
            }
        }
        current_start = succ_date(actual_end);
    }
    sections
}

/// Whether a period window can be laid out.
pub open spec fn period_window_ok(w: PeriodWindow) -> bool {
    if w.exact {
        explicit_range_ok(w.start.date, w.end.date)
    } else {
        section_range_ok(w.start.date, w.end.date)
    }
}

/// Build render sections for either an exact or rolling window.
pub fn build_sections_for_period(day_counts: &HashMap<i64, u64>, period_window: &PeriodWindow) -> (r:
    Vec<YearSection>)
    requires
        period_window_ok(*period_window),
    ensures
        period_window.exact ==> are_exact_sections(
            r@,
            day_counts@,
            explicit_segments(period_window.start.date, period_window.end.date),
        ),
        !period_window.exact ==> are_exact_sections(
            r@,
            day_counts@,
            seq![(period_window.start.date, period_window.end.date)],
        ),
{
    let start = period_window.start.date;
    let end = period_window.end.date;
    if period_window.exact {
        build_sections_for_explicit_range(day_counts, start, end)
    } else {
        let label = format_section_label(&start, &end, true);
        let mut out: Vec<YearSection> = Vec::new();
        out.push(build_year_section(day_counts, start, end, Some(label)));
        out
    }
}

/// The `--last` value in force: the given one, else one year.
pub open spec fn last_text(last_value: Option<&str>) -> Seq<char> {
    match last_value {
        Some(v) => v@,
        None => "1y"@,
    }
}

/// The end day of a window: the given one, else today.
pub open spec fn resolved_to(to_date: Option<Date>, today: Date) -> Date {
    match to_date {
        Some(t) => t,
        None => today,
    }
}

/// Whether a rolling window can be shifted back from its end without
/// leaving the representable dates.
pub open spec fn rolling_window_ok(to: Date, last: Seq<char>) -> bool {
    match last_window_spec(last) {
        Ok((amount, unit)) => shift_back_in_range(midnight(to), amount, unit),
        Err(_) => true,
    }
}

/// Resolve the period window from the render arguments; `today` stands in
/// for the end day when none is given.
pub fn resolve_period_window(
    from_date: Option<Date>,
    to_date: Option<Date>,
    last_value: Option<&str>,
    today: Date,
) -> (r: Result<PeriodWindow, String>)
    requires
        from_date matches Some(f) ==> valid_date(f),
        to_date matches Some(t) ==> valid_date(t),
        valid_date(today),
        from_date is None ==> rolling_window_ok(resolved_to(to_date, today), last_text(last_value)),
    ensures
        ({
            let to = resolved_to(to_date, today);
            match from_date {
                Some(f) => if day_number(f) > day_number(to) {
                    r is Err && r->Err_0@ == "--from must be on or before --to"@
                } else {
                    r == Ok::<PeriodWindow, String>(
                        PeriodWindow { start: midnight(f), end: midnight(to), exact: true },
                    )
                },
                None => match last_window_spec(last_text(last_value)) {
                    Err(m) => r is Err && r->Err_0@ == m,
                    Ok((amount, unit)) => r matches Ok(w) && w.end == midnight(to) && !w.exact
                        && is_shifted_back(midnight(to), amount, unit, w.start),
                },
            }
        }),
        r matches Ok(w) ==> valid_date_time(w.start) && valid_date_time(w.end),
{
    let to = match to_date {
        Some(t) => t,
        None => today,
    };
    let resolved_to = DateTime { date: to, hour: 0, minute: 0, second: 0 };
    if let Some(from) = from_date {
        let resolved_from = DateTime { date: from, hour: 0, minute: 0, second: 0 };
        if days_between(from, to) > 0 {
            return Err(string_of("--from must be on or before --to"));
        }
        return Ok(PeriodWindow { start: resolved_from, end: resolved_to, exact: true });
    }
    let last = match last_value {
        Some(v) => v,
        None => "1y",
    };
    let (amount, unit) = match parse_last_window(last) {
        Ok(v) => v,
        Err(e) => {
            return Err(e);
        },
    };
    let resolved_from = match shift_datetime_back(&resolved_to, amount, unit) {
        Ok(t) => t,
        Err(e) => {
            return Err(e);
        },
    };
    Ok(PeriodWindow { start: resolved_from, end: resolved_to, exact: false })
}

/// The shape that a section keeps: representable dates, one count per
/// visible cell, and visible weeks that do not run past the last
/// representable day.
pub open spec fn section_wf(s: YearSection) -> bool {
    &&& valid_date(s.visible_start)
    &&& valid_date(s.range_start)
    &&& valid_date(s.range_end)
    &&& s.day_counts@.len() == s.week_count * 7
    &&& day_number(s.visible_start) + s.week_count * 7 <= max_day_number() + 1
}


/// Whether a window can be laid out, computed.
pub fn period_window_layout_ok(w: &PeriodWindow) -> (r: bool)
    requires
        valid_date(w.start.date),
        valid_date(w.end.date),
    ensures
        r == period_window_ok(*w),
{
    let (lowest, highest) = day_number_bounds();
    let start = w.start.date;
    let end = w.end.date;
    let s = day_number_of(start);
    let e = day_number_of(end);
    let first_visible = s - weekday_of(start) as i64;
    let last_visible = e + 6 - weekday_of(end) as i64;
    let common = lowest <= first_visible && last_visible <= highest && e < highest;
    if w.exact {
        common
    } else {
        common && s <= e
    }
}

} // verus!
