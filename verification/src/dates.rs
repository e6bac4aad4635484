//! Calendar dates of the proleptic Gregorian calendar, as plain values, and
//! the day arithmetic that the hitmap grid needs.

use chrono::{Datelike, NaiveDate};
use vstd::prelude::*;

use crate::common::month_length;
use crate::strings::decimal;

verus! {

/// A calendar date.
#[derive(Clone, Copy, Debug, PartialEq, Eq, Structural)]
pub struct Date {
    pub year: i32,
    pub month: u32,
    pub day: u32,
}

/// Earliest and latest years that the date library represents.
pub open spec fn min_year() -> int {
    -262143
}

pub open spec fn max_year() -> int {
    262142
}

/// A real date within the representable range.
pub open spec fn valid_date(d: Date) -> bool {
    &&& min_year() <= d.year <= max_year()
    &&& 1 <= d.month <= 12
    &&& 1 <= d.day <= month_length(d.year as int, d.month as int)
}

/// Days since 1970-01-01 of a civil date.
pub open spec fn days_from_civil(y: int, m: int, d: int) -> int {
    let y2 = if m <= 2 {
        y - 1
    } else {
        y
    };
    let era = y2 / 400;
    let yoe = y2 % 400;
    let mp = if m > 2 {
        m - 3
    } else {
        m + 9
    };
    let doy = (153 * mp + 2) / 5 + d - 1;
    let doe = yoe * 365 + yoe / 4 - yoe / 100 + doy;
    era * 146097 + doe - 719468
}

/// Day number of a date.
pub open spec fn day_number(d: Date) -> int {
    days_from_civil(d.year as int, d.month as int, d.day as int)
}

/// The next calendar date.
pub open spec fn next_date(d: Date) -> Date {
    if d.day < month_length(d.year as int, d.month as int) {
        Date { day: (d.day + 1) as u32, ..d }
    } else if d.month < 12 {
        Date { month: (d.month + 1) as u32, day: 1, ..d }
    } else {
        Date { year: (d.year + 1) as i32, month: 1, day: 1 }
    }
}

/// The next date is one day later.
pub proof fn lemma_next_date_day_number(d: Date)
    requires
        valid_date(d),
    ensures
        day_number(next_date(d)) == day_number(d) + 1,
{
    let y = d.year as int;
    if d.day < month_length(y, d.month as int) {
    } else if d.month < 12 {
        if d.month == 2 {
            let y1 = y - 1;
            assert(days_from_civil(y, 3, 1) == days_from_civil(y, 2, d.day as int) + 1) by {
                let era0 = y1 / 400;
                let yoe0 = y1 % 400;
                let era1 = y / 400;
                let yoe1 = y % 400;
                if yoe1 == 0 {
                    assert(era1 == era0 + 1 && yoe0 == 399);
                } else {
                    assert(era1 == era0 && yoe0 == yoe1 - 1);
                }
            }
        }
    } else {
    }
}


/// Before the last representable date, the next date is representable too.
pub proof fn lemma_next_date_valid(d: Date)
    requires
        valid_date(d),
        day_number(d) < max_day_number(),
    ensures
        valid_date(next_date(d)),
        day_number(next_date(d)) == day_number(d) + 1,
{
    lemma_next_date_day_number(d);
    if d.year == max_year() && d.month == 12 && d.day == 31 {
        assert(day_number(d) == max_day_number());
    }
}

/// The last day of a date's year.
pub open spec fn year_end(d: Date) -> Date {
    Date { year: d.year, month: 12, day: 31 }
}

/// No date comes after the last day of its year.
pub proof fn lemma_not_after_year_end(d: Date)
    requires
        valid_date(d),
    ensures
        valid_date(year_end(d)),
        day_number(d) <= day_number(year_end(d)),
{
    let y = d.year as int;
    if d.month <= 2 {
        let feb_last = Date { year: d.year, month: 2, day: month_length(y, 2) as u32 };
        assert(day_number(d) <= day_number(feb_last));
        lemma_next_date_day_number(feb_last);
        assert(next_date(feb_last) == Date { year: d.year, month: 3, day: 1 });
    }
}

/// Days since 1970-01-01 of the first and last representable dates.
pub open spec fn min_day_number() -> int {
    days_from_civil(min_year(), 1, 1)
}

pub open spec fn max_day_number() -> int {
    days_from_civil(max_year(), 12, 31)
}

/// The weekday of a date, counted from Sunday (0) to Saturday (6); the
/// epoch 1970-01-01 was a Thursday.
pub open spec fn weekday_from_sunday(d: Date) -> int {
    (day_number(d) + 4) % 7
}

/// `n` in decimal, zero-padded to at least `width` digits.
pub open spec fn padded(n: nat, width: nat) -> Seq<char> {
    let digits = decimal(n);
    let zeros = if digits.len() < width {
        (width - digits.len()) as nat
    } else {
        0
    };
    Seq::new(zeros, |i: int| '0') + digits
}

/// How the date library writes a year (`%Y`): four digits, zero-padded,
/// with a leading sign outside 0..=9999.
pub open spec fn year_text(y: int) -> Seq<char> {
    if 0 <= y <= 9999 {
        padded(y as nat, 4)
    } else if y < 0 {
        seq!['-'] + padded((-y) as nat, 4)
    } else {
        seq!['+'] + padded(y as nat, 4)
    }
}

/// How the date library writes a date as `%Y-%m-%d`.
pub open spec fn ymd_text(d: Date) -> Seq<char> {
    year_text(d.year as int) + seq!['-'] + padded(d.month as nat, 2) + seq!['-'] + padded(
        d.day as nat,
        2,
    )
}

/// English month abbreviations, as the date library writes `%b`.
pub open spec fn month_abbrev(m: int) -> Seq<char> {
    if m == 1 {
        "Jan"@
    } else if m == 2 {
        "Feb"@
    } else if m == 3 {
        "Mar"@
    } else if m == 4 {
        "Apr"@
    } else if m == 5 {
        "May"@
    } else if m == 6 {
        "Jun"@
    } else if m == 7 {
        "Jul"@
    } else if m == 8 {
        "Aug"@
    } else if m == 9 {
        "Sep"@
    } else if m == 10 {
        "Oct"@
    } else if m == 11 {
        "Nov"@
    } else {
        "Dec"@
    }
}

/// Calls `NaiveDate::succ_opt`, which gives the next calendar date.
#[verifier::external_body]
pub(crate) fn succ_date(d: Date) -> (r: Date)
    requires
        valid_date(d),
        day_number(d) < max_day_number(),
    ensures
        r == next_date(d),
{
    let n = NaiveDate::from_ymd_opt(d.year, d.month, d.day).unwrap().succ_opt().unwrap();
    Date { year: n.year(), month: n.month(), day: n.day() }
}

/// Calls `NaiveDate::weekday` and `Weekday::num_days_from_sunday`, which give
/// the day of the week of the date in the proleptic Gregorian calendar.
#[verifier::external_body]
pub(crate) fn weekday_of(d: Date) -> (r: u32)
    requires
        valid_date(d),
    ensures
        r == weekday_from_sunday(d),
{
    NaiveDate::from_ymd_opt(d.year, d.month, d.day).unwrap().weekday().num_days_from_sunday()
}

/// Calls `NaiveDate::checked_add_signed` with a whole number of days, which
/// gives the date that many days later (earlier for a negative count).
#[verifier::external_body]
pub(crate) fn add_days(d: Date, days: i64) -> (r: Date)
    requires
        valid_date(d),
        min_day_number() <= day_number(d) + days <= max_day_number(),
    ensures
        valid_date(r),
        day_number(r) == day_number(d) + days,
{
    let base = NaiveDate::from_ymd_opt(d.year, d.month, d.day).unwrap();
    let n = base.checked_add_signed(chrono::Duration::days(days)).unwrap();
    Date { year: n.year(), month: n.month(), day: n.day() }
}

/// Calls `NaiveDate::signed_duration_since` and `TimeDelta::num_days`, which
/// give the number of days from `b` to `a`.
#[verifier::external_body]
pub(crate) fn days_between(a: Date, b: Date) -> (r: i64)
    requires
        valid_date(a),
        valid_date(b),
    ensures
        r == day_number(a) - day_number(b),
{
    let na = NaiveDate::from_ymd_opt(a.year, a.month, a.day).unwrap();
    na.signed_duration_since(NaiveDate::from_ymd_opt(b.year, b.month, b.day).unwrap()).num_days()
}

/// The day number of a date, counted by the date library from 1970-01-01.
pub fn day_number_of(d: Date) -> (r: i64)
    requires
        valid_date(d),
    ensures
        r == day_number(d),
{
    days_between(d, Date { year: 1970, month: 1, day: 1 })
}

/// Whether a date is real and representable.
pub fn is_valid_date(d: &Date) -> (r: bool)
    ensures
        r == valid_date(*d),
{
    if d.year < -262143 || d.year > 262142 || d.month < 1 || d.month > 12 {
        return false;
    }
    let len = crate::common::days_in_month(d.year, d.month);
    1 <= d.day && d.day <= len
}

/// The day numbers of the first and last representable dates.
pub fn day_number_bounds() -> (r: (i64, i64))
    ensures
        r.0 == min_day_number(),
        r.1 == max_day_number(),
{
    let first = day_number_of(Date { year: -262143, month: 1, day: 1 });
    let last = day_number_of(Date { year: 262142, month: 12, day: 31 });
    (first, last)
}

/// Calls `NaiveDate::format` with `%Y-%m-%d`.
#[verifier::external_body]
pub(crate) fn format_ymd(d: Date) -> (r: String)
    requires
        valid_date(d),
    ensures
        r@ == ymd_text(d),
{
    NaiveDate::from_ymd_opt(d.year, d.month, d.day).unwrap().format("%Y-%m-%d").to_string()
}

/// Calls `NaiveDate::format` with `%Y`.
#[verifier::external_body]
pub(crate) fn format_year(d: Date) -> (r: String)
    requires
        valid_date(d),
    ensures
        r@ == year_text(d.year as int),
{
    NaiveDate::from_ymd_opt(d.year, d.month, d.day).unwrap().format("%Y").to_string()
}

/// How the date library writes a date as `%d %b %Y`.
pub open spec fn dmy_text(d: Date) -> Seq<char> {
    padded(d.day as nat, 2) + seq![' '] + month_abbrev(d.month as int) + seq![' '] + year_text(
        d.year as int,
    )
}

/// Calls `NaiveDate::format` with `%d %b %Y`.
#[verifier::external_body]
pub(crate) fn format_dmy(d: Date) -> (r: String)
    requires
        valid_date(d),
    ensures
        r@ == dmy_text(d),
{
    NaiveDate::from_ymd_opt(d.year, d.month, d.day).unwrap().format("%d %b %Y").to_string()
}

/// Calls `NaiveDate::format` with `%b`.
#[verifier::external_body]
pub(crate) fn format_month_abbrev(d: Date) -> (r: String)
    requires
        valid_date(d),
    ensures
        r@ == month_abbrev(d.month as int),
{
    NaiveDate::from_ymd_opt(d.year, d.month, d.day).unwrap().format("%b").to_string()
}

/// What `NaiveDate::parse_from_str(s, "%Y-%m-%d")` gives for a string: the
/// date, or the text of the parse error.
pub uninterp spec fn parsed_ymd(s: Seq<char>) -> Result<Date, Seq<char>>;

/// Calls `NaiveDate::parse_from_str` with `%Y-%m-%d`, whose result depends
/// on the text alone; an error comes back as its message, and only real
/// dates come back as dates.
#[verifier::external_body]
pub(crate) fn parse_ymd(s: &str) -> (r: Result<Date, String>)
    ensures
        match r {
            Ok(d) => parsed_ymd(s@) == Ok::<Date, Seq<char>>(d) && valid_date(d),
            Err(m) => parsed_ymd(s@) == Err::<Date, Seq<char>>(m@),
        },
{
    match NaiveDate::parse_from_str(s, "%Y-%m-%d") {
        Ok(n) => Ok(Date { year: n.year(), month: n.month(), day: n.day() }),
        Err(e) => Err(e.to_string()),
    }
}

} // verus!
