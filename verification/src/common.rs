//! Shared data models: author selection and matching, text normalization,
//! theme resolution, the `--last` window grammar and the calendar arithmetic
//! behind period windows (month shifts, week boundaries, section labels).

use vstd::prelude::*;

use crate::dates::{
    add_days, day_number, day_number_of, format_year, format_ymd, max_day_number, max_year, min_day_number,
    min_year, valid_date, weekday_from_sunday, weekday_of, year_text, ymd_text, Date,
};
use crate::config::{parse_u32_text, u32_text_value};
use crate::git::{lemma_split_nonempty, split_char, split_spec};
use crate::strings::{
    ascii_lower_char, char_to_ascii_lowercase,
    concat, join, push_char, seq_join, str_eq, string_of, to_lowercase, trim, trim_spec,
    unicode_lowercase, views,
};

verus! {

// ---------------------------------------------------------------------------
// Data structures
// ---------------------------------------------------------------------------

/// Author selection filter.
#[derive(Debug, Clone)]
pub struct AuthorSelection {
    pub all_authors: bool,
    pub author_names: Vec<String>,
    pub author_emails: Vec<String>,
    pub normalized_names: Vec<String>,
    pub normalized_emails: Vec<String>,
}

/// Author summary (grouped identity).
#[derive(Debug, Clone)]
pub struct AuthorSummary {
    pub commits: u64,
    pub primary_name: String,
    pub primary_email: String,
    pub names: Vec<String>,
    pub emails: Vec<String>,
}

// ---------------------------------------------------------------------------
// Normalization and deduplication
// ---------------------------------------------------------------------------

/// Text as compared case-insensitively: trimmed, then lower-cased.
pub open spec fn normalized(s: Seq<char>) -> Seq<char> {
    unicode_lowercase(trim_spec(s))
}

/// Normalize text for case-insensitive matching.
pub fn normalize_text(value: &str) -> (r: String)
    ensures
        r@ == normalized(value@),
{
    to_lowercase(trim(value))
}

/// Whether a value is empty once trimmed.
pub open spec fn is_blank(s: Seq<char>) -> bool {
    trim_spec(s).len() == 0
}

/// The normalized forms of a list of values.
pub open spec fn markers(values: Seq<Seq<char>>) -> Seq<Seq<char>> {
    values.map_values(|v: Seq<char>| normalized(v))
}

/// The non-blank values, each kept at its first occurrence up to
/// normalization.
pub open spec fn dedupe_spec(values: Seq<Seq<char>>) -> Seq<Seq<char>>
    decreases values.len(),
{
    if values.len() == 0 {
        Seq::empty()
    } else {
        let kept = dedupe_spec(values.drop_last());
        let v = values.last();
        if is_blank(v) || markers(kept).contains(normalized(v)) {
            kept
        } else {
            kept.push(v)
        }
    }
}

/// The laws of deduplication: no two kept values normalize alike, no kept
/// value is blank, every kept value comes from the input, and every non-blank
/// input value is represented by a kept value.
pub proof fn lemma_dedupe_laws(values: Seq<Seq<char>>)
    ensures
        ({
            let d = dedupe_spec(values);
            &&& forall|i: int, j: int|
                0 <= i < j < d.len() ==> normalized(#[trigger] d[i]) != normalized(#[trigger] d[j])
            &&& forall|i: int| 0 <= i < d.len() ==> !is_blank(#[trigger] d[i])
            &&& forall|i: int| 0 <= i < d.len() ==> values.contains(#[trigger] d[i])
            &&& forall|i: int|
                0 <= i < values.len() && !is_blank(#[trigger] values[i]) ==> markers(d).contains(
                    normalized(values[i]),
                )
        }),
    decreases values.len(),
{
    if values.len() > 0 {
        let prev = values.drop_last();
        lemma_dedupe_laws(prev);
        let kept = dedupe_spec(prev);
        let d = dedupe_spec(values);
        let v = values.last();
        assert forall|i: int| 0 <= i < d.len() implies values.contains(#[trigger] d[i]) by {
            if i < kept.len() {
                assert(prev.contains(kept[i]));
                let k = choose|k: int| 0 <= k < prev.len() && prev[k] == kept[i];
                assert(values[k] == kept[i]);
            } else {
                assert(values[values.len() - 1] == d[i]);
            }
        }
        assert forall|i: int|
            0 <= i < values.len() && !is_blank(#[trigger] values[i]) implies markers(d).contains(
            normalized(values[i]),
        ) by {
            if i < prev.len() {
                assert(prev[i] == values[i]);
                let k = choose|k: int|
                    0 <= k < markers(kept).len() && markers(kept)[k] == normalized(prev[i]);
                assert(markers(d)[k] == markers(kept)[k]);
            } else if markers(kept).contains(normalized(v)) {
                let k = choose|k: int| 0 <= k < markers(kept).len() && markers(kept)[k] == normalized(v);
                assert(markers(d)[k] == markers(kept)[k]);
            } else {
                assert(markers(d)[d.len() - 1] == normalized(v));
            }
        }
        assert forall|i: int, j: int| 0 <= i < j < d.len() implies normalized(#[trigger] d[i])
            != normalized(#[trigger] d[j]) by {
            if j == kept.len() {
                assert(markers(kept)[i] == normalized(d[i]));
            }
        }
    }
}

/// Whether `list` holds a string equal to `value`.
pub fn contains_string(list: &Vec<String>, value: &String) -> (r: bool)
    ensures
        r == views(list@).contains(value@),
{
    let n = list.len();
    let mut i: usize = 0;
    while i < n
        invariant
            n == list@.len(),
            0 <= i <= n,
            forall|k: int| 0 <= k < i ==> views(list@)[k] != value@,
        decreases n - i,
    {
        if list[i] == *value {
            assert(views(list@)[i as int] == value@);
            return true;
        }
        i += 1;
    }
    assert(!views(list@).contains(value@)) by {
        if views(list@).contains(value@) {
            let k = choose|k: int| 0 <= k < views(list@).len() && views(list@)[k] == value@;
            assert(views(list@)[k] == value@);
        }
    }
    false
}

/// Deduplicate strings while preserving their original order.
pub fn dedupe_preserving_order(values: &[String]) -> (r: Vec<String>)
    ensures
        views(r@) == dedupe_spec(views(values@)),
{
    let mut seen: Vec<String> = Vec::new();
    let mut result: Vec<String> = Vec::new();
    let n = values.len();
    let mut i: usize = 0;
    while i < n
        invariant
            n == values@.len(),
            0 <= i <= n,
            views(result@) == dedupe_spec(views(values@).take(i as int)),
            views(seen@) == markers(views(result@)),
        decreases n - i,
    {
        let value = &values[i];
        let ghost before = views(values@).take(i as int);
        assert(views(values@).take(i + 1).drop_last() == before);
        assert(views(values@).take(i + 1).last() == value@);
        if trim(value.as_str()).unicode_len() == 0 {
            i += 1;
            continue;
        }
        let marker = normalize_text(value.as_str());
        if contains_string(&seen, &marker) {
            i += 1;
            continue;
        }
        let ghost old_seen = seen@;
        let ghost old_result = result@;
        seen.push(marker);
        result.push(value.clone());
        assert(views(seen@) == views(old_seen).push(normalized(value@)));
        assert(views(result@) == views(old_result).push(value@));
        assert(views(result@).drop_last() == views(old_result));
        assert(markers(views(result@)) == markers(views(result@).drop_last()).push(normalized(value@)));
        i += 1;
    }
    assert(views(values@).take(n as int) == views(values@));
    result
}

// ---------------------------------------------------------------------------
// Author selection
// ---------------------------------------------------------------------------

pub const ALL_AUTHORS_CONFLICT: &'static str =
    "--all-authors cannot be combined with --author-name or --author-email";

pub const NO_AUTHOR_SELECTED: &'static str =
    "Select authors with --all-authors, --author-name, or --author-email";

/// The normalized forms of a list of strings.
pub fn normalize_all(values: &Vec<String>) -> (r: Vec<String>)
    ensures
        views(r@) == markers(views(values@)),
{
    let mut out: Vec<String> = Vec::new();
    let n = values.len();
    let mut i: usize = 0;
    while i < n
        invariant
            n == values@.len(),
            0 <= i <= n,
            views(out@) == markers(views(values@.subrange(0, i as int))),
        decreases n - i,
    {
        let ghost old_out = out@;
        out.push(normalize_text(values[i].as_str()));
        assert(views(out@) == views(old_out).push(normalized(values@[i as int]@)));
        assert(values@.subrange(0, i + 1) == values@.subrange(0, i as int).push(values@[i as int]));
        assert(views(values@.subrange(0, i + 1)) == views(values@.subrange(0, i as int)).push(values@[i as int]@));
        i += 1;
    }
    assert(values@.subrange(0, n as int) == values@);
    out
}

/// The selection that `resolve_author_selection` builds from cleaned
/// name and email lists.
pub open spec fn selection_matches(
    s: AuthorSelection,
    all: bool,
    names: Seq<Seq<char>>,
    emails: Seq<Seq<char>>,
) -> bool {
    &&& s.all_authors == all
    &&& views(s.author_names@) == names
    &&& views(s.author_emails@) == emails
    &&& views(s.normalized_names@) == markers(names)
    &&& views(s.normalized_emails@) == markers(emails)
}

/// Resolve the requested author filter into an `AuthorSelection`.
/// When `default_all` is true and no filters are given, defaults to all authors.
pub fn resolve_author_selection(
    all_authors: bool,
    author_names: &[String],
    author_emails: &[String],
    default_all: bool,
) -> (r: Result<AuthorSelection, String>)
    ensures
        ({
            let names = dedupe_spec(views(author_names@));
            let emails = dedupe_spec(views(author_emails@));
            let filtered = names.len() > 0 || emails.len() > 0;
            if all_authors && filtered {
                r is Err && r->Err_0@ == ALL_AUTHORS_CONFLICT@
            } else if !all_authors && !filtered && !default_all {
                r is Err && r->Err_0@ == NO_AUTHOR_SELECTED@
            } else {
                r matches Ok(s) && selection_matches(s, all_authors || !filtered, names, emails)
            }
        }),
{
    let cleaned_names = dedupe_preserving_order(author_names);
    let cleaned_emails = dedupe_preserving_order(author_emails);
    let filtered = cleaned_names.len() > 0 || cleaned_emails.len() > 0;
    if all_authors && filtered {
        return Err(string_of(ALL_AUTHORS_CONFLICT));
    }
    let all = if all_authors {
        true
    } else if !filtered {
        if default_all {
            true
        } else {
            return Err(string_of(NO_AUTHOR_SELECTED));
        }
    } else {
        false
    };
    let normalized_names = normalize_all(&cleaned_names);
    let normalized_emails = normalize_all(&cleaned_emails);
    Ok(AuthorSelection {
        all_authors: all,
        author_names: cleaned_names,
        author_emails: cleaned_emails,
        normalized_names,
        normalized_emails,
    })
}

/// Every requested name or email selects the commits of any author whose
/// name or email equals it up to surrounding whitespace and case.
pub proof fn law_requested_identity_matches(
    s: AuthorSelection,
    names: Seq<Seq<char>>,
    emails: Seq<Seq<char>>,
    requested: Seq<char>,
    author_name: Seq<char>,
    author_email: Seq<char>,
)
    requires
        selection_matches(s, false, dedupe_spec(names), dedupe_spec(emails)),
        !is_blank(requested),
        names.contains(requested) && normalized(author_name) == normalized(requested)
            || emails.contains(requested) && normalized(author_email) == normalized(requested),
    ensures
        author_matches_spec(s, author_name, author_email),
{
    lemma_dedupe_laws(names);
    lemma_dedupe_laws(emails);
    if names.contains(requested) && normalized(author_name) == normalized(requested) {
        let i = choose|i: int| 0 <= i < names.len() && names[i] == requested;
        assert(!is_blank(names[i]));
        assert(markers(dedupe_spec(names)).contains(normalized(names[i])));
    } else {
        let i = choose|i: int| 0 <= i < emails.len() && emails[i] == requested;
        assert(!is_blank(emails[i]));
        assert(markers(dedupe_spec(emails)).contains(normalized(emails[i])));
    }
}

/// The description of an author filter.
pub open spec fn describe_spec(all: bool, names: Seq<Seq<char>>, emails: Seq<Seq<char>>) -> Seq<char> {
    if all {
        "all authors"@
    } else {
        let name_part = "name="@ + seq_join(names, ", "@);
        let email_part = "email="@ + seq_join(emails, ", "@);
        if names.len() > 0 && emails.len() > 0 {
            name_part + " or "@ + email_part
        } else if names.len() > 0 {
            name_part
        } else if emails.len() > 0 {
            email_part
        } else {
            Seq::empty()
        }
    }
}

/// Return a concise human-readable author filter description.
pub fn describe_author_selection(selection: &AuthorSelection) -> (r: String)
    ensures
        r@ == describe_spec(
            selection.all_authors,
            views(selection.author_names@),
            views(selection.author_emails@),
        ),
{
    if selection.all_authors {
        return string_of("all authors");
    }
    let has_names = selection.author_names.len() > 0;
    let has_emails = selection.author_emails.len() > 0;
    let name_part = concat("name=", join(selection.author_names.as_slice(), ", ").as_str());
    let email_part = concat("email=", join(selection.author_emails.as_slice(), ", ").as_str());
    if has_names && has_emails {
        let mut out = name_part;
        out.append(" or ");
        out.append(email_part.as_str());
        out
    } else if has_names {
        name_part
    } else if has_emails {
        email_part
    } else {
        String::new()
    }
}

/// Whether an author with the given name and email passes a selection.
pub open spec fn author_matches_spec(s: AuthorSelection, name: Seq<char>, email: Seq<char>) -> bool {
    s.all_authors || views(s.normalized_names@).contains(normalized(name)) || views(
        s.normalized_emails@,
    ).contains(normalized(email))
}

/// Check whether an author matches the configured selection.
pub fn author_matches(selection: &AuthorSelection, author_name: &str, author_email: &str) -> (r: bool)
    ensures
        r == author_matches_spec(*selection, author_name@, author_email@),
{
    if selection.all_authors {
        return true;
    }
    let normalized_name = normalize_text(author_name);
    let normalized_email = normalize_text(author_email);
    contains_string(&selection.normalized_names, &normalized_name) || contains_string(
        &selection.normalized_emails,
        &normalized_email,
    )
}

// ---------------------------------------------------------------------------
// Theme
// ---------------------------------------------------------------------------

/// Resolve the requested theme option to a boolean dark-mode flag: `dark`
/// and `light` (in any case) choose directly, `auto` asks `guess_dark_theme`,
/// and anything else means light.
pub fn resolve_dark_mode<F: FnOnce() -> bool>(theme: &str, guess_dark_theme: F) -> (r: bool)
    requires
        call_requires(guess_dark_theme, ()),
    ensures
        unicode_lowercase(theme@) == "dark"@ ==> r,
        unicode_lowercase(theme@) == "light"@ ==> !r,
        unicode_lowercase(theme@) == "auto"@ ==> call_ensures(guess_dark_theme, (), r),
        unicode_lowercase(theme@) != "dark"@ && unicode_lowercase(theme@) != "auto"@ ==> !r,
{
    let lower = to_lowercase(theme);
    proof {
        reveal_strlit("dark");
        reveal_strlit("light");
        reveal_strlit("auto");
        assert("dark"@.len() == 4 && "light"@.len() == 5 && "auto"@.len() == 4);
        assert("dark"@[0] != "auto"@[0]);
        assert("dark"@ != "light"@ && "dark"@ != "auto"@ && "light"@ != "auto"@);
    }
    if str_eq(lower.as_str(), "dark") {
        true
    } else if str_eq(lower.as_str(), "light") {
        false
    } else if str_eq(lower.as_str(), "auto") {
        guess_dark_theme()
    } else {
        false
    }
}

/// The background field of a `COLORFGBG` value: the text after its last `;`.
pub open spec fn colorfgbg_background(value: Seq<char>) -> Seq<char> {
    split_spec(value, ';').last()
}

/// A `COLORFGBG` background index below 8 is one of the dark ANSI colors;
/// a field that is not a `u8` gives no answer.
pub open spec fn colorfgbg_dark_spec(value: Seq<char>) -> Option<bool> {
    match u32_text_value(colorfgbg_background(value)) {
        Some(n) => if n <= 255 {
            Some(n < 8)
        } else {
            None
        },
        None => None,
    }
}

/// Read the dark-theme hint from a `COLORFGBG` value such as `15;0`.
pub fn colorfgbg_dark(value: &str) -> (r: Option<bool>)
    ensures
        r == colorfgbg_dark_spec(value@),
{
    let parts = split_char(value, ';');
    proof {
        lemma_split_nonempty(value@, ';');
    }
    let last = &parts[parts.len() - 1];
    match parse_u32_text(last.as_str()) {
        Some(n) => if n <= 255 {
            Some(n < 8)
        } else {
            None
        },
        None => None,
    }
}

// ---------------------------------------------------------------------------
// Calendar
// ---------------------------------------------------------------------------

/// Whether a year of the proleptic Gregorian calendar is a leap year.
pub open spec fn is_leap_year(year: int) -> bool {
    (year % 4 == 0 && year % 100 != 0) || year % 400 == 0
}

/// The number of days in a month (months outside 1..=12 count 30).
pub open spec fn month_length(year: int, month: int) -> int {
    if month == 1 || month == 3 || month == 5 || month == 7 || month == 8 || month == 10 || month
        == 12 {
        31
    } else if month == 4 || month == 6 || month == 9 || month == 11 {
        30
    } else if month == 2 {
        if is_leap_year(year) {
            29
        } else {
            28
        }
    } else {
        30
    }
}

/// Compute days in a month for a given year.
pub fn days_in_month(year: i32, month: u32) -> (r: u32)
    ensures
        r == month_length(year as int, month as int),
{
    match month {
        1 | 3 | 5 | 7 | 8 | 10 | 12 => 31,
        4 | 6 | 9 | 11 => 30,
        2 => {
            if (year % 4 == 0 && year % 100 != 0) || year % 400 == 0 {
                29
            } else {
                28
            }
        },
        _ => 30,
    }
}

// ---------------------------------------------------------------------------
// The --last window
// ---------------------------------------------------------------------------

/// The units a `--last` window may use.
pub open spec fn is_window_unit(c: char) -> bool {
    c == 'd' || c == 'w' || c == 'm' || c == 'y' || c == 'D' || c == 'W' || c == 'M' || c == 'Y'
}

/// Number of leading ASCII digits of `s`.
pub open spec fn digit_run(s: Seq<char>, i: int) -> int
    decreases s.len() - i,
{
    if 0 <= i < s.len() && crate::scale::is_ascii_digit(s[i]) {
        digit_run(s, i + 1)
    } else {
        i
    }
}

/// The message for a malformed window value.
pub open spec fn invalid_window_message(s: Seq<char>) -> Seq<char> {
    "Invalid --last value: '"@ + s + "'"@
}

/// The message for a window unit outside `dwmy`.
pub open spec fn invalid_unit_message(unit: char) -> Seq<char> {
    "Invalid --last unit: '"@ + seq![unit] + "'"@
}

/// The reading of a `--last` value: trimmed, a run of ASCII digits that fits
/// in a `u32`, then a unit letter; anything may follow the unit letter.
pub open spec fn last_window_spec(value: Seq<char>) -> Result<(u32, char), Seq<char>> {
    let s = trim_spec(value);
    let end = digit_run(s, 0);
    if s.len() < 2 || end == s.len() || end == 0 || crate::scale::digits_value(s.subrange(0, end))
        > u32::MAX {
        Err(invalid_window_message(s))
    } else if !is_window_unit(s[end]) {
        Err(invalid_unit_message(s[end]))
    } else {
        Ok((crate::scale::digits_value(s.subrange(0, end)) as u32, s[end]))
    }
}

proof fn lemma_digit_run_bounds(s: Seq<char>, i: int)
    requires
        0 <= i <= s.len(),
    ensures
        i <= digit_run(s, i) <= s.len(),
        forall|k: int| i <= k < digit_run(s, i) ==> crate::scale::is_ascii_digit(#[trigger] s[k]),
        digit_run(s, i) < s.len() ==> !crate::scale::is_ascii_digit(s[digit_run(s, i)]),
    decreases s.len() - i,
{
    if i < s.len() && crate::scale::is_ascii_digit(s[i]) {
        lemma_digit_run_bounds(s, i + 1);
    }
}

fn quoted_message(prefix: &str, body: &str) -> (r: String)
    ensures
        r@ == prefix@ + body@ + "'"@,
{
    let mut out = concat(prefix, body);
    out.append("'");
    out
}

/// Parse the --last window value.
pub fn parse_last_window(s: &str) -> (r: Result<(u32, char), String>)
    ensures
        match last_window_spec(s@) {
            Ok(v) => r == Ok::<(u32, char), String>(v),
            Err(m) => r is Err && r->Err_0@ == m,
        },
{
    let t = trim(s);
    let chars = crate::strings::chars_of(t);
    let n = chars.len();
    if n < 2 {
        return Err(quoted_message("Invalid --last value: '", t));
    }
    let mut end: usize = 0;
    while end < n && '0' <= chars[end] && chars[end] <= '9'
        invariant
            n == chars@.len(),
            chars@ == t@,
            0 <= end <= n,
            digit_run(t@, 0) == digit_run(t@, end as int),
        decreases n - end,
    {
        end += 1;
    }
    proof {
        lemma_digit_run_bounds(t@, 0);
    }
    if end == n || end == 0 {
        return Err(quoted_message("Invalid --last value: '", t));
    }
    let amount: u32 = match crate::scale::read_number(&chars, 0, end) {
        Some(v) if v <= 4294967295u64 => v as u32,
        _ => {
            return Err(quoted_message("Invalid --last value: '", t));
        },
    };
    let unit = chars[end];
    if !(unit == 'd' || unit == 'w' || unit == 'm' || unit == 'y' || unit == 'D' || unit == 'W'
        || unit == 'M' || unit == 'Y') {
        let mut msg = string_of("Invalid --last unit: '");
        push_char(&mut msg, unit);
        msg.append("'");
        return Err(msg);
    }
    Ok((amount, unit))
}


// ---------------------------------------------------------------------------
// Calendar arithmetic on grid dates
// ---------------------------------------------------------------------------

/// Row of a date in the grid: Sunday is row 0, Saturday row 6.
pub fn day_to_row_index(date: &Date) -> (r: u8)
    requires
        valid_date(*date),
    ensures
        r == weekday_from_sunday(*date),
        r < 7,
{
    let w = weekday_of(*date);
    w as u8
}

/// Return the Sunday on or before the given date.
pub fn sunday_on_or_before(date: Date) -> (r: Date)
    requires
        valid_date(date),
        min_day_number() <= day_number(date) - weekday_from_sunday(date),
    ensures
        valid_date(r),
        day_number(r) == day_number(date) - weekday_from_sunday(date),
        weekday_from_sunday(r) == 0,
{
    let w = weekday_of(date);
    let r = add_days(date, -(w as i64));
    assert((day_number(date) - (day_number(date) + 4) % 7 + 4) % 7 == 0) by {
        let x = day_number(date) + 4;
        assert(x == 7 * (x / 7) + x % 7);
        assert((x - x % 7) % 7 == (7 * (x / 7)) % 7);
        vstd::arithmetic::div_mod::lemma_mod_multiples_basic(x / 7, 7);
    }
    r
}

/// Return the Saturday on or after the given date.
pub fn saturday_on_or_after(date: Date) -> (r: Date)
    requires
        valid_date(date),
        day_number(date) + 6 - weekday_from_sunday(date) <= max_day_number(),
    ensures
        valid_date(r),
        day_number(r) == day_number(date) + 6 - weekday_from_sunday(date),
        weekday_from_sunday(r) == 6,
{
    let w = weekday_of(date);
    let r = add_days(date, (6 - w) as i64);
    assert((day_number(date) + 6 - (day_number(date) + 4) % 7 + 4) % 7 == 6) by {
        let x = day_number(date) + 4;
        assert(x == 7 * (x / 7) + x % 7);
        vstd::arithmetic::div_mod::lemma_mod_multiples_basic(x / 7, 7);
        vstd::arithmetic::div_mod::lemma_fundamental_div_mod_converse(
            7 * (x / 7) + 6,
            7,
            x / 7,
            6,
        );
    }
    r
}

/// Division by twelve rounding toward zero, as `i32` division does.
pub open spec fn div12_toward_zero(x: int) -> int {
    if x >= 0 {
        x / 12
    } else {
        -((-x) / 12)
    }
}

/// Months since year 0 of a date shifted by `months`.
pub open spec fn month_index(d: Date, months: int) -> int {
    d.year * 12 + (d.month - 1) + months
}

/// The date `months` calendar months away, with the day clamped to the
/// length of the target month; the year is the month index divided by
/// twelve toward zero.
pub open spec fn shifted_by_months(d: Date, months: int) -> Date {
    let mi = month_index(d, months);
    let year = div12_toward_zero(mi);
    let month = mi % 12 + 1;
    let max_day = month_length(year, month);
    Date {
        year: year as i32,
        month: month as u32,
        day: if d.day <= max_day {
            d.day
        } else {
            max_day as u32
        },
    }
}

/// Whether a month shift stays within `i32` month indices and representable years.
pub open spec fn month_shift_ok(d: Date, months: int) -> bool {
    &&& i32::MIN <= month_index(d, months) <= i32::MAX
    &&& min_year() <= div12_toward_zero(month_index(d, months)) <= max_year()
}

/// Shift a date by a calendar-month delta.
pub fn shift_date_by_months(date: &Date, months: i32) -> (r: Date)
    requires
        valid_date(*date),
        month_shift_ok(*date, months as int),
    ensures
        r == shifted_by_months(*date, months as int),
        valid_date(r),
{
    let month_index: i32 = (date.year * 12) + (date.month as i32 - 1) + months;
    let year: i32 = if month_index >= 0 {
        month_index / 12
    } else {
        -((-month_index) / 12)
    };
    let m: i32 = if month_index >= 0 {
        month_index % 12
    } else {
        let rem: i32 = (-month_index) % 12;
        if rem == 0 {
            0
        } else {
            12 - rem
        }
    };
    proof {
        let mi = month_index as int;
        if mi < 0 {
            let q = (-mi) / 12;
            let rem = (-mi) % 12;
            assert(-mi == 12 * q + rem);
            if rem == 0 {
                vstd::arithmetic::div_mod::lemma_fundamental_div_mod_converse(mi, 12, -q, 0);
            } else {
                vstd::arithmetic::div_mod::lemma_fundamental_div_mod_converse(
                    mi,
                    12,
                    -q - 1,
                    12 - rem,
                );
            }
        }
    }
    let month: u32 = (m + 1) as u32;
    let max_day = days_in_month(year, month);
    let day = if date.day <= max_day {
        date.day
    } else {
        max_day
    };
    Date { year, month, day }
}

/// A date with a time of day.
#[derive(Clone, Copy, Debug, PartialEq, Eq, Structural)]
pub struct DateTime {
    pub date: Date,
    pub hour: u32,
    pub minute: u32,
    pub second: u32,
}

/// A representable date and a time of day in whole seconds.
pub open spec fn valid_date_time(t: DateTime) -> bool {
    valid_date(t.date) && t.hour < 24 && t.minute < 60 && t.second < 60
}

/// Midnight of a date.
pub open spec fn midnight(d: Date) -> DateTime {
    DateTime { date: d, hour: 0, minute: 0, second: 0 }
}

/// The month delta that a `--last` amount in months or years stands for:
/// the amount is converted to `i32` as the `as` cast does and negated.
pub open spec fn months_back(amount: u32, unit: char) -> int {
    if ascii_lower_char(unit) == 'm' {
        -((amount as i32) as int)
    } else {
        -(((amount * 12) as i32) as int)
    }
}

/// Whether shifting back by the window stays within the representable
/// dates (and the arithmetic on the way does not overflow).
pub open spec fn shift_back_in_range(t: DateTime, amount: u32, unit: char) -> bool {
    let u = ascii_lower_char(unit);
    if u == 'd' {
        min_day_number() <= day_number(t.date) - amount
    } else if u == 'w' {
        min_day_number() <= day_number(t.date) - 7 * amount
    } else if u == 'm' {
        (amount as i32) != i32::MIN && month_shift_ok(t.date, months_back(amount, unit))
    } else if u == 'y' {
        &&& amount * 12 <= u32::MAX
        &&& ((amount * 12) as i32) != i32::MIN
        &&& month_shift_ok(t.date, months_back(amount, unit))
    } else {
        true
    }
}

/// The message for a window unit outside `dwmy` when shifting.
pub open spec fn bad_shift_unit_message(unit: char) -> Seq<char> {
    "Invalid --last unit: "@ + seq![unit]
}

/// `r` is `t` moved back by the window: by days or weeks through the
/// date library, by calendar months for months and years; the time of day
/// stays.
pub open spec fn is_shifted_back(t: DateTime, amount: u32, unit: char, r: DateTime) -> bool {
    let u = ascii_lower_char(unit);
    if u == 'd' || u == 'w' {
        let days = if u == 'd' {
            amount as int
        } else {
            7 * amount
        };
        &&& valid_date(r.date)
        &&& day_number(r.date) == day_number(t.date) - days
        &&& r.hour == t.hour
        &&& r.minute == t.minute
        &&& r.second == t.second
    } else {
        r == DateTime { date: shifted_by_months(t.date, months_back(amount, unit)), ..t }
    }
}

/// Whether a unit letter names days, weeks, months or years.
pub open spec fn is_shift_unit(unit: char) -> bool {
    let u = ascii_lower_char(unit);
    u == 'd' || u == 'w' || u == 'm' || u == 'y'
}

/// Shift a datetime backward by the requested amount of days, weeks, months
/// or years; the time of day is kept.
pub fn shift_datetime_back(dt: &DateTime, amount: u32, unit: char) -> (r: Result<DateTime, String>)
    requires
        valid_date_time(*dt),
        shift_back_in_range(*dt, amount, unit),
    ensures
        is_shift_unit(unit) ==> (r matches Ok(t) && is_shifted_back(*dt, amount, unit, t)),
        !is_shift_unit(unit) ==> (r is Err && r->Err_0@ == bad_shift_unit_message(unit)),
        r matches Ok(t) ==> valid_date_time(t),
{
    let u = char_to_ascii_lowercase(unit);
    if u == 'd' {
        let date = add_days(dt.date, -(amount as i64));
        Ok(DateTime { date, ..*dt })
    } else if u == 'w' {
        let date = add_days(dt.date, -(amount as i64) * 7);
        Ok(DateTime { date, ..*dt })
    } else if u == 'm' {
        let months: i32 = -(amount as i32);
        let date = shift_date_by_months(&dt.date, months);
        Ok(DateTime { date, ..*dt })
    } else if u == 'y' {
        let months: i32 = -((amount * 12) as i32);
        let date = shift_date_by_months(&dt.date, months);
        Ok(DateTime { date, ..*dt })
    } else {
        let mut msg = string_of("Invalid --last unit: ");
        push_char(&mut msg, unit);
        Err(msg)
    }
}

/// Whether a month shift is in range, computed.
fn month_shift_representable(d: &Date, months: i32) -> (r: bool)
    requires
        valid_date(*d),
    ensures
        r == month_shift_ok(*d, months as int),
{
    let mi: i64 = (d.year as i64) * 12 + (d.month as i64 - 1) + months as i64;
    if mi < -2147483648i64 || mi > 2147483647i64 {
        return false;
    }
    let year: i64 = if mi >= 0 {
        mi / 12
    } else {
        -((-mi) / 12)
    };
    -262143i64 <= year && year <= 262142i64
}

/// Whether `shift_datetime_back` can shift `dt` by the window: the result
/// and every step on the way are representable.
pub fn shift_back_representable(dt: &DateTime, amount: u32, unit: char) -> (r: bool)
    requires
        valid_date_time(*dt),
    ensures
        r == shift_back_in_range(*dt, amount, unit),
{
    let u = char_to_ascii_lowercase(unit);
    if u == 'd' || u == 'w' {
        let first = Date { year: -262143, month: 1, day: 1 };
        let lowest = day_number_of(first);
        let dn = day_number_of(dt.date);
        let days: i64 = if u == 'd' {
            amount as i64
        } else {
            amount as i64 * 7
        };
        lowest <= dn - days
    } else if u == 'm' {
        let a = amount as i32;
        if a == i32::MIN {
            return false;
        }
        month_shift_representable(&dt.date, -a)
    } else if u == 'y' {
        if amount > 357913941 {
            return false;
        }
        let a = (amount * 12) as i32;
        if a == i32::MIN {
            return false;
        }
        month_shift_representable(&dt.date, -a)
    } else {
        true
    }
}

/// The text of a section label: full dates when exact, else the years.
pub open spec fn section_label_text(start: Date, end: Date, exact: bool) -> Seq<char> {
    if exact {
        ymd_text(start) + " - "@ + ymd_text(end)
    } else {
        year_text(start.year as int) + " - "@ + year_text(end.year as int)
    }
}

/// Format a section label for the hitmap.
pub fn format_section_label(start: &Date, end: &Date, exact: bool) -> (r: String)
    requires
        valid_date(*start),
        valid_date(*end),
    ensures
        r@ == section_label_text(*start, *end, exact),
{
    let (a, b) = if exact {
        (format_ymd(*start), format_ymd(*end))
    } else {
        (format_year(*start), format_year(*end))
    };
    let mut out = a;
    out.append(" - ");
    out.append(b.as_str());
    out
}

} // verus!
