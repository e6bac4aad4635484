//! Authors command: option values, search, sorting and output rows.

use vstd::prelude::*;

use crate::common::AuthorSummary;
use crate::config::HitmapConfig;
use crate::git::{lemma_lex_le_total, lemma_lex_le_transitive, lex_le, lex_le_exec};
use crate::strings::{
    ascii_lower, chars_of, contains_seq, contains_str, decimal, join, u64_to_string, lower_trimmed, seq_join, str_eq, string_of,
    to_lowercase, trim_spec, unicode_lowercase, views,
};

verus! {

/// Field to sort author rows by.
#[derive(Clone, Copy, Debug, PartialEq, Eq, Structural)]
pub enum AuthorSortBy {
    Commits,
    Name,
    Email,
}

impl AuthorSortBy {
    /// The option spelling of the field.
    pub fn as_str(&self) -> (r: &'static str)
        ensures
            r@ == match self {
                AuthorSortBy::Commits => "commits"@,
                AuthorSortBy::Name => "name"@,
                AuthorSortBy::Email => "email"@,
            },
    {
        match self {
            AuthorSortBy::Commits => "commits",
            AuthorSortBy::Name => "name",
            AuthorSortBy::Email => "email",
        }
    }
}

/// Sort direction.
#[derive(Clone, Copy, Debug, PartialEq, Eq, Structural)]
pub enum SortOrder {
    Asc,
    Desc,
}

/// Identity grouping mode.
#[derive(Clone, Copy, Debug, PartialEq, Eq, Structural)]
pub enum GroupBy {
    Pair,
    Name,
    Email,
}

impl GroupBy {
    /// The option spelling of the grouping.
    pub fn as_str(&self) -> (r: &'static str)
        ensures
            r@ == match self {
                GroupBy::Pair => "pair"@,
                GroupBy::Name => "name"@,
                GroupBy::Email => "email"@,
            },
    {
        match self {
            GroupBy::Pair => "pair",
            GroupBy::Name => "name",
            GroupBy::Email => "email",
        }
    }
}

/// Output format of the authors command.
#[derive(Clone, Copy, Debug, PartialEq, Eq, Structural)]
pub enum OutputFormat {
    Table,
    Json,
    Tsv,
}

impl OutputFormat {
    /// The option spelling of the format.
    pub fn as_str(&self) -> (r: &'static str)
        ensures
            r@ == match self {
                OutputFormat::Table => "table"@,
                OutputFormat::Json => "json"@,
                OutputFormat::Tsv => "tsv"@,
            },
    {
        match self {
            OutputFormat::Table => "table",
            OutputFormat::Json => "json",
            OutputFormat::Tsv => "tsv",
        }
    }
}

pub const DEFAULT_OUTPUT_FORMAT: OutputFormat = OutputFormat::Table;

/// Arguments of the authors command.
#[derive(Debug, Clone)]
pub struct AuthorsArgs {
    pub repo_path: String,
    pub sort: AuthorSortBy,
    pub order: Option<SortOrder>,
    pub group_by: GroupBy,
    pub search: Option<String>,
    pub limit: Option<u32>,
    pub output_format: Option<OutputFormat>,
}

pub const OUTPUT_FORMAT_ERROR: &'static str = "Authors output format must be one of: table, json, tsv";

/// The format an option value names, compared trimmed and ignoring ASCII case.
pub open spec fn output_format_spec(value: Seq<char>) -> Option<OutputFormat> {
    let v = ascii_lower(trim_spec(value));
    if v == "table"@ {
        Some(OutputFormat::Table)
    } else if v == "json"@ {
        Some(OutputFormat::Json)
    } else if v == "tsv"@ {
        Some(OutputFormat::Tsv)
    } else {
        None
    }
}

pub fn parse_output_format_name(value: &str) -> (r: Result<OutputFormat, String>)
    ensures
        match output_format_spec(value@) {
            Some(f) => r == Ok::<OutputFormat, String>(f),
            None => r is Err && r->Err_0@ == OUTPUT_FORMAT_ERROR@,
        },
{
    let v = lower_trimmed(value);
    if str_eq(v.as_str(), "table") {
        Ok(OutputFormat::Table)
    } else if str_eq(v.as_str(), "json") {
        Ok(OutputFormat::Json)
    } else if str_eq(v.as_str(), "tsv") {
        Ok(OutputFormat::Tsv)
    } else {
        Err(string_of(OUTPUT_FORMAT_ERROR))
    }
}

/// The effective sort direction: an explicit order wins; otherwise commits
/// sort descending and everything else ascending.
pub open spec fn sort_order_spec(sort_by: Seq<char>, order: Option<SortOrder>) -> Seq<char> {
    match order {
        Some(SortOrder::Asc) => "asc"@,
        Some(SortOrder::Desc) => "desc"@,
        None => if sort_by == "commits"@ || sort_by == "Commits"@ {
            "desc"@
        } else {
            "asc"@
        },
    }
}

/// Resolve the effective sort order.
pub fn resolved_sort_order(sort_by: &str, order: Option<&SortOrder>) -> (r: String)
    ensures
        r@ == sort_order_spec(
            sort_by@,
            match order {
                Some(o) => Some(*o),
                None => None,
            },
        ),
{
    match order {
        Some(SortOrder::Asc) => string_of("asc"),
        Some(SortOrder::Desc) => string_of("desc"),
        None => if str_eq(sort_by, "commits") || str_eq(sort_by, "Commits") {
            string_of("desc")
        } else {
            string_of("asc")
        },
    }
}

/// Summarize a list of values into a comma-separated string.
pub fn summarize_values(values: &[String]) -> (r: String)
    ensures
        r@ == seq_join(views(values@), ", "@),
{
    join(values, ", ")
}

/// Whether `term` occurs, ignoring case, in any name or email of a summary.
pub open spec fn summary_matches_spec(s: AuthorSummary, term: Option<Seq<char>>) -> bool {
    match term {
        None => true,
        Some(t) => {
            let lt = unicode_lowercase(t);
            ||| contains_seq(unicode_lowercase(s.primary_name@), lt)
            ||| contains_seq(unicode_lowercase(s.primary_email@), lt)
            ||| exists|i: int|
                0 <= i < s.names@.len() && contains_seq(unicode_lowercase(#[trigger] s.names@[i]@), lt)
            ||| exists|i: int|
                0 <= i < s.emails@.len() && contains_seq(unicode_lowercase(#[trigger] s.emails@[i]@), lt)
        },
    }
}

fn any_contains_lowercase(values: &Vec<String>, term_lower: &str) -> (r: bool)
    ensures
        r == exists|i: int|
            0 <= i < values@.len() && contains_seq(unicode_lowercase(#[trigger] values@[i]@), term_lower@),
{
    let n = values.len();
    let mut i: usize = 0;
    while i < n
        invariant
            n == values@.len(),
            0 <= i <= n,
            forall|k: int| 0 <= k < i ==> !contains_seq(unicode_lowercase(#[trigger] values@[k]@), term_lower@),
        decreases n - i,
    {
        let lower = to_lowercase(values[i].as_str());
        if contains_str(lower.as_str(), term_lower) {
            return true;
        }
        i += 1;
    }
    false
}

/// Check if an author summary matches a search term.
pub fn summary_matches_search(summary: &AuthorSummary, search_term: Option<&str>) -> (r: bool)
    ensures
        r == summary_matches_spec(
            *summary,
            match search_term {
                Some(t) => Some(t@),
                None => None,
            },
        ),
{
    match search_term {
        None => true,
        Some(term) => {
            let term_lower = to_lowercase(term);
            let name_lower = to_lowercase(summary.primary_name.as_str());
            let email_lower = to_lowercase(summary.primary_email.as_str());
            contains_str(name_lower.as_str(), term_lower.as_str()) || contains_str(
                email_lower.as_str(),
                term_lower.as_str(),
            ) || any_contains_lowercase(&summary.names, term_lower.as_str())
                || any_contains_lowercase(&summary.emails, term_lower.as_str())
        },
    }
}

// ---------------------------------------------------------------------------
// Rows
// ---------------------------------------------------------------------------

/// The output format: the flag, else the config file's, else the default.
pub fn resolve_output_format(flag: Option<OutputFormat>, config: &HitmapConfig) -> (r: Result<
    OutputFormat,
    String,
>)
    ensures
        match flag {
            Some(f) => r == Ok::<OutputFormat, String>(f),
            None => match config@.authors {
                Some(Some(v)) => match output_format_spec(v) {
                    Some(f) => r == Ok::<OutputFormat, String>(f),
                    None => r is Err && r->Err_0@ == OUTPUT_FORMAT_ERROR@,
                },
                _ => r == Ok::<OutputFormat, String>(DEFAULT_OUTPUT_FORMAT),
            },
        },
{
    if let Some(format) = flag {
        return Ok(format);
    }
    match &config.authors {
        Some(a) => match &a.output_format {
            Some(v) => parse_output_format_name(v.as_str()),
            None => Ok(DEFAULT_OUTPUT_FORMAT),
        },
        None => Ok(DEFAULT_OUTPUT_FORMAT),
    }
}

/// Whether row `a` may stand before row `b`: by commits, name or email, in
/// the given direction (`String` order compares code points).
pub open spec fn row_le(sort: AuthorSortBy, desc: bool, a: AuthorSummary, b: AuthorSummary) -> bool {
    match sort {
        AuthorSortBy::Commits => if desc {
            a.commits >= b.commits
        } else {
            a.commits <= b.commits
        },
        AuthorSortBy::Name => if desc {
            lex_le(b.primary_name@, a.primary_name@)
        } else {
            lex_le(a.primary_name@, b.primary_name@)
        },
        AuthorSortBy::Email => if desc {
            lex_le(b.primary_email@, a.primary_email@)
        } else {
            lex_le(a.primary_email@, b.primary_email@)
        },
    }
}

/// `x` inserted into sorted rows after every row that may stand before it.
pub open spec fn insert_row(sorted: Seq<AuthorSummary>, x: AuthorSummary, sort: AuthorSortBy, desc: bool) -> Seq<
    AuthorSummary,
>
    decreases sorted.len(),
{
    if sorted.len() == 0 {
        seq![x]
    } else if row_le(sort, desc, sorted.last(), x) {
        sorted.push(x)
    } else {
        insert_row(sorted.drop_last(), x, sort, desc).push(sorted.last())
    }
}

/// The stable sort of rows by a field and direction.
pub open spec fn sort_rows(rows: Seq<AuthorSummary>, sort: AuthorSortBy, desc: bool) -> Seq<
    AuthorSummary,
>
    decreases rows.len(),
{
    if rows.len() == 0 {
        seq![]
    } else {
        insert_row(sort_rows(rows.drop_last(), sort, desc), rows.last(), sort, desc)
    }
}

/// Every row may stand before every row after it.
pub open spec fn rows_ordered(rows: Seq<AuthorSummary>, sort: AuthorSortBy, desc: bool) -> bool {
    forall|i: int, j: int|
        0 <= i < j < rows.len() ==> row_le(sort, desc, #[trigger] rows[i], #[trigger] rows[j])
}

proof fn lemma_row_le_total(sort: AuthorSortBy, desc: bool, a: AuthorSummary, b: AuthorSummary)
    ensures
        row_le(sort, desc, a, b) || row_le(sort, desc, b, a),
{
    lemma_lex_le_total(a.primary_name@, b.primary_name@);
    lemma_lex_le_total(a.primary_email@, b.primary_email@);
}

proof fn lemma_row_le_transitive(
    sort: AuthorSortBy,
    desc: bool,
    a: AuthorSummary,
    b: AuthorSummary,
    c: AuthorSummary,
)
    requires
        row_le(sort, desc, a, b),
        row_le(sort, desc, b, c),
    ensures
        row_le(sort, desc, a, c),
{
    match sort {
        AuthorSortBy::Commits => {},
        AuthorSortBy::Name => if desc {
            lemma_lex_le_transitive(c.primary_name@, b.primary_name@, a.primary_name@);
        } else {
            lemma_lex_le_transitive(a.primary_name@, b.primary_name@, c.primary_name@);
        },
        AuthorSortBy::Email => if desc {
            lemma_lex_le_transitive(c.primary_email@, b.primary_email@, a.primary_email@);
        } else {
            lemma_lex_le_transitive(a.primary_email@, b.primary_email@, c.primary_email@);
        },
    }
}

proof fn lemma_insert_row_sorted(s: Seq<AuthorSummary>, x: AuthorSummary, sort: AuthorSortBy, desc: bool)
    requires
        rows_ordered(s, sort, desc),
    ensures
        rows_ordered(insert_row(s, x, sort, desc), sort, desc),
        insert_row(s, x, sort, desc).len() == s.len() + 1,
        forall|y: AuthorSummary| #[trigger] insert_row(s, x, sort, desc).contains(y) ==> s.contains(y)
            || y == x,
    decreases s.len(),
{
    let r = insert_row(s, x, sort, desc);
    if s.len() == 0 {
        assert(r =~= seq![x]);
    } else if row_le(sort, desc, s.last(), x) {
        assert(r == s.push(x));
        assert forall|i: int, j: int| 0 <= i < j < r.len() implies row_le(
            sort,
            desc,
            #[trigger] r[i],
            #[trigger] r[j],
        ) by {
            if j == s.len() && i < s.len() - 1 {
                lemma_row_le_transitive(sort, desc, s[i], s.last(), x);
            }
        }
        assert forall|y: AuthorSummary| #[trigger] r.contains(y) implies s.contains(y) || y == x by {
            let k = choose|k: int| 0 <= k < r.len() && r[k] == y;
            if k < s.len() {
                assert(s[k] == y);
            }
        }
    } else {
        let d = s.drop_last();
        lemma_insert_row_sorted(d, x, sort, desc);
        let inner = insert_row(d, x, sort, desc);
        assert(r == inner.push(s.last()));
        lemma_row_le_total(sort, desc, s.last(), x);
        assert forall|i: int, j: int| 0 <= i < j < r.len() implies row_le(
            sort,
            desc,
            #[trigger] r[i],
            #[trigger] r[j],
        ) by {
            if j == inner.len() {
                assert(inner.contains(r[i]));
                if r[i] != x {
                    let k = choose|k: int| 0 <= k < d.len() && d[k] == r[i];
                    assert(s[k] == d[k]);
                }
            } else {
                assert(r[i] == inner[i] && r[j] == inner[j]);
            }
        }
        assert forall|y: AuthorSummary| #[trigger] r.contains(y) implies s.contains(y) || y == x by {
            let k = choose|k: int| 0 <= k < r.len() && r[k] == y;
            if k < inner.len() {
                assert(inner.contains(y));
                if y != x {
                    let m = choose|m: int| 0 <= m < d.len() && d[m] == y;
                    assert(s[m] == y);
                }
            } else {
                assert(s[s.len() - 1] == y);
            }
        }
    }
}

/// Sorting rows orders them: every row may stand before every row after it
/// (by commits, or in lexicographic code-point order of names or emails, in
/// the chosen direction), and no row is added or lost.
pub proof fn law_sort_rows_ordered(rows: Seq<AuthorSummary>, sort: AuthorSortBy, desc: bool)
    ensures
        rows_ordered(sort_rows(rows, sort, desc), sort, desc),
        sort_rows(rows, sort, desc).len() == rows.len(),
        forall|y: AuthorSummary| #[trigger] sort_rows(rows, sort, desc).contains(y) ==> rows.contains(y),
    decreases rows.len(),
{
    if rows.len() > 0 {
        let d = rows.drop_last();
        law_sort_rows_ordered(d, sort, desc);
        lemma_insert_row_sorted(sort_rows(d, sort, desc), rows.last(), sort, desc);
        assert forall|y: AuthorSummary| #[trigger] sort_rows(rows, sort, desc).contains(y) implies rows.contains(y) by {
            if y != rows.last() {
                assert(sort_rows(d, sort, desc).contains(y));
                let m = choose|m: int| 0 <= m < d.len() && d[m] == y;
                assert(rows[m] == y);
            } else {
                assert(rows[rows.len() - 1] == y);
            }
        }
    }
}

/// The rows that match the search, in order.
pub open spec fn search_rows(rows: Seq<AuthorSummary>, term: Option<Seq<char>>) -> Seq<AuthorSummary>
    decreases rows.len(),
{
    if rows.len() == 0 {
        seq![]
    } else {
        let prev = search_rows(rows.drop_last(), term);
        if summary_matches_spec(rows.last(), term) {
            prev.push(rows.last())
        } else {
            prev
        }
    }
}

/// The rows shown: those matching the search, stably sorted, and cut to
/// the limit.
pub open spec fn selected_rows(
    rows: Seq<AuthorSummary>,
    term: Option<Seq<char>>,
    sort: AuthorSortBy,
    order: Option<SortOrder>,
    limit: Option<u32>,
) -> Seq<AuthorSummary> {
    let desc = sort_order_spec(sort_name(sort), order) == "desc"@;
    let sorted = sort_rows(search_rows(rows, term), sort, desc);
    match limit {
        Some(l) => if l < sorted.len() {
            sorted.take(l as int)
        } else {
            sorted
        },
        None => sorted,
    }
}

/// The rows shown are in order: each may stand before every row after it,
/// in the effective direction of the chosen field.
pub proof fn law_selected_rows_ordered(
    rows: Seq<AuthorSummary>,
    term: Option<Seq<char>>,
    sort: AuthorSortBy,
    order: Option<SortOrder>,
    limit: Option<u32>,
)
    ensures
        rows_ordered(
            selected_rows(rows, term, sort, order, limit),
            sort,
            sort_order_spec(sort_name(sort), order) == "desc"@,
        ),
{
    let desc = sort_order_spec(sort_name(sort), order) == "desc"@;
    let sorted = sort_rows(search_rows(rows, term), sort, desc);
    law_sort_rows_ordered(search_rows(rows, term), sort, desc);
    let shown = selected_rows(rows, term, sort, order, limit);
    assert forall|i: int, j: int| 0 <= i < j < shown.len() implies row_le(
        sort,
        desc,
        #[trigger] shown[i],
        #[trigger] shown[j],
    ) by {
        assert(shown[i] == sorted[i] && shown[j] == sorted[j]);
    }
}

/// The option spelling of a sort field.
pub open spec fn sort_name(sort: AuthorSortBy) -> Seq<char> {
    match sort {
        AuthorSortBy::Commits => "commits"@,
        AuthorSortBy::Name => "name"@,
        AuthorSortBy::Email => "email"@,
    }
}

fn row_le_exec(sort: AuthorSortBy, desc: bool, a: &AuthorSummary, b: &AuthorSummary) -> (r: bool)
    ensures
        r == row_le(sort, desc, *a, *b),
{
    match sort {
        AuthorSortBy::Commits => if desc {
            a.commits >= b.commits
        } else {
            a.commits <= b.commits
        },
        AuthorSortBy::Name => {
            let an = chars_of(a.primary_name.as_str());
            let bn = chars_of(b.primary_name.as_str());
            if desc {
                lex_le_exec(&bn, &an)
            } else {
                lex_le_exec(&an, &bn)
            }
        },
        AuthorSortBy::Email => {
            let ae = chars_of(a.primary_email.as_str());
            let be = chars_of(b.primary_email.as_str());
            if desc {
                lex_le_exec(&be, &ae)
            } else {
                lex_le_exec(&ae, &be)
            }
        },
    }
}

proof fn lemma_insert_row_at(
    s: Seq<AuthorSummary>,
    x: AuthorSummary,
    sort: AuthorSortBy,
    desc: bool,
    j: int,
)
    requires
        0 <= j <= s.len(),
        forall|k: int| j <= k < s.len() ==> !row_le(sort, desc, #[trigger] s[k], x),
        j > 0 ==> row_le(sort, desc, s[j - 1], x),
    ensures
        insert_row(s, x, sort, desc) == s.insert(j, x),
    decreases s.len(),
{
    if s.len() == 0 {
        assert(s.insert(j, x) =~= seq![x]);
    } else if j == s.len() {
        assert(s.insert(j, x) =~= s.push(x));
    } else {
        lemma_insert_row_at(s.drop_last(), x, sort, desc, j);
        assert(s.insert(j, x) =~= s.drop_last().insert(j, x).push(s.last()));
    }
}

/// Choose the rows to show: keep those matching the search, sort them
/// stably by the field in the effective direction, and cut to the limit.
pub fn select_author_rows(
    summaries: Vec<AuthorSummary>,
    search: Option<&str>,
    sort: AuthorSortBy,
    order: Option<SortOrder>,
    limit: Option<u32>,
) -> (r: Vec<AuthorSummary>)
    ensures
        r@ == selected_rows(
            summaries@,
            match search {
                Some(t) => Some(t@),
                None => None,
            },
            sort,
            order,
            limit,
        ),
{
    let ghost term = match search {
        Some(t) => Some(t@),
        None => None::<Seq<char>>,
    };
    let mut filtered: Vec<AuthorSummary> = Vec::new();
    let mut rest = summaries;
    let ghost all = rest@;
    let mut taken: Vec<AuthorSummary> = Vec::new();
    let n = rest.len();
    let mut i: usize = 0;
    assert(rest@ =~= all.subrange(0, n as int));
    while i < n
        invariant
            n == all.len(),
            0 <= i <= n,
            rest@ == all.subrange(i as int, n as int),
            filtered@ == search_rows(all.take(i as int), term),
            term == match search {
                Some(t) => Some(t@),
                None => None::<Seq<char>>,
            },
        decreases n - i,
    {
        let row = rest.remove(0);
        proof {
            assert(rest@ =~= all.subrange(i + 1, n as int));
            assert(all.take(i + 1).drop_last() =~= all.take(i as int));
            assert(all.take(i + 1).last() == all[i as int]);
        }
        if summary_matches_search(&row, search) {
            filtered.push(row);
        }
        i += 1;
    }
    assert(all.take(n as int) =~= all);
    let desc = match order {
        Some(SortOrder::Asc) => false,
        Some(SortOrder::Desc) => true,
        None => match sort {
            AuthorSortBy::Commits => true,
            _ => false,
        },
    };
    proof {
        reveal_strlit("commits");
        reveal_strlit("Commits");
        reveal_strlit("name");
        reveal_strlit("email");
        reveal_strlit("asc");
        reveal_strlit("desc");
        assert("asc"@.len() == 3 && "desc"@.len() == 4);
        assert("name"@.len() == 4 && "email"@.len() == 5 && "commits"@.len() == 7);
        assert("Commits"@.len() == 7 && "Commits"@[0] == 'C' && "name"@ != "Commits"@);
        assert(desc == (sort_order_spec(sort_name(sort), order) == "desc"@));
    }
    let ghost fv = filtered@;
    let mut sorted: Vec<AuthorSummary> = Vec::new();
    let m = filtered.len();
    assert(filtered@ =~= fv.subrange(0, m as int));
    let mut k: usize = 0;
    while k < m
        invariant
            m == fv.len(),
            0 <= k <= m,
            filtered@ == fv.subrange(k as int, m as int),
            sorted@ == sort_rows(fv.take(k as int), sort, desc),
        decreases m - k,
    {
        let x = filtered.remove(0);
        proof {
            assert(filtered@ =~= fv.subrange(k + 1, m as int));
            assert(fv.take(k + 1).drop_last() =~= fv.take(k as int));
            assert(fv.take(k + 1).last() == fv[k as int]);
        }
        let ghost sv = sorted@;
        let mut j: usize = sorted.len();
        while j > 0 && !row_le_exec(sort, desc, &sorted[j - 1], &x)
            invariant
                0 <= j <= sorted@.len(),
                sv == sorted@,
                forall|q: int| j <= q < sv.len() ==> !row_le(sort, desc, #[trigger] sv[q], x),
            decreases j,
        {
            j -= 1;
        }
        proof {
            lemma_insert_row_at(sv, x, sort, desc, j as int);
        }
        sorted.insert(j, x);
        k += 1;
    }
    assert(fv.take(m as int) =~= fv);
    match limit {
        Some(l) => {
            let lim = l as usize;
            if lim < sorted.len() {
                sorted.truncate(lim);
            }
            sorted
        },
        None => sorted,
    }
}

/// The header line of the TSV output.
pub const TSV_HEADER: &'static str =
    "repo\tsort\torder\tgroup_by\tcommits\tprimary_name\tprimary_email\tnames\temails";

/// One TSV line of a row.
pub open spec fn tsv_row(
    repo: Seq<char>,
    sort: Seq<char>,
    order: Seq<char>,
    group_by: Seq<char>,
    s: AuthorSummary,
) -> Seq<char> {
    seq_join(
        seq![
            repo,
            sort,
            order,
            group_by,
            decimal(s.commits as nat),
            s.primary_name@,
            s.primary_email@,
            seq_join(views(s.names@), ", "@),
            seq_join(views(s.emails@), ", "@),
        ],
        "\t"@,
    )
}

/// The lines of the TSV output: the header, then one line per row.
pub fn tsv_lines(summaries: &[AuthorSummary], args: &AuthorsArgs) -> (r: Vec<String>)
    ensures
        r@.len() == summaries@.len() + 1,
        r@[0]@ == TSV_HEADER@,
        forall|i: int|
            0 <= i < summaries@.len() ==> (#[trigger] r@[i + 1])@ == tsv_row(
                args.repo_path@,
                sort_name(args.sort),
                sort_order_spec(sort_name(args.sort), args.order),
                group_name(args.group_by),
                summaries@[i],
            ),
{
    let mut lines: Vec<String> = Vec::new();
    lines.push(string_of(TSV_HEADER));
    let sort = args.sort.as_str();
    let order = resolved_sort_order(sort, args.order.as_ref());
    let group = args.group_by.as_str();
    let mut i: usize = 0;
    while i < summaries.len()
        invariant
            0 <= i <= summaries@.len(),
            lines@.len() == i + 1,
            lines@[0]@ == TSV_HEADER@,
            sort@ == sort_name(args.sort),
            order@ == sort_order_spec(sort_name(args.sort), args.order),
            group@ == group_name(args.group_by),
            forall|k: int|
                0 <= k < i ==> (#[trigger] lines@[k + 1])@ == tsv_row(
                    args.repo_path@,
                    sort_name(args.sort),
                    sort_order_spec(sort_name(args.sort), args.order),
                    group_name(args.group_by),
                    summaries@[k],
                ),
        decreases summaries@.len() - i,
    {
        let s = &summaries[i];
        let mut fields: Vec<String> = Vec::new();
        fields.push(args.repo_path.clone());
        fields.push(string_of(sort));
        fields.push(order.clone());
        fields.push(string_of(group));
        fields.push(u64_to_string(s.commits));
        fields.push(s.primary_name.clone());
        fields.push(s.primary_email.clone());
        fields.push(summarize_values(s.names.as_slice()));
        fields.push(summarize_values(s.emails.as_slice()));
        let line = join(fields.as_slice(), "\t");
        proof {
            assert(views(fields@) =~= seq![
                args.repo_path@,
                sort_name(args.sort),
                sort_order_spec(sort_name(args.sort), args.order),
                group_name(args.group_by),
                decimal(s.commits as nat),
                s.primary_name@,
                s.primary_email@,
                seq_join(views(s.names@), ", "@),
                seq_join(views(s.emails@), ", "@),
            ]);
        }
        lines.push(line);
        i += 1;
    }
    lines
}

/// The option spelling of a grouping.
pub open spec fn group_name(g: GroupBy) -> Seq<char> {
    match g {
        GroupBy::Pair => "pair"@,
        GroupBy::Name => "name"@,
        GroupBy::Email => "email"@,
    }
}

} // verus!
