//! Commit logs: reading the output of `git log`, counting commits per day and
//! grouping author identities.

use std::collections::HashMap;
use vstd::prelude::*;

use crate::common::{
    author_matches, author_matches_spec, normalize_text, normalized, AuthorSelection,
    AuthorSummary,
};
use crate::dates::{
    day_number, day_number_of, dmy_text, format_dmy, lemma_next_date_valid, max_day_number,
    next_date, parse_ymd, parsed_ymd, succ_date, valid_date, Date,
};
use crate::strings::{
    chars_of, push_char, str_eq, string_of, to_lowercase, trim, trim_spec, unicode_lowercase,
    views,
};

verus! {

#[verifier::external_type_specification]
#[verifier::external_body]
pub struct ExIoError(std::io::Error);

/// Errors of repository access.
pub enum GitError {
    InvalidRepo(String),
    Io(std::io::Error),
}

/// Calls the `Display` impl of `std::io::Error`; the text comes from the
/// operating system, so nothing is stated of it.
#[verifier::external_body]
fn io_error_text(e: &std::io::Error) -> (r: String) {
    e.to_string()
}

impl GitError {
    /// The message of the error, as its `Display` writes it.
    pub fn message(&self) -> (r: String)
        ensures
            match self {
                GitError::InvalidRepo(path) => r@ == "Invalid repository path: "@ + path@,
                GitError::Io(_) => r@.len() >= 10 && r@.subrange(0, 10) == "IO error: "@,
            },
    {
        proof {
            reveal_strlit("IO error: ");
        }
        match self {
            GitError::InvalidRepo(path) => {
                let mut out = string_of("Invalid repository path: ");
                out.append(path.as_str());
                out
            },
            GitError::Io(e) => {
                let mut out = string_of("IO error: ");
                let text = io_error_text(e);
                out.append(text.as_str());
                out
            },
        }
    }
}

/// A single commit entry from git log.
pub struct CommitEntry {
    pub date: Date,
    pub author_name: String,
    pub author_email: String,
}

/// A commit entry as plain values.
pub open spec fn entry_view(e: CommitEntry) -> (Date, Seq<char>, Seq<char>) {
    (e.date, e.author_name@, e.author_email@)
}

// ---------------------------------------------------------------------------
// Reading the log
// ---------------------------------------------------------------------------

/// The pieces of `s` between the occurrences of `sep`, as `str::split` gives
/// them.
pub open spec fn split_spec(s: Seq<char>, sep: char) -> Seq<Seq<char>>
    decreases s.len(),
{
    if s.len() == 0 {
        seq![Seq::empty()]
    } else {
        let prev = split_spec(s.drop_last(), sep);
        if s.last() == sep {
            prev.push(Seq::empty())
        } else {
            prev.update(prev.len() - 1, prev.last().push(s.last()))
        }
    }
}

pub proof fn lemma_split_nonempty(s: Seq<char>, sep: char)
    ensures
        split_spec(s, sep).len() >= 1,
    decreases s.len(),
{
    if s.len() > 0 {
        lemma_split_nonempty(s.drop_last(), sep);
    }
}

/// Split a string at every occurrence of a character.
pub fn split_char(s: &str, sep: char) -> (r: Vec<String>)
    ensures
        views(r@) == split_spec(s@, sep),
{
    let chars = chars_of(s);
    let mut parts: Vec<String> = Vec::new();
    let mut cur = String::new();
    let mut i: usize = 0;
    assert(s@.take(0) =~= Seq::<char>::empty());
    while i < chars.len()
        invariant
            chars@ == s@,
            0 <= i <= chars@.len(),
            views(parts@).push(cur@) == split_spec(s@.take(i as int), sep),
        decreases chars@.len() - i,
    {
        let c = chars[i];
        let ghost before = views(parts@).push(cur@);
        proof {
            lemma_split_nonempty(s@.take(i as int), sep);
            assert(s@.take(i + 1).drop_last() =~= s@.take(i as int));
            assert(s@.take(i + 1).last() == c);
        }
        if c == sep {
            parts.push(cur);
            cur = String::new();
            assert(views(parts@).push(cur@) =~= before.push(Seq::empty()));
        } else {
            let ghost old_parts = views(parts@);
            push_char(&mut cur, c);
            assert(views(parts@).push(cur@) =~= before.update(
                before.len() - 1,
                before.last().push(c),
            ));
        }
        i += 1;
    }
    assert(s@.take(chars@.len() as int) =~= s@);
    let ghost before = views(parts@).push(cur@);
    parts.push(cur);
    assert(views(parts@) =~= before);
    parts
}

/// The date given to a commit whose date does not parse.
pub open spec fn fallback_commit_date() -> Date {
    Date { year: 2000, month: 1, day: 1 }
}

/// The entry that a line of the log gives: date, author name and author
/// email, separated by the unit separator; blank lines and lines with
/// another number of fields give none.
pub open spec fn entry_from_line(line: Seq<char>) -> Option<(Date, Seq<char>, Seq<char>)> {
    let t = trim_spec(line);
    let parts = split_spec(t, '\x1f');
    if t.len() == 0 || parts.len() != 3 {
        None
    } else {
        let date = match parsed_ymd(trim_spec(parts[0])) {
            Ok(d) => d,
            Err(_) => fallback_commit_date(),
        };
        Some((date, trim_spec(parts[1]), trim_spec(parts[2])))
    }
}

/// The entries of the lines of a log, in order.
pub open spec fn log_entries(lines: Seq<Seq<char>>) -> Seq<(Date, Seq<char>, Seq<char>)>
    decreases lines.len(),
{
    if lines.len() == 0 {
        seq![]
    } else {
        let prev = log_entries(lines.drop_last());
        match entry_from_line(lines.last()) {
            Some(e) => prev.push(e),
            None => prev,
        }
    }
}

/// The entry of one line of the log.
fn parse_log_line(line: &str) -> (r: Option<CommitEntry>)
    ensures
        match entry_from_line(line@) {
            Some(e) => r matches Some(c) && entry_view(c) == e && valid_date(c.date),
            None => r is None,
        },
{
    let t = trim(line);
    if t.unicode_len() == 0 {
        return None;
    }
    let parts = split_char(t, '\x1f');
    if parts.len() != 3 {
        return None;
    }
    let date = match parse_ymd(trim(parts[0].as_str())) {
        Ok(d) => d,
        Err(_) => Date { year: 2000, month: 1, day: 1 },
    };
    assert(parts@[1]@ == views(parts@)[1]);
    assert(parts@[2]@ == views(parts@)[2]);
    Some(
        CommitEntry {
            date,
            author_name: string_of(trim(parts[1].as_str())),
            author_email: string_of(trim(parts[2].as_str())),
        },
    )
}

/// The commit entries of the output of
/// `git log --date=short --pretty=format:%ad<US>%an<US>%ae`.
pub fn parse_commit_log(stdout: &str) -> (r: Vec<CommitEntry>)
    ensures
        r@.map_values(|e: CommitEntry| entry_view(e)) == log_entries(split_spec(stdout@, '\n')),
        forall|i: int| 0 <= i < r@.len() ==> valid_date(#[trigger] r@[i].date),
{
    let lines = split_char(stdout, '\n');
    let ghost lv = views(lines@);
    let mut entries: Vec<CommitEntry> = Vec::new();
    let mut i: usize = 0;
    while i < lines.len()
        invariant
            lv == views(lines@),
            lv == split_spec(stdout@, '\n'),
            0 <= i <= lines@.len(),
            entries@.map_values(|e: CommitEntry| entry_view(e)) == log_entries(lv.take(i as int)),
            forall|k: int| 0 <= k < entries@.len() ==> valid_date(#[trigger] entries@[k].date),
        decreases lines@.len() - i,
    {
        let ghost before = entries@.map_values(|e: CommitEntry| entry_view(e));
        proof {
            assert(lv.take(i + 1).drop_last() =~= lv.take(i as int));
            assert(lv.take(i + 1).last() == lines@[i as int]@);
        }
        match parse_log_line(lines[i].as_str()) {
            Some(entry) => {
                entries.push(entry);
                assert(entries@.map_values(|e: CommitEntry| entry_view(e)) =~= before.push(
                    entry_view(entry),
                ));
            },
            None => {},
        }
        i += 1;
    }
    assert(lv.take(lines@.len() as int) =~= lv);
    entries
}

/// The arguments of the `git log` call that lists the commits, limited to
/// the days from `start` to `end` when they are given.
pub open spec fn log_args_spec(start: Option<Date>, end: Option<Date>) -> Seq<Seq<char>> {
    seq!["log"@, "--date=short"@, "--pretty=format:%ad\x1f%an\x1f%ae"@] + match start {
        Some(s) => seq!["--since"@, dmy_text(s)],
        None => seq![],
    } + match end {
        Some(e) => seq!["--before"@, dmy_text(next_date(e))],
        None => seq![],
    }
}

/// The arguments of the `git log` call: short dates and the fields
/// separated by the unit separator, from `start` (`--since`) and before
/// the day after `end` (`--before`).
pub fn git_log_args(start: Option<Date>, end: Option<Date>) -> (r: Vec<String>)
    requires
        start matches Some(s) ==> valid_date(s),
        end matches Some(e) ==> valid_date(e) && day_number(e) < max_day_number(),
    ensures
        views(r@) == log_args_spec(start, end),
{
    let mut args: Vec<String> = Vec::new();
    args.push(string_of("log"));
    args.push(string_of("--date=short"));
    args.push(string_of("--pretty=format:%ad\x1f%an\x1f%ae"));
    let ghost base = views(args@);
    if let Some(sd) = start {
        args.push(string_of("--since"));
        args.push(format_dmy(sd));
    }
    let ghost mid = views(args@);
    if let Some(ed) = end {
        proof {
            lemma_next_date_valid(ed);
        }
        let next = succ_date(ed);
        args.push(string_of("--before"));
        args.push(format_dmy(next));
    }
    assert(views(args@) =~= log_args_spec(start, end));
    args
}

// ---------------------------------------------------------------------------
// Counting
// ---------------------------------------------------------------------------

/// The message when no commit matches the author filter.
pub const NO_AUTHOR_MATCHED: &'static str =
    "No author matched the requested filters. Use `hitmap authors REPO --search ...` to inspect available identities";

/// Whether some entry passes the selection.
pub open spec fn some_entry_matches(entries: Seq<CommitEntry>, selection: AuthorSelection) -> bool {
    exists|i: int|
        0 <= i < entries.len() && author_matches_spec(
            selection,
            #[trigger] entries[i].author_name@,
            entries[i].author_email@,
        )
}

/// Ensure the author selection matches at least one commit of the log.
pub fn ensure_author_selection_exists(entries: &[CommitEntry], selection: &AuthorSelection) -> (r:
    Result<(), GitError>)
    ensures
        selection.all_authors || some_entry_matches(entries@, *selection) ==> r is Ok,
        !(selection.all_authors || some_entry_matches(entries@, *selection)) ==> (r matches Err(
            GitError::InvalidRepo(m),
        ) && m@ == NO_AUTHOR_MATCHED@),
{
    if selection.all_authors {
        return Ok(());
    }
    let mut i: usize = 0;
    while i < entries.len()
        invariant
            0 <= i <= entries@.len(),
            !selection.all_authors,
            forall|k: int|
                0 <= k < i ==> !author_matches_spec(
                    *selection,
                    #[trigger] entries@[k].author_name@,
                    entries@[k].author_email@,
                ),
        decreases entries@.len() - i,
    {
        if author_matches(selection, entries[i].author_name.as_str(), entries[i].author_email.as_str()) {
            return Ok(());
        }
        i += 1;
    }
    Err(GitError::InvalidRepo(string_of(NO_AUTHOR_MATCHED)))
}

/// The entries that pass the selection, in order.
pub open spec fn matching_entries(entries: Seq<CommitEntry>, selection: AuthorSelection) -> Seq<
    CommitEntry,
>
    decreases entries.len(),
{
    if entries.len() == 0 {
        seq![]
    } else {
        let prev = matching_entries(entries.drop_last(), selection);
        if author_matches_spec(selection, entries.last().author_name@, entries.last().author_email@) {
            prev.push(entries.last())
        } else {
            prev
        }
    }
}

/// Commits per day, keyed by day number, of a list of entries.
pub open spec fn day_count_map(entries: Seq<CommitEntry>) -> Map<i64, u64>
    decreases entries.len(),
{
    if entries.len() == 0 {
        Map::empty()
    } else {
        let m = day_count_map(entries.drop_last());
        let k = day_number(entries.last().date) as i64;
        m.insert(
            k,
            if m.contains_key(k) {
                (m[k] + 1) as u64
            } else {
                1
            },
        )
    }
}

proof fn lemma_day_count_bound(entries: Seq<CommitEntry>, k: i64)
    ensures
        day_count_map(entries).contains_key(k) ==> day_count_map(entries)[k] <= entries.len(),
    decreases entries.len(),
{
    if entries.len() > 0 {
        lemma_day_count_bound(entries.drop_last(), k);
        lemma_day_count_bound(entries.drop_last(), day_number(entries.last().date) as i64);
    }
}

proof fn lemma_matching_len(entries: Seq<CommitEntry>, selection: AuthorSelection)
    ensures
        matching_entries(entries, selection).len() <= entries.len(),
    decreases entries.len(),
{
    if entries.len() > 0 {
        lemma_matching_len(entries.drop_last(), selection);
    }
}

/// The author identity of an entry.
pub open spec fn identity(e: CommitEntry) -> (Seq<char>, Seq<char>) {
    (e.author_name@, e.author_email@)
}

/// Collect per-day commit counts for the selected authors: the counts keyed
/// by day number, the number of matching commits, and the identity of each
/// matching commit in log order.
pub fn collect_commit_day_counts(entries: &[CommitEntry], selection: &AuthorSelection) -> (r: (
    HashMap<i64, u64>,
    u64,
    Vec<(String, String)>,
))
    requires
        forall|i: int| 0 <= i < entries@.len() ==> valid_date(#[trigger] entries@[i].date),
    ensures
        r.0@ == day_count_map(matching_entries(entries@, *selection)),
        r.1 == matching_entries(entries@, *selection).len(),
        r.2@.map_values(|p: (String, String)| (p.0@, p.1@)) == matching_entries(
            entries@,
            *selection,
        ).map_values(|e: CommitEntry| identity(e)),
{
    broadcast use vstd::std_specs::hash::group_hash_axioms;

    let mut day_counts: HashMap<i64, u64> = HashMap::new();
    let mut total_commits: u64 = 0;
    let mut matched_identities: Vec<(String, String)> = Vec::new();
    let mut i: usize = 0;
    while i < entries.len()
        invariant
            0 <= i <= entries@.len(),
            forall|k: int| 0 <= k < entries@.len() ==> valid_date(#[trigger] entries@[k].date),
            day_counts@ == day_count_map(matching_entries(entries@.take(i as int), *selection)),
            total_commits == matching_entries(entries@.take(i as int), *selection).len(),
            matched_identities@.map_values(|p: (String, String)| (p.0@, p.1@)) == matching_entries(
                entries@.take(i as int),
                *selection,
            ).map_values(|e: CommitEntry| identity(e)),
        decreases entries@.len() - i,
    {
        let ghost prev = matching_entries(entries@.take(i as int), *selection);
        proof {
            assert(entries@.take(i + 1).drop_last() =~= entries@.take(i as int));
            assert(entries@.take(i + 1).last() == entries@[i as int]);
            lemma_matching_len(entries@.take(i as int), *selection);
        }
        let entry = &entries[i];
        if author_matches(selection, entry.author_name.as_str(), entry.author_email.as_str()) {
            let key = day_number_of(entry.date);
            let current: u64 = match day_counts.get(&key) {
                Some(c) => *c,
                None => 0,
            };
            proof {
                lemma_day_count_bound(prev, key);
                assert(prev.push(*entry).drop_last() =~= prev);
                assert(matching_entries(entries@.take(i + 1), *selection) == prev.push(*entry));
            }
            day_counts.insert(key, current + 1);
            assert(day_counts@ =~= day_count_map(prev.push(*entry)));
            total_commits += 1;
            let ghost before = matched_identities@.map_values(|p: (String, String)| (p.0@, p.1@));
            matched_identities.push((entry.author_name.clone(), entry.author_email.clone()));
            proof {
                assert(matched_identities@.map_values(|p: (String, String)| (p.0@, p.1@))
                    =~= before.push(identity(*entry)));
                assert(prev.push(*entry).map_values(|e: CommitEntry| identity(e)) =~= prev.map_values(
                    |e: CommitEntry| identity(e),
                ).push(identity(*entry)));
            }
        }
        i += 1;
    }
    assert(entries@.take(entries@.len() as int) =~= entries@);
    (day_counts, total_commits, matched_identities)
}

// ---------------------------------------------------------------------------
// Ordering names
// ---------------------------------------------------------------------------

/// Lexicographic order of character sequences by code point, which is the
/// order of `String`'s `Ord` (UTF-8 keeps the order of code points).
pub open spec fn lex_le(a: Seq<char>, b: Seq<char>) -> bool
    decreases a.len(),
{
    if a.len() == 0 {
        true
    } else if b.len() == 0 {
        false
    } else if a[0] != b[0] {
        (a[0] as u32) < (b[0] as u32)
    } else {
        lex_le(a.drop_first(), b.drop_first())
    }
}

/// `a` comes before `b` at index `i`: they agree before it and `a`'s
/// character there is the smaller code point.
pub open spec fn differs_first_below(a: Seq<char>, b: Seq<char>, i: int) -> bool {
    0 <= i < a.len() && i < b.len() && a.take(i) == b.take(i) && (a[i] as u32) < (b[i] as u32)
}

/// The order of text is full lexicographic code-point order: `a` comes no
/// later than `b` exactly when `a` is a prefix of `b`, or at the first index
/// where they differ `a` has the smaller character.
pub proof fn law_lex_le_lexicographic(a: Seq<char>, b: Seq<char>)
    ensures
        lex_le(a, b) <==> ((a.len() <= b.len() && a == b.take(a.len() as int)) || exists|i: int|
            #[trigger] differs_first_below(a, b, i)),
    decreases a.len(),
{
    if a.len() == 0 {
        assert(a =~= b.take(0));
    } else if b.len() == 0 {
        assert forall|i: int| !#[trigger] differs_first_below(a, b, i) by {}
    } else if a[0] != b[0] {
        if (a[0] as u32) < (b[0] as u32) {
            assert(a.take(0) =~= b.take(0));
            assert(differs_first_below(a, b, 0));
        } else {
            assert forall|i: int| !#[trigger] differs_first_below(a, b, i) by {
                if differs_first_below(a, b, i) && i > 0 {
                    assert(a.take(i)[0] == b.take(i)[0]);
                }
            }
        }
        assert(!(a.len() <= b.len() && a == b.take(a.len() as int))) by {
            if a.len() <= b.len() && a == b.take(a.len() as int) {
                assert(a[0] == b.take(a.len() as int)[0]);
            }
        }
    } else {
        let a1 = a.drop_first();
        let b1 = b.drop_first();
        law_lex_le_lexicographic(a1, b1);
        assert((a1.len() <= b1.len() && a1 == b1.take(a1.len() as int)) <==> (a.len() <= b.len()
            && a == b.take(a.len() as int))) by {
            if a1.len() <= b1.len() && a1 == b1.take(a1.len() as int) {
                assert forall|k: int| 0 <= k < a.len() implies a[k] == b[k] by {
                    if k > 0 {
                        assert(a[k] == a1[k - 1]);
                        assert(b[k] == b1[k - 1]);
                        assert(a1[k - 1] == b1.take(a1.len() as int)[k - 1]);
                    }
                }
                assert(a =~= b.take(a.len() as int));
            }
            if a.len() <= b.len() && a == b.take(a.len() as int) {
                assert(a1 =~= b1.take(a1.len() as int));
            }
        }
        if exists|i: int| #[trigger] differs_first_below(a1, b1, i) {
            let i = choose|i: int| #[trigger] differs_first_below(a1, b1, i);
            assert(a.take(i + 1) =~= seq![a[0]] + a1.take(i));
            assert(b.take(i + 1) =~= seq![b[0]] + b1.take(i));
            assert(differs_first_below(a, b, i + 1));
        }
        if exists|i: int| #[trigger] differs_first_below(a, b, i) {
            let i = choose|i: int| #[trigger] differs_first_below(a, b, i);
            assert(i != 0);
            assert(a1.take(i - 1) =~= a.take(i).drop_first());
            assert(b1.take(i - 1) =~= b.take(i).drop_first());
            assert(differs_first_below(a1, b1, i - 1));
        }
    }
}

/// Any two texts are ordered one way or the other.
pub proof fn lemma_lex_le_total(a: Seq<char>, b: Seq<char>)
    ensures
        lex_le(a, b) || lex_le(b, a),
    decreases a.len(),
{
    if a.len() > 0 && b.len() > 0 {
        if a[0] == b[0] {
            lemma_lex_le_total(a.drop_first(), b.drop_first());
        } else {
            let x = a[0];
            let y = b[0];
            vstd::utf8::char_u32_cast(x, x as u32);
            vstd::utf8::char_u32_cast(y, y as u32);
            assert((x as u32) != (y as u32));
        }
    }
}

/// The order of text is transitive.
pub proof fn lemma_lex_le_transitive(a: Seq<char>, b: Seq<char>, c: Seq<char>)
    requires
        lex_le(a, b),
        lex_le(b, c),
    ensures
        lex_le(a, c),
    decreases a.len(),
{
    if a.len() > 0 && b.len() > 0 && c.len() > 0 && a[0] == b[0] && b[0] == c[0] {
        lemma_lex_le_transitive(a.drop_first(), b.drop_first(), c.drop_first());
    }
}

/// Whether `a` comes no later than `b` when both are compared lower-cased.
pub open spec fn lower_le(a: Seq<char>, b: Seq<char>) -> bool {
    lex_le(unicode_lowercase(a), unicode_lowercase(b))
}

/// `x` inserted into a sorted list after every entry that does not come
/// later than it.
pub open spec fn insert_by_lower(sorted: Seq<Seq<char>>, x: Seq<char>) -> Seq<Seq<char>>
    decreases sorted.len(),
{
    if sorted.len() == 0 {
        seq![x]
    } else if lower_le(sorted.last(), x) {
        sorted.push(x)
    } else {
        insert_by_lower(sorted.drop_last(), x).push(sorted.last())
    }
}

/// The stable sort of a list by the lower-cased text of its entries.
pub open spec fn sort_by_lower(s: Seq<Seq<char>>) -> Seq<Seq<char>>
    decreases s.len(),
{
    if s.len() == 0 {
        seq![]
    } else {
        insert_by_lower(sort_by_lower(s.drop_last()), s.last())
    }
}

/// Compare two character sequences lexicographically.
pub fn lex_le_exec(a: &Vec<char>, b: &Vec<char>) -> (r: bool)
    ensures
        r == lex_le(a@, b@),
{
    let mut i: usize = 0;
    assert(a@.skip(0) =~= a@ && b@.skip(0) =~= b@);
    while i < a.len() && i < b.len() && a[i] == b[i]
        invariant
            0 <= i <= a@.len(),
            i <= b@.len(),
            lex_le(a@, b@) == lex_le(a@.skip(i as int), b@.skip(i as int)),
        decreases a@.len() - i,
    {
        proof {
            assert(a@.skip(i as int).drop_first() =~= a@.skip(i + 1));
            assert(b@.skip(i as int).drop_first() =~= b@.skip(i + 1));
        }
        i += 1;
    }
    if i == a.len() {
        assert(a@.skip(i as int).len() == 0);
        true
    } else if i == b.len() {
        assert(b@.skip(i as int).len() == 0);
        false
    } else {
        assert(a@.skip(i as int)[0] == a@[i as int]);
        assert(b@.skip(i as int)[0] == b@[i as int]);
        (a[i] as u32) < (b[i] as u32)
    }
}

/// Every entry comes no later than every entry after it, compared
/// lower-cased.
pub open spec fn ordered_by_lower(s: Seq<Seq<char>>) -> bool {
    forall|i: int, j: int| 0 <= i < j < s.len() ==> lower_le(#[trigger] s[i], #[trigger] s[j])
}

proof fn lemma_insert_by_lower_sorted(s: Seq<Seq<char>>, x: Seq<char>)
    requires
        ordered_by_lower(s),
    ensures
        ordered_by_lower(insert_by_lower(s, x)),
        insert_by_lower(s, x).len() == s.len() + 1,
        forall|y: Seq<char>| #[trigger] insert_by_lower(s, x).contains(y) ==> s.contains(y) || y == x,
    decreases s.len(),
{
    let r = insert_by_lower(s, x);
    if s.len() == 0 {
        assert(r =~= seq![x]);
    } else if lower_le(s.last(), x) {
        assert(r == s.push(x));
        assert forall|i: int, j: int| 0 <= i < j < r.len() implies lower_le(#[trigger] r[i], #[trigger] r[j]) by {
            if j == s.len() {
                if i < s.len() - 1 {
                    lemma_lex_le_transitive(
                        unicode_lowercase(s[i]),
                        unicode_lowercase(s.last()),
                        unicode_lowercase(x),
                    );
                }
            }
        }
        assert forall|y: Seq<char>| #[trigger] r.contains(y) implies s.contains(y) || y == x by {
            let k = choose|k: int| 0 <= k < r.len() && r[k] == y;
            if k < s.len() {
                assert(s[k] == y);
            }
        }
    } else {
        let d = s.drop_last();
        lemma_insert_by_lower_sorted(d, x);
        let inner = insert_by_lower(d, x);
        assert(r == inner.push(s.last()));
        lemma_lex_le_total(unicode_lowercase(s.last()), unicode_lowercase(x));
        assert forall|i: int, j: int| 0 <= i < j < r.len() implies lower_le(#[trigger] r[i], #[trigger] r[j]) by {
            if j == inner.len() {
                assert(inner.contains(r[i]));
                if r[i] != x {
                    let k = choose|k: int| 0 <= k < d.len() && d[k] == r[i];
                    assert(s[k] == d[k]);
                }
            } else {
                assert(r[i] == inner[i] && r[j] == inner[j]);
            }
        }
        assert forall|y: Seq<char>| #[trigger] r.contains(y) implies s.contains(y) || y == x by {
            let k = choose|k: int| 0 <= k < r.len() && r[k] == y;
            if k < inner.len() {
                assert(inner.contains(y));
                if y != x {
                    let m = choose|m: int| 0 <= m < d.len() && d[m] == y;
                    assert(s[m] == y);
                }
            } else {
                assert(s[s.len() - 1] == y);
            }
        }
    }
}

/// Sorting by lower-cased text orders the list: every entry comes no later
/// than the entries after it, in lexicographic code-point order of the
/// lower-cased texts; and nothing is added or lost.
pub proof fn law_sort_by_lower_ordered(s: Seq<Seq<char>>)
    ensures
        ordered_by_lower(sort_by_lower(s)),
        sort_by_lower(s).len() == s.len(),
        forall|y: Seq<char>| #[trigger] sort_by_lower(s).contains(y) ==> s.contains(y),
    decreases s.len(),
{
    if s.len() > 0 {
        let d = s.drop_last();
        law_sort_by_lower_ordered(d);
        lemma_insert_by_lower_sorted(sort_by_lower(d), s.last());
        assert forall|y: Seq<char>| #[trigger] sort_by_lower(s).contains(y) implies s.contains(y) by {
            if y != s.last() {
                assert(sort_by_lower(d).contains(y));
                let m = choose|m: int| 0 <= m < d.len() && d[m] == y;
                assert(s[m] == y);
            } else {
                assert(s[s.len() - 1] == y);
            }
        }
    }
}

/// Inserting at the place found by scanning back from the end.
proof fn lemma_insert_at(s: Seq<Seq<char>>, x: Seq<char>, j: int)
    requires
        0 <= j <= s.len(),
        forall|k: int| j <= k < s.len() ==> !lower_le(#[trigger] s[k], x),
        j > 0 ==> lower_le(s[j - 1], x),
    ensures
        insert_by_lower(s, x) == s.insert(j, x),
    decreases s.len(),
{
    if s.len() == 0 {
        assert(s.insert(j, x) =~= seq![x]);
    } else if j == s.len() {
        assert(s.insert(j, x) =~= s.push(x));
    } else {
        lemma_insert_at(s.drop_last(), x, j);
        assert(s.insert(j, x) =~= s.drop_last().insert(j, x).push(s.last()));
    }
}

/// Sort strings by their lower-cased text, keeping the order of strings
/// whose lower-cased texts are equal.
pub fn sort_by_lowercase(items: &Vec<String>) -> (r: Vec<String>)
    ensures
        views(r@) == sort_by_lower(views(items@)),
{
    let mut sorted: Vec<String> = Vec::new();
    let mut keys: Vec<Vec<char>> = Vec::new();
    let mut i: usize = 0;
    while i < items.len()
        invariant
            0 <= i <= items@.len(),
            keys@.len() == sorted@.len(),
            forall|k: int|
                0 <= k < keys@.len() ==> (#[trigger] keys@[k])@ == unicode_lowercase(sorted@[k]@),
            views(sorted@) == sort_by_lower(views(items@).take(i as int)),
        decreases items@.len() - i,
    {
        let x = items[i].clone();
        let lower = to_lowercase(x.as_str());
        let kx = chars_of(lower.as_str());
        let ghost sv = views(sorted@);
        let ghost kv = keys@;
        let mut j: usize = sorted.len();
        while j > 0 && !lex_le_exec(&keys[j - 1], &kx)
            invariant
                0 <= j <= sorted@.len(),
                sv == views(sorted@),
                keys@.len() == sorted@.len(),
                forall|k: int|
                    0 <= k < keys@.len() ==> (#[trigger] keys@[k])@ == unicode_lowercase(
                        sorted@[k]@,
                    ),
                kx@ == unicode_lowercase(x@),
                forall|k: int| j <= k < sv.len() ==> !lower_le(#[trigger] sv[k], x@),
            decreases j,
        {
            proof {
                assert(keys@[j - 1]@ == unicode_lowercase(sv[j - 1]));
            }
            j -= 1;
        }
        proof {
            if j > 0 {
                assert(keys@[j - 1]@ == unicode_lowercase(sv[j - 1]));
            }
            lemma_insert_at(sv, x@, j as int);
            assert(views(items@).take(i + 1).drop_last() =~= views(items@).take(i as int));
            assert(views(items@).take(i + 1).last() == x@);
        }
        let ghost so = sorted@;
        sorted.insert(j, x);
        keys.insert(j, kx);
        proof {
            assert(views(sorted@) =~= sv.insert(j as int, x@));
            assert forall|k: int| 0 <= k < keys@.len() implies (#[trigger] keys@[k])@
                == unicode_lowercase(sorted@[k]@) by {
                if k < j {
                    assert(keys@[k] == kv[k] && sorted@[k] == so[k]);
                } else if k == j {
                } else {
                    assert(keys@[k] == kv[k - 1] && sorted@[k] == so[k - 1]);
                }
            }
        }
        i += 1;
    }
    assert(views(items@).take(items@.len() as int) =~= views(items@));
    sorted
}

// ---------------------------------------------------------------------------
// Author identities
// ---------------------------------------------------------------------------

/// The key by which an entry is grouped: its normalized name and email
/// joined by the unit separator for `pair`, its normalized name for `name`,
/// its normalized email for `email`; no key for any other grouping.
pub open spec fn group_key(e: CommitEntry, group_by: Seq<char>) -> Option<Seq<char>> {
    if group_by == "pair"@ {
        Some(normalized(e.author_name@) + seq!['\x1f'] + normalized(e.author_email@))
    } else if group_by == "name"@ {
        Some(normalized(e.author_name@))
    } else if group_by == "email"@ {
        Some(normalized(e.author_email@))
    } else {
        None
    }
}

/// Under the `pair` grouping two entries share a key exactly when their
/// normalized names are equal and their normalized emails are equal (for
/// names without the unit separator, which the key uses between the two).
pub proof fn law_pair_key_identifies(e: CommitEntry, f: CommitEntry)
    requires
        !normalized(e.author_name@).contains('\x1f'),
        !normalized(f.author_name@).contains('\x1f'),
    ensures
        group_key(e, "pair"@) == group_key(f, "pair"@) <==> (normalized(e.author_name@)
            == normalized(f.author_name@) && normalized(e.author_email@) == normalized(
            f.author_email@,
        )),
{
    let n1 = normalized(e.author_name@);
    let n2 = normalized(f.author_name@);
    let m1 = normalized(e.author_email@);
    let m2 = normalized(f.author_email@);
    let k1 = n1 + seq!['\x1f'] + m1;
    let k2 = n2 + seq!['\x1f'] + m2;
    assert(group_key(e, "pair"@) == Some(k1));
    assert(group_key(f, "pair"@) == Some(k2));
    if k1 == k2 {
        if n1.len() < n2.len() {
            assert(k1[n1.len() as int] == '\x1f');
            assert(k2[n1.len() as int] == n2[n1.len() as int]);
            assert(n2.contains(n2[n1.len() as int]));
            assert(false);
        }
        if n2.len() < n1.len() {
            assert(k2[n2.len() as int] == '\x1f');
            assert(k1[n2.len() as int] == n1[n2.len() as int]);
            assert(n1.contains(n1[n2.len() as int]));
            assert(false);
        }
        assert(n1 =~= k1.subrange(0, n1.len() as int));
        assert(n2 =~= k2.subrange(0, n2.len() as int));
        assert(m1 =~= k1.subrange(n1.len() as int + 1, k1.len() as int));
        assert(m2 =~= k2.subrange(n2.len() as int + 1, k2.len() as int));
    }
}

/// The distinct keys of the entries, in order of first appearance.
pub open spec fn bucket_keys(entries: Seq<CommitEntry>, group_by: Seq<char>) -> Seq<Seq<char>>
    decreases entries.len(),
{
    if entries.len() == 0 {
        seq![]
    } else {
        let prev = bucket_keys(entries.drop_last(), group_by);
        match group_key(entries.last(), group_by) {
            Some(k) => if prev.contains(k) {
                prev
            } else {
                prev.push(k)
            },
            None => prev,
        }
    }
}

/// How many entries have the key.
pub open spec fn key_count(entries: Seq<CommitEntry>, group_by: Seq<char>, k: Seq<char>) -> nat
    decreases entries.len(),
{
    if entries.len() == 0 {
        0
    } else {
        key_count(entries.drop_last(), group_by, k) + if group_key(entries.last(), group_by) == Some(
            k,
        ) {
            1nat
        } else {
            0nat
        }
    }
}

/// Index of the first entry with the key (the length when none has it).
pub open spec fn first_with_key(entries: Seq<CommitEntry>, group_by: Seq<char>, k: Seq<char>) -> int
    decreases entries.len(),
{
    if entries.len() == 0 {
        0
    } else {
        let f = first_with_key(entries.drop_last(), group_by, k);
        if f < entries.len() - 1 {
            f
        } else if group_key(entries.last(), group_by) == Some(k) {
            entries.len() - 1
        } else {
            entries.len() as int
        }
    }
}

/// The distinct author names of the entries with the key, in order of
/// first appearance.
pub open spec fn names_with_key(entries: Seq<CommitEntry>, group_by: Seq<char>, k: Seq<char>) -> Seq<
    Seq<char>,
>
    decreases entries.len(),
{
    if entries.len() == 0 {
        seq![]
    } else {
        let prev = names_with_key(entries.drop_last(), group_by, k);
        let n = entries.last().author_name@;
        if group_key(entries.last(), group_by) == Some(k) && !prev.contains(n) {
            prev.push(n)
        } else {
            prev
        }
    }
}

/// The distinct author emails of the entries with the key, in order of
/// first appearance.
pub open spec fn emails_with_key(entries: Seq<CommitEntry>, group_by: Seq<char>, k: Seq<char>) -> Seq<
    Seq<char>,
>
    decreases entries.len(),
{
    if entries.len() == 0 {
        seq![]
    } else {
        let prev = emails_with_key(entries.drop_last(), group_by, k);
        let m = entries.last().author_email@;
        if group_key(entries.last(), group_by) == Some(k) && !prev.contains(m) {
            prev.push(m)
        } else {
            prev
        }
    }
}

/// `s` summarizes the entries with the key: their number, the name and
/// email of the first of them, and their distinct names and emails sorted
/// case-insensitively.
pub open spec fn summarizes(
    s: AuthorSummary,
    entries: Seq<CommitEntry>,
    group_by: Seq<char>,
    k: Seq<char>,
) -> bool {
    let f = first_with_key(entries, group_by, k);
    &&& s.commits == key_count(entries, group_by, k)
    &&& 0 <= f < entries.len()
    &&& s.primary_name@ == entries[f].author_name@
    &&& s.primary_email@ == entries[f].author_email@
    &&& views(s.names@) == sort_by_lower(names_with_key(entries, group_by, k))
    &&& views(s.emails@) == sort_by_lower(emails_with_key(entries, group_by, k))
}

proof fn lemma_key_count_bound(entries: Seq<CommitEntry>, group_by: Seq<char>, k: Seq<char>)
    ensures
        key_count(entries, group_by, k) <= entries.len(),
    decreases entries.len(),
{
    if entries.len() > 0 {
        lemma_key_count_bound(entries.drop_last(), group_by, k);
    }
}

proof fn lemma_first_with_key_bounds(entries: Seq<CommitEntry>, group_by: Seq<char>, k: Seq<char>)
    ensures
        0 <= first_with_key(entries, group_by, k) <= entries.len(),
        first_with_key(entries, group_by, k) < entries.len() ==> group_key(
            entries[first_with_key(entries, group_by, k)],
            group_by,
        ) == Some(k),
        bucket_keys(entries, group_by).contains(k) ==> first_with_key(entries, group_by, k)
            < entries.len(),
    decreases entries.len(),
{
    if entries.len() > 0 {
        lemma_first_with_key_bounds(entries.drop_last(), group_by, k);
        let prev = bucket_keys(entries.drop_last(), group_by);
        if bucket_keys(entries, group_by).contains(k) && !prev.contains(k) {
            let i = choose|i: int|
                0 <= i < bucket_keys(entries, group_by).len() && bucket_keys(entries, group_by)[i]
                    == k;
            assert(i == prev.len());
        }
    }
}

/// An optional string as a plain value.
pub open spec fn opt_view(o: Option<String>) -> Option<Seq<char>> {
    match o {
        Some(s) => Some(s@),
        None => None,
    }
}

/// The grouping key of one entry.
fn entry_group_key(e: &CommitEntry, group_by: &str) -> (r: Option<String>)
    ensures
        opt_view(r) == group_key(*e, group_by@),
{
    proof {
        reveal_strlit("pair");
        reveal_strlit("name");
        reveal_strlit("email");
    }
    if str_eq(group_by, "pair") {
        let mut key = normalize_text(e.author_name.as_str());
        push_char(&mut key, '\x1f');
        let email = normalize_text(e.author_email.as_str());
        key.append(email.as_str());
        Some(key)
    } else if str_eq(group_by, "name") {
        Some(normalize_text(e.author_name.as_str()))
    } else if str_eq(group_by, "email") {
        Some(normalize_text(e.author_email.as_str()))
    } else {
        None
    }
}

/// The grouping keys of the entries, as plain values.
pub open spec fn key_views(keys: Seq<Option<String>>) -> Seq<Option<Seq<char>>> {
    keys.map_values(|o: Option<String>| opt_view(o))
}

/// Summarize the entries with one key.
fn summarize_key(
    entries: &[CommitEntry],
    keys: &Vec<Option<String>>,
    group_by: &str,
    key: &String,
) -> (r: AuthorSummary)
    requires
        keys@.len() == entries@.len(),
        forall|i: int|
            0 <= i < entries@.len() ==> key_views(keys@)[i] == group_key(
                #[trigger] entries@[i],
                group_by@,
            ),
        bucket_keys(entries@, group_by@).contains(key@),
    ensures
        summarizes(r, entries@, group_by@, key@),
{
    let ghost g = group_by@;
    let ghost k = key@;
    let mut commits: u64 = 0;
    let mut primary: Option<(String, String)> = None;
    let mut names: Vec<String> = Vec::new();
    let mut emails: Vec<String> = Vec::new();
    let mut i: usize = 0;
    while i < entries.len()
        invariant
            g == group_by@,
            k == key@,
            keys@.len() == entries@.len(),
            forall|j: int|
                0 <= j < entries@.len() ==> key_views(keys@)[j] == group_key(
                    #[trigger] entries@[j],
                    g,
                ),
            0 <= i <= entries@.len(),
            commits == key_count(entries@.take(i as int), g, k),
            match primary {
                Some(p) => {
                    let f = first_with_key(entries@.take(i as int), g, k);
                    &&& 0 <= f < i
                    &&& p.0@ == entries@[f].author_name@
                    &&& p.1@ == entries@[f].author_email@
                },
                None => first_with_key(entries@.take(i as int), g, k) == i,
            },
            views(names@) == names_with_key(entries@.take(i as int), g, k),
            views(emails@) == emails_with_key(entries@.take(i as int), g, k),
        decreases entries@.len() - i,
    {
        let ghost pre = entries@.take(i as int);
        proof {
            assert(entries@.take(i + 1).drop_last() =~= pre);
            assert(entries@.take(i + 1).last() == entries@[i as int]);
            lemma_key_count_bound(pre, g, k);
            lemma_first_with_key_bounds(pre, g, k);
            assert(key_views(keys@)[i as int] == opt_view(keys@[i as int]));
        }
        let e = &entries[i];
        let ek_opt = &keys[i];
        let same = match ek_opt {
            Some(ek) => {
                assert(opt_view(*ek_opt) == Some(ek@));
                str_eq(ek.as_str(), key.as_str())
            },
            None => false,
        };
        assert(same == (group_key(*e, g) == Some(k)));
        if same {
            commits += 1;
            if primary.is_none() {
                primary = Some((e.author_name.clone(), e.author_email.clone()));
            }
            let name = e.author_name.clone();
            if !crate::common::contains_string(&names, &name) {
                let ghost before = views(names@);
                names.push(name);
                assert(views(names@) =~= before.push(e.author_name@));
            }
            let email = e.author_email.clone();
            if !crate::common::contains_string(&emails, &email) {
                let ghost before = views(emails@);
                emails.push(email);
                assert(views(emails@) =~= before.push(e.author_email@));
            }
        }
        i += 1;
    }
    assert(entries@.take(entries@.len() as int) =~= entries@);
    proof {
        lemma_first_with_key_bounds(entries@, g, k);
    }
    let (primary_name, primary_email) = match primary {
        Some(p) => p,
        None => (String::new(), String::new()),
    };
    AuthorSummary {
        commits,
        primary_name,
        primary_email,
        names: sort_by_lowercase(&names),
        emails: sort_by_lowercase(&emails),
    }
}

/// Collect author identities grouped by pair, name, or email: one summary
/// per distinct key, in order of first appearance.
pub fn collect_author_summaries(entries: &[CommitEntry], group_by: &str) -> (r: Vec<AuthorSummary>)
    ensures
        r@.len() == bucket_keys(entries@, group_by@).len(),
        forall|j: int|
            0 <= j < r@.len() ==> summarizes(
                #[trigger] r@[j],
                entries@,
                group_by@,
                bucket_keys(entries@, group_by@)[j],
            ),
{
    let ghost g = group_by@;
    let mut keys: Vec<Option<String>> = Vec::new();
    let mut seen: Vec<String> = Vec::new();
    let mut i: usize = 0;
    while i < entries.len()
        invariant
            g == group_by@,
            0 <= i <= entries@.len(),
            keys@.len() == i,
            forall|j: int| 0 <= j < i ==> key_views(keys@)[j] == group_key(#[trigger] entries@[j], g),
            views(seen@) == bucket_keys(entries@.take(i as int), g),
        decreases entries@.len() - i,
    {
        proof {
            assert(entries@.take(i + 1).drop_last() =~= entries@.take(i as int));
            assert(entries@.take(i + 1).last() == entries@[i as int]);
        }
        let key = entry_group_key(&entries[i], group_by);
        let ghost kv = opt_view(key);
        match &key {
            Some(k) => {
                assert(kv == Some(k@));
                if !crate::common::contains_string(&seen, k) {
                    let ghost before = views(seen@);
                    seen.push(k.clone());
                    assert(views(seen@) =~= before.push(k@));
                }
            },
            None => {},
        }
        let ghost kb = key_views(keys@);
        keys.push(key);
        assert(key_views(keys@) =~= kb.push(kv));
        i += 1;
    }
    assert(entries@.take(entries@.len() as int) =~= entries@);
    let ghost bk = bucket_keys(entries@, g);
    let mut summaries: Vec<AuthorSummary> = Vec::new();
    let mut b: usize = 0;
    while b < seen.len()
        invariant
            g == group_by@,
            keys@.len() == entries@.len(),
            forall|j: int|
                0 <= j < entries@.len() ==> key_views(keys@)[j] == group_key(
                    #[trigger] entries@[j],
                    g,
                ),
            views(seen@) == bk,
            bk == bucket_keys(entries@, g),
            0 <= b <= seen@.len(),
            summaries@.len() == b,
            forall|j: int|
                0 <= j < b ==> summarizes(#[trigger] summaries@[j], entries@, g, bk[j]),
        decreases seen@.len() - b,
    {
        assert(bk[b as int] == seen@[b as int]@);
        assert(bk.contains(seen@[b as int]@));
        let summary = summarize_key(entries, &keys, group_by, &seen[b]);
        let ghost before = summaries@;
        summaries.push(summary);
        assert forall|j: int| 0 <= j < b + 1 implies summarizes(
            #[trigger] summaries@[j],
            entries@,
            g,
            bk[j],
        ) by {
            if j < b {
                assert(summaries@[j] == before[j]);
            }
        }
        b += 1;
    }
    summaries
}

// ---------------------------------------------------------------------------
// Every commit is counted once
// ---------------------------------------------------------------------------

/// How many entries have a key under the grouping.
pub open spec fn keyed_count(entries: Seq<CommitEntry>, group_by: Seq<char>) -> nat
    decreases entries.len(),
{
    if entries.len() == 0 {
        0
    } else {
        keyed_count(entries.drop_last(), group_by) + if group_key(entries.last(), group_by) is Some {
            1nat
        } else {
            0nat
        }
    }
}

/// The commit counts of the given keys, added up.
pub open spec fn sum_key_counts(entries: Seq<CommitEntry>, group_by: Seq<char>, keys: Seq<Seq<char>>) -> nat
    decreases keys.len(),
{
    if keys.len() == 0 {
        0
    } else {
        sum_key_counts(entries, group_by, keys.drop_last()) + key_count(entries, group_by, keys.last())
    }
}

/// How often a key occurs in a list.
pub open spec fn occurrences(keys: Seq<Seq<char>>, k: Seq<char>) -> nat
    decreases keys.len(),
{
    if keys.len() == 0 {
        0
    } else {
        occurrences(keys.drop_last(), k) + if keys.last() == k {
            1nat
        } else {
            0nat
        }
    }
}

proof fn lemma_occurrences(keys: Seq<Seq<char>>, k: Seq<char>)
    requires
        forall|i: int, j: int| 0 <= i < j < keys.len() ==> keys[i] != keys[j],
    ensures
        occurrences(keys, k) == if keys.contains(k) {
            1nat
        } else {
            0nat
        },
    decreases keys.len(),
{
    if keys.len() > 0 {
        let p = keys.drop_last();
        assert forall|i: int, j: int| 0 <= i < j < p.len() implies p[i] != p[j] by {
            assert(p[i] == keys[i] && p[j] == keys[j]);
        }
        lemma_occurrences(p, k);
        if keys.last() == k {
            if p.contains(k) {
                let i = choose|i: int| 0 <= i < p.len() && p[i] == k;
                assert(keys[i] == keys[keys.len() - 1]);
            }
        } else {
            if keys.contains(k) {
                let i = choose|i: int| 0 <= i < keys.len() && keys[i] == k;
                assert(p[i] == k);
            }
            if p.contains(k) {
                let i = choose|i: int| 0 <= i < p.len() && p[i] == k;
                assert(keys[i] == k);
            }
        }
    }
}

proof fn lemma_bucket_keys_distinct(entries: Seq<CommitEntry>, group_by: Seq<char>)
    ensures
        forall|i: int, j: int|
            0 <= i < j < bucket_keys(entries, group_by).len() ==> bucket_keys(entries, group_by)[i]
                != bucket_keys(entries, group_by)[j],
    decreases entries.len(),
{
    if entries.len() > 0 {
        lemma_bucket_keys_distinct(entries.drop_last(), group_by);
        let p = bucket_keys(entries.drop_last(), group_by);
        let b = bucket_keys(entries, group_by);
        assert forall|i: int, j: int| 0 <= i < j < b.len() implies b[i] != b[j] by {
            if j == p.len() {
                assert(b[i] == p[i]);
            } else {
                assert(b[i] == p[i] && b[j] == p[j]);
            }
        }
    }
}

proof fn lemma_counted_keys_in_buckets(entries: Seq<CommitEntry>, group_by: Seq<char>, k: Seq<char>)
    ensures
        key_count(entries, group_by, k) > 0 ==> bucket_keys(entries, group_by).contains(k),
    decreases entries.len(),
{
    if entries.len() > 0 {
        let p = entries.drop_last();
        lemma_counted_keys_in_buckets(p, group_by, k);
        let pb = bucket_keys(p, group_by);
        let b = bucket_keys(entries, group_by);
        if pb.contains(k) {
            let i = choose|i: int| 0 <= i < pb.len() && pb[i] == k;
            assert(b[i] == pb[i]);
        } else if key_count(entries, group_by, k) > 0 {
            assert(group_key(entries.last(), group_by) == Some(k));
            assert(b[b.len() - 1] == k);
        }
    }
}

proof fn lemma_sum_shift(
    e: Seq<CommitEntry>,
    p: Seq<CommitEntry>,
    group_by: Seq<char>,
    keys: Seq<Seq<char>>,
    k0: Option<Seq<char>>,
)
    requires
        forall|k: Seq<char>|
            #[trigger] key_count(e, group_by, k) == key_count(p, group_by, k) + if k0 == Some(k) {
                1nat
            } else {
                0nat
            },
    ensures
        sum_key_counts(e, group_by, keys) == sum_key_counts(p, group_by, keys) + match k0 {
            Some(k) => occurrences(keys, k),
            None => 0nat,
        },
    decreases keys.len(),
{
    if keys.len() > 0 {
        lemma_sum_shift(e, p, group_by, keys.drop_last(), k0);
        assert(key_count(e, group_by, keys.last()) == key_count(p, group_by, keys.last()) + if k0
            == Some(keys.last()) {
            1nat
        } else {
            0nat
        });
    }
}

/// Grouping counts every commit that has a key exactly once: the commit
/// counts of the summaries add up to the number of such commits (all of
/// them, for the groupings `pair`, `name` and `email`).
pub proof fn law_summaries_count_every_commit(entries: Seq<CommitEntry>, group_by: Seq<char>)
    ensures
        sum_key_counts(entries, group_by, bucket_keys(entries, group_by)) == keyed_count(
            entries,
            group_by,
        ),
    decreases entries.len(),
{
    if entries.len() > 0 {
        let p = entries.drop_last();
        let last = entries.last();
        law_summaries_count_every_commit(p, group_by);
        let pb = bucket_keys(p, group_by);
        let k0 = group_key(last, group_by);
        assert forall|k: Seq<char>| #[trigger] key_count(entries, group_by, k) == key_count(
            p,
            group_by,
            k,
        ) + if k0 == Some(k) {
            1nat
        } else {
            0nat
        } by {}
        lemma_bucket_keys_distinct(p, group_by);
        lemma_sum_shift(entries, p, group_by, pb, k0);
        match k0 {
            Some(k) => {
                lemma_occurrences(pb, k);
                if !pb.contains(k) {
                    lemma_counted_keys_in_buckets(p, group_by, k);
                    assert(bucket_keys(entries, group_by) == pb.push(k));
                    assert(pb.push(k).drop_last() =~= pb);
                }
            },
            None => {},
        }
    }
}

} // verus!
