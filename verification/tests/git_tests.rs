use hitmap::common::resolve_author_selection;
use hitmap::dates::{day_number_of, Date};
use hitmap::git::{
    collect_author_summaries, collect_commit_day_counts, ensure_author_selection_exists,
    git_log_args, parse_commit_log, sort_by_lowercase, split_char, CommitEntry, GitError,
};

fn entry(date: (i32, u32, u32), name: &str, email: &str) -> CommitEntry {
    CommitEntry {
        date: Date { year: date.0, month: date.1, day: date.2 },
        author_name: name.to_string(),
        author_email: email.to_string(),
    }
}

fn names(values: &[&str]) -> Vec<String> {
    values.iter().map(|v| v.to_string()).collect()
}

#[test]
fn splitting_keeps_empty_pieces() {
    assert_eq!(split_char("a,,b,", ','), names(&["a", "", "b", ""]));
    assert_eq!(split_char("", ','), names(&[""]));
}

#[test]
fn commit_log_lines_become_entries() {
    let log = "2026-01-02\x1fAda\x1fada@example.com\n\n  2026-01-03\x1f Bob \x1fbob@example.com \r\nbroken line\nnot-a-date\x1fCy\x1fcy@example.com\n";
    let entries = parse_commit_log(log);
    assert_eq!(entries.len(), 3);
    assert_eq!(entries[0].date, Date { year: 2026, month: 1, day: 2 });
    assert_eq!(entries[0].author_name, "Ada");
    assert_eq!(entries[1].author_name, "Bob");
    assert_eq!(entries[1].author_email, "bob@example.com");
    assert_eq!(entries[2].date, Date { year: 2000, month: 1, day: 1 });
    assert_eq!(entries[2].author_email, "cy@example.com");
}

#[test]
fn log_arguments_bound_the_days() {
    let args = git_log_args(
        Some(Date { year: 2025, month: 3, day: 5 }),
        Some(Date { year: 2025, month: 12, day: 31 }),
    );
    assert_eq!(
        args,
        names(&[
            "log",
            "--date=short",
            "--pretty=format:%ad\x1f%an\x1f%ae",
            "--since",
            "05 Mar 2025",
            "--before",
            "01 Jan 2026",
        ])
    );
    assert_eq!(git_log_args(None, None).len(), 3);
}

#[test]
fn author_selection_must_match_a_commit() {
    let entries = vec![entry((2026, 1, 2), "Ada", "ada@example.com")];
    let all = resolve_author_selection(true, &[], &[], false).unwrap();
    assert!(ensure_author_selection_exists(&[], &all).is_ok());
    let ada = resolve_author_selection(false, &names(&[" ADA "]), &[], false).unwrap();
    assert!(ensure_author_selection_exists(&entries, &ada).is_ok());
    let bob = resolve_author_selection(false, &names(&["Bob"]), &[], false).unwrap();
    match ensure_author_selection_exists(&entries, &bob) {
        Err(GitError::InvalidRepo(m)) => assert_eq!(
            m,
            "No author matched the requested filters. Use `hitmap authors REPO --search ...` to inspect available identities"
        ),
        _ => panic!("expected an error"),
    }
    assert_eq!(
        GitError::InvalidRepo("x".to_string()).message(),
        "Invalid repository path: x"
    );
}

#[test]
fn day_counts_follow_the_selection() {
    let entries = vec![
        entry((2026, 1, 2), "Ada", "ada@example.com"),
        entry((2026, 1, 2), "Bob", "bob@example.com"),
        entry((2026, 1, 2), "ada", "other@example.com"),
        entry((2026, 1, 5), "Ada", "ada@example.com"),
    ];
    let ada = resolve_author_selection(false, &names(&["Ada"]), &[], false).unwrap();
    let (counts, total, identities) = collect_commit_day_counts(&entries, &ada);
    assert_eq!(total, 3);
    assert_eq!(counts.len(), 2);
    assert_eq!(counts[&day_number_of(Date { year: 2026, month: 1, day: 2 })], 2);
    assert_eq!(counts[&day_number_of(Date { year: 2026, month: 1, day: 5 })], 1);
    assert_eq!(identities[1], ("ada".to_string(), "other@example.com".to_string()));
}

#[test]
fn names_sort_case_insensitively_and_stably() {
    assert_eq!(
        sort_by_lowercase(&names(&["bob", "Alice", "alice", "Carol", "ALICE"])),
        names(&["Alice", "alice", "ALICE", "bob", "Carol"])
    );
}

#[test]
fn summaries_group_identities() {
    let entries = vec![
        entry((2026, 1, 2), "Ada", "ada@example.com"),
        entry((2026, 1, 3), "Bob", "bob@example.com"),
        entry((2026, 1, 4), "ada", "ADA@example.com"),
        entry((2026, 1, 5), "Ada L", "ada@example.com"),
    ];
    let by_email = collect_author_summaries(&entries, "email");
    assert_eq!(by_email.len(), 2);
    assert_eq!(by_email[0].commits, 3);
    assert_eq!(by_email[0].primary_name, "Ada");
    assert_eq!(by_email[0].primary_email, "ada@example.com");
    assert_eq!(by_email[0].names, names(&["Ada", "ada", "Ada L"]));
    assert_eq!(by_email[0].emails, names(&["ada@example.com", "ADA@example.com"]));
    assert_eq!(by_email[1].commits, 1);
    let by_pair = collect_author_summaries(&entries, "pair");
    assert_eq!(by_pair.len(), 3);
    assert_eq!(by_pair.iter().map(|s| s.commits).sum::<u64>(), 4);
    let by_name = collect_author_summaries(&entries, "name");
    assert_eq!(by_name.len(), 3);
    assert_eq!(by_name[0].commits, 2);
    assert!(collect_author_summaries(&entries, "other").is_empty());
}
