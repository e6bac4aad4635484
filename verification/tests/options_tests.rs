use hitmap::authors::{
    parse_output_format_name, resolved_sort_order, summarize_values, summary_matches_search,
    OutputFormat, SortOrder,
};
use hitmap::common::{
    colorfgbg_dark,
    author_matches, days_in_month, dedupe_preserving_order, describe_author_selection,
    normalize_text, parse_last_window, resolve_author_selection, resolve_dark_mode,
    AuthorSummary,
};
use hitmap::doctor::{parse_doctor_format_name, DoctorFormat};
use hitmap::render::{
    parse_renderer_name, validate_last_window, validate_scale_profile_name, validate_theme_name,
    Renderer,
};

fn strings(values: &[&str]) -> Vec<String> {
    values.iter().map(|v| v.to_string()).collect()
}

#[test]
fn dedupe_keeps_first_spelling_and_drops_blanks() {
    let values = strings(&["Jane", " jane ", "", "  ", "Bob", "JANE", "bob"]);
    assert_eq!(dedupe_preserving_order(&values), strings(&["Jane", "Bob"]));
}

#[test]
fn normalize_text_trims_and_lowercases() {
    assert_eq!(normalize_text("  Jane DOE\n"), "jane doe");
    assert_eq!(normalize_text("ÉCOLE"), "école");
}

#[test]
fn author_selection_rules() {
    let none: Vec<String> = Vec::new();
    let names = strings(&["Jane", "jane"]);
    assert_eq!(
        resolve_author_selection(true, &names, &none, false).unwrap_err(),
        "--all-authors cannot be combined with --author-name or --author-email"
    );
    assert_eq!(
        resolve_author_selection(false, &none, &none, false).unwrap_err(),
        "Select authors with --all-authors, --author-name, or --author-email"
    );
    let all = resolve_author_selection(false, &none, &none, true).unwrap();
    assert!(all.all_authors);
    assert_eq!(describe_author_selection(&all), "all authors");
    let sel = resolve_author_selection(false, &names, &strings(&["a@x.io", "b@x.io"]), false).unwrap();
    assert!(!sel.all_authors);
    assert_eq!(sel.author_names, strings(&["Jane"]));
    assert_eq!(sel.normalized_names, strings(&["jane"]));
    assert_eq!(describe_author_selection(&sel), "name=Jane or email=a@x.io, b@x.io");
    assert!(author_matches(&sel, " JANE ", "other@x.io"));
    assert!(author_matches(&sel, "Someone", "B@X.IO"));
    assert!(!author_matches(&sel, "Someone", "c@x.io"));
}

#[test]
fn dark_mode_resolution() {
    assert!(resolve_dark_mode("DARK", || false));
    assert!(!resolve_dark_mode("light", || true));
    assert!(resolve_dark_mode("Auto", || true));
    assert!(!resolve_dark_mode("auto", || false));
    assert!(!resolve_dark_mode("blue", || true));
}

#[test]
fn month_lengths() {
    assert_eq!(days_in_month(2024, 2), 29);
    assert_eq!(days_in_month(1900, 2), 28);
    assert_eq!(days_in_month(2000, 2), 29);
    assert_eq!(days_in_month(2023, 4), 30);
    assert_eq!(days_in_month(2023, 12), 31);
    assert_eq!(days_in_month(2023, 13), 30);
}

#[test]
fn last_window_grammar() {
    assert_eq!(parse_last_window("90d"), Ok((90, 'd')));
    assert_eq!(parse_last_window(" 12W "), Ok((12, 'W')));
    assert_eq!(parse_last_window("6mo"), Ok((6, 'm')));
    assert_eq!(parse_last_window("1"), Err("Invalid --last value: '1'".to_string()));
    assert_eq!(parse_last_window("12"), Err("Invalid --last value: '12'".to_string()));
    assert_eq!(parse_last_window("d9"), Err("Invalid --last value: 'd9'".to_string()));
    assert_eq!(parse_last_window("5x"), Err("Invalid --last unit: 'x'".to_string()));
    assert_eq!(
        parse_last_window("99999999999d"),
        Err("Invalid --last value: '99999999999d'".to_string())
    );
    assert_eq!(validate_last_window("3y"), Ok("3y".to_string()));
    assert_eq!(validate_last_window("3q"), Err("Use forms like 90d, 12w, 6m, or 1y.".to_string()));
}

#[test]
fn option_value_parsers() {
    assert_eq!(parse_output_format_name(" JSON "), Ok(OutputFormat::Json));
    assert_eq!(parse_output_format_name("tsv"), Ok(OutputFormat::Tsv));
    assert!(parse_output_format_name("csv").is_err());
    assert_eq!(parse_doctor_format_name("Table"), Ok(DoctorFormat::Table));
    assert!(parse_doctor_format_name("tsv").is_err());
    assert_eq!(parse_renderer_name(" Kitty"), Ok(Renderer::Kitty));
    assert_eq!(parse_renderer_name("text"), Ok(Renderer::Text));
    assert_eq!(parse_renderer_name("sixel"), Err("Renderer must be one of: kitty, text".to_string()));
    assert_eq!(validate_theme_name(" DARK "), Ok("dark".to_string()));
    assert_eq!(validate_theme_name("blue"), Err("Theme must be one of: auto, light, dark".to_string()));
    assert_eq!(validate_scale_profile_name(" Linear-5-Plus "), Ok("linear-5-plus".to_string()));
    assert!(validate_scale_profile_name("linear-five-plus").is_err());
}

#[test]
fn sort_order_defaults() {
    assert_eq!(resolved_sort_order("commits", None), "desc");
    assert_eq!(resolved_sort_order("name", None), "asc");
    assert_eq!(resolved_sort_order("commits", Some(&SortOrder::Asc)), "asc");
    assert_eq!(resolved_sort_order("email", Some(&SortOrder::Desc)), "desc");
}

#[test]
fn summaries_search_and_summarize() {
    let summary = AuthorSummary {
        commits: 3,
        primary_name: "Jane Doe".to_string(),
        primary_email: "jane@example.com".to_string(),
        names: strings(&["Jane Doe", "J. Doe"]),
        emails: strings(&["jane@example.com", "JD@Work.org"]),
    };
    assert!(summary_matches_search(&summary, None));
    assert!(summary_matches_search(&summary, Some("DOE")));
    assert!(summary_matches_search(&summary, Some("work.ORG")));
    assert!(summary_matches_search(&summary, Some("j. d")));
    assert!(!summary_matches_search(&summary, Some("smith")));
    assert_eq!(summarize_values(&summary.emails), "jane@example.com, JD@Work.org");
    assert_eq!(summarize_values(&[]), "");
}

#[test]
fn colorfgbg_background_index_decides_dark_theme() {
    assert_eq!(colorfgbg_dark("15;0"), Some(true));
    assert_eq!(colorfgbg_dark("0;15"), Some(false));
    assert_eq!(colorfgbg_dark("7"), Some(true));
    assert_eq!(colorfgbg_dark("0;default;8"), Some(false));
    assert_eq!(colorfgbg_dark("15;+3"), Some(true));
    assert_eq!(colorfgbg_dark("15;256"), None);
    assert_eq!(colorfgbg_dark("15;"), None);
    assert_eq!(colorfgbg_dark("15;-1"), None);
    assert_eq!(colorfgbg_dark("0;15;x"), None);
}
