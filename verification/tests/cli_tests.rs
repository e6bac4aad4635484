use hitmap::cli::{
    build_parse_plan, expand_tilde, help_hint_for, parse_date, strip_clap_help_hint, HelpTopic,
};
use hitmap::dates::Date;
use hitmap::render::validate_date_string;

fn args(values: &[&str]) -> Vec<String> {
    values.iter().map(|v| v.to_string()).collect()
}

#[test]
fn rewrites_root_render_flags_to_render_subcommand() {
    let plan = build_parse_plan(args(&["hitmap", "--color-profile", "fire"]));
    assert_eq!(plan.normalized_args, vec!["hitmap", "render", "--color-profile", "fire"]);
    assert!(matches!(plan.help_topic_on_error, HelpTopic::Render));
}

#[test]
fn keeps_help_subcommand_intact() {
    let plan = build_parse_plan(args(&["hitmap", "help", "render"]));
    assert_eq!(plan.normalized_args, vec!["hitmap", "help", "render"]);
    assert!(matches!(plan.help_topic_on_error, HelpTopic::Root));
}

#[test]
fn keeps_config_subcommand_intact() {
    let plan = build_parse_plan(args(&["hitmap", "config", "show"]));
    assert_eq!(plan.normalized_args, vec!["hitmap", "config", "show"]);
    assert!(matches!(plan.help_topic_on_error, HelpTopic::Config));
}

#[test]
fn bare_invocations_render() {
    let plan = build_parse_plan(args(&["hitmap"]));
    assert_eq!(plan.normalized_args, vec!["hitmap", "render"]);
    assert_eq!(plan.help_topic_on_error, HelpTopic::Render);
    let plan = build_parse_plan(args(&["hitmap", "some/repo"]));
    assert_eq!(plan.normalized_args, vec!["hitmap", "render", "some/repo"]);
    let spelled = build_parse_plan(args(&["hitmap", "render", "some/repo"]));
    assert_eq!(spelled.normalized_args, plan.normalized_args);
    let plan = build_parse_plan(args(&["hitmap", "--version"]));
    assert_eq!(plan.normalized_args, vec!["hitmap", "--version"]);
    assert_eq!(plan.help_topic_on_error, HelpTopic::Root);
    let plan = build_parse_plan(args(&["hitmap", "doctor"]));
    assert_eq!(plan.help_topic_on_error, HelpTopic::Doctor);
}

#[test]
fn strips_generic_clap_help_hint() {
    let rendered = "error: bad flag\n\nFor more information, try '--help'.\n";
    assert_eq!(strip_clap_help_hint(rendered), "error: bad flag");
}

#[test]
fn keeps_other_parse_error_lines() {
    assert_eq!(
        strip_clap_help_hint("error: x\r\n  usage\r\nFor more information try '--help'.\r\n\r\n"),
        "error: x\n  usage"
    );
    assert_eq!(strip_clap_help_hint("a\nb\n"), "a\nb");
    assert_eq!(strip_clap_help_hint(""), "");
    assert_eq!(help_hint_for(HelpTopic::Authors), "Run `hitmap authors --help` for full authors usage.");
}

#[test]
fn dates_on_the_command_line() {
    assert_eq!(parse_date("2026-02-28"), Ok(Date { year: 2026, month: 2, day: 28 }));
    let err = parse_date("2026-02-30").unwrap_err();
    assert!(err.starts_with("Invalid date '2026-02-30': "));
    assert_eq!(validate_date_string("2024-02-29"), Ok("2024-02-29".to_string()));
    assert!(validate_date_string("yesterday").is_err());
}

#[test]
fn tilde_expands_to_home() {
    assert_eq!(expand_tilde("~/code/x", Some("/home/u")), "/home/u/code/x");
    assert_eq!(expand_tilde("~", Some("/home/u")), "/home/u");
    assert_eq!(expand_tilde("~u/x", Some("/home/u")), "~u/x");
    assert_eq!(expand_tilde("~/x", None), "~/x");
    assert_eq!(expand_tilde("/abs", Some("/home/u")), "/abs");
}
