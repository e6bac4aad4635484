use hitmap::authors::{resolve_output_format, select_author_rows, tsv_lines, AuthorSortBy, AuthorsArgs, GroupBy, OutputFormat, SortOrder};
use hitmap::common::AuthorSummary;
use hitmap::config::{
    config_template, effective_config, resolve_config_path_from_env, validate_render_scale_bits,
    AuthorsConfig, ConfigKey, DoctorConfig, HitmapConfig, RenderConfig,
};
use hitmap::doctor::{resolve_doctor_format, DoctorFormat};
use hitmap::render::{effective_thresholds, RenderArgs, Renderer, DEFAULT_COLOR_PROFILE, DEFAULT_RENDERER, DEFAULT_SCALE_MULTIPLIER, DEFAULT_SCALE_PROFILE, DEFAULT_THEME};

fn sample_render_args() -> RenderArgs {
    RenderArgs {
        repo_path: ".".to_string(),
        all_authors: false,
        author_name: Vec::new(),
        author_email: Vec::new(),
        max_width_cells: None,
        render_scale: None,
        output: None,
        renderer: None,
        text_mode: false,
        theme: None,
        cell_count: 0,
        color_profile: None,
        scale_profile: None,
        scale_multiplier: None,
        from_date: None,
        to_date: None,
        last: "1y".to_string(),
        quiet: false,
        verbose: false,
    }
}

#[test]
fn resolves_xdg_path_when_available() {
    let path = resolve_config_path_from_env(Some("/tmp/xdg"), Some("/tmp/home")).unwrap();
    assert_eq!(path, "/tmp/xdg/hitmap/hitmap.toml");
}

#[test]
fn falls_back_to_home_config_path() {
    let path = resolve_config_path_from_env(None, Some("/tmp/home")).unwrap();
    assert_eq!(path, "/tmp/home/.config/hitmap/hitmap.toml");
}

#[test]
fn config_path_needs_a_base_directory() {
    assert_eq!(resolve_config_path_from_env(Some("/x/"), None).unwrap(), "/x/hitmap/hitmap.toml");
    assert!(resolve_config_path_from_env(Some(""), Some("")).is_err());
}

#[test]
fn set_and_unset_round_trip() {
    let mut config = HitmapConfig::default();
    ConfigKey::parse("render.theme").unwrap().set_value(&mut config, "dark", None).unwrap();
    ConfigKey::parse("authors.output_format").unwrap().set_value(&mut config, "json", None).unwrap();
    assert!(config.validate_semantics().is_ok());
    assert_eq!(config.render.as_ref().unwrap().theme.as_deref(), Some("dark"));
    assert_eq!(config.authors.as_ref().unwrap().output_format.as_deref(), Some("json"));
    ConfigKey::parse("render.theme").unwrap().unset(&mut config);
    ConfigKey::parse("authors.output_format").unwrap().unset(&mut config);
    assert!(config.is_empty(), "empty config file should be removed");
}

#[test]
fn set_value_checks_and_normalizes() {
    let mut config = HitmapConfig::default();
    let renderer = ConfigKey::parse(" render.renderer ").unwrap();
    renderer.set_value(&mut config, " TEXT ", None).unwrap();
    assert_eq!(config.render.as_ref().unwrap().renderer.as_deref(), Some("text"));
    assert_eq!(
        renderer.set_value(&mut config, "png", None),
        Err("Renderer must be one of: kitty, text".to_string())
    );
    let multiplier = ConfigKey::parse("render.scale_multiplier").unwrap();
    assert_eq!(
        multiplier.set_value(&mut config, "0", None),
        Err("render.scale_multiplier must be greater than or equal to 1".to_string())
    );
    assert_eq!(
        multiplier.set_value(&mut config, "-2", None),
        Err("render.scale_multiplier must be an integer greater than or equal to 1".to_string())
    );
    multiplier.set_value(&mut config, " +3 ", None).unwrap();
    assert_eq!(config.render.as_ref().unwrap().scale_multiplier, Some(3));
    let scale = ConfigKey::parse("render.render_scale").unwrap();
    assert_eq!(
        scale.set_value(&mut config, "0.5", Some(0.5f64.to_bits())),
        Err("Render scale must be greater than or equal to 1.0.".to_string())
    );
    assert_eq!(
        scale.set_value(&mut config, "x", None),
        Err("render.render_scale must be a number greater than or equal to 1.0".to_string())
    );
    assert_eq!(
        scale.set_value(&mut config, "NaN", Some(f64::NAN.to_bits())),
        Err("Render scale must be greater than or equal to 1.0.".to_string())
    );
    scale.set_value(&mut config, "1.5", Some(1.5f64.to_bits())).unwrap();
    assert_eq!(config.render.as_ref().unwrap().render_scale, Some(1.5f64.to_bits()));
    assert!(ConfigKey::parse("render.nope").unwrap_err().starts_with("Unsupported config key: render.nope. Supported keys: render.renderer"));
}

#[test]
fn render_scale_bits_compare_with_one() {
    assert!(validate_render_scale_bits(1.0f64.to_bits()).is_ok());
    assert!(validate_render_scale_bits(f64::INFINITY.to_bits()).is_ok());
    assert_eq!(
        validate_render_scale_bits(f64::NAN.to_bits()),
        Err("Render scale must be greater than or equal to 1.0.".to_string())
    );
    assert!(validate_render_scale_bits((-f64::NAN).to_bits()).is_err());
    assert!(validate_render_scale_bits(0.999f64.to_bits()).is_err());
    assert!(validate_render_scale_bits((-0.0f64).to_bits()).is_err());
    assert!(validate_render_scale_bits((-3.0f64).to_bits()).is_err());
}

#[test]
fn validation_reports_the_first_bad_key() {
    let config = HitmapConfig {
        render: Some(RenderConfig {
            theme: Some("blue".to_string()),
            scale_multiplier: Some(0),
            ..Default::default()
        }),
        authors: None,
        doctor: Some(DoctorConfig { output_format: Some("tsv".to_string()) }),
    };
    assert_eq!(
        config.validate_semantics(),
        Err("render.theme: Theme must be one of: auto, light, dark".to_string())
    );
    let config = HitmapConfig {
        render: None,
        authors: None,
        doctor: Some(DoctorConfig { output_format: Some("tsv".to_string()) }),
    };
    assert_eq!(
        config.validate_semantics(),
        Err("doctor.output_format: Doctor output format must be one of: table, json".to_string())
    );
}

#[test]
fn effective_config_merges_defaults_and_saved_values() {
    let config = HitmapConfig {
        render: Some(RenderConfig {
            theme: Some("dark".to_string()),
            color_profile: Some("ocean".to_string()),
            ..Default::default()
        }),
        authors: Some(AuthorsConfig { output_format: Some("json".to_string()) }),
        doctor: None,
    };

    let effective = effective_config(&config).unwrap();
    let render = effective.render.unwrap();
    assert_eq!(render.renderer.as_deref(), Some("kitty"));
    assert_eq!(render.theme.as_deref(), Some("dark"));
    assert_eq!(render.color_profile.as_deref(), Some("ocean"));
    assert_eq!(render.scale_profile.as_deref(), Some("fibonacci-21-plus"));
    assert_eq!(render.scale_multiplier, Some(1));
    assert_eq!(render.render_scale.map(f64::from_bits), Some(2.0));
    assert_eq!(render.max_width_cells, None);
    assert_eq!(effective.authors.unwrap().output_format.as_deref(), Some("json"));
    assert_eq!(effective.doctor.unwrap().output_format.as_deref(), Some("table"));
}

#[test]
fn template_is_commented() {
    let content = config_template();
    assert!(content.contains("# hitmap configuration"));
    assert!(content.contains("# renderer = \"kitty\""));
    assert!(content.contains("# output_format = \"table\""));
    assert!(content.contains("color_profile = \"github\""));
}

#[test]
fn resolve_settings_uses_config_when_cli_is_missing() {
    let args = sample_render_args();
    let config = HitmapConfig {
        render: Some(RenderConfig {
            renderer: Some("text".to_string()),
            theme: Some("dark".to_string()),
            color_profile: Some("ocean".to_string()),
            scale_profile: Some("linear-10-plus".to_string()),
            scale_multiplier: Some(3),
            render_scale: Some(3.0f64.to_bits()),
            max_width_cells: Some(88),
        }),
        authors: None,
        doctor: None,
    };

    let resolved = args.resolve_settings(&config).unwrap();
    assert_eq!(resolved.renderer, Renderer::Text);
    assert_eq!(resolved.theme, "dark");
    assert_eq!(resolved.color_profile, "ocean");
    assert_eq!(resolved.scale_profile, "linear-10-plus");
    assert_eq!(resolved.scale_multiplier, 3);
    assert_eq!(f64::from_bits(resolved.render_scale), 3.0);
    assert_eq!(resolved.max_width_cells, Some(88));
}

#[test]
fn resolve_settings_prefers_cli_over_config_and_falls_back_to_defaults() {
    let mut args = sample_render_args();
    args.renderer = Some(Renderer::Text);
    args.theme = Some("light".to_string());
    args.color_profile = Some("fire".to_string());
    args.scale_profile = Some("linear-5-plus".to_string());
    args.scale_multiplier = Some(2);
    args.render_scale = Some(4.0f64.to_bits());
    args.max_width_cells = Some(99);

    let config = HitmapConfig {
        render: Some(RenderConfig {
            renderer: Some("kitty".to_string()),
            theme: Some("dark".to_string()),
            color_profile: Some("ocean".to_string()),
            scale_profile: Some("linear-10-plus".to_string()),
            scale_multiplier: Some(3),
            render_scale: Some(3.0f64.to_bits()),
            max_width_cells: Some(88),
        }),
        authors: None,
        doctor: None,
    };

    let resolved = args.resolve_settings(&config).unwrap();
    assert_eq!(resolved.renderer, Renderer::Text);
    assert_eq!(resolved.theme, "light");
    assert_eq!(resolved.color_profile, "fire");
    assert_eq!(resolved.scale_profile, "linear-5-plus");
    assert_eq!(resolved.scale_multiplier, 2);
    assert_eq!(f64::from_bits(resolved.render_scale), 4.0);
    assert_eq!(resolved.max_width_cells, Some(99));

    let defaults = sample_render_args().resolve_settings(&HitmapConfig::default()).unwrap();
    assert_eq!(defaults.renderer, DEFAULT_RENDERER);
    assert_eq!(defaults.theme, DEFAULT_THEME);
    assert_eq!(defaults.color_profile, DEFAULT_COLOR_PROFILE);
    assert_eq!(defaults.scale_profile, DEFAULT_SCALE_PROFILE);
    assert_eq!(defaults.scale_multiplier, DEFAULT_SCALE_MULTIPLIER);
    assert_eq!(f64::from_bits(defaults.render_scale), 2.0);
    assert_eq!(defaults.max_width_cells, None);
}

#[test]
fn resolve_settings_reports_bad_values() {
    let mut args = sample_render_args();
    args.render_scale = Some(0.5f64.to_bits());
    assert_eq!(
        args.resolve_settings(&HitmapConfig::default()).err(),
        Some("Render scale must be greater than or equal to 1.0.".to_string())
    );
    let mut args = sample_render_args();
    args.text_mode = true;
    args.scale_multiplier = Some(0);
    assert_eq!(
        args.resolve_settings(&HitmapConfig::default()).err(),
        Some("Scale multiplier must be greater than or equal to 1.".to_string())
    );
}

#[test]
fn thresholds_follow_the_cell_count() {
    assert_eq!(effective_thresholds(&[1, 2, 3, 5, 8], 0), (5, vec![1, 2, 3, 5, 8]));
    assert_eq!(effective_thresholds(&[1, 2, 3, 5, 8], 2), (2, vec![1, 2]));
    assert_eq!(effective_thresholds(&[1, 2], 7), (7, vec![1, 2]));
}

#[test]
fn output_formats_come_from_flag_then_config() {
    let config = HitmapConfig {
        render: None,
        authors: Some(AuthorsConfig { output_format: Some(" TSV".to_string()) }),
        doctor: Some(DoctorConfig { output_format: Some("json".to_string()) }),
    };
    assert_eq!(resolve_output_format(None, &config), Ok(OutputFormat::Tsv));
    assert_eq!(resolve_output_format(Some(OutputFormat::Json), &config), Ok(OutputFormat::Json));
    assert_eq!(resolve_output_format(None, &HitmapConfig::default()), Ok(OutputFormat::Table));
    assert_eq!(resolve_doctor_format(None, &config), Ok(DoctorFormat::Json));
    assert_eq!(resolve_doctor_format(None, &HitmapConfig::default()), Ok(DoctorFormat::Table));
}

fn summary(commits: u64, name: &str, email: &str) -> AuthorSummary {
    AuthorSummary {
        commits,
        primary_name: name.to_string(),
        primary_email: email.to_string(),
        names: vec![name.to_string()],
        emails: vec![email.to_string()],
    }
}

#[test]
fn author_rows_filter_sort_and_limit() {
    let rows = vec![
        summary(3, "Bob", "bob@x"),
        summary(5, "Ada", "ada@x"),
        summary(3, "Cy", "cy@x"),
        summary(1, "Dee", "dee@y"),
    ];
    let by_commits = select_author_rows(rows.clone(), None, AuthorSortBy::Commits, None, None);
    let names: Vec<&str> = by_commits.iter().map(|s| s.primary_name.as_str()).collect();
    assert_eq!(names, vec!["Ada", "Bob", "Cy", "Dee"]);
    let asc = select_author_rows(rows.clone(), None, AuthorSortBy::Commits, Some(SortOrder::Asc), Some(2));
    let names: Vec<&str> = asc.iter().map(|s| s.primary_name.as_str()).collect();
    assert_eq!(names, vec!["Dee", "Bob"]);
    let by_name = select_author_rows(rows.clone(), Some("@X"), AuthorSortBy::Name, None, None);
    let names: Vec<&str> = by_name.iter().map(|s| s.primary_name.as_str()).collect();
    assert_eq!(names, vec!["Ada", "Bob", "Cy"]);
    let by_email = select_author_rows(rows, None, AuthorSortBy::Email, Some(SortOrder::Desc), Some(0));
    assert!(by_email.is_empty());
}

#[test]
fn tsv_rows_carry_the_options() {
    let args = AuthorsArgs {
        repo_path: "repo".to_string(),
        sort: AuthorSortBy::Commits,
        order: None,
        group_by: GroupBy::Pair,
        search: None,
        limit: None,
        output_format: None,
    };
    let lines = tsv_lines(&[summary(2, "Ada", "ada@x")], &args);
    assert_eq!(lines[0], "repo\tsort\torder\tgroup_by\tcommits\tprimary_name\tprimary_email\tnames\temails");
    assert_eq!(lines[1], "repo\tcommits\tdesc\tpair\t2\tAda\tada@x\tAda\tada@x");
}
