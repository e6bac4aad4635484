use hitmap::palette::{
    canonical_color_profile_name, get_color_profiles, hex_to_rgb, load_palette,
    resolve_color_profile, rgb_to_hex, validate_color_profile_name, COLOR_PROFILE_NAMES,
};

#[test]
fn test_hex_to_rgb() {
    assert_eq!(hex_to_rgb("#000000"), (0, 0, 0));
    assert_eq!(hex_to_rgb("#ffffff"), (255, 255, 255));
    assert_eq!(hex_to_rgb("#ff0000"), (255, 0, 0));
    assert_eq!(hex_to_rgb("#00ff00"), (0, 255, 0));
    assert_eq!(hex_to_rgb("#0000ff"), (0, 0, 255));
    assert_eq!(hex_to_rgb("#123456"), (0x12, 0x34, 0x56));
}

#[test]
fn test_hex_to_rgb_invalid() {
    assert_eq!(hex_to_rgb("#000"), (0, 0, 0));
    assert_eq!(hex_to_rgb("invalid"), (0, 0, 0));
    assert_eq!(hex_to_rgb(""), (0, 0, 0));
}

#[test]
fn hex_to_rgb_reads_signed_and_partial_components() {
    assert_eq!(hex_to_rgb("##+fzz10"), (15, 0, 16));
    assert_eq!(hex_to_rgb("ABCDEF"), (0xab, 0xcd, 0xef));
    assert_eq!(hex_to_rgb("#-1ff00"), (0, 255, 0));
}

#[test]
fn rgb_to_hex_round_trips() {
    assert_eq!(rgb_to_hex((0x0e, 0x44, 0x29)), "#0e4429");
    for rgb in [(0, 0, 0), (255, 255, 255), (1, 2, 3), (200, 17, 99)] {
        assert_eq!(hex_to_rgb(&rgb_to_hex(rgb)), rgb);
    }
}

#[test]
fn test_canonical_color_profile_name() {
    assert_eq!(canonical_color_profile_name("catppuccin", false), "catppuccin-latte");
    assert_eq!(canonical_color_profile_name("catppuccin", true), "catppuccin-mocha");
    assert_eq!(canonical_color_profile_name("CaTpPuCcIn-MoChA", true), "catppuccin-mocha");
}

#[test]
fn canonical_color_profile_name_trims_whitespace() {
    assert_eq!(canonical_color_profile_name("  Fire\t", false), "fire");
    assert_eq!(canonical_color_profile_name(" CATPPUCCIN ", true), "catppuccin-mocha");
}

#[test]
fn test_validate_color_profile_name() {
    assert_eq!(validate_color_profile_name("github").unwrap(), "github");
    assert_eq!(validate_color_profile_name("catppuccin").unwrap(), "catppuccin");
    assert!(validate_color_profile_name("invalid").is_err());
}

#[test]
fn validate_color_profile_name_reports_the_choices() {
    assert_eq!(
        validate_color_profile_name("purple").unwrap_err(),
        "Use one of: github, aurora, ocean, fire, catppuccin-latte, catppuccin-frappe, catppuccin-macchiato, catppuccin-mocha"
    );
    assert_eq!(validate_color_profile_name(" OCEAN ").unwrap(), "ocean");
}

#[test]
fn test_resolve_color_profile() {
    let profile = resolve_color_profile("github", false).unwrap();
    assert_eq!(profile.background, "#ffffff");
    assert_eq!(profile.empty_cell, "#ebedf0");
    assert_eq!(profile.cells.len(), 5);

    let profile = resolve_color_profile("github", true).unwrap();
    assert_eq!(profile.background, "#0d1117");
    assert_eq!(profile.empty_cell, "#161b22");
    assert_eq!(profile.cells.len(), 5);
}

#[test]
fn test_resolve_color_profile_uses_theme_specific_backgrounds() {
    assert_eq!(resolve_color_profile("aurora", true).unwrap().background, "#1c1f28");
    assert_eq!(resolve_color_profile("ocean", true).unwrap().background, "#121820");
    assert_eq!(resolve_color_profile("fire", true).unwrap().background, "#1c1412");
    assert_eq!(
        resolve_color_profile("catppuccin-mocha", true).unwrap().background,
        "#1e1e2e"
    );
}

#[test]
fn test_resolve_color_profile_invalid() {
    assert!(resolve_color_profile("invalid", false).is_err());
}

#[test]
fn resolve_color_profile_error_quotes_the_name() {
    assert_eq!(
        resolve_color_profile("neon", true).unwrap_err(),
        "Unknown color profile: \"neon\". Valid profiles: github, aurora, ocean, fire, catppuccin-latte, catppuccin-frappe, catppuccin-macchiato, catppuccin-mocha"
    );
}

#[test]
fn test_load_palette() {
    let palette = load_palette(false, 5, "github").unwrap();
    assert_eq!(palette.background, "#ffffff");
    assert_eq!(palette.cells.len(), 5);

    let palette = load_palette(true, 5, "github").unwrap();
    assert_eq!(palette.background, "#0d1117");
    assert_eq!(palette.cells.len(), 5);
}

#[test]
fn test_load_palette_uses_profile_specific_surfaces() {
    let palette = load_palette(false, 5, "catppuccin-latte").unwrap();
    assert_eq!(palette.background, "#eff1f5");
    assert_eq!(palette.text, "#4c4f69");
    assert_eq!(palette.empty_cell, "#ccd0da");

    let palette = load_palette(true, 5, "catppuccin-frappe").unwrap();
    assert_eq!(palette.background, "#303446");
    assert_eq!(palette.text, "#c6d0f5");
    assert_eq!(palette.empty_cell, "#414559");
}

#[test]
fn test_load_palette_cell_count() {
    let palette = load_palette(false, 10, "github").unwrap();
    assert_eq!(palette.cells.len(), 10);
}

#[test]
fn load_palette_pads_with_the_last_stop_and_truncates() {
    let palette = load_palette(false, 7, "github").unwrap();
    assert_eq!(
        palette.cells,
        vec!["#9be9a8", "#40c463", "#30a14e", "#216e39", "#0f5323", "#0f5323", "#0f5323"]
    );
    let palette = load_palette(true, 2, "fire").unwrap();
    assert_eq!(palette.cells, vec!["#6b2e1a", "#c44a2a"]);
    assert_eq!(palette.subtle_text, "#8b949e");
    let palette = load_palette(true, 0, "catppuccin").unwrap();
    assert!(palette.cells.is_empty());
    assert_eq!(palette.background, "#1e1e2e");
}

#[test]
fn test_get_color_profiles() {
    let profiles = get_color_profiles();
    assert!(profiles.contains_key("github"));
    assert!(profiles.contains_key("aurora"));
    assert!(profiles.contains_key("ocean"));
    assert!(profiles.contains_key("fire"));
    assert!(profiles.contains_key("catppuccin-latte"));
    assert!(profiles.contains_key("catppuccin-frappe"));
    assert!(profiles.contains_key("catppuccin-macchiato"));
    assert!(profiles.contains_key("catppuccin-mocha"));
    assert!(!profiles.contains_key("catppuccin"));
}

#[test]
fn every_named_profile_is_in_the_table() {
    let profiles = get_color_profiles();
    assert_eq!(profiles.len(), COLOR_PROFILE_NAMES.len());
    for name in COLOR_PROFILE_NAMES {
        let profile = profiles.get(name).unwrap();
        assert_eq!(resolve_color_profile(name, true).unwrap().background, profile.dark.background);
        assert_eq!(resolve_color_profile(name, false).unwrap().background, profile.light.background);
    }
}
