use hitmap::palette::{load_palette, COLOR_PROFILE_NAMES};
use hitmap::dates::Date;
use hitmap::sections::YearSection;
use hitmap::text::{
    fallback_glyph, month_line, render_filled_cell, render_hitmap_text, render_legend,
    render_row, resolve_layout_width, resolve_text_colors, row_prefix, style_truecolor,
};

fn sample_section() -> YearSection {
    let visible_start = Date { year: 2026, month: 1, day: 4 };
    let visible_end = Date { year: 2026, month: 1, day: 17 };
    let mut day_counts = vec![0u64; 14];
    day_counts[0] = 1;
    day_counts[1] = 3;
    day_counts[7 + 3] = 7;
    YearSection {
        label: "2026-01-04 - 2026-01-17".to_string(),
        range_start: visible_start,
        range_end: visible_end,
        visible_start,
        visible_end,
        week_count: 2,
        month_labels: vec![(0, "Jan".to_string())],
        day_counts,
    }
}

#[test]
fn month_line_places_labels_on_week_boundaries() {
    let section = sample_section();
    assert_eq!(month_line(&section, 2), "    Jan");
}

#[test]
fn text_render_contains_section_and_legend() {
    let rendered =
        render_hitmap_text(&[sample_section()], &[1, 3, 5], "github", false, Some(80), 120, false)
            .unwrap();
    assert!(rendered.contains("2026-01-04 - 2026-01-17"));
    assert!(rendered.contains("· 0"));
    assert!(!rendered.contains("Legend:"));
    assert!(rendered.contains("Mon "));
}

#[test]
fn text_render_uses_fixed_cell_width() {
    let err = render_hitmap_text(&[sample_section()], &[1, 3, 5], "github", false, Some(7), 120, false)
        .unwrap_err();
    assert!(err.contains("fixed cell width"));
}

#[test]
fn text_render_lays_out_rows_and_legend() {
    let rendered =
        render_hitmap_text(&[sample_section()], &[1, 3, 5], "github", false, None, 120, false)
            .unwrap();
    let lines: Vec<&str> = rendered.split('\n').collect();
    assert_eq!(lines[0], "2026-01-04 - 2026-01-17");
    assert_eq!(lines[1], "    Jan");
    assert_eq!(lines[2], "    ▫ · ");
    assert_eq!(lines[3], "Mon ▪ · ");
    assert_eq!(lines[5], "Wed · ◾ ");
    assert_eq!(lines.len(), 11);
    assert_eq!(lines[9], "");
    assert_eq!(lines[10], "· 0  ▫ 1  ▪ 3  ◾ 5+");
}

#[test]
fn text_render_refuses_empty_input() {
    assert_eq!(
        render_hitmap_text(&[], &[1], "github", false, None, 120, false).unwrap_err(),
        "No hitmap sections were generated"
    );
    assert_eq!(
        render_hitmap_text(&[sample_section()], &[], "github", false, None, 120, false).unwrap_err(),
        "Text renderer requires at least one threshold"
    );
    assert!(render_hitmap_text(&[sample_section()], &[1], "nope", false, None, 120, false)
        .unwrap_err()
        .starts_with("Unknown color profile"));
}

#[test]
fn layout_width_comes_from_the_weeks() {
    assert_eq!(resolve_layout_width(53, None, 120), Ok(110));
    assert_eq!(resolve_layout_width(53, Some(200), 50), Ok(110));
    assert_eq!(
        resolve_layout_width(53, None, 100),
        Err("Terminal is too narrow for a text hitmap (need at least 110 columns; text mode keeps a fixed cell width)".to_string())
    );
}

#[test]
fn rows_blank_days_outside_the_range() {
    let mut section = sample_section();
    section.range_start = Date { year: 2026, month: 1, day: 5 };
    let colors = vec!["#000000".to_string(), "#111111".to_string(), "#222222".to_string()];
    assert_eq!(render_row(&section, 0, 2, &[1, 3, 5], &colors, false), "      · ");
    assert_eq!(render_row(&section, 1, 2, &[1, 3, 5], &colors, false), "Mon ▪ · ");
    assert_eq!(
        render_row(&section, 1, 1, &[1, 3, 5], &colors, true),
        "Mon \x1b[38;2;17;17;17m■\x1b[0m·"
    );
}

#[test]
fn legend_is_right_aligned_within_layout() {
    let legend = render_legend(&[1], &["#40c463".to_string()], false, 20);
    assert!(legend.starts_with(" "));
    assert!(legend.trim_start().starts_with("· 0"));
    assert!(!legend.contains("Legend:"));
}

#[test]
fn legend_lists_every_threshold() {
    let colors = vec!["#000000".to_string(), "#111111".to_string(), "#222222".to_string()];
    assert_eq!(render_legend(&[1, 3, 5], &colors, false, 0), "· 0  ▫ 1  ▪ 3  ◾ 5+");
    assert_eq!(render_legend(&[1, 3, 5], &colors, false, 22), "   · 0  ▫ 1  ▪ 3  ◾ 5+");
    assert_eq!(
        render_legend(&[2], &["#0a0b0c".to_string()], true, 0),
        "· 0  \x1b[38;2;10;11;12m■\x1b[0m 2+"
    );
}

#[test]
fn text_colors_match_palette_bucket_order_for_github_dark() {
    let colors = resolve_text_colors(true, 7, "github").unwrap();
    assert_eq!(colors[0], "#0e4429");
    assert_eq!(colors[1], "#006d32");
    assert_eq!(colors[2], "#26a641");
    assert_eq!(colors[3], "#39d353");
    assert_eq!(colors[4], "#52d989");
    assert_eq!(colors[5], "#52d989");
    assert_eq!(colors[6], "#52d989");
}

#[test]
fn text_colors_match_kitty_palette_for_all_profiles_and_themes() {
    for dark_mode in [false, true] {
        for profile_name in COLOR_PROFILE_NAMES {
            let expected = load_palette(dark_mode, 7, profile_name).unwrap().cells;
            let actual = resolve_text_colors(dark_mode, 7, profile_name).unwrap();
            assert_eq!(actual, expected, "profile={} dark_mode={}", profile_name, dark_mode);
        }
    }
}

#[test]
fn glyphs_rise_with_the_bucket() {
    assert_eq!(fallback_glyph(0, 5), "·");
    assert_eq!(fallback_glyph(3, 1), "■");
    assert_eq!(fallback_glyph(1, 5), "▫");
    assert_eq!(fallback_glyph(3, 5), "▪");
    assert_eq!(fallback_glyph(4, 5), "◾");
    assert_eq!(fallback_glyph(5, 5), "■");
    assert_eq!(fallback_glyph(9, 5), "■");
}

#[test]
fn row_prefixes_label_alternate_weekdays() {
    let labels: Vec<&str> = (0..7u8).map(row_prefix).collect();
    assert_eq!(labels, vec!["    ", "Mon ", "    ", "Wed ", "    ", "Fri ", "    "]);
}

#[test]
fn truecolor_cells_wrap_the_glyph() {
    assert_eq!(style_truecolor("x", "#ff0080"), "\x1b[38;2;255;0;128mx\x1b[0m");
    assert_eq!(render_filled_cell(2, 4, "#ff0080", false), "▪");
    assert_eq!(render_filled_cell(2, 4, "#ff0080", true), "\x1b[38;2;255;0;128m■\x1b[0m");
}
