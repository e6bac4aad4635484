//! Color profiles, palettes, and hex color conversion.

use vstd::prelude::*;
use vstd::utf8::{encode_utf8, is_ascii_chars};

use crate::strings::{ascii_lower, concat, str_eq, string_of, to_ascii_lowercase, trim, trim_spec};

verus! {

// ---------------------------------------------------------------------------
// Color profile definitions
// ---------------------------------------------------------------------------

/// Theme-specific palette data for a color profile.
#[derive(Debug, Clone, Copy)]
pub struct ThemeProfile {
    pub background: &'static str,
    pub text: &'static str,
    pub subtle_text: &'static str,
    pub empty_cell: &'static str,
    /// A 5-stop positive color scale: low, med-low, med-high, high, max.
    pub cells: [&'static str; 5],
}

/// A color profile with light and dark theme variants.
#[derive(Debug, Clone, Copy)]
pub struct ColorProfile {
    pub light: ThemeProfile,
    pub dark: ThemeProfile,
}

/// Supported color profile names shown in CLI help and validation errors.
pub const COLOR_PROFILE_NAMES: [&'static str; 8] = [
    "github",
    "aurora",
    "ocean",
    "fire",
    "catppuccin-latte",
    "catppuccin-frappe",
    "catppuccin-macchiato",
    "catppuccin-mocha",
];

/// Human-readable color profile list for help text.
pub const COLOR_PROFILE_NAMES_HELP: &'static str =
    "github, aurora, ocean, fire, catppuccin-latte, catppuccin-frappe, catppuccin-macchiato, catppuccin-mocha";

/// The profile names, in the order of `COLOR_PROFILE_NAMES`.
pub open spec fn profile_names() -> Seq<Seq<char>> {
    seq![
        "github"@,
        "aurora"@,
        "ocean"@,
        "fire"@,
        "catppuccin-latte"@,
        "catppuccin-frappe"@,
        "catppuccin-macchiato"@,
        "catppuccin-mocha"@,
    ]
}

/// The built-in profile of a given name.
pub open spec fn builtin_profile(name: Seq<char>) -> Option<ColorProfile> {
    if name == "github"@ {
        Some(ColorProfile {
            light: ThemeProfile {
                background: "#ffffff",
                text: "#24292f",
                subtle_text: "#57606a",
                empty_cell: "#ebedf0",
                cells: ["#9be9a8", "#40c463", "#30a14e", "#216e39", "#0f5323"],
            },
            dark: ThemeProfile {
                background: "#0d1117",
                text: "#c9d1d9",
                subtle_text: "#8b949e",
                empty_cell: "#161b22",
                cells: ["#0e4429", "#006d32", "#26a641", "#39d353", "#52d989"],
            },
        })
    } else if name == "aurora"@ {
        Some(ColorProfile {
            light: ThemeProfile {
                background: "#ffffff",
                text: "#24292f",
                subtle_text: "#57606a",
                empty_cell: "#fffbe6",
                cells: ["#ffe97a", "#f5d432", "#a8c826", "#5da818", "#2d7a0e"],
            },
            dark: ThemeProfile {
                background: "#1c1f28",
                text: "#c9d1d9",
                subtle_text: "#8b949e",
                empty_cell: "#242a26",
                cells: ["#3d4a1e", "#9a8c1a", "#6db828", "#3d9015", "#1a600a"],
            },
        })
    } else if name == "ocean"@ {
        Some(ColorProfile {
            light: ThemeProfile {
                background: "#ffffff",
                text: "#24292f",
                subtle_text: "#57606a",
                empty_cell: "#f1fafe",
                cells: ["#a8dadc", "#66b2c9", "#3d8ba5", "#1d5e7a", "#0c3447"],
            },
            dark: ThemeProfile {
                background: "#121820",
                text: "#c9d1d9",
                subtle_text: "#8b949e",
                empty_cell: "#14202b",
                cells: ["#1b3a4b", "#2c6f8a", "#4899b8", "#5bb8d4", "#7dd4e8"],
            },
        })
    } else if name == "fire"@ {
        Some(ColorProfile {
            light: ThemeProfile {
                background: "#ffffff",
                text: "#24292f",
                subtle_text: "#57606a",
                empty_cell: "#fde8e4",
                cells: ["#f59e8a", "#e05535", "#c43520", "#9a1a0e", "#6b0c04"],
            },
            dark: ThemeProfile {
                background: "#1c1412",
                text: "#c9d1d9",
                subtle_text: "#8b949e",
                empty_cell: "#301a14",
                cells: ["#6b2e1a", "#c44a2a", "#e86535", "#ff8c42", "#ffc07a"],
            },
        })
    } else if name == "catppuccin-latte"@ {
        Some(ColorProfile {
            light: ThemeProfile {
                background: "#eff1f5",
                text: "#4c4f69",
                subtle_text: "#6c6f85",
                empty_cell: "#ccd0da",
                cells: ["#40a02b", "#df8e1d", "#fe640b", "#ea76cb", "#8839ef"],
            },
            dark: ThemeProfile {
                background: "#303446",
                text: "#c6d0f5",
                subtle_text: "#a5adce",
                empty_cell: "#414559",
                cells: ["#40a02b", "#df8e1d", "#fe640b", "#ea76cb", "#8839ef"],
            },
        })
    } else if name == "catppuccin-frappe"@ {
        Some(ColorProfile {
            light: ThemeProfile {
                background: "#eff1f5",
                text: "#4c4f69",
                subtle_text: "#6c6f85",
                empty_cell: "#ccd0da",
                cells: ["#a6d189", "#e5c890", "#ef9f76", "#f4b8e4", "#ca9ee6"],
            },
            dark: ThemeProfile {
                background: "#303446",
                text: "#c6d0f5",
                subtle_text: "#a5adce",
                empty_cell: "#414559",
                cells: ["#a6d189", "#e5c890", "#ef9f76", "#f4b8e4", "#ca9ee6"],
            },
        })
    } else if name == "catppuccin-macchiato"@ {
        Some(ColorProfile {
            light: ThemeProfile {
                background: "#eff1f5",
                text: "#4c4f69",
                subtle_text: "#6c6f85",
                empty_cell: "#ccd0da",
                cells: ["#a6da95", "#eed49f", "#f5a97f", "#f5bde6", "#c6a0f6"],
            },
            dark: ThemeProfile {
                background: "#24273a",
                text: "#cad3f5",
                subtle_text: "#a5adcb",
                empty_cell: "#363a4f",
                cells: ["#a6da95", "#eed49f", "#f5a97f", "#f5bde6", "#c6a0f6"],
            },
        })
    } else if name == "catppuccin-mocha"@ {
        Some(ColorProfile {
            light: ThemeProfile {
                background: "#eff1f5",
                text: "#4c4f69",
                subtle_text: "#6c6f85",
                empty_cell: "#ccd0da",
                cells: ["#a6e3a1", "#f9e2af", "#fab387", "#f5c2e7", "#cba6f7"],
            },
            dark: ThemeProfile {
                background: "#1e1e2e",
                text: "#cdd6f4",
                subtle_text: "#a6adc8",
                empty_cell: "#313244",
                cells: ["#a6e3a1", "#f9e2af", "#fab387", "#f5c2e7", "#cba6f7"],
            },
        })
    } else {
        None
    }
}

/// Looks up a built-in profile by exact name.
pub fn lookup_builtin_profile(name: &str) -> (r: Option<ColorProfile>)
    ensures
        r == builtin_profile(name@),
{
    if str_eq(name, "github") {
        Some(ColorProfile {
            light: ThemeProfile {
                background: "#ffffff",
                text: "#24292f",
                subtle_text: "#57606a",
                empty_cell: "#ebedf0",
                cells: ["#9be9a8", "#40c463", "#30a14e", "#216e39", "#0f5323"],
            },
            dark: ThemeProfile {
                background: "#0d1117",
                text: "#c9d1d9",
                subtle_text: "#8b949e",
                empty_cell: "#161b22",
                cells: ["#0e4429", "#006d32", "#26a641", "#39d353", "#52d989"],
            },
        })
    } else if str_eq(name, "aurora") {
        Some(ColorProfile {
            light: ThemeProfile {
                background: "#ffffff",
                text: "#24292f",
                subtle_text: "#57606a",
                empty_cell: "#fffbe6",
                cells: ["#ffe97a", "#f5d432", "#a8c826", "#5da818", "#2d7a0e"],
            },
            dark: ThemeProfile {
                background: "#1c1f28",
                text: "#c9d1d9",
                subtle_text: "#8b949e",
                empty_cell: "#242a26",
                cells: ["#3d4a1e", "#9a8c1a", "#6db828", "#3d9015", "#1a600a"],
            },
        })
    } else if str_eq(name, "ocean") {
        Some(ColorProfile {
            light: ThemeProfile {
                background: "#ffffff",
                text: "#24292f",
                subtle_text: "#57606a",
                empty_cell: "#f1fafe",
                cells: ["#a8dadc", "#66b2c9", "#3d8ba5", "#1d5e7a", "#0c3447"],
            },
            dark: ThemeProfile {
                background: "#121820",
                text: "#c9d1d9",
                subtle_text: "#8b949e",
                empty_cell: "#14202b",
                cells: ["#1b3a4b", "#2c6f8a", "#4899b8", "#5bb8d4", "#7dd4e8"],
            },
        })
    } else if str_eq(name, "fire") {
        Some(ColorProfile {
            light: ThemeProfile {
                background: "#ffffff",
                text: "#24292f",
                subtle_text: "#57606a",
                empty_cell: "#fde8e4",
                cells: ["#f59e8a", "#e05535", "#c43520", "#9a1a0e", "#6b0c04"],
            },
            dark: ThemeProfile {
                background: "#1c1412",
                text: "#c9d1d9",
                subtle_text: "#8b949e",
                empty_cell: "#301a14",
                cells: ["#6b2e1a", "#c44a2a", "#e86535", "#ff8c42", "#ffc07a"],
            },
        })
    } else if str_eq(name, "catppuccin-latte") {
        Some(ColorProfile {
            light: ThemeProfile {
                background: "#eff1f5",
                text: "#4c4f69",
                subtle_text: "#6c6f85",
                empty_cell: "#ccd0da",
                cells: ["#40a02b", "#df8e1d", "#fe640b", "#ea76cb", "#8839ef"],
            },
            dark: ThemeProfile {
                background: "#303446",
                text: "#c6d0f5",
                subtle_text: "#a5adce",
                empty_cell: "#414559",
                cells: ["#40a02b", "#df8e1d", "#fe640b", "#ea76cb", "#8839ef"],
            },
        })
    } else if str_eq(name, "catppuccin-frappe") {
        Some(ColorProfile {
            light: ThemeProfile {
                background: "#eff1f5",
                text: "#4c4f69",
                subtle_text: "#6c6f85",
                empty_cell: "#ccd0da",
                cells: ["#a6d189", "#e5c890", "#ef9f76", "#f4b8e4", "#ca9ee6"],
            },
            dark: ThemeProfile {
                background: "#303446",
                text: "#c6d0f5",
                subtle_text: "#a5adce",
                empty_cell: "#414559",
                cells: ["#a6d189", "#e5c890", "#ef9f76", "#f4b8e4", "#ca9ee6"],
            },
        })
    } else if str_eq(name, "catppuccin-macchiato") {
        Some(ColorProfile {
            light: ThemeProfile {
                background: "#eff1f5",
                text: "#4c4f69",
                subtle_text: "#6c6f85",
                empty_cell: "#ccd0da",
                cells: ["#a6da95", "#eed49f", "#f5a97f", "#f5bde6", "#c6a0f6"],
            },
            dark: ThemeProfile {
                background: "#24273a",
                text: "#cad3f5",
                subtle_text: "#a5adcb",
                empty_cell: "#363a4f",
                cells: ["#a6da95", "#eed49f", "#f5a97f", "#f5bde6", "#c6a0f6"],
            },
        })
    } else if str_eq(name, "catppuccin-mocha") {
        Some(ColorProfile {
            light: ThemeProfile {
                background: "#eff1f5",
                text: "#4c4f69",
                subtle_text: "#6c6f85",
                empty_cell: "#ccd0da",
                cells: ["#a6e3a1", "#f9e2af", "#fab387", "#f5c2e7", "#cba6f7"],
            },
            dark: ThemeProfile {
                background: "#1e1e2e",
                text: "#cdd6f4",
                subtle_text: "#a6adc8",
                empty_cell: "#313244",
                cells: ["#a6e3a1", "#f9e2af", "#fab387", "#f5c2e7", "#cba6f7"],
            },
        })
    } else {
        None
    }
}

/// Every color literal of the built-in profiles is plain ASCII.
proof fn lemma_builtin_color_literals_ascii()
    ensures
        is_ascii_chars("#006d32"@),
        is_ascii_chars("#0c3447"@),
        is_ascii_chars("#0d1117"@),
        is_ascii_chars("#0e4429"@),
        is_ascii_chars("#0f5323"@),
        is_ascii_chars("#121820"@),
        is_ascii_chars("#14202b"@),
        is_ascii_chars("#161b22"@),
        is_ascii_chars("#1a600a"@),
        is_ascii_chars("#1b3a4b"@),
        is_ascii_chars("#1c1412"@),
        is_ascii_chars("#1c1f28"@),
        is_ascii_chars("#1d5e7a"@),
        is_ascii_chars("#1e1e2e"@),
        is_ascii_chars("#216e39"@),
        is_ascii_chars("#24273a"@),
        is_ascii_chars("#24292f"@),
        is_ascii_chars("#242a26"@),
        is_ascii_chars("#26a641"@),
        is_ascii_chars("#2c6f8a"@),
        is_ascii_chars("#2d7a0e"@),
        is_ascii_chars("#301a14"@),
        is_ascii_chars("#303446"@),
        is_ascii_chars("#30a14e"@),
        is_ascii_chars("#313244"@),
        is_ascii_chars("#363a4f"@),
        is_ascii_chars("#39d353"@),
        is_ascii_chars("#3d4a1e"@),
        is_ascii_chars("#3d8ba5"@),
        is_ascii_chars("#3d9015"@),
        is_ascii_chars("#40a02b"@),
        is_ascii_chars("#40c463"@),
        is_ascii_chars("#414559"@),
        is_ascii_chars("#4899b8"@),
        is_ascii_chars("#4c4f69"@),
        is_ascii_chars("#52d989"@),
        is_ascii_chars("#57606a"@),
        is_ascii_chars("#5bb8d4"@),
        is_ascii_chars("#5da818"@),
        is_ascii_chars("#66b2c9"@),
        is_ascii_chars("#6b0c04"@),
        is_ascii_chars("#6b2e1a"@),
        is_ascii_chars("#6c6f85"@),
        is_ascii_chars("#6db828"@),
        is_ascii_chars("#7dd4e8"@),
        is_ascii_chars("#8839ef"@),
        is_ascii_chars("#8b949e"@),
        is_ascii_chars("#9a1a0e"@),
        is_ascii_chars("#9a8c1a"@),
        is_ascii_chars("#9be9a8"@),
        is_ascii_chars("#a5adcb"@),
        is_ascii_chars("#a5adce"@),
        is_ascii_chars("#a6adc8"@),
        is_ascii_chars("#a6d189"@),
        is_ascii_chars("#a6da95"@),
        is_ascii_chars("#a6e3a1"@),
        is_ascii_chars("#a8c826"@),
        is_ascii_chars("#a8dadc"@),
        is_ascii_chars("#c43520"@),
        is_ascii_chars("#c44a2a"@),
        is_ascii_chars("#c6a0f6"@),
        is_ascii_chars("#c6d0f5"@),
        is_ascii_chars("#c9d1d9"@),
        is_ascii_chars("#ca9ee6"@),
        is_ascii_chars("#cad3f5"@),
        is_ascii_chars("#cba6f7"@),
        is_ascii_chars("#ccd0da"@),
        is_ascii_chars("#cdd6f4"@),
        is_ascii_chars("#df8e1d"@),
        is_ascii_chars("#e05535"@),
        is_ascii_chars("#e5c890"@),
        is_ascii_chars("#e86535"@),
        is_ascii_chars("#ea76cb"@),
        is_ascii_chars("#ebedf0"@),
        is_ascii_chars("#eed49f"@),
        is_ascii_chars("#ef9f76"@),
        is_ascii_chars("#eff1f5"@),
        is_ascii_chars("#f1fafe"@),
        is_ascii_chars("#f4b8e4"@),
        is_ascii_chars("#f59e8a"@),
        is_ascii_chars("#f5a97f"@),
        is_ascii_chars("#f5bde6"@),
        is_ascii_chars("#f5c2e7"@),
        is_ascii_chars("#f5d432"@),
        is_ascii_chars("#f9e2af"@),
        is_ascii_chars("#fab387"@),
        is_ascii_chars("#fde8e4"@),
        is_ascii_chars("#fe640b"@),
        is_ascii_chars("#ff8c42"@),
        is_ascii_chars("#ffc07a"@),
        is_ascii_chars("#ffe97a"@),
        is_ascii_chars("#fffbe6"@),
        is_ascii_chars("#ffffff"@),
{
    reveal_strlit("#006d32");
    reveal_strlit("#0c3447");
    reveal_strlit("#0d1117");
    reveal_strlit("#0e4429");
    reveal_strlit("#0f5323");
    reveal_strlit("#121820");
    reveal_strlit("#14202b");
    reveal_strlit("#161b22");
    reveal_strlit("#1a600a");
    reveal_strlit("#1b3a4b");
    reveal_strlit("#1c1412");
    reveal_strlit("#1c1f28");
    reveal_strlit("#1d5e7a");
    reveal_strlit("#1e1e2e");
    reveal_strlit("#216e39");
    reveal_strlit("#24273a");
    reveal_strlit("#24292f");
    reveal_strlit("#242a26");
    reveal_strlit("#26a641");
    reveal_strlit("#2c6f8a");
    reveal_strlit("#2d7a0e");
    reveal_strlit("#301a14");
    reveal_strlit("#303446");
    reveal_strlit("#30a14e");
    reveal_strlit("#313244");
    reveal_strlit("#363a4f");
    reveal_strlit("#39d353");
    reveal_strlit("#3d4a1e");
    reveal_strlit("#3d8ba5");
    reveal_strlit("#3d9015");
    reveal_strlit("#40a02b");
    reveal_strlit("#40c463");
    reveal_strlit("#414559");
    reveal_strlit("#4899b8");
    reveal_strlit("#4c4f69");
    reveal_strlit("#52d989");
    reveal_strlit("#57606a");
    reveal_strlit("#5bb8d4");
    reveal_strlit("#5da818");
    reveal_strlit("#66b2c9");
    reveal_strlit("#6b0c04");
    reveal_strlit("#6b2e1a");
    reveal_strlit("#6c6f85");
    reveal_strlit("#6db828");
    reveal_strlit("#7dd4e8");
    reveal_strlit("#8839ef");
    reveal_strlit("#8b949e");
    reveal_strlit("#9a1a0e");
    reveal_strlit("#9a8c1a");
    reveal_strlit("#9be9a8");
    reveal_strlit("#a5adcb");
    reveal_strlit("#a5adce");
    reveal_strlit("#a6adc8");
    reveal_strlit("#a6d189");
    reveal_strlit("#a6da95");
    reveal_strlit("#a6e3a1");
    reveal_strlit("#a8c826");
    reveal_strlit("#a8dadc");
    reveal_strlit("#c43520");
    reveal_strlit("#c44a2a");
    reveal_strlit("#c6a0f6");
    reveal_strlit("#c6d0f5");
    reveal_strlit("#c9d1d9");
    reveal_strlit("#ca9ee6");
    reveal_strlit("#cad3f5");
    reveal_strlit("#cba6f7");
    reveal_strlit("#ccd0da");
    reveal_strlit("#cdd6f4");
    reveal_strlit("#df8e1d");
    reveal_strlit("#e05535");
    reveal_strlit("#e5c890");
    reveal_strlit("#e86535");
    reveal_strlit("#ea76cb");
    reveal_strlit("#ebedf0");
    reveal_strlit("#eed49f");
    reveal_strlit("#ef9f76");
    reveal_strlit("#eff1f5");
    reveal_strlit("#f1fafe");
    reveal_strlit("#f4b8e4");
    reveal_strlit("#f59e8a");
    reveal_strlit("#f5a97f");
    reveal_strlit("#f5bde6");
    reveal_strlit("#f5c2e7");
    reveal_strlit("#f5d432");
    reveal_strlit("#f9e2af");
    reveal_strlit("#fab387");
    reveal_strlit("#fde8e4");
    reveal_strlit("#fe640b");
    reveal_strlit("#ff8c42");
    reveal_strlit("#ffc07a");
    reveal_strlit("#ffe97a");
    reveal_strlit("#fffbe6");
    reveal_strlit("#ffffff");
}

/// The theme half of a profile.
pub open spec fn theme_of(profile: ColorProfile, dark_mode: bool) -> ThemeProfile {
    if dark_mode {
        profile.dark
    } else {
        profile.light
    }
}

/// Every color of a theme, as character sequences.
pub open spec fn theme_colors(t: ThemeProfile) -> Seq<Seq<char>> {
    seq![
        t.background@,
        t.text@,
        t.subtle_text@,
        t.empty_cell@,
        t.cells[0]@,
        t.cells[1]@,
        t.cells[2]@,
        t.cells[3]@,
        t.cells[4]@,
    ]
}

/// Every color of every built-in theme is plain ASCII.
pub proof fn lemma_builtin_colors_ascii(name: Seq<char>, dark_mode: bool)
    ensures
        builtin_profile(name) matches Some(p) ==> forall|i: int|
            0 <= i < 9 ==> is_ascii_chars(#[trigger] theme_colors(theme_of(p, dark_mode))[i]),
{
    lemma_builtin_color_literals_ascii();
}

/// The perceived brightness of a color, with the Rec. 709 weights scaled
/// to integers.
pub open spec fn luminance(rgb: (u8, u8, u8)) -> int {
    2126 * rgb.0 + 7152 * rgb.1 + 722 * rgb.2
}

/// The brightness of cell stop `i` of a theme.
pub open spec fn cell_luminance(t: ThemeProfile, i: int) -> int {
    luminance(hex_rgb_spec(t.cells[i]@))
}

/// Each cell stop is darker than the one before: few commits are pale and
/// the busiest days are darkest.
pub open spec fn cells_darken(t: ThemeProfile) -> bool {
    forall|i: int| 0 <= i < 4 ==> cell_luminance(t, i + 1) < #[trigger] cell_luminance(t, i)
}

/// Each cell stop is brighter than the one before: few commits are dim and
/// the busiest days are brightest.
pub open spec fn cells_brighten(t: ThemeProfile) -> bool {
    forall|i: int| 0 <= i < 4 ==> cell_luminance(t, i + 1) > #[trigger] cell_luminance(t, i)
}

/// A `#rrggbb` color reads as its three hex pairs.
proof fn lemma_hex7(c: Seq<char>)
    requires
        c.len() == 7,
        is_ascii_chars(c),
        c[0] == '#',
        c[1] != '#',
    ensures
        hex_rgb_spec(c) == (
            hex_pair_value(c[1] as u8, c[2] as u8),
            hex_pair_value(c[3] as u8, c[4] as u8),
            hex_pair_value(c[5] as u8, c[6] as u8),
        ),
{
    let b = encode_utf8(c);
    vstd::utf8::is_ascii_chars_encode_utf8(c);
    assert(b[0] == 0x23u8 && b[1] != 0x23u8);
    assert(hash_prefix_len(b, 1) == 1);
    assert(hash_prefix_len(b, 0) == 1);
}

proof fn lemma_github_cells_ordered()
    ensures
        builtin_profile("github"@) matches Some(p) && cells_darken(p.light) && cells_brighten(p.dark),
{
    lemma_builtin_color_literals_ascii();
    reveal_strlit("#9be9a8");
    lemma_hex7("#9be9a8"@);
    assert(hex_rgb_spec("#9be9a8"@) == (155u8, 233u8, 168u8));
    reveal_strlit("#40c463");
    lemma_hex7("#40c463"@);
    assert(hex_rgb_spec("#40c463"@) == (64u8, 196u8, 99u8));
    reveal_strlit("#30a14e");
    lemma_hex7("#30a14e"@);
    assert(hex_rgb_spec("#30a14e"@) == (48u8, 161u8, 78u8));
    reveal_strlit("#216e39");
    lemma_hex7("#216e39"@);
    assert(hex_rgb_spec("#216e39"@) == (33u8, 110u8, 57u8));
    reveal_strlit("#0f5323");
    lemma_hex7("#0f5323"@);
    assert(hex_rgb_spec("#0f5323"@) == (15u8, 83u8, 35u8));
    reveal_strlit("#0e4429");
    lemma_hex7("#0e4429"@);
    assert(hex_rgb_spec("#0e4429"@) == (14u8, 68u8, 41u8));
    reveal_strlit("#006d32");
    lemma_hex7("#006d32"@);
    assert(hex_rgb_spec("#006d32"@) == (0u8, 109u8, 50u8));
    reveal_strlit("#26a641");
    lemma_hex7("#26a641"@);
    assert(hex_rgb_spec("#26a641"@) == (38u8, 166u8, 65u8));
    reveal_strlit("#39d353");
    lemma_hex7("#39d353"@);
    assert(hex_rgb_spec("#39d353"@) == (57u8, 211u8, 83u8));
    reveal_strlit("#52d989");
    lemma_hex7("#52d989"@);
    assert(hex_rgb_spec("#52d989"@) == (82u8, 217u8, 137u8));
    reveal_strlit("github");
    assert(builtin_profile("github"@) is Some);
    let p = builtin_profile("github"@).unwrap();
    assert forall|i: int| 0 <= i < 4 implies cell_luminance(p.light, i + 1) < #[trigger] cell_luminance(p.light, i) by {
        assert(i == 0 || i == 1 || i == 2 || i == 3);
    }
    assert forall|i: int| 0 <= i < 4 implies cell_luminance(p.dark, i + 1) > #[trigger] cell_luminance(p.dark, i) by {
        assert(i == 0 || i == 1 || i == 2 || i == 3);
    }
    assert(cells_darken(p.light));
    assert(cells_brighten(p.dark));
}

proof fn lemma_aurora_cells_ordered()
    ensures
        builtin_profile("aurora"@) matches Some(p) && cells_darken(p.light),
{
    lemma_builtin_color_literals_ascii();
    reveal_strlit("#ffe97a");
    lemma_hex7("#ffe97a"@);
    assert(hex_rgb_spec("#ffe97a"@) == (255u8, 233u8, 122u8));
    reveal_strlit("#f5d432");
    lemma_hex7("#f5d432"@);
    assert(hex_rgb_spec("#f5d432"@) == (245u8, 212u8, 50u8));
    reveal_strlit("#a8c826");
    lemma_hex7("#a8c826"@);
    assert(hex_rgb_spec("#a8c826"@) == (168u8, 200u8, 38u8));
    reveal_strlit("#5da818");
    lemma_hex7("#5da818"@);
    assert(hex_rgb_spec("#5da818"@) == (93u8, 168u8, 24u8));
    reveal_strlit("#2d7a0e");
    lemma_hex7("#2d7a0e"@);
    assert(hex_rgb_spec("#2d7a0e"@) == (45u8, 122u8, 14u8));
    reveal_strlit("github");
    reveal_strlit("aurora");
    assert("aurora"@[0] != "github"@[0] || "aurora"@.len() != "github"@.len());
    assert(builtin_profile("aurora"@) is Some);
    let p = builtin_profile("aurora"@).unwrap();
    assert forall|i: int| 0 <= i < 4 implies cell_luminance(p.light, i + 1) < #[trigger] cell_luminance(p.light, i) by {
        assert(i == 0 || i == 1 || i == 2 || i == 3);
    }
    assert(cells_darken(p.light));

}

proof fn lemma_ocean_cells_ordered()
    ensures
        builtin_profile("ocean"@) matches Some(p) && cells_darken(p.light) && cells_brighten(p.dark),
{
    lemma_builtin_color_literals_ascii();
    reveal_strlit("#a8dadc");
    lemma_hex7("#a8dadc"@);
    assert(hex_rgb_spec("#a8dadc"@) == (168u8, 218u8, 220u8));
    reveal_strlit("#66b2c9");
    lemma_hex7("#66b2c9"@);
    assert(hex_rgb_spec("#66b2c9"@) == (102u8, 178u8, 201u8));
    reveal_strlit("#3d8ba5");
    lemma_hex7("#3d8ba5"@);
    assert(hex_rgb_spec("#3d8ba5"@) == (61u8, 139u8, 165u8));
    reveal_strlit("#1d5e7a");
    lemma_hex7("#1d5e7a"@);
    assert(hex_rgb_spec("#1d5e7a"@) == (29u8, 94u8, 122u8));
    reveal_strlit("#0c3447");
    lemma_hex7("#0c3447"@);
    assert(hex_rgb_spec("#0c3447"@) == (12u8, 52u8, 71u8));
    reveal_strlit("#1b3a4b");
    lemma_hex7("#1b3a4b"@);
    assert(hex_rgb_spec("#1b3a4b"@) == (27u8, 58u8, 75u8));
    reveal_strlit("#2c6f8a");
    lemma_hex7("#2c6f8a"@);
    assert(hex_rgb_spec("#2c6f8a"@) == (44u8, 111u8, 138u8));
    reveal_strlit("#4899b8");
    lemma_hex7("#4899b8"@);
    assert(hex_rgb_spec("#4899b8"@) == (72u8, 153u8, 184u8));
    reveal_strlit("#5bb8d4");
    lemma_hex7("#5bb8d4"@);
    assert(hex_rgb_spec("#5bb8d4"@) == (91u8, 184u8, 212u8));
    reveal_strlit("#7dd4e8");
    lemma_hex7("#7dd4e8"@);
    assert(hex_rgb_spec("#7dd4e8"@) == (125u8, 212u8, 232u8));
    reveal_strlit("github");
    reveal_strlit("aurora");
    reveal_strlit("ocean");
    assert("ocean"@[0] != "github"@[0] || "ocean"@.len() != "github"@.len());
    assert("ocean"@[0] != "aurora"@[0] || "ocean"@.len() != "aurora"@.len());
    assert(builtin_profile("ocean"@) is Some);
    let p = builtin_profile("ocean"@).unwrap();
    assert forall|i: int| 0 <= i < 4 implies cell_luminance(p.light, i + 1) < #[trigger] cell_luminance(p.light, i) by {
        assert(i == 0 || i == 1 || i == 2 || i == 3);
    }
    assert forall|i: int| 0 <= i < 4 implies cell_luminance(p.dark, i + 1) > #[trigger] cell_luminance(p.dark, i) by {
        assert(i == 0 || i == 1 || i == 2 || i == 3);
    }
    assert(cells_darken(p.light));
    assert(cells_brighten(p.dark));
}

proof fn lemma_fire_cells_ordered()
    ensures
        builtin_profile("fire"@) matches Some(p) && cells_darken(p.light) && cells_brighten(p.dark),
{
    lemma_builtin_color_literals_ascii();
    reveal_strlit("#f59e8a");
    lemma_hex7("#f59e8a"@);
    assert(hex_rgb_spec("#f59e8a"@) == (245u8, 158u8, 138u8));
    reveal_strlit("#e05535");
    lemma_hex7("#e05535"@);
    assert(hex_rgb_spec("#e05535"@) == (224u8, 85u8, 53u8));
    reveal_strlit("#c43520");
    lemma_hex7("#c43520"@);
    assert(hex_rgb_spec("#c43520"@) == (196u8, 53u8, 32u8));
    reveal_strlit("#9a1a0e");
    lemma_hex7("#9a1a0e"@);
    assert(hex_rgb_spec("#9a1a0e"@) == (154u8, 26u8, 14u8));
    reveal_strlit("#6b0c04");
    lemma_hex7("#6b0c04"@);
    assert(hex_rgb_spec("#6b0c04"@) == (107u8, 12u8, 4u8));
    reveal_strlit("#6b2e1a");
    lemma_hex7("#6b2e1a"@);
    assert(hex_rgb_spec("#6b2e1a"@) == (107u8, 46u8, 26u8));
    reveal_strlit("#c44a2a");
    lemma_hex7("#c44a2a"@);
    assert(hex_rgb_spec("#c44a2a"@) == (196u8, 74u8, 42u8));
    reveal_strlit("#e86535");
    lemma_hex7("#e86535"@);
    assert(hex_rgb_spec("#e86535"@) == (232u8, 101u8, 53u8));
    reveal_strlit("#ff8c42");
    lemma_hex7("#ff8c42"@);
    assert(hex_rgb_spec("#ff8c42"@) == (255u8, 140u8, 66u8));
    reveal_strlit("#ffc07a");
    lemma_hex7("#ffc07a"@);
    assert(hex_rgb_spec("#ffc07a"@) == (255u8, 192u8, 122u8));
    reveal_strlit("github");
    reveal_strlit("aurora");
    reveal_strlit("ocean");
    reveal_strlit("fire");
    assert("fire"@[0] != "github"@[0] || "fire"@.len() != "github"@.len());
    assert("fire"@[0] != "aurora"@[0] || "fire"@.len() != "aurora"@.len());
    assert("fire"@[0] != "ocean"@[0] || "fire"@.len() != "ocean"@.len());
    assert(builtin_profile("fire"@) is Some);
    let p = builtin_profile("fire"@).unwrap();
    assert forall|i: int| 0 <= i < 4 implies cell_luminance(p.light, i + 1) < #[trigger] cell_luminance(p.light, i) by {
        assert(i == 0 || i == 1 || i == 2 || i == 3);
    }
    assert forall|i: int| 0 <= i < 4 implies cell_luminance(p.dark, i + 1) > #[trigger] cell_luminance(p.dark, i) by {
        assert(i == 0 || i == 1 || i == 2 || i == 3);
    }
    assert(cells_darken(p.light));
    assert(cells_brighten(p.dark));
}

/// The single-hue profiles scale by intensity: on light themes the cell
/// stops go from the palest, for few commits, to the darkest, for the
/// busiest days; on dark themes (but `aurora`'s) from the dimmest to the
/// brightest.
pub proof fn law_intensity_profiles_ordered(name: Seq<char>)
    requires
        name == "github"@ || name == "aurora"@ || name == "ocean"@ || name == "fire"@,
    ensures
        builtin_profile(name) matches Some(p) && cells_darken(p.light),
        name != "aurora"@ ==> (builtin_profile(name) matches Some(p) && cells_brighten(p.dark)),
{
    lemma_github_cells_ordered();
    lemma_aurora_cells_ordered();
    lemma_ocean_cells_ordered();
    lemma_fire_cells_ordered();
}

/// The table of all color profiles, keyed by name.
#[derive(Debug, Clone)]
pub struct ColorProfiles {
    entries: Vec<(&'static str, ColorProfile)>,
}

impl ColorProfiles {
    /// The names of the profiles in the table.
    pub closed spec fn names(&self) -> Seq<Seq<char>> {
        self.entries@.map_values(|e: (&'static str, ColorProfile)| e.0@)
    }

    /// The well-formedness of the table: each entry holds the built-in
    /// profile of its name.
    pub closed spec fn wf(&self) -> bool {
        forall|i: int|
            0 <= i < self.entries@.len() ==> builtin_profile(#[trigger] self.entries@[i].0@)
                == Some(self.entries@[i].1)
    }

    /// Number of profiles in the table.
    pub fn len(&self) -> (r: usize)
        ensures
            r == self.names().len(),
    {
        self.entries.len()
    }

    /// Whether the table holds a profile under `key`.
    pub fn contains_key(&self, key: &str) -> (r: bool)
        ensures
            r == self.names().contains(key@),
    {
        let n = self.entries.len();
        let mut i: usize = 0;
        while i < n
            invariant
                n == self.entries@.len(),
                0 <= i <= n,
                forall|k: int| 0 <= k < i ==> self.names()[k] != key@,
            decreases n - i,
        {
            if str_eq(self.entries[i].0, key) {
                assert(self.names()[i as int] == key@);
                return true;
            }
            i += 1;
        }
        false
    }

    /// The profile stored under `key`, if any.
    pub fn get(&self, key: &str) -> (r: Option<ColorProfile>)
        requires
            self.wf(),
        ensures
            r == (if self.names().contains(key@) {
                builtin_profile(key@)
            } else {
                None
            }),
    {
        let n = self.entries.len();
        let mut i: usize = 0;
        while i < n
            invariant
                n == self.entries@.len(),
                0 <= i <= n,
                forall|k: int| 0 <= k < i ==> self.names()[k] != key@,
                self.wf(),
            decreases n - i,
        {
            if str_eq(self.entries[i].0, key) {
                assert(self.names()[i as int] == key@);
                assert(builtin_profile(self.entries@[i as int].0@) == Some(self.entries@[i as int].1));
                return Some(self.entries[i].1);
            }
            i += 1;
        }
        None
    }
}

/// All color profiles.
pub fn get_color_profiles() -> (r: ColorProfiles)
    ensures
        r.wf(),
        r.names() == profile_names(),
{
    let mut entries: Vec<(&'static str, ColorProfile)> = Vec::new();
    let names = COLOR_PROFILE_NAMES;
    let mut i: usize = 0;
    while i < 8
        invariant
            0 <= i <= 8,
            names@ == COLOR_PROFILE_NAMES@,
            entries@.len() == i,
            forall|k: int|
                0 <= k < i ==> builtin_profile(#[trigger] entries@[k].0@) == Some(entries@[k].1),
            forall|k: int| 0 <= k < i ==> #[trigger] entries@[k].0@ == profile_names()[k],
        decreases 8 - i,
    {
        let name = names[i];
        assert(name@ == profile_names()[i as int]);
        match lookup_builtin_profile(name) {
            Some(p) => {
                entries.push((name, p));
            },
            None => {
                assert(false);
            },
        }
        i += 1;
    }
    let r = ColorProfiles { entries };
    assert(r.names() == profile_names());
    r
}

// ---------------------------------------------------------------------------
// Profile names
// ---------------------------------------------------------------------------

/// A profile name as typed, trimmed and with ASCII letters in lower case.
pub open spec fn normalized_profile_name(name: Seq<char>) -> Seq<char> {
    ascii_lower(trim_spec(name))
}

/// The canonical name for a profile: the legacy `catppuccin` alias stands
/// for Latte on light themes and Mocha on dark themes.
pub open spec fn canonical_profile_spec(name: Seq<char>, dark_mode: bool) -> Seq<char> {
    let normalized = normalized_profile_name(name);
    if normalized == "catppuccin"@ {
        if dark_mode {
            "catppuccin-mocha"@
        } else {
            "catppuccin-latte"@
        }
    } else {
        normalized
    }
}

fn normalize_profile_name(profile_name: &str) -> (r: String)
    ensures
        r@ == normalized_profile_name(profile_name@),
{
    to_ascii_lowercase(trim(profile_name))
}

/// Normalize a color profile name for internal lookup.
///
/// The legacy `catppuccin` name is preserved as a compatibility alias and maps
/// to the original light/dark pairing: Latte on light themes, Mocha on dark themes.
pub fn canonical_color_profile_name(profile_name: &str, dark_mode: bool) -> (r: String)
    ensures
        r@ == canonical_profile_spec(profile_name@, dark_mode),
{
    let normalized = normalize_profile_name(profile_name);
    if str_eq(normalized.as_str(), "catppuccin") {
        if dark_mode {
            string_of("catppuccin-mocha")
        } else {
            string_of("catppuccin-latte")
        }
    } else {
        normalized
    }
}

/// Whether `name` is one of the profile names.
fn is_profile_name(name: &str) -> (r: bool)
    ensures
        r == profile_names().contains(name@),
{
    let names = COLOR_PROFILE_NAMES;
    let mut i: usize = 0;
    while i < 8
        invariant
            0 <= i <= 8,
            names@ == COLOR_PROFILE_NAMES@,
            forall|k: int| 0 <= k < i ==> profile_names()[k] != name@,
        decreases 8 - i,
    {
        assert(names[i as int]@ == profile_names()[i as int]);
        if str_eq(names[i], name) {
            return true;
        }
        i += 1;
    }
    assert(!profile_names().contains(name@)) by {
        if profile_names().contains(name@) {
            let k = choose|k: int| 0 <= k < 8 && profile_names()[k] == name@;
            assert(profile_names()[k] == name@);
        }
    }
    false
}

/// Validate a color profile name from CLI input.
pub fn validate_color_profile_name(value: &str) -> (r: Result<String, String>)
    ensures
        ({
            let normalized = normalized_profile_name(value@);
            if normalized == "catppuccin"@ || profile_names().contains(normalized) {
                r == Ok::<String, String>(r->Ok_0) && r->Ok_0@ == normalized
            } else {
                r is Err && r->Err_0@ == "Use one of: "@ + COLOR_PROFILE_NAMES_HELP@
            }
        }),
{
    let normalized = normalize_profile_name(value);
    if str_eq(normalized.as_str(), "catppuccin") || is_profile_name(normalized.as_str()) {
        Ok(normalized)
    } else {
        Err(concat("Use one of: ", COLOR_PROFILE_NAMES_HELP))
    }
}

/// What `format!("{:?}", s)` gives for a string: its Debug form, quoted and
/// escaped.
pub uninterp spec fn debug_str(s: Seq<char>) -> Seq<char>;

/// Calls the `Debug` formatting of `str`, whose result depends on the
/// characters alone; the contract names that result and says nothing more.
#[verifier::external_body]
fn debug_quoted(s: &str) -> (r: String)
    ensures
        r@ == debug_str(s@),
{
    format!("{:?}", s)
}

/// The message for a profile name that names no profile.
pub open spec fn unknown_profile_message(name: Seq<char>) -> Seq<char> {
    "Unknown color profile: "@ + debug_str(name) + ". Valid profiles: "@ + COLOR_PROFILE_NAMES_HELP@
}

/// Resolve a color profile name to its theme-specific palette.
pub fn resolve_color_profile(profile_name: &str, dark_mode: bool) -> (r: Result<ThemeProfile, String>)
    ensures
        match builtin_profile(canonical_profile_spec(profile_name@, dark_mode)) {
            Some(p) => r == Ok::<ThemeProfile, String>(theme_of(p, dark_mode)),
            None => r is Err && r->Err_0@ == unknown_profile_message(profile_name@),
        },
{
    let canonical_name = canonical_color_profile_name(profile_name, dark_mode);
    let profiles = get_color_profiles();
    let found = profiles.get(canonical_name.as_str());
    proof {
        if builtin_profile(canonical_name@) is Some {
            assert(profile_names().contains(canonical_name@)) by {
                let k: int = if canonical_name@ == "github"@ { 0 } else if canonical_name@ == "aurora"@ { 1 }
                    else if canonical_name@ == "ocean"@ { 2 } else if canonical_name@ == "fire"@ { 3 }
                    else if canonical_name@ == "catppuccin-latte"@ { 4 } else if canonical_name@ == "catppuccin-frappe"@ { 5 }
                    else if canonical_name@ == "catppuccin-macchiato"@ { 6 } else { 7 };
                assert(profile_names()[k] == canonical_name@);
            }
        }
    }
    match found {
        Some(profile) => Ok(if dark_mode {
            profile.dark
        } else {
            profile.light
        }),
        None => {
            let mut msg = concat("Unknown color profile: ", debug_quoted(profile_name).as_str());
            msg.append(". Valid profiles: ");
            msg.append(COLOR_PROFILE_NAMES_HELP);
            Err(msg)
        },
    }
}

// ---------------------------------------------------------------------------
// Palette data structures
// ---------------------------------------------------------------------------

/// Render palette with background, text, and cell colors.
#[derive(Debug, Clone)]
pub struct Palette {
    pub background: String,
    pub text: String,
    pub subtle_text: String,
    pub empty_cell: String,
    pub cells: Vec<String>,
}

/// The cell colors of a theme stretched or cut to `count` entries: the five
/// stops in order, then the last stop repeated.
pub open spec fn padded_cells(stops: [&'static str; 5], count: nat) -> Seq<Seq<char>> {
    Seq::new(count, |i: int| if i < 5 { stops[i]@ } else { stops[4]@ })
}

/// The palette that a theme yields with `count` cell colors.
pub open spec fn palette_matches(p: Palette, t: ThemeProfile, count: nat) -> bool {
    &&& p.background@ == t.background@
    &&& p.text@ == t.text@
    &&& p.subtle_text@ == t.subtle_text@
    &&& p.empty_cell@ == t.empty_cell@
    &&& p.cells@.len() == count
    &&& forall|i: int| 0 <= i < count ==> #[trigger] p.cells@[i]@ == padded_cells(t.cells, count)[i]
}

/// Load the render palette.
pub fn load_palette(dark_mode: bool, cell_count: usize, color_profile: &str) -> (r: Result<Palette, String>)
    ensures
        match builtin_profile(canonical_profile_spec(color_profile@, dark_mode)) {
            Some(p) => r matches Ok(palette) && palette_matches(palette, theme_of(p, dark_mode), cell_count as nat),
            None => r is Err && r->Err_0@ == unknown_profile_message(color_profile@),
        },
{
    let profile = match resolve_color_profile(color_profile, dark_mode) {
        Ok(p) => p,
        Err(e) => return Err(e),
    };
    let mut cells: Vec<String> = Vec::new();
    let mut i: usize = 0;
    while i < cell_count
        invariant
            0 <= i <= cell_count,
            cells@.len() == i,
            forall|k: int| 0 <= k < i ==> #[trigger] cells@[k]@ == padded_cells(profile.cells, cell_count as nat)[k],
        decreases cell_count - i,
    {
        let stop = if i < 5 {
            profile.cells[i]
        } else {
            profile.cells[4]
        };
        cells.push(string_of(stop));
        i += 1;
    }
    Ok(Palette {
        background: string_of(profile.background),
        text: string_of(profile.text),
        subtle_text: string_of(profile.subtle_text),
        empty_cell: string_of(profile.empty_cell),
        cells,
    })
}

// ---------------------------------------------------------------------------
// Hex colors
// ---------------------------------------------------------------------------

/// Number of leading `#` bytes.
pub open spec fn hash_prefix_len(b: Seq<u8>, i: int) -> int
    decreases b.len() - i,
{
    if 0 <= i < b.len() && b[i] == 0x23u8 {
        hash_prefix_len(b, i + 1)
    } else {
        i
    }
}

/// Whether byte position `i` starts a character (or is the end).
pub open spec fn on_char_boundary(b: Seq<u8>, i: int) -> bool {
    i >= b.len() || !(0x80u8 <= b[i] && b[i] <= 0xbfu8)
}

/// Whether the three two-byte slices that `hex_to_rgb` takes after the `#`
/// run all start and end on character boundaries; on other inputs the slicing
/// panics.
pub open spec fn hex_input_ok(color: Seq<char>) -> bool {
    let b = encode_utf8(color);
    let k = hash_prefix_len(b, 0);
    b.len() - k < 6 || (on_char_boundary(b, k + 2) && on_char_boundary(b, k + 4)
        && on_char_boundary(b, k + 6))
}

/// The value of an ASCII hexadecimal digit.
pub open spec fn hex_digit_value(c: u8) -> Option<u8> {
    if 0x30u8 <= c && c <= 0x39u8 {
        Some((c - 0x30u8) as u8)
    } else if 0x61u8 <= c && c <= 0x66u8 {
        Some((c - 0x61u8 + 10) as u8)
    } else if 0x41u8 <= c && c <= 0x46u8 {
        Some((c - 0x41u8 + 10) as u8)
    } else {
        None
    }
}

/// What `u8::from_str_radix(.., 16)` gives for a two-byte string, with 0 for
/// an error: an optional `+` sign followed by hex digits.
pub open spec fn hex_pair_value(b0: u8, b1: u8) -> u8 {
    if b0 == 0x2bu8 {
        match hex_digit_value(b1) {
            Some(v) => v,
            None => 0,
        }
    } else {
        match (hex_digit_value(b0), hex_digit_value(b1)) {
            (Some(h), Some(l)) => (h * 16 + l) as u8,
            _ => 0,
        }
    }
}

/// The color that `hex_to_rgb` reads from a string.
pub open spec fn hex_rgb_spec(color: Seq<char>) -> (u8, u8, u8) {
    let b = encode_utf8(color);
    let k = hash_prefix_len(b, 0);
    if b.len() - k < 6 {
        (0, 0, 0)
    } else {
        (
            hex_pair_value(b[k], b[k + 1]),
            hex_pair_value(b[k + 2], b[k + 3]),
            hex_pair_value(b[k + 4], b[k + 5]),
        )
    }
}

fn hex_digit(c: u8) -> (r: Option<u8>)
    ensures
        r == hex_digit_value(c),
{
    if 0x30u8 <= c && c <= 0x39u8 {
        Some(c - 0x30u8)
    } else if 0x61u8 <= c && c <= 0x66u8 {
        Some(c - 0x61u8 + 10)
    } else if 0x41u8 <= c && c <= 0x46u8 {
        Some(c - 0x41u8 + 10)
    } else {
        None
    }
}

fn hex_pair(b0: u8, b1: u8) -> (r: u8)
    ensures
        r == hex_pair_value(b0, b1),
{
    if b0 == 0x2bu8 {
        match hex_digit(b1) {
            Some(v) => v,
            None => 0,
        }
    } else {
        match (hex_digit(b0), hex_digit(b1)) {
            (Some(h), Some(l)) => h * 16 + l,
            _ => 0,
        }
    }
}

/// Convert a #RRGGBB color to an RGB tuple.
pub fn hex_to_rgb(color: &str) -> (r: (u8, u8, u8))
    requires
        hex_input_ok(color@),
    ensures
        r == hex_rgb_spec(color@),
{
    let b = color.as_bytes();
    let n = b.len();
    let mut k: usize = 0;
    while k < n && b[k] == 0x23u8
        invariant
            n == b@.len(),
            b@ == encode_utf8(color@),
            0 <= k <= n,
            hash_prefix_len(b@, 0) == hash_prefix_len(b@, k as int),
        decreases n - k,
    {
        k += 1;
    }
    if n - k < 6 {
        return (0, 0, 0);
    }
    (hex_pair(b[k], b[k + 1]), hex_pair(b[k + 2], b[k + 3]), hex_pair(b[k + 4], b[k + 5]))
}

/// Whether `hex_to_rgb` can read a string: its three two-byte slices start
/// and end on character boundaries.
pub fn hex_input_accepted(color: &str) -> (r: bool)
    ensures
        r == hex_input_ok(color@),
{
    let b = color.as_bytes();
    let n = b.len();
    let mut k: usize = 0;
    while k < n && b[k] == 0x23u8
        invariant
            n == b@.len(),
            b@ == encode_utf8(color@),
            0 <= k <= n,
            hash_prefix_len(b@, 0) == hash_prefix_len(b@, k as int),
        decreases n - k,
    {
        k += 1;
    }
    if n - k < 6 {
        return true;
    }
    let boundary = |i: usize| -> (r: bool)
        requires
            i < n,
            n == b@.len(),
        ensures
            r == on_char_boundary(b@, i as int),
        { !(0x80u8 <= b[i] && b[i] <= 0xbfu8) };
    let at2 = k + 2 >= n || boundary(k + 2);
    let at4 = k + 4 >= n || boundary(k + 4);
    let at6 = k + 6 >= n || boundary(k + 6);
    at2 && at4 && at6
}

proof fn lemma_hash_prefix_bounds(b: Seq<u8>, i: int)
    requires
        0 <= i <= b.len(),
    ensures
        i <= hash_prefix_len(b, i) <= b.len(),
    decreases b.len() - i,
{
    if i < b.len() && b[i] == 0x23u8 {
        lemma_hash_prefix_bounds(b, i + 1);
    }
}

/// ASCII strings never split a character when sliced by byte.
pub proof fn lemma_ascii_hex_input_ok(color: Seq<char>)
    requires
        is_ascii_chars(color),
    ensures
        hex_input_ok(color),
{
    vstd::utf8::is_ascii_chars_encode_utf8(color);
    let b = encode_utf8(color);
    assert forall|i: int| 0 <= i < b.len() implies on_char_boundary(b, i) by {
        assert(color[i] as u8 == b[i]);
        assert('\0' <= color[i] <= '\u{7f}');
    }
    let k = hash_prefix_len(b, 0);
    lemma_hash_prefix_bounds(b, 0);
    assert(on_char_boundary(b, k + 2));
    assert(on_char_boundary(b, k + 4));
    assert(on_char_boundary(b, k + 6));
}

/// The lowercase hex digit for a value below 16.
pub open spec fn hex_char(v: int) -> char {
    if v < 10 {
        ((('0' as u32) + v) as u32) as char
    } else {
        ((('a' as u32) + v - 10) as u32) as char
    }
}

/// `#rrggbb` with lowercase hex digits.
pub open spec fn rgb_hex_spec(rgb: (u8, u8, u8)) -> Seq<char> {
    seq![
        '#',
        hex_char((rgb.0 / 16) as int),
        hex_char((rgb.0 % 16) as int),
        hex_char((rgb.1 / 16) as int),
        hex_char((rgb.1 % 16) as int),
        hex_char((rgb.2 / 16) as int),
        hex_char((rgb.2 % 16) as int),
    ]
}

fn hex_char_exec(v: u8) -> (c: char)
    requires
        v < 16,
    ensures
        c == hex_char(v as int),
{
    if v < 10 {
        (48u8 + v) as char
    } else {
        (87u8 + v) as char
    }
}

fn push_hex_byte(out: &mut String, v: u8)
    ensures
        final(out)@ == old(out)@ + seq![hex_char((v / 16) as int), hex_char((v % 16) as int)],
{
    crate::strings::push_char(out, hex_char_exec(v / 16));
    crate::strings::push_char(out, hex_char_exec(v % 16));
}

/// Convert an RGB tuple to #RRGGBB.
pub fn rgb_to_hex(rgb: (u8, u8, u8)) -> (r: String)
    ensures
        r@ == rgb_hex_spec(rgb),
{
    let mut out = string_of("#");
    proof {
        reveal_strlit("#");
    }
    push_hex_byte(&mut out, rgb.0);
    push_hex_byte(&mut out, rgb.1);
    push_hex_byte(&mut out, rgb.2);
    out
}

/// Reading back the hex form of a color gives the color.
pub proof fn lemma_rgb_hex_round_trip(rgb: (u8, u8, u8))
    ensures
        hex_input_ok(rgb_hex_spec(rgb)),
        hex_rgb_spec(rgb_hex_spec(rgb)) == rgb,
{
    let s = rgb_hex_spec(rgb);
    assert(is_ascii_chars(s));
    lemma_ascii_hex_input_ok(s);
    vstd::utf8::is_ascii_chars_encode_utf8(s);
    let b = encode_utf8(s);
    assert(b.len() == 7);
    assert(b[0] == 0x23u8);
    assert(hash_prefix_len(b, 1) == 1);
    assert(hash_prefix_len(b, 0) == 1);
}

} // verus!
