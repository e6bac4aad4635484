//! Render options: renderer, theme and scale-profile validation, defaults,
//! and the legend items of the PNG renderer.

use vstd::prelude::*;

use crate::cli::{invalid_date_message, parse_date};
use crate::config::{
    opt_text, profile_check, render_base, scale_profile_check, theme_check,
    validate_render_scale_bits, render_scale_rejected, ConfigModel, HitmapConfig, RenderConfig,
    DEFAULT_RENDER_SCALE_BITS, RENDER_SCALE_ERROR,
};
use crate::dates::parsed_ymd;
use crate::palette::{validate_color_profile_name, Palette};
use crate::scale::{parse_profile_name, parse_scale_profile};
use crate::strings::{ascii_lower, decimal, lower_trimmed, push_char, str_eq, string_of, trim_spec, u64_to_string};

verus! {

pub const DEFAULT_THEME: &'static str = "auto";

pub const DEFAULT_COLOR_PROFILE: &'static str = "github";

pub const DEFAULT_SCALE_PROFILE: &'static str = "fibonacci-21-plus";

pub const DEFAULT_SCALE_MULTIPLIER: u32 = 1;

/// Rendering backend.
#[derive(Debug, Clone, Copy, PartialEq, Eq, Structural)]
pub enum Renderer {
    Kitty,
    Text,
}

impl Renderer {
    /// The option spelling of the renderer.
    pub fn as_str(&self) -> (r: &'static str)
        ensures
            r@ == match self {
                Renderer::Kitty => "kitty"@,
                Renderer::Text => "text"@,
            },
    {
        match self {
            Renderer::Kitty => "kitty",
            Renderer::Text => "text",
        }
    }
}

pub const DEFAULT_RENDERER: Renderer = Renderer::Kitty;

pub const THEME_ERROR: &'static str = "Theme must be one of: auto, light, dark";

pub const SCALE_PROFILE_HINT: &'static str =
    "Use linear-N-plus or fibonacci-N-plus, for example linear-5-plus or fibonacci-21-plus.";

pub const RENDERER_ERROR: &'static str = "Renderer must be one of: kitty, text";

pub const LAST_WINDOW_HINT: &'static str = "Use forms like 90d, 12w, 6m, or 1y.";

/// Whether a normalized value is a theme name.
pub open spec fn is_theme_name(v: Seq<char>) -> bool {
    v == "auto"@ || v == "light"@ || v == "dark"@
}

pub fn validate_theme_name(value: &str) -> (r: Result<String, String>)
    ensures
        ({
            let v = ascii_lower(trim_spec(value@));
            if is_theme_name(v) {
                r matches Ok(t) && t@ == v
            } else {
                r is Err && r->Err_0@ == THEME_ERROR@
            }
        }),
{
    let v = lower_trimmed(value);
    if str_eq(v.as_str(), "auto") || str_eq(v.as_str(), "light") || str_eq(v.as_str(), "dark") {
        Ok(v)
    } else {
        Err(string_of(THEME_ERROR))
    }
}

/// Whether a normalized value is a usable scale profile name.
pub open spec fn is_scale_profile_name(v: Seq<char>) -> bool {
    parse_profile_name(v) matches Some((_, max_value)) && max_value <= u64::MAX
}

pub fn validate_scale_profile_name(value: &str) -> (r: Result<String, String>)
    ensures
        ({
            let v = ascii_lower(trim_spec(value@));
            if is_scale_profile_name(v) {
                r matches Ok(t) && t@ == v
            } else {
                r is Err && r->Err_0@ == SCALE_PROFILE_HINT@
            }
        }),
{
    let normalized = lower_trimmed(value);
    match parse_scale_profile(normalized.as_str(), 1) {
        Ok(_) => Ok(normalized),
        Err(_) => Err(string_of(SCALE_PROFILE_HINT)),
    }
}

/// The renderer an option value names, compared trimmed and ignoring ASCII case.
pub open spec fn renderer_spec(value: Seq<char>) -> Option<Renderer> {
    let v = ascii_lower(trim_spec(value));
    if v == "kitty"@ {
        Some(Renderer::Kitty)
    } else if v == "text"@ {
        Some(Renderer::Text)
    } else {
        None
    }
}

pub fn parse_renderer_name(value: &str) -> (r: Result<Renderer, String>)
    ensures
        match renderer_spec(value@) {
            Some(x) => r == Ok::<Renderer, String>(x),
            None => r is Err && r->Err_0@ == RENDERER_ERROR@,
        },
{
    let v = lower_trimmed(value);
    if str_eq(v.as_str(), "kitty") {
        Ok(Renderer::Kitty)
    } else if str_eq(v.as_str(), "text") {
        Ok(Renderer::Text)
    } else {
        Err(string_of(RENDERER_ERROR))
    }
}

/// Check a `--last` value, keeping it as given.
pub fn validate_last_window(value: &str) -> (r: Result<String, String>)
    ensures
        crate::common::last_window_spec(value@) is Ok ==> (r matches Ok(v) && v@ == value@),
        crate::common::last_window_spec(value@) is Err ==> (r is Err && r->Err_0@ == LAST_WINDOW_HINT@),
{
    match crate::common::parse_last_window(value) {
        Ok(_) => Ok(string_of(value)),
        Err(_) => Err(string_of(LAST_WINDOW_HINT)),
    }
}

/// Result of a PNG render.
pub struct RenderResult {
    pub png_bytes: Vec<u8>,
    pub display_width_px: u32,
}

/// The label of legend item `index` among `count` thresholds: the threshold,
/// with a `+` on the last one.
pub open spec fn legend_label(threshold: u64, last: bool) -> Seq<char> {
    if last {
        decimal(threshold as nat).push('+')
    } else {
        decimal(threshold as nat)
    }
}

/// Legend entries: `0` with the empty-cell color, then one entry per
/// threshold with the matching cell color.
pub fn build_legend_items_for_thresholds<'a>(palette: &'a Palette, thresholds: &[u64]) -> (r: Vec<(String, &'a str)>)
    requires
        palette.cells@.len() >= thresholds@.len(),
    ensures
        r@.len() == thresholds@.len() + 1,
        r@[0].0@ == "0"@,
        r@[0].1@ == palette.empty_cell@,
        forall|i: int|
            0 <= i < thresholds@.len() ==> #[trigger] r@[i + 1].0@ == legend_label(
                thresholds@[i],
                i == thresholds@.len() - 1,
            ) && r@[i + 1].1@ == palette.cells@[i]@,
{
    let mut items: Vec<(String, &'a str)> = Vec::new();
    items.push((string_of("0"), palette.empty_cell.as_str()));
    let n = thresholds.len();
    let mut index: usize = 0;
    while index < n
        invariant
            n == thresholds@.len(),
            palette.cells@.len() >= n,
            0 <= index <= n,
            items@.len() == index + 1,
            items@[0].0@ == "0"@,
            items@[0].1@ == palette.empty_cell@,
            forall|i: int|
                0 <= i < index ==> #[trigger] items@[i + 1].0@ == legend_label(thresholds@[i], i == n - 1)
                    && items@[i + 1].1@ == palette.cells@[i]@,
        decreases n - index,
    {
        let mut label = u64_to_string(thresholds[index]);
        if index == n - 1 {
            push_char(&mut label, '+');
        }
        items.push((label, palette.cells[index].as_str()));
        index += 1;
    }
    items
}

// ---------------------------------------------------------------------------
// Render settings
// ---------------------------------------------------------------------------

/// Check a `--from-date` or `--to-date` value, keeping it as given.
pub fn validate_date_string(value: &str) -> (r: Result<String, String>)
    ensures
        match parsed_ymd(value@) {
            Ok(_) => r is Ok && r->Ok_0@ == value@,
            Err(e) => r is Err && r->Err_0@ == invalid_date_message(value@, e),
        },
{
    match parse_date(value) {
        Ok(_) => Ok(string_of(value)),
        Err(e) => Err(e),
    }
}

/// Arguments of the render command. `render_scale` holds the bits of a
/// 64-bit float.
pub struct RenderArgs {
    pub repo_path: String,
    pub all_authors: bool,
    pub author_name: Vec<String>,
    pub author_email: Vec<String>,
    pub max_width_cells: Option<u32>,
    pub render_scale: Option<u64>,
    pub output: Option<String>,
    pub renderer: Option<Renderer>,
    pub text_mode: bool,
    pub theme: Option<String>,
    pub cell_count: usize,
    pub color_profile: Option<String>,
    pub scale_profile: Option<String>,
    pub scale_multiplier: Option<u32>,
    pub from_date: Option<String>,
    pub to_date: Option<String>,
    pub last: String,
    pub quiet: bool,
    pub verbose: bool,
}

/// The settings a render runs with, once the flags, the config file and the
/// defaults have been merged. `render_scale` holds the bits of a 64-bit
/// float.
pub struct ResolvedRenderSettings {
    pub renderer: Renderer,
    pub max_width_cells: Option<u32>,
    pub render_scale: u64,
    pub theme: String,
    pub color_profile: String,
    pub scale_profile: String,
    pub scale_multiplier: u32,
}

/// The message for a scale multiplier of 0.
pub const SCALE_MULTIPLIER_ERROR: &'static str = "Scale multiplier must be greater than or equal to 1.";

/// The flag's value, else the config file's, else the default.
pub open spec fn pick_text(flag: Option<String>, file: Option<Seq<char>>, default: Seq<char>) -> Seq<
    char,
> {
    match flag {
        Some(v) => v@,
        None => match file {
            Some(v) => v,
            None => default,
        },
    }
}

/// The settings, or the first error, that the flags and the config file
/// give: the renderer, the render scale, the theme, the color profile, the
/// scale profile and the multiplier are checked in that order.
pub open spec fn settings_spec(args: RenderArgs, config: ConfigModel) -> Result<
    (Renderer, Option<u32>, u64, Seq<char>, Seq<char>, Seq<char>, u32),
    Seq<char>,
> {
    let rc = render_base(config);
    let renderer: Result<Renderer, Seq<char>> = if args.text_mode {
        Ok(Renderer::Text)
    } else if args.renderer is Some {
        Ok(args.renderer->Some_0)
    } else if rc.renderer is Some {
        match renderer_spec(rc.renderer->Some_0) {
            Some(r) => Ok(r),
            None => Err(RENDERER_ERROR@),
        }
    } else {
        Ok(Renderer::Kitty)
    };
    let max_width_cells = match args.max_width_cells {
        Some(v) => Some(v),
        None => rc.max_width_cells,
    };
    let render_scale = match args.render_scale {
        Some(v) => v,
        None => match rc.render_scale {
            Some(v) => v,
            None => DEFAULT_RENDER_SCALE_BITS,
        },
    };
    let theme = theme_check(pick_text(args.theme, rc.theme, DEFAULT_THEME@));
    let profile = profile_check(pick_text(args.color_profile, rc.color_profile, DEFAULT_COLOR_PROFILE@));
    let scale = scale_profile_check(pick_text(args.scale_profile, rc.scale_profile, DEFAULT_SCALE_PROFILE@));
    let multiplier = match args.scale_multiplier {
        Some(v) => v,
        None => match rc.scale_multiplier {
            Some(v) => v,
            None => DEFAULT_SCALE_MULTIPLIER,
        },
    };
    if renderer is Err {
        Err(renderer->Err_0)
    } else if render_scale_rejected(render_scale) {
        Err(RENDER_SCALE_ERROR@)
    } else if theme is Err {
        Err(theme->Err_0)
    } else if profile is Err {
        Err(profile->Err_0)
    } else if scale is Err {
        Err(scale->Err_0)
    } else if multiplier == 0 {
        Err(SCALE_MULTIPLIER_ERROR@)
    } else {
        Ok(
            (
                renderer->Ok_0,
                max_width_cells,
                render_scale,
                theme->Ok_0,
                profile->Ok_0,
                scale->Ok_0,
                multiplier,
            ),
        )
    }
}

/// The flag's value, else the config file's, else the default, as a string.
fn pick_text_exec(flag: &Option<String>, file: &Option<String>, default: &str) -> (r: String)
    ensures
        r@ == pick_text(*flag, opt_text(*file), default@),
{
    match flag {
        Some(v) => v.clone(),
        None => match file {
            Some(v) => v.clone(),
            None => string_of(default),
        },
    }
}

impl RenderArgs {
    /// Merge the flags, the config file and the defaults, checking each value.
    pub fn resolve_settings(&self, config: &HitmapConfig) -> (r: Result<ResolvedRenderSettings, String>)
        ensures
            match settings_spec(*self, config@) {
                Ok(s) => r matches Ok(v) && s == (
                    v.renderer,
                    v.max_width_cells,
                    v.render_scale,
                    v.theme@,
                    v.color_profile@,
                    v.scale_profile@,
                    v.scale_multiplier,
                ),
                Err(e) => r is Err && r->Err_0@ == e,
            },
    {
        let empty = RenderConfig::new();
        let rc = match &config.render {
            Some(r) => r,
            None => &empty,
        };
        let renderer = if self.text_mode {
            Renderer::Text
        } else if let Some(renderer) = self.renderer {
            renderer
        } else if let Some(name) = &rc.renderer {
            match parse_renderer_name(name.as_str()) {
                Ok(r) => r,
                Err(e) => {
                    return Err(e);
                },
            }
        } else {
            Renderer::Kitty
        };
        let max_width_cells = match self.max_width_cells {
            Some(v) => Some(v),
            None => rc.max_width_cells,
        };
        let render_scale = match self.render_scale {
            Some(v) => v,
            None => match rc.render_scale {
                Some(v) => v,
                None => DEFAULT_RENDER_SCALE_BITS,
            },
        };
        match validate_render_scale_bits(render_scale) {
            Ok(_) => {},
            Err(e) => {
                return Err(e);
            },
        }
        let theme = pick_text_exec(&self.theme, &rc.theme, DEFAULT_THEME);
        let theme = match validate_theme_name(theme.as_str()) {
            Ok(t) => t,
            Err(e) => {
                return Err(e);
            },
        };
        let color_profile = pick_text_exec(&self.color_profile, &rc.color_profile, DEFAULT_COLOR_PROFILE);
        let color_profile = match validate_color_profile_name(color_profile.as_str()) {
            Ok(t) => t,
            Err(e) => {
                return Err(e);
            },
        };
        let scale_profile = pick_text_exec(&self.scale_profile, &rc.scale_profile, DEFAULT_SCALE_PROFILE);
        let scale_profile = match validate_scale_profile_name(scale_profile.as_str()) {
            Ok(t) => t,
            Err(e) => {
                return Err(e);
            },
        };
        let scale_multiplier = match self.scale_multiplier {
            Some(v) => v,
            None => match rc.scale_multiplier {
                Some(v) => v,
                None => DEFAULT_SCALE_MULTIPLIER,
            },
        };
        if scale_multiplier == 0 {
            return Err(string_of(SCALE_MULTIPLIER_ERROR));
        }
        Ok(
            ResolvedRenderSettings {
                renderer,
                max_width_cells,
                render_scale,
                theme,
                color_profile,
                scale_profile,
                scale_multiplier,
            },
        )
    }
}

/// The number of color buckets a render uses: the requested count when it
/// is not 0, else the number of thresholds; and the thresholds cut to it.
pub fn effective_thresholds(thresholds: &[u64], requested_count: usize) -> (r: (usize, Vec<u64>))
    ensures
        r.0 == if requested_count > 0 {
            requested_count
        } else {
            thresholds@.len() as usize
        },
        r.1@ == thresholds@.take(
            if r.0 < thresholds@.len() {
                r.0 as int
            } else {
                thresholds@.len() as int
            },
        ),
{
    let cell_count = if requested_count > 0 {
        requested_count
    } else {
        thresholds.len()
    };
    let mut out: Vec<u64> = Vec::new();
    let mut i: usize = 0;
    while i < thresholds.len() && i < cell_count
        invariant
            0 <= i <= thresholds@.len(),
            i <= cell_count,
            out@ == thresholds@.take(i as int),
        decreases thresholds@.len() - i,
    {
        out.push(thresholds[i]);
        assert(thresholds@.take(i + 1) =~= thresholds@.take(i as int).push(thresholds@[i as int]));
        i += 1;
    }
    (cell_count, out)
}

/// The error for `--output` with the text renderer.
pub const TEXT_OUTPUT_ERROR: &'static str =
    "--output is only supported with the kitty renderer; redirect stdout for text output";

} // verus!
