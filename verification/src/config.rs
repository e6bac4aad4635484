//! The persisted configuration: its tables, the checks on their values, the
//! keys that `hitmap config set` and `unset` address, and the effective
//! values once the built-in defaults fill the gaps.

use vstd::prelude::*;

use crate::authors::{output_format_spec, parse_output_format_name, OUTPUT_FORMAT_ERROR};
use crate::doctor::{doctor_format_spec, parse_doctor_format_name, DOCTOR_FORMAT_ERROR};
use crate::palette::{
    normalized_profile_name, profile_names, validate_color_profile_name, COLOR_PROFILE_NAMES_HELP,
};
use crate::render::{
    is_scale_profile_name, is_theme_name, parse_renderer_name, renderer_spec,
    validate_scale_profile_name, validate_theme_name, Renderer, RENDERER_ERROR,
    SCALE_PROFILE_HINT, THEME_ERROR,
};
use crate::scale::{digits_value, is_ascii_digit, read_number};
use crate::strings::{ascii_lower, chars_of, lemma_normalize_idempotent, concat, str_eq, string_of, trim, trim_spec};

verus! {

// ---------------------------------------------------------------------------
// Tables
// ---------------------------------------------------------------------------

/// The `[render]` table. `render_scale` holds the bits of a 64-bit float.
pub struct RenderConfig {
    pub renderer: Option<String>,
    pub theme: Option<String>,
    pub color_profile: Option<String>,
    pub scale_profile: Option<String>,
    pub scale_multiplier: Option<u32>,
    pub render_scale: Option<u64>,
    pub max_width_cells: Option<u32>,
}

/// The `[authors]` table.
pub struct AuthorsConfig {
    pub output_format: Option<String>,
}

/// The `[doctor]` table.
pub struct DoctorConfig {
    pub output_format: Option<String>,
}

/// The whole configuration file.
pub struct HitmapConfig {
    pub render: Option<RenderConfig>,
    pub authors: Option<AuthorsConfig>,
    pub doctor: Option<DoctorConfig>,
}

/// An optional string as a plain value.
pub open spec fn opt_text(o: Option<String>) -> Option<Seq<char>> {
    match o {
        Some(s) => Some(s@),
        None => None,
    }
}

/// The `[render]` table as plain values.
pub struct RenderModel {
    pub renderer: Option<Seq<char>>,
    pub theme: Option<Seq<char>>,
    pub color_profile: Option<Seq<char>>,
    pub scale_profile: Option<Seq<char>>,
    pub scale_multiplier: Option<u32>,
    pub render_scale: Option<u64>,
    pub max_width_cells: Option<u32>,
}

/// The configuration as plain values; a table is `None` when absent, and the
/// single-key tables hold their one optional value.
pub struct ConfigModel {
    pub render: Option<RenderModel>,
    pub authors: Option<Option<Seq<char>>>,
    pub doctor: Option<Option<Seq<char>>>,
}

impl View for RenderConfig {
    type V = RenderModel;

    open spec fn view(&self) -> RenderModel {
        RenderModel {
            renderer: opt_text(self.renderer),
            theme: opt_text(self.theme),
            color_profile: opt_text(self.color_profile),
            scale_profile: opt_text(self.scale_profile),
            scale_multiplier: self.scale_multiplier,
            render_scale: self.render_scale,
            max_width_cells: self.max_width_cells,
        }
    }
}

impl View for HitmapConfig {
    type V = ConfigModel;

    open spec fn view(&self) -> ConfigModel {
        ConfigModel {
            render: match self.render {
                Some(r) => Some(r@),
                None => None,
            },
            authors: match self.authors {
                Some(a) => Some(opt_text(a.output_format)),
                None => None,
            },
            doctor: match self.doctor {
                Some(d) => Some(opt_text(d.output_format)),
                None => None,
            },
        }
    }
}

/// A `[render]` table with nothing set.
pub open spec fn empty_render() -> RenderModel {
    RenderModel {
        renderer: None,
        theme: None,
        color_profile: None,
        scale_profile: None,
        scale_multiplier: None,
        render_scale: None,
        max_width_cells: None,
    }
}

/// A configuration with no tables.
pub open spec fn empty_config() -> ConfigModel {
    ConfigModel { render: None, authors: None, doctor: None }
}

impl RenderConfig {
    /// A table with nothing set.
    pub fn new() -> (r: RenderConfig)
        ensures
            r@ == empty_render(),
    {
        RenderConfig {
            renderer: None,
            theme: None,
            color_profile: None,
            scale_profile: None,
            scale_multiplier: None,
            render_scale: None,
            max_width_cells: None,
        }
    }

    /// Whether no key of the table is set.
    pub fn is_empty(&self) -> (r: bool)
        ensures
            r == (self@ == empty_render()),
    {
        self.renderer.is_none() && self.theme.is_none() && self.color_profile.is_none()
            && self.scale_profile.is_none() && self.scale_multiplier.is_none()
            && self.render_scale.is_none() && self.max_width_cells.is_none()
    }
}

impl Default for RenderConfig {
    fn default() -> (r: RenderConfig)
        ensures
            r@ == empty_render(),
    {
        RenderConfig::new()
    }
}

impl Default for HitmapConfig {
    fn default() -> (r: HitmapConfig)
        ensures
            r@ == empty_config(),
    {
        HitmapConfig::new()
    }
}

impl AuthorsConfig {
    /// Whether no key of the table is set.
    pub fn is_empty(&self) -> (r: bool)
        ensures
            r == (self.output_format is None),
    {
        self.output_format.is_none()
    }
}

impl DoctorConfig {
    /// Whether no key of the table is set.
    pub fn is_empty(&self) -> (r: bool)
        ensures
            r == (self.output_format is None),
    {
        self.output_format.is_none()
    }
}

impl HitmapConfig {
    /// A configuration with no tables.
    pub fn new() -> (r: HitmapConfig)
        ensures
            r@ == empty_config(),
    {
        HitmapConfig { render: None, authors: None, doctor: None }
    }

    /// Whether the configuration has no table.
    pub fn is_empty(&self) -> (r: bool)
        ensures
            r == (self@ == empty_config()),
    {
        self.render.is_none() && self.authors.is_none() && self.doctor.is_none()
    }
}

// ---------------------------------------------------------------------------
// Checks on values
// ---------------------------------------------------------------------------

/// Whether the 64-bit float with these bits is a NaN.
pub open spec fn f64_is_nan(bits: u64) -> bool {
    (bits & 0x7ff0_0000_0000_0000u64) == 0x7ff0_0000_0000_0000u64 && (bits
        & 0x000f_ffff_ffff_ffffu64) != 0
}

/// Whether the 64-bit float with these bits is refused as a render scale,
/// which must be a number no smaller than 1.0: a NaN is refused, and so is
/// every negative value (and -0.0); among non-negative values the order of
/// the bits is the order of the values.
pub open spec fn render_scale_rejected(bits: u64) -> bool {
    f64_is_nan(bits) || bits >= 0x8000_0000_0000_0000u64 || bits < 0x3ff0_0000_0000_0000u64
}

/// The bits of the 64-bit float 2.0, the default render scale.
pub const DEFAULT_RENDER_SCALE_BITS: u64 = 0x4000_0000_0000_0000u64;

/// The message for a render scale that is not a number of at least 1.0.
pub const RENDER_SCALE_ERROR: &'static str = "Render scale must be greater than or equal to 1.0.";

/// Check a render scale, given by the bits of its 64-bit float.
pub fn validate_render_scale_bits(bits: u64) -> (r: Result<u64, String>)
    ensures
        render_scale_rejected(bits) ==> r is Err && r->Err_0@ == RENDER_SCALE_ERROR@,
        !render_scale_rejected(bits) ==> r == Ok::<u64, String>(bits),
{
    let nan = (bits & 0x7ff0_0000_0000_0000u64) == 0x7ff0_0000_0000_0000u64 && (bits
        & 0x000f_ffff_ffff_ffffu64) != 0;
    if nan || bits >= 0x8000_0000_0000_0000u64 || bits < 0x3ff0_0000_0000_0000u64 {
        Err(string_of(RENDER_SCALE_ERROR))
    } else {
        Ok(bits)
    }
}

/// The check of a theme value: the normalized name, or the error.
pub open spec fn theme_check(v: Seq<char>) -> Result<Seq<char>, Seq<char>> {
    let n = ascii_lower(trim_spec(v));
    if is_theme_name(n) {
        Ok(n)
    } else {
        Err(THEME_ERROR@)
    }
}

/// The check of a color profile value: the normalized name, or the error.
pub open spec fn profile_check(v: Seq<char>) -> Result<Seq<char>, Seq<char>> {
    let n = normalized_profile_name(v);
    if n == "catppuccin"@ || profile_names().contains(n) {
        Ok(n)
    } else {
        Err("Use one of: "@ + COLOR_PROFILE_NAMES_HELP@)
    }
}

/// The check of a scale profile value: the normalized name, or the error.
pub open spec fn scale_profile_check(v: Seq<char>) -> Result<Seq<char>, Seq<char>> {
    let n = ascii_lower(trim_spec(v));
    if is_scale_profile_name(n) {
        Ok(n)
    } else {
        Err(SCALE_PROFILE_HINT@)
    }
}

/// The spelling of a renderer.
pub open spec fn renderer_name(r: Renderer) -> Seq<char> {
    match r {
        Renderer::Kitty => "kitty"@,
        Renderer::Text => "text"@,
    }
}

/// The check of a renderer value: the renderer's spelling, or the error.
pub open spec fn renderer_check(v: Seq<char>) -> Result<Seq<char>, Seq<char>> {
    match renderer_spec(v) {
        Some(r) => Ok(renderer_name(r)),
        None => Err(RENDERER_ERROR@),
    }
}

/// The check of an authors output format: the format's spelling, or the error.
pub open spec fn output_format_check(v: Seq<char>) -> Result<Seq<char>, Seq<char>> {
    match output_format_spec(v) {
        Some(crate::authors::OutputFormat::Table) => Ok("table"@),
        Some(crate::authors::OutputFormat::Json) => Ok("json"@),
        Some(crate::authors::OutputFormat::Tsv) => Ok("tsv"@),
        None => Err(OUTPUT_FORMAT_ERROR@),
    }
}

/// The check of a doctor output format: the format's spelling, or the error.
pub open spec fn doctor_format_check(v: Seq<char>) -> Result<Seq<char>, Seq<char>> {
    match doctor_format_spec(v) {
        Some(crate::doctor::DoctorFormat::Table) => Ok("table"@),
        Some(crate::doctor::DoctorFormat::Json) => Ok("json"@),
        None => Err(DOCTOR_FORMAT_ERROR@),
    }
}

fn renderer_check_exec(v: &str) -> (r: Result<String, String>)
    ensures
        match renderer_check(v@) {
            Ok(n) => r is Ok && r->Ok_0@ == n,
            Err(m) => r is Err && r->Err_0@ == m,
        },
{
    match parse_renderer_name(v) {
        Ok(renderer) => Ok(string_of(renderer.as_str())),
        Err(e) => Err(e),
    }
}

fn output_format_check_exec(v: &str) -> (r: Result<String, String>)
    ensures
        match output_format_check(v@) {
            Ok(n) => r is Ok && r->Ok_0@ == n,
            Err(m) => r is Err && r->Err_0@ == m,
        },
{
    match parse_output_format_name(v) {
        Ok(f) => Ok(string_of(f.as_str())),
        Err(e) => Err(e),
    }
}

fn doctor_format_check_exec(v: &str) -> (r: Result<String, String>)
    ensures
        match doctor_format_check(v@) {
            Ok(n) => r is Ok && r->Ok_0@ == n,
            Err(m) => r is Err && r->Err_0@ == m,
        },
{
    match parse_doctor_format_name(v) {
        Ok(f) => Ok(string_of(f.as_str())),
        Err(e) => Err(e),
    }
}

/// `prefix` and the error of a failed check; `None` when the check passes.
pub open spec fn check_error(r: Result<Seq<char>, Seq<char>>, prefix: Seq<char>) -> Option<
    Seq<char>,
> {
    match r {
        Ok(_) => None,
        Err(m) => Some(prefix + m),
    }
}

/// The first problem of an optional value under a check.
pub open spec fn value_error(
    v: Option<Seq<char>>,
    check: spec_fn(Seq<char>) -> Result<Seq<char>, Seq<char>>,
    prefix: Seq<char>,
) -> Option<Seq<char>> {
    match v {
        Some(s) => check_error(check(s), prefix),
        None => None,
    }
}

/// The first problem of a `[render]` table, keys in file order.
pub open spec fn render_error(r: RenderModel) -> Option<Seq<char>> {
    if value_error(r.renderer, |s: Seq<char>| renderer_check(s), "render.renderer: "@) is Some {
        value_error(r.renderer, |s: Seq<char>| renderer_check(s), "render.renderer: "@)
    } else if value_error(r.theme, |s: Seq<char>| theme_check(s), "render.theme: "@) is Some {
        value_error(r.theme, |s: Seq<char>| theme_check(s), "render.theme: "@)
    } else if value_error(r.color_profile, |s: Seq<char>| profile_check(s), "render.color_profile: "@) is Some {
        value_error(r.color_profile, |s: Seq<char>| profile_check(s), "render.color_profile: "@)
    } else if value_error(r.scale_profile, |s: Seq<char>| scale_profile_check(s), "render.scale_profile: "@) is Some {
        value_error(r.scale_profile, |s: Seq<char>| scale_profile_check(s), "render.scale_profile: "@)
    } else if r.scale_multiplier == Some(0u32) {
        Some("render.scale_multiplier must be greater than or equal to 1"@)
    } else if r.render_scale matches Some(b) && render_scale_rejected(b) {
        Some("render.render_scale: "@ + RENDER_SCALE_ERROR@)
    } else if r.max_width_cells == Some(0u32) {
        Some("render.max_width_cells must be greater than or equal to 1"@)
    } else {
        None
    }
}

/// The first problem of a configuration: the `[render]` table, then the
/// `[authors]` and `[doctor]` tables.
pub open spec fn config_error(c: ConfigModel) -> Option<Seq<char>> {
    if c.render matches Some(r) && render_error(r) is Some {
        render_error(c.render->Some_0)
    } else if c.authors matches Some(Some(v)) && output_format_check(v) is Err {
        Some("authors.output_format: "@ + output_format_check(c.authors->Some_0->Some_0)->Err_0)
    } else if c.doctor matches Some(Some(v)) && doctor_format_check(v) is Err {
        Some("doctor.output_format: "@ + doctor_format_check(c.doctor->Some_0->Some_0)->Err_0)
    } else {
        None
    }
}

/// Run a string check on an optional value, with a prefix on the error.
fn check_optional(
    v: &Option<String>,
    check: Ghost<spec_fn(Seq<char>) -> Result<Seq<char>, Seq<char>>>,
    result: Option<Result<String, String>>,
    prefix: &str,
) -> (r: Result<(), String>)
    requires
        v is None <==> result is None,
        v matches Some(s) ==> (match (check@)(s@) {
            Ok(n) => result matches Some(Ok(t)) && t@ == n,
            Err(m) => result matches Some(Err(e)) && e@ == m,
        }),
    ensures
        match value_error(opt_text(*v), check@, prefix@) {
            Some(m) => r is Err && r->Err_0@ == m,
            None => r is Ok,
        },
{
    match result {
        Some(Err(e)) => Err(concat(prefix, e.as_str())),
        _ => Ok(()),
    }
}

impl HitmapConfig {
    /// Check every set value; the first problem, in file order, is the error.
    pub fn validate_semantics(&self) -> (r: Result<(), String>)
        ensures
            match config_error(self@) {
                Some(m) => r is Err && r->Err_0@ == m,
                None => r is Ok,
            },
    {
        if let Some(render) = &self.render {
            let checked = match &render.renderer {
                Some(v) => Some(renderer_check_exec(v.as_str())),
                None => None,
            };
            match check_optional(&render.renderer, Ghost(|s: Seq<char>| renderer_check(s)), checked, "render.renderer: ") {
                Ok(()) => {},
                Err(e) => {
                    return Err(e);
                },
            }
            let checked = match &render.theme {
                Some(v) => Some(validate_theme_name(v.as_str())),
                None => None,
            };
            match check_optional(&render.theme, Ghost(|s: Seq<char>| theme_check(s)), checked, "render.theme: ") {
                Ok(()) => {},
                Err(e) => {
                    return Err(e);
                },
            }
            let checked = match &render.color_profile {
                Some(v) => Some(validate_color_profile_name(v.as_str())),
                None => None,
            };
            match check_optional(
                &render.color_profile,
                Ghost(|s: Seq<char>| profile_check(s)),
                checked,
                "render.color_profile: ",
            ) {
                Ok(()) => {},
                Err(e) => {
                    return Err(e);
                },
            }
            let checked = match &render.scale_profile {
                Some(v) => Some(validate_scale_profile_name(v.as_str())),
                None => None,
            };
            match check_optional(
                &render.scale_profile,
                Ghost(|s: Seq<char>| scale_profile_check(s)),
                checked,
                "render.scale_profile: ",
            ) {
                Ok(()) => {},
                Err(e) => {
                    return Err(e);
                },
            }
            if render.scale_multiplier == Some(0u32) {
                return Err(string_of("render.scale_multiplier must be greater than or equal to 1"));
            }
            if let Some(bits) = render.render_scale {
                match validate_render_scale_bits(bits) {
                    Ok(_) => {},
                    Err(e) => {
                        return Err(concat("render.render_scale: ", e.as_str()));
                    },
                }
            }
            if render.max_width_cells == Some(0u32) {
                return Err(string_of("render.max_width_cells must be greater than or equal to 1"));
            }
        }
        if let Some(authors) = &self.authors {
            if let Some(v) = &authors.output_format {
                match output_format_check_exec(v.as_str()) {
                    Ok(_) => {},
                    Err(e) => {
                        return Err(concat("authors.output_format: ", e.as_str()));
                    },
                }
            }
        }
        if let Some(doctor) = &self.doctor {
            if let Some(v) = &doctor.output_format {
                match doctor_format_check_exec(v.as_str()) {
                    Ok(_) => {},
                    Err(e) => {
                        return Err(concat("doctor.output_format: ", e.as_str()));
                    },
                }
            }
        }
        Ok(())
    }
}

// ---------------------------------------------------------------------------
// Keys
// ---------------------------------------------------------------------------

/// The keys that `hitmap config set` and `unset` address.
#[derive(Clone, Copy, Debug, PartialEq, Eq, Structural)]
pub enum ConfigKey {
    RenderRenderer,
    RenderTheme,
    RenderColorProfile,
    RenderScaleProfile,
    RenderScaleMultiplier,
    RenderRenderScale,
    RenderMaxWidthCells,
    AuthorsOutputFormat,
    DoctorOutputFormat,
}

/// The list of supported keys, as the error for an unknown key gives it.
pub const SUPPORTED_KEYS: &'static str =
    "render.renderer, render.theme, render.color_profile, render.scale_profile, render.scale_multiplier, render.render_scale, render.max_width_cells, authors.output_format, doctor.output_format";

/// The key that a dotted name (trimmed) spells.
pub open spec fn config_key_spec(key: Seq<char>) -> Option<ConfigKey> {
    let k = trim_spec(key);
    if k == "render.renderer"@ {
        Some(ConfigKey::RenderRenderer)
    } else if k == "render.theme"@ {
        Some(ConfigKey::RenderTheme)
    } else if k == "render.color_profile"@ {
        Some(ConfigKey::RenderColorProfile)
    } else if k == "render.scale_profile"@ {
        Some(ConfigKey::RenderScaleProfile)
    } else if k == "render.scale_multiplier"@ {
        Some(ConfigKey::RenderScaleMultiplier)
    } else if k == "render.render_scale"@ {
        Some(ConfigKey::RenderRenderScale)
    } else if k == "render.max_width_cells"@ {
        Some(ConfigKey::RenderMaxWidthCells)
    } else if k == "authors.output_format"@ {
        Some(ConfigKey::AuthorsOutputFormat)
    } else if k == "doctor.output_format"@ {
        Some(ConfigKey::DoctorOutputFormat)
    } else {
        None
    }
}

/// Whether every character is an ASCII digit.
pub open spec fn all_ascii_digits(s: Seq<char>) -> bool {
    forall|i: int| 0 <= i < s.len() ==> is_ascii_digit(#[trigger] s[i])
}

/// What `str::parse::<u32>` gives: an optional `+`, then one or more ASCII
/// digits whose value fits in a `u32`.
pub open spec fn u32_text_value(s: Seq<char>) -> Option<u32> {
    let digits = if s.len() > 0 && s[0] == '+' {
        s.skip(1)
    } else {
        s
    };
    if digits.len() > 0 && all_ascii_digits(digits) && digits_value(digits) <= u32::MAX {
        Some(digits_value(digits) as u32)
    } else {
        None
    }
}

/// Read a `u32` as `str::parse` does.
pub fn parse_u32_text(s: &str) -> (r: Option<u32>)
    ensures
        r == u32_text_value(s@),
{
    let chars = chars_of(s);
    let start: usize = if chars.len() > 0 && chars[0] == '+' {
        1
    } else {
        0
    };
    let ghost digits = if s@.len() > 0 && s@[0] == '+' {
        s@.skip(1)
    } else {
        s@
    };
    assert(digits =~= chars@.subrange(start as int, chars@.len() as int));
    if start == chars.len() {
        return None;
    }
    let mut i: usize = start;
    while i < chars.len()
        invariant
            start <= i <= chars@.len(),
            digits == chars@.subrange(start as int, chars@.len() as int),
            chars@ == s@,
            digits == if s@.len() > 0 && s@[0] == '+' {
                s@.skip(1)
            } else {
                s@
            },
            forall|k: int| start <= k < i ==> #[trigger] is_ascii_digit(chars@[k]),
        decreases chars@.len() - i,
    {
        if !('0' <= chars[i] && chars[i] <= '9') {
            assert(digits[i - start] == chars@[i as int]);
            assert(!is_ascii_digit(digits[i - start]));
            assert(!all_ascii_digits(digits));
            return None;
        }
        i += 1;
    }
    assert(all_ascii_digits(digits)) by {
        assert forall|k: int| 0 <= k < digits.len() implies is_ascii_digit(#[trigger] digits[k]) by {
            assert(digits[k] == chars@[k + start]);
        }
    }
    match read_number(&chars, start, chars.len()) {
        Some(v) => {
            if v <= 4294967295u64 {
                Some(v as u32)
            } else {
                None
            }
        },
        None => None,
    }
}

impl ConfigKey {
    /// Read a dotted key name.
    pub fn parse(key: &str) -> (r: Result<ConfigKey, String>)
        ensures
            match config_key_spec(key@) {
                Some(k) => r == Ok::<ConfigKey, String>(k),
                None => r is Err && r->Err_0@ == "Unsupported config key: "@ + key@
                    + ". Supported keys: "@ + SUPPORTED_KEYS@,
            },
    {
        let k = trim(key);
        if str_eq(k, "render.renderer") {
            Ok(ConfigKey::RenderRenderer)
        } else if str_eq(k, "render.theme") {
            Ok(ConfigKey::RenderTheme)
        } else if str_eq(k, "render.color_profile") {
            Ok(ConfigKey::RenderColorProfile)
        } else if str_eq(k, "render.scale_profile") {
            Ok(ConfigKey::RenderScaleProfile)
        } else if str_eq(k, "render.scale_multiplier") {
            Ok(ConfigKey::RenderScaleMultiplier)
        } else if str_eq(k, "render.render_scale") {
            Ok(ConfigKey::RenderRenderScale)
        } else if str_eq(k, "render.max_width_cells") {
            Ok(ConfigKey::RenderMaxWidthCells)
        } else if str_eq(k, "authors.output_format") {
            Ok(ConfigKey::AuthorsOutputFormat)
        } else if str_eq(k, "doctor.output_format") {
            Ok(ConfigKey::DoctorOutputFormat)
        } else {
            let mut msg = concat("Unsupported config key: ", key);
            msg.append(". Supported keys: ");
            msg.append(SUPPORTED_KEYS);
            Err(msg)
        }
    }
}

/// The `[render]` table of a configuration, or an empty one.
pub open spec fn render_base(c: ConfigModel) -> RenderModel {
    match c.render {
        Some(r) => r,
        None => empty_render(),
    }
}

/// The configuration with its `[render]` table replaced.
pub open spec fn with_render(c: ConfigModel, r: RenderModel) -> ConfigModel {
    ConfigModel { render: Some(r), ..c }
}

/// A checked text value stored in the `[render]` table.
pub open spec fn set_render_text(
    c: ConfigModel,
    key: ConfigKey,
    checked: Result<Seq<char>, Seq<char>>,
) -> Result<ConfigModel, Seq<char>> {
    let b = render_base(c);
    match checked {
        Ok(v) => Ok(
            with_render(
                c,
                match key {
                    ConfigKey::RenderRenderer => RenderModel { renderer: Some(v), ..b },
                    ConfigKey::RenderTheme => RenderModel { theme: Some(v), ..b },
                    ConfigKey::RenderColorProfile => RenderModel { color_profile: Some(v), ..b },
                    _ => RenderModel { scale_profile: Some(v), ..b },
                },
            ),
        ),
        Err(m) => Err(m),
    }
}

/// What setting a key to a raw value makes of a configuration, or the
/// error; `parsed` is the raw value read as a 64-bit float (its bits), used
/// for the render scale alone.
pub open spec fn set_value_spec(key: ConfigKey, c: ConfigModel, raw: Seq<char>, parsed: Option<u64>) -> Result<
    ConfigModel,
    Seq<char>,
> {
    let b = render_base(c);
    match key {
        ConfigKey::RenderRenderer => set_render_text(c, key, renderer_check(raw)),
        ConfigKey::RenderTheme => set_render_text(c, key, theme_check(raw)),
        ConfigKey::RenderColorProfile => set_render_text(c, key, profile_check(raw)),
        ConfigKey::RenderScaleProfile => set_render_text(c, key, scale_profile_check(raw)),
        ConfigKey::RenderScaleMultiplier => match u32_text_value(trim_spec(raw)) {
            None => Err("render.scale_multiplier must be an integer greater than or equal to 1"@),
            Some(v) => if v == 0 {
                Err("render.scale_multiplier must be greater than or equal to 1"@)
            } else {
                Ok(with_render(c, RenderModel { scale_multiplier: Some(v), ..b }))
            },
        },
        ConfigKey::RenderRenderScale => match parsed {
            None => Err("render.render_scale must be a number greater than or equal to 1.0"@),
            Some(bits) => if render_scale_rejected(bits) {
                Err(RENDER_SCALE_ERROR@)
            } else {
                Ok(with_render(c, RenderModel { render_scale: Some(bits), ..b }))
            },
        },
        ConfigKey::RenderMaxWidthCells => match u32_text_value(trim_spec(raw)) {
            None => Err("render.max_width_cells must be an integer greater than or equal to 1"@),
            Some(v) => if v == 0 {
                Err("render.max_width_cells must be greater than or equal to 1"@)
            } else {
                Ok(with_render(c, RenderModel { max_width_cells: Some(v), ..b }))
            },
        },
        ConfigKey::AuthorsOutputFormat => match output_format_check(raw) {
            Ok(v) => Ok(ConfigModel { authors: Some(Some(v)), ..c }),
            Err(m) => Err(m),
        },
        ConfigKey::DoctorOutputFormat => match doctor_format_check(raw) {
            Ok(v) => Ok(ConfigModel { doctor: Some(Some(v)), ..c }),
            Err(m) => Err(m),
        },
    }
}

/// The key's value cleared, where its table exists.
pub open spec fn clear_key(key: ConfigKey, c: ConfigModel) -> ConfigModel {
    match c.render {
        Some(r) => match key {
            ConfigKey::RenderRenderer => with_render(c, RenderModel { renderer: None, ..r }),
            ConfigKey::RenderTheme => with_render(c, RenderModel { theme: None, ..r }),
            ConfigKey::RenderColorProfile => with_render(c, RenderModel { color_profile: None, ..r }),
            ConfigKey::RenderScaleProfile => with_render(c, RenderModel { scale_profile: None, ..r }),
            ConfigKey::RenderScaleMultiplier => with_render(
                c,
                RenderModel { scale_multiplier: None, ..r },
            ),
            ConfigKey::RenderRenderScale => with_render(c, RenderModel { render_scale: None, ..r }),
            ConfigKey::RenderMaxWidthCells => with_render(
                c,
                RenderModel { max_width_cells: None, ..r },
            ),
            ConfigKey::AuthorsOutputFormat => clear_single(key, c),
            ConfigKey::DoctorOutputFormat => clear_single(key, c),
        },
        None => clear_single(key, c),
    }
}

/// The value of a single-key table cleared, where the table exists.
pub open spec fn clear_single(key: ConfigKey, c: ConfigModel) -> ConfigModel {
    match key {
        ConfigKey::AuthorsOutputFormat => if c.authors is Some {
            ConfigModel { authors: Some(None), ..c }
        } else {
            c
        },
        ConfigKey::DoctorOutputFormat => if c.doctor is Some {
            ConfigModel { doctor: Some(None), ..c }
        } else {
            c
        },
        _ => c,
    }
}

/// The configuration without its empty tables.
pub open spec fn prune_empty(c: ConfigModel) -> ConfigModel {
    ConfigModel {
        render: if c.render == Some(empty_render()) {
            None
        } else {
            c.render
        },
        authors: if c.authors == Some(None::<Seq<char>>) {
            None
        } else {
            c.authors
        },
        doctor: if c.doctor == Some(None::<Seq<char>>) {
            None
        } else {
            c.doctor
        },
    }
}

/// Take the `[render]` table out of a configuration, or an empty one.
fn take_render(config: &mut HitmapConfig) -> (r: RenderConfig)
    ensures
        r@ == render_base(old(config)@),
        final(config)@ == (ConfigModel { render: None, ..old(config)@ }),
{
    let mut taken: Option<RenderConfig> = None;
    std::mem::swap(&mut taken, &mut config.render);
    match taken {
        Some(r) => r,
        None => RenderConfig::new(),
    }
}

impl ConfigKey {
    /// Set the key to a checked form of `raw_value`. `parsed_number` is
    /// `raw_value`, trimmed, read as a 64-bit float (its bits), `None` when it
    /// does not read as one; only `render.render_scale` uses it. On an error
    /// the configuration is left as it was.
    pub fn set_value(&self, config: &mut HitmapConfig, raw_value: &str, parsed_number: Option<u64>) -> (r:
        Result<(), String>)
        ensures
            match set_value_spec(*self, old(config)@, raw_value@, parsed_number) {
                Ok(m) => r is Ok && final(config)@ == m,
                Err(e) => r is Err && r->Err_0@ == e && final(config)@ == old(config)@,
            },
    {
        match self {
            ConfigKey::RenderRenderer => {
                let v = match renderer_check_exec(raw_value) {
                    Ok(v) => v,
                    Err(e) => {
                        return Err(e);
                    },
                };
                let mut render = take_render(config);
                render.renderer = Some(v);
                config.render = Some(render);
            },
            ConfigKey::RenderTheme => {
                let v = match validate_theme_name(raw_value) {
                    Ok(v) => v,
                    Err(e) => {
                        return Err(e);
                    },
                };
                let mut render = take_render(config);
                render.theme = Some(v);
                config.render = Some(render);
            },
            ConfigKey::RenderColorProfile => {
                let v = match validate_color_profile_name(raw_value) {
                    Ok(v) => v,
                    Err(e) => {
                        return Err(e);
                    },
                };
                let mut render = take_render(config);
                render.color_profile = Some(v);
                config.render = Some(render);
            },
            ConfigKey::RenderScaleProfile => {
                let v = match validate_scale_profile_name(raw_value) {
                    Ok(v) => v,
                    Err(e) => {
                        return Err(e);
                    },
                };
                let mut render = take_render(config);
                render.scale_profile = Some(v);
                config.render = Some(render);
            },
            ConfigKey::RenderScaleMultiplier => {
                let v = match parse_u32_text(trim(raw_value)) {
                    Some(v) => v,
                    None => {
                        return Err(
                            string_of(
                                "render.scale_multiplier must be an integer greater than or equal to 1",
                            ),
                        );
                    },
                };
                if v == 0 {
                    return Err(
                        string_of("render.scale_multiplier must be greater than or equal to 1"),
                    );
                }
                let mut render = take_render(config);
                render.scale_multiplier = Some(v);
                config.render = Some(render);
            },
            ConfigKey::RenderRenderScale => {
                let bits = match parsed_number {
                    Some(b) => b,
                    None => {
                        return Err(
                            string_of(
                                "render.render_scale must be a number greater than or equal to 1.0",
                            ),
                        );
                    },
                };
                match validate_render_scale_bits(bits) {
                    Ok(_) => {},
                    Err(e) => {
                        return Err(e);
                    },
                }
                let mut render = take_render(config);
                render.render_scale = Some(bits);
                config.render = Some(render);
            },
            ConfigKey::RenderMaxWidthCells => {
                let v = match parse_u32_text(trim(raw_value)) {
                    Some(v) => v,
                    None => {
                        return Err(
                            string_of(
                                "render.max_width_cells must be an integer greater than or equal to 1",
                            ),
                        );
                    },
                };
                if v == 0 {
                    return Err(
                        string_of("render.max_width_cells must be greater than or equal to 1"),
                    );
                }
                let mut render = take_render(config);
                render.max_width_cells = Some(v);
                config.render = Some(render);
            },
            ConfigKey::AuthorsOutputFormat => {
                let v = match output_format_check_exec(raw_value) {
                    Ok(v) => v,
                    Err(e) => {
                        return Err(e);
                    },
                };
                config.authors = Some(AuthorsConfig { output_format: Some(v) });
            },
            ConfigKey::DoctorOutputFormat => {
                let v = match doctor_format_check_exec(raw_value) {
                    Ok(v) => v,
                    Err(e) => {
                        return Err(e);
                    },
                };
                config.doctor = Some(DoctorConfig { output_format: Some(v) });
            },
        }
        Ok(())
    }

    /// Clear the key, then drop every table left empty.
    pub fn unset(&self, config: &mut HitmapConfig)
        ensures
            final(config)@ == prune_empty(clear_key(*self, old(config)@)),
    {
        match self {
            ConfigKey::AuthorsOutputFormat => {
                if config.authors.is_some() {
                    config.authors = Some(AuthorsConfig { output_format: None });
                }
            },
            ConfigKey::DoctorOutputFormat => {
                if config.doctor.is_some() {
                    config.doctor = Some(DoctorConfig { output_format: None });
                }
            },
            _ => {
                if config.render.is_some() {
                    let mut render = take_render(config);
                    match self {
                        ConfigKey::RenderRenderer => {
                            render.renderer = None;
                        },
                        ConfigKey::RenderTheme => {
                            render.theme = None;
                        },
                        ConfigKey::RenderColorProfile => {
                            render.color_profile = None;
                        },
                        ConfigKey::RenderScaleProfile => {
                            render.scale_profile = None;
                        },
                        ConfigKey::RenderScaleMultiplier => {
                            render.scale_multiplier = None;
                        },
                        ConfigKey::RenderRenderScale => {
                            render.render_scale = None;
                        },
                        _ => {
                            render.max_width_cells = None;
                        },
                    }
                    config.render = Some(render);
                }
            },
        }
        let render_empty = match &config.render {
            Some(r) => r.is_empty(),
            None => false,
        };
        if render_empty {
            config.render = None;
        }
        let authors_empty = match &config.authors {
            Some(a) => a.is_empty(),
            None => false,
        };
        if authors_empty {
            config.authors = None;
        }
        let doctor_empty = match &config.doctor {
            Some(d) => d.is_empty(),
            None => false,
        };
        if doctor_empty {
            config.doctor = None;
        }
    }
}

// ---------------------------------------------------------------------------
// Laws of the configuration
// ---------------------------------------------------------------------------

/// Unsetting a key right after setting it leaves the configuration as
/// unsetting the key alone would: `set` then `unset` of one key is undone.
pub proof fn law_unset_undoes_set(key: ConfigKey, c: ConfigModel, raw: Seq<char>, parsed: Option<u64>)
    requires
        set_value_spec(key, c, raw, parsed) is Ok,
    ensures
        prune_empty(clear_key(key, set_value_spec(key, c, raw, parsed)->Ok_0)) == prune_empty(
            clear_key(key, c),
        ),
{
    let c2 = set_value_spec(key, c, raw, parsed)->Ok_0;
    assert(prune_empty(clear_key(key, c2)) =~= prune_empty(clear_key(key, c)));
}

/// Setting a key keeps a valid configuration valid: every value that `set`
/// stores passes the checks that loading the file runs.
pub proof fn law_set_keeps_valid(key: ConfigKey, c: ConfigModel, raw: Seq<char>, parsed: Option<u64>)
    requires
        config_error(c) is None,
        set_value_spec(key, c, raw, parsed) is Ok,
    ensures
        config_error(set_value_spec(key, c, raw, parsed)->Ok_0) is None,
{
    lemma_normalize_idempotent(raw);
    let n = ascii_lower(trim_spec(raw));
    assert(normalized_profile_name(n) == n);
}

/// A configuration that passes the checks always has effective values.
pub proof fn law_valid_config_has_effective_values(c: ConfigModel)
    requires
        config_error(c) is None,
    ensures
        effective_spec(c) is Ok,
{
}

// ---------------------------------------------------------------------------
// Effective values
// ---------------------------------------------------------------------------

/// The checked value, or the default when none is set.
pub open spec fn checked_or(
    v: Option<Seq<char>>,
    check: spec_fn(Seq<char>) -> Result<Seq<char>, Seq<char>>,
    default: Seq<char>,
) -> Result<Seq<char>, Seq<char>> {
    match v {
        Some(s) => check(s),
        None => Ok(default),
    }
}

/// The configuration with every built-in default filled in, or the first
/// error of a set value (without the key's prefix).
pub open spec fn effective_spec(c: ConfigModel) -> Result<ConfigModel, Seq<char>> {
    let r = render_base(c);
    let renderer = checked_or(r.renderer, |s: Seq<char>| renderer_check(s), "kitty"@);
    let theme = checked_or(r.theme, |s: Seq<char>| theme_check(s), "auto"@);
    let profile = checked_or(r.color_profile, |s: Seq<char>| profile_check(s), "github"@);
    let scale = checked_or(
        r.scale_profile,
        |s: Seq<char>| scale_profile_check(s),
        "fibonacci-21-plus"@,
    );
    let authors = checked_or(
        match c.authors {
            Some(a) => a,
            None => None,
        },
        |s: Seq<char>| output_format_check(s),
        "table"@,
    );
    let doctor = checked_or(
        match c.doctor {
            Some(d) => d,
            None => None,
        },
        |s: Seq<char>| doctor_format_check(s),
        "table"@,
    );
    if renderer is Err {
        Err(renderer->Err_0)
    } else if theme is Err {
        Err(theme->Err_0)
    } else if profile is Err {
        Err(profile->Err_0)
    } else if scale is Err {
        Err(scale->Err_0)
    } else if authors is Err {
        Err(authors->Err_0)
    } else if doctor is Err {
        Err(doctor->Err_0)
    } else {
        Ok(
            ConfigModel {
                render: Some(
                    RenderModel {
                        renderer: Some(renderer->Ok_0),
                        theme: Some(theme->Ok_0),
                        color_profile: Some(profile->Ok_0),
                        scale_profile: Some(scale->Ok_0),
                        scale_multiplier: Some(
                            match r.scale_multiplier {
                                Some(v) => v,
                                None => 1u32,
                            },
                        ),
                        render_scale: Some(
                            match r.render_scale {
                                Some(v) => v,
                                None => DEFAULT_RENDER_SCALE_BITS,
                            },
                        ),
                        max_width_cells: r.max_width_cells,
                    },
                ),
                authors: Some(Some(authors->Ok_0)),
                doctor: Some(Some(doctor->Ok_0)),
            },
        )
    }
}

/// Run a check on an optional value, or give the default.
fn checked_or_default(
    v: &Option<String>,
    check: Ghost<spec_fn(Seq<char>) -> Result<Seq<char>, Seq<char>>>,
    result: Option<Result<String, String>>,
    default: &str,
) -> (r: Result<String, String>)
    requires
        v is None <==> result is None,
        v matches Some(s) ==> (match (check@)(s@) {
            Ok(n) => result matches Some(Ok(t)) && t@ == n,
            Err(m) => result matches Some(Err(e)) && e@ == m,
        }),
    ensures
        match checked_or(opt_text(*v), check@, default@) {
            Ok(n) => r is Ok && r->Ok_0@ == n,
            Err(m) => r is Err && r->Err_0@ == m,
        },
{
    match result {
        Some(x) => x,
        None => Ok(string_of(default)),
    }
}

/// The configuration with every built-in default filled in.
pub fn effective_config(config: &HitmapConfig) -> (r: Result<HitmapConfig, String>)
    ensures
        match effective_spec(config@) {
            Ok(m) => r matches Ok(c) && c@ == m,
            Err(e) => r is Err && r->Err_0@ == e,
        },
{
    let empty = RenderConfig::new();
    let render = match &config.render {
        Some(r) => r,
        None => &empty,
    };
    let checked = match &render.renderer {
        Some(v) => Some(renderer_check_exec(v.as_str())),
        None => None,
    };
    let renderer = match checked_or_default(
        &render.renderer,
        Ghost(|s: Seq<char>| renderer_check(s)),
        checked,
        "kitty",
    ) {
        Ok(v) => v,
        Err(e) => {
            return Err(e);
        },
    };
    let checked = match &render.theme {
        Some(v) => Some(validate_theme_name(v.as_str())),
        None => None,
    };
    let theme = match checked_or_default(
        &render.theme,
        Ghost(|s: Seq<char>| theme_check(s)),
        checked,
        "auto",
    ) {
        Ok(v) => v,
        Err(e) => {
            return Err(e);
        },
    };
    let checked = match &render.color_profile {
        Some(v) => Some(validate_color_profile_name(v.as_str())),
        None => None,
    };
    let color_profile = match checked_or_default(
        &render.color_profile,
        Ghost(|s: Seq<char>| profile_check(s)),
        checked,
        "github",
    ) {
        Ok(v) => v,
        Err(e) => {
            return Err(e);
        },
    };
    let checked = match &render.scale_profile {
        Some(v) => Some(validate_scale_profile_name(v.as_str())),
        None => None,
    };
    let scale_profile = match checked_or_default(
        &render.scale_profile,
        Ghost(|s: Seq<char>| scale_profile_check(s)),
        checked,
        "fibonacci-21-plus",
    ) {
        Ok(v) => v,
        Err(e) => {
            return Err(e);
        },
    };
    let no_value: Option<String> = None;
    let authors_value = match &config.authors {
        Some(a) => &a.output_format,
        None => &no_value,
    };
    let checked = match authors_value {
        Some(v) => Some(output_format_check_exec(v.as_str())),
        None => None,
    };
    let authors_format = match checked_or_default(
        authors_value,
        Ghost(|s: Seq<char>| output_format_check(s)),
        checked,
        "table",
    ) {
        Ok(v) => v,
        Err(e) => {
            return Err(e);
        },
    };
    let doctor_value = match &config.doctor {
        Some(d) => &d.output_format,
        None => &no_value,
    };
    let checked = match doctor_value {
        Some(v) => Some(doctor_format_check_exec(v.as_str())),
        None => None,
    };
    let doctor_format = match checked_or_default(
        doctor_value,
        Ghost(|s: Seq<char>| doctor_format_check(s)),
        checked,
        "table",
    ) {
        Ok(v) => v,
        Err(e) => {
            return Err(e);
        },
    };
    let scale_multiplier = match render.scale_multiplier {
        Some(v) => v,
        None => 1u32,
    };
    let render_scale = match render.render_scale {
        Some(v) => v,
        None => DEFAULT_RENDER_SCALE_BITS,
    };
    Ok(
        HitmapConfig {
            render: Some(
                RenderConfig {
                    renderer: Some(renderer),
                    theme: Some(theme),
                    color_profile: Some(color_profile),
                    scale_profile: Some(scale_profile),
                    scale_multiplier: Some(scale_multiplier),
                    render_scale: Some(render_scale),
                    max_width_cells: render.max_width_cells,
                },
            ),
            authors: Some(AuthorsConfig { output_format: Some(authors_format) }),
            doctor: Some(DoctorConfig { output_format: Some(doctor_format) }),
        },
    )
}

// ---------------------------------------------------------------------------
// The file
// ---------------------------------------------------------------------------

/// The commented template written by `hitmap config init`.
pub const CONFIG_TEMPLATE: &'static str = "# hitmap configuration\n#\n# Location precedence:\n#   $XDG_CONFIG_HOME/hitmap/hitmap.toml\n#   ~/.config/hitmap/hitmap.toml\n#\n# Runtime precedence:\n#   CLI flags > config file > built-in defaults\n#\n# Uncomment only the options you want to override.\n\n[render]\n# renderer = \"kitty\"             # options: kitty, text\n# theme = \"auto\"                 # options: auto, light, dark\n# color_profile = \"github\"       # options: github, aurora, ocean, fire, catppuccin-latte, catppuccin-frappe, catppuccin-macchiato, catppuccin-mocha\n# scale_profile = \"fibonacci-21-plus\"  # examples: linear-5-plus, linear-10-plus, fibonacci-8-plus, fibonacci-21-plus\n# scale_multiplier = 1            # integer >= 1\n# render_scale = 2.0              # float >= 1.0\n# max_width_cells = 120           # integer >= 1\n\n[authors]\n# output_format = \"table\"        # options: table, json, tsv\n\n[doctor]\n# output_format = \"table\"        # options: table, json\n";

/// The commented template written by `hitmap config init`.
pub fn config_template() -> (r: String)
    ensures
        r@ == CONFIG_TEMPLATE@,
{
    string_of(CONFIG_TEMPLATE)
}

/// A path with a relative component appended, as `Path::join` does it for
/// a non-empty base: a separator is added unless the base ends with one.
pub open spec fn join_path(base: Seq<char>, part: Seq<char>) -> Seq<char> {
    if base.len() > 0 && base.last() == '/' {
        base + part
    } else {
        base + seq!['/'] + part
    }
}

fn join_path_exec(base: &str, part: &str) -> (r: String)
    ensures
        r@ == join_path(base@, part@),
{
    let n = base.unicode_len();
    let mut out = string_of(base);
    if !(n > 0 && base.get_char(n - 1) == '/') {
        crate::strings::push_char(&mut out, '/');
    }
    out.append(part);
    out
}

/// The config file under a directory of configuration files.
pub open spec fn config_file_under(root: Seq<char>) -> Seq<char> {
    join_path(join_path(root, "hitmap"@), "hitmap.toml"@)
}

/// The message when neither base directory is known.
pub const NO_CONFIG_PATH: &'static str =
    "Unable to resolve hitmap config path: neither XDG_CONFIG_HOME nor HOME is set";

/// Where the config file lives: under `$XDG_CONFIG_HOME`, else under
/// `~/.config`; empty values count as unset.
pub fn resolve_config_path_from_env(xdg_config_home: Option<&str>, home: Option<&str>) -> (r:
    Result<String, String>)
    ensures
        match xdg_config_home {
            Some(x) if x@.len() > 0 => r is Ok && r->Ok_0@ == config_file_under(x@),
            _ => match home {
                Some(h) if h@.len() > 0 => r is Ok && r->Ok_0@ == config_file_under(
                    join_path(h@, ".config"@),
                ),
                _ => r is Err && r->Err_0@ == NO_CONFIG_PATH@,
            },
        },
{
    if let Some(x) = xdg_config_home {
        if x.unicode_len() > 0 {
            let dir = join_path_exec(x, "hitmap");
            return Ok(join_path_exec(dir.as_str(), "hitmap.toml"));
        }
    }
    if let Some(h) = home {
        if h.unicode_len() > 0 {
            let base = join_path_exec(h, ".config");
            let dir = join_path_exec(base.as_str(), "hitmap");
            return Ok(join_path_exec(dir.as_str(), "hitmap.toml"));
        }
    }
    Err(string_of(NO_CONFIG_PATH))
}

} // verus!
