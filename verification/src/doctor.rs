//! Doctor command: option values and the lines of the report that do not
//! need the terminal to compute.

use vstd::prelude::*;

use crate::config::HitmapConfig;
use crate::strings::{ascii_lower, bool_text, bool_text_exec, concat, lower_trimmed, str_eq, string_of, trim_spec, views};
use crate::terminal::{
    format_probe_response_preview, format_probe_trace, preview_spec, trace_spec, KittyProbeResult,
};

verus! {

/// Output format of the doctor command.
#[derive(Clone, Copy, Debug, PartialEq, Eq, Structural)]
pub enum DoctorFormat {
    Table,
    Json,
}

impl DoctorFormat {
    /// The option spelling of the format.
    pub fn as_str(&self) -> (r: &'static str)
        ensures
            r@ == match self {
                DoctorFormat::Table => "table"@,
                DoctorFormat::Json => "json"@,
            },
    {
        match self {
            DoctorFormat::Table => "table",
            DoctorFormat::Json => "json",
        }
    }
}

pub const DEFAULT_DOCTOR_FORMAT: DoctorFormat = DoctorFormat::Table;

/// Arguments of the doctor command.
#[derive(Debug, Clone)]
pub struct DoctorArgs {
    pub output_format: Option<DoctorFormat>,
    pub debug_probe: bool,
}

pub const DOCTOR_FORMAT_ERROR: &'static str = "Doctor output format must be one of: table, json";

/// The format an option value names, compared trimmed and ignoring ASCII case.
pub open spec fn doctor_format_spec(value: Seq<char>) -> Option<DoctorFormat> {
    let v = ascii_lower(trim_spec(value));
    if v == "table"@ {
        Some(DoctorFormat::Table)
    } else if v == "json"@ {
        Some(DoctorFormat::Json)
    } else {
        None
    }
}

pub fn parse_doctor_format_name(value: &str) -> (r: Result<DoctorFormat, String>)
    ensures
        match doctor_format_spec(value@) {
            Some(f) => r == Ok::<DoctorFormat, String>(f),
            None => r is Err && r->Err_0@ == DOCTOR_FORMAT_ERROR@,
        },
{
    let v = lower_trimmed(value);
    if str_eq(v.as_str(), "table") {
        Ok(DoctorFormat::Table)
    } else if str_eq(v.as_str(), "json") {
        Ok(DoctorFormat::Json)
    } else {
        Err(string_of(DOCTOR_FORMAT_ERROR))
    }
}

/// The output format: the flag, else the config file's, else the default.
pub fn resolve_doctor_format(flag: Option<DoctorFormat>, config: &HitmapConfig) -> (r: Result<
    DoctorFormat,
    String,
>)
    ensures
        match flag {
            Some(f) => r == Ok::<DoctorFormat, String>(f),
            None => match config@.doctor {
                Some(Some(v)) => match doctor_format_spec(v) {
                    Some(f) => r == Ok::<DoctorFormat, String>(f),
                    None => r is Err && r->Err_0@ == DOCTOR_FORMAT_ERROR@,
                },
                _ => r == Ok::<DoctorFormat, String>(DEFAULT_DOCTOR_FORMAT),
            },
        },
{
    if let Some(format) = flag {
        return Ok(format);
    }
    match &config.doctor {
        Some(d) => match &d.output_format {
            Some(v) => parse_doctor_format_name(v.as_str()),
            None => Ok(DEFAULT_DOCTOR_FORMAT),
        },
        None => Ok(DEFAULT_DOCTOR_FORMAT),
    }
}

/// One line of the doctor report.
pub struct DoctorCheck {
    pub name: String,
    pub status: String,
    pub detail: String,
}

/// A check with the given texts.
pub open spec fn check_is(c: DoctorCheck, name: Seq<char>, status: Seq<char>, detail: Seq<char>) -> bool {
    c.name@ == name && c.status@ == status && c.detail@ == detail
}

fn make_check(name: &str, status: &str, detail: String) -> (r: DoctorCheck)
    ensures
        check_is(r, name@, status@, detail@),
{
    DoctorCheck { name: string_of(name), status: string_of(status), detail }
}

/// Whether a standard stream is a terminal: ok and interactive, or a
/// failure when piped or redirected.
pub fn tty_check(name: &str, is_tty: bool) -> (r: DoctorCheck)
    ensures
        check_is(
            r,
            name@,
            if is_tty {
                "ok"@
            } else {
                "fail"@
            },
            if is_tty {
                "interactive"@
            } else {
                "piped or redirected"@
            },
        ),
{
    if is_tty {
        make_check(name, "ok", string_of("interactive"))
    } else {
        make_check(name, "fail", string_of("piped or redirected"))
    }
}

/// The terminal program the environment names.
pub fn terminal_program_check(program: &str) -> (r: DoctorCheck)
    ensures
        check_is(r, "terminal program"@, "ok"@, program@),
{
    make_check("terminal program", "ok", string_of(program))
}

/// The guessed background theme.
pub fn theme_guess_check(dark: bool) -> (r: DoctorCheck)
    ensures
        check_is(
            r,
            "theme guess"@,
            "ok"@,
            if dark {
                "dark"@
            } else {
                "light"@
            },
        ),
{
    make_check(
        "theme guess",
        "ok",
        string_of(
            if dark {
                "dark"
            } else {
                "light"
            },
        ),
    )
}

/// Whether the controlling terminal could be opened.
pub fn controlling_tty_check(available: bool) -> (r: DoctorCheck)
    ensures
        check_is(
            r,
            "controlling tty"@,
            if available {
                "ok"@
            } else {
                "fail"@
            },
            if available {
                "/dev/tty available"@
            } else {
                "/dev/tty not available"@
            },
        ),
{
    if available {
        make_check("controlling tty", "ok", string_of("/dev/tty available"))
    } else {
        make_check("controlling tty", "fail", string_of("/dev/tty not available"))
    }
}

/// How the Kitty graphics probe went: the terminal could not be opened,
/// the probe failed (with the error's text), or it ran.
pub enum KittyProbeOutcome {
    TtyUnavailable(String),
    ProbeFailed(String),
    Probed(KittyProbeResult),
}

/// The probe's own status and detail, before the stdout check: a reply to
/// the graphics query is ok, no reply at all a warning, a reply to the
/// device attributes alone a failure.
pub open spec fn probe_verdict(outcome: KittyProbeOutcome, debug: bool) -> (Seq<char>, Option<Seq<char>>, bool) {
    match outcome {
        KittyProbeOutcome::Probed(res) => {
            let g = res.graphics_seen;
            let da = res.device_attributes_seen;
            let status = if !g && !da {
                "warn"@
            } else if g {
                "ok"@
            } else {
                "fail"@
            };
            let detail = if debug {
                Some(
                    "graphics_reply="@ + bool_text(g) + " da_reply="@ + bool_text(da) + " "@
                        + preview_spec(res.response_bytes@) + "\ntrace:\n"@ + trace_spec(
                        views(res.trace@),
                    ),
                )
            } else if !g && !da {
                Some("probe was inconclusive: terminal returned no reply bytes"@)
            } else if !g && da {
                Some("terminal answered device attributes but not the Kitty graphics query"@)
            } else {
                None
            };
            (status, detail, g)
        },
        KittyProbeOutcome::ProbeFailed(err) => (
            "warn"@,
            Some(
                if debug {
                    "probe error: "@ + err@
                } else {
                    "probe failed before a terminal reply: "@ + err@
                },
            ),
            false,
        ),
        KittyProbeOutcome::TtyUnavailable(err) => (
            "warn"@,
            Some(
                if debug {
                    "unable to open /dev/tty: "@ + err@
                } else {
                    "unable to open /dev/tty for probing: "@ + err@
                },
            ),
            false,
        ),
    }
}

/// The Kitty graphics line of the report: with stdout on a terminal the
/// probe's status stands, otherwise support alone decides ok or fail.
pub open spec fn kitty_check_spec(stdout_is_tty: bool, outcome: KittyProbeOutcome, debug: bool) -> (Seq<char>, Seq<char>) {
    let (status, detail, support) = probe_verdict(outcome, debug);
    let final_status = if stdout_is_tty {
        status
    } else if support {
        "ok"@
    } else {
        "fail"@
    };
    let final_detail = match detail {
        Some(d) => d,
        None => if support {
            "probe succeeded"@
        } else {
            "not supported"@
        },
    };
    (final_status, final_detail)
}

/// The Kitty graphics line of the doctor report.
pub fn kitty_graphics_check(stdout_is_tty: bool, outcome: KittyProbeOutcome, debug_probe: bool) -> (r:
    DoctorCheck)
    ensures
        check_is(
            r,
            "kitty graphics"@,
            kitty_check_spec(stdout_is_tty, outcome, debug_probe).0,
            kitty_check_spec(stdout_is_tty, outcome, debug_probe).1,
        ),
{
    let ghost verdict = probe_verdict(outcome, debug_probe);
    let (status, detail, support): (&str, Option<String>, bool) = match outcome {
        KittyProbeOutcome::Probed(res) => {
            let g = res.graphics_seen;
            let da = res.device_attributes_seen;
            let status = if !g && !da {
                "warn"
            } else if g {
                "ok"
            } else {
                "fail"
            };
            let detail = if debug_probe {
                let mut text = string_of("graphics_reply=");
                text.append(bool_text_exec(g));
                text.append(" da_reply=");
                text.append(bool_text_exec(da));
                text.append(" ");
                let preview = format_probe_response_preview(res.response_bytes.as_slice());
                text.append(preview.as_str());
                text.append("\ntrace:\n");
                let trace = format_probe_trace(res.trace.as_slice());
                text.append(trace.as_str());
                Some(text)
            } else if !g && !da {
                Some(string_of("probe was inconclusive: terminal returned no reply bytes"))
            } else if !g && da {
                Some(
                    string_of(
                        "terminal answered device attributes but not the Kitty graphics query",
                    ),
                )
            } else {
                None
            };
            (status, detail, g)
        },
        KittyProbeOutcome::ProbeFailed(err) => {
            let text = if debug_probe {
                concat("probe error: ", err.as_str())
            } else {
                concat("probe failed before a terminal reply: ", err.as_str())
            };
            ("warn", Some(text), false)
        },
        KittyProbeOutcome::TtyUnavailable(err) => {
            let text = if debug_probe {
                concat("unable to open /dev/tty: ", err.as_str())
            } else {
                concat("unable to open /dev/tty for probing: ", err.as_str())
            };
            ("warn", Some(text), false)
        },
    };
    assert(status@ == verdict.0 && support == verdict.2);
    assert(match detail {
        Some(d) => verdict.1 == Some(d@),
        None => verdict.1 is None,
    });
    let final_status = if stdout_is_tty {
        status
    } else if support {
        "ok"
    } else {
        "fail"
    };
    let final_detail = match detail {
        Some(d) => d,
        None => string_of(
            if support {
                "probe succeeded"
            } else {
                "not supported"
            },
        ),
    };
    make_check("kitty graphics", final_status, final_detail)
}

} // verus!
