use hitmap::doctor::{
    controlling_tty_check, kitty_graphics_check, terminal_program_check, theme_guess_check,
    tty_check, DoctorCheck, KittyProbeOutcome,
};
use hitmap::terminal::{KittyProbeResult, ProbeState};

fn texts(c: &DoctorCheck) -> (&str, &str, &str) {
    (c.name.as_str(), c.status.as_str(), c.detail.as_str())
}

fn probed(graphics: bool, da: bool) -> KittyProbeOutcome {
    KittyProbeOutcome::Probed(KittyProbeResult {
        graphics_seen: graphics,
        device_attributes_seen: da,
        response_bytes: Vec::new(),
        trace: Vec::new(),
    })
}

#[test]
fn simple_checks() {
    assert_eq!(texts(&tty_check("stdin tty", true)), ("stdin tty", "ok", "interactive"));
    assert_eq!(texts(&tty_check("stdout tty", false)), ("stdout tty", "fail", "piped or redirected"));
    assert_eq!(texts(&terminal_program_check("kitty")), ("terminal program", "ok", "kitty"));
    assert_eq!(texts(&theme_guess_check(false)), ("theme guess", "ok", "light"));
    assert_eq!(
        texts(&controlling_tty_check(false)),
        ("controlling tty", "fail", "/dev/tty not available")
    );
}

#[test]
fn kitty_check_verdicts() {
    let c = kitty_graphics_check(true, probed(true, true), false);
    assert_eq!(texts(&c), ("kitty graphics", "ok", "probe succeeded"));
    let c = kitty_graphics_check(true, probed(false, false), false);
    assert_eq!(texts(&c), ("kitty graphics", "warn", "probe was inconclusive: terminal returned no reply bytes"));
    let c = kitty_graphics_check(true, probed(false, true), false);
    assert_eq!(
        texts(&c),
        ("kitty graphics", "fail", "terminal answered device attributes but not the Kitty graphics query")
    );
    let c = kitty_graphics_check(false, probed(false, false), false);
    assert_eq!(c.status, "fail");
    let c = kitty_graphics_check(false, probed(true, false), false);
    assert_eq!(c.status, "ok");
    let c = kitty_graphics_check(true, KittyProbeOutcome::ProbeFailed("boom".to_string()), false);
    assert_eq!(texts(&c), ("kitty graphics", "warn", "probe failed before a terminal reply: boom"));
    let c = kitty_graphics_check(true, KittyProbeOutcome::TtyUnavailable("nope".to_string()), true);
    assert_eq!(texts(&c), ("kitty graphics", "warn", "unable to open /dev/tty: nope"));
    let c = kitty_graphics_check(true, probed(true, false), true);
    assert_eq!(
        c.detail,
        "graphics_reply=true da_reply=false no response bytes received\ntrace:\nno probe trace recorded"
    );
}

#[test]
fn probe_state_reads_replies() {
    let mut state = ProbeState::new(vec!["probe start".to_string()]);
    assert!(!state.absorb_chunk(b"\x1b_Gi=31;OK\x1b\\"));
    assert!(state.graphics_seen);
    assert!(state.absorb_chunk(b"\x1b[?62;22c"));
    assert_eq!(state.trace.len(), 6);
    assert!(state.trace[1].starts_with("read 12 bytes: "));
    assert_eq!(state.trace[2], "scan buffer: total_bytes=12 graphics_reply=true da_reply=false");
    assert_eq!(state.trace[5], "probe complete: saw graphics and device-attributes replies");
    let result = state.finish();
    assert!(result.graphics_seen && result.device_attributes_seen);
    assert_eq!(result.response_bytes.len(), 21);
    assert_eq!(
        result.trace.last().unwrap(),
        "probe finish: graphics_reply=true da_reply=true response_bytes=21"
    );
}
