use reflect_tui::clipboard::{
    next_copy_step, osc52_sequence, tmux_clipboard_copy_ready, tmux_info_check, tmux_set_clipboard_check,
    CopyAttempt, CopyBackend, CopyEnvironment, CopyStep, OSC52_MAX_RAW_BYTES,
};

fn env(ssh: bool, wsl: bool, tmux: bool) -> CopyEnvironment {
    CopyEnvironment { ssh_session: ssh, wsl_session: wsl, tmux_session: tmux }
}

fn ok(backend: CopyBackend, lease: bool) -> CopyAttempt {
    CopyAttempt { backend, result: Ok(lease) }
}

fn err(backend: CopyBackend, e: &str) -> CopyAttempt {
    CopyAttempt { backend, result: Err(e.to_string()) }
}

fn tries(step: CopyStep) -> Option<CopyBackend> {
    match step {
        CopyStep::Try(b) => Some(b),
        CopyStep::Done(_) => None,
    }
}

fn error_of(step: CopyStep) -> String {
    match step {
        CopyStep::Done(Err(e)) => e,
        other => panic!("expected a failure, got {other:?}"),
    }
}

#[test]
fn ssh_session_uses_the_terminal() {
    assert_eq!(tries(next_copy_step(env(true, false, false), &vec![])), Some(CopyBackend::Osc52));
    assert_eq!(tries(next_copy_step(env(true, false, true), &vec![])), Some(CopyBackend::Tmux));
    let e = error_of(next_copy_step(env(true, false, false), &vec![err(CopyBackend::Osc52, "no tty")]));
    assert_eq!(e, "OSC 52 clipboard copy failed over SSH: no tty");
    let e = error_of(next_copy_step(
        env(true, false, true),
        &vec![err(CopyBackend::Tmux, "off"), err(CopyBackend::Osc52, "no tty")],
    ));
    assert_eq!(e, "terminal clipboard copy failed over SSH: tmux clipboard: off; OSC 52 fallback: no tty");
}

#[test]
fn local_session_tries_native_then_falls_back() {
    assert_eq!(tries(next_copy_step(env(false, false, false), &vec![])), Some(CopyBackend::Native));
    assert!(matches!(next_copy_step(env(false, false, false), &vec![ok(CopyBackend::Native, true)]), CopyStep::Done(Ok(true))));
    let after_native = vec![err(CopyBackend::Native, "no display")];
    assert_eq!(tries(next_copy_step(env(false, false, false), &after_native)), Some(CopyBackend::Osc52));
    assert_eq!(tries(next_copy_step(env(false, true, false), &after_native)), Some(CopyBackend::Wsl));
    let e = error_of(next_copy_step(
        env(false, false, false),
        &vec![err(CopyBackend::Native, "no display"), err(CopyBackend::Osc52, "no tty")],
    ));
    assert_eq!(e, "native clipboard: no display; OSC 52 fallback: no tty");
    let e = error_of(next_copy_step(
        env(false, true, true),
        &vec![
            err(CopyBackend::Native, "n"),
            err(CopyBackend::Wsl, "w"),
            err(CopyBackend::Tmux, "t"),
            err(CopyBackend::Osc52, "o"),
        ],
    ));
    assert_eq!(e, "native clipboard: n; WSL fallback: w; terminal fallback: tmux clipboard: t; OSC 52 fallback: o");
    assert!(matches!(
        next_copy_step(env(false, true, false), &vec![err(CopyBackend::Native, "n"), ok(CopyBackend::Wsl, false)]),
        CopyStep::Done(Ok(false))
    ));
}

#[test]
fn tmux_checks() {
    assert!(tmux_set_clipboard_check("on\n").is_ok());
    assert_eq!(tmux_set_clipboard_check(" off \n").unwrap_err(), "tmux clipboard forwarding is disabled");
    assert!(tmux_info_check("Ms: [present]\nfoo\n").is_ok());
    assert_eq!(
        tmux_info_check("a\n  Ms: [missing]\n").unwrap_err(),
        "tmux clipboard forwarding is unavailable: missing Ms capability"
    );
    assert!(tmux_clipboard_copy_ready(|| Ok("external".to_string()), || Ok("fine".to_string())).is_ok());
    assert_eq!(
        tmux_clipboard_copy_ready(|| Err("no tmux".to_string()), || Ok(String::new())).unwrap_err(),
        "no tmux"
    );
    assert_eq!(
        tmux_clipboard_copy_ready(|| Ok("off".to_string()), || panic!("info must not be read")).unwrap_err(),
        "tmux clipboard forwarding is disabled"
    );
}

#[test]
fn osc52_sequences() {
    assert_eq!(osc52_sequence("hi", false).unwrap(), "\u{1b}]52;c;aGk=\u{7}");
    assert_eq!(osc52_sequence("hi", true).unwrap(), "\u{1b}Ptmux;\u{1b}\u{1b}]52;c;aGk=\u{7}\u{1b}\\");
    let big = "x".repeat(OSC52_MAX_RAW_BYTES + 1);
    assert_eq!(
        osc52_sequence(&big, false).unwrap_err(),
        format!("OSC 52 payload too large ({} bytes; max 100000)", OSC52_MAX_RAW_BYTES + 1)
    );
    assert!(osc52_sequence(&"x".repeat(OSC52_MAX_RAW_BYTES), false).is_ok());
}
