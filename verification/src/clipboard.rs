//! Copying text to the user's clipboard: which backend to try next, the
//! error reported when all of them fail, the checks on tmux's clipboard
//! support, and the OSC 52 escape sequence.
//!
//! Over SSH the terminal's clipboard is used (tmux first where the session
//! runs in tmux, else OSC 52); locally the native clipboard first, then on
//! WSL the Windows clipboard, then the terminal.

use vstd::prelude::*;
use base64::engine::general_purpose::STANDARD;
use base64::Engine;
use vstd::string::StringSliceAdditionalSpecFns;
use crate::debug_config::join;
use crate::status::{trim_text, trimmed};
use crate::text::{contains_str, contains_text, decimal_chars, lines_of, push_char, push_decimal_chars, push_str_chars, text_lines};

verus! {

/// The largest payload, in bytes, put into an OSC 52 sequence.
pub const OSC52_MAX_RAW_BYTES: usize = 100000;

/// Where the session runs.
#[derive(Clone, Copy, Debug)]
pub struct CopyEnvironment {
    pub ssh_session: bool,
    pub wsl_session: bool,
    pub tmux_session: bool,
}

/// A way to put text on a clipboard.
#[derive(Clone, Copy, Debug, PartialEq, Eq, Structural)]
pub enum CopyBackend {
    /// The platform's clipboard; it may hand back a handle to keep alive.
    Native,
    /// The Windows clipboard, from WSL.
    Wsl,
    /// tmux's clipboard integration.
    Tmux,
    /// The OSC 52 escape sequence, through the terminal.
    Osc52,
}

/// A backend that was tried, and what it reported: success (with whether
/// it handed back a handle to keep), or an error message.
#[derive(Debug)]
pub struct CopyAttempt {
    pub backend: CopyBackend,
    pub result: Result<bool, String>,
}

/// What to do next.
#[derive(Debug)]
pub enum CopyStep {
    /// Try this backend and report back.
    Try(CopyBackend),
    /// The copy succeeded (with whether a handle is to be kept) or failed
    /// with this message.
    Done(Result<bool, String>),
}

/// An attempt as plain values.
pub open spec fn attempt_view(a: CopyAttempt) -> (CopyBackend, Result<bool, Seq<char>>) {
    (
        a.backend,
        match a.result {
            Ok(k) => Ok(k),
            Err(e) => Err(e@),
        },
    )
}

/// A step as plain values.
pub enum StepView {
    Try(CopyBackend),
    Done(Result<bool, Seq<char>>),
}

/// The view of a step.
pub open spec fn step_view(s: CopyStep) -> StepView {
    match s {
        CopyStep::Try(b) => StepView::Try(b),
        CopyStep::Done(Ok(k)) => StepView::Done(Ok(k)),
        CopyStep::Done(Err(e)) => StepView::Done(Err(e@)),
    }
}

/// The error of a terminal copy where both tmux and OSC 52 failed.
pub open spec fn tmux_then_osc_error(tmux_err: Seq<char>, osc_err: Seq<char>) -> Seq<char> {
    "tmux clipboard: "@ + tmux_err + "; OSC 52 fallback: "@ + osc_err
}

/// The next step of a copy through the terminal, after the attempts `t`
/// made so far in that phase; an error is that of the terminal phase.
pub open spec fn terminal_step(tmux: bool, t: Seq<(CopyBackend, Result<bool, Seq<char>>)>) -> StepView {
    if tmux {
        if t.len() == 0 {
            StepView::Try(CopyBackend::Tmux)
        } else if t[0].1 is Ok {
            StepView::Done(Ok(false))
        } else if t.len() == 1 {
            StepView::Try(CopyBackend::Osc52)
        } else if t[1].1 is Ok {
            StepView::Done(Ok(false))
        } else {
            StepView::Done(Err(tmux_then_osc_error(t[0].1->Err_0, t[1].1->Err_0)))
        }
    } else {
        if t.len() == 0 {
            StepView::Try(CopyBackend::Osc52)
        } else if t[0].1 is Ok {
            StepView::Done(Ok(false))
        } else {
            StepView::Done(Err(t[0].1->Err_0))
        }
    }
}

/// A terminal step, with a failure's message put in context.
pub open spec fn wrap_error(s: StepView, before: Seq<char>, after: Seq<char>) -> StepView {
    match s {
        StepView::Done(Err(e)) => StepView::Done(Err(before + e + after)),
        _ => s,
    }
}

/// The name of the terminal phase in error messages.
pub open spec fn terminal_name(tmux: bool) -> Seq<char> {
    if tmux {
        "terminal"@
    } else {
        "OSC 52"@
    }
}

/// The next step of a copy after the attempts `a` made so far.
pub open spec fn copy_step(env: CopyEnvironment, a: Seq<(CopyBackend, Result<bool, Seq<char>>)>) -> StepView {
    if env.ssh_session {
        wrap_error(
            terminal_step(env.tmux_session, a),
            (if env.tmux_session {
                "terminal"@
            } else {
                "OSC 52"@
            }) + " clipboard copy failed over SSH: "@,
            Seq::empty(),
        )
    } else if a.len() == 0 {
        StepView::Try(CopyBackend::Native)
    } else if a[0].1 is Ok {
        StepView::Done(Ok(a[0].1->Ok_0))
    } else if env.wsl_session {
        if a.len() == 1 {
            StepView::Try(CopyBackend::Wsl)
        } else if a[1].1 is Ok {
            StepView::Done(Ok(false))
        } else {
            wrap_error(
                terminal_step(env.tmux_session, a.skip(2)),
                "native clipboard: "@ + a[0].1->Err_0 + "; WSL fallback: "@ + a[1].1->Err_0 + "; "@
                    + terminal_name(env.tmux_session) + " fallback: "@,
                Seq::empty(),
            )
        }
    } else {
        wrap_error(
            terminal_step(env.tmux_session, a.skip(1)),
            "native clipboard: "@ + a[0].1->Err_0 + "; "@ + terminal_name(env.tmux_session) + " fallback: "@,
            Seq::empty(),
        )
    }
}

/// The attempts were made as the steps asked, one after the other.
pub open spec fn follows_steps(env: CopyEnvironment, a: Seq<(CopyBackend, Result<bool, Seq<char>>)>) -> bool {
    forall|k: int| 0 <= k < a.len() ==> copy_step(env, #[trigger] a.take(k)) == StepView::Try(a[k].0)
}

/// Outside SSH and WSL, a tmux session whose native copy failed tries tmux
/// next.
pub proof fn lemma_tmux_after_native(env: CopyEnvironment, a: Seq<(CopyBackend, Result<bool, Seq<char>>)>)
    requires
        env.tmux_session,
        !env.ssh_session,
        !env.wsl_session,
        a.len() == 1,
        a[0].1 is Err,
    ensures
        copy_step(env, a) == StepView::Try(CopyBackend::Tmux),
{
    assert(a.skip(1).len() == 0);
}

/// A backend is asked for only where the session allows it: tmux only in
/// tmux, the WSL clipboard only in WSL outside SSH, the native clipboard
/// only outside SSH and only as the first attempt.
pub proof fn lemma_backends_fit_session(env: CopyEnvironment, a: Seq<(CopyBackend, Result<bool, Seq<char>>)>)
    ensures
        copy_step(env, a) == StepView::Try(CopyBackend::Tmux) ==> env.tmux_session,
        copy_step(env, a) == StepView::Try(CopyBackend::Wsl) ==> env.wsl_session && !env.ssh_session,
        copy_step(env, a) == StepView::Try(CopyBackend::Native) ==> !env.ssh_session && a.len() == 0,
{
}

/// In a tmux session, OSC 52 is asked for only right after a tmux attempt
/// that failed, when the attempts were made as asked.
pub proof fn lemma_osc52_only_after_tmux(env: CopyEnvironment, a: Seq<(CopyBackend, Result<bool, Seq<char>>)>)
    requires
        env.tmux_session,
        follows_steps(env, a),
        copy_step(env, a) == StepView::Try(CopyBackend::Osc52),
    ensures
        a.len() > 0,
        a.last().0 == CopyBackend::Tmux,
        a.last().1 is Err,
{
    let n = a.len() as int;
    let start: int = if env.ssh_session {
        0
    } else if env.wsl_session {
        2
    } else {
        1
    };
    assert(n > 0);
    let p = a.take(n - 1);
    assert(copy_step(env, p) == StepView::Try(a[n - 1].0));
    assert(a.skip(start).len() == 1);
    assert(p.skip(start).len() == 0);
    if start >= 1 {
        assert(p[0] == a[0]);
    }
    if start == 2 {
        assert(p[1] == a[1]);
    }
    assert(a.skip(start)[0] == a[n - 1]);
}

/// A copy ends as soon as a backend it asked for succeeds.
pub proof fn lemma_success_ends_copy(env: CopyEnvironment, a: Seq<(CopyBackend, Result<bool, Seq<char>>)>)
    requires
        follows_steps(env, a),
        a.len() > 0,
        a.last().1 is Ok,
    ensures
        copy_step(env, a) matches StepView::Done(Ok(_)),
{
    let n = a.len() as int;
    let prev = a.take(n - 1);
    assert(copy_step(env, a.take(n - 1)) == StepView::Try(a[n - 1].0));
    if n >= 2 {
        assert(copy_step(env, a.take(n - 2)) == StepView::Try(a[n - 2].0));
        assert(a.take(n - 1).take(n - 2) =~= a.take(n - 2));
    }
    if n >= 3 {
        assert(copy_step(env, a.take(n - 3)) == StepView::Try(a[n - 3].0));
    }
    if n >= 4 {
        assert(copy_step(env, a.take(n - 4)) == StepView::Try(a[n - 4].0));
    }
    if n >= 2 {
        assert(prev.skip(1) =~= a.skip(1).take(n - 2));
        assert(a.skip(1)[n - 2] == a[n - 1]);
    }
    if n >= 3 {
        assert(prev.skip(2) =~= a.skip(2).take(n - 3));
        assert(a.skip(2)[n - 3] == a[n - 1]);
        assert(a.skip(1)[0] == a[1]);
        assert(a.skip(1)[1] == a[2]);
    }
    if n >= 4 {
        assert(a.skip(2)[0] == a[2]);
        assert(a.skip(2)[1] == a[3]);
    }
}

/// A copy asks for at most four attempts before it ends.
pub proof fn lemma_copy_tries_at_most_four(env: CopyEnvironment, a: Seq<(CopyBackend, Result<bool, Seq<char>>)>)
    requires
        follows_steps(env, a),
    ensures
        a.len() <= 4,
{
    if a.len() > 4 {
        let p = a.take(4);
        assert(copy_step(env, a.take(4)) == StepView::Try(a[4].0));
        assert(p.skip(1).len() == 3);
        assert(p.skip(2).len() == 2);
    }
}

/// The attempts as plain values.
pub open spec fn attempts_view(a: Seq<CopyAttempt>) -> Seq<(CopyBackend, Result<bool, Seq<char>>)> {
    a.map_values(|x: CopyAttempt| attempt_view(x))
}

/// Copies an error message.
fn copy_text(s: &String) -> (r: String)
    ensures
        r@ == s@,
{
    String::from_str(s.as_str())
}

/// The next step of a copy through the terminal, after the attempts of
/// that phase, from `start` on.
fn terminal_next(tmux: bool, a: &Vec<CopyAttempt>, start: usize) -> (r: CopyStep)
    requires
        start <= a@.len(),
    ensures
        step_view(r) == terminal_step(tmux, attempts_view(a@).skip(start as int)),
{
    let ghost t = attempts_view(a@).skip(start as int);
    let n = a.len() - start;
    if tmux {
        if n == 0 {
            return CopyStep::Try(CopyBackend::Tmux);
        }
        assert(t[0] == attempt_view(a@[start as int]));
        match &a[start].result {
            Ok(_) => CopyStep::Done(Ok(false)),
            Err(tmux_err) => {
                if n == 1 {
                    return CopyStep::Try(CopyBackend::Osc52);
                }
                assert(t[1] == attempt_view(a@[start + 1]));
                match &a[start + 1].result {
                    Ok(_) => CopyStep::Done(Ok(false)),
                    Err(osc_err) => {
                        let mut s = String::from_str("tmux clipboard: ");
                        push_str_chars(&mut s, tmux_err.as_str());
                        push_str_chars(&mut s, "; OSC 52 fallback: ");
                        push_str_chars(&mut s, osc_err.as_str());
                        CopyStep::Done(Err(s))
                    },
                }
            },
        }
    } else {
        if n == 0 {
            return CopyStep::Try(CopyBackend::Osc52);
        }
        assert(t[0] == attempt_view(a@[start as int]));
        match &a[start].result {
            Ok(_) => CopyStep::Done(Ok(false)),
            Err(e) => CopyStep::Done(Err(copy_text(e))),
        }
    }
}

/// Puts a failure's message in context.
fn wrap(step: CopyStep, before: String) -> (r: CopyStep)
    ensures
        step_view(r) == wrap_error(step_view(step), before@, Seq::empty()),
{
    match step {
        CopyStep::Done(Err(e)) => {
            let mut s = before;
            push_str_chars(&mut s, e.as_str());
            proof {
                assert(s@ =~= before@ + e@ + Seq::<char>::empty());
            }
            CopyStep::Done(Err(s))
        },
        other => other,
    }
}

/// The next step of copying text to the clipboard, after the attempts made
/// so far (each reported back by the caller in the order they were asked).
pub fn next_copy_step(env: CopyEnvironment, attempts: &Vec<CopyAttempt>) -> (r: CopyStep)
    ensures
        step_view(r) == copy_step(env, attempts_view(attempts@)),
{
    let ghost a = attempts_view(attempts@);
    proof {
        assert(a.skip(0) =~= a);
    }
    if env.ssh_session {
        let mut before = String::new();
        if env.tmux_session {
            push_str_chars(&mut before, "terminal");
        } else {
            push_str_chars(&mut before, "OSC 52");
        }
        push_str_chars(&mut before, " clipboard copy failed over SSH: ");
        return wrap(terminal_next(env.tmux_session, attempts, 0), before);
    }
    if attempts.len() == 0 {
        return CopyStep::Try(CopyBackend::Native);
    }
    assert(a[0] == attempt_view(attempts@[0]));
    let native_err = match &attempts[0].result {
        Ok(k) => {
            return CopyStep::Done(Ok(*k));
        },
        Err(e) => e,
    };
    let mut before = String::from_str("native clipboard: ");
    push_str_chars(&mut before, native_err.as_str());
    if env.wsl_session {
        if attempts.len() == 1 {
            return CopyStep::Try(CopyBackend::Wsl);
        }
        assert(a[1] == attempt_view(attempts@[1]));
        let wsl_err = match &attempts[1].result {
            Ok(_) => {
                return CopyStep::Done(Ok(false));
            },
            Err(e) => e,
        };
        push_str_chars(&mut before, "; WSL fallback: ");
        push_str_chars(&mut before, wsl_err.as_str());
        push_str_chars(&mut before, "; ");
        if env.tmux_session {
            push_str_chars(&mut before, "terminal");
        } else {
            push_str_chars(&mut before, "OSC 52");
        }
        push_str_chars(&mut before, " fallback: ");
        wrap(terminal_next(env.tmux_session, attempts, 2), before)
    } else {
        push_str_chars(&mut before, "; ");
        if env.tmux_session {
            push_str_chars(&mut before, "terminal");
        } else {
            push_str_chars(&mut before, "OSC 52");
        }
        push_str_chars(&mut before, " fallback: ");
        wrap(terminal_next(env.tmux_session, attempts, 1), before)
    }
}

/// tmux's `set-clipboard` option turns clipboard forwarding off.
pub open spec fn forwarding_off(value: Seq<char>) -> bool {
    trimmed(value) == "off"@
}

/// Checks tmux's `set-clipboard` option: forwarding must not be `off`.
pub fn tmux_set_clipboard_check(value: &str) -> (r: Result<(), String>)
    ensures
        r is Ok <==> !forwarding_off(value@),
        r matches Err(e) ==> e@ == "tmux clipboard forwarding is disabled"@,
{
    let t = trim_text(value);
    if crate::text::str_eq(t.as_str(), "off") {
        Err(String::from_str("tmux clipboard forwarding is disabled"))
    } else {
        Ok(())
    }
}

/// A line of `tmux info` reports that the terminal lacks the clipboard
/// capability.
pub open spec fn lacks_ms(info: Seq<char>) -> bool {
    exists|i: int| 0 <= i < text_lines(info).len() && contains_text(#[trigger] text_lines(info)[i], "Ms: [missing]"@)
}

/// Checks `tmux info`: no line may report the clipboard capability missing.
pub fn tmux_info_check(info: &str) -> (r: Result<(), String>)
    ensures
        r is Ok <==> !lacks_ms(info@),
        r matches Err(e) ==> e@ == "tmux clipboard forwarding is unavailable: missing Ms capability"@,
{
    let lines = lines_of(info);
    let mut i: usize = 0;
    while i < lines.len()
        invariant
            i <= lines@.len(),
            lines@.len() == text_lines(info@).len(),
            forall|k: int| 0 <= k < lines@.len() ==> (#[trigger] lines@[k])@ == text_lines(info@)[k],
            forall|k: int| 0 <= k < i ==> !contains_text(#[trigger] text_lines(info@)[k], "Ms: [missing]"@),
        decreases lines@.len() - i,
    {
        if contains_str(lines[i].as_str(), "Ms: [missing]") {
            assert(contains_text(text_lines(info@)[i as int], "Ms: [missing]"@));
            return Err(String::from_str("tmux clipboard forwarding is unavailable: missing Ms capability"));
        }
        i += 1;
    }
    Ok(())
}

/// What the tmux readiness check reports, given the output of `tmux
/// show-options -gv set-clipboard` and, where that passes, of `tmux info`.
pub open spec fn readiness(set_clipboard: Result<Seq<char>, Seq<char>>, info: Result<Seq<char>, Seq<char>>) -> Result<(), Seq<char>> {
    match set_clipboard {
        Err(e) => Err(e),
        Ok(v) => if forwarding_off(v) {
            Err("tmux clipboard forwarding is disabled"@)
        } else {
            match info {
                Err(e) => Err(e),
                Ok(i) => if lacks_ms(i) {
                    Err("tmux clipboard forwarding is unavailable: missing Ms capability"@)
                } else {
                    Ok(())
                },
            }
        },
    }
}

/// A command's output as plain values.
pub open spec fn output_view(r: Result<String, String>) -> Result<Seq<char>, Seq<char>> {
    match r {
        Ok(s) => Ok(s@),
        Err(e) => Err(e@),
    }
}

/// A check's result as plain values.
pub open spec fn check_view(r: Result<(), String>) -> Result<(), Seq<char>> {
    match r {
        Ok(()) => Ok(()),
        Err(e) => Err(e@),
    }
}

/// Whether tmux forwards clipboard writes to the outer terminal: reads the
/// `set-clipboard` option, then (only where it is not `off`) `tmux info`;
/// an error of either read is handed on.
pub fn tmux_clipboard_copy_ready<F, G>(set_clipboard_fn: F, tmux_info_fn: G) -> (r: Result<(), String>) where
    F: FnOnce() -> Result<String, String>,
    G: FnOnce() -> Result<String, String>,

    requires
        set_clipboard_fn.requires(()),
        tmux_info_fn.requires(()),
    ensures
        exists|v: Result<String, String>|
            #[trigger] set_clipboard_fn.ensures((), v) && match v {
                Ok(x) if !forwarding_off(x@) => exists|i: Result<String, String>|
                    #[trigger] tmux_info_fn.ensures((), i) && check_view(r) == readiness(output_view(v), output_view(i)),
                _ => check_view(r) == readiness(output_view(v), Ok(Seq::empty())),
            },
{
    let v = set_clipboard_fn();
    let value = match &v {
        Err(e) => {
            return Err(copy_text(e));
        },
        Ok(x) => x,
    };
    if let Err(e) = tmux_set_clipboard_check(value.as_str()) {
        return Err(e);
    }
    let i = tmux_info_fn();
    let r = match &i {
        Err(e) => Err(copy_text(e)),
        Ok(info) => tmux_info_check(info.as_str()),
    };
    proof {
        assert(tmux_info_fn.ensures((), i));
    }
    r
}

/// The character of a 6-bit value in the standard base64 alphabet.
pub open spec fn base64_digit(v: u8) -> char {
    if v < 26 {
        (65 + v) as char
    } else if v < 52 {
        (97 + v - 26) as char
    } else if v < 62 {
        (48 + v - 52) as char
    } else if v == 62 {
        '+'
    } else {
        '/'
    }
}

/// The standard base64 encoding (RFC 4648, with `=` padding) of some
/// bytes: each group of three bytes becomes four characters, six bits
/// each, most significant first; a last group of one or two bytes is
/// padded with zero bits and `=`.
pub open spec fn base64_standard(b: Seq<u8>) -> Seq<char>
    decreases b.len(),
{
    if b.len() == 0 {
        Seq::empty()
    } else if b.len() == 1 {
        seq![base64_digit(b[0] >> 2), base64_digit((b[0] & 3) << 4), '=', '=']
    } else if b.len() == 2 {
        seq![
            base64_digit(b[0] >> 2),
            base64_digit(((b[0] & 3) << 4) | (b[1] >> 4)),
            base64_digit((b[1] & 15) << 2),
            '=',
        ]
    } else {
        seq![
            base64_digit(b[0] >> 2),
            base64_digit(((b[0] & 3) << 4) | (b[1] >> 4)),
            base64_digit(((b[1] & 15) << 2) | (b[2] >> 6)),
            base64_digit(b[2] & 63),
        ] + base64_standard(b.subrange(3, b.len() as int))
    }
}

/// Trusted: calls `base64::engine::general_purpose::STANDARD.encode`,
/// which encodes with the standard alphabet and `=` padding.
#[verifier::external_body]
fn encode_base64(bytes: &[u8]) -> (s: String)
    ensures
        s@ == base64_standard(bytes@),
{
    STANDARD.encode(bytes)
}

/// The OSC 52 sequence that sets the clipboard to `text`, wrapped for tmux
/// where asked; an error where `text` is over the size limit.
pub open spec fn osc52_text(text: &str, tmux: bool) -> Result<Seq<char>, Seq<char>> {
    let n = text.spec_bytes().len();
    if n > OSC52_MAX_RAW_BYTES {
        Err("OSC 52 payload too large ("@ + decimal_chars(n) + " bytes; max 100000)"@)
    } else {
        let encoded = base64_standard(text.spec_bytes());
        if tmux {
            Ok(seq!['\u{1b}'] + "Ptmux;"@ + seq!['\u{1b}', '\u{1b}'] + "]52;c;"@ + encoded + seq!['\u{7}', '\u{1b}', '\\'])
        } else {
            Ok(seq!['\u{1b}'] + "]52;c;"@ + encoded + seq!['\u{7}'])
        }
    }
}

/// The OSC 52 sequence that sets the clipboard to `text`.
pub fn osc52_sequence(text: &str, tmux: bool) -> (r: Result<String, String>)
    ensures
        match r {
            Ok(s) => osc52_text(text, tmux) == Ok::<Seq<char>, Seq<char>>(s@),
            Err(e) => osc52_text(text, tmux) == Err::<Seq<char>, Seq<char>>(e@),
        },
{
    let bytes = text.as_bytes();
    let raw_bytes = bytes.len();
    if raw_bytes > OSC52_MAX_RAW_BYTES {
        let mut s = String::from_str("OSC 52 payload too large (");
        push_decimal_chars(&mut s, raw_bytes);
        push_str_chars(&mut s, " bytes; max 100000)");
        return Err(s);
    }
    let encoded = encode_base64(bytes);
    let mut s = String::new();
    push_char(&mut s, '\u{1b}');
    if tmux {
        push_str_chars(&mut s, "Ptmux;");
        push_char(&mut s, '\u{1b}');
        push_char(&mut s, '\u{1b}');
        push_str_chars(&mut s, "]52;c;");
        push_str_chars(&mut s, encoded.as_str());
        push_char(&mut s, '\u{7}');
        push_char(&mut s, '\u{1b}');
        push_char(&mut s, '\\');
        proof {
            assert(s@ =~= seq!['\u{1b}'] + "Ptmux;"@ + seq!['\u{1b}', '\u{1b}'] + "]52;c;"@ + encoded@ + seq![
                '\u{7}',
                '\u{1b}',
                '\\',
            ]);
        }
    } else {
        push_str_chars(&mut s, "]52;c;");
        push_str_chars(&mut s, encoded.as_str());
        push_char(&mut s, '\u{7}');
        proof {
            assert(s@ =~= seq!['\u{1b}'] + "]52;c;"@ + encoded@ + seq!['\u{7}']);
        }
    }
    Ok(s)
}

} // verus!
