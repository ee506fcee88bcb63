//! Text helpers of the chat view: the first bold run of streamed reasoning,
//! thread names, the plan keyword, and which key edits a queued message.

use vstd::prelude::*;
use crate::diff_theme::TerminalName;
use crate::status::{first_non_white, is_white_space, lemma_first_non_white, trim_text, trimmed, white_space};
use crate::text::{chars_of, push_char};

verus! {

/// Whether std's `char::is_alphanumeric` holds of a character (Unicode
/// alphabetic or numeric).
pub uninterp spec fn alphanumeric(c: char) -> bool;

/// Calls `char::is_alphanumeric`; for an ASCII character that is exactly
/// an ASCII letter or digit, as its documentation's Unicode properties give.
#[verifier::external_body]
fn is_alphanumeric(c: char) -> (r: bool)
    ensures
        r == alphanumeric(c),
        (c as u32) < 0x80 ==> r == (('a' <= c && c <= 'z') || ('A' <= c && c <= 'Z') || ('0' <= c
            && c <= '9')),
{
    c.is_alphanumeric()
}

/// Two asterisks start at `i`.
pub open spec fn double_star(s: Seq<char>, i: int) -> bool {
    0 <= i && i + 1 < s.len() && s[i] == '*' && s[i + 1] == '*'
}

/// `i` is the first position from `from` on where two asterisks start.
pub open spec fn first_double_star(s: Seq<char>, from: int, i: int) -> bool {
    from <= i && double_star(s, i) && forall|k: int| from <= k < i ==> !#[trigger] double_star(s, k)
}

/// `j` is where the asterisks that close a run opened at `i` start.
pub open spec fn closing_star(s: Seq<char>, i: int, j: int) -> bool {
    first_double_star(s, i + 2, j)
}

/// The first bold run `**...**` of `s`, trimmed: none where no `**` opens
/// one, where none closes it, or where only white space lies between.
pub open spec fn first_bold(s: Seq<char>) -> Option<Seq<char>> {
    if exists|i: int| #[trigger] first_double_star(s, 0, i) {
        let i = choose|i: int| #[trigger] first_double_star(s, 0, i);
        if exists|j: int| #[trigger] closing_star(s, i, j) {
            let j = choose|j: int| #[trigger] closing_star(s, i, j);
            let t = trimmed(s.subrange(i + 2, j));
            if t.len() > 0 {
                Some(t)
            } else {
                None
            }
        } else {
            None
        }
    } else {
        None
    }
}

/// There is one first position.
proof fn lemma_first_double_star_unique(s: Seq<char>, from: int, a: int, b: int)
    requires
        first_double_star(s, from, a),
        first_double_star(s, from, b),
    ensures
        a == b,
{
    if a < b {
        assert(!double_star(s, a));
    } else if b < a {
        assert(!double_star(s, b));
    }
}

/// The first position from `from` on where two asterisks start, if any.
fn find_double_star(v: &Vec<char>, from: usize) -> (r: Option<usize>)
    requires
        from <= v@.len(),
    ensures
        match r {
            Some(i) => first_double_star(v@, from as int, i as int) && i < v.len() - 1,
            None => forall|k: int| from <= k ==> !#[trigger] double_star(v@, k),
        },
{
    let mut i: usize = from;
    while v.len() > 0 && i < v.len() - 1
        invariant
            from <= i <= v@.len(),
            forall|k: int| from <= k < i ==> !#[trigger] double_star(v@, k),
        decreases v.len() - i,
    {
        if v[i] == '*' && v[i + 1] == '*' {
            return Some(i);
        }
        i += 1;
    }
    None
}

/// The inner text of the first bold run `**...**` of `s`, trimmed; none
/// where there is none, it is not closed yet, or it is blank.
pub fn extract_first_bold(s: &str) -> (r: Option<String>)
    ensures
        match r {
            Some(t) => first_bold(s@) == Some(t@),
            None => first_bold(s@) is None,
        },
{
    let v = chars_of(s);
    match find_double_star(&v, 0) {
        None => {
            assert(!exists|i: int| #[trigger] first_double_star(s@, 0, i));
            None
        },
        Some(i) => {
            proof {
                let c = choose|i: int| first_double_star(s@, 0, i);
                lemma_first_double_star_unique(s@, 0, c, i as int);
            }
            match find_double_star(&v, i + 2) {
                None => {
                    assert(!exists|j: int| #[trigger] closing_star(s@, i as int, j));
                    None
                },
                Some(j) => {
                    proof {
                        assert(closing_star(s@, i as int, j as int));
                        let c = choose|j: int| #[trigger] closing_star(s@, i as int, j);
                        lemma_first_double_star_unique(s@, i + 2, c, j as int);
                    }
                    let mut inner = String::new();
                    let mut k: usize = i + 2;
                    while k < j
                        invariant
                            i + 2 <= k <= j,
                            j < v.len(),
                            inner@ == v@.subrange(i + 2, k as int),
                        decreases j - k,
                    {
                        push_char(&mut inner, v[k]);
                        proof {
                            assert(v@.subrange(i + 2, k + 1) =~= v@.subrange(i + 2, k as int).push(v@[k as int]));
                        }
                        k += 1;
                    }
                    let t = trim_text(inner.as_str());
                    if t.as_str().unicode_len() > 0 {
                        Some(t)
                    } else {
                        None
                    }
                },
            }
        },
    }
}

/// A thread name without surrounding white space; none where nothing else
/// is left.
pub fn normalize_thread_name(name: &str) -> (r: Option<String>)
    ensures
        match r {
            Some(t) => t@ == trimmed(name@) && t@.len() > 0,
            None => trimmed(name@).len() == 0,
        },
{
    let t = trim_text(name);
    if t.as_str().unicode_len() > 0 {
        Some(t)
    } else {
        None
    }
}

/// A character that belongs to a word: alphanumeric or `_`.
pub open spec fn word_char(c: char) -> bool {
    alphanumeric(c) || c == '_'
}

/// `c` is `x` or `y`.
pub open spec fn either(c: char, x: char, y: char) -> bool {
    c == x || c == y
}

/// The word `plan`, in any ASCII case, stands alone at `i`: its letters are
/// word characters and no word character touches it.
pub open spec fn plan_word_at(s: Seq<char>, i: int) -> bool {
    &&& 0 <= i && i + 4 <= s.len()
    &&& either(s[i], 'p', 'P') && either(s[i + 1], 'l', 'L') && either(s[i + 2], 'a', 'A')
        && either(s[i + 3], 'n', 'N')
    &&& word_char(s[i]) && word_char(s[i + 1]) && word_char(s[i + 2]) && word_char(s[i + 3])
    &&& i == 0 || !word_char(s[i - 1])
    &&& i + 4 == s.len() || !word_char(s[i + 4])
}

/// Whether a character belongs to a word.
fn is_word_char(c: char) -> (r: bool)
    ensures
        r == word_char(c),
{
    c == '_' || is_alphanumeric(c)
}

/// Whether `text` holds the word `plan` on its own, in any ASCII case
/// (`planning` does not count; `/plan` does).
pub fn contains_plan_keyword(text: &str) -> (r: bool)
    ensures
        r == exists|i: int| plan_word_at(text@, i),
{
    let v = chars_of(text);
    let n = v.len();
    if n < 4 {
        return false;
    }
    let mut i: usize = 0;
    while i < n - 3
        invariant
            i <= n - 3,
            n >= 4,
            n == v@.len(),
            v@ == text@,
            forall|k: int| 0 <= k < i ==> !#[trigger] plan_word_at(text@, k),
        decreases n - i,
    {
        let letters = (v[i] == 'p' || v[i] == 'P') && (v[i + 1] == 'l' || v[i + 1] == 'L') && (v[i + 2]
            == 'a' || v[i + 2] == 'A') && (v[i + 3] == 'n' || v[i + 3] == 'N');
        if letters && is_word_char(v[i]) && is_word_char(v[i + 1]) && is_word_char(v[i + 2])
            && is_word_char(v[i + 3]) {
            let before = i == 0 || !is_word_char(v[i - 1]);
            let after = i + 4 == n || !is_word_char(v[i + 4]);
            if before && after {
                assert(plan_word_at(text@, i as int));
                return true;
            }
        }
        i += 1;
    }
    assert forall|k: int| !plan_word_at(text@, k) by {
        if 0 <= k < i {
        }
    }
    false
}

/// A key, by what the keymaps tell apart.
#[derive(Clone, Copy, Debug, PartialEq, Eq, Structural)]
pub enum KeyName {
    Char(char),
    Left,
    Right,
    Up,
    Down,
    Enter,
    Esc,
    Tab,
    BackTab,
    Backspace,
    Delete,
    Home,
    End,
    PageUp,
    PageDown,
    Function(u8),
}

/// A key with its modifiers.
#[derive(Clone, Copy, Debug, PartialEq, Eq, Structural)]
pub struct KeyBinding {
    pub key: KeyName,
    pub shift: bool,
    pub alt: bool,
    pub ctrl: bool,
}

/// The terminal the session runs in, and whether tmux sits in between.
#[derive(Clone, Copy, Debug)]
pub struct TerminalInfo {
    pub name: TerminalName,
    pub tmux: bool,
}

/// Shift+Left.
pub open spec fn shift_left() -> KeyBinding {
    KeyBinding { key: KeyName::Left, shift: true, alt: false, ctrl: false }
}

/// Alt+Up.
pub open spec fn alt_up() -> KeyBinding {
    KeyBinding { key: KeyName::Up, shift: false, alt: true, ctrl: false }
}

/// The binding that edits the latest queued message in a terminal: Shift+Left
/// under tmux and in Apple Terminal, Warp and VS Code, which swallow Alt+Up;
/// Alt+Up elsewhere.
pub open spec fn edit_binding_for(t: TerminalInfo) -> KeyBinding {
    if t.tmux {
        shift_left()
    } else {
        match t.name {
            TerminalName::AppleTerminal | TerminalName::WarpTerminal | TerminalName::VsCode => shift_left(),
            _ => alt_up(),
        }
    }
}

/// The binding that edits the latest queued message in this terminal.
pub fn queued_message_edit_binding_for_terminal(t: TerminalInfo) -> (b: KeyBinding)
    ensures
        b == edit_binding_for(t),
{
    let shift_left = KeyBinding { key: KeyName::Left, shift: true, alt: false, ctrl: false };
    if t.tmux {
        return shift_left;
    }
    match t.name {
        TerminalName::AppleTerminal | TerminalName::WarpTerminal | TerminalName::VsCode => shift_left,
        _ => KeyBinding { key: KeyName::Up, shift: false, alt: true, ctrl: false },
    }
}

/// The binding to show in the hint for editing a queued message: the
/// terminal's own where it is among `bindings`, else the first of them.
pub fn queued_message_edit_hint_binding(bindings: &[KeyBinding], t: TerminalInfo) -> (r: Option<
    KeyBinding,
>)
    ensures
        bindings@.contains(edit_binding_for(t)) ==> r == Some(edit_binding_for(t)),
        !bindings@.contains(edit_binding_for(t)) ==> r == (if bindings@.len() > 0 {
            Some(bindings@[0])
        } else {
            None
        }),
{
    let wanted = queued_message_edit_binding_for_terminal(t);
    let mut i: usize = 0;
    while i < bindings.len()
        invariant
            i <= bindings@.len(),
            wanted == edit_binding_for(t),
            forall|k: int| 0 <= k < i ==> bindings@[k] != wanted,
        decreases bindings@.len() - i,
    {
        if bindings[i] == wanted {
            assert(bindings@[i as int] == wanted);
            return Some(wanted);
        }
        i += 1;
    }
    if bindings.len() > 0 {
        Some(bindings[0])
    } else {
        None
    }
}


/// The start of the message shown where access was limited for safety.
pub open spec fn legacy_safety_prefix() -> Seq<char> {
    "Invalid prompt: we've limited access to this content for safety reasons."@
}

/// The start of the message shown where content was flagged for
/// biological risk.
pub open spec fn bio_safety_prefix() -> Seq<char> {
    "This content was flagged for possible biological risk."@
}

/// Whether an error message reports content blocked for safety.
pub fn is_safety_access_block_message(message: &str) -> (r: bool)
    ensures
        r == (crate::text::starts_with(message@, legacy_safety_prefix()) || crate::text::starts_with(
            message@,
            bio_safety_prefix(),
        )),
{
    crate::text::starts_with_str(message, "Invalid prompt: we've limited access to this content for safety reasons.")
        || crate::text::starts_with_str(message, "This content was flagged for possible biological risk.")
}

/// What the plan mode nudge depends on besides the draft.
#[derive(Clone, Copy, Debug)]
pub struct PlanNudgeFacts {
    pub collaboration_modes: bool,
    pub plan_mode_available: bool,
    pub in_plan_mode: bool,
    pub composer_input_enabled: bool,
    pub task_running: bool,
    pub no_modal_or_popup: bool,
    pub dismissed_for_scope: bool,
}

/// The draft, without leading white space, starts a slash command or a
/// shell command.
pub open spec fn starts_local_command(s: Seq<char>) -> bool {
    let k = first_non_white(s);
    k < s.len() && (s[k as int] == '/' || s[k as int] == '!')
}

/// Whether the draft starts a slash command or a shell command.
fn is_local_command(text: &str) -> (r: bool)
    ensures
        r == starts_local_command(text@),
{
    let v = chars_of(text);
    let mut k: usize = 0;
    while k < v.len() && is_white_space(v[k])
        invariant
            k <= v@.len(),
            v@ == text@,
            forall|j: int| 0 <= j < k ==> white_space(#[trigger] v@[j]),
        decreases v@.len() - k,
    {
        k += 1;
    }
    proof {
        lemma_first_non_white(text@, k as int);
    }
    k < v.len() && (v[k] == '/' || v[k] == '!')
}

/// Whether the status bar shows the nudge to switch to plan mode: plan mode
/// exists and is not on, the composer takes input, nothing runs or covers
/// it, the draft mentions the word `plan` and is no local command, and the
/// nudge was not dismissed for this thread.
pub fn should_show_plan_mode_nudge(text: &str, f: PlanNudgeFacts) -> (r: bool)
    ensures
        r == (f.collaboration_modes && f.plan_mode_available && !f.in_plan_mode && f.composer_input_enabled
            && !f.task_running && f.no_modal_or_popup && !starts_local_command(text@) && (exists|i: int|
            plan_word_at(text@, i)) && !f.dismissed_for_scope),
{
    f.collaboration_modes && f.plan_mode_available && !f.in_plan_mode && f.composer_input_enabled
        && !f.task_running && f.no_modal_or_popup && !is_local_command(text) && contains_plan_keyword(text)
        && !f.dismissed_for_scope
}

/// The personality a thread's settings name, in any ASCII case.
#[derive(Clone, Copy, Debug, PartialEq, Eq, Structural)]
pub enum Personality {
    Friendly,
    Pragmatic,
    NoPersonality,
}

/// The personality a setting names: `friendly` and `pragmatic` in any ASCII
/// case; anything else names none.
pub open spec fn personality_of(s: Seq<char>) -> Personality {
    if crate::plugin_list::lower(s) == "friendly"@ {
        Personality::Friendly
    } else if crate::plugin_list::lower(s) == "pragmatic"@ {
        Personality::Pragmatic
    } else {
        Personality::NoPersonality
    }
}

/// The personality a thread setting names.
pub fn personality_from_setting(setting: &str) -> (p: Personality)
    ensures
        p == personality_of(setting@),
{
    let lowered = crate::plugin_list::to_ascii_lower(setting);
    if crate::text::str_eq(lowered.as_str(), "friendly") {
        Personality::Friendly
    } else if crate::text::str_eq(lowered.as_str(), "pragmatic") {
        Personality::Pragmatic
    } else {
        Personality::NoPersonality
    }
}
} // verus!
