//! Ctrl+C and Ctrl+D in the chat view: interrupting work, and the
//! double-press quit shortcut. A first press arms the shortcut for a while
//! and shows a footer hint; pressing the same key again before it expires
//! quits. Times are instants on the widget's monotonic clock, in any unit
//! the caller keeps to.

use vstd::prelude::*;
use crate::chat_helpers::{KeyBinding, KeyName};

verus! {

/// The armed quit shortcut: its key, and when it expires.
#[derive(Clone, Copy, Debug, PartialEq, Eq, Structural)]
pub struct QuitShortcut {
    pub key: Option<KeyBinding>,
    pub expires_at: Option<u64>,
}

/// Ctrl plus a character.
pub open spec fn ctrl_key(c: char) -> KeyBinding {
    KeyBinding { key: KeyName::Char(c), shift: false, alt: false, ctrl: true }
}

/// What happens to the footer's quit hint.
#[derive(Clone, Copy, Debug, PartialEq, Eq, Structural)]
pub enum QuitHint {
    Keep,
    Show(KeyBinding),
    Clear,
}

/// The shortcut disarmed.
pub open spec fn disarmed() -> QuitShortcut {
    QuitShortcut { key: None, expires_at: None }
}

/// The shortcut armed for `key` until `expires_at`.
pub open spec fn armed(key: KeyBinding, expires_at: u64) -> QuitShortcut {
    QuitShortcut { key: Some(key), expires_at: Some(expires_at) }
}

/// Whether `key` is armed and its window is still open at `now`.
pub open spec fn active_for(s: QuitShortcut, key: KeyBinding, now: u64) -> bool {
    s.key == Some(key) && (s.expires_at matches Some(e) && now < e)
}

impl QuitShortcut {
    /// The shortcut disarmed.
    pub fn new() -> (s: Self)
        ensures
            s == disarmed(),
    {
        QuitShortcut { key: None, expires_at: None }
    }

    /// Whether `key` is armed and its window is still open at `now`.
    pub fn quit_shortcut_active_for(&self, key: KeyBinding, now: u64) -> (r: bool)
        ensures
            r == active_for(*self, key, now),
    {
        let same_key = match self.key {
            Some(k) => k == key,
            None => false,
        };
        same_key && match self.expires_at {
            Some(e) => now < e,
            None => false,
        }
    }
}

/// What Ctrl+C looks at. The bottom pane is offered the key first;
/// `pane_handled` is its answer, `modal_open_after` whether a modal or
/// popup is still open after it.
#[derive(Clone, Copy, Debug)]
pub struct CtrlCFacts {
    pub double_press_enabled: bool,
    pub modal_open_before: bool,
    /// The open view will interrupt the turn on this key.
    pub view_interrupts_turn: bool,
    pub pane_handled: bool,
    pub modal_open_after: bool,
    /// A task runs, or review mode is on.
    pub cancellable_work: bool,
    pub now: u64,
    /// When a shortcut armed now expires.
    pub arm_expiry: u64,
}

/// What Ctrl+C does.
#[derive(Clone, Copy, Debug, PartialEq, Eq, Structural)]
pub struct CtrlCOutcome {
    pub shortcut: QuitShortcut,
    pub hint: QuitHint,
    /// Submit an interrupt, and pause the active goal where it was submitted.
    pub interrupt: bool,
    /// Pause the active goal now.
    pub pause_goal: bool,
    /// A modal or popup was closed by the key.
    pub modal_closed: bool,
    pub quit: bool,
}

/// The outcome of Ctrl+C from `s`.
pub open spec fn ctrl_c_outcome(s: QuitShortcut, f: CtrlCFacts) -> CtrlCOutcome {
    let key = ctrl_key('c');
    let none = CtrlCOutcome {
        shortcut: s,
        hint: QuitHint::Keep,
        interrupt: false,
        pause_goal: false,
        modal_closed: false,
        quit: false,
    };
    if f.pane_handled {
        let (shortcut, hint) = if !f.double_press_enabled {
            (s, QuitHint::Keep)
        } else if f.modal_open_before {
            (disarmed(), QuitHint::Clear)
        } else {
            (armed(key, f.arm_expiry), QuitHint::Show(key))
        };
        CtrlCOutcome {
            shortcut,
            hint,
            pause_goal: f.view_interrupts_turn,
            modal_closed: f.modal_open_before && !f.modal_open_after,
            ..none
        }
    } else if !f.double_press_enabled {
        if f.cancellable_work {
            CtrlCOutcome { shortcut: disarmed(), hint: QuitHint::Clear, interrupt: true, ..none }
        } else {
            CtrlCOutcome { quit: true, ..none }
        }
    } else if active_for(s, key, f.now) {
        CtrlCOutcome { shortcut: disarmed(), quit: true, ..none }
    } else {
        CtrlCOutcome {
            shortcut: armed(key, f.arm_expiry),
            hint: QuitHint::Show(key),
            interrupt: f.cancellable_work,
            ..none
        }
    }
}

/// Ctrl+C in the chat view: the pane's own handling, an interrupt of
/// running work, or the quit shortcut.
pub fn on_ctrl_c(s: QuitShortcut, f: CtrlCFacts) -> (r: CtrlCOutcome)
    ensures
        r == ctrl_c_outcome(s, f),
{
    let key = KeyBinding { key: KeyName::Char('c'), shift: false, alt: false, ctrl: true };
    let none = CtrlCOutcome {
        shortcut: s,
        hint: QuitHint::Keep,
        interrupt: false,
        pause_goal: false,
        modal_closed: false,
        quit: false,
    };
    if f.pane_handled {
        let (shortcut, hint) = if !f.double_press_enabled {
            (s, QuitHint::Keep)
        } else if f.modal_open_before {
            (QuitShortcut { key: None, expires_at: None }, QuitHint::Clear)
        } else {
            (QuitShortcut { key: Some(key), expires_at: Some(f.arm_expiry) }, QuitHint::Show(key))
        };
        return CtrlCOutcome {
            shortcut,
            hint,
            pause_goal: f.view_interrupts_turn,
            modal_closed: f.modal_open_before && !f.modal_open_after,
            ..none
        };
    }
    if !f.double_press_enabled {
        if f.cancellable_work {
            return CtrlCOutcome {
                shortcut: QuitShortcut { key: None, expires_at: None },
                hint: QuitHint::Clear,
                interrupt: true,
                ..none
            };
        }
        return CtrlCOutcome { quit: true, ..none };
    }
    if s.quit_shortcut_active_for(key, f.now) {
        return CtrlCOutcome { shortcut: QuitShortcut { key: None, expires_at: None }, quit: true, ..none };
    }
    CtrlCOutcome {
        shortcut: QuitShortcut { key: Some(key), expires_at: Some(f.arm_expiry) },
        hint: QuitHint::Show(key),
        interrupt: f.cancellable_work,
        ..none
    }
}

/// What Ctrl+D looks at.
#[derive(Clone, Copy, Debug)]
pub struct CtrlDFacts {
    pub double_press_enabled: bool,
    pub composer_empty: bool,
    pub no_modal_or_popup: bool,
    pub now: u64,
    pub arm_expiry: u64,
}

/// What Ctrl+D does. Where it is not `handled`, the key goes on to the
/// active view.
#[derive(Clone, Copy, Debug, PartialEq, Eq, Structural)]
pub struct CtrlDOutcome {
    pub handled: bool,
    pub shortcut: QuitShortcut,
    pub hint: QuitHint,
    pub quit: bool,
}

/// The outcome of Ctrl+D from `s`: it only takes part in quitting with an
/// empty composer and nothing open, or as the second press of an armed
/// shortcut.
pub open spec fn ctrl_d_outcome(s: QuitShortcut, f: CtrlDFacts) -> CtrlDOutcome {
    let key = ctrl_key('d');
    let idle = f.composer_empty && f.no_modal_or_popup;
    if !f.double_press_enabled {
        CtrlDOutcome { handled: idle, shortcut: s, hint: QuitHint::Keep, quit: idle }
    } else if active_for(s, key, f.now) {
        CtrlDOutcome { handled: true, shortcut: disarmed(), hint: QuitHint::Keep, quit: true }
    } else if !idle {
        CtrlDOutcome { handled: false, shortcut: s, hint: QuitHint::Keep, quit: false }
    } else {
        CtrlDOutcome { handled: true, shortcut: armed(key, f.arm_expiry), hint: QuitHint::Show(key), quit: false }
    }
}

/// Ctrl+D in the chat view.
pub fn on_ctrl_d(s: QuitShortcut, f: CtrlDFacts) -> (r: CtrlDOutcome)
    ensures
        r == ctrl_d_outcome(s, f),
{
    let key = KeyBinding { key: KeyName::Char('d'), shift: false, alt: false, ctrl: true };
    let idle = f.composer_empty && f.no_modal_or_popup;
    if !f.double_press_enabled {
        return CtrlDOutcome { handled: idle, shortcut: s, hint: QuitHint::Keep, quit: idle };
    }
    if s.quit_shortcut_active_for(key, f.now) {
        return CtrlDOutcome {
            handled: true,
            shortcut: QuitShortcut { key: None, expires_at: None },
            hint: QuitHint::Keep,
            quit: true,
        };
    }
    if !idle {
        return CtrlDOutcome { handled: false, shortcut: s, hint: QuitHint::Keep, quit: false };
    }
    CtrlDOutcome {
        handled: true,
        shortcut: QuitShortcut { key: Some(key), expires_at: Some(f.arm_expiry) },
        hint: QuitHint::Show(key),
        quit: false,
    }
}

/// Whether an interrupt pauses the active goal: a turn runs, the goal is
/// active, and the thread is known.
pub fn should_pause_active_goal(agent_turn_running: bool, goal_active: bool, has_thread_id: bool) -> (r: bool)
    ensures
        r == (agent_turn_running && goal_active && has_thread_id),
{
    agent_turn_running && goal_active && has_thread_id
}

/// With the double-press shortcut, a second Ctrl+C that the pane leaves
/// alone quits when it comes before the first one's window closes.
pub proof fn lemma_ctrl_c_twice_quits(s: QuitShortcut, first: CtrlCFacts, second: CtrlCFacts)
    requires
        first.double_press_enabled,
        !first.pane_handled,
        !active_for(s, ctrl_key('c'), first.now),
        second.double_press_enabled,
        !second.pane_handled,
        second.now < first.arm_expiry,
    ensures
        ctrl_c_outcome(ctrl_c_outcome(s, first).shortcut, second).quit,
        ctrl_c_outcome(ctrl_c_outcome(s, first).shortcut, second).shortcut == disarmed(),
{
}

/// A second Ctrl+C after the window closed does not quit: it arms the
/// shortcut again.
pub proof fn lemma_late_second_ctrl_c_rearms(s: QuitShortcut, first: CtrlCFacts, second: CtrlCFacts)
    requires
        first.double_press_enabled,
        !first.pane_handled,
        !active_for(s, ctrl_key('c'), first.now),
        second.double_press_enabled,
        !second.pane_handled,
        second.now >= first.arm_expiry,
    ensures
        !ctrl_c_outcome(ctrl_c_outcome(s, first).shortcut, second).quit,
        ctrl_c_outcome(ctrl_c_outcome(s, first).shortcut, second).shortcut == armed(ctrl_key('c'), second.arm_expiry),
{
}

/// The shortcut armed by one key is not taken by the other: Ctrl+D after
/// Ctrl+C does not quit.
pub proof fn lemma_other_key_does_not_quit(s: QuitShortcut, first: CtrlCFacts, second: CtrlDFacts)
    requires
        first.double_press_enabled,
        !first.pane_handled,
        second.double_press_enabled,
    ensures
        !ctrl_d_outcome(ctrl_c_outcome(s, first).shortcut, second).quit,
{
}

/// Ctrl+D twice in its window quits, whatever the composer holds at the
/// second press.
pub proof fn lemma_ctrl_d_twice_quits(s: QuitShortcut, first: CtrlDFacts, second: CtrlDFacts)
    requires
        first.double_press_enabled,
        !active_for(s, ctrl_key('d'), first.now),
        first.composer_empty,
        first.no_modal_or_popup,
        second.double_press_enabled,
        second.now < first.arm_expiry,
    ensures
        ctrl_d_outcome(ctrl_d_outcome(s, first).shortcut, second).quit,
{
}

} // verus!
