//! Where a key press in the chat view goes: to an open view, to a shortcut,
//! to the queue of pending messages, or on to the composer.
//!
//! Routing alternates with work that only the widget can do (trying the
//! reasoning shortcut, Ctrl+D, the plugins popup); each of those reports back
//! whether it took the key, and routing resumes at the matching stage.

use vstd::prelude::*;

verus! {

/// What the key event is, as the keymaps and the terminal report it.
#[derive(Clone, Copy, Debug)]
pub struct KeyFacts {
    /// The key went down (not a release or a repeat).
    pub is_press: bool,
    /// A press of Ctrl+C (either case).
    pub ctrl_c: bool,
    /// A press of Ctrl+D (either case).
    pub ctrl_d: bool,
    /// A press of Ctrl+R.
    pub ctrl_r: bool,
    /// A press of Ctrl+U.
    pub ctrl_u: bool,
    /// A press of Ctrl+V or Alt+V (either case).
    pub paste_image: bool,
    /// The binding that copies the last response.
    pub copy_response: bool,
    /// The binding that edits the latest queued message.
    pub edit_queued: bool,
    /// The binding that interrupts the running turn.
    pub interrupt_turn: bool,
    /// The Esc key.
    pub esc: bool,
    /// Shift+Tab.
    pub back_tab: bool,
}

/// The state of the chat view that routing looks at.
#[derive(Clone, Copy, Debug)]
pub struct ChatFacts {
    pub active_view: bool,
    pub queued_follow_ups: bool,
    pub no_modal_or_popup: bool,
    pub review_mode: bool,
    pub pending_steers: bool,
    pub rejected_steers: bool,
    pub task_running: bool,
    pub vim_insert_escape: bool,
    pub plan_nudge_shown: bool,
    pub collaboration_modes: bool,
    pub blocks_direct_input: bool,
}

/// Where routing resumes.
#[derive(Clone, Copy, Debug, PartialEq, Eq, Structural)]
pub enum KeyStage {
    /// A new key event.
    Start,
    /// The reasoning shortcut did not take the key.
    AfterReasoningShortcut,
    /// Ctrl+D did not take the key.
    AfterCtrlD,
    /// The plugins popup did not take the key.
    AfterPluginsPopup,
}

/// What to do with the key next.
#[derive(Clone, Copy, Debug, PartialEq, Eq, Structural)]
pub enum KeyAction {
    /// Hand the key to the open view; routing ends.
    ToActiveView,
    /// Try the reasoning shortcut; if it does not take the key, resume at
    /// [`KeyStage::AfterReasoningShortcut`].
    TryReasoningShortcut,
    /// Copy the last response; routing ends.
    CopyLastResponse,
    /// Handle Ctrl+C; routing ends.
    CtrlC,
    /// Try Ctrl+D; if it does not take the key, resume at
    /// [`KeyStage::AfterCtrlD`].
    TryCtrlD,
    /// Paste an image from the clipboard; routing ends.
    PasteImage,
    /// Put the latest queued message back into the composer; routing ends.
    EditQueuedMessage,
    /// Warn that steering is not available during a review; routing ends.
    WarnReviewSteer,
    /// Interrupt the turn so that pending steers are submitted; routing ends.
    InterruptForSteers,
    /// Dismiss the plan mode nudge; routing ends.
    DismissPlanNudge,
    /// Try the plugins popup; if it does not take the key, resume at
    /// [`KeyStage::AfterPluginsPopup`].
    TryPluginsPopup,
    /// Refuse input owned by the parent thread; routing ends.
    RejectParentOwnedInput,
    /// Switch to the next collaboration mode; routing ends.
    CycleCollaborationMode,
    /// Hand the key to the composer; routing ends.
    ToComposer,
}

/// One routing step: whether to clear the quit shortcut hint first, then
/// the action.
#[derive(Clone, Copy, Debug, PartialEq, Eq, Structural)]
pub struct KeyStep {
    pub clear_quit_hint: bool,
    pub action: KeyAction,
}

/// A step.
pub open spec fn step(clear: bool, action: KeyAction) -> KeyStep {
    KeyStep { clear_quit_hint: clear, action }
}

/// The checks after the shortcuts: queued messages, steering, the plan
/// nudge, then the plugins popup.
pub open spec fn queue_step(clear: bool, k: KeyFacts, c: ChatFacts) -> KeyStep {
    if k.is_press && k.edit_queued && c.queued_follow_ups && c.no_modal_or_popup {
        step(clear, KeyAction::EditQueuedMessage)
    } else if k.interrupt_turn && c.review_mode && (c.pending_steers || c.rejected_steers) && c.task_running
        && c.no_modal_or_popup && !c.vim_insert_escape {
        step(clear, KeyAction::WarnReviewSteer)
    } else if k.interrupt_turn && c.pending_steers && c.task_running && c.no_modal_or_popup
        && !c.vim_insert_escape {
        step(clear, KeyAction::InterruptForSteers)
    } else if k.esc && k.is_press && c.plan_nudge_shown {
        step(clear, KeyAction::DismissPlanNudge)
    } else {
        step(clear, KeyAction::TryPluginsPopup)
    }
}

/// The routing step for `k` at `stage`.
pub open spec fn key_step(stage: KeyStage, k: KeyFacts, c: ChatFacts) -> KeyStep {
    match stage {
        KeyStage::Start => {
            if c.active_view && !k.ctrl_c && !k.ctrl_r && !k.ctrl_u {
                step(false, KeyAction::ToActiveView)
            } else {
                step(false, KeyAction::TryReasoningShortcut)
            }
        },
        KeyStage::AfterReasoningShortcut => {
            if k.is_press && k.copy_response {
                step(true, KeyAction::CopyLastResponse)
            } else if k.ctrl_c {
                step(false, KeyAction::CtrlC)
            } else if k.ctrl_d {
                step(false, KeyAction::TryCtrlD)
            } else if k.paste_image {
                step(false, KeyAction::PasteImage)
            } else {
                queue_step(k.is_press, k, c)
            }
        },
        KeyStage::AfterCtrlD => queue_step(true, k, c),
        KeyStage::AfterPluginsPopup => {
            if k.back_tab && k.is_press && c.collaboration_modes && !c.task_running && c.no_modal_or_popup {
                if c.blocks_direct_input {
                    step(false, KeyAction::RejectParentOwnedInput)
                } else {
                    step(false, KeyAction::CycleCollaborationMode)
                }
            } else {
                step(false, KeyAction::ToComposer)
            }
        },
    }
}

/// The queue checks, as code.
fn route_queue(clear: bool, k: KeyFacts, c: ChatFacts) -> (r: KeyStep)
    ensures
        r == queue_step(clear, k, c),
{
    let action = if k.is_press && k.edit_queued && c.queued_follow_ups && c.no_modal_or_popup {
        KeyAction::EditQueuedMessage
    } else if k.interrupt_turn && c.review_mode && (c.pending_steers || c.rejected_steers) && c.task_running
        && c.no_modal_or_popup && !c.vim_insert_escape {
        KeyAction::WarnReviewSteer
    } else if k.interrupt_turn && c.pending_steers && c.task_running && c.no_modal_or_popup
        && !c.vim_insert_escape {
        KeyAction::InterruptForSteers
    } else if k.esc && k.is_press && c.plan_nudge_shown {
        KeyAction::DismissPlanNudge
    } else {
        KeyAction::TryPluginsPopup
    };
    KeyStep { clear_quit_hint: clear, action }
}

/// The next routing step for a key event at `stage`.
///
/// While a view is open it gets every key but Ctrl+C, Ctrl+R and Ctrl+U;
/// a shortcut that acts ends routing; a press that no shortcut takes clears
/// the quit hint; what nothing else takes goes to the composer.
pub fn route_key_event(stage: KeyStage, k: KeyFacts, c: ChatFacts) -> (r: KeyStep)
    ensures
        r == key_step(stage, k, c),
        stage == KeyStage::Start && c.active_view && !k.ctrl_c && !k.ctrl_r && !k.ctrl_u ==> r.action
            == KeyAction::ToActiveView,
        !k.is_press && stage != KeyStage::Start ==> r.action != KeyAction::CopyLastResponse
            && r.action != KeyAction::EditQueuedMessage && r.action != KeyAction::DismissPlanNudge
            && r.action != KeyAction::CycleCollaborationMode && r.action != KeyAction::RejectParentOwnedInput,
{
    match stage {
        KeyStage::Start => {
            if c.active_view && !k.ctrl_c && !k.ctrl_r && !k.ctrl_u {
                KeyStep { clear_quit_hint: false, action: KeyAction::ToActiveView }
            } else {
                KeyStep { clear_quit_hint: false, action: KeyAction::TryReasoningShortcut }
            }
        },
        KeyStage::AfterReasoningShortcut => {
            if k.is_press && k.copy_response {
                KeyStep { clear_quit_hint: true, action: KeyAction::CopyLastResponse }
            } else if k.ctrl_c {
                KeyStep { clear_quit_hint: false, action: KeyAction::CtrlC }
            } else if k.ctrl_d {
                KeyStep { clear_quit_hint: false, action: KeyAction::TryCtrlD }
            } else if k.paste_image {
                KeyStep { clear_quit_hint: false, action: KeyAction::PasteImage }
            } else {
                route_queue(k.is_press, k, c)
            }
        },
        KeyStage::AfterCtrlD => route_queue(true, k, c),
        KeyStage::AfterPluginsPopup => {
            if k.back_tab && k.is_press && c.collaboration_modes && !c.task_running && c.no_modal_or_popup {
                if c.blocks_direct_input {
                    KeyStep { clear_quit_hint: false, action: KeyAction::RejectParentOwnedInput }
                } else {
                    KeyStep { clear_quit_hint: false, action: KeyAction::CycleCollaborationMode }
                }
            } else {
                KeyStep { clear_quit_hint: false, action: KeyAction::ToComposer }
            }
        },
    }
}

/// The stage at which routing resumes after `a`, if it does.
pub open spec fn resumes_at(a: KeyAction) -> Option<KeyStage> {
    match a {
        KeyAction::TryReasoningShortcut => Some(KeyStage::AfterReasoningShortcut),
        KeyAction::TryCtrlD => Some(KeyStage::AfterCtrlD),
        KeyAction::TryPluginsPopup => Some(KeyStage::AfterPluginsPopup),
        _ => None,
    }
}

/// The position of a stage in routing order.
pub open spec fn stage_rank(s: KeyStage) -> int {
    match s {
        KeyStage::Start => 0,
        KeyStage::AfterReasoningShortcut => 1,
        KeyStage::AfterCtrlD => 2,
        KeyStage::AfterPluginsPopup => 3,
    }
}

/// Each step that resumes routing resumes at a later stage, so a key event
/// takes at most four steps.
pub proof fn lemma_routing_moves_forward(stage: KeyStage, k: KeyFacts, c: ChatFacts)
    ensures
        resumes_at(key_step(stage, k, c).action) matches Some(next) ==> stage_rank(next) > stage_rank(stage),
        stage == KeyStage::AfterPluginsPopup ==> resumes_at(key_step(stage, k, c).action) is None,
{
}

/// A Ctrl+C press is never swallowed by an open view: it reaches the
/// reasoning shortcut and then, unless that took it, Ctrl+C handling.
pub proof fn lemma_ctrl_c_reaches_handler(k: KeyFacts, c: ChatFacts)
    requires
        k.ctrl_c,
        !(k.is_press && k.copy_response),
    ensures
        key_step(KeyStage::Start, k, c).action == KeyAction::TryReasoningShortcut,
        key_step(KeyStage::AfterReasoningShortcut, k, c).action == KeyAction::CtrlC,
{
}

} // verus!
