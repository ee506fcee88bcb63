use reflect_tui::chat_helpers::{
    contains_plan_keyword, extract_first_bold, normalize_thread_name, queued_message_edit_binding_for_terminal,
    queued_message_edit_hint_binding, KeyBinding, KeyName, TerminalInfo,
};
use reflect_tui::chat_state::{
    HistoryRecord, InputQueueState, PendingSteer, SessionHeader, TranscriptState, UserMessage,
};
use reflect_tui::diff_theme::TerminalName;
use reflect_tui::key_routing::{route_key_event, ChatFacts, KeyAction, KeyFacts, KeyStage};
use reflect_tui::reasoning::{next_reasoning_effort, ReasoningEffort, ReasoningShortcutDirection};

fn msg(text: &str) -> UserMessage {
    UserMessage { text: text.to_string() }
}

#[test]
fn preview_keeps_queue_categories_separate() {
    let mut state = InputQueueState::new();
    state.queued_user_messages.push(msg("queued"));
    state.rejected_steers_queue.push(msg("rejected"));
    state.pending_steers.push(PendingSteer { user_message: msg("pending"), history_record: HistoryRecord::UserMessageText });
    let preview = state.preview();
    assert_eq!(preview.queued_messages, vec!["queued".to_string()]);
    assert_eq!(preview.pending_steers, vec!["pending".to_string()]);
    assert_eq!(preview.rejected_steers, vec!["rejected".to_string()]);
}

#[test]
fn clear_resets_all_input_queues() {
    let mut state = InputQueueState::new();
    state.queued_user_messages.push(msg("queued"));
    state.rejected_steers_queue.push(msg("rejected"));
    state.user_turn_pending_start = true;
    state.submit_pending_steers_after_interrupt = true;
    state.clear();
    assert!(state.queued_user_messages.is_empty());
    assert!(state.queued_user_message_history_records.is_empty());
    assert!(!state.user_turn_pending_start);
    assert!(state.rejected_steers_queue.is_empty());
    assert!(state.rejected_steer_history_records.is_empty());
    assert!(state.pending_steers.is_empty());
    assert!(!state.submit_pending_steers_after_interrupt);
}

#[test]
fn preview_uses_rendered_history_where_given() {
    let mut state = InputQueueState::new();
    state.queued_user_messages.push(msg("/goal ship it"));
    state.queued_user_messages.push(msg("plain"));
    state.queued_user_message_history_records.push(HistoryRecord::Rendered("Goal: ship it".to_string()));
    let preview = state.preview();
    assert_eq!(preview.queued_messages, vec!["Goal: ship it".to_string(), "plain".to_string()]);
    assert!(state.has_queued_follow_up_messages());
}

#[test]
fn active_cell_revision_wraps() {
    let mut state = TranscriptState::new();
    state.active_cell_revision = u64::MAX;
    state.bump_active_cell_revision();
    assert_eq!(state.active_cell_revision, 0);
}

#[test]
fn transcript_records_and_resets_copy_source() {
    let mut state = TranscriptState::new();
    state.record_agent_markdown("**done**".to_string());
    assert_eq!(state.last_agent_markdown.as_deref(), Some("**done**"));
    assert!(state.saw_copy_source_this_turn);
    state.reset_turn_flags();
    assert!(!state.saw_copy_source_this_turn);
    assert_eq!(state.last_agent_markdown.as_deref(), Some("**done**"));
    state.reset_copy_history();
    assert!(state.last_agent_markdown.is_none());
}

#[test]
fn session_header_shows_latest_model() {
    let mut header = SessionHeader::new("gpt-a".to_string());
    header.set_model("gpt-b");
    assert_eq!(header.model(), "gpt-b");
    header.set_model("gpt-b");
    assert_eq!(header.model(), "gpt-b");
}

#[test]
fn next_reasoning_effort_raises_from_default_anchor() {
    let choices = vec![ReasoningEffort::Low, ReasoningEffort::Medium, ReasoningEffort::High, ReasoningEffort::XHigh];
    let r = next_reasoning_effort(&choices, Some(&ReasoningEffort::Medium), ReasoningShortcutDirection::Raise);
    assert!(matches!(r, Some(ReasoningEffort::High)), "{r:?}");
}

#[test]
fn next_reasoning_effort_lowers_from_default_anchor() {
    let choices = vec![ReasoningEffort::Low, ReasoningEffort::Medium, ReasoningEffort::High];
    let r = next_reasoning_effort(&choices, Some(&ReasoningEffort::Medium), ReasoningShortcutDirection::Lower);
    assert!(matches!(r, Some(ReasoningEffort::Low)), "{r:?}");
}

#[test]
fn next_reasoning_effort_does_not_infer_position_for_unsupported_current() {
    let choices = vec![ReasoningEffort::Low, ReasoningEffort::High];
    let up = next_reasoning_effort(&choices, Some(&ReasoningEffort::Medium), ReasoningShortcutDirection::Raise);
    let down = next_reasoning_effort(&choices, Some(&ReasoningEffort::Medium), ReasoningShortcutDirection::Lower);
    assert!(up.is_none() && down.is_none(), "{up:?} {down:?}");
}

#[test]
fn next_reasoning_effort_uses_advertised_order_for_custom_levels() {
    let choices = vec![ReasoningEffort::High, ReasoningEffort::Low, ReasoningEffort::Custom("future".to_string())];
    let up = next_reasoning_effort(&choices, Some(&ReasoningEffort::High), ReasoningShortcutDirection::Raise);
    let down = next_reasoning_effort(
        &choices,
        Some(&ReasoningEffort::Custom("future".to_string())),
        ReasoningShortcutDirection::Lower,
    );
    assert!(matches!(up, Some(ReasoningEffort::Low)), "{up:?}");
    assert!(matches!(down, Some(ReasoningEffort::Low)), "{down:?}");
}

#[test]
fn next_reasoning_effort_clamps_at_bounds() {
    let choices = vec![ReasoningEffort::Low, ReasoningEffort::Medium, ReasoningEffort::High];
    assert!(next_reasoning_effort(&choices, Some(&ReasoningEffort::Low), ReasoningShortcutDirection::Lower).is_none());
    assert!(next_reasoning_effort(&choices, Some(&ReasoningEffort::High), ReasoningShortcutDirection::Raise).is_none());
}

#[test]
fn next_reasoning_effort_single_option_is_noop() {
    let choices = vec![ReasoningEffort::High];
    assert!(next_reasoning_effort(&choices, Some(&ReasoningEffort::High), ReasoningShortcutDirection::Raise).is_none());
    assert!(next_reasoning_effort(&choices, Some(&ReasoningEffort::High), ReasoningShortcutDirection::Lower).is_none());
}

#[test]
fn raising_then_lowering_returns_to_start() {
    let choices = vec![ReasoningEffort::Low, ReasoningEffort::Medium, ReasoningEffort::High];
    let up = next_reasoning_effort(&choices, Some(&ReasoningEffort::Low), ReasoningShortcutDirection::Raise).unwrap();
    let back = next_reasoning_effort(&choices, Some(&up), ReasoningShortcutDirection::Lower);
    assert!(matches!(back, Some(ReasoningEffort::Low)), "{back:?}");
}

fn key() -> KeyFacts {
    KeyFacts {
        is_press: true,
        ctrl_c: false,
        ctrl_d: false,
        ctrl_r: false,
        ctrl_u: false,
        paste_image: false,
        copy_response: false,
        edit_queued: false,
        interrupt_turn: false,
        esc: false,
        back_tab: false,
    }
}

fn chat() -> ChatFacts {
    ChatFacts {
        active_view: false,
        queued_follow_ups: false,
        no_modal_or_popup: true,
        review_mode: false,
        pending_steers: false,
        rejected_steers: false,
        task_running: false,
        vim_insert_escape: false,
        plan_nudge_shown: false,
        collaboration_modes: true,
        blocks_direct_input: false,
    }
}

#[test]
fn open_view_takes_keys_but_ctrl_c() {
    let mut c = chat();
    c.active_view = true;
    assert_eq!(route_key_event(KeyStage::Start, key(), c).action, KeyAction::ToActiveView);
    let mut k = key();
    k.ctrl_c = true;
    assert_eq!(route_key_event(KeyStage::Start, k, c).action, KeyAction::TryReasoningShortcut);
    assert_eq!(route_key_event(KeyStage::AfterReasoningShortcut, k, c).action, KeyAction::CtrlC);
}

#[test]
fn unclaimed_press_clears_hint_and_reaches_composer() {
    let step = route_key_event(KeyStage::AfterReasoningShortcut, key(), chat());
    assert!(step.clear_quit_hint);
    assert_eq!(step.action, KeyAction::TryPluginsPopup);
    assert_eq!(route_key_event(KeyStage::AfterPluginsPopup, key(), chat()).action, KeyAction::ToComposer);
}

#[test]
fn interrupt_with_pending_steers_during_review_warns() {
    let mut k = key();
    k.interrupt_turn = true;
    let mut c = chat();
    c.review_mode = true;
    c.pending_steers = true;
    c.task_running = true;
    assert_eq!(route_key_event(KeyStage::AfterReasoningShortcut, k, c).action, KeyAction::WarnReviewSteer);
    c.review_mode = false;
    assert_eq!(route_key_event(KeyStage::AfterReasoningShortcut, k, c).action, KeyAction::InterruptForSteers);
}

#[test]
fn back_tab_cycles_mode_unless_input_is_parent_owned() {
    let mut k = key();
    k.back_tab = true;
    let mut c = chat();
    assert_eq!(route_key_event(KeyStage::AfterPluginsPopup, k, c).action, KeyAction::CycleCollaborationMode);
    c.blocks_direct_input = true;
    assert_eq!(route_key_event(KeyStage::AfterPluginsPopup, k, c).action, KeyAction::RejectParentOwnedInput);
    c.task_running = true;
    assert_eq!(route_key_event(KeyStage::AfterPluginsPopup, k, c).action, KeyAction::ToComposer);
}

#[test]
fn ctrl_d_not_taken_clears_hint_before_queue_checks() {
    let mut k = key();
    k.ctrl_d = true;
    assert_eq!(route_key_event(KeyStage::AfterReasoningShortcut, k, chat()).action, KeyAction::TryCtrlD);
    let step = route_key_event(KeyStage::AfterCtrlD, k, chat());
    assert!(step.clear_quit_hint);
    assert_eq!(step.action, KeyAction::TryPluginsPopup);
}

#[test]
fn first_bold_run_is_extracted() {
    assert_eq!(extract_first_bold("Thinking **Plan the work** now"), Some("Plan the work".to_string()));
    assert_eq!(extract_first_bold("**  padded  ** and **second**"), Some("padded".to_string()));
    assert_eq!(extract_first_bold("no bold here"), None);
    assert_eq!(extract_first_bold("**unterminated"), None);
    assert_eq!(extract_first_bold("****"), None);
    assert_eq!(extract_first_bold("**   **"), None);
}

#[test]
fn thread_names_are_trimmed() {
    assert_eq!(normalize_thread_name("  My thread \n"), Some("My thread".to_string()));
    assert_eq!(normalize_thread_name("   "), None);
    assert_eq!(normalize_thread_name(""), None);
}

#[test]
fn plan_keyword_must_stand_alone() {
    assert!(contains_plan_keyword("let's plan this"));
    assert!(contains_plan_keyword("PLAN"));
    assert!(contains_plan_keyword("/plan now"));
    assert!(contains_plan_keyword("make a Plan."));
    assert!(!contains_plan_keyword("planning ahead"));
    assert!(!contains_plan_keyword("airplane"));
    assert!(!contains_plan_keyword("plan_b"));
    assert!(!contains_plan_keyword(""));
}

#[test]
fn queued_message_binding_depends_on_terminal() {
    let shift_left = KeyBinding { key: KeyName::Left, shift: true, alt: false, ctrl: false };
    let alt_up = KeyBinding { key: KeyName::Up, shift: false, alt: true, ctrl: false };
    let apple = TerminalInfo { name: TerminalName::AppleTerminal, tmux: false };
    let kitty = TerminalInfo { name: TerminalName::Kitty, tmux: false };
    let kitty_tmux = TerminalInfo { name: TerminalName::Kitty, tmux: true };
    assert_eq!(queued_message_edit_binding_for_terminal(apple), shift_left);
    assert_eq!(queued_message_edit_binding_for_terminal(kitty), alt_up);
    assert_eq!(queued_message_edit_binding_for_terminal(kitty_tmux), shift_left);
    assert_eq!(queued_message_edit_hint_binding(&[shift_left, alt_up], kitty), Some(alt_up));
    assert_eq!(queued_message_edit_hint_binding(&[shift_left], kitty), Some(shift_left));
    assert_eq!(queued_message_edit_hint_binding(&[], kitty), None);
}

use reflect_tui::chat_helpers::is_safety_access_block_message;
use reflect_tui::debug_config::format_network_unix_socket_permission;

#[test]
fn safety_blocks_are_recognized_by_prefix() {
    assert!(is_safety_access_block_message(
        "Invalid prompt: we've limited access to this content for safety reasons. More text"
    ));
    assert!(is_safety_access_block_message("This content was flagged for possible biological risk."));
    assert!(!is_safety_access_block_message("Something else"));
}

#[test]
fn bound_messages_name_the_limit() {
    assert_eq!(
        ReasoningShortcutDirection::Raise.bound_message("extra high"),
        "Reasoning is already at the highest level (extra high)."
    );
    assert_eq!(ReasoningShortcutDirection::Lower.bound_message("low"), "Reasoning is already at the lowest level (low).");
    assert_eq!(format_network_unix_socket_permission("allow"), "allow");
    assert_eq!(format_network_unix_socket_permission("deny"), "deny");
    assert_eq!(format_network_unix_socket_permission("other"), "unknown");
}

use reflect_tui::chat_helpers::{personality_from_setting, should_show_plan_mode_nudge, Personality, PlanNudgeFacts};

fn nudge_facts() -> PlanNudgeFacts {
    PlanNudgeFacts {
        collaboration_modes: true,
        plan_mode_available: true,
        in_plan_mode: false,
        composer_input_enabled: true,
        task_running: false,
        no_modal_or_popup: true,
        dismissed_for_scope: false,
    }
}

#[test]
fn plan_nudge_shows_for_plan_drafts_only() {
    assert!(should_show_plan_mode_nudge("let's plan the migration", nudge_facts()));
    assert!(!should_show_plan_mode_nudge("  /plan the migration", nudge_facts()));
    assert!(!should_show_plan_mode_nudge("!plan", nudge_facts()));
    assert!(!should_show_plan_mode_nudge("planning ahead", nudge_facts()));
    let mut f = nudge_facts();
    f.dismissed_for_scope = true;
    assert!(!should_show_plan_mode_nudge("plan it", f));
    let mut f = nudge_facts();
    f.in_plan_mode = true;
    assert!(!should_show_plan_mode_nudge("plan it", f));
}

#[test]
fn personalities_are_read_in_any_case() {
    assert_eq!(personality_from_setting("Friendly"), Personality::Friendly);
    assert_eq!(personality_from_setting("PRAGMATIC"), Personality::Pragmatic);
    assert_eq!(personality_from_setting("grumpy"), Personality::NoPersonality);
}
