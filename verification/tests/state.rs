use reflect_tui::live_output::LiveCommandOutput;
use reflect_tui::mcp_startup::{update_mcp_startup_status, McpStartupState, McpStartupStatus};
use reflect_tui::sorted_map::{KeyedMap, StringMap};
use reflect_tui::status::{
    run_state_status_text, terminal_title_spinner_frame_at, terminal_title_task_progress, trim_text,
    truncate_terminal_title_part, TerminalTitleStatusKind,
};
use reflect_tui::text::{decimal_string, lines_of, str_less};

#[test]
fn line_count_does_not_depend_on_chunking() {
    let mut whole = LiveCommandOutput::new();
    whole.push_str("a\nb\nc");
    let mut pieces = LiveCommandOutput::new();
    pieces.push_str("a\n");
    pieces.push_str("b");
    pieces.push_str("\nc");
    assert_eq!(whole.total_lines(), 3);
    assert_eq!(pieces.total_lines(), 3);
    assert_eq!(whole.lines(), pieces.lines());
}

#[test]
fn single_server_startup_round() {
    let mut state = McpStartupState::new();
    state.set_mcp_startup_expected_servers(vec!["alpha".to_string()]);
    let started = update_mcp_startup_status(&mut state, "alpha".to_string(), McpStartupStatus::Starting, true);
    assert!(!started.finished);
    assert_eq!(started.header.as_deref(), Some("Booting MCP server: alpha"));
    let ready = update_mcp_startup_status(&mut state, "alpha".to_string(), McpStartupStatus::Ready, true);
    assert!(ready.finished);
    assert!(ready.warnings.is_empty());
}

#[test]
fn failed_server_is_reported_when_round_ends() {
    let mut state = McpStartupState::new();
    state.set_mcp_startup_expected_servers(vec!["alpha".to_string()]);
    update_mcp_startup_status(&mut state, "alpha".to_string(), McpStartupStatus::Starting, true);
    let failed = update_mcp_startup_status(
        &mut state,
        "alpha".to_string(),
        McpStartupStatus::Failed { error: "boom".to_string() },
        true,
    );
    assert!(failed.finished);
    assert!(failed.warnings.iter().any(|w| w == "MCP startup incomplete (failed: alpha)"), "{:?}", failed.warnings);
}

#[test]
fn status_texts() {
    assert_eq!(terminal_title_task_progress(Some((2, 5))), Some("Tasks 2/5".to_string()));
    assert_eq!(terminal_title_task_progress(None), None);
    let a = terminal_title_spinner_frame_at(0);
    assert!(!a.is_empty());
    assert_eq!(truncate_terminal_title_part("abcdef".to_string(), 10), "abcdef");
    assert_eq!(trim_text("  x y \t"), "x y");
    let _ = run_state_status_text(false, TerminalTitleStatusKind::Working, true);
}

#[test]
fn text_helpers() {
    assert_eq!(decimal_string(0), "0");
    assert_eq!(decimal_string(1234), "1234");
    assert_eq!(lines_of("a\r\nb\n\nc"), vec!["a".to_string(), "b".to_string(), String::new(), "c".to_string()]);
    assert!(str_less("abc", "abd"));
    assert!(str_less("ab", "abc"));
    assert!(!str_less("b", "a"));
}

#[test]
fn maps_keep_keys_in_order() {
    let mut m = StringMap::new();
    m.insert("b".to_string(), "2".to_string());
    m.insert("a".to_string(), "1".to_string());
    m.insert("b".to_string(), "3".to_string());
    assert_eq!(m.len(), 2);
    assert_eq!(m.entries()[0], ("a".to_string(), "1".to_string()));
    assert_eq!(m.entries()[1], ("b".to_string(), "3".to_string()));
    let mut k: KeyedMap<u32> = KeyedMap::new();
    k.insert("x".to_string(), 1);
    k.insert("x".to_string(), 2);
    assert_eq!(k.get("x"), Some(&2));
    assert_eq!(k.len(), 1);
}

use reflect_tui::replay::{
    plan_thread_replay, reasoning_replay_steps, redraw_after_item, ReasoningReplayStep, ReplayKind,
    ThreadItemRenderSource, TurnStatus, TurnView,
};
use reflect_tui::status::{
    five_hour_status_window, non_weekly_primary_window, parse_items_with_invalids, weekly_status_window,
    RateLimitSnapshotDisplay, RateLimitWindowDisplay, StatusLineItem, StatusSurfaceSelections, TerminalTitleItem,
};

fn window(label: Option<&str>, used: u8) -> RateLimitWindowDisplay {
    RateLimitWindowDisplay { duration_label: label.map(|l| l.to_string()), used_percent: used }
}

#[test]
fn rate_limit_windows_are_found_by_label() {
    let s = RateLimitSnapshotDisplay { primary: Some(window(Some("weekly"), 10)), secondary: Some(window(Some("5h"), 20)) };
    let (w, secondary) = five_hour_status_window(&s).unwrap();
    assert!(secondary);
    assert_eq!(w.used_percent, 20);
    let (w, secondary) = weekly_status_window(&s).unwrap();
    assert!(!secondary);
    assert_eq!(w.used_percent, 10);
    assert!(non_weekly_primary_window(&s).is_none());
    let only_weekly = RateLimitSnapshotDisplay { primary: Some(window(Some("weekly"), 1)), secondary: None };
    assert!(five_hour_status_window(&only_weekly).is_none());
}

#[test]
fn selections_tell_which_sources_are_needed() {
    let sel = StatusSurfaceSelections {
        status_line_items: vec![StatusLineItem::BranchChanges],
        invalid_status_line_items: Vec::new(),
        terminal_title_items: vec![TerminalTitleItem::GitBranch],
        invalid_terminal_title_items: Vec::new(),
    };
    assert!(sel.uses_git_branch());
    assert!(sel.uses_git_summary());
    assert!(!sel.uses_workspace_headline());
}

#[test]
fn invalid_ids_are_listed_once_each() {
    let ids = vec!["a".to_string(), "bad".to_string(), "b".to_string(), "bad".to_string(), "worse".to_string()];
    let (items, invalid) = parse_items_with_invalids(ids, |id: &String| match id.as_str() {
        "a" => Some(1u8),
        "b" => Some(2u8),
        _ => None,
    });
    assert_eq!(items, vec![1, 2]);
    assert_eq!(invalid, vec!["\"bad\"".to_string(), "\"worse\"".to_string()]);
}

#[test]
fn replay_hides_user_messages_of_nested_reviews() {
    let turns = vec![
        TurnView { status: TurnStatus::Completed, item_is_user_message: vec![true, false] },
        TurnView { status: TurnStatus::InProgress, item_is_user_message: vec![true, false, false] },
    ];
    let plans = plan_thread_replay(&turns, &vec![true]);
    assert_eq!(plans[0].items, vec![0, 1]);
    assert_eq!(plans[0].completed_as, Some(TurnStatus::Completed));
    assert!(!plans[0].start_task);
    assert_eq!(plans[1].items, vec![1, 2]);
    assert!(plans[1].start_task);
    assert_eq!(plans[1].completed_as, Some(TurnStatus::Completed));
    let live = plan_thread_replay(&vec![TurnView { status: TurnStatus::InProgress, item_is_user_message: vec![true] }], &vec![]);
    assert_eq!(live[0].completed_as, None);
}

#[test]
fn reasoning_replay_inserts_section_breaks() {
    let summary = vec!["one".to_string(), "two".to_string()];
    let content = vec!["raw".to_string()];
    let steps = reasoning_replay_steps(&summary, &content, true, true);
    let texts: Vec<String> = steps
        .iter()
        .map(|s| match s {
            ReasoningReplayStep::Delta(t) => t.clone(),
            ReasoningReplayStep::SectionBreak => "|".to_string(),
            ReasoningReplayStep::Final => "!".to_string(),
        })
        .collect();
    assert_eq!(texts, vec!["one", "|", "two", "|", "raw", "!"]);
    assert_eq!(reasoning_replay_steps(&summary, &content, false, false).len(), 1);
    assert!(redraw_after_item(ThreadItemRenderSource::Replay(ReplayKind::ThreadSnapshot), ""));
    assert!(!redraw_after_item(ThreadItemRenderSource::Replay(ReplayKind::ThreadSnapshot), "turn-1"));
    assert!(!redraw_after_item(ThreadItemRenderSource::Live, ""));
    assert!(ThreadItemRenderSource::Replay(ReplayKind::ResumeInitialMessages).is_replay());
    assert_eq!(ThreadItemRenderSource::Live.replay_kind(), None);
}

#[test]
fn truncated_preview_keeps_first_and_last_lines() {
    let mut live = LiveCommandOutput::new();
    let body = "x".repeat(20_000);
    for i in 0..120 {
        live.push_str(&format!("{i:03}{body}\n"));
    }
    live.push_str("tail in progress");
    let lines = live.lines();
    assert_eq!(live.total_lines(), 121);
    assert_eq!(lines.len(), 101);
    assert!(lines[0].starts_with("000x"));
    assert!(lines[49].starts_with("049x"));
    assert!(lines[50].starts_with("070x"));
    assert!(lines[99].starts_with("119x"));
    assert!(lines[99].contains("bytes omitted"));
    assert_eq!(lines[100], "tail in progress");
}
