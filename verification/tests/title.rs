use reflect_tui::title_activity::{
    action_required_terminal_title_prefix_at, terminal_title_uses_activity, TitleActivityFacts,
};

fn facts() -> TitleActivityFacts {
    TitleActivityFacts {
        animations: true,
        requires_action: false,
        uses_activity: true,
        spinner_selected: true,
        mcp_starting: false,
        task_running: true,
    }
}

#[test]
fn title_uses_activity_by_default_or_when_listed() {
    assert!(terminal_title_uses_activity(&None));
    assert!(terminal_title_uses_activity(&Some(vec!["project".to_string(), "spinner".to_string()])));
    assert!(terminal_title_uses_activity(&Some(vec!["activity".to_string()])));
    assert!(!terminal_title_uses_activity(&Some(vec!["project".to_string(), "status".to_string()])));
    assert!(!terminal_title_uses_activity(&Some(vec![])));
}

#[test]
fn spinner_turns_while_work_runs() {
    let f = facts();
    assert!(f.terminal_title_has_active_progress());
    assert!(f.should_animate_terminal_title_spinner());
    assert!(!f.should_animate_terminal_title_action_required());
    assert_eq!(f.terminal_title_spinner_text_at(0).as_deref(), Some("⠋"));
    assert_eq!(f.terminal_title_spinner_text_at(250).as_deref(), Some("⠹"));
    assert_eq!(f.terminal_title_animation_interval_ms(), Some(100));
    let idle = TitleActivityFacts { task_running: false, ..f };
    assert!(idle.terminal_title_spinner_text_at(0).is_none());
    assert_eq!(idle.terminal_title_animation_interval_ms(), None);
    let still = TitleActivityFacts { animations: false, ..f };
    assert!(still.terminal_title_spinner_text_at(0).is_none());
    assert!(!still.should_animate_terminal_title_spinner());
}

#[test]
fn action_required_marker_replaces_the_spinner() {
    let f = TitleActivityFacts { requires_action: true, ..facts() };
    assert!(f.terminal_title_shows_action_required());
    assert!(!f.terminal_title_has_active_progress());
    assert!(!f.should_animate_terminal_title_spinner());
    assert!(f.should_animate_terminal_title_action_required());
    assert!(f.terminal_title_spinner_text_at(0).is_none());
    assert_eq!(f.terminal_title_animation_interval_ms(), Some(1000));
}

#[test]
fn action_required_marker_blinks_each_second() {
    assert_eq!(action_required_terminal_title_prefix_at(true, 0), "[ ! ] Action Required");
    assert_eq!(action_required_terminal_title_prefix_at(true, 1500), "[ . ] Action Required");
    assert_eq!(action_required_terminal_title_prefix_at(true, 2000), "[ ! ] Action Required");
    assert_eq!(action_required_terminal_title_prefix_at(false, 1500), "[ ! ] Action Required");
}
