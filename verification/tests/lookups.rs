use reflect_tui::status_lookups::{GitLookup, WorkspaceHeadlineFetchResult, WorkspaceHeadlineState};

#[test]
fn git_lookup_runs_once_per_directory() {
    let mut l: GitLookup<String> = GitLookup::new();
    assert!(l.sync_for_selection(true, "/repo", true));
    assert!(l.pending);
    // A second refresh while the lookup runs starts none.
    assert!(!l.sync_for_selection(true, "/repo", true));
    assert!(l.finish("/repo", Some("main".to_string())));
    assert_eq!(l.value.as_deref(), Some("main"));
    assert!(l.lookup_complete);
    assert!(!l.pending);
    // Complete: nothing more to start for this directory.
    assert!(!l.sync_for_selection(true, "/repo", true));
    assert_eq!(l.value.as_deref(), Some("main"));
}

#[test]
fn git_lookup_drops_results_for_another_directory() {
    let mut l: GitLookup<String> = GitLookup::new();
    l.sync_cwd("/a");
    assert!(l.request(true));
    l.sync_cwd("/b");
    assert!(!l.pending);
    assert!(l.value.is_none());
    assert!(l.request(true));
    assert!(!l.finish("/a", Some("old".to_string())));
    assert!(l.value.is_none());
    assert!(!l.pending);
    assert!(!l.lookup_complete);
}

#[test]
fn git_lookup_without_runner_completes_empty() {
    let mut l: GitLookup<String> = GitLookup::new();
    assert!(!l.sync_for_selection(true, "/repo", false));
    assert!(l.lookup_complete);
    assert!(l.value.is_none());
    assert!(!l.sync_for_selection(false, "/repo", true));
    assert!(!l.lookup_complete);
    assert_eq!(l.cwd.as_deref(), Some("/repo"));
}

#[test]
fn workspace_headline_is_fetched_after_the_interval() {
    let mut s = WorkspaceHeadlineState::new();
    assert!(!s.status_line_workspace_headline_should_fetch(0, false, 1000));
    let id = s.request_status_line_workspace_headline_if_due(0, true, 1000).expect("due");
    assert_eq!(id, 0);
    assert!(s.request_status_line_workspace_headline_if_due(5000, true, 1000).is_none());
    assert_eq!(
        s.set_status_line_workspace_headline(
            id,
            Ok(WorkspaceHeadlineFetchResult::Available(Some("Ship it".to_string()))),
            true
        ),
        Some(true)
    );
    assert_eq!(s.headline.as_deref(), Some("Ship it"));
    assert!(!s.status_line_workspace_headline_should_fetch(999, true, 1000));
    assert!(s.status_line_workspace_headline_should_fetch(1000, true, 1000));
    // A clock that went back counts as no time.
    assert!(!s.status_line_workspace_headline_should_fetch(0, true, 1));
    assert_eq!(s.request_status_line_workspace_headline_if_due(1000, true, 1000), Some(1));
}

#[test]
fn workspace_headline_ignores_stale_responses_and_disables() {
    let mut s = WorkspaceHeadlineState::new();
    let id = s.request_status_line_workspace_headline_if_due(0, true, 10).expect("due");
    assert_eq!(s.set_status_line_workspace_headline(id + 1, Err("late".to_string()), true), None);
    assert_eq!(s.pending_request_id, Some(id));
    assert_eq!(s.set_status_line_workspace_headline(id, Ok(WorkspaceHeadlineFetchResult::FeatureDisabled), true), Some(false));
    assert!(s.messages_disabled);
    assert!(s.headline.is_none());
    assert!(!s.status_line_workspace_headline_should_fetch(100, true, 10));
    s.clear();
    assert!(!s.messages_disabled);
    assert!(s.status_line_workspace_headline_should_fetch(100, true, 10));
}

#[test]
fn workspace_headline_error_keeps_the_old_headline() {
    let mut s = WorkspaceHeadlineState::new();
    s.headline = Some("old".to_string());
    let id = s.request_status_line_workspace_headline_if_due(0, true, 10).expect("due");
    assert_eq!(s.set_status_line_workspace_headline(id, Err("offline".to_string()), false), Some(false));
    assert_eq!(s.headline.as_deref(), Some("old"));
    assert!(s.pending_request_id.is_none());
}
