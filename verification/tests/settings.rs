use reflect_tui::reasoning::{
    reasoning_shortcut_outcome, status_reasoning_effort, ModelPresetView, ReasoningEffort,
    ReasoningShortcutDirection, ReasoningShortcutState, ShortcutOutcome,
};
use reflect_tui::replay::{
    thread_item_action, ReplayKind, ThreadItemAction, ThreadItemKind, ThreadItemRenderSource,
};
use reflect_tui::workspace_roots::retarget_workspace_roots;

#[test]
fn replayed_reasoning_shows_raw_content_only_when_enabled() {
    let kind = ThreadItemKind::Reasoning { summary_parts: 2, content_parts: 3 };
    let replay = ThreadItemRenderSource::Replay(ReplayKind::ResumeInitialMessages);
    assert_eq!(
        thread_item_action(kind, replay, true),
        ThreadItemAction::FinishReasoning { summary_parts: 2, content_parts: 3 }
    );
    assert_eq!(
        thread_item_action(kind, replay, false),
        ThreadItemAction::FinishReasoning { summary_parts: 2, content_parts: 0 }
    );
    assert_eq!(
        thread_item_action(kind, ThreadItemRenderSource::Live, true),
        ThreadItemAction::FinishReasoning { summary_parts: 0, content_parts: 0 }
    );
}

#[test]
fn thread_items_dispatch_by_kind_and_state() {
    let live = ThreadItemRenderSource::Live;
    let replay = ThreadItemRenderSource::Replay(ReplayKind::ThreadSnapshot);
    assert_eq!(
        thread_item_action(ThreadItemKind::FileChange { in_progress: true }, live, false),
        ThreadItemAction::Nothing
    );
    assert_eq!(
        thread_item_action(ThreadItemKind::FileChange { in_progress: false }, live, false),
        ThreadItemAction::CompleteFileChange
    );
    assert_eq!(
        thread_item_action(ThreadItemKind::CommandExecution { in_progress: true }, live, false),
        ThreadItemAction::StartCommand
    );
    assert_eq!(
        thread_item_action(ThreadItemKind::EnteredReviewMode, live, false),
        ThreadItemAction::Nothing
    );
    assert_eq!(
        thread_item_action(ThreadItemKind::EnteredReviewMode, replay, false),
        ThreadItemAction::EnterReviewMode
    );
    assert_eq!(
        thread_item_action(ThreadItemKind::UserMessage, replay, false),
        ThreadItemAction::CommitUserMessage { from_replay: true }
    );
    assert_eq!(
        thread_item_action(ThreadItemKind::ContextCompaction, live, false),
        ThreadItemAction::NoteContextCompacted
    );
}

#[test]
fn status_effort_falls_back_in_order() {
    assert!(matches!(
        status_reasoning_effort(None, Some(ReasoningEffort::Low), Some(ReasoningEffort::High)),
        Some(ReasoningEffort::Low)
    ));
    assert!(matches!(
        status_reasoning_effort(Some(ReasoningEffort::Medium), None, Some(ReasoningEffort::High)),
        Some(ReasoningEffort::Medium)
    ));
    assert!(matches!(status_reasoning_effort(None, None, Some(ReasoningEffort::High)), Some(ReasoningEffort::High)));
    assert!(status_reasoning_effort(None, None, None).is_none());
}

#[test]
fn workspace_roots_follow_the_working_directory() {
    let roots = vec!["/old".to_string(), "/a".to_string(), "/new".to_string(), "/a".to_string()];
    assert_eq!(
        retarget_workspace_roots(&roots, "/old", "/new"),
        Some(vec!["/new".to_string(), "/a".to_string()])
    );
    assert_eq!(retarget_workspace_roots(&roots, "/elsewhere", "/new"), None);
}

#[test]
fn raising_into_advanced_efforts_lists_them() {
    let state = ReasoningShortcutState {
        no_modal_or_popup_active: true,
        blocks_direct_input: false,
        session_configured: true,
        preset: Some(ModelPresetView {
            supported: vec![ReasoningEffort::Ultra, ReasoningEffort::High, ReasoningEffort::Max],
            default: ReasoningEffort::High,
        }),
        effective_effort: Some(ReasoningEffort::High),
        plan_mode_active: false,
    };
    match reasoning_shortcut_outcome(&state, ReasoningShortcutDirection::Raise) {
        ShortcutOutcome::NeedsAdvancedPicker(list) => {
            assert_eq!(list.len(), 2);
            assert!(matches!(list[0], ReasoningEffort::Max));
            assert!(matches!(list[1], ReasoningEffort::Ultra));
        }
        other => panic!("unexpected outcome: {other:?}"),
    }
}
