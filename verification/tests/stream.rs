use reflect_tui::stream_events::{
    agent_message_completion, agent_message_text, commit_tick_followups, defer_lifecycle_event,
    plan_item_completion, status_restore_due, stream_start_separator, MessagePhase, PlanHistoryStep,
    PlanStreamEnd,
};

#[test]
fn agent_message_text_joins_contents() {
    assert_eq!(agent_message_text(&vec!["Hello, ".to_string(), "world".to_string()]), "Hello, world");
    assert_eq!(agent_message_text(&vec![]), "");
}

#[test]
fn final_answers_are_recorded_and_commentary_restores_status() {
    let c = agent_message_completion("answer".to_string(), Some(MessagePhase::FinalAnswer), false);
    assert_eq!(c.finalize_with.as_deref(), Some("answer"));
    assert!(c.record_markdown);
    assert!(!c.restore_status);
    let c = agent_message_completion("note".to_string(), Some(MessagePhase::Commentary), false);
    assert!(!c.record_markdown);
    assert!(c.restore_status);
    let c = agent_message_completion(String::new(), None, true);
    assert!(c.finalize_with.is_none());
    assert!(!c.record_markdown);
    assert!(c.restore_status);
}

#[test]
fn plan_item_uses_streamed_text_when_item_is_blank() {
    let c = plan_item_completion("   ".to_string(), "  1. step\n", None);
    assert_eq!(c.plan_text, "1. step");
    assert!(c.record);
    assert_eq!(c.history, PlanHistoryStep::ProposedPlan);
    assert!(!c.restore_status);
    let c = plan_item_completion(" final plan ".to_string(), "streamed", None);
    assert_eq!(c.plan_text, " final plan ");
}

#[test]
fn plan_item_prefers_the_streamed_cell() {
    let end = PlanStreamEnd { had_live_tail: false, produced_cell: true, produced_source: true };
    let c = plan_item_completion("plan".to_string(), "", Some(end));
    assert_eq!(c.history, PlanHistoryStep::StreamedCell { consolidate: true });
    assert!(c.restore_status);
    let live = PlanStreamEnd { had_live_tail: true, ..end };
    let c = plan_item_completion("plan".to_string(), "", Some(live));
    assert_eq!(c.history, PlanHistoryStep::ProposedPlan);
    let c = plan_item_completion(String::new(), "", Some(live));
    assert_eq!(c.history, PlanHistoryStep::Consolidate);
    assert!(!c.record);
    let c = plan_item_completion(String::new(), "", None);
    assert_eq!(c.history, PlanHistoryStep::Nothing);
}

#[test]
fn stream_decisions() {
    assert_eq!(stream_start_separator(true, true), (true, false));
    assert_eq!(stream_start_separator(true, false), (false, false));
    assert!(status_restore_due(true, true, None, Some(0)));
    assert!(!status_restore_due(true, true, Some(2), None));
    assert!(!status_restore_due(true, false, None, None));
    assert_eq!(commit_tick_followups(false, true, true), (true, true));
    assert_eq!(commit_tick_followups(false, false, true), (false, false));
    assert!(defer_lifecycle_event(false, true));
    assert!(!defer_lifecycle_event(false, false));
}
