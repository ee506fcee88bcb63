use reflect_tui::status::TerminalTitleStatusKind;
use reflect_tui::token_activity::{token_activity_status_lines, InsertionBarriers, TokenActivityState, TokenActivityTracker};
use reflect_tui::turn_outcome::{
    effective_rate_limit_reached_type, interrupted_turn_message, is_safety_block_error,
    json_fields_report_safety_block, plan_progress, plan_turn_completion, rate_limit_notice,
    requeue_rejected_steer_first, route_non_retry_error, server_overloaded_message,
    should_prompt_plan_implementation, CreditsNudge, ErrorInfoFacts, FinalSeparator, NonRetryErrorRoute,
    PlanPromptFacts, RateLimitErrorKind, RateLimitReachedType, StepStatus, TurnAbortReason,
    TurnCompletionFacts,
};

fn is_loading(card: Option<&TokenActivityState<u32>>) -> bool {
    matches!(card, Some(TokenActivityState::Loading))
}

#[test]
fn usage_card_waits_for_its_own_response() {
    let mut t: TokenActivityTracker<u32> = TokenActivityTracker::new();
    assert!(t.pending_token_activity_output().is_none());
    let id = t.add_token_activity_output();
    assert_eq!(id, 0);
    assert_eq!(t.next_request_id, 1);
    assert!(is_loading(t.pending_token_activity_output()));

    assert!(!t.finish_token_activity_refresh(7, Ok(5)));
    assert!(is_loading(t.pending_token_activity_output()));
    assert!(t.completed.is_none());

    assert!(t.finish_token_activity_refresh(id, Ok(5)));
    assert!(t.refreshing.is_none());
    assert!(matches!(t.pending_token_activity_output(), Some(TokenActivityState::Loaded { response: 5 })));
    // A second response for the same id finds no waiting card.
    assert!(!t.finish_token_activity_refresh(id, Ok(6)));
    assert!(matches!(t.take_completed_token_activity_output(), Some(TokenActivityState::Loaded { response: 5 })));
    assert!(t.take_completed_token_activity_output().is_none());
}

#[test]
fn newer_usage_request_supersedes_the_older_one() {
    let mut t: TokenActivityTracker<u32> = TokenActivityTracker::new();
    let first = t.add_token_activity_output();
    let second = t.add_token_activity_output();
    assert_eq!(second, first + 1);
    assert!(!t.finish_token_activity_refresh(first, Ok(1)));
    assert!(is_loading(t.pending_token_activity_output()));
    assert!(t.finish_token_activity_refresh(second, Err("boom".to_string())));
    assert!(matches!(t.completed, Some(TokenActivityState::Error)));
}

#[test]
fn new_usage_request_drops_the_finished_card() {
    let mut t: TokenActivityTracker<u32> = TokenActivityTracker::new();
    let id = t.add_token_activity_output();
    assert!(t.finish_token_activity_refresh(id, Ok(3)));
    assert!(t.request_pending_usage_output_insertion(false));
    t.add_token_activity_output();
    assert!(t.completed.is_none());
    assert!(!t.request_pending_usage_output_insertion(false));
    assert!(t.request_pending_usage_output_insertion(true));
}

#[test]
fn request_ids_wrap_around() {
    let mut t: TokenActivityTracker<u32> = TokenActivityTracker::new();
    t.next_request_id = u64::MAX;
    assert_eq!(t.add_token_activity_output(), u64::MAX);
    assert_eq!(t.next_request_id, 0);
}

#[test]
fn cleared_usage_cards_ignore_late_responses() {
    let mut t: TokenActivityTracker<u32> = TokenActivityTracker::new();
    let id = t.add_token_activity_output();
    assert!(t.clear_pending_token_activity_refreshes());
    assert!(!t.finish_token_activity_refresh(id, Ok(1)));
    assert!(t.pending_token_activity_output().is_none());
    assert!(!t.clear_pending_token_activity_refreshes());
}

#[test]
fn stream_consolidation_counter_saturates() {
    let mut t: TokenActivityTracker<u32> = TokenActivityTracker::new();
    let idle = InsertionBarriers {
        answer_stream_active: false,
        plan_stream_active: false,
        active_cell: false,
        active_hook_cell: false,
    };
    assert!(!t.usage_history_insertion_blocked(idle));
    t.note_stream_consolidation_completed();
    assert_eq!(t.pending_stream_consolidations, 0);
    t.note_stream_consolidation_queued();
    t.note_stream_consolidation_queued();
    assert!(t.usage_history_insertion_blocked(idle));
    t.note_stream_consolidation_completed();
    assert_eq!(t.pending_stream_consolidations, 1);
    t.note_stream_consolidation_completed();
    assert!(!t.usage_history_insertion_blocked(idle));
    assert!(t.usage_history_insertion_blocked(InsertionBarriers { active_hook_cell: true, ..idle }));
    t.pending_stream_consolidations = usize::MAX;
    t.note_stream_consolidation_queued();
    assert_eq!(t.pending_stream_consolidations, usize::MAX);
}

#[test]
fn usage_card_status_lines() {
    let loading: TokenActivityState<u32> = TokenActivityState::Loading;
    let rows = token_activity_status_lines(&loading).expect("rows");
    assert_eq!(rows.len(), 2);
    assert_eq!(rows[0].spans[0].content, " Token activity");
    assert!(rows[0].spans[0].style.bold);
    assert_eq!(rows[1].spans[0].content, "   Loading...");
    assert!(rows[1].spans[0].style.dim);
    let failed: TokenActivityState<u32> = TokenActivityState::Error;
    let rows = token_activity_status_lines(&failed).expect("rows");
    assert_eq!(rows[1].spans[0].content, "   Token activity unavailable");
    assert!(token_activity_status_lines(&TokenActivityState::Loaded { response: 1u32 }).is_none());
}

#[test]
fn safety_block_errors_are_recognised_in_text_and_json() {
    assert!(is_safety_block_error("Invalid prompt: we've limited access to this content for safety reasons. more"));
    assert!(is_safety_block_error("This content was flagged for possible biological risk."));
    assert!(is_safety_block_error(r#"{"error":{"code":"bio_policy","message":"x"}}"#));
    assert!(is_safety_block_error(
        r#"{"error":{"message":"This content was flagged for possible biological risk. Sorry."}}"#
    ));
    assert!(!is_safety_block_error(r#"{"error":{"code":"other","message":"nope"}}"#));
    assert!(!is_safety_block_error(r#"{"error":{"code":42}}"#));
    assert!(!is_safety_block_error("stream disconnected"));
    assert!(!is_safety_block_error(""));
}

#[test]
fn json_fields_safety_block_by_member() {
    assert!(json_fields_report_safety_block(&Some((Some("bio_policy".to_string()), None))));
    assert!(!json_fields_report_safety_block(&Some((Some("bio_policy2".to_string()), None))));
    assert!(json_fields_report_safety_block(&Some((
        None,
        Some("Invalid prompt: we've limited access to this content for safety reasons.".to_string()),
    ))));
    assert!(!json_fields_report_safety_block(&Some((None, Some("hello".to_string())))));
    assert!(!json_fields_report_safety_block(&None));
}

#[test]
fn non_retry_errors_take_the_first_matching_route() {
    let steer = ErrorInfoFacts { active_turn_not_steerable: true, cyber_policy: false, rate_limit: None };
    assert!(requeue_rejected_steer_first(Some(steer)));
    assert!(!requeue_rejected_steer_first(None));
    assert_eq!(route_non_retry_error(Some(steer), true, "x"), NonRetryErrorRoute::SteerRequeued);
    assert_eq!(route_non_retry_error(Some(steer), false, "x"), NonRetryErrorRoute::Error);
    let cyber = ErrorInfoFacts { active_turn_not_steerable: false, cyber_policy: true, rate_limit: None };
    assert_eq!(
        route_non_retry_error(Some(cyber), false, "This content was flagged for possible biological risk."),
        NonRetryErrorRoute::CyberPolicy
    );
    let overloaded = ErrorInfoFacts {
        active_turn_not_steerable: false,
        cyber_policy: false,
        rate_limit: Some(RateLimitErrorKind::ServerOverloaded),
    };
    assert_eq!(
        route_non_retry_error(Some(overloaded), false, r#"{"error":{"code":"bio_policy"}}"#),
        NonRetryErrorRoute::SafetyBlock
    );
    assert_eq!(route_non_retry_error(Some(overloaded), false, "busy"), NonRetryErrorRoute::ServerOverloaded);
    let usage = ErrorInfoFacts { rate_limit: Some(RateLimitErrorKind::UsageLimit), ..overloaded };
    assert_eq!(
        route_non_retry_error(Some(usage), false, "limit"),
        NonRetryErrorRoute::RateLimit(RateLimitErrorKind::UsageLimit)
    );
    assert_eq!(route_non_retry_error(None, false, "oops"), NonRetryErrorRoute::Error);
}

#[test]
fn usage_limit_errors_turn_depleted_credits_into_reached_limits() {
    assert_eq!(
        effective_rate_limit_reached_type(Some(RateLimitReachedType::WorkspaceOwnerCreditsDepleted), RateLimitErrorKind::UsageLimit),
        Some(RateLimitReachedType::WorkspaceOwnerUsageLimitReached)
    );
    assert_eq!(
        effective_rate_limit_reached_type(Some(RateLimitReachedType::WorkspaceMemberCreditsDepleted), RateLimitErrorKind::UsageLimit),
        Some(RateLimitReachedType::WorkspaceMemberUsageLimitReached)
    );
    assert_eq!(
        effective_rate_limit_reached_type(Some(RateLimitReachedType::WorkspaceOwnerCreditsDepleted), RateLimitErrorKind::Generic),
        Some(RateLimitReachedType::WorkspaceOwnerCreditsDepleted)
    );
    assert_eq!(effective_rate_limit_reached_type(None, RateLimitErrorKind::UsageLimit), None);
    assert_eq!(
        effective_rate_limit_reached_type(Some(RateLimitReachedType::RateLimitReached), RateLimitErrorKind::UsageLimit),
        Some(RateLimitReachedType::RateLimitReached)
    );
}

#[test]
fn rate_limit_notices() {
    let n = rate_limit_notice(Some(RateLimitReachedType::WorkspaceOwnerCreditsDepleted), "m".to_string());
    assert_eq!(
        n.message,
        "You're out of credits. Your workspace is out of credits. Add credits to continue using Reflect."
    );
    assert!(n.nudge.is_none());
    let n = rate_limit_notice(Some(RateLimitReachedType::WorkspaceOwnerUsageLimitReached), "m".to_string());
    assert_eq!(
        n.message,
        "Usage limit reached. You've reached your usage limit. Increase your limits to continue using reflect."
    );
    let n = rate_limit_notice(Some(RateLimitReachedType::WorkspaceMemberCreditsDepleted), "m".to_string());
    assert_eq!(n.message, "m");
    assert_eq!(n.nudge, Some(CreditsNudge::Credits));
    let n = rate_limit_notice(Some(RateLimitReachedType::WorkspaceMemberUsageLimitReached), "m".to_string());
    assert_eq!(n.nudge, Some(CreditsNudge::UsageLimit));
    let n = rate_limit_notice(None, "plain".to_string());
    assert_eq!(n.message, "plain");
    assert!(n.nudge.is_none());
}

#[test]
fn overloaded_and_interrupted_messages() {
    assert_eq!(server_overloaded_message("  \n".to_string()), "Reflect is currently experiencing high load.");
    assert_eq!(server_overloaded_message("try later".to_string()), "try later");
    assert_eq!(interrupted_turn_message(TurnAbortReason::BudgetLimited), "Goal budget reached - the turn was stopped.");
    assert_eq!(
        interrupted_turn_message(TurnAbortReason::Interrupted),
        "Conversation interrupted - tell the model what to do differently. Something went wrong? Hit `/feedback` to report the issue."
    );
}

#[test]
fn plan_progress_counts_completed_steps() {
    assert_eq!(plan_progress(&vec![]), None);
    assert_eq!(
        plan_progress(&vec![StepStatus::Completed, StepStatus::InProgress, StepStatus::Pending, StepStatus::Completed]),
        Some((2, 4))
    );
}

#[test]
fn plan_implementation_prompt_needs_every_condition() {
    let all = PlanPromptFacts {
        collaboration_modes: true,
        queued_follow_ups: false,
        in_plan_mode: true,
        saw_plan_item_this_turn: true,
        no_modal_or_popup: true,
        rate_limit_prompt_pending: false,
    };
    assert!(should_prompt_plan_implementation(all));
    assert!(!should_prompt_plan_implementation(PlanPromptFacts { queued_follow_ups: true, ..all }));
    assert!(!should_prompt_plan_implementation(PlanPromptFacts { in_plan_mode: false, ..all }));
    assert!(!should_prompt_plan_implementation(PlanPromptFacts { rate_limit_prompt_pending: true, ..all }));
}

fn completion_facts() -> TurnCompletionFacts {
    TurnCompletionFacts {
        last_agent_message: Some("done".to_string()),
        saw_copy_source_this_turn: false,
        last_agent_markdown: None,
        from_replay: false,
        had_work_activity: true,
        needs_final_message_separator: true,
        has_runtime_metrics: false,
        duration_ms: Some(12_345),
        status_elapsed_seconds: Some(99),
    }
}

#[test]
fn completed_turn_records_message_and_draws_separator() {
    let p = plan_turn_completion(completion_facts());
    assert_eq!(p.record_markdown.as_deref(), Some("done"));
    assert_eq!(p.notification_response, "done");
    assert_eq!(p.separator, Some(FinalSeparator { elapsed_seconds: Some(12), with_runtime_metrics: false }));
}

#[test]
fn completed_turn_prefers_earlier_copy_source() {
    let p = plan_turn_completion(TurnCompletionFacts {
        last_agent_message: Some(String::new()),
        saw_copy_source_this_turn: true,
        last_agent_markdown: Some("plan".to_string()),
        duration_ms: Some(-5),
        ..completion_facts()
    });
    assert!(p.record_markdown.is_none());
    assert_eq!(p.notification_response, "plan");
    assert_eq!(p.separator, Some(FinalSeparator { elapsed_seconds: Some(99), with_runtime_metrics: false }));
}

#[test]
fn completed_turn_without_work_shows_metrics_only_separator() {
    let p = plan_turn_completion(TurnCompletionFacts {
        last_agent_message: None,
        had_work_activity: false,
        has_runtime_metrics: true,
        ..completion_facts()
    });
    assert_eq!(p.notification_response, "");
    assert_eq!(p.separator, Some(FinalSeparator { elapsed_seconds: None, with_runtime_metrics: true }));
    let replayed = plan_turn_completion(TurnCompletionFacts { from_replay: true, ..completion_facts() });
    assert!(replayed.separator.is_none());
    let quiet = plan_turn_completion(TurnCompletionFacts { had_work_activity: false, ..completion_facts() });
    assert!(quiet.separator.is_none());
}

#[test]
fn status_refreshes_answer_only_their_request() {
    let mut pending: Vec<(u64, &str)> = vec![(1, "a"), (2, "b"), (1, "c"), (3, "d")];
    let answered = reflect_tui::token_activity::take_status_refreshes(&mut pending, 1);
    assert_eq!(answered, vec!["a", "c"]);
    assert_eq!(pending, vec![(2, "b"), (3, "d")]);
    let stale = reflect_tui::token_activity::take_status_refreshes(&mut pending, 9);
    assert!(stale.is_empty());
    assert_eq!(pending, vec![(2, "b"), (3, "d")]);
}

#[test]
fn reasoning_deltas_find_the_section_header() {
    let mut r = reflect_tui::reasoning_stream::ReasoningStream::new();
    assert_eq!(r.on_agent_reasoning_delta("**Plan", false), None);
    assert_eq!(r.on_agent_reasoning_delta("ning** the work", false).as_deref(), Some("Planning"));
    // The header stays once found.
    assert_eq!(r.on_agent_reasoning_delta(" **Other**", false).as_deref(), Some("Planning"));
    // A held header is neither looked for nor returned.
    assert_eq!(r.on_agent_reasoning_delta("!", true), None);
    assert_eq!(r.buffer, "**Planning** the work **Other**!");
    r.on_reasoning_section_break();
    assert!(r.header.is_none());
    assert_eq!(r.summary_parts, vec!["**Planning** the work **Other**!".to_string()]);
    assert!(r.buffer.is_empty());
    assert_eq!(r.on_agent_reasoning_delta("**Next** step", true), None);
    let block = r.on_agent_reasoning_final().expect("block");
    assert_eq!(block, vec!["**Planning** the work **Other**!".to_string(), "**Next** step".to_string()]);
    assert!(r.summary_parts.is_empty());
    assert!(r.on_agent_reasoning_final().is_none());
}

#[test]
fn reasoning_status_header_falls_back_to_working() {
    let mut r = reflect_tui::reasoning_stream::ReasoningStream::new();
    assert!(r.restore_reasoning_status_header(false).is_none());
    let (kind, header) = r.restore_reasoning_status_header(true).expect("working");
    assert_eq!(kind, TerminalTitleStatusKind::Working);
    assert_eq!(header, "Working");
    r.on_agent_reasoning_delta("**Reading files**", true);
    let (kind, header) = r.restore_reasoning_status_header(false).expect("thinking");
    assert_eq!(kind, TerminalTitleStatusKind::Thinking);
    assert_eq!(header, "Reading files");
}
