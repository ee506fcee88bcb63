//! How a turn ends: which path a failed turn's error takes, the notice for a
//! reached rate limit, the plan progress of a turn, and what a completed
//! turn records and shows.

use vstd::prelude::*;
use crate::chat_helpers::{bio_safety_prefix, is_safety_access_block_message, legacy_safety_prefix};
use crate::status::{trim_text, trimmed};
use crate::text::{starts_with, str_eq};

verus! {

/// Whether an error message starts like a safety block.
pub open spec fn safety_message(message: Seq<char>) -> bool {
    starts_with(message, legacy_safety_prefix()) || starts_with(message, bio_safety_prefix())
}

/// What `serde_json` reads from a message: `None` where the message is not
/// JSON; otherwise the members `error.code` and `error.message`, each where
/// it is a string.
pub uninterp spec fn json_error_fields(text: Seq<char>) -> Option<(Option<Seq<char>>, Option<Seq<char>>)>;

/// Parses `text` with `serde_json::from_str::<serde_json::Value>` and picks
/// `value["error"]["code"]` and `value["error"]["message"]` with
/// `Value::as_str`. The contract only names the result: `None` for text that
/// does not parse, else the two members where they are strings.
#[verifier::external_body]
fn parse_json_error_fields(text: &str) -> (r: Option<(Option<String>, Option<String>)>)
    ensures
        r.deep_view() == json_error_fields(text@),
{
    match serde_json::from_str::<serde_json::Value>(text) {
        Ok(value) => Some((
            value["error"]["code"].as_str().map(String::from),
            value["error"]["message"].as_str().map(String::from),
        )),
        Err(_) => None,
    }
}

/// Whether the parsed members report a safety block: the code `bio_policy`,
/// or a message that starts like one.
pub open spec fn json_fields_block(fields: Option<(Option<Seq<char>>, Option<Seq<char>>)>) -> bool {
    match fields {
        Some((code, message)) => code == Some("bio_policy"@) || (message matches Some(m) && safety_message(m)),
        None => false,
    }
}

/// Whether an error message reports a safety block, as text or as a JSON
/// error response.
pub open spec fn safety_block(message: Seq<char>) -> bool {
    safety_message(message) || json_fields_block(json_error_fields(message))
}

/// Whether the members read from an error response report a safety block.
pub fn json_fields_report_safety_block(fields: &Option<(Option<String>, Option<String>)>) -> (r: bool)
    ensures
        r == json_fields_block(fields.deep_view()),
{
    proof {
        reveal_strlit("bio_policy");
    }
    match fields {
        Some((code, message)) => {
            let coded = match code {
                Some(c) => str_eq(c.as_str(), "bio_policy"),
                None => false,
            };
            coded || match message {
                Some(m) => is_safety_access_block_message(m.as_str()),
                None => false,
            }
        },
        None => false,
    }
}

/// Whether an error message reports a safety block: it starts like one, or
/// it is a JSON error response with the code `bio_policy` or such a message.
pub fn is_safety_block_error(message: &str) -> (r: bool)
    ensures
        r == safety_block(message@),
{
    if is_safety_access_block_message(message) {
        return true;
    }
    let fields = parse_json_error_fields(message);
    json_fields_report_safety_block(&fields)
}

/// The kind of limit a workspace reached.
#[derive(Clone, Copy, Debug, PartialEq, Eq, Structural)]
pub enum RateLimitReachedType {
    RateLimitReached,
    WorkspaceOwnerCreditsDepleted,
    WorkspaceOwnerUsageLimitReached,
    WorkspaceMemberCreditsDepleted,
    WorkspaceMemberUsageLimitReached,
}

/// The kind of a rate-limit error.
#[derive(Clone, Copy, Debug, PartialEq, Eq, Structural)]
pub enum RateLimitErrorKind {
    ServerOverloaded,
    UsageLimit,
    Generic,
}

/// What a workspace member is nudged to ask the owner for.
#[derive(Clone, Copy, Debug, PartialEq, Eq, Structural)]
pub enum CreditsNudge {
    Credits,
    UsageLimit,
}

/// The limit type a rate-limit error shows: for a usage-limit error, depleted
/// credits count as a reached usage limit.
pub open spec fn effective_reached(stored: Option<RateLimitReachedType>, kind: RateLimitErrorKind) -> Option<RateLimitReachedType> {
    match stored {
        Some(RateLimitReachedType::WorkspaceOwnerCreditsDepleted) if kind == RateLimitErrorKind::UsageLimit =>
            Some(RateLimitReachedType::WorkspaceOwnerUsageLimitReached),
        Some(RateLimitReachedType::WorkspaceMemberCreditsDepleted) if kind == RateLimitErrorKind::UsageLimit =>
            Some(RateLimitReachedType::WorkspaceMemberUsageLimitReached),
        other => other,
    }
}

/// The limit type a rate-limit error shows, and keeps for later.
pub fn effective_rate_limit_reached_type(
    stored: Option<RateLimitReachedType>,
    kind: RateLimitErrorKind,
) -> (r: Option<RateLimitReachedType>)
    ensures
        r == effective_reached(stored, kind),
{
    let usage_limit_error = match kind {
        RateLimitErrorKind::UsageLimit => true,
        _ => false,
    };
    match stored {
        Some(RateLimitReachedType::WorkspaceOwnerCreditsDepleted) if usage_limit_error => {
            Some(RateLimitReachedType::WorkspaceOwnerUsageLimitReached)
        },
        Some(RateLimitReachedType::WorkspaceMemberCreditsDepleted) if usage_limit_error => {
            Some(RateLimitReachedType::WorkspaceMemberUsageLimitReached)
        },
        other => other,
    }
}

/// What a rate-limit error shows: an error message, and for a workspace
/// member a nudge to ask the owner.
#[derive(Debug)]
pub struct RateLimitNotice {
    pub message: String,
    pub nudge: Option<CreditsNudge>,
}

pub open spec fn owner_credits_text() -> Seq<char> {
    "You're out of credits. Your workspace is out of credits. Add credits to continue using Reflect."@
}

pub open spec fn owner_usage_text() -> Seq<char> {
    "Usage limit reached. You've reached your usage limit. Increase your limits to continue using reflect."@
}

/// The message and nudge for a reached limit type; other limits show the
/// error's own message.
pub open spec fn notice_for(reached: Option<RateLimitReachedType>, message: Seq<char>) -> (Seq<char>, Option<CreditsNudge>) {
    match reached {
        Some(RateLimitReachedType::WorkspaceOwnerCreditsDepleted) => (owner_credits_text(), None),
        Some(RateLimitReachedType::WorkspaceOwnerUsageLimitReached) => (owner_usage_text(), None),
        Some(RateLimitReachedType::WorkspaceMemberCreditsDepleted) => (message, Some(CreditsNudge::Credits)),
        Some(RateLimitReachedType::WorkspaceMemberUsageLimitReached) => (message, Some(CreditsNudge::UsageLimit)),
        _ => (message, None),
    }
}

/// The notice for a rate-limit error, given the limit type it shows.
pub fn rate_limit_notice(reached: Option<RateLimitReachedType>, message: String) -> (n: RateLimitNotice)
    ensures
        (n.message@, n.nudge) == notice_for(reached, message@),
{
    proof {
        reveal_strlit("You're out of credits. Your workspace is out of credits. Add credits to continue using Reflect.");
        reveal_strlit("Usage limit reached. You've reached your usage limit. Increase your limits to continue using reflect.");
    }
    match reached {
        Some(RateLimitReachedType::WorkspaceOwnerCreditsDepleted) => RateLimitNotice {
            message: String::from_str("You're out of credits. Your workspace is out of credits. Add credits to continue using Reflect."),
            nudge: None,
        },
        Some(RateLimitReachedType::WorkspaceOwnerUsageLimitReached) => RateLimitNotice {
            message: String::from_str("Usage limit reached. You've reached your usage limit. Increase your limits to continue using reflect."),
            nudge: None,
        },
        Some(RateLimitReachedType::WorkspaceMemberCreditsDepleted) => RateLimitNotice { message, nudge: Some(CreditsNudge::Credits) },
        Some(RateLimitReachedType::WorkspaceMemberUsageLimitReached) => RateLimitNotice {
            message,
            nudge: Some(CreditsNudge::UsageLimit),
        },
        _ => RateLimitNotice { message, nudge: None },
    }
}

/// What the error details of a failed turn say, as far as the routing reads
/// them.
#[derive(Clone, Copy, Debug)]
pub struct ErrorInfoFacts {
    /// The turn could not take the user's steer.
    pub active_turn_not_steerable: bool,
    pub cyber_policy: bool,
    /// The kind of rate-limit error, where it is one.
    pub rate_limit: Option<RateLimitErrorKind>,
}

/// Where the error of a turn that is not retried goes.
#[derive(Clone, Copy, Debug, PartialEq, Eq, Structural)]
pub enum NonRetryErrorRoute {
    /// The rejected steer was queued again; nothing is shown.
    SteerRequeued,
    CyberPolicy,
    SafetyBlock,
    ServerOverloaded,
    RateLimit(RateLimitErrorKind),
    Error,
}

/// The route of a non-retried error, given whether requeueing a rejected
/// steer succeeded (asked only where the turn was not steerable).
pub open spec fn error_route(info: Option<ErrorInfoFacts>, steer_requeued: bool, message: Seq<char>) -> NonRetryErrorRoute {
    if info matches Some(i) && i.active_turn_not_steerable && steer_requeued {
        NonRetryErrorRoute::SteerRequeued
    } else if info matches Some(i) && i.cyber_policy {
        NonRetryErrorRoute::CyberPolicy
    } else if safety_block(message) {
        NonRetryErrorRoute::SafetyBlock
    } else if info matches Some(i) && i.rate_limit is Some {
        match info.unwrap().rate_limit.unwrap() {
            RateLimitErrorKind::ServerOverloaded => NonRetryErrorRoute::ServerOverloaded,
            k => NonRetryErrorRoute::RateLimit(k),
        }
    } else {
        NonRetryErrorRoute::Error
    }
}

/// Whether a rejected steer is to be requeued before the error is routed.
pub fn requeue_rejected_steer_first(info: Option<ErrorInfoFacts>) -> (r: bool)
    ensures
        r == (info matches Some(i) && i.active_turn_not_steerable),
{
    match info {
        Some(i) => i.active_turn_not_steerable,
        None => false,
    }
}

/// Routes the error of a turn that is not retried.
pub fn route_non_retry_error(info: Option<ErrorInfoFacts>, steer_requeued: bool, message: &str) -> (r: NonRetryErrorRoute)
    ensures
        r == error_route(info, steer_requeued, message@),
{
    if requeue_rejected_steer_first(info) && steer_requeued {
        return NonRetryErrorRoute::SteerRequeued;
    }
    if let Some(i) = info {
        if i.cyber_policy {
            return NonRetryErrorRoute::CyberPolicy;
        }
    }
    if is_safety_block_error(message) {
        return NonRetryErrorRoute::SafetyBlock;
    }
    if let Some(i) = info {
        if let Some(k) = i.rate_limit {
            return match k {
                RateLimitErrorKind::ServerOverloaded => NonRetryErrorRoute::ServerOverloaded,
                RateLimitErrorKind::UsageLimit => NonRetryErrorRoute::RateLimit(RateLimitErrorKind::UsageLimit),
                RateLimitErrorKind::Generic => NonRetryErrorRoute::RateLimit(RateLimitErrorKind::Generic),
            };
        }
    }
    NonRetryErrorRoute::Error
}

pub open spec fn high_load_text() -> Seq<char> {
    "Reflect is currently experiencing high load."@
}

/// The warning for an overloaded server: the error's message, or a fixed
/// one where the message is blank.
pub fn server_overloaded_message(message: String) -> (r: String)
    ensures
        r@ == (if trimmed(message@).len() == 0 { high_load_text() } else { message@ }),
{
    proof {
        reveal_strlit("Reflect is currently experiencing high load.");
    }
    if trim_text(message.as_str()).as_str().unicode_len() == 0 {
        String::from_str("Reflect is currently experiencing high load.")
    } else {
        message
    }
}

/// Why a turn was stopped.
#[derive(Clone, Copy, Debug, PartialEq, Eq, Structural)]
pub enum TurnAbortReason {
    Interrupted,
    BudgetLimited,
}

pub open spec fn budget_text() -> Seq<char> {
    "Goal budget reached - the turn was stopped."@
}

pub open spec fn interrupted_text() -> Seq<char> {
    "Conversation interrupted - tell the model what to do differently. Something went wrong? Hit `/feedback` to report the issue."@
}

/// The message shown for a stopped turn.
pub fn interrupted_turn_message(reason: TurnAbortReason) -> (r: String)
    ensures
        r@ == (if reason == TurnAbortReason::BudgetLimited { budget_text() } else { interrupted_text() }),
{
    proof {
        reveal_strlit("Goal budget reached - the turn was stopped.");
        reveal_strlit("Conversation interrupted - tell the model what to do differently. Something went wrong? Hit `/feedback` to report the issue.");
    }
    match reason {
        TurnAbortReason::BudgetLimited => String::from_str("Goal budget reached - the turn was stopped."),
        TurnAbortReason::Interrupted => String::from_str(
            "Conversation interrupted - tell the model what to do differently. Something went wrong? Hit `/feedback` to report the issue.",
        ),
    }
}

/// The status of a plan step.
#[derive(Clone, Copy, Debug, PartialEq, Eq, Structural)]
pub enum StepStatus {
    Pending,
    InProgress,
    Completed,
}

/// The number of completed steps.
pub open spec fn completed_steps(steps: Seq<StepStatus>) -> nat
    decreases steps.len(),
{
    if steps.len() == 0 {
        0
    } else {
        completed_steps(steps.drop_last()) + if steps.last() == StepStatus::Completed { 1nat } else { 0nat }
    }
}

proof fn lemma_completed_steps_bound(steps: Seq<StepStatus>)
    ensures
        completed_steps(steps) <= steps.len(),
    decreases steps.len(),
{
    if steps.len() > 0 {
        lemma_completed_steps_bound(steps.drop_last());
    }
}

/// The progress of a plan update: completed and total steps, where the plan
/// has a step.
pub fn plan_progress(steps: &Vec<StepStatus>) -> (r: Option<(usize, usize)>)
    ensures
        match r {
            Some((done, total)) => steps@.len() > 0 && total == steps@.len() && done == completed_steps(steps@),
            None => steps@.len() == 0,
        },
{
    let total = steps.len();
    let mut done: usize = 0;
    let mut i: usize = 0;
    while i < total
        invariant
            total == steps@.len(),
            i <= total,
            done == completed_steps(steps@.subrange(0, i as int)),
        decreases total - i,
    {
        proof {
            assert(steps@.subrange(0, i + 1).drop_last() =~= steps@.subrange(0, i as int));
            lemma_completed_steps_bound(steps@.subrange(0, i as int));
        }
        if steps[i] == StepStatus::Completed {
            done = done + 1;
        }
        i = i + 1;
    }
    proof {
        assert(steps@.subrange(0, total as int) =~= steps@);
    }
    if total > 0 {
        Some((done, total))
    } else {
        None
    }
}

/// What decides whether to offer implementing the plan after a turn.
#[derive(Clone, Copy, Debug)]
pub struct PlanPromptFacts {
    pub collaboration_modes: bool,
    pub queued_follow_ups: bool,
    pub in_plan_mode: bool,
    pub saw_plan_item_this_turn: bool,
    pub no_modal_or_popup: bool,
    pub rate_limit_prompt_pending: bool,
}

/// Whether to offer implementing the plan: in plan mode, after a turn that
/// produced a plan, with nothing queued, no popup open and no rate-limit
/// prompt waiting.
pub fn should_prompt_plan_implementation(f: PlanPromptFacts) -> (r: bool)
    ensures
        r == (f.collaboration_modes && !f.queued_follow_ups && f.in_plan_mode && f.saw_plan_item_this_turn
            && f.no_modal_or_popup && !f.rate_limit_prompt_pending),
{
    if !f.collaboration_modes {
        return false;
    }
    if f.queued_follow_ups {
        return false;
    }
    if !f.in_plan_mode {
        return false;
    }
    if !f.saw_plan_item_this_turn {
        return false;
    }
    if !f.no_modal_or_popup {
        return false;
    }
    !f.rate_limit_prompt_pending
}

/// What the end of a turn reads.
#[derive(Debug)]
pub struct TurnCompletionFacts {
    /// The final agent message of the turn, as shown, where the turn
    /// reported one.
    pub last_agent_message: Option<String>,
    /// An earlier item of the turn already recorded a copy source.
    pub saw_copy_source_this_turn: bool,
    /// The markdown last recorded for copying.
    pub last_agent_markdown: Option<String>,
    /// The completion is replayed from an earlier session.
    pub from_replay: bool,
    pub had_work_activity: bool,
    pub needs_final_message_separator: bool,
    /// The turn gathered runtime metrics.
    pub has_runtime_metrics: bool,
    pub duration_ms: Option<i64>,
    /// The elapsed seconds of the status indicator, where one runs.
    pub status_elapsed_seconds: Option<u64>,
}

/// The separator drawn under a live turn's output.
#[derive(Clone, Copy, Debug, PartialEq, Eq, Structural)]
pub struct FinalSeparator {
    pub elapsed_seconds: Option<u64>,
    pub with_runtime_metrics: bool,
}

/// What a completed turn records and shows.
#[derive(Debug)]
pub struct TurnCompletionPlan {
    /// The markdown to record as the copy source.
    pub record_markdown: Option<String>,
    /// The text of the turn-complete notification.
    pub notification_response: String,
    pub separator: Option<FinalSeparator>,
}

/// The views of an optional string.
pub open spec fn opt_chars(s: Option<String>) -> Option<Seq<char>> {
    match s {
        Some(t) => Some(t@),
        None => None,
    }
}

/// The final message, where it is not empty.
pub open spec fn nonempty_message(m: Option<Seq<char>>) -> Option<Seq<char>> {
    match m {
        Some(t) if t.len() > 0 => Some(t),
        _ => None,
    }
}

/// The notification text: the final message, else the recorded markdown
/// where an earlier item recorded it, else empty.
pub open spec fn notification_text(message: Option<Seq<char>>, saw_copy_source: bool, markdown: Option<Seq<char>>) -> Seq<char> {
    match nonempty_message(message) {
        Some(t) => t,
        None => if saw_copy_source && markdown is Some { markdown.unwrap() } else { Seq::empty() },
    }
}

/// The separator of a live turn: shown after work with a pending separator
/// or metrics, or for metrics alone; the elapsed time only in the first
/// case, from the turn's duration in whole seconds, else from the status
/// indicator.
pub open spec fn final_separator(
    from_replay: bool,
    had_work: bool,
    needs_separator: bool,
    metrics: bool,
    duration_ms: Option<i64>,
    status_elapsed: Option<u64>,
) -> Option<FinalSeparator> {
    let show_work = had_work && (needs_separator || metrics);
    if from_replay || !(show_work || metrics) {
        None
    } else {
        Some(FinalSeparator {
            elapsed_seconds: if !show_work {
                None
            } else if duration_ms matches Some(d) && d >= 0 {
                Some((duration_ms.unwrap() / 1000) as u64)
            } else {
                status_elapsed
            },
            with_runtime_metrics: metrics,
        })
    }
}

/// Plans the end of a turn: the copy source to record, the notification
/// text and the separator.
pub fn plan_turn_completion(f: TurnCompletionFacts) -> (p: TurnCompletionPlan)
    ensures
        opt_chars(p.record_markdown) == (if f.saw_copy_source_this_turn {
            None
        } else {
            nonempty_message(opt_chars(f.last_agent_message))
        }),
        p.notification_response@ == notification_text(
            opt_chars(f.last_agent_message),
            f.saw_copy_source_this_turn,
            opt_chars(f.last_agent_markdown),
        ),
        p.separator == final_separator(
            f.from_replay,
            f.had_work_activity,
            f.needs_final_message_separator,
            f.has_runtime_metrics,
            f.duration_ms,
            f.status_elapsed_seconds,
        ),
{
    let message = match f.last_agent_message {
        Some(m) => if m.as_str().unicode_len() > 0 { Some(m) } else { None },
        None => None,
    };
    let record_markdown = if f.saw_copy_source_this_turn {
        None
    } else {
        match &message {
            Some(m) => Some(m.clone()),
            None => None,
        }
    };
    let notification_response = match message {
        Some(m) => m,
        None => if f.saw_copy_source_this_turn {
            match f.last_agent_markdown {
                Some(md) => md,
                None => String::new(),
            }
        } else {
            String::new()
        },
    };
    let show_work = f.had_work_activity && (f.needs_final_message_separator || f.has_runtime_metrics);
    let separator = if f.from_replay || !(show_work || f.has_runtime_metrics) {
        None
    } else {
        let elapsed_seconds = if !show_work {
            None
        } else {
            match f.duration_ms {
                Some(d) if d >= 0 => Some((d / 1000) as u64),
                _ => f.status_elapsed_seconds,
            }
        };
        Some(FinalSeparator { elapsed_seconds, with_runtime_metrics: f.has_runtime_metrics })
    };
    TurnCompletionPlan { record_markdown, notification_response, separator }
}

} // verus!
