//! Decisions around streamed agent output: what a completed agent message
//! or plan item leaves in the history and the copy source, when a new
//! stream starts with a separator, and when the status line comes back
//! after streaming.

use vstd::prelude::*;
use crate::status::{trim_text, trimmed};
use crate::text::push_str_chars;

verus! {

/// Which part of an answer an agent message is.
#[derive(Clone, Copy, Debug, PartialEq, Eq, Structural)]
pub enum MessagePhase {
    Commentary,
    FinalAnswer,
}

/// The texts of parts, joined.
pub open spec fn joined(parts: Seq<String>) -> Seq<char>
    decreases parts.len(),
{
    if parts.len() == 0 {
        Seq::empty()
    } else {
        joined(parts.drop_last()) + parts.last()@
    }
}

/// The text of an agent message: its text contents, joined.
pub fn agent_message_text(contents: &Vec<String>) -> (s: String)
    ensures
        s@ == joined(contents@),
{
    let mut s = String::new();
    let mut i: usize = 0;
    while i < contents.len()
        invariant
            i <= contents.len(),
            s@ == joined(contents@.subrange(0, i as int)),
        decreases contents.len() - i,
    {
        proof {
            assert(contents@.subrange(0, i + 1).drop_last() =~= contents@.subrange(0, i as int));
        }
        push_str_chars(&mut s, contents[i].as_str());
        i = i + 1;
    }
    proof {
        assert(contents@.subrange(0, contents.len() as int) =~= contents@);
    }
    s
}

/// What a completed agent message does.
#[derive(Debug)]
pub struct AgentMessageCompletion {
    /// The visible text to stream where no stream is open, if any.
    pub finalize_with: Option<String>,
    /// Record the text as the copy source.
    pub record_markdown: bool,
    /// Bring the status line back once streaming is idle.
    pub restore_status: bool,
}

/// Plans the completion of an agent message from its visible markdown: a
/// final answer (or a message without phase) with text is recorded for
/// copying; commentary, or an answer with steers pending, brings the status
/// line back.
pub fn agent_message_completion(visible_markdown: String, phase: Option<MessagePhase>, pending_steers: bool) -> (c: AgentMessageCompletion)
    ensures
        match c.finalize_with {
            Some(t) => visible_markdown@.len() > 0 && t@ == visible_markdown@,
            None => visible_markdown@.len() == 0,
        },
        c.record_markdown == (phase != Some(MessagePhase::Commentary) && visible_markdown@.len() > 0),
        c.restore_status == (if phase == Some(MessagePhase::Commentary) { true } else { pending_steers }),
{
    let nonempty = visible_markdown.as_str().unicode_len() > 0;
    let commentary = match phase {
        Some(MessagePhase::Commentary) => true,
        _ => false,
    };
    AgentMessageCompletion {
        finalize_with: if nonempty { Some(visible_markdown) } else { None },
        record_markdown: !commentary && nonempty,
        restore_status: if commentary { true } else { pending_steers },
    }
}

/// How the plan stream ended, where one was open.
#[derive(Clone, Copy, Debug)]
pub struct PlanStreamEnd {
    /// The stream's tail was on screen.
    pub had_live_tail: bool,
    /// Finalizing produced a cell for the history.
    pub produced_cell: bool,
    /// Finalizing produced source to consolidate.
    pub produced_source: bool,
}

/// What goes to the history when a plan item completes.
#[derive(Clone, Copy, Debug, PartialEq, Eq, Structural)]
pub enum PlanHistoryStep {
    /// Add the streamed cell, and consolidate its source where there is one.
    StreamedCell { consolidate: bool },
    /// Add the plan text as a proposed plan.
    ProposedPlan,
    /// Only consolidate the streamed source.
    Consolidate,
    Nothing,
}

/// The plan of a completed plan item.
#[derive(Debug)]
pub struct PlanItemCompletion {
    /// The plan's text: the item's text, or the streamed text where the
    /// item's is blank.
    pub plan_text: String,
    /// Record the plan text for copying and as the latest proposed plan.
    pub record: bool,
    pub history: PlanHistoryStep,
    /// Bring the status line back once streaming is idle.
    pub restore_status: bool,
}

/// The history step of a completed plan item.
pub open spec fn plan_history(stream: Option<PlanStreamEnd>, plan_text_empty: bool) -> PlanHistoryStep {
    let cell = stream matches Some(e) && !e.had_live_tail && e.produced_cell;
    let source = stream matches Some(e) && e.produced_source;
    if cell {
        PlanHistoryStep::StreamedCell { consolidate: source }
    } else if !plan_text_empty {
        PlanHistoryStep::ProposedPlan
    } else if source {
        PlanHistoryStep::Consolidate
    } else {
        PlanHistoryStep::Nothing
    }
}

/// Plans the completion of a plan item.
pub fn plan_item_completion(text: String, plan_delta_buffer: &str, stream: Option<PlanStreamEnd>) -> (c: PlanItemCompletion)
    ensures
        c.plan_text@ == (if trimmed(text@).len() == 0 { trimmed(plan_delta_buffer@) } else { text@ }),
        c.record == (trimmed(c.plan_text@).len() > 0),
        c.history == plan_history(stream, c.plan_text@.len() == 0),
        c.restore_status == (stream is Some),
{
    let plan_text = if trim_text(text.as_str()).as_str().unicode_len() == 0 {
        trim_text(plan_delta_buffer)
    } else {
        text
    };
    let record = trim_text(plan_text.as_str()).as_str().unicode_len() > 0;
    let (cell, source) = match stream {
        Some(e) => (!e.had_live_tail && e.produced_cell, e.produced_source),
        None => (false, false),
    };
    let history = if cell {
        PlanHistoryStep::StreamedCell { consolidate: source }
    } else if plan_text.as_str().unicode_len() > 0 {
        PlanHistoryStep::ProposedPlan
    } else if source {
        PlanHistoryStep::Consolidate
    } else {
        PlanHistoryStep::Nothing
    };
    PlanItemCompletion { plan_text, record, history, restore_status: stream.is_some() }
}

/// Where a new answer stream starts: a separator is drawn after work of an
/// earlier turn; the pending separator is dropped either way. Returns
/// whether to draw it and the new pending flag.
pub fn stream_start_separator(needs_final_message_separator: bool, had_work_activity: bool) -> (r: (bool, bool))
    ensures
        r == (needs_final_message_separator && had_work_activity, false),
{
    (needs_final_message_separator && had_work_activity, false)
}

/// Whether both streams have nothing queued; a stream that is not open
/// counts as idle.
pub open spec fn streams_idle(answer_queued: Option<usize>, plan_queued: Option<usize>) -> bool {
    (answer_queued matches Some(n) ==> n == 0) && (plan_queued matches Some(n) ==> n == 0)
}

/// Whether the status line comes back now: a restore is pending, the task
/// still runs and both streams are idle.
pub fn status_restore_due(pending_restore: bool, task_running: bool, answer_queued: Option<usize>, plan_queued: Option<usize>) -> (r: bool)
    ensures
        r == (pending_restore && task_running && streams_idle(answer_queued, plan_queued)),
{
    let answer_idle = match answer_queued {
        Some(n) => n == 0,
        None => true,
    };
    let plan_idle = match plan_queued {
        Some(n) => n == 0,
        None => true,
    };
    pending_restore && task_running && answer_idle && plan_idle
}

/// What follows a commit tick: the stream tail is synced on a regular tick
/// or where a stream is open; once every open stream is idle, the status
/// line may come back and the commit animation stops.
pub fn commit_tick_followups(regular_tick: bool, has_controller: bool, all_idle: bool) -> (r: (bool, bool))
    ensures
        r == (regular_tick || has_controller, has_controller && all_idle),
{
    (regular_tick || has_controller, has_controller && all_idle)
}

/// Whether a lifecycle event waits in the interrupt queue: while an answer
/// streams, or behind events already queued, so that order is kept.
pub fn defer_lifecycle_event(answer_stream_open: bool, interrupts_queued: bool) -> (r: bool)
    ensures
        r == (answer_stream_open || interrupts_queued),
{
    answer_stream_open || interrupts_queued
}

} // verus!
