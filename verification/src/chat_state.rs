//! Small pieces of chat view state: the queues of user input waiting for a
//! turn, the transcript bookkeeping and the session header.

use vstd::prelude::*;
use crate::text::{push_str_chars, str_eq};

verus! {

/// How a queued message shows in history: as the text that was sent, or
/// as a different rendering (slash commands render otherwise).
#[derive(Debug)]
pub enum HistoryRecord {
    UserMessageText,
    Rendered(String),
}

/// A message the user typed.
#[derive(Debug)]
pub struct UserMessage {
    pub text: String,
}

/// A steer already sent to the agent but not yet written to history.
#[derive(Debug)]
pub struct PendingSteer {
    pub user_message: UserMessage,
    pub history_record: HistoryRecord,
}

/// The queued input shown under the composer, by kind.
#[derive(Debug)]
pub struct PendingInputPreview {
    pub queued_messages: Vec<String>,
    pub pending_steers: Vec<String>,
    pub rejected_steers: Vec<String>,
}

/// The user input that waits for a turn.
#[derive(Debug)]
pub struct InputQueueState {
    /// Input queued while a turn runs.
    pub queued_user_messages: Vec<UserMessage>,
    /// How each queued message shows in history; a missing entry shows the
    /// message text.
    pub queued_user_message_history_records: Vec<HistoryRecord>,
    /// A user turn was submitted and has not started yet.
    pub user_turn_pending_start: bool,
    /// Messages that tried to steer a turn that cannot be steered.
    pub rejected_steers_queue: Vec<UserMessage>,
    /// How each rejected steer shows in history.
    pub rejected_steer_history_records: Vec<HistoryRecord>,
    /// Steers submitted and not yet in history.
    pub pending_steers: Vec<PendingSteer>,
    /// The next interrupt resubmits all pending steers as a new turn.
    pub submit_pending_steers_after_interrupt: bool,
    pub suppress_queue_autosend: bool,
}

/// The preview text of a message with its history record, if any.
pub open spec fn preview_text(message: UserMessage, record: Option<HistoryRecord>) -> Seq<char> {
    match record {
        Some(HistoryRecord::Rendered(t)) => t@,
        _ => message.text@,
    }
}

/// The record at `i`, if there is one.
pub open spec fn record_at(records: Seq<HistoryRecord>, i: int) -> Option<HistoryRecord> {
    if 0 <= i < records.len() {
        Some(records[i])
    } else {
        None
    }
}

/// The previews of a queue beside its records.
pub open spec fn previews(messages: Seq<UserMessage>, records: Seq<HistoryRecord>) -> Seq<Seq<char>> {
    Seq::new(messages.len(), |i: int| preview_text(messages[i], record_at(records, i)))
}

/// The previews of pending steers, each with its own record.
pub open spec fn steer_previews(steers: Seq<PendingSteer>) -> Seq<Seq<char>> {
    Seq::new(
        steers.len(),
        |i: int| preview_text(steers[i].user_message, Some(steers[i].history_record)),
    )
}

/// The views of strings.
pub open spec fn views(v: Seq<String>) -> Seq<Seq<char>> {
    v.map_values(|s: String| s@)
}

/// The preview text of a message.
fn message_preview(message: &UserMessage, record: Option<&HistoryRecord>) -> (s: String)
    ensures
        s@ == preview_text(
            *message,
            match record {
                Some(r) => Some(*r),
                None => None,
            },
        ),
{
    let mut s = String::new();
    match record {
        Some(HistoryRecord::Rendered(t)) => push_str_chars(&mut s, t.as_str()),
        _ => push_str_chars(&mut s, message.text.as_str()),
    }
    s
}

/// The previews of a queue beside its records.
fn queue_previews(messages: &Vec<UserMessage>, records: &Vec<HistoryRecord>) -> (out: Vec<String>)
    ensures
        views(out@) == previews(messages@, records@),
{
    let mut out: Vec<String> = Vec::new();
    let mut i: usize = 0;
    while i < messages.len()
        invariant
            i <= messages.len(),
            views(out@) == previews(messages@, records@).take(i as int),
        decreases messages.len() - i,
    {
        let record = if i < records.len() {
            Some(&records[i])
        } else {
            None
        };
        let p = message_preview(&messages[i], record);
        let ghost before = out@;
        out.push(p);
        proof {
            assert(views(out@) =~= views(before).push(p@));
            assert(previews(messages@, records@).take(i + 1) =~= previews(messages@, records@).take(
                i as int,
            ).push(p@));
        }
        i += 1;
    }
    proof {
        assert(previews(messages@, records@).take(i as int) =~= previews(messages@, records@));
    }
    out
}

impl InputQueueState {
    /// An empty queue state.
    pub fn new() -> (r: Self)
        ensures
            r.is_empty(),
            !r.suppress_queue_autosend,
    {
        InputQueueState {
            queued_user_messages: Vec::new(),
            queued_user_message_history_records: Vec::new(),
            user_turn_pending_start: false,
            rejected_steers_queue: Vec::new(),
            rejected_steer_history_records: Vec::new(),
            pending_steers: Vec::new(),
            submit_pending_steers_after_interrupt: false,
            suppress_queue_autosend: false,
        }
    }

    /// Nothing waits and no flag is set (autosend suppression aside).
    pub open spec fn is_empty(&self) -> bool {
        &&& self.queued_user_messages@.len() == 0
        &&& self.queued_user_message_history_records@.len() == 0
        &&& !self.user_turn_pending_start
        &&& self.rejected_steers_queue@.len() == 0
        &&& self.rejected_steer_history_records@.len() == 0
        &&& self.pending_steers@.len() == 0
        &&& !self.submit_pending_steers_after_interrupt
    }

    /// Whether a message waits to be sent after the turn: a queued message
    /// or a rejected steer.
    pub fn has_queued_follow_up_messages(&self) -> (r: bool)
        ensures
            r == (self.rejected_steers_queue@.len() > 0 || self.queued_user_messages@.len() > 0),
    {
        self.rejected_steers_queue.len() > 0 || self.queued_user_messages.len() > 0
    }

    /// Drops all queued input and resets the flags; autosend suppression
    /// stays as it was.
    pub fn clear(&mut self)
        ensures
            final(self).is_empty(),
            final(self).suppress_queue_autosend == old(self).suppress_queue_autosend,
    {
        self.queued_user_messages.clear();
        self.queued_user_message_history_records.clear();
        self.user_turn_pending_start = false;
        self.rejected_steers_queue.clear();
        self.rejected_steer_history_records.clear();
        self.pending_steers.clear();
        self.submit_pending_steers_after_interrupt = false;
    }

    /// The previews of the waiting input, each kind apart, in queue order.
    pub fn preview(&self) -> (p: PendingInputPreview)
        ensures
            views(p.queued_messages@) == previews(
                self.queued_user_messages@,
                self.queued_user_message_history_records@,
            ),
            views(p.pending_steers@) == steer_previews(self.pending_steers@),
            views(p.rejected_steers@) == previews(
                self.rejected_steers_queue@,
                self.rejected_steer_history_records@,
            ),
    {
        let queued_messages = queue_previews(
            &self.queued_user_messages,
            &self.queued_user_message_history_records,
        );
        let rejected_steers = queue_previews(&self.rejected_steers_queue, &self.rejected_steer_history_records);
        let mut pending_steers: Vec<String> = Vec::new();
        let mut i: usize = 0;
        while i < self.pending_steers.len()
            invariant
                i <= self.pending_steers@.len(),
                views(pending_steers@) == steer_previews(self.pending_steers@).take(i as int),
            decreases self.pending_steers@.len() - i,
        {
            let steer = &self.pending_steers[i];
            let p = message_preview(&steer.user_message, Some(&steer.history_record));
            let ghost before = pending_steers@;
            pending_steers.push(p);
            proof {
                assert(views(pending_steers@) =~= views(before).push(p@));
                assert(steer_previews(self.pending_steers@).take(i + 1) =~= steer_previews(
                    self.pending_steers@,
                ).take(i as int).push(p@));
            }
            i += 1;
        }
        proof {
            assert(steer_previews(self.pending_steers@).take(i as int) =~= steer_previews(
                self.pending_steers@,
            ));
        }
        PendingInputPreview { queued_messages, pending_steers, rejected_steers }
    }
}

/// Once the queues are cleared nothing waits to be sent after the turn.
pub proof fn lemma_cleared_queue_has_no_follow_ups(s: InputQueueState)
    requires
        s.is_empty(),
    ensures
        !(s.rejected_steers_queue@.len() > 0 || s.queued_user_messages@.len() > 0),
{
}

/// The transcript bookkeeping of the chat view (the active cell itself is
/// held by the view).
#[derive(Debug)]
pub struct TranscriptState {
    /// Bumped to invalidate caches of the transcript overlay; wraps.
    pub active_cell_revision: u64,
    /// The raw markdown of the last completed agent response.
    pub last_agent_markdown: Option<String>,
    /// The raw markdown of the last completed proposed plan.
    pub latest_proposed_plan_markdown: Option<String>,
    /// This turn produced a response that can be copied.
    pub saw_copy_source_this_turn: bool,
    /// A final message separator goes before the next streamed content.
    pub needs_final_message_separator: bool,
    /// This turn ran commands, tool calls or patches.
    pub had_work_activity: bool,
    /// This turn sent a plan update.
    pub saw_plan_update_this_turn: bool,
    /// This turn sent a proposed plan item not yet replaced by a steer.
    pub saw_plan_item_this_turn: bool,
    /// Done and total tasks of the latest plan checklist.
    pub last_plan_progress: Option<(usize, usize)>,
    /// Streamed plan content not yet complete.
    pub plan_delta_buffer: String,
    /// A plan item is streaming.
    pub plan_item_active: bool,
}

impl TranscriptState {
    /// A fresh transcript state: revision zero, nothing recorded.
    pub fn new() -> (r: Self)
        ensures
            r.active_cell_revision == 0,
            r.last_agent_markdown is None,
            r.latest_proposed_plan_markdown is None,
            !r.saw_copy_source_this_turn,
            !r.needs_final_message_separator,
            !r.had_work_activity,
            !r.saw_plan_update_this_turn,
            !r.saw_plan_item_this_turn,
            r.last_plan_progress is None,
            r.plan_delta_buffer@.len() == 0,
            !r.plan_item_active,
    {
        TranscriptState {
            active_cell_revision: 0,
            last_agent_markdown: None,
            latest_proposed_plan_markdown: None,
            saw_copy_source_this_turn: false,
            needs_final_message_separator: false,
            had_work_activity: false,
            saw_plan_update_this_turn: false,
            saw_plan_item_this_turn: false,
            last_plan_progress: None,
            plan_delta_buffer: String::new(),
            plan_item_active: false,
        }
    }

    /// Moves the revision on by one, wrapping after `u64::MAX`.
    pub fn bump_active_cell_revision(&mut self)
        ensures
            final(self).active_cell_revision == (if old(self).active_cell_revision == u64::MAX {
                0
            } else {
                old(self).active_cell_revision + 1
            }),
            final(self).last_agent_markdown == old(self).last_agent_markdown,
            final(self).saw_copy_source_this_turn == old(self).saw_copy_source_this_turn,
    {
        self.active_cell_revision = self.active_cell_revision.wrapping_add(1);
    }

    /// Keeps the markdown of a completed response and marks the turn as
    /// having something to copy.
    pub fn record_agent_markdown(&mut self, markdown: String)
        ensures
            final(self).last_agent_markdown == Some(markdown),
            final(self).saw_copy_source_this_turn,
            final(self).active_cell_revision == old(self).active_cell_revision,
    {
        self.last_agent_markdown = Some(markdown);
        self.saw_copy_source_this_turn = true;
    }

    /// Forgets the last response.
    pub fn reset_copy_history(&mut self)
        ensures
            final(self).last_agent_markdown is None,
            !final(self).saw_copy_source_this_turn,
            final(self).active_cell_revision == old(self).active_cell_revision,
    {
        self.last_agent_markdown = None;
        self.saw_copy_source_this_turn = false;
    }

    /// Resets what a turn records; the last response and the revision stay.
    pub fn reset_turn_flags(&mut self)
        ensures
            !final(self).saw_copy_source_this_turn,
            !final(self).saw_plan_update_this_turn,
            !final(self).saw_plan_item_this_turn,
            !final(self).had_work_activity,
            final(self).latest_proposed_plan_markdown is None,
            final(self).plan_delta_buffer@.len() == 0,
            !final(self).plan_item_active,
            final(self).last_agent_markdown == old(self).last_agent_markdown,
            final(self).active_cell_revision == old(self).active_cell_revision,
            final(self).needs_final_message_separator == old(self).needs_final_message_separator,
            final(self).last_plan_progress == old(self).last_plan_progress,
    {
        self.saw_copy_source_this_turn = false;
        self.saw_plan_update_this_turn = false;
        self.saw_plan_item_this_turn = false;
        self.had_work_activity = false;
        self.latest_proposed_plan_markdown = None;
        self.plan_delta_buffer = String::new();
        self.plan_item_active = false;
    }
}

/// The header of the session, showing the model.
#[derive(Debug)]
pub struct SessionHeader {
    model: String,
}

impl SessionHeader {
    /// The model shown.
    pub closed spec fn model_view(&self) -> Seq<char> {
        self.model@
    }

    pub fn new(model: String) -> (r: Self)
        ensures
            r.model_view() == model@,
    {
        SessionHeader { model }
    }

    /// The model shown, as text.
    pub fn model(&self) -> (s: &str)
        ensures
            s@ == self.model_view(),
    {
        self.model.as_str()
    }

    /// Shows `model` from now on.
    pub fn set_model(&mut self, model: &str)
        ensures
            final(self).model_view() == model@,
    {
        if !str_eq(self.model.as_str(), model) {
            let mut s = String::new();
            push_str_chars(&mut s, model);
            self.model = s;
        }
    }
}

} // verus!
