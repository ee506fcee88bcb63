//! The `/usage` cards of the chat widget. Each `/usage` command gets a
//! request id and a card that shows "Loading..." until the response with
//! that id arrives; a response for any other id is dropped. A finished card
//! waits in a slot of its own until nothing on screen blocks its insertion
//! into the history.

use vstd::prelude::*;
use crate::debug_config::{bold, dimmed, single_span_rows, text_line, text_rows};
use crate::style::{Style, StyledLine};

verus! {

/// Where one `/usage` card stands. `R` is the fetched account usage, as the
/// chart draws it.
#[derive(Debug)]
pub enum TokenActivityState<R> {
    Loading,
    Loaded { response: R },
    /// The request failed; the card shows one fixed message.
    Error,
}

/// The card that waits for the response to `request_id`.
#[derive(Debug)]
pub struct PendingTokenActivity<R> {
    pub request_id: u64,
    pub card: TokenActivityState<R>,
}

/// What keeps a finished card out of the history for now.
#[derive(Clone, Copy, Debug)]
pub struct InsertionBarriers {
    pub answer_stream_active: bool,
    pub plan_stream_active: bool,
    pub active_cell: bool,
    pub active_hook_cell: bool,
}

/// The widget's `/usage` cards and the counter of stream consolidations that
/// are still queued.
#[derive(Debug)]
pub struct TokenActivityTracker<R> {
    /// The id the next `/usage` request gets.
    pub next_request_id: u64,
    /// The card whose response is awaited.
    pub refreshing: Option<PendingTokenActivity<R>>,
    /// The finished card that waits for insertion.
    pub completed: Option<TokenActivityState<R>>,
    pub pending_stream_consolidations: usize,
}

/// The id after `id`, wrapping to zero.
pub open spec fn next_id(id: u64) -> u64 {
    if id == u64::MAX { 0 } else { (id + 1) as u64 }
}

/// The card a response leaves: loaded, or the fixed error.
pub open spec fn card_for<R>(result: Result<R, String>) -> TokenActivityState<R> {
    match result {
        Ok(response) => TokenActivityState::Loaded { response },
        Err(_) => TokenActivityState::Error,
    }
}

/// The tracker after a new `/usage` request: the finished card is dropped
/// and a loading card waits for the new id.
pub open spec fn added<R>(t: TokenActivityTracker<R>) -> TokenActivityTracker<R> {
    TokenActivityTracker {
        next_request_id: next_id(t.next_request_id),
        refreshing: Some(PendingTokenActivity { request_id: t.next_request_id, card: TokenActivityState::Loading }),
        completed: None,
        pending_stream_consolidations: t.pending_stream_consolidations,
    }
}

/// The tracker after the response to `request_id`, and whether it was taken.
pub open spec fn finished<R>(t: TokenActivityTracker<R>, request_id: u64, result: Result<R, String>) -> (TokenActivityTracker<R>, bool) {
    match t.refreshing {
        Some(p) if p.request_id == request_id => (
            TokenActivityTracker { refreshing: None, completed: Some(card_for(result)), ..t },
            true,
        ),
        _ => (t, false),
    }
}

/// The tracker with both cards dropped.
pub open spec fn cleared<R>(t: TokenActivityTracker<R>) -> TokenActivityTracker<R> {
    TokenActivityTracker { refreshing: None, completed: None, ..t }
}

/// The card drawn above the composer: the loading one first.
pub open spec fn shown_card<R>(t: TokenActivityTracker<R>) -> Option<TokenActivityState<R>> {
    match t.refreshing {
        Some(p) => Some(p.card),
        None => t.completed,
    }
}

/// The counter after a consolidation is queued, saturating.
pub open spec fn queued_count(n: usize) -> usize {
    if n == usize::MAX { n } else { (n + 1) as usize }
}

/// The counter after a consolidation completes, saturating at zero.
pub open spec fn completed_count(n: usize) -> usize {
    if n == 0 { 0 } else { (n - 1) as usize }
}

impl<R> TokenActivityTracker<R> {
    /// No card, no queued consolidation, request ids from zero.
    pub fn new() -> (t: Self)
        ensures
            t.next_request_id == 0,
            t.refreshing is None,
            t.completed is None,
            t.pending_stream_consolidations == 0,
    {
        TokenActivityTracker { next_request_id: 0, refreshing: None, completed: None, pending_stream_consolidations: 0 }
    }

    /// Starts a `/usage` refresh: the card that waits replaces any earlier
    /// one, the finished card is dropped. Returns the id to send with the
    /// refresh request.
    pub fn add_token_activity_output(&mut self) -> (request_id: u64)
        ensures
            request_id == old(self).next_request_id,
            *final(self) == added(*old(self)),
    {
        let request_id = self.next_request_id;
        self.next_request_id = self.next_request_id.wrapping_add(1);
        self.completed = None;
        self.refreshing = Some(PendingTokenActivity { request_id, card: TokenActivityState::Loading });
        request_id
    }

    /// The card to draw above the composer: the loading card before the
    /// finished one.
    pub fn pending_token_activity_output(&self) -> (card: Option<&TokenActivityState<R>>)
        ensures
            match card {
                Some(c) => shown_card(*self) == Some(*c),
                None => shown_card(*self) is None,
            },
    {
        match &self.refreshing {
            Some(output) => Some(&output.card),
            None => match &self.completed {
                Some(c) => Some(c),
                None => None,
            },
        }
    }

    /// Applies the response to `request_id`. Only the response to the card
    /// that waits is taken: the card moves to the finished slot and `true` is
    /// returned. Any other response changes nothing.
    pub fn finish_token_activity_refresh(&mut self, request_id: u64, result: Result<R, String>) -> (taken: bool)
        ensures
            (*final(self), taken) == finished(*old(self), request_id, result),
    {
        let output = match self.refreshing.take() {
            Some(output) => output,
            None => return false,
        };
        if output.request_id != request_id {
            self.refreshing = Some(output);
            return false;
        }
        let card = match result {
            Ok(response) => TokenActivityState::Loaded { response },
            Err(_) => TokenActivityState::Error,
        };
        self.completed = Some(card);
        true
    }

    /// Whether a finished card has to wait before it enters the history: a
    /// stream, a queued consolidation or a live cell would otherwise end up
    /// out of order.
    pub fn usage_history_insertion_blocked(&self, barriers: InsertionBarriers) -> (blocked: bool)
        ensures
            blocked == (barriers.answer_stream_active || barriers.plan_stream_active
                || self.pending_stream_consolidations > 0 || barriers.active_cell
                || barriers.active_hook_cell),
    {
        barriers.answer_stream_active || barriers.plan_stream_active || self.pending_stream_consolidations > 0
            || barriers.active_cell || barriers.active_hook_cell
    }

    /// Counts a queued stream consolidation.
    pub fn note_stream_consolidation_queued(&mut self)
        ensures
            *final(self) == (TokenActivityTracker {
                pending_stream_consolidations: queued_count(old(self).pending_stream_consolidations),
                ..*old(self)
            }),
    {
        self.pending_stream_consolidations = self.pending_stream_consolidations.saturating_add(1);
    }

    /// Counts a completed stream consolidation; the counter stays at zero.
    pub fn note_stream_consolidation_completed(&mut self)
        ensures
            *final(self) == (TokenActivityTracker {
                pending_stream_consolidations: completed_count(old(self).pending_stream_consolidations),
                ..*old(self)
            }),
    {
        self.pending_stream_consolidations = self.pending_stream_consolidations.saturating_sub(1);
    }

    /// Hands the finished card over for insertion into the history.
    pub fn take_completed_token_activity_output(&mut self) -> (card: Option<TokenActivityState<R>>)
        ensures
            card == old(self).completed,
            *final(self) == (TokenActivityTracker { completed: None, ..*old(self) }),
    {
        self.completed.take()
    }

    /// Whether another insertion attempt is to be requested: a finished
    /// card, or a rate-limit hint, still waits.
    pub fn request_pending_usage_output_insertion(&self, rate_limit_hint_pending: bool) -> (request: bool)
        ensures
            request == (self.completed is Some || rate_limit_hint_pending),
    {
        self.completed.is_some() || rate_limit_hint_pending
    }

    /// Drops both cards, so that no late response can change them. Returns
    /// whether a card was there, that is whether to redraw.
    pub fn clear_pending_token_activity_refreshes(&mut self) -> (had_card: bool)
        ensures
            *final(self) == cleared(*old(self)),
            had_card == (old(self).refreshing is Some || old(self).completed is Some),
    {
        let cleared_refresh = self.refreshing.take().is_some();
        let cleared_completed = self.completed.take().is_some();
        cleared_refresh || cleared_completed
    }
}

/// The entries that do not answer `request_id`, in order.
pub open spec fn kept_refreshes<H>(s: Seq<(u64, H)>, request_id: u64) -> Seq<(u64, H)>
    decreases s.len(),
{
    if s.len() == 0 {
        Seq::empty()
    } else {
        kept_refreshes(s.drop_last(), request_id) + if s.last().0 != request_id {
            seq![s.last()]
        } else {
            Seq::empty()
        }
    }
}

/// The handles of the entries that answer `request_id`, in order.
pub open spec fn answered_refreshes<H>(s: Seq<(u64, H)>, request_id: u64) -> Seq<H>
    decreases s.len(),
{
    if s.len() == 0 {
        Seq::empty()
    } else {
        answered_refreshes(s.drop_last(), request_id) + if s.last().0 == request_id {
            seq![s.last().1]
        } else {
            Seq::empty()
        }
    }
}

/// Takes the `/status` outputs that wait for the rate-limit refresh
/// `request_id` out of `pending`, in order; the others stay, in order. An
/// empty result means the response is stale and nothing is to be updated
/// or redrawn.
pub fn take_status_refreshes<H>(pending: &mut Vec<(u64, H)>, request_id: u64) -> (answered: Vec<H>)
    ensures
        final(pending)@ == kept_refreshes(old(pending)@, request_id),
        answered@ == answered_refreshes(old(pending)@, request_id),
{
    let ghost initial = pending@;
    let mut rest: Vec<(u64, H)> = Vec::new();
    std::mem::swap(&mut rest, pending);
    let mut answered: Vec<H> = Vec::new();
    let ghost mut done: int = 0;
    while rest.len() > 0
        invariant
            0 <= done <= initial.len(),
            rest@ == initial.subrange(done, initial.len() as int),
            pending@ == kept_refreshes(initial.subrange(0, done), request_id),
            answered@ == answered_refreshes(initial.subrange(0, done), request_id),
        decreases rest.len(),
    {
        let entry = rest.remove(0);
        proof {
            assert(initial.subrange(0, done + 1).drop_last() =~= initial.subrange(0, done));
            assert(initial.subrange(0, done + 1).last() == entry);
        }
        if entry.0 == request_id {
            answered.push(entry.1);
        } else {
            pending.push(entry);
        }
        proof {
            done = done + 1;
            assert(rest@ =~= initial.subrange(done, initial.len() as int));
        }
    }
    proof {
        assert(initial.subrange(0, done) =~= initial);
    }
    answered
}

/// A rate-limit response loses no `/status` output: each one is either
/// answered or kept.
pub proof fn lemma_refreshes_partitioned<H>(s: Seq<(u64, H)>, request_id: u64)
    ensures
        answered_refreshes(s, request_id).len() + kept_refreshes(s, request_id).len() == s.len(),
    decreases s.len(),
{
    if s.len() > 0 {
        lemma_refreshes_partitioned(s.drop_last(), request_id);
    }
}

/// The rows of a card that is not loaded: a bold title and a dim status.
pub open spec fn card_status_rows<R>(card: TokenActivityState<R>) -> Seq<(Seq<char>, Style)> {
    seq![
        (" Token activity"@, bold()),
        (if card is Loading { "   Loading..."@ } else { "   Token activity unavailable"@ }, dimmed()),
    ]
}

/// The rows of a card that waits or failed. A loaded card is drawn by the
/// chart, and gets `None` here.
pub fn token_activity_status_lines<R>(card: &TokenActivityState<R>) -> (rows: Option<Vec<StyledLine>>)
    ensures
        match rows {
            Some(r) => !(card is Loaded) && single_span_rows(r@) && text_rows(r@) == card_status_rows(*card),
            None => card is Loaded,
        },
{
    proof {
        reveal_strlit(" Token activity");
        reveal_strlit("   Loading...");
        reveal_strlit("   Token activity unavailable");
    }
    let status = match card {
        TokenActivityState::Loading => "   Loading...",
        TokenActivityState::Error => "   Token activity unavailable",
        TokenActivityState::Loaded { .. } => return None,
    };
    let mut rows: Vec<StyledLine> = Vec::new();
    rows.push(text_line(String::from_str(" Token activity"), Style::new().with_bold()));
    rows.push(text_line(String::from_str(status), Style::new().with_dim()));
    proof {
        assert(text_rows(rows@) =~= card_status_rows(*card));
    }
    Some(rows)
}

/// The response to the latest `/usage` request is always taken: the card
/// moves to the finished slot, and nothing waits any more.
pub proof fn lemma_latest_request_completes<R>(t: TokenActivityTracker<R>, result: Result<R, String>)
    ensures
        finished(added(t), t.next_request_id, result).1,
        finished(added(t), t.next_request_id, result).0.refreshing is None,
        finished(added(t), t.next_request_id, result).0.completed == Some(card_for(result)),
        shown_card(finished(added(t), t.next_request_id, result).0) == Some(card_for(result)),
{
}

/// A `/usage` request replaced by a newer one: its late response is dropped
/// and the newer card keeps loading.
pub proof fn lemma_superseded_request_is_ignored<R>(t: TokenActivityTracker<R>, result: Result<R, String>)
    ensures
        finished(added(added(t)), t.next_request_id, result) == (added(added(t)), false),
        shown_card(added(added(t))) == Some(TokenActivityState::<R>::Loading),
{
}

/// After the cards are cleared, no response changes the tracker and no card
/// is shown.
pub proof fn lemma_cleared_tracker_ignores_responses<R>(t: TokenActivityTracker<R>, request_id: u64, result: Result<R, String>)
    ensures
        finished(cleared(t), request_id, result) == (cleared(t), false),
        shown_card(cleared(t)) is None,
{
}

/// A queued consolidation that completes leaves the counter where it was,
/// below the saturation point.
pub proof fn lemma_consolidation_round_trip(n: usize)
    requires
        n < usize::MAX,
    ensures
        completed_count(queued_count(n)) == n,
{
}

} // verus!
