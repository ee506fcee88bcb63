//! Replaying the turns of a resumed thread into the transcript: which items
//! are shown, which turns complete, and how reasoning is replayed.

use vstd::prelude::*;

verus! {

/// Why a thread is replayed.
#[derive(Clone, Copy, Debug, PartialEq, Eq, Structural)]
pub enum ReplayKind {
    ResumeInitialMessages,
    ThreadSnapshot,
}

/// Where a thread item being rendered comes from.
#[derive(Clone, Copy, Debug, PartialEq, Eq, Structural)]
pub enum ThreadItemRenderSource {
    Live,
    Replay(ReplayKind),
}

impl ThreadItemRenderSource {
    /// Whether the item is replayed.
    pub fn is_replay(self) -> (r: bool)
        ensures
            r == (self is Replay),
    {
        match self {
            ThreadItemRenderSource::Replay(_) => true,
            ThreadItemRenderSource::Live => false,
        }
    }

    /// Why the item is replayed, for a replayed one.
    pub fn replay_kind(self) -> (r: Option<ReplayKind>)
        ensures
            r == (match self {
                ThreadItemRenderSource::Live => None,
                ThreadItemRenderSource::Replay(k) => Some(k),
            }),
    {
        match self {
            ThreadItemRenderSource::Live => None,
            ThreadItemRenderSource::Replay(k) => Some(k),
        }
    }
}

/// Whether rendering an item ends with a redraw: for a snapshot replay of
/// an item outside any turn.
pub fn redraw_after_item(source: ThreadItemRenderSource, turn_id: &str) -> (r: bool)
    ensures
        r == (source == ThreadItemRenderSource::Replay(ReplayKind::ThreadSnapshot) && turn_id@.len() == 0),
{
    match source {
        ThreadItemRenderSource::Replay(ReplayKind::ThreadSnapshot) => {
            turn_id.unicode_len() == 0
        },
        _ => false,
    }
}

/// A thread item as its handling reads it: its kind and the facts that the
/// handling depends on.
#[derive(Clone, Copy, Debug, PartialEq, Eq, Structural)]
pub enum ThreadItemKind {
    UserMessage,
    AgentMessage,
    Plan,
    Reasoning { summary_parts: usize, content_parts: usize },
    CommandExecution { in_progress: bool },
    FileChange { in_progress: bool },
    McpToolCall { in_progress: bool },
    WebSearch,
    ImageView,
    ImageGeneration,
    EnteredReviewMode,
    ExitedReviewMode,
    ContextCompaction,
    HookPrompt,
    CollabAgentToolCall,
    SubAgentActivity,
    DynamicToolCall,
    Sleep,
}

/// What handling a thread item does.
#[derive(Clone, Copy, Debug, PartialEq, Eq, Structural)]
pub enum ThreadItemAction {
    /// The user message is committed to the transcript.
    CommitUserMessage { from_replay: bool },
    /// The agent message is completed.
    CompleteAgentMessage { from_replay: bool },
    /// The plan is completed.
    CompletePlan,
    /// The given summary parts, then the given raw content parts, are
    /// replayed as reasoning deltas with a section break between two
    /// parts; then the reasoning ends.
    FinishReasoning { summary_parts: usize, content_parts: usize },
    StartCommand,
    CompleteCommand,
    CompleteFileChange,
    StartMcpToolCall,
    CompleteMcpToolCall,
    /// The web search is shown as begun and ended.
    ShowWebSearch,
    ViewImage,
    EndImageGeneration,
    /// Review mode is entered, as replayed.
    EnterReviewMode,
    ExitReviewMode,
    /// An info message notes that the context was compacted.
    NoteContextCompacted,
    CollabAgentToolCall,
    SubAgentActivity,
    /// The item is not shown.
    Nothing,
}

/// What handling an item does: reasoning parts are replayed only from a
/// replay, raw content parts only where raw reasoning is shown; file
/// changes in progress, review entries outside a replay, hook prompts,
/// dynamic tool calls and sleeps show nothing.
pub open spec fn item_action(kind: ThreadItemKind, from_replay: bool, show_raw: bool) -> ThreadItemAction {
    match kind {
        ThreadItemKind::UserMessage => ThreadItemAction::CommitUserMessage { from_replay },
        ThreadItemKind::AgentMessage => ThreadItemAction::CompleteAgentMessage { from_replay },
        ThreadItemKind::Plan => ThreadItemAction::CompletePlan,
        ThreadItemKind::Reasoning { summary_parts, content_parts } => ThreadItemAction::FinishReasoning {
            summary_parts: if from_replay {
                summary_parts
            } else {
                0
            },
            content_parts: if from_replay && show_raw {
                content_parts
            } else {
                0
            },
        },
        ThreadItemKind::CommandExecution { in_progress } => if in_progress {
            ThreadItemAction::StartCommand
        } else {
            ThreadItemAction::CompleteCommand
        },
        ThreadItemKind::FileChange { in_progress } => if in_progress {
            ThreadItemAction::Nothing
        } else {
            ThreadItemAction::CompleteFileChange
        },
        ThreadItemKind::McpToolCall { in_progress } => if in_progress {
            ThreadItemAction::StartMcpToolCall
        } else {
            ThreadItemAction::CompleteMcpToolCall
        },
        ThreadItemKind::WebSearch => ThreadItemAction::ShowWebSearch,
        ThreadItemKind::ImageView => ThreadItemAction::ViewImage,
        ThreadItemKind::ImageGeneration => ThreadItemAction::EndImageGeneration,
        ThreadItemKind::EnteredReviewMode => if from_replay {
            ThreadItemAction::EnterReviewMode
        } else {
            ThreadItemAction::Nothing
        },
        ThreadItemKind::ExitedReviewMode => ThreadItemAction::ExitReviewMode,
        ThreadItemKind::ContextCompaction => ThreadItemAction::NoteContextCompacted,
        ThreadItemKind::CollabAgentToolCall => ThreadItemAction::CollabAgentToolCall,
        ThreadItemKind::SubAgentActivity => ThreadItemAction::SubAgentActivity,
        ThreadItemKind::HookPrompt | ThreadItemKind::DynamicToolCall | ThreadItemKind::Sleep =>
            ThreadItemAction::Nothing,
    }
}

/// Decides how a thread item is handled, live or replayed (see
/// `item_action`); `redraw_after_item` says whether a redraw follows.
pub fn thread_item_action(
    kind: ThreadItemKind,
    source: ThreadItemRenderSource,
    show_raw_agent_reasoning: bool,
) -> (a: ThreadItemAction)
    ensures
        a == item_action(kind, source is Replay, show_raw_agent_reasoning),
{
    let from_replay = source.is_replay();
    match kind {
        ThreadItemKind::UserMessage => ThreadItemAction::CommitUserMessage { from_replay },
        ThreadItemKind::AgentMessage => ThreadItemAction::CompleteAgentMessage { from_replay },
        ThreadItemKind::Plan => ThreadItemAction::CompletePlan,
        ThreadItemKind::Reasoning { summary_parts, content_parts } => {
            let summary = if from_replay {
                summary_parts
            } else {
                0
            };
            let content = if from_replay && show_raw_agent_reasoning {
                content_parts
            } else {
                0
            };
            ThreadItemAction::FinishReasoning { summary_parts: summary, content_parts: content }
        },
        ThreadItemKind::CommandExecution { in_progress } => {
            if in_progress {
                ThreadItemAction::StartCommand
            } else {
                ThreadItemAction::CompleteCommand
            }
        },
        ThreadItemKind::FileChange { in_progress } => {
            if in_progress {
                ThreadItemAction::Nothing
            } else {
                ThreadItemAction::CompleteFileChange
            }
        },
        ThreadItemKind::McpToolCall { in_progress } => {
            if in_progress {
                ThreadItemAction::StartMcpToolCall
            } else {
                ThreadItemAction::CompleteMcpToolCall
            }
        },
        ThreadItemKind::WebSearch => ThreadItemAction::ShowWebSearch,
        ThreadItemKind::ImageView => ThreadItemAction::ViewImage,
        ThreadItemKind::ImageGeneration => ThreadItemAction::EndImageGeneration,
        ThreadItemKind::EnteredReviewMode => {
            if from_replay {
                ThreadItemAction::EnterReviewMode
            } else {
                ThreadItemAction::Nothing
            }
        },
        ThreadItemKind::ExitedReviewMode => ThreadItemAction::ExitReviewMode,
        ThreadItemKind::ContextCompaction => ThreadItemAction::NoteContextCompacted,
        ThreadItemKind::CollabAgentToolCall => ThreadItemAction::CollabAgentToolCall,
        ThreadItemKind::SubAgentActivity => ThreadItemAction::SubAgentActivity,
        ThreadItemKind::HookPrompt | ThreadItemKind::DynamicToolCall | ThreadItemKind::Sleep => {
            ThreadItemAction::Nothing
        },
    }
}

/// The state a turn ended in, or that it still runs.
#[derive(Clone, Copy, Debug, PartialEq, Eq, Structural)]
pub enum TurnStatus {
    InProgress,
    Completed,
    Interrupted,
    Failed,
}

/// A turn as replay reads it: its state and, for each item, whether it is
/// a user message.
#[derive(Debug)]
pub struct TurnView {
    pub status: TurnStatus,
    pub item_is_user_message: Vec<bool>,
}

/// What replaying one turn does.
#[derive(Debug)]
pub struct TurnReplayPlan {
    /// The turn still runs: the task is shown as started.
    pub start_task: bool,
    /// The positions of the items to replay, in order.
    pub items: Vec<usize>,
    /// The state the turn is completed with, where it ended.
    pub completed_as: Option<TurnStatus>,
}

/// Which turns are hidden: the first never is; each later one is where the
/// pair it ends is a nested review hidden from the transcript.
pub open spec fn hidden_at(pair_hidden: Seq<bool>, i: int) -> bool {
    i > 0 && pair_hidden[i - 1]
}

/// The items of a turn that are replayed: all but the user messages of a
/// hidden turn.
pub open spec fn shown_item(t: TurnView, hidden: bool, k: int) -> bool {
    !(hidden && t.item_is_user_message@[k])
}

/// The state a turn is completed with: a hidden turn counts as completed; a
/// running turn is not completed.
pub open spec fn completion(t: TurnView, hidden: bool) -> Option<TurnStatus> {
    let status = if hidden {
        TurnStatus::Completed
    } else {
        t.status
    };
    if status == TurnStatus::InProgress {
        None
    } else {
        Some(status)
    }
}

/// The plan of one turn is as replay does it.
pub open spec fn plan_of(p: TurnReplayPlan, t: TurnView, hidden: bool) -> bool {
    &&& p.start_task == (t.status == TurnStatus::InProgress)
    &&& p.completed_as == completion(t, hidden)
    &&& forall|j: int| 0 <= j < p.items@.len() ==> (#[trigger] p.items@[j]) < t.item_is_user_message@.len()
    &&& forall|j: int, m: int| 0 <= j < m < p.items@.len() ==> #[trigger] p.items@[j] < #[trigger] p.items@[m]
    &&& forall|k: int|
        0 <= k < t.item_is_user_message@.len() ==> (shown_item(t, hidden, k) <==> p.items@.contains(k as usize))
}

/// Plans the replay of one turn.
pub fn plan_turn_replay(t: &TurnView, hidden: bool) -> (p: TurnReplayPlan)
    ensures
        plan_of(p, *t, hidden),
{
    let mut items: Vec<usize> = Vec::new();
    let mut k: usize = 0;
    while k < t.item_is_user_message.len()
        invariant
            k <= t.item_is_user_message@.len(),
            forall|j: int| 0 <= j < items@.len() ==> (#[trigger] items@[j]) < k,
            forall|j: int, m: int| 0 <= j < m < items@.len() ==> #[trigger] items@[j] < #[trigger] items@[m],
            forall|q: int| 0 <= q < k ==> (shown_item(*t, hidden, q) <==> items@.contains(q as usize)),
        decreases t.item_is_user_message@.len() - k,
    {
        if !(hidden && t.item_is_user_message[k]) {
            let ghost before = items@;
            items.push(k);
            proof {
                assert forall|q: int| 0 <= q < k + 1 implies (shown_item(*t, hidden, q) <==> items@.contains(
                    q as usize,
                )) by {
                    if q < k {
                        if before.contains(q as usize) {
                            let w = choose|w: int| 0 <= w < before.len() && before[w] == q as usize;
                            assert(items@[w] == q as usize);
                        }
                        if items@.contains(q as usize) {
                            let w = choose|w: int| 0 <= w < items@.len() && items@[w] == q as usize;
                            if w < before.len() {
                                assert(before[w] == q as usize);
                            }
                        }
                    } else {
                        assert(items@[items@.len() - 1] == k);
                    }
                }
            }
        } else {
            proof {
                assert(!items@.contains(k)) by {
                    if items@.contains(k) {
                        let w = choose|w: int| 0 <= w < items@.len() && items@[w] == k;
                    }
                }
            }
        }
        k += 1;
    }
    let status = if hidden {
        TurnStatus::Completed
    } else {
        t.status
    };
    let completed_as = match status {
        TurnStatus::InProgress => None,
        other => Some(other),
    };
    let start_task = match t.status {
        TurnStatus::InProgress => true,
        _ => false,
    };
    TurnReplayPlan { start_task, items, completed_as }
}

/// Plans the replay of all turns; `pair_hidden[i]` tells whether turn
/// `i + 1` is a nested review hidden behind turn `i`.
pub fn plan_thread_replay(turns: &Vec<TurnView>, pair_hidden: &Vec<bool>) -> (plans: Vec<TurnReplayPlan>)
    requires
        turns@.len() == 0 || pair_hidden@.len() + 1 == turns@.len(),
    ensures
        plans@.len() == turns@.len(),
        forall|i: int|
            0 <= i < turns@.len() ==> plan_of(#[trigger] plans@[i], turns@[i], hidden_at(pair_hidden@, i)),
{
    let mut plans: Vec<TurnReplayPlan> = Vec::new();
    let mut i: usize = 0;
    while i < turns.len()
        invariant
            i <= turns@.len(),
            turns@.len() == 0 || pair_hidden@.len() + 1 == turns@.len(),
            plans@.len() == i,
            forall|j: int| 0 <= j < i ==> plan_of(#[trigger] plans@[j], turns@[j], hidden_at(pair_hidden@, j)),
        decreases turns@.len() - i,
    {
        let hidden = i > 0 && pair_hidden[i - 1];
        plans.push(plan_turn_replay(&turns[i], hidden));
        i += 1;
    }
    plans
}

/// One step of replaying a reasoning item.
#[derive(Debug)]
pub enum ReasoningReplayStep {
    /// Start a new section of reasoning.
    SectionBreak,
    /// Add this text to the reasoning.
    Delta(String),
    /// The reasoning is complete.
    Final,
}

/// The step adds exactly this text.
pub open spec fn delta_is(s: ReasoningReplayStep, t: Seq<char>) -> bool {
    s matches ReasoningReplayStep::Delta(x) && x@ == t
}

/// The texts of a reasoning item that are replayed: the summary, then the
/// raw content where raw reasoning is shown; live items replay none.
pub open spec fn reasoning_parts(summary: Seq<String>, content: Seq<String>, show_raw: bool, from_replay: bool) -> Seq<
    String,
> {
    if !from_replay {
        Seq::empty()
    } else if show_raw {
        summary + content
    } else {
        summary
    }
}

/// The steps of rendering a reasoning item: each replayed text, with a
/// section break between consecutive ones, then the end.
pub fn reasoning_replay_steps(summary: &Vec<String>, content: &Vec<String>, show_raw: bool, from_replay: bool) -> (steps:
    Vec<ReasoningReplayStep>)
    ensures
        ({
            let parts = reasoning_parts(summary@, content@, show_raw, from_replay);
            &&& steps@.len() == (if parts.len() == 0 {
                1
            } else {
                2 * parts.len()
            })
            &&& steps@.last() is Final
            &&& forall|k: int|
                0 <= k < parts.len() ==> delta_is(#[trigger] steps@[2 * k], parts[k]@)
            &&& forall|k: int| 0 < k < parts.len() ==> (#[trigger] steps@[2 * k - 1]) is SectionBreak
        }),
{
    let ghost parts = reasoning_parts(summary@, content@, show_raw, from_replay);
    let mut steps: Vec<ReasoningReplayStep> = Vec::new();
    if from_replay {
        let mut all: Vec<&String> = Vec::new();
        let mut i: usize = 0;
        while i < summary.len()
            invariant
                i <= summary@.len(),
                all@.len() == i,
                forall|k: int| 0 <= k < i ==> *(#[trigger] all@[k]) == summary@[k],
            decreases summary@.len() - i,
        {
            all.push(&summary[i]);
            i += 1;
        }
        if show_raw {
            let mut j: usize = 0;
            while j < content.len()
                invariant
                    j <= content@.len(),
                    all@.len() == summary@.len() + j,
                    forall|k: int| 0 <= k < summary@.len() ==> *(#[trigger] all@[k]) == summary@[k],
                    forall|k: int| 0 <= k < j ==> *(#[trigger] all@[summary@.len() + k]) == content@[k],
                decreases content@.len() - j,
            {
                all.push(&content[j]);
                j += 1;
            }
        }
        proof {
            assert(all@.len() == parts.len());
            assert forall|k: int| 0 <= k < parts.len() implies *(#[trigger] all@[k]) == parts[k] by {
                if k >= summary@.len() {
                    assert(*all@[summary@.len() + (k - summary@.len())] == content@[k - summary@.len()]);
                }
            }
        }
        let mut k: usize = 0;
        while k < all.len()
            invariant
                k <= all@.len(),
                all@.len() == parts.len(),
                forall|m: int| 0 <= m < parts.len() ==> *(#[trigger] all@[m]) == parts[m],
                steps@.len() == (if k == 0 {
                    0
                } else {
                    2 * k - 1
                }),
                forall|m: int|
                    0 <= m < k ==> delta_is(#[trigger] steps@[2 * m], parts[m]@),
                forall|m: int| 0 < m < k ==> (#[trigger] steps@[2 * m - 1]) is SectionBreak,
            decreases all@.len() - k,
        {
            let ghost before = steps@;
            if k > 0 {
                steps.push(ReasoningReplayStep::SectionBreak);
            }
            steps.push(ReasoningReplayStep::Delta(String::from_str(all[k].as_str())));
            proof {
                assert forall|m: int| 0 <= m < k + 1 implies delta_is(#[trigger] steps@[2 * m], parts[m]@) by {
                    if m < k {
                        assert(steps@[2 * m] == before[2 * m]);
                    }
                }
                assert forall|m: int| 0 < m < k + 1 implies (#[trigger] steps@[2 * m - 1]) is SectionBreak by {
                    if m < k {
                        assert(steps@[2 * m - 1] == before[2 * m - 1]);
                    }
                }
            }
            k += 1;
        }
    }
    let ghost before = steps@;
    steps.push(ReasoningReplayStep::Final);
    proof {
        assert forall|m: int| 0 <= m < parts.len() implies delta_is(#[trigger] steps@[2 * m], parts[m]@) by {
            assert(steps@[2 * m] == before[2 * m]);
        }
        assert forall|m: int| 0 < m < parts.len() implies (#[trigger] steps@[2 * m - 1]) is SectionBreak by {
            assert(steps@[2 * m - 1] == before[2 * m - 1]);
        }
    }
    steps
}

} // verus!
