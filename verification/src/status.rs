//! The status line and terminal title: which value each configured item
//! shows, how the run state reads, and how title parts are shortened.

use vstd::prelude::*;
use crate::text::{
    chars_of, contains_str, decimal_chars, push_decimal_chars, push_decimal_u64, push_str_chars, starts_with,
    starts_with_str, string_of, contains_text,
};

verus! {

/// What the task bucket of the terminal title last was.
#[derive(Clone, Copy, Debug, PartialEq, Eq, Structural)]
pub enum TerminalTitleStatusKind {
    Working,
    WaitingForBackgroundTerminal,
    Thinking,
}

/// The run state as text items show it.
pub open spec fn run_state_text(mcp_starting: bool, kind: TerminalTitleStatusKind, task_running: bool) -> Seq<char> {
    if mcp_starting {
        "Starting"@
    } else if !task_running {
        "Ready"@
    } else {
        match kind {
            TerminalTitleStatusKind::Working => "Working"@,
            TerminalTitleStatusKind::WaitingForBackgroundTerminal => "Waiting"@,
            TerminalTitleStatusKind::Thinking => "Thinking"@,
        }
    }
}

/// The run state label: `Starting` while MCP servers start, `Ready` when no
/// task runs whatever the last state was, else what the task is doing.
pub fn run_state_status_text(mcp_starting: bool, kind: TerminalTitleStatusKind, task_running: bool) -> (s: String)
    ensures
        s@ == run_state_text(mcp_starting, kind, task_running),
{
    if mcp_starting {
        return String::from_str("Starting");
    }
    match kind {
        TerminalTitleStatusKind::Working if !task_running => String::from_str("Ready"),
        TerminalTitleStatusKind::WaitingForBackgroundTerminal if !task_running => String::from_str("Ready"),
        TerminalTitleStatusKind::Thinking if !task_running => String::from_str("Ready"),
        TerminalTitleStatusKind::Working => String::from_str("Working"),
        TerminalTitleStatusKind::WaitingForBackgroundTerminal => String::from_str("Waiting"),
        TerminalTitleStatusKind::Thinking => String::from_str("Thinking"),
    }
}

/// `Tasks completed/total` of the last plan update, none without one or
/// for an empty plan.
pub open spec fn task_progress_text(progress: Option<(usize, usize)>) -> Option<Seq<char>> {
    match progress {
        Some((done, total)) => if total == 0 {
            None
        } else {
            Some("Tasks "@ + decimal_chars(done as nat) + "/"@ + decimal_chars(total as nat))
        },
        None => None,
    }
}

/// The plan progress for the terminal title (see `task_progress_text`).
pub fn terminal_title_task_progress(progress: Option<(usize, usize)>) -> (r: Option<String>)
    ensures
        r matches Some(s) ==> task_progress_text(progress) == Some(s@),
        r is None ==> task_progress_text(progress) is None,
{
    let (done, total) = match progress {
        Some(p) => p,
        None => {
            return None;
        },
    };
    if total == 0 {
        return None;
    }
    let mut s = String::new();
    push_str_chars(&mut s, "Tasks ");
    push_decimal_chars(&mut s, done);
    push_str_chars(&mut s, "/");
    push_decimal_chars(&mut s, total);
    proof {
        assert(s@ =~= "Tasks "@ + decimal_chars(done as nat) + "/"@ + decimal_chars(total as nat));
    }
    Some(s)
}

/// The frames of the title spinner.
pub open spec fn spinner_frames() -> Seq<Seq<char>> {
    seq!["⠋"@, "⠙"@, "⠹"@, "⠸"@, "⠼"@, "⠴"@, "⠦"@, "⠧"@, "⠇"@, "⠏"@]
}

/// The spinner frame shown `elapsed_ms` after the animation began: one
/// frame every 100 ms, round and round.
pub fn terminal_title_spinner_frame_at(elapsed_ms: u128) -> (s: String)
    ensures
        s@ == spinner_frames()[((elapsed_ms / 100) % 10) as int],
{
    let frame = ((elapsed_ms / 100) % 10) as u8;
    if frame == 0 {
        String::from_str("⠋")
    } else if frame == 1 {
        String::from_str("⠙")
    } else if frame == 2 {
        String::from_str("⠹")
    } else if frame == 3 {
        String::from_str("⠸")
    } else if frame == 4 {
        String::from_str("⠼")
    } else if frame == 5 {
        String::from_str("⠴")
    } else if frame == 6 {
        String::from_str("⠦")
    } else if frame == 7 {
        String::from_str("⠧")
    } else if frame == 8 {
        String::from_str("⠇")
    } else {
        String::from_str("⠏")
    }
}

/// The grapheme clusters of a text, as unicode-segmentation splits it.
pub uninterp spec fn grapheme_split(s: Seq<char>) -> Seq<Seq<char>>;

/// The grapheme clusters of a string.
///
/// Trusted: wraps `UnicodeSegmentation::graphemes` with extended clusters;
/// the clusters are named `grapheme_split` of the text. unicode-segmentation
/// documents them as consecutive pieces of the text, each nonempty, that
/// together make it up; that is stated too.
#[verifier::external_body]
pub(crate) fn graphemes(s: &str) -> (r: Vec<String>)
    ensures
        crate::text::string_views(r@) == grapheme_split(s@),
        concat(crate::text::string_views(r@)) == s@,
        forall|i: int| 0 <= i < r@.len() ==> (#[trigger] r@[i])@.len() > 0,
{
    unicode_segmentation::UnicodeSegmentation::graphemes(s, true).map(|g| g.to_string()).collect()
}

/// Pieces one after the other.
pub open spec fn concat(pieces: Seq<Seq<char>>) -> Seq<char>
    decreases pieces.len(),
{
    if pieces.len() == 0 {
        Seq::empty()
    } else {
        concat(pieces.drop_last()) + pieces.last()
    }
}

/// A title part shortened to `max_chars` grapheme clusters: whole where it
/// fits (or where `max_chars` is at most 3), else its first `max_chars - 3`
/// clusters and `...`.
pub open spec fn truncated_part(value: Seq<char>, max_chars: nat) -> Seq<char> {
    let g = grapheme_split(value);
    if max_chars == 0 {
        Seq::empty()
    } else if g.len() <= max_chars {
        value
    } else if max_chars <= 3 {
        concat(g.take(max_chars as int))
    } else {
        concat(g.take(max_chars - 3)) + "..."@
    }
}

/// The first `n` clusters of `g`, joined.
fn join_first(g: &Vec<String>, n: usize) -> (s: String)
    requires
        n <= g@.len(),
    ensures
        s@ == concat(crate::text::string_views(g@).take(n as int)),
{
    let mut s = String::new();
    let mut i: usize = 0;
    while i < n
        invariant
            i <= n <= g@.len(),
            s@ == concat(crate::text::string_views(g@).take(i as int)),
        decreases n - i,
    {
        push_str_chars(&mut s, g[i].as_str());
        proof {
            let v = crate::text::string_views(g@);
            assert(v.take(i + 1).drop_last() =~= v.take(i as int));
            assert(v[i as int] == g@[i as int]@);
        }
        i += 1;
    }
    s
}

/// Shortens a title part to `max_chars` grapheme clusters (see
/// `truncated_part`).
pub fn truncate_terminal_title_part(value: String, max_chars: usize) -> (s: String)
    ensures
        s@ == truncated_part(value@, max_chars as nat),
{
    if max_chars == 0 {
        return String::new();
    }
    let g = graphemes(value.as_str());
    proof {
        assert(crate::text::string_views(g@).len() == g@.len());
    }
    if g.len() <= max_chars || max_chars <= 3 {
        let n = if g.len() <= max_chars {
            g.len()
        } else {
            max_chars
        };
        let s = join_first(&g, n);
        proof {
            let v = crate::text::string_views(g@);
            if g.len() <= max_chars {
                assert(v.take(n as int) =~= v);
            }
        }
        return s;
    }
    let mut s = join_first(&g, max_chars - 3);
    push_str_chars(&mut s, "...");
    s
}

/// A rate-limit window as the status line reads it.
#[derive(Debug)]
pub struct RateLimitWindowDisplay {
    /// How long the window is, as named (`5h`, `weekly`), where known.
    pub duration_label: Option<String>,
    /// The used percentage as the status line shows it.
    pub used_percent: u8,
}

/// The primary and secondary rate-limit windows.
#[derive(Debug)]
pub struct RateLimitSnapshotDisplay {
    pub primary: Option<RateLimitWindowDisplay>,
    pub secondary: Option<RateLimitWindowDisplay>,
}

/// Whether a window has the given duration name.
pub open spec fn has_label(w: RateLimitWindowDisplay, label: Seq<char>) -> bool {
    w.duration_label matches Some(l) && l@ == label
}

/// Whether a window has the given duration name.
pub fn matches_window_label(window: &RateLimitWindowDisplay, label: &str) -> (r: bool)
    ensures
        r == has_label(*window, label@),
{
    match &window.duration_label {
        Some(l) => crate::text::str_eq(l.as_str(), label),
        None => false,
    }
}

/// Which window: `Some(false)` the primary, `Some(true)` the secondary.
pub open spec fn find_window(s: RateLimitSnapshotDisplay, label: Seq<char>) -> Option<bool> {
    if window_has(s.primary, label) {
        Some(false)
    } else if window_has(s.secondary, label) {
        Some(true)
    } else {
        None
    }
}

/// The window of the given duration: the primary where it has it, else the
/// secondary (`true` marks the secondary).
pub fn find_reflect_window<'a>(snapshot: &'a RateLimitSnapshotDisplay, label: &str) -> (r: Option<(&'a RateLimitWindowDisplay, bool)>)
    ensures
        match r {
            Some((w, sec)) => find_window(*snapshot, label@) == Some(sec) && (if sec {
                snapshot.secondary == Some(*w)
            } else {
                snapshot.primary == Some(*w)
            }),
            None => find_window(*snapshot, label@) is None,
        },
{
    if let Some(primary) = &snapshot.primary {
        if matches_window_label(primary, label) {
            return Some((primary, false));
        }
    }
    if let Some(secondary) = &snapshot.secondary {
        if matches_window_label(secondary, label) {
            return Some((secondary, true));
        }
    }
    None
}

/// The five-hour window: the primary named `5h`; else the secondary named
/// `5h` where a weekly window exists; else a primary that is not weekly;
/// else, where the primary is weekly, a secondary that is not.
pub open spec fn five_hour_window(s: RateLimitSnapshotDisplay) -> Option<bool> {
    if window_has(s.primary, "5h"@) {
        Some(false)
    } else if find_window(s, "weekly"@) is Some && window_has(s.secondary, "5h"@) {
        Some(true)
    } else if window_lacks(s.primary, "weekly"@) {
        Some(false)
    } else if window_has(s.primary, "weekly"@) && window_lacks(s.secondary, "weekly"@) {
        Some(true)
    } else {
        None
    }
}

/// A window there, with the duration name.
pub open spec fn window_has(w: Option<RateLimitWindowDisplay>, label: Seq<char>) -> bool {
    match w {
        Some(x) => has_label(x, label),
        None => false,
    }
}

/// A window there, without the duration name.
pub open spec fn window_lacks(w: Option<RateLimitWindowDisplay>, label: Seq<char>) -> bool {
    match w {
        Some(x) => !has_label(x, label),
        None => false,
    }
}

/// The weekly window: the one named `weekly`, else the secondary.
pub open spec fn weekly_window(s: RateLimitSnapshotDisplay) -> Option<bool> {
    match find_window(s, "weekly"@) {
        Some(b) => Some(b),
        None => if s.secondary is Some {
            Some(true)
        } else {
            None
        },
    }
}

/// Which window a choice names, as the window itself.
pub open spec fn chosen(s: RateLimitSnapshotDisplay, sec: bool) -> Option<RateLimitWindowDisplay> {
    if sec {
        s.secondary
    } else {
        s.primary
    }
}

/// The five-hour window of a snapshot (see `five_hour_window`).
pub fn five_hour_status_window<'a>(snapshot: &'a RateLimitSnapshotDisplay) -> (r: Option<(&'a RateLimitWindowDisplay, bool)>)
    ensures
        match r {
            Some((w, sec)) => five_hour_window(*snapshot) == Some(sec) && chosen(*snapshot, sec) == Some(*w),
            None => five_hour_window(*snapshot) is None,
        },
{
    if let Some(found) = find_primary_reflect_window(snapshot, "5h") {
        return Some(found);
    }
    if let Some(found) = secondary_window_with_label_when_weekly_is_available(snapshot, "5h") {
        return Some(found);
    }
    if let Some(found) = non_weekly_primary_window(snapshot) {
        return Some(found);
    }
    non_weekly_secondary_window_when_primary_is_weekly(snapshot)
}

/// The primary window, where it has the duration name.
pub fn find_primary_reflect_window<'a>(snapshot: &'a RateLimitSnapshotDisplay, label: &str) -> (r: Option<
    (&'a RateLimitWindowDisplay, bool),
>)
    ensures
        match r {
            Some((w, sec)) => !sec && window_has(snapshot.primary, label@) && snapshot.primary == Some(*w),
            None => !window_has(snapshot.primary, label@),
        },
{
    match &snapshot.primary {
        Some(p) => if matches_window_label(p, label) {
            Some((p, false))
        } else {
            None
        },
        None => None,
    }
}

/// The secondary window, where it has the duration name and a weekly window
/// exists.
pub fn secondary_window_with_label_when_weekly_is_available<'a>(
    snapshot: &'a RateLimitSnapshotDisplay,
    label: &str,
) -> (r: Option<(&'a RateLimitWindowDisplay, bool)>)
    ensures
        match r {
            Some((w, sec)) => sec && find_window(*snapshot, "weekly"@) is Some && window_has(snapshot.secondary, label@)
                && snapshot.secondary == Some(*w),
            None => !(find_window(*snapshot, "weekly"@) is Some && window_has(snapshot.secondary, label@)),
        },
{
    if find_reflect_window(snapshot, "weekly").is_none() {
        return None;
    }
    match &snapshot.secondary {
        Some(w) => if matches_window_label(w, label) {
            Some((w, true))
        } else {
            None
        },
        None => None,
    }
}

/// The primary window, where it is not the weekly one.
pub fn non_weekly_primary_window<'a>(snapshot: &'a RateLimitSnapshotDisplay) -> (r: Option<
    (&'a RateLimitWindowDisplay, bool),
>)
    ensures
        match r {
            Some((w, sec)) => !sec && window_lacks(snapshot.primary, "weekly"@) && snapshot.primary == Some(*w),
            None => !window_lacks(snapshot.primary, "weekly"@),
        },
{
    match &snapshot.primary {
        Some(p) => if matches_window_label(p, "weekly") {
            None
        } else {
            Some((p, false))
        },
        None => None,
    }
}

/// The secondary window, where the primary is the weekly one and the
/// secondary is not.
pub fn non_weekly_secondary_window_when_primary_is_weekly<'a>(snapshot: &'a RateLimitSnapshotDisplay) -> (r: Option<
    (&'a RateLimitWindowDisplay, bool),
>)
    ensures
        match r {
            Some((w, sec)) => sec && window_has(snapshot.primary, "weekly"@) && window_lacks(
                snapshot.secondary,
                "weekly"@,
            ) && snapshot.secondary == Some(*w),
            None => !(window_has(snapshot.primary, "weekly"@) && window_lacks(snapshot.secondary, "weekly"@)),
        },
{
    match &snapshot.primary {
        Some(p) => if !matches_window_label(p, "weekly") {
            return None;
        },
        None => {
            return None;
        },
    }
    match &snapshot.secondary {
        Some(w) => if matches_window_label(w, "weekly") {
            None
        } else {
            Some((w, true))
        },
        None => None,
    }
}

/// The weekly window of a snapshot (see `weekly_window`).
pub fn weekly_status_window<'a>(snapshot: &'a RateLimitSnapshotDisplay) -> (r: Option<(&'a RateLimitWindowDisplay, bool)>)
    ensures
        match r {
            Some((w, sec)) => weekly_window(*snapshot) == Some(sec) && chosen(*snapshot, sec) == Some(*w),
            None => weekly_window(*snapshot) is None,
        },
{
    match find_reflect_window(snapshot, "weekly") {
        Some(found) => Some(found),
        None => match &snapshot.secondary {
            Some(w) => Some((w, true)),
            None => None,
        },
    }
}

/// Who reviews approvals when the policy asks on request.
#[derive(Clone, Copy, Debug, PartialEq, Eq, Structural)]
pub enum ApprovalsReviewer {
    AutoReview,
    User,
}

/// The approval mode as the status line shows it.
pub open spec fn approval_mode_text(on_request: bool, reviewer: ApprovalsReviewer, policy: Seq<char>) -> Seq<char> {
    if on_request {
        match reviewer {
            ApprovalsReviewer::AutoReview => "Approve for me"@,
            ApprovalsReviewer::User => "Ask for approval"@,
        }
    } else {
        policy
    }
}

/// The approval mode: who approves where the policy asks on request, else
/// the policy's name.
pub fn approval_mode_display(on_request: bool, reviewer: ApprovalsReviewer, policy: &str) -> (s: String)
    ensures
        s@ == approval_mode_text(on_request, reviewer, policy@),
{
    if on_request {
        return match reviewer {
            ApprovalsReviewer::AutoReview => String::from_str("Approve for me"),
            ApprovalsReviewer::User => String::from_str("Ask for approval"),
        };
    }
    String::from_str(policy)
}

/// The permissions as the status line shows them.
pub open spec fn permissions_text(active_profile: Option<Seq<char>>, summary: Seq<char>, disabled: bool) -> Seq<char> {
    if active_profile is Some && !starts_with(active_profile->0, ":"@) {
        active_profile->0
    } else if starts_with(summary, "read-only"@) && !contains_text(
        summary.skip(9),
        "(network access enabled)"@,
    ) {
        "Read Only"@
    } else if starts_with(summary, "workspace-write"@) && !contains_text(
        summary.skip(15),
        "(network access enabled)"@,
    ) {
        "Workspace"@
    } else if disabled {
        "Full Access"@
    } else {
        "Custom permissions"@
    }
}

/// The permissions: a named profile by its name; else read-only or
/// workspace-write without network access as `Read Only` or `Workspace`;
/// no sandbox as `Full Access`; anything else as custom. `summary` is the
/// permission profile summarized, `disabled` whether it has no sandbox.
pub fn permissions_display(active_profile: Option<&str>, summary: &str, disabled: bool) -> (s: String)
    ensures
        s@ == permissions_text(
            match active_profile {
                Some(p) => Some(p@),
                None => None,
            },
            summary@,
            disabled,
        ),
{
    if let Some(id) = active_profile {
        if !starts_with_str(id, ":") {
            return String::from_str(id);
        }
    }
    let cs = chars_of(summary);
    if starts_with_str(summary, "read-only") {
        proof {
            reveal_strlit("read-only");
        }
        let rest = string_of(&cs.as_slice()[9..cs.len()]);
        proof {
            reveal_strlit("read-only");
            assert(cs@.subrange(9, cs@.len() as int) =~= summary@.skip(9));
        }
        if !contains_str(rest.as_str(), "(network access enabled)") {
            return String::from_str("Read Only");
        }
    }
    if starts_with_str(summary, "workspace-write") {
        proof {
            reveal_strlit("workspace-write");
        }
        let rest = string_of(&cs.as_slice()[15..cs.len()]);
        proof {
            reveal_strlit("workspace-write");
            assert(cs@.subrange(15, cs@.len() as int) =~= summary@.skip(15));
        }
        if !contains_str(rest.as_str(), "(network access enabled)") {
            return String::from_str("Workspace");
        }
    }
    if disabled {
        return String::from_str("Full Access");
    }
    String::from_str("Custom permissions")
}

/// Whether a character is white space: it has the Unicode `White_Space`
/// property (U+0009..U+000D, space, U+0085, U+00A0, U+1680, U+2000..U+200A,
/// U+2028, U+2029, U+202F, U+205F and U+3000).
pub open spec fn white_space(c: char) -> bool {
    let u = c as u32;
    (0x9 <= u && u <= 0xd) || u == 0x20 || u == 0x85 || u == 0xa0 || u == 0x1680 || (0x2000 <= u
        && u <= 0x200a) || u == 0x2028 || u == 0x2029 || u == 0x202f || u == 0x205f || u == 0x3000
}

/// Whether a character is white space (see `white_space`).
pub fn is_white_space(c: char) -> (r: bool)
    ensures
        r == white_space(c),
{
    let u = c as u32;
    (0x9 <= u && u <= 0xd) || u == 0x20 || u == 0x85 || u == 0xa0 || u == 0x1680 || (0x2000 <= u
        && u <= 0x200a) || u == 0x2028 || u == 0x2029 || u == 0x202f || u == 0x205f || u == 0x3000
}

/// The index of the first character of `s` that is not white space.
pub open spec fn first_non_white(s: Seq<char>) -> nat
    decreases s.len(),
{
    if s.len() == 0 {
        0
    } else if white_space(s[0]) {
        1 + first_non_white(s.drop_first())
    } else {
        0
    }
}

/// The index after the last character of `s` that is not white space.
pub open spec fn end_non_white(s: Seq<char>) -> nat
    decreases s.len(),
{
    if s.len() == 0 {
        0
    } else if white_space(s.last()) {
        end_non_white(s.drop_last())
    } else {
        s.len()
    }
}

/// `s` without leading and trailing white space, as `str::trim` gives it.
pub open spec fn trimmed(s: Seq<char>) -> Seq<char> {
    let a = first_non_white(s);
    let b = end_non_white(s);
    if a >= b {
        Seq::empty()
    } else {
        s.subrange(a as int, b as int)
    }
}

pub(crate) proof fn lemma_first_non_white(s: Seq<char>, k: int)
    requires
        0 <= k <= s.len(),
        forall|j: int| 0 <= j < k ==> white_space(#[trigger] s[j]),
        k < s.len() ==> !white_space(s[k]),
    ensures
        first_non_white(s) == k,
    decreases k,
{
    if k > 0 {
        let t = s.drop_first();
        assert forall|j: int| 0 <= j < k - 1 implies white_space(#[trigger] t[j]) by {
            assert(t[j] == s[j + 1]);
        }
        if k < s.len() {
            assert(t[k - 1] == s[k]);
        }
        lemma_first_non_white(t, k - 1);
    }
}

proof fn lemma_end_non_white(s: Seq<char>, k: int)
    requires
        0 <= k <= s.len(),
        forall|j: int| k <= j < s.len() ==> white_space(#[trigger] s[j]),
        k > 0 ==> !white_space(s[k - 1]),
    ensures
        end_non_white(s) == k,
    decreases s.len(),
{
    if s.len() > k {
        let t = s.drop_last();
        assert forall|j: int| k <= j < t.len() implies white_space(#[trigger] t[j]) by {
            assert(t[j] == s[j]);
        }
        if k > 0 {
            assert(t[k - 1] == s[k - 1]);
        }
        lemma_end_non_white(t, k);
    }
}

/// `s` without leading and trailing white space (see `trimmed`).
pub fn trim_text(s: &str) -> (r: String)
    ensures
        r@ == trimmed(s@),
{
    let v = chars_of(s);
    let mut a: usize = 0;
    while a < v.len() && is_white_space(v[a])
        invariant
            a <= v.len(),
            forall|j: int| 0 <= j < a ==> white_space(#[trigger] v@[j]),
        decreases v.len() - a,
    {
        a += 1;
    }
    let mut b: usize = v.len();
    while b > 0 && is_white_space(v[b - 1])
        invariant
            b <= v.len(),
            forall|j: int| b <= j < v.len() ==> white_space(#[trigger] v@[j]),
        decreases b,
    {
        b -= 1;
    }
    proof {
        lemma_first_non_white(v@, a as int);
        lemma_end_non_white(v@, b as int);
    }
    if a >= b {
        return String::new();
    }
    string_of(&v.as_slice()[a..b])
}

/// An item of the status line.
#[derive(Clone, Copy, Debug, PartialEq, Eq, Structural)]
pub enum StatusLineItem {
    ModelName,
    ModelWithReasoning,
    Reasoning,
    CurrentDir,
    ProjectRoot,
    GitBranch,
    PullRequestNumber,
    BranchChanges,
    Status,
    Permissions,
    ApprovalMode,
    UsedTokens,
    ContextRemaining,
    ContextUsed,
    FiveHourLimit,
    WeeklyLimit,
    ReflectVersion,
    ContextWindowSize,
    TotalInputTokens,
    TotalOutputTokens,
    SessionId,
    FastMode,
    RawOutput,
    ThreadTitle,
    WorkspaceHeadline,
    TaskProgress,
}

/// An item of the terminal title.
#[derive(Clone, Copy, Debug, PartialEq, Eq, Structural)]
pub enum TerminalTitleItem {
    AppName,
    Project,
    CurrentDir,
    Spinner,
    Status,
    Thread,
    GitBranch,
    ContextRemaining,
    ContextUsed,
    FiveHourLimit,
    WeeklyLimit,
    ReflectVersion,
    UsedTokens,
    TotalInputTokens,
    TotalOutputTokens,
    SessionId,
    FastMode,
    Model,
    ModelWithReasoning,
    Reasoning,
    TaskProgress,
}

/// An item of the status surface preview.
#[derive(Clone, Copy, Debug, PartialEq, Eq, Structural)]
pub enum StatusSurfacePreviewItem {
    AppName,
    ProjectName,
    ProjectRoot,
    Status,
    TaskProgress,
    CurrentDir,
    ThreadTitle,
    GitBranch,
    PullRequestNumber,
    BranchChanges,
    Permissions,
    ApprovalMode,
    ContextRemaining,
    ContextUsed,
    FiveHourLimit,
    WeeklyLimit,
    ReflectVersion,
    ContextWindowSize,
    UsedTokens,
    TotalInputTokens,
    TotalOutputTokens,
    SessionId,
    FastMode,
    RawOutput,
    WorkspaceHeadline,
    Model,
    ModelWithReasoning,
    Reasoning,
}

/// What the status surfaces read of the session, each value as it is shown.
#[derive(Debug)]
pub struct StatusSnapshot {
    pub model_name: String,
    pub model_with_reasoning: String,
    pub reasoning: String,
    pub current_dir: String,
    pub project_root_name: Option<String>,
    pub project_name: Option<String>,
    pub git_branch: Option<String>,
    pub pull_request_number: Option<u64>,
    /// Lines added and deleted on the branch.
    pub branch_changes: Option<(u64, u64)>,
    pub run_state: String,
    pub permissions: String,
    pub approval_mode: String,
    /// Tokens used in all, and that count written compactly.
    pub used_tokens_total: i64,
    pub used_tokens_compact: String,
    pub context_remaining_percent: Option<i64>,
    pub context_used_percent: Option<i64>,
    pub five_hour_limit: Option<String>,
    pub weekly_limit: Option<String>,
    pub version: String,
    pub context_window_compact: Option<String>,
    pub input_tokens_compact: String,
    pub output_tokens_compact: String,
    pub thread_id: Option<String>,
    pub fast_mode_on: bool,
    pub raw_output: bool,
    pub thread_name: Option<String>,
    pub workspace_headline: Option<String>,
    pub task_progress: Option<(usize, usize)>,
}

/// The view of an optional string.
pub open spec fn opt(s: Option<String>) -> Option<Seq<char>> {
    match s {
        Some(x) => Some(x@),
        None => None,
    }
}

/// The text of a signed number.
pub open spec fn signed_text(n: i64) -> Seq<char> {
    if n < 0 {
        "-"@ + decimal_chars((-n) as nat)
    } else {
        decimal_chars(n as nat)
    }
}

/// The thread title: the thread's name trimmed, else its id.
pub open spec fn thread_title(s: StatusSnapshot) -> Option<Seq<char>> {
    match s.thread_name {
        Some(name) => if trimmed(name@).len() == 0 {
            opt(s.thread_id)
        } else {
            Some(trimmed(name@))
        },
        None => opt(s.thread_id),
    }
}

/// What a status line item shows; none leaves the item out for now.
pub open spec fn status_value(s: StatusSnapshot, item: StatusLineItem) -> Option<Seq<char>> {
    match item {
        StatusLineItem::ModelName => Some(s.model_name@),
        StatusLineItem::ModelWithReasoning => Some(s.model_with_reasoning@),
        StatusLineItem::Reasoning => Some(s.reasoning@),
        StatusLineItem::CurrentDir => Some(s.current_dir@),
        StatusLineItem::ProjectRoot => opt(s.project_root_name),
        StatusLineItem::GitBranch => opt(s.git_branch),
        StatusLineItem::PullRequestNumber => match s.pull_request_number {
            Some(n) => Some("PR #"@ + decimal_chars(n as nat)),
            None => None,
        },
        StatusLineItem::BranchChanges => match s.branch_changes {
            Some((a, d)) => if a == 0 && d == 0 {
                Some("No changes"@)
            } else {
                Some("+"@ + decimal_chars(a as nat) + " -"@ + decimal_chars(d as nat))
            },
            None => None,
        },
        StatusLineItem::Status => Some(s.run_state@),
        StatusLineItem::Permissions => Some(s.permissions@),
        StatusLineItem::ApprovalMode => Some(s.approval_mode@),
        StatusLineItem::UsedTokens => if s.used_tokens_total <= 0 {
            None
        } else {
            Some(s.used_tokens_compact@ + " used"@)
        },
        StatusLineItem::ContextRemaining => match s.context_remaining_percent {
            Some(p) => Some("Context "@ + signed_text(p) + "% left"@),
            None => None,
        },
        StatusLineItem::ContextUsed => match s.context_used_percent {
            Some(p) => Some("Context "@ + signed_text(p) + "% used"@),
            None => None,
        },
        StatusLineItem::FiveHourLimit => opt(s.five_hour_limit),
        StatusLineItem::WeeklyLimit => opt(s.weekly_limit),
        StatusLineItem::ReflectVersion => Some(s.version@),
        StatusLineItem::ContextWindowSize => match s.context_window_compact {
            Some(c) => Some(c@ + " window"@),
            None => None,
        },
        StatusLineItem::TotalInputTokens => Some(s.input_tokens_compact@ + " in"@),
        StatusLineItem::TotalOutputTokens => Some(s.output_tokens_compact@ + " out"@),
        StatusLineItem::SessionId => opt(s.thread_id),
        StatusLineItem::FastMode => if s.fast_mode_on {
            Some("Fast on"@)
        } else {
            Some("Fast off"@)
        },
        StatusLineItem::RawOutput => if s.raw_output {
            Some("raw output"@)
        } else {
            None
        },
        StatusLineItem::ThreadTitle => thread_title(s),
        StatusLineItem::WorkspaceHeadline => opt(s.workspace_headline),
        StatusLineItem::TaskProgress => task_progress_text(s.task_progress),
    }
}

fn copy_opt(v: &Option<String>) -> (r: Option<String>)
    ensures
        opt(r) == opt(*v),
{
    match v {
        Some(x) => Some(x.clone()),
        None => None,
    }
}

fn text_plus(a: &str, b: &str) -> (s: String)
    ensures
        s@ == a@ + b@,
{
    let mut s = String::new();
    push_str_chars(&mut s, a);
    push_str_chars(&mut s, b);
    proof {
        assert(s@ =~= a@ + b@);
    }
    s
}

fn push_signed(s: &mut String, n: i64)
    ensures
        final(s)@ == old(s)@ + signed_text(n),
{
    if n < 0 {
        push_str_chars(s, "-");
        let m: u64 = if n == i64::MIN {
            9223372036854775808u64
        } else {
            (-n) as u64
        };
        push_decimal_u64(s, m);
        proof {
            assert(old(s)@ + "-"@ + decimal_chars(m as nat) =~= old(s)@ + signed_text(n));
        }
    } else {
        push_decimal_u64(s, n as u64);
    }
}

/// The branch changes item reads the additions after `+` and the deletions
/// after ` -`: for (3, 1) it reads `+3 -1`; with neither, `No changes`;
/// without a count, the item is left out.
pub proof fn lemma_branch_changes_text(s: StatusSnapshot)
    ensures
        s.branch_changes is None ==> status_value(s, StatusLineItem::BranchChanges) is None,
        s.branch_changes matches Some((a, d)) ==> (a != 0 || d != 0) ==> status_value(
            s,
            StatusLineItem::BranchChanges,
        ) == Some(seq!['+'] + decimal_chars(a as nat) + seq![' ', '-'] + decimal_chars(d as nat)),
        s.branch_changes == Some((0u64, 0u64)) ==> status_value(s, StatusLineItem::BranchChanges)
            == Some("No changes"@),
{
    reveal_strlit("+");
    reveal_strlit(" -");
    assert("+"@ =~= seq!['+']);
    assert(" -"@ =~= seq![' ', '-']);
}

/// Paired items read their own side: input tokens end with ` in` after the
/// input count and output tokens with ` out` after the output count; the
/// context left shows the remaining percent and ends with `% left`, the
/// context used the used percent and `% used`; the fast mode item says
/// `Fast on` exactly when fast mode is on.
pub proof fn lemma_paired_items(s: StatusSnapshot)
    ensures
        status_value(s, StatusLineItem::TotalInputTokens) == Some(
            s.input_tokens_compact@ + seq![' ', 'i', 'n'],
        ),
        status_value(s, StatusLineItem::TotalOutputTokens) == Some(
            s.output_tokens_compact@ + seq![' ', 'o', 'u', 't'],
        ),
        s.context_remaining_percent matches Some(p) ==> status_value(
            s,
            StatusLineItem::ContextRemaining,
        ) == Some("Context "@ + signed_text(p) + seq!['%', ' ', 'l', 'e', 'f', 't']),
        s.context_used_percent matches Some(p) ==> status_value(s, StatusLineItem::ContextUsed)
            == Some("Context "@ + signed_text(p) + seq!['%', ' ', 'u', 's', 'e', 'd']),
        (status_value(s, StatusLineItem::FastMode) == Some(seq!['F', 'a', 's', 't', ' ', 'o', 'n']))
            == s.fast_mode_on,
{
    reveal_strlit(" in");
    reveal_strlit(" out");
    reveal_strlit("% left");
    reveal_strlit("% used");
    reveal_strlit("Fast on");
    reveal_strlit("Fast off");
    assert(" in"@ =~= seq![' ', 'i', 'n']);
    assert(" out"@ =~= seq![' ', 'o', 'u', 't']);
    assert("% left"@ =~= seq!['%', ' ', 'l', 'e', 'f', 't']);
    assert("% used"@ =~= seq!['%', ' ', 'u', 's', 'e', 'd']);
    assert("Fast on"@ =~= seq!['F', 'a', 's', 't', ' ', 'o', 'n']);
    assert("Fast off"@.len() != 7);
}

/// What a status line item shows (see `status_value`).
pub fn status_line_value_for_item(s: &StatusSnapshot, item: StatusLineItem) -> (r: Option<String>)
    ensures
        opt(r) == status_value(*s, item),
{
    match item {
        StatusLineItem::ModelName => Some(s.model_name.clone()),
        StatusLineItem::ModelWithReasoning => Some(s.model_with_reasoning.clone()),
        StatusLineItem::Reasoning => Some(s.reasoning.clone()),
        StatusLineItem::CurrentDir => Some(s.current_dir.clone()),
        StatusLineItem::ProjectRoot => copy_opt(&s.project_root_name),
        StatusLineItem::GitBranch => copy_opt(&s.git_branch),
        StatusLineItem::PullRequestNumber => match s.pull_request_number {
            Some(n) => {
                let mut t = String::new();
                push_str_chars(&mut t, "PR #");
                push_decimal_u64(&mut t, n);
                proof {
                    assert(t@ =~= "PR #"@ + decimal_chars(n as nat));
                }
                Some(t)
            },
            None => None,
        },
        StatusLineItem::BranchChanges => match s.branch_changes {
            Some((a, d)) => {
                if a == 0 && d == 0 {
                    Some(String::from_str("No changes"))
                } else {
                    let mut t = String::new();
                    push_str_chars(&mut t, "+");
                    push_decimal_u64(&mut t, a);
                    push_str_chars(&mut t, " -");
                    push_decimal_u64(&mut t, d);
                    proof {
                        assert(t@ =~= "+"@ + decimal_chars(a as nat) + " -"@ + decimal_chars(d as nat));
                    }
                    Some(t)
                }
            },
            None => None,
        },
        StatusLineItem::Status => Some(s.run_state.clone()),
        StatusLineItem::Permissions => Some(s.permissions.clone()),
        StatusLineItem::ApprovalMode => Some(s.approval_mode.clone()),
        StatusLineItem::UsedTokens => {
            if s.used_tokens_total <= 0 {
                None
            } else {
                Some(text_plus(s.used_tokens_compact.as_str(), " used"))
            }
        },
        StatusLineItem::ContextRemaining => match s.context_remaining_percent {
            Some(p) => {
                let mut t = String::new();
                push_str_chars(&mut t, "Context ");
                push_signed(&mut t, p);
                push_str_chars(&mut t, "% left");
                proof {
                    assert(t@ =~= "Context "@ + signed_text(p) + "% left"@);
                }
                Some(t)
            },
            None => None,
        },
        StatusLineItem::ContextUsed => match s.context_used_percent {
            Some(p) => {
                let mut t = String::new();
                push_str_chars(&mut t, "Context ");
                push_signed(&mut t, p);
                push_str_chars(&mut t, "% used");
                proof {
                    assert(t@ =~= "Context "@ + signed_text(p) + "% used"@);
                }
                Some(t)
            },
            None => None,
        },
        StatusLineItem::FiveHourLimit => copy_opt(&s.five_hour_limit),
        StatusLineItem::WeeklyLimit => copy_opt(&s.weekly_limit),
        StatusLineItem::ReflectVersion => Some(s.version.clone()),
        StatusLineItem::ContextWindowSize => match &s.context_window_compact {
            Some(c) => Some(text_plus(c.as_str(), " window")),
            None => None,
        },
        StatusLineItem::TotalInputTokens => Some(text_plus(s.input_tokens_compact.as_str(), " in")),
        StatusLineItem::TotalOutputTokens => Some(text_plus(s.output_tokens_compact.as_str(), " out")),
        StatusLineItem::SessionId => copy_opt(&s.thread_id),
        StatusLineItem::FastMode => {
            if s.fast_mode_on {
                Some(String::from_str("Fast on"))
            } else {
                Some(String::from_str("Fast off"))
            }
        },
        StatusLineItem::RawOutput => {
            if s.raw_output {
                Some(String::from_str("raw output"))
            } else {
                None
            }
        },
        StatusLineItem::ThreadTitle => match &s.thread_name {
            Some(name) => {
                let t = trim_text(name.as_str());
                if t.as_str().unicode_len() == 0 {
                    copy_opt(&s.thread_id)
                } else {
                    Some(t)
                }
            },
            None => copy_opt(&s.thread_id),
        },
        StatusLineItem::WorkspaceHeadline => copy_opt(&s.workspace_headline),
        StatusLineItem::TaskProgress => terminal_title_task_progress(s.task_progress),
    }
}

/// The status line item a preview item stands for; `None` for the items
/// the preview shows by other means.
pub open spec fn preview_as_status(item: StatusSurfacePreviewItem) -> Option<StatusLineItem> {
    match item {
        StatusSurfacePreviewItem::AppName => None,
        StatusSurfacePreviewItem::ProjectName => None,
        StatusSurfacePreviewItem::Status => None,
        StatusSurfacePreviewItem::TaskProgress => None,
        StatusSurfacePreviewItem::ProjectRoot => Some(StatusLineItem::ProjectRoot),
        StatusSurfacePreviewItem::CurrentDir => Some(StatusLineItem::CurrentDir),
        StatusSurfacePreviewItem::ThreadTitle => Some(StatusLineItem::ThreadTitle),
        StatusSurfacePreviewItem::GitBranch => Some(StatusLineItem::GitBranch),
        StatusSurfacePreviewItem::PullRequestNumber => Some(StatusLineItem::PullRequestNumber),
        StatusSurfacePreviewItem::BranchChanges => Some(StatusLineItem::BranchChanges),
        StatusSurfacePreviewItem::Permissions => Some(StatusLineItem::Permissions),
        StatusSurfacePreviewItem::ApprovalMode => Some(StatusLineItem::ApprovalMode),
        StatusSurfacePreviewItem::ContextRemaining => Some(StatusLineItem::ContextRemaining),
        StatusSurfacePreviewItem::ContextUsed => Some(StatusLineItem::ContextUsed),
        StatusSurfacePreviewItem::FiveHourLimit => Some(StatusLineItem::FiveHourLimit),
        StatusSurfacePreviewItem::WeeklyLimit => Some(StatusLineItem::WeeklyLimit),
        StatusSurfacePreviewItem::ReflectVersion => Some(StatusLineItem::ReflectVersion),
        StatusSurfacePreviewItem::ContextWindowSize => Some(StatusLineItem::ContextWindowSize),
        StatusSurfacePreviewItem::UsedTokens => Some(StatusLineItem::UsedTokens),
        StatusSurfacePreviewItem::TotalInputTokens => Some(StatusLineItem::TotalInputTokens),
        StatusSurfacePreviewItem::TotalOutputTokens => Some(StatusLineItem::TotalOutputTokens),
        StatusSurfacePreviewItem::SessionId => Some(StatusLineItem::SessionId),
        StatusSurfacePreviewItem::FastMode => Some(StatusLineItem::FastMode),
        StatusSurfacePreviewItem::RawOutput => Some(StatusLineItem::RawOutput),
        StatusSurfacePreviewItem::WorkspaceHeadline => Some(StatusLineItem::WorkspaceHeadline),
        StatusSurfacePreviewItem::Model => Some(StatusLineItem::ModelName),
        StatusSurfacePreviewItem::ModelWithReasoning => Some(StatusLineItem::ModelWithReasoning),
        StatusSurfacePreviewItem::Reasoning => Some(StatusLineItem::Reasoning),
    }
}

/// What a preview item shows: the app name, the project name, the run
/// state and the task progress directly, everything else as its status
/// line item does.
pub open spec fn preview_value(s: StatusSnapshot, item: StatusSurfacePreviewItem) -> Option<Seq<char>> {
    match preview_as_status(item) {
        Some(st) => status_value(s, st),
        None => match item {
            StatusSurfacePreviewItem::AppName => Some("reflect"@),
            StatusSurfacePreviewItem::ProjectName => opt(s.project_name),
            StatusSurfacePreviewItem::Status => Some(s.run_state@),
            _ => task_progress_text(s.task_progress),
        },
    }
}

/// What a preview item shows (see `preview_value`).
pub fn status_surface_preview_value_for_item(s: &StatusSnapshot, item: StatusSurfacePreviewItem) -> (r: Option<String>)
    ensures
        opt(r) == preview_value(*s, item),
{
    let st = match item {
        StatusSurfacePreviewItem::AppName => {
            return Some(String::from_str("reflect"));
        },
        StatusSurfacePreviewItem::ProjectName => {
            return copy_opt(&s.project_name);
        },
        StatusSurfacePreviewItem::Status => {
            return Some(s.run_state.clone());
        },
        StatusSurfacePreviewItem::TaskProgress => {
            return terminal_title_task_progress(s.task_progress);
        },
        StatusSurfacePreviewItem::ProjectRoot => StatusLineItem::ProjectRoot,
        StatusSurfacePreviewItem::CurrentDir => StatusLineItem::CurrentDir,
        StatusSurfacePreviewItem::ThreadTitle => StatusLineItem::ThreadTitle,
        StatusSurfacePreviewItem::GitBranch => StatusLineItem::GitBranch,
        StatusSurfacePreviewItem::PullRequestNumber => StatusLineItem::PullRequestNumber,
        StatusSurfacePreviewItem::BranchChanges => StatusLineItem::BranchChanges,
        StatusSurfacePreviewItem::Permissions => StatusLineItem::Permissions,
        StatusSurfacePreviewItem::ApprovalMode => StatusLineItem::ApprovalMode,
        StatusSurfacePreviewItem::ContextRemaining => StatusLineItem::ContextRemaining,
        StatusSurfacePreviewItem::ContextUsed => StatusLineItem::ContextUsed,
        StatusSurfacePreviewItem::FiveHourLimit => StatusLineItem::FiveHourLimit,
        StatusSurfacePreviewItem::WeeklyLimit => StatusLineItem::WeeklyLimit,
        StatusSurfacePreviewItem::ReflectVersion => StatusLineItem::ReflectVersion,
        StatusSurfacePreviewItem::ContextWindowSize => StatusLineItem::ContextWindowSize,
        StatusSurfacePreviewItem::UsedTokens => StatusLineItem::UsedTokens,
        StatusSurfacePreviewItem::TotalInputTokens => StatusLineItem::TotalInputTokens,
        StatusSurfacePreviewItem::TotalOutputTokens => StatusLineItem::TotalOutputTokens,
        StatusSurfacePreviewItem::SessionId => StatusLineItem::SessionId,
        StatusSurfacePreviewItem::FastMode => StatusLineItem::FastMode,
        StatusSurfacePreviewItem::RawOutput => StatusLineItem::RawOutput,
        StatusSurfacePreviewItem::WorkspaceHeadline => StatusLineItem::WorkspaceHeadline,
        StatusSurfacePreviewItem::Model => StatusLineItem::ModelName,
        StatusSurfacePreviewItem::ModelWithReasoning => StatusLineItem::ModelWithReasoning,
        StatusSurfacePreviewItem::Reasoning => StatusLineItem::Reasoning,
    };
    status_line_value_for_item(s, st)
}

/// A title part shortened, where there is one.
pub open spec fn shortened(v: Option<Seq<char>>, max: nat) -> Option<Seq<char>> {
    match v {
        Some(x) => Some(truncated_part(x, max)),
        None => None,
    }
}

/// What a terminal title item shows; `spinner` is the spinner frame where
/// the title animates.
pub open spec fn title_value(s: StatusSnapshot, item: TerminalTitleItem, spinner: Option<Seq<char>>) -> Option<Seq<char>> {
    match item {
        TerminalTitleItem::AppName => Some("reflect"@),
        TerminalTitleItem::Project => opt(s.project_name),
        TerminalTitleItem::CurrentDir => Some(truncated_part(s.current_dir@, 32)),
        TerminalTitleItem::Spinner => spinner,
        TerminalTitleItem::Status => Some(s.run_state@),
        TerminalTitleItem::Thread => shortened(status_value(s, StatusLineItem::ThreadTitle), 48),
        TerminalTitleItem::GitBranch => shortened(opt(s.git_branch), 32),
        TerminalTitleItem::ContextRemaining => shortened(status_value(s, StatusLineItem::ContextRemaining), 32),
        TerminalTitleItem::ContextUsed => shortened(status_value(s, StatusLineItem::ContextUsed), 32),
        TerminalTitleItem::FiveHourLimit => shortened(status_value(s, StatusLineItem::FiveHourLimit), 32),
        TerminalTitleItem::WeeklyLimit => shortened(status_value(s, StatusLineItem::WeeklyLimit), 32),
        TerminalTitleItem::ReflectVersion => shortened(status_value(s, StatusLineItem::ReflectVersion), 32),
        TerminalTitleItem::UsedTokens => shortened(status_value(s, StatusLineItem::UsedTokens), 32),
        TerminalTitleItem::TotalInputTokens => shortened(status_value(s, StatusLineItem::TotalInputTokens), 32),
        TerminalTitleItem::TotalOutputTokens => shortened(status_value(s, StatusLineItem::TotalOutputTokens), 32),
        TerminalTitleItem::SessionId => shortened(status_value(s, StatusLineItem::SessionId), 32),
        TerminalTitleItem::FastMode => shortened(status_value(s, StatusLineItem::FastMode), 32),
        TerminalTitleItem::Model => Some(truncated_part(s.model_name@, 32)),
        TerminalTitleItem::ModelWithReasoning => Some(truncated_part(s.model_with_reasoning@, 32)),
        TerminalTitleItem::Reasoning => Some(truncated_part(s.reasoning@, 32)),
        TerminalTitleItem::TaskProgress => task_progress_text(s.task_progress),
    }
}

fn shorten_opt(v: Option<String>, max: usize) -> (r: Option<String>)
    ensures
        opt(r) == shortened(opt(v), max as nat),
{
    match v {
        Some(x) => Some(truncate_terminal_title_part(x, max)),
        None => None,
    }
}

/// What a terminal title item shows (see `title_value`).
pub fn terminal_title_value_for_item(s: &StatusSnapshot, item: TerminalTitleItem, spinner: Option<String>) -> (r: Option<String>)
    ensures
        opt(r) == title_value(*s, item, opt(spinner)),
{
    match item {
        TerminalTitleItem::AppName => Some(String::from_str("reflect")),
        TerminalTitleItem::Project => copy_opt(&s.project_name),
        TerminalTitleItem::CurrentDir => Some(truncate_terminal_title_part(s.current_dir.clone(), 32)),
        TerminalTitleItem::Spinner => spinner,
        TerminalTitleItem::Status => Some(s.run_state.clone()),
        TerminalTitleItem::Thread => shorten_opt(status_line_value_for_item(s, StatusLineItem::ThreadTitle), 48),
        TerminalTitleItem::GitBranch => shorten_opt(copy_opt(&s.git_branch), 32),
        TerminalTitleItem::ContextRemaining => shorten_opt(status_line_value_for_item(s, StatusLineItem::ContextRemaining), 32),
        TerminalTitleItem::ContextUsed => shorten_opt(status_line_value_for_item(s, StatusLineItem::ContextUsed), 32),
        TerminalTitleItem::FiveHourLimit => shorten_opt(status_line_value_for_item(s, StatusLineItem::FiveHourLimit), 32),
        TerminalTitleItem::WeeklyLimit => shorten_opt(status_line_value_for_item(s, StatusLineItem::WeeklyLimit), 32),
        TerminalTitleItem::ReflectVersion => shorten_opt(status_line_value_for_item(s, StatusLineItem::ReflectVersion), 32),
        TerminalTitleItem::UsedTokens => shorten_opt(status_line_value_for_item(s, StatusLineItem::UsedTokens), 32),
        TerminalTitleItem::TotalInputTokens => shorten_opt(status_line_value_for_item(s, StatusLineItem::TotalInputTokens), 32),
        TerminalTitleItem::TotalOutputTokens => shorten_opt(status_line_value_for_item(s, StatusLineItem::TotalOutputTokens), 32),
        TerminalTitleItem::SessionId => shorten_opt(status_line_value_for_item(s, StatusLineItem::SessionId), 32),
        TerminalTitleItem::FastMode => shorten_opt(status_line_value_for_item(s, StatusLineItem::FastMode), 32),
        TerminalTitleItem::Model => Some(truncate_terminal_title_part(s.model_name.clone(), 32)),
        TerminalTitleItem::ModelWithReasoning => Some(truncate_terminal_title_part(s.model_with_reasoning.clone(), 32)),
        TerminalTitleItem::Reasoning => Some(truncate_terminal_title_part(s.reasoning.clone(), 32)),
        TerminalTitleItem::TaskProgress => terminal_title_task_progress(s.task_progress),
    }
}


/// The items the status line and the terminal title show, and the ids
/// that named no item.
#[derive(Debug)]
pub struct StatusSurfaceSelections {
    pub status_line_items: Vec<StatusLineItem>,
    pub invalid_status_line_items: Vec<String>,
    pub terminal_title_items: Vec<TerminalTitleItem>,
    pub invalid_terminal_title_items: Vec<String>,
}

/// Whether a status line item is among the selected ones.
fn has_status_item(items: &Vec<StatusLineItem>, item: StatusLineItem) -> (r: bool)
    ensures
        r == items@.contains(item),
{
    let mut i: usize = 0;
    while i < items.len()
        invariant
            i <= items@.len(),
            forall|k: int| 0 <= k < i ==> items@[k] != item,
        decreases items@.len() - i,
    {
        if items[i] == item {
            assert(items@[i as int] == item);
            return true;
        }
        i += 1;
    }
    false
}

/// Whether a terminal title item is among the selected ones.
fn has_title_item(items: &Vec<TerminalTitleItem>, item: TerminalTitleItem) -> (r: bool)
    ensures
        r == items@.contains(item),
{
    let mut i: usize = 0;
    while i < items.len()
        invariant
            i <= items@.len(),
            forall|k: int| 0 <= k < i ==> items@[k] != item,
        decreases items@.len() - i,
    {
        if items[i] == item {
            assert(items@[i as int] == item);
            return true;
        }
        i += 1;
    }
    false
}

impl StatusSurfaceSelections {
    /// Whether either surface shows the git branch.
    pub fn uses_git_branch(&self) -> (r: bool)
        ensures
            r == (self.status_line_items@.contains(StatusLineItem::GitBranch)
                || self.terminal_title_items@.contains(TerminalTitleItem::GitBranch)),
    {
        has_status_item(&self.status_line_items, StatusLineItem::GitBranch) || has_title_item(
            &self.terminal_title_items,
            TerminalTitleItem::GitBranch,
        )
    }

    /// Whether the status line shows what the git summary provides.
    pub fn uses_git_summary(&self) -> (r: bool)
        ensures
            r == (self.status_line_items@.contains(StatusLineItem::PullRequestNumber)
                || self.status_line_items@.contains(StatusLineItem::BranchChanges)),
    {
        has_status_item(&self.status_line_items, StatusLineItem::PullRequestNumber) || has_status_item(
            &self.status_line_items,
            StatusLineItem::BranchChanges,
        )
    }

    /// Whether the status line shows the workspace headline.
    pub fn uses_workspace_headline(&self) -> (r: bool)
        ensures
            r == self.status_line_items@.contains(StatusLineItem::WorkspaceHeadline),
    {
        has_status_item(&self.status_line_items, StatusLineItem::WorkspaceHeadline)
    }
}

/// The values of the parses that succeeded, in order.
pub open spec fn parsed_values<T>(results: Seq<Option<T>>) -> Seq<T>
    decreases results.len(),
{
    if results.len() == 0 {
        Seq::empty()
    } else {
        let prev = parsed_values(results.drop_last());
        match results.last() {
            Some(v) => prev.push(v),
            None => prev,
        }
    }
}

/// The ids that failed to parse, each once, in the order they first came.
pub open spec fn invalid_ids<T>(ids: Seq<Seq<char>>, results: Seq<Option<T>>) -> Seq<Seq<char>>
    decreases ids.len(),
{
    if ids.len() == 0 || results.len() == 0 {
        Seq::empty()
    } else {
        let prev = invalid_ids(ids.drop_last(), results.drop_last());
        if results.last() is None && !prev.contains(ids.last()) {
            prev.push(ids.last())
        } else {
            prev
        }
    }
}

/// An id in double quotes, as warnings show it.
pub open spec fn quoted(id: Seq<char>) -> Seq<char> {
    seq!['"'] + id + seq!['"']
}

/// Whether a quoted id is listed.
fn lists_quoted(invalid: &Vec<String>, id: &str) -> (r: bool)
    ensures
        r == invalid@.map_values(|q: String| q@).contains(quoted(id@)),
{
    let mut q = String::new();
    crate::text::push_char(&mut q, '"');
    crate::text::push_str_chars(&mut q, id);
    crate::text::push_char(&mut q, '"');
    let ghost view = invalid@.map_values(|x: String| x@);
    let mut k: usize = 0;
    while k < invalid.len()
        invariant
            k <= invalid@.len(),
            view == invalid@.map_values(|x: String| x@),
            q@ == quoted(id@),
            forall|m: int| 0 <= m < k ==> view[m] != q@,
        decreases invalid@.len() - k,
    {
        if crate::text::str_eq(invalid[k].as_str(), q.as_str()) {
            assert(view[k as int] == q@);
            return true;
        }
        k += 1;
    }
    proof {
        if view.contains(q@) {
            let w = choose|w: int| 0 <= w < view.len() && view[w] == q@;
        }
    }
    false
}

/// Quoting is one to one.
proof fn lemma_quoted_injective(a: Seq<char>, b: Seq<char>)
    requires
        quoted(a) == quoted(b),
    ensures
        a == b,
{
    assert(a =~= quoted(a).subrange(1, quoted(a).len() - 1));
    assert(b =~= quoted(b).subrange(1, quoted(b).len() - 1));
}

/// Parses configured ids into items; the ids that name no item are listed
/// once each, quoted, in the order they first came.
pub fn parse_items_with_invalids<T, F: Fn(&String) -> Option<T>>(ids: Vec<String>, parse: F) -> (r: (Vec<T>, Vec<String>))
    requires
        forall|s: &String| #[trigger] parse.requires((s,)),
    ensures
        exists|results: Seq<Option<T>>|
            results.len() == ids@.len() && (forall|i: int|
                0 <= i < ids@.len() ==> #[trigger] parse.ensures((&ids@[i],), results[i])) && r.0@ == parsed_values(
                results,
            ) && r.1@.map_values(|q: String| q@) == invalid_ids(ids@.map_values(|s: String| s@), results).map_values(
                |id: Seq<char>| quoted(id),
            ),
{
    let ghost idv = ids@.map_values(|s: String| s@);
    let ghost mut results: Seq<Option<T>> = Seq::empty();
    let mut items: Vec<T> = Vec::new();
    let mut invalid: Vec<String> = Vec::new();
    let mut i: usize = 0;
    while i < ids.len()
        invariant
            i <= ids@.len(),
            idv == ids@.map_values(|s: String| s@),
            forall|s: &String| #[trigger] parse.requires((s,)),
            results.len() == i,
            forall|k: int| 0 <= k < i ==> #[trigger] parse.ensures((&ids@[k],), results[k]),
            items@ == parsed_values(results),
            invalid@.map_values(|q: String| q@) == invalid_ids(idv.take(i as int), results).map_values(
                |id: Seq<char>| quoted(id),
            ),
        decreases ids@.len() - i,
    {
        let id = &ids[i];
        let parsed = parse(id);
        let ghost prev_invalid = invalid_ids(idv.take(i as int), results);
        proof {
            assert(idv.take(i + 1).drop_last() =~= idv.take(i as int));
            assert(idv.take(i + 1).last() == id@);
        }
        let ghost old_results = results;
        match parsed {
            Some(v) => {
                proof {
                    results = old_results.push(Some(v));
                    assert(results.drop_last() =~= old_results);
                }
                items.push(v);
            },
            None => {
                proof {
                    results = old_results.push(None);
                    assert(results.drop_last() =~= old_results);
                }
                let seen = lists_quoted(&invalid, id.as_str());
                proof {
                    let iv = invalid@.map_values(|q: String| q@);
                    if seen != prev_invalid.contains(id@) {
                        if seen {
                            let w = choose|w: int| 0 <= w < iv.len() && #[trigger] iv[w] == quoted(id@);
                            assert(prev_invalid.map_values(|x: Seq<char>| quoted(x))[w] == quoted(id@));
                            lemma_quoted_injective(prev_invalid[w], id@);
                        } else {
                            let w = choose|w: int| 0 <= w < prev_invalid.len() && prev_invalid[w] == id@;
                            assert(invalid@.map_values(|q: String| q@)[w] == quoted(id@));
                        }
                    }
                }
                if !seen {
                    let mut q = String::new();
                    crate::text::push_char(&mut q, '"');
                    crate::text::push_str_chars(&mut q, id.as_str());
                    crate::text::push_char(&mut q, '"');
                    let ghost before = invalid@;
                    invalid.push(q);
                    proof {
                        assert(invalid@.map_values(|x: String| x@) =~= before.map_values(|x: String| x@).push(q@));
                        assert(q@ =~= quoted(id@));
                    }
                }
            },
        }
        proof {
            assert forall|k: int| 0 <= k < i + 1 implies #[trigger] parse.ensures((&ids@[k],), results[k]) by {
                if k < i {
                    assert(results[k] == old_results[k]);
                }
            }
            assert(invalid@.map_values(|q: String| q@) =~= invalid_ids(idv.take(i + 1), results).map_values(
                |id: Seq<char>| quoted(id),
            ));
        }
        i += 1;
    }
    proof {
        assert(idv.take(i as int) =~= idv);
    }
    (items, invalid)
}
} // verus!
