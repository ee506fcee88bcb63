//! MCP server startup as the chat widget follows it: per-server status
//! updates gathered into startup rounds, the status header while servers
//! start, and the warnings when a round ends.

use vstd::prelude::*;
use crate::sorted_map::{keyed_insert, keyed_view, keys_increasing, lookup, KeyedMap};
use crate::text::{decimal_chars, push_decimal_chars, push_str_chars};

verus! {

/// The startup state of one MCP server.
#[derive(Debug)]
pub enum McpStartupStatus {
    Starting,
    Ready,
    Failed { error: String },
    Cancelled,
}

/// Entries of a status map.
pub type StatusEntries = Seq<(Seq<char>, McpStartupStatus)>;

/// What the widget keeps of MCP startup.
#[derive(Debug)]
pub struct McpStartupState {
    /// The statuses of the round in progress, where one is.
    pub status: Option<KeyedMap<McpStartupStatus>>,
    /// After a round ended, updates are held back until a new round shows.
    pub ignore_updates_until_next_start: bool,
    /// A held-back round may start without a `Starting` update (after lag).
    pub allow_terminal_only_next_round: bool,
    /// The updates held back.
    pub pending_next_round: KeyedMap<McpStartupStatus>,
    pub pending_next_round_saw_starting: bool,
    /// The servers a round is expected to report, where known.
    pub expected_servers: Option<Vec<String>>,
}

/// The state as plain values.
pub struct McpStateView {
    pub status: Option<StatusEntries>,
    pub ignore: bool,
    pub allow_terminal_only: bool,
    pub pending: StatusEntries,
    pub saw_starting: bool,
    pub expected: Option<Seq<Seq<char>>>,
}

/// The views of strings.
pub open spec fn names_view(v: Seq<String>) -> Seq<Seq<char>> {
    v.map_values(|s: String| s@)
}

impl McpStartupState {
    /// The state as plain values.
    pub open spec fn state_view(&self) -> McpStateView {
        McpStateView {
            status: match self.status {
                Some(m) => Some(m.view_entries()),
                None => None,
            },
            ignore: self.ignore_updates_until_next_start,
            allow_terminal_only: self.allow_terminal_only_next_round,
            pending: self.pending_next_round.view_entries(),
            saw_starting: self.pending_next_round_saw_starting,
            expected: match self.expected_servers {
                Some(v) => Some(names_view(v@)),
                None => None,
            },
        }
    }

    /// Both maps keep their keys in order.
    pub open spec fn wf(&self) -> bool {
        &&& keys_increasing(self.pending_next_round.view_entries())
        &&& (self.status matches Some(m) ==> keys_increasing(m.view_entries()))
    }

    /// The state before any round.
    pub fn new() -> (s: Self)
        ensures
            s.wf(),
            s.state_view().status is None,
            !s.state_view().ignore,
            !s.state_view().allow_terminal_only,
            s.state_view().pending.len() == 0,
            !s.state_view().saw_starting,
            s.state_view().expected is None,
    {
        McpStartupState {
            status: None,
            ignore_updates_until_next_start: false,
            allow_terminal_only_next_round: false,
            pending_next_round: KeyedMap::new(),
            pending_next_round_saw_starting: false,
            expected_servers: None,
        }
    }

    /// Sets the servers a round is expected to report.
    pub fn set_mcp_startup_expected_servers(&mut self, server_names: Vec<String>)
        requires
            old(self).wf(),
        ensures
            final(self).wf(),
            final(self).state_view() == (McpStateView { expected: Some(names_view(server_names@)), ..old(self).state_view() }),
    {
        self.expected_servers = Some(server_names);
    }
}

/// Whether every expected server has an entry.
pub open spec fn all_reported(expected: Seq<Seq<char>>, entries: StatusEntries) -> bool {
    forall|i: int| 0 <= i < expected.len() ==> (#[trigger] lookup(entries, expected[i])) is Some
}

/// Whether some entry is `Starting`.
pub open spec fn any_starting(entries: StatusEntries) -> bool {
    exists|i: int| 0 <= i < entries.len() && (#[trigger] entries[i]).1 is Starting
}

/// The keys whose status satisfies `f`, in key order.
pub open spec fn keys_where(entries: StatusEntries, f: spec_fn(McpStartupStatus) -> bool) -> Seq<Seq<char>>
    decreases entries.len(),
{
    if entries.len() == 0 {
        Seq::empty()
    } else {
        keys_where(entries.drop_last(), f) + if f(entries.last().1) {
            seq![entries.last().0]
        } else {
            Seq::empty()
        }
    }
}

/// The errors of failed entries, in key order.
pub open spec fn failure_errors(entries: StatusEntries) -> Seq<Seq<char>>
    decreases entries.len(),
{
    if entries.len() == 0 {
        Seq::empty()
    } else {
        failure_errors(entries.drop_last()) + match entries.last().1 {
            McpStartupStatus::Failed { error } => seq![error@],
            _ => Seq::empty(),
        }
    }
}

/// Items joined by `sep`.
pub open spec fn joined(items: Seq<Seq<char>>, sep: Seq<char>) -> Seq<char>
    decreases items.len(),
{
    if items.len() == 0 {
        Seq::empty()
    } else if items.len() == 1 {
        items[0]
    } else {
        joined(items.drop_last(), sep) + sep + items.last()
    }
}

/// The warnings when a round ends with failed and cancelled servers.
pub open spec fn finish_warnings(failed: Seq<Seq<char>>, cancelled: Seq<Seq<char>>) -> Seq<Seq<char>> {
    (if cancelled.len() > 0 {
        seq!["MCP startup interrupted. The following servers were not initialized: "@ + joined(cancelled, ", "@)]
    } else {
        Seq::empty()
    }) + if failed.len() > 0 {
        seq!["MCP startup incomplete (failed: "@ + joined(failed, ", "@) + ")"@]
    } else {
        Seq::empty()
    }
}

/// The state after a round ends: no round, updates held back, nothing held.
pub open spec fn finished_state(v: McpStateView) -> McpStateView {
    McpStateView {
        status: None,
        ignore: true,
        allow_terminal_only: false,
        pending: Seq::empty(),
        saw_starting: false,
        expected: v.expected,
    }
}

/// Joins names with `sep`.
fn join_names(items: &Vec<String>, sep: &str) -> (s: String)
    ensures
        s@ == joined(names_view(items@), sep@),
{
    let mut s = String::new();
    let mut i: usize = 0;
    while i < items.len()
        invariant
            i <= items.len(),
            s@ == joined(names_view(items@.take(i as int)), sep@),
        decreases items.len() - i,
    {
        if i > 0 {
            push_str_chars(&mut s, sep);
        }
        push_str_chars(&mut s, items[i].as_str());
        proof {
            let t = names_view(items@.take(i + 1));
            assert(t.drop_last() =~= names_view(items@.take(i as int)));
            assert(t.last() == items@[i as int]@);
            if i == 0 {
                assert(Seq::<char>::empty() + items@[0]@ =~= items@[0]@);
            }
        }
        i += 1;
    }
    proof {
        assert(items@.take(items@.len() as int) =~= items@);
    }
    s
}

/// Ends the round: warns of the cancelled and failed servers and holds back
/// updates until a new round shows.
pub fn finish_mcp_startup(state: &mut McpStartupState, failed: Vec<String>, cancelled: Vec<String>) -> (warnings: Vec<String>)
    requires
        old(state).wf(),
    ensures
        final(state).wf(),
        final(state).state_view() == finished_state(old(state).state_view()),
        names_view(warnings@) == finish_warnings(names_view(failed@), names_view(cancelled@)),
{
    let mut warnings: Vec<String> = Vec::new();
    if cancelled.len() > 0 {
        let mut w = String::new();
        push_str_chars(&mut w, "MCP startup interrupted. The following servers were not initialized: ");
        let j = join_names(&cancelled, ", ");
        push_str_chars(&mut w, j.as_str());
        warnings.push(w);
    }
    if failed.len() > 0 {
        let mut w = String::new();
        push_str_chars(&mut w, "MCP startup incomplete (failed: ");
        let j = join_names(&failed, ", ");
        push_str_chars(&mut w, j.as_str());
        push_str_chars(&mut w, ")");
        let ghost before = warnings@;
        warnings.push(w);
        proof {
            assert(names_view(warnings@) =~= names_view(before).push(w@));
        }
    }
    proof {
        assert(names_view(warnings@) =~= finish_warnings(names_view(failed@), names_view(cancelled@)));
    }
    state.status = None;
    state.ignore_updates_until_next_start = true;
    state.allow_terminal_only_next_round = false;
    state.pending_next_round.clear();
    state.pending_next_round_saw_starting = false;
    proof {
        assert(state.state_view().pending =~= Seq::<(Seq<char>, McpStartupStatus)>::empty());
    }
    warnings
}

/// The status header while servers start: `Booting MCP server: name` for a
/// single server, else `Starting MCP servers (done/total): ` and the first
/// three names still starting (in name order) and `…` for more; none once
/// no server is starting.
pub open spec fn startup_header(entries: StatusEntries) -> Option<Seq<char>> {
    let starting = keys_where(entries, |s: McpStartupStatus| s is Starting);
    if starting.len() == 0 {
        None
    } else if entries.len() > 1 {
        Some(
            "Starting MCP servers ("@ + decimal_chars((entries.len() - starting.len()) as nat) + "/"@
                + decimal_chars(entries.len()) + "): "@ + joined(
                starting.take(if starting.len() < 3 {
                    starting.len() as int
                } else {
                    3
                }) + if starting.len() > 3 {
                    seq!["…"@]
                } else {
                    Seq::empty()
                },
                ", "@,
            ),
        )
    } else {
        Some("Booting MCP server: "@ + starting[0])
    }
}

/// The keys of entries whose status is `Starting`, in order.
fn starting_names(m: &KeyedMap<McpStartupStatus>) -> (names: Vec<String>)
    ensures
        names_view(names@) == keys_where(m.view_entries(), |s: McpStartupStatus| s is Starting),
{
    let es = m.entries();
    let ghost ev = m.view_entries();
    let mut names: Vec<String> = Vec::new();
    let mut i: usize = 0;
    while i < es.len()
        invariant
            i <= es.len(),
            keyed_view(es@) == ev,
            names_view(names@) == keys_where(ev.take(i as int), |s: McpStartupStatus| s is Starting),
        decreases es.len() - i,
    {
        proof {
            assert(ev.take(i + 1).drop_last() =~= ev.take(i as int));
            assert(ev[i as int] == (es@[i as int].0@, es@[i as int].1));
        }
        match &es[i].1 {
            McpStartupStatus::Starting => {
                let ghost before = names@;
                let n = es[i].0.clone();
                names.push(n);
                proof {
                    assert(names_view(names@) =~= names_view(before).push(es@[i as int].0@));
                }
            },
            _ => {},
        }
        i += 1;
    }
    proof {
        assert(ev.take(ev.len() as int) =~= ev);
    }
    names
}

/// The status header while servers start (see `startup_header`).
pub fn mcp_startup_status_header(state: &McpStartupState) -> (h: Option<String>)
    ensures
        match state.state_view().status {
            Some(e) => match h {
                Some(s) => startup_header(e) == Some(s@),
                None => startup_header(e) is None,
            },
            None => h is None,
        },
{
    let current = match &state.status {
        Some(m) => m,
        None => {
            return None;
        },
    };
    let total = current.len();
    let starting = starting_names(current);
    if starting.len() == 0 {
        return None;
    }
    proof {
        let sv = keys_where(current.view_entries(), |s: McpStartupStatus| s is Starting);
        lemma_keys_where_len(current.view_entries(), |s: McpStartupStatus| s is Starting);
        assert(names_view(starting@).len() == starting@.len());
    }
    if total > 1 {
        let completed = total - starting.len();
        let mut shown: Vec<String> = Vec::new();
        let mut i: usize = 0;
        let n = if starting.len() < 3 {
            starting.len()
        } else {
            3
        };
        while i < n
            invariant
                i <= n <= starting@.len(),
                names_view(shown@) == names_view(starting@).take(i as int),
            decreases n - i,
        {
            let ghost before = shown@;
            let c = starting[i].clone();
            let ghost cv = c@;
            shown.push(c);
            proof {
                assert(cv == starting@[i as int]@);
                assert(names_view(shown@) =~= names_view(before).push(cv));
                assert(names_view(shown@) =~= names_view(starting@).take(i + 1));
            }
            i += 1;
        }
        if starting.len() > 3 {
            let ghost before = shown@;
            shown.push(String::from_str("…"));
            proof {
                assert(names_view(shown@) =~= names_view(before).push("…"@));
            }
        }
        let mut s = String::new();
        push_str_chars(&mut s, "Starting MCP servers (");
        push_decimal_chars(&mut s, completed);
        push_str_chars(&mut s, "/");
        push_decimal_chars(&mut s, total);
        push_str_chars(&mut s, "): ");
        let j = join_names(&shown, ", ");
        push_str_chars(&mut s, j.as_str());
        proof {
            let sv = names_view(starting@);
            assert(names_view(shown@) =~= sv.take(if sv.len() < 3 {
                sv.len() as int
            } else {
                3
            }) + if sv.len() > 3 {
                seq!["…"@]
            } else {
                Seq::<Seq<char>>::empty()
            });
        }
        Some(s)
    } else {
        let mut s = String::new();
        push_str_chars(&mut s, "Booting MCP server: ");
        push_str_chars(&mut s, starting[0].as_str());
        proof {
            assert(names_view(starting@)[0] == starting@[0]@);
        }
        Some(s)
    }
}

/// Keys filtered are at most all keys.
proof fn lemma_keys_where_len(entries: StatusEntries, f: spec_fn(McpStartupStatus) -> bool)
    ensures
        keys_where(entries, f).len() <= entries.len(),
    decreases entries.len(),
{
    if entries.len() > 0 {
        lemma_keys_where_len(entries.drop_last(), f);
    }
}


/// What an update does besides changing the state.
#[derive(Debug)]
pub struct McpUpdateOutcome {
    /// Warnings to show, in order.
    pub warnings: Vec<String>,
    /// Whether the update was held back for a next round: nothing else
    /// happens then.
    pub held_back: bool,
    /// Whether the update ended the round.
    pub finished: bool,
    /// The status header to show, where the round goes on with servers
    /// starting.
    pub header: Option<String>,
}

/// What an update leads to: the state after it, the warnings, whether it was
/// held back, whether it ended the round and the header to show.
pub struct UpdateResult {
    pub state: McpStateView,
    pub warnings: Seq<Seq<char>>,
    pub held_back: bool,
    pub finished: bool,
    pub header: Option<Seq<char>>,
}

/// The view of a status, for comparing.
pub open spec fn status_view(s: McpStartupStatus) -> (nat, Seq<char>) {
    match s {
        McpStartupStatus::Starting => (0, Seq::empty()),
        McpStartupStatus::Ready => (1, Seq::empty()),
        McpStartupStatus::Failed { error } => (2, error@),
        McpStartupStatus::Cancelled => (3, Seq::empty()),
    }
}

/// Whether a round is over: it has entries, every expected server reported
/// and none is still starting.
pub open spec fn settled(v: McpStateView, round: StatusEntries, complete_when_settled: bool) -> bool {
    complete_when_settled && v.expected is Some && round.len() > 0 && all_reported(v.expected->0, round)
        && !any_starting(round)
}

/// The end of an update that did not return early: the round ends where it
/// settled, else the header follows it.
pub open spec fn after_update(v: McpStateView, warnings: Seq<Seq<char>>, complete: bool) -> UpdateResult {
    let round = v.status->0;
    if settled(v, round, complete) {
        UpdateResult {
            state: finished_state(v),
            warnings: warnings + finish_warnings(
                keys_where(round, |s: McpStartupStatus| s is Failed),
                keys_where(round, |s: McpStartupStatus| s is Cancelled),
            ),
            held_back: false,
            finished: true,
            header: None,
        }
    } else {
        UpdateResult { state: v, warnings, held_back: false, finished: false, header: startup_header(round) }
    }
}

/// What an update of one server's status does. While updates are held back
/// after a round, they gather into a next round (a `Starting` update before
/// any other `Starting` begins it afresh), which becomes the round once
/// every expected server reported in it and one of them is starting (or the
/// round may start without); its failures are then warned of. Otherwise the
/// update joins the round, a failure warned of unless the server reported
/// the same failure already. A round in which every expected server
/// reported and none is starting ends, with warnings of the failed and
/// cancelled servers.
pub open spec fn mcp_update(
    v: McpStateView,
    server: Seq<char>,
    status: McpStartupStatus,
    complete: bool,
) -> UpdateResult {
    if v.ignore {
        let reset = status is Starting && !v.saw_starting;
        let pending0 = if reset {
            Seq::empty()
        } else {
            v.pending
        };
        let allow0 = if reset {
            false
        } else {
            v.allow_terminal_only
        };
        let pending1 = keyed_insert(pending0, server, status);
        let held = McpStateView {
            pending: pending1,
            allow_terminal_only: allow0,
            saw_starting: v.saw_starting || status is Starting,
            ..v
        };
        let activates = v.expected is Some && (v.expected->0.len() == 0 || all_reported(
            v.expected->0,
            pending1,
        )) && (any_starting(pending1) || allow0);
        if !activates {
            UpdateResult { state: held, warnings: Seq::empty(), held_back: true, finished: false, header: None }
        } else {
            after_update(
                McpStateView {
                    status: Some(pending1),
                    ignore: false,
                    allow_terminal_only: false,
                    pending: Seq::empty(),
                    saw_starting: false,
                    expected: v.expected,
                },
                failure_errors(pending1),
                complete,
            )
        }
    } else {
        let cur = match v.status {
            Some(e) => e,
            None => Seq::empty(),
        };
        let warn = match status {
            McpStartupStatus::Failed { error } => if lookup(cur, server) matches Some(prev) && status_view(prev)
                == status_view(status) {
                Seq::empty()
            } else {
                seq![error@]
            },
            _ => Seq::empty(),
        };
        after_update(McpStateView { status: Some(keyed_insert(cur, server, status)), ..v }, warn, complete)
    }
}

/// Whether every expected name has an entry.
fn all_expected_reported(expected: &Vec<String>, m: &KeyedMap<McpStartupStatus>) -> (r: bool)
    ensures
        r == all_reported(names_view(expected@), m.view_entries()),
{
    let mut i: usize = 0;
    while i < expected.len()
        invariant
            i <= expected.len(),
            forall|k: int| 0 <= k < i ==> (#[trigger] lookup(m.view_entries(), names_view(expected@)[k])) is Some,
        decreases expected.len() - i,
    {
        let found = m.get(expected[i].as_str());
        proof {
            assert(names_view(expected@)[i as int] == expected@[i as int]@);
        }
        if found.is_none() {
            return false;
        }
        i += 1;
    }
    true
}

/// Whether some entry is `Starting`.
fn has_starting(m: &KeyedMap<McpStartupStatus>) -> (r: bool)
    ensures
        r == any_starting(m.view_entries()),
{
    let es = m.entries();
    let ghost ev = m.view_entries();
    let mut i: usize = 0;
    while i < es.len()
        invariant
            i <= es.len(),
            keyed_view(es@) == ev,
            ev == m.view_entries(),
            forall|k: int| 0 <= k < i ==> !((#[trigger] ev[k]).1 is Starting),
        decreases es.len() - i,
    {
        proof {
            assert(ev[i as int] == (es@[i as int].0@, es@[i as int].1));
        }
        match &es[i].1 {
            McpStartupStatus::Starting => {
                proof {
                    assert(ev.len() == es@.len());
                    assert(ev[i as int].1 is Starting);
                    assert(any_starting(ev));
                }
                return true;
            },
            _ => {},
        }
        i += 1;
    }
    false
}

/// The keys of failed (`cancelled == false`) or cancelled entries, in order.
fn keys_of_kind(m: &KeyedMap<McpStartupStatus>, cancelled: bool) -> (names: Vec<String>)
    ensures
        names_view(names@) == (if cancelled {
            keys_where(m.view_entries(), |s: McpStartupStatus| s is Cancelled)
        } else {
            keys_where(m.view_entries(), |s: McpStartupStatus| s is Failed)
        }),
{
    let es = m.entries();
    let ghost ev = m.view_entries();
    let ghost f = if cancelled {
        |s: McpStartupStatus| s is Cancelled
    } else {
        |s: McpStartupStatus| s is Failed
    };
    let mut names: Vec<String> = Vec::new();
    let mut i: usize = 0;
    while i < es.len()
        invariant
            i <= es.len(),
            keyed_view(es@) == ev,
            f == (if cancelled {
                |s: McpStartupStatus| s is Cancelled
            } else {
                |s: McpStartupStatus| s is Failed
            }),
            names_view(names@) == keys_where(ev.take(i as int), f),
        decreases es.len() - i,
    {
        proof {
            assert(ev.take(i + 1).drop_last() =~= ev.take(i as int));
            assert(ev[i as int] == (es@[i as int].0@, es@[i as int].1));
        }
        let take = match &es[i].1 {
            McpStartupStatus::Failed { .. } => !cancelled,
            McpStartupStatus::Cancelled => cancelled,
            _ => false,
        };
        if take {
            let ghost before = names@;
            let n = es[i].0.clone();
            let ghost nv = n@;
            names.push(n);
            proof {
                assert(names_view(names@) =~= names_view(before).push(nv));
            }
        }
        i += 1;
    }
    proof {
        assert(ev.take(ev.len() as int) =~= ev);
    }
    names
}

/// The errors of failed entries, in order.
fn errors_of(m: &KeyedMap<McpStartupStatus>) -> (errors: Vec<String>)
    ensures
        names_view(errors@) == failure_errors(m.view_entries()),
{
    let es = m.entries();
    let ghost ev = m.view_entries();
    let mut errors: Vec<String> = Vec::new();
    let mut i: usize = 0;
    while i < es.len()
        invariant
            i <= es.len(),
            keyed_view(es@) == ev,
            names_view(errors@) == failure_errors(ev.take(i as int)),
        decreases es.len() - i,
    {
        proof {
            assert(ev.take(i + 1).drop_last() =~= ev.take(i as int));
            assert(ev[i as int] == (es@[i as int].0@, es@[i as int].1));
        }
        match &es[i].1 {
            McpStartupStatus::Failed { error } => {
                let ghost before = errors@;
                let e = error.clone();
                let ghost evv = e@;
                errors.push(e);
                proof {
                    assert(names_view(errors@) =~= names_view(before).push(evv));
                }
            },
            _ => {},
        }
        i += 1;
    }
    proof {
        assert(ev.take(ev.len() as int) =~= ev);
    }
    errors
}

/// Appends strings.
fn append_all(dst: &mut Vec<String>, src: Vec<String>)
    ensures
        names_view(final(dst)@) == names_view(old(dst)@) + names_view(src@),
{
    let mut src = src;
    let ghost sv = src@;
    dst.append(&mut src);
    proof {
        assert(names_view(dst@) =~= names_view(old(dst)@) + names_view(sv));
    }
}

/// The view of an optional string.
pub open spec fn opt_str(s: Option<String>) -> Option<Seq<char>> {
    match s {
        Some(x) => Some(x@),
        None => None,
    }
}

/// Ends the round where it settled, else gives the header that follows it.
fn settle(state: &mut McpStartupState, warnings: Vec<String>, complete: bool) -> (o: McpUpdateOutcome)
    requires
        old(state).wf(),
        old(state).status is Some,
    ensures
        final(state).wf(),
        ({
            let r = after_update(old(state).state_view(), names_view(warnings@), complete);
            &&& final(state).state_view() == r.state
            &&& names_view(o.warnings@) == r.warnings
            &&& o.held_back == r.held_back
            &&& o.finished == r.finished
            &&& opt_str(o.header) == r.header
        }),
{
    let ghost v = state.state_view();
    let mut warnings = warnings;
    let is_settled = match (&state.status, &state.expected_servers) {
        (Some(current), Some(expected)) => {
            complete && current.len() > 0 && all_expected_reported(expected, current) && !has_starting(current)
        },
        _ => false,
    };
    if is_settled {
        let (failed, cancelled) = match &state.status {
            Some(current) => (keys_of_kind(current, false), keys_of_kind(current, true)),
            None => (Vec::new(), Vec::new()),
        };
        let more = finish_mcp_startup(state, failed, cancelled);
        append_all(&mut warnings, more);
        McpUpdateOutcome { warnings, held_back: false, finished: true, header: None }
    } else {
        let header = mcp_startup_status_header(state);
        McpUpdateOutcome { warnings, held_back: false, finished: false, header }
    }
}

/// Records one server's startup status (see `mcp_update`).
pub fn update_mcp_startup_status(
    state: &mut McpStartupState,
    server: String,
    status: McpStartupStatus,
    complete_when_settled: bool,
) -> (o: McpUpdateOutcome)
    requires
        old(state).wf(),
    ensures
        final(state).wf(),
        ({
            let r = mcp_update(old(state).state_view(), server@, status, complete_when_settled);
            &&& final(state).state_view() == r.state
            &&& names_view(o.warnings@) == r.warnings
            &&& o.held_back == r.held_back
            &&& o.finished == r.finished
            &&& opt_str(o.header) == r.header
        }),
{
    let ghost v = state.state_view();
    let ghost sv = server@;
    let ghost st = status;
    if state.ignore_updates_until_next_start {
        let is_start = match &status {
            McpStartupStatus::Starting => true,
            _ => false,
        };
        if is_start && !state.pending_next_round_saw_starting {
            state.pending_next_round.clear();
            state.allow_terminal_only_next_round = false;
        }
        state.pending_next_round_saw_starting = state.pending_next_round_saw_starting || is_start;
        state.pending_next_round.insert(server, status);
        let activates = match &state.expected_servers {
            Some(expected) => (expected.len() == 0 || all_expected_reported(expected, &state.pending_next_round))
                && (has_starting(&state.pending_next_round) || state.allow_terminal_only_next_round),
            None => false,
        };
        if !activates {
            return McpUpdateOutcome { warnings: Vec::new(), held_back: true, finished: false, header: None };
        }
        state.ignore_updates_until_next_start = false;
        state.allow_terminal_only_next_round = false;
        state.pending_next_round_saw_starting = false;
        let mut round: KeyedMap<McpStartupStatus> = KeyedMap::new();
        std::mem::swap(&mut round, &mut state.pending_next_round);
        let warnings = errors_of(&round);
        state.status = Some(round);
        proof {
            assert(state.state_view() == (McpStateView {
                status: Some(keyed_insert(if st is Starting && !v.saw_starting {
                    Seq::empty()
                } else {
                    v.pending
                }, sv, st)),
                ignore: false,
                allow_terminal_only: false,
                pending: Seq::empty(),
                saw_starting: false,
                expected: v.expected,
            }));
        }
        settle(state, warnings, complete_when_settled)
    } else {
        let mut slot: Option<KeyedMap<McpStartupStatus>> = None;
        std::mem::swap(&mut slot, &mut state.status);
        let mut cur = match slot {
            Some(m) => m,
            None => KeyedMap::new(),
        };
        let mut warnings: Vec<String> = Vec::new();
        match &status {
            McpStartupStatus::Failed { error } => {
                let already = match cur.get(server.as_str()) {
                    Some(McpStartupStatus::Failed { error: previous }) => crate::text::str_eq(
                        previous.as_str(),
                        error.as_str(),
                    ),
                    _ => false,
                };
                if !already {
                    let e = error.clone();
                    let ghost ev = e@;
                    warnings.push(e);
                    proof {
                        assert(names_view(warnings@) =~= seq![ev]);
                    }
                }
            },
            _ => {},
        }
        proof {
            assert(names_view(Seq::<String>::empty()) =~= Seq::<Seq<char>>::empty());
        }
        cur.insert(server, status);
        state.status = Some(cur);
        settle(state, warnings, complete_when_settled)
    }
}

/// The servers a lagging round ends with: every server of the round or
/// expected, in name order; failed ones as failed, those that never got
/// ready as cancelled.
pub open spec fn lag_names(entries: StatusEntries, expected: Option<Seq<Seq<char>>>) -> Seq<(Seq<char>, bool)> {
    let keys = entries.map_values(|e: (Seq<char>, McpStartupStatus)| (e.0, true));
    let all = match expected {
        Some(x) => insert_names_spec(keys, x),
        None => keys,
    };
    all
}

/// `s` with each of `names` set (to `true`).
pub open spec fn insert_names_spec(s: Seq<(Seq<char>, bool)>, names: Seq<Seq<char>>) -> Seq<(Seq<char>, bool)>
    decreases names.len(),
{
    if names.len() == 0 {
        s
    } else {
        keyed_insert(insert_names_spec(s, names.drop_last()), names.last(), true)
    }
}

/// Whether a name ends a lagging round as failed.
pub open spec fn lag_failed(entries: StatusEntries, name: Seq<char>) -> bool {
    lookup(entries, name) matches Some(s) && s is Failed
}

/// Whether a name ends a lagging round as cancelled.
pub open spec fn lag_cancelled(entries: StatusEntries, name: Seq<char>) -> bool {
    match lookup(entries, name) {
        Some(McpStartupStatus::Ready) => false,
        Some(McpStartupStatus::Failed { .. }) => false,
        _ => true,
    }
}

/// The names of `names` that satisfy `f`, in order.
pub open spec fn names_where(names: Seq<(Seq<char>, bool)>, f: spec_fn(Seq<char>) -> bool) -> Seq<Seq<char>>
    decreases names.len(),
{
    if names.len() == 0 {
        Seq::empty()
    } else {
        names_where(names.drop_last(), f) + if f(names.last().0) {
            seq![names.last().0]
        } else {
            Seq::empty()
        }
    }
}

/// Ends a round cut short by lag: a held-back round may then start without
/// a `Starting` update; where a round is in progress it ends, its servers
/// (and the expected ones) that failed warned of as failed and those that
/// never got ready as cancelled.
pub fn finish_mcp_startup_after_lag(state: &mut McpStartupState) -> (warnings: Option<Vec<String>>)
    requires
        old(state).wf(),
    ensures
        final(state).wf(),
        ({
            let v = old(state).state_view();
            let v1 = if v.ignore {
                McpStateView {
                    saw_starting: if v.pending.len() == 0 {
                        false
                    } else {
                        v.saw_starting
                    },
                    allow_terminal_only: true,
                    ..v
                }
            } else {
                v
            };
            match v.status {
                None => warnings is None && final(state).state_view() == v1,
                Some(e) => {
                    let names = lag_names(e, v.expected);
                    &&& warnings is Some
                    &&& final(state).state_view() == finished_state(v1)
                    &&& names_view(warnings->0@) == finish_warnings(
                        names_where(names, |n: Seq<char>| lag_failed(e, n)),
                        names_where(names, |n: Seq<char>| lag_cancelled(e, n)),
                    )
                }
            }
        }),
{
    if state.ignore_updates_until_next_start {
        if state.pending_next_round.len() == 0 {
            state.pending_next_round_saw_starting = false;
        }
        state.allow_terminal_only_next_round = true;
    }
    let (failed, cancelled) = match &state.status {
        None => {
            return None;
        },
        Some(current) => {
            let mut names: KeyedMap<bool> = KeyedMap::new();
            let es = current.entries();
            let ghost ev = current.view_entries();
            let ghost keys = ev.map_values(|e: (Seq<char>, McpStartupStatus)| (e.0, true));
            let mut i: usize = 0;
            proof {
                assert(names.view_entries() =~= keys.take(0));
            }
            while i < es.len()
                invariant
                    i <= es.len(),
                    keyed_view(es@) == ev,
                    ev == current.view_entries(),
                    keys_increasing(ev),
                    keys == ev.map_values(|e: (Seq<char>, McpStartupStatus)| (e.0, true)),
                    names.view_entries() == keys.take(i as int),
                    keys_increasing(names.view_entries()),
                decreases es.len() - i,
            {
                proof {
                    assert(ev[i as int] == (es@[i as int].0@, es@[i as int].1));
                    crate::sorted_map::lemma_append_key(keys.take(i as int), keys[i as int], i as int, keys);
                }
                names.insert(es[i].0.clone(), true);
                proof {
                    assert(keys.take(i + 1) =~= keys.take(i as int).push((es@[i as int].0@, true)));
                }
                i += 1;
            }
            proof {
                assert(keys.take(keys.len() as int) =~= keys);
            }
            match &state.expected_servers {
                Some(expected) => {
                    let mut k: usize = 0;
                    let ghost base = names.view_entries();
                    while k < expected.len()
                        invariant
                            k <= expected.len(),
                            keys_increasing(names.view_entries()),
                            names.view_entries() == insert_names_spec(base, names_view(expected@).take(k as int)),
                        decreases expected.len() - k,
                    {
                        names.insert(expected[k].clone(), true);
                        proof {
                            assert(names_view(expected@).take(k + 1).drop_last() =~= names_view(expected@).take(k as int));
                        }
                        k += 1;
                    }
                    proof {
                        assert(names_view(expected@).take(expected@.len() as int) =~= names_view(expected@));
                    }
                },
                None => {},
            }
            let ns = names.entries();
            let ghost nv = names.view_entries();
            let mut failed: Vec<String> = Vec::new();
            let mut cancelled: Vec<String> = Vec::new();
            let mut j: usize = 0;
            while j < ns.len()
                invariant
                    j <= ns.len(),
                    keyed_view(ns@) == nv,
                    ev == current.view_entries(),
                    names_view(failed@) == names_where(nv.take(j as int), |n: Seq<char>| lag_failed(ev, n)),
                    names_view(cancelled@) == names_where(nv.take(j as int), |n: Seq<char>| lag_cancelled(ev, n)),
                decreases ns.len() - j,
            {
                proof {
                    assert(nv.take(j + 1).drop_last() =~= nv.take(j as int));
                    assert(nv[j as int].0 == ns@[j as int].0@);
                }
                let name = &ns[j].0;
                let (is_failed, is_cancelled) = match current.get(name.as_str()) {
                    Some(McpStartupStatus::Ready) => (false, false),
                    Some(McpStartupStatus::Failed { .. }) => (true, false),
                    _ => (false, true),
                };
                if is_failed {
                    let ghost before = failed@;
                    let c = name.clone();
                    let ghost cv = c@;
                    failed.push(c);
                    proof {
                        assert(names_view(failed@) =~= names_view(before).push(cv));
                    }
                }
                if is_cancelled {
                    let ghost before = cancelled@;
                    let c = name.clone();
                    let ghost cv = c@;
                    cancelled.push(c);
                    proof {
                        assert(names_view(cancelled@) =~= names_view(before).push(cv));
                    }
                }
                j += 1;
            }
            proof {
                assert(nv.take(nv.len() as int) =~= nv);
            }
            (failed, cancelled)
        },
    };
    Some(finish_mcp_startup(state, failed, cancelled))
}


/// Once a round has ended, a late update that reports a server ready,
/// failed or cancelled does not start a new round: it is held back, with
/// no warning and no status shown.
pub proof fn lemma_stale_update_after_round_is_held_back(
    v: McpStateView,
    server: Seq<char>,
    status: McpStartupStatus,
    complete: bool,
)
    requires
        !(status is Starting),
    ensures
        ({
            let r = mcp_update(finished_state(v), server, status, complete);
            &&& r.held_back
            &&& r.warnings.len() == 0
            &&& r.state.status is None
            &&& !r.finished
        }),
{
    let f = finished_state(v);
    let pending1 = keyed_insert(f.pending, server, status);
    assert(pending1 =~= seq![(server, status)]) by {
        assert(crate::sorted_map::key_pos(Seq::<(Seq<char>, McpStartupStatus)>::empty(), server) == 0);
    }
    assert(!any_starting(pending1)) by {
        if any_starting(pending1) {
            let i = choose|i: int| 0 <= i < pending1.len() && (#[trigger] pending1[i]).1 is Starting;
            assert(pending1[i] == (server, status));
        }
    }
}
} // verus!
