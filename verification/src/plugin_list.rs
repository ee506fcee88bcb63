//! The plugin list of the catalog: which plugins it shows when several
//! marketplaces offer the same remote plugin, in which order, and the local
//! copies to prefer for remote plugins.

use vstd::prelude::*;
use crate::plugins::{
    display_name_text, plugin_display_name, trimmed_nonblank, trim_nonblank, SelectionItem, plugin_remote_identity, remote_identity, ov,
    PluginInstallPolicy, PluginMarketplaceEntry, PluginSource, PluginSummary,
    PreferredLocalPluginSource,
};
use crate::text::{decimal_chars, push_decimal_chars, push_str_chars, lemma_str_lt_total, lemma_str_lt_transitive, push_char, str_eq, str_less, str_lt};
use vstd::multiset::Multiset;
use vstd::seq_lib::to_multiset_insert;

verus! {

/// A plugin of the list: which marketplace, which of its plugins, and the
/// name shown.
#[derive(Debug)]
pub struct PluginEntry {
    pub marketplace: usize,
    pub plugin: usize,
    pub display_name: String,
}

/// The entry points at a plugin of the marketplaces.
pub open spec fn entry_valid(ms: Seq<PluginMarketplaceEntry>, e: PluginEntry) -> bool {
    e.marketplace < ms.len() && e.plugin < ms[e.marketplace as int].plugins@.len()
}

/// All entries point at plugins.
pub open spec fn entries_valid(ms: Seq<PluginMarketplaceEntry>, es: Seq<PluginEntry>) -> bool {
    forall|i: int| 0 <= i < es.len() ==> entry_valid(ms, #[trigger] es[i])
}

/// The plugin an entry points at.
pub open spec fn plugin_of(ms: Seq<PluginMarketplaceEntry>, e: PluginEntry) -> PluginSummary {
    ms[e.marketplace as int].plugins@[e.plugin as int]
}

/// The plugin comes from a remote marketplace.
pub open spec fn is_remote(p: PluginSummary) -> bool {
    p.source is Remote
}

/// Of two entries for the same remote plugin, whether the candidate beats
/// the one kept so far: installed first, then installed by an admin, then a
/// local copy of a shared plugin, then any local source over a remote one.
pub open spec fn preferred(c: PluginSummary, x: PluginSummary) -> bool {
    let c_admin = c.install_policy == PluginInstallPolicy::InstalledByDefault;
    let x_admin = x.install_policy == PluginInstallPolicy::InstalledByDefault;
    let c_share = c.share_context is Some && !is_remote(c);
    let x_share = x.share_context is Some && !is_remote(x);
    if c.installed != x.installed {
        c.installed
    } else if c_admin != x_admin {
        c_admin
    } else if c_share != x_share {
        c_share
    } else {
        !is_remote(c) && is_remote(x)
    }
}

/// Whether the candidate entry beats the one kept so far.
pub fn plugin_entry_preferred(c: &PluginSummary, x: &PluginSummary) -> (r: bool)
    ensures
        r == preferred(*c, *x),
{
    if c.installed != x.installed {
        return c.installed;
    }
    let c_admin = c.install_policy == PluginInstallPolicy::InstalledByDefault;
    let x_admin = x.install_policy == PluginInstallPolicy::InstalledByDefault;
    if c_admin != x_admin {
        return c_admin;
    }
    let c_remote = match &c.source {
        PluginSource::Remote => true,
        _ => false,
    };
    let x_remote = match &x.source {
        PluginSource::Remote => true,
        _ => false,
    };
    let c_share = c.share_context.is_some() && !c_remote;
    let x_share = x.share_context.is_some() && !x_remote;
    if c_share != x_share {
        return c_share;
    }
    !c_remote && x_remote
}

/// The last position among kept entries of the remote plugin `id`, or -1.
pub open spec fn id_pos(ms: Seq<PluginMarketplaceEntry>, kept: Seq<PluginEntry>, id: Seq<char>) -> int
    decreases kept.len(),
{
    if kept.len() == 0 {
        -1
    } else if remote_identity(plugin_of(ms, kept.last())) == Some(id) {
        kept.len() - 1
    } else {
        id_pos(ms, kept.drop_last(), id)
    }
}

/// Entries with one entry per remote plugin, the preferred one, at the
/// place where that plugin first appeared; others stay as they are.
pub open spec fn deduped(ms: Seq<PluginMarketplaceEntry>, es: Seq<PluginEntry>) -> Seq<PluginEntry>
    decreases es.len(),
{
    if es.len() == 0 {
        Seq::empty()
    } else {
        let prev = deduped(ms, es.drop_last());
        let e = es.last();
        match remote_identity(plugin_of(ms, e)) {
            None => prev.push(e),
            Some(id) => {
                let k = id_pos(ms, prev, id);
                if k >= 0 {
                    if preferred(plugin_of(ms, e), plugin_of(ms, prev[k])) {
                        prev.update(k, e)
                    } else {
                        prev
                    }
                } else {
                    prev.push(e)
                }
            },
        }
    }
}

/// What `id_pos` gives.
proof fn lemma_id_pos(ms: Seq<PluginMarketplaceEntry>, kept: Seq<PluginEntry>, id: Seq<char>)
    ensures
        -1 <= id_pos(ms, kept, id) < kept.len(),
        id_pos(ms, kept, id) >= 0 ==> remote_identity(plugin_of(ms, kept[id_pos(ms, kept, id)])) == Some(id),
        forall|k: int|
            id_pos(ms, kept, id) < k < kept.len() ==> remote_identity(plugin_of(ms, #[trigger] kept[k])) != Some(
                id,
            ),
    decreases kept.len(),
{
    if kept.len() > 0 {
        let d = kept.drop_last();
        lemma_id_pos(ms, d, id);
        assert forall|k: int| 0 <= k < d.len() implies d[k] == kept[k] by {}
    }
}

/// Kept entries point at plugins where the input does.
proof fn lemma_deduped_valid(ms: Seq<PluginMarketplaceEntry>, es: Seq<PluginEntry>)
    requires
        entries_valid(ms, es),
    ensures
        entries_valid(ms, deduped(ms, es)),
    decreases es.len(),
{
    if es.len() > 0 {
        assert(entries_valid(ms, es.drop_last())) by {
            assert forall|i: int| 0 <= i < es.drop_last().len() implies entry_valid(ms, #[trigger] es.drop_last()[i]) by {
                assert(es.drop_last()[i] == es[i]);
            }
        }
        lemma_deduped_valid(ms, es.drop_last());
        let prev = deduped(ms, es.drop_last());
        let e = es.last();
        assert(entry_valid(ms, es[es.len() - 1]));
        lemma_id_pos(ms, prev, match remote_identity(plugin_of(ms, e)) {
            Some(id) => id,
            None => Seq::empty(),
        });
        let r = deduped(ms, es);
        assert forall|j: int| 0 <= j < r.len() implies entry_valid(ms, #[trigger] r[j]) by {
            if j < prev.len() && r[j] != e {
                assert(r[j] == prev[j]);
            }
        }
    }
}

/// After deduplication no two entries stand for the same remote plugin.
pub proof fn lemma_deduped_unique_remote_ids(ms: Seq<PluginMarketplaceEntry>, es: Seq<PluginEntry>)
    ensures
        forall|i: int, j: int|
            0 <= i < j < deduped(ms, es).len() && remote_identity(plugin_of(ms, deduped(ms, es)[i])) is Some
                ==> remote_identity(plugin_of(ms, #[trigger] deduped(ms, es)[i])) != remote_identity(
                plugin_of(ms, #[trigger] deduped(ms, es)[j]),
            ),
    decreases es.len(),
{
    if es.len() > 0 {
        let prev = deduped(ms, es.drop_last());
        lemma_deduped_unique_remote_ids(ms, es.drop_last());
        let e = es.last();
        let r = deduped(ms, es);
        match remote_identity(plugin_of(ms, e)) {
            None => {
                assert forall|i: int, j: int|
                    0 <= i < j < r.len() && remote_identity(plugin_of(ms, r[i])) is Some implies remote_identity(
                    plugin_of(ms, #[trigger] r[i]),
                ) != remote_identity(plugin_of(ms, #[trigger] r[j])) by {
                    assert(r[i] == prev[i]);
                    if j < prev.len() {
                        assert(r[j] == prev[j]);
                    }
                }
            },
            Some(id) => {
                lemma_id_pos(ms, prev, id);
                let k = id_pos(ms, prev, id);
                assert forall|i: int, j: int|
                    0 <= i < j < r.len() && remote_identity(plugin_of(ms, r[i])) is Some implies remote_identity(
                    plugin_of(ms, #[trigger] r[i]),
                ) != remote_identity(plugin_of(ms, #[trigger] r[j])) by {
                    if k >= 0 {
                        if i != k {
                            assert(r[i] == prev[i]);
                        }
                        if j != k {
                            assert(r[j] == prev[j]);
                        }
                        if i == k {
                            assert(remote_identity(plugin_of(ms, r[i])) == Some(id));
                            assert(remote_identity(plugin_of(ms, prev[j])) != remote_identity(plugin_of(ms, prev[k])));
                        }
                        if j == k {
                            assert(remote_identity(plugin_of(ms, r[j])) == Some(id));
                        }
                    } else {
                        assert(r[i] == prev[i]);
                        if j < prev.len() {
                            assert(r[j] == prev[j]);
                        } else {
                            assert(remote_identity(plugin_of(ms, prev[i])) != Some(id));
                        }
                    }
                }
            },
        }
    }
}

/// The remote id of the plugin an entry points at.
fn entry_identity<'a>(ms: &'a [PluginMarketplaceEntry], e: &PluginEntry) -> (r: Option<&'a str>)
    requires
        entry_valid(ms@, *e),
    ensures
        match r {
            Some(s) => remote_identity(plugin_of(ms@, *e)) == Some(s@),
            None => remote_identity(plugin_of(ms@, *e)) is None,
        },
{
    plugin_remote_identity(&ms[e.marketplace].plugins[e.plugin])
}

/// The last position among kept entries of the remote plugin `id`.
fn find_id(ms: &[PluginMarketplaceEntry], kept: &Vec<PluginEntry>, id: &str) -> (r: Option<usize>)
    requires
        entries_valid(ms@, kept@),
    ensures
        match r {
            Some(k) => k as int == id_pos(ms@, kept@, id@),
            None => id_pos(ms@, kept@, id@) < 0,
        },
{
    let mut k: usize = kept.len();
    while k > 0
        invariant
            k <= kept@.len(),
            entries_valid(ms@, kept@),
            forall|m: int| k <= m < kept@.len() ==> remote_identity(plugin_of(ms@, #[trigger] kept@[m])) != Some(id@),
        decreases k,
    {
        assert(entry_valid(ms@, kept@[k - 1]));
        match entry_identity(ms, &kept[k - 1]) {
            Some(other) => {
                if str_eq(other, id) {
                    proof {
                        lemma_id_pos(ms@, kept@, id@);
                        let x = id_pos(ms@, kept@, id@);
                        if x < k - 1 {
                            assert(remote_identity(plugin_of(ms@, kept@[k - 1])) == Some(id@));
                        } else if x > k - 1 {
                            assert(remote_identity(plugin_of(ms@, kept@[x])) == Some(id@));
                        }
                    }
                    return Some(k - 1);
                }
            },
            None => {},
        }
        k -= 1;
    }
    proof {
        lemma_id_pos(ms@, kept@, id@);
        let x = id_pos(ms@, kept@, id@);
        if x >= 0 {
            assert(remote_identity(plugin_of(ms@, kept@[x])) == Some(id@));
        }
    }
    None
}

/// Keeps one entry per remote plugin, the preferred one, where that plugin
/// first appeared; entries of plugins with no remote id all stay.
pub fn dedupe_plugin_entries(ms: &[PluginMarketplaceEntry], entries: Vec<PluginEntry>) -> (r: Vec<
    PluginEntry,
>)
    requires
        entries_valid(ms@, entries@),
    ensures
        r@ == deduped(ms@, entries@),
        entries_valid(ms@, r@),
{
    let ghost es = entries@;
    let mut entries = entries;
    let mut kept: Vec<PluginEntry> = Vec::new();
    let mut i: usize = 0;
    let n = entries.len();
    while i < n
        invariant
            i <= n,
            n == es.len(),
            entries_valid(ms@, es),
            entries@ == es.skip(i as int),
            kept@ == deduped(ms@, es.take(i as int)),
            entries_valid(ms@, kept@),
        decreases n - i,
    {
        let e = entries.remove(0);
        proof {
            assert(e == es[i as int]);
            assert(entries@ =~= es.skip(i + 1));
            assert(es.take(i + 1).drop_last() =~= es.take(i as int));
            assert(es.take(i + 1).last() == e);
            assert(entry_valid(ms@, es[i as int]));
        }
        match entry_identity(ms, &e) {
            None => {
                kept.push(e);
            },
            Some(id) => {
                match find_id(ms, &kept, id) {
                    Some(k) => {
                        proof {
                            lemma_id_pos(ms@, kept@, id@);
                        }
                        assert(entry_valid(ms@, kept@[k as int]));
                        let better = plugin_entry_preferred(
                            &ms[e.marketplace].plugins[e.plugin],
                            &ms[kept[k].marketplace].plugins[kept[k].plugin],
                        );
                        if better {
                            kept.set(k, e);
                        }
                    },
                    None => {
                        kept.push(e);
                    },
                }
            },
        }
        proof {
            assert(kept@ == deduped(ms@, es.take(i + 1)));
            assert(entries_valid(ms@, es.take(i + 1))) by {
                assert forall|j: int| 0 <= j < es.take(i + 1).len() implies entry_valid(ms@, #[trigger] es.take(i + 1)[j]) by {
                    assert(es.take(i + 1)[j] == es[j]);
                }
            }
            lemma_deduped_valid(ms@, es.take(i + 1));
        }
        i += 1;
    }
    proof {
        assert(es.take(n as int) =~= es);
    }
    kept
}


/// An entry as plain values: marketplace, plugin and shown name.
pub open spec fn entry_view(e: PluginEntry) -> (int, int, Seq<char>) {
    (e.marketplace as int, e.plugin as int, e.display_name@)
}

/// Every plugin of the first `upto` marketplaces, in order, with the name
/// it shows.
pub open spec fn listed(ms: Seq<PluginMarketplaceEntry>, upto: int) -> Seq<(int, int, Seq<char>)>
    decreases upto,
{
    if upto <= 0 {
        Seq::empty()
    } else {
        listed(ms, upto - 1) + Seq::new(
            ms[upto - 1].plugins@.len(),
            |j: int| (upto - 1, j, display_name_text(ms[upto - 1].plugins@[j])),
        )
    }
}

/// The entries of the plugin list: every plugin of every marketplace in
/// order, one entry per remote plugin.
pub fn plugin_entries_for_marketplaces(ms: &[PluginMarketplaceEntry]) -> (r: Vec<PluginEntry>)
    ensures
        exists|flat: Seq<PluginEntry>|
            #![trigger deduped(ms@, flat)]
            flat.map_values(|e: PluginEntry| entry_view(e)) == listed(ms@, ms@.len() as int)
                && entries_valid(ms@, flat) && r@ == deduped(ms@, flat),
        entries_valid(ms@, r@),
{
    let mut flat: Vec<PluginEntry> = Vec::new();
    let mut i: usize = 0;
    while i < ms.len()
        invariant
            i <= ms@.len(),
            flat@.map_values(|e: PluginEntry| entry_view(e)) == listed(ms@, i as int),
            entries_valid(ms@, flat@),
        decreases ms@.len() - i,
    {
        let ghost base = flat@;
        let mut j: usize = 0;
        while j < ms[i].plugins.len()
            invariant
                i < ms@.len(),
                j <= ms@[i as int].plugins@.len(),
                flat@.len() == base.len() + j,
                forall|k: int| 0 <= k < base.len() ==> flat@[k] == base[k],
                forall|k: int|
                    0 <= k < j ==> entry_view(#[trigger] flat@[base.len() + k]) == (
                        i as int,
                        k,
                        display_name_text(ms@[i as int].plugins@[k]),
                    ),
                entries_valid(ms@, flat@),
            decreases ms@[i as int].plugins@.len() - j,
        {
            let name = plugin_display_name(&ms[i].plugins[j]);
            let ghost before = flat@;
            flat.push(PluginEntry { marketplace: i, plugin: j, display_name: name });
            proof {
                assert forall|k: int| 0 <= k < flat@.len() implies entry_valid(ms@, #[trigger] flat@[k]) by {
                    if k < before.len() {
                        assert(flat@[k] == before[k]);
                    }
                }
                assert(flat@[base.len() + j] == flat@.last());
            }
            j += 1;
        }
        proof {
            assert(flat@.map_values(|e: PluginEntry| entry_view(e)) =~= listed(ms@, i + 1)) by {
                let v = flat@.map_values(|e: PluginEntry| entry_view(e));
                let l = listed(ms@, i as int);
                assert(base.map_values(|e: PluginEntry| entry_view(e)) == l);
                assert forall|k: int| 0 <= k < v.len() implies v[k] == listed(ms@, i + 1)[k] by {
                    if k < base.len() {
                        assert(flat@[k] == base[k]);
                        assert(base.map_values(|e: PluginEntry| entry_view(e))[k] == entry_view(base[k]));
                    } else {
                        assert(entry_view(flat@[base.len() + (k - base.len())]) == (
                            i as int,
                            k - base.len(),
                            display_name_text(ms@[i as int].plugins@[k - base.len()]),
                        ));
                    }
                }
            }
        }
        i += 1;
    }
    let ghost fl = flat@;
    let r = dedupe_plugin_entries(ms, flat);
    proof {
        assert(r@ == deduped(ms@, fl));
    }
    r
}

/// A preferred local copy as plain values: remote id, marketplace path,
/// plugin name, installed, install policy.
pub open spec fn preferred_view(p: (String, PreferredLocalPluginSource)) -> (
    Seq<char>,
    Seq<char>,
    Seq<char>,
    bool,
    PluginInstallPolicy,
) {
    (p.0@, p.1.marketplace_path@, p.1.plugin_name@, p.1.installed, p.1.install_policy)
}

/// A remote id is listed.
pub open spec fn has_id(acc: Seq<(Seq<char>, Seq<char>, Seq<char>, bool, PluginInstallPolicy)>, id: Seq<char>) -> bool {
    exists|k: int| 0 <= k < acc.len() && (#[trigger] acc[k]).0 == id
}

/// Lists a local plugin that shares a remote one, unless that remote id is
/// listed already.
pub open spec fn add_preferred(
    acc: Seq<(Seq<char>, Seq<char>, Seq<char>, bool, PluginInstallPolicy)>,
    path: Seq<char>,
    p: PluginSummary,
) -> Seq<(Seq<char>, Seq<char>, Seq<char>, bool, PluginInstallPolicy)> {
    match p.share_context {
        Some(c) => if !is_remote(p) && !has_id(acc, c.remote_plugin_id@) {
            acc.push((c.remote_plugin_id@, path, p.name@, p.installed, p.install_policy))
        } else {
            acc
        },
        None => acc,
    }
}

/// The local copies listed after the plugins of one local marketplace.
pub open spec fn add_marketplace(
    acc: Seq<(Seq<char>, Seq<char>, Seq<char>, bool, PluginInstallPolicy)>,
    path: Seq<char>,
    ps: Seq<PluginSummary>,
) -> Seq<(Seq<char>, Seq<char>, Seq<char>, bool, PluginInstallPolicy)>
    decreases ps.len(),
{
    if ps.len() == 0 {
        acc
    } else {
        add_preferred(add_marketplace(acc, path, ps.drop_last()), path, ps.last())
    }
}

/// For each remote plugin that local marketplaces share, the first local
/// copy: where it lies, its name, and its state.
pub open spec fn preferred_sources(ms: Seq<PluginMarketplaceEntry>) -> Seq<
    (Seq<char>, Seq<char>, Seq<char>, bool, PluginInstallPolicy),
>
    decreases ms.len(),
{
    if ms.len() == 0 {
        Seq::empty()
    } else {
        let prev = preferred_sources(ms.drop_last());
        match ov(ms.last().path) {
            Some(path) => add_marketplace(prev, path, ms.last().plugins@),
            None => prev,
        }
    }
}

/// Whether a remote id is listed.
fn lists_id(out: &Vec<(String, PreferredLocalPluginSource)>, id: &str) -> (r: bool)
    ensures
        r == has_id(out@.map_values(|q: (String, PreferredLocalPluginSource)| preferred_view(q)), id@),
{
    let ghost view = out@.map_values(|q: (String, PreferredLocalPluginSource)| preferred_view(q));
    let mut k: usize = 0;
    while k < out.len()
        invariant
            k <= out@.len(),
            view == out@.map_values(|q: (String, PreferredLocalPluginSource)| preferred_view(q)),
            forall|x: int| 0 <= x < k ==> (#[trigger] out@[x]).0@ != id@,
        decreases out@.len() - k,
    {
        if str_eq(out[k].0.as_str(), id) {
            assert(view[k as int].0 == id@);
            return true;
        }
        k += 1;
    }
    proof {
        if has_id(view, id@) {
            let x = choose|x: int| 0 <= x < view.len() && (#[trigger] view[x]).0 == id@;
            assert(out@[x].0@ == id@);
        }
    }
    false
}

/// The first local copy of each remote plugin that local marketplaces
/// share; no remote id is listed twice.
pub fn preferred_local_plugin_sources(ms: &[PluginMarketplaceEntry]) -> (r: Vec<
    (String, PreferredLocalPluginSource),
>)
    ensures
        r@.map_values(|p: (String, PreferredLocalPluginSource)| preferred_view(p)) == preferred_sources(ms@),
        crate::plugins::distinct_ids(r@),
{
    let mut out: Vec<(String, PreferredLocalPluginSource)> = Vec::new();
    let mut i: usize = 0;
    proof {
        assert(out@.map_values(|p: (String, PreferredLocalPluginSource)| preferred_view(p)) =~= preferred_sources(
            ms@.take(0),
        ));
    }
    while i < ms.len()
        invariant
            i <= ms@.len(),
            out@.map_values(|p: (String, PreferredLocalPluginSource)| preferred_view(p)) == preferred_sources(
                ms@.take(i as int),
            ),
            crate::plugins::distinct_ids(out@),
        decreases ms@.len() - i,
    {
        let m = &ms[i];
        proof {
            assert(ms@.take(i + 1).drop_last() =~= ms@.take(i as int));
            assert(ms@.take(i + 1).last() == ms@[i as int]);
        }
        match &m.path {
            Some(path) => {
                let ghost start = out@.map_values(|p: (String, PreferredLocalPluginSource)| preferred_view(p));
                let mut j: usize = 0;
                while j < m.plugins.len()
                    invariant
                        j <= m.plugins@.len(),
                        out@.map_values(|p: (String, PreferredLocalPluginSource)| preferred_view(p)) == add_marketplace(
                            start,
                            path@,
                            m.plugins@.take(j as int),
                        ),
                        crate::plugins::distinct_ids(out@),
                    decreases m.plugins@.len() - j,
                {
                    let p = &m.plugins[j];
                    proof {
                        assert(m.plugins@.take(j + 1).drop_last() =~= m.plugins@.take(j as int));
                        assert(m.plugins@.take(j + 1).last() == m.plugins@[j as int]);
                    }
                    let remote = match &p.source {
                        PluginSource::Remote => true,
                        _ => false,
                    };
                    match &p.share_context {
                        Some(c) => {
                            if !remote {
                                let ghost view = out@.map_values(|q: (String, PreferredLocalPluginSource)| preferred_view(q));
                                let seen = lists_id(&out, c.remote_plugin_id.as_str());
                                if !seen {
                                    let ghost before = out@;
                                    out.push(
                                        (
                                            String::from_str(c.remote_plugin_id.as_str()),
                                            PreferredLocalPluginSource {
                                                marketplace_path: String::from_str(path.as_str()),
                                                plugin_name: String::from_str(p.name.as_str()),
                                                installed: p.installed,
                                                install_policy: p.install_policy,
                                            },
                                        ),
                                    );
                                    proof {
                                        assert(out@.map_values(|q: (String, PreferredLocalPluginSource)| preferred_view(q)) =~= view.push(
                                            (c.remote_plugin_id@, path@, p.name@, p.installed, p.install_policy),
                                        ));
                                        assert forall|x: int, y: int| 0 <= x < y < out@.len() implies (#[trigger] out@[x]).0@ != (#[trigger] out@[y]).0@ by {
                                            if y == out@.len() - 1 {
                                                assert(out@[x] == before[x]);
                                                assert(view[x].0 == before[x].0@);
                                            } else {
                                                assert(out@[x] == before[x]);
                                                assert(out@[y] == before[y]);
                                            }
                                        }
                                    }
                                }
                            }
                        },
                        None => {},
                    }
                    j += 1;
                }
                proof {
                    assert(m.plugins@.take(m.plugins@.len() as int) =~= m.plugins@);
                }
            },
            None => {},
        }
        i += 1;
    }
    proof {
        assert(ms@.take(ms@.len() as int) =~= ms@);
    }
    out
}


/// A character in ASCII lower case.
pub open spec fn ascii_lower(c: char) -> char {
    if 'A' <= c && c <= 'Z' {
        ((c as u32) + 32) as char
    } else {
        c
    }
}

/// A text in ASCII lower case.
pub open spec fn lower(s: Seq<char>) -> Seq<char> {
    s.map_values(|c: char| ascii_lower(c))
}

/// The order of the plugin list: installed plugins first, then by shown
/// name ignoring ASCII case, by shown name, by name and by id.
pub open spec fn entry_lt(ms: Seq<PluginMarketplaceEntry>, a: PluginEntry, b: PluginEntry) -> bool {
    let pa = plugin_of(ms, a);
    let pb = plugin_of(ms, b);
    if pa.installed != pb.installed {
        pa.installed
    } else if lower(a.display_name@) != lower(b.display_name@) {
        str_lt(lower(a.display_name@), lower(b.display_name@))
    } else if a.display_name@ != b.display_name@ {
        str_lt(a.display_name@, b.display_name@)
    } else if pa.name@ != pb.name@ {
        str_lt(pa.name@, pb.name@)
    } else {
        str_lt(pa.id@, pb.id@)
    }
}

/// Entries in list order.
pub open spec fn entries_sorted(ms: Seq<PluginMarketplaceEntry>, v: Seq<PluginEntry>) -> bool {
    forall|i: int, j: int| 0 <= i < j < v.len() ==> !entry_lt(ms, #[trigger] v[j], #[trigger] v[i])
}

/// Facts on three texts under `str_lt`.
proof fn lemma_three(x: Seq<char>, y: Seq<char>, z: Seq<char>)
    ensures
        str_lt(x, y) && str_lt(y, z) ==> str_lt(x, z),
        !(str_lt(x, y) && str_lt(y, x)),
        x != y ==> str_lt(x, y) || str_lt(y, x),
        !str_lt(x, x),
{
    lemma_str_lt_total(x, y);
    if str_lt(x, y) && str_lt(y, z) {
        lemma_str_lt_transitive(x, y, z);
    }
}

/// The list order is transitive.
proof fn lemma_entry_lt_transitive(ms: Seq<PluginMarketplaceEntry>, a: PluginEntry, b: PluginEntry, c: PluginEntry)
    requires
        entry_lt(ms, a, b),
        entry_lt(ms, b, c),
    ensures
        entry_lt(ms, a, c),
{
    let (pa, pb, pc) = (plugin_of(ms, a), plugin_of(ms, b), plugin_of(ms, c));
    let (la, lb, lc) = (lower(a.display_name@), lower(b.display_name@), lower(c.display_name@));
    lemma_three(la, lb, lc);
    lemma_three(lb, la, lc);
    lemma_three(la, lc, lb);
    lemma_three(a.display_name@, b.display_name@, c.display_name@);
    lemma_three(b.display_name@, a.display_name@, c.display_name@);
    lemma_three(a.display_name@, c.display_name@, b.display_name@);
    lemma_three(pa.name@, pb.name@, pc.name@);
    lemma_three(pb.name@, pa.name@, pc.name@);
    lemma_three(pa.name@, pc.name@, pb.name@);
    lemma_three(pa.id@, pb.id@, pc.id@);
    lemma_three(pb.id@, pa.id@, pc.id@);
    lemma_three(pa.id@, pc.id@, pb.id@);
}

/// No entry orders before itself.
proof fn lemma_entry_lt_irreflexive(ms: Seq<PluginMarketplaceEntry>, a: PluginEntry)
    ensures
        !entry_lt(ms, a, a),
{
    lemma_three(plugin_of(ms, a).id@, plugin_of(ms, a).id@, plugin_of(ms, a).id@);
}

/// A text in ASCII lower case.
pub fn to_ascii_lower(s: &str) -> (r: String)
    ensures
        r@ == lower(s@),
{
    let v = crate::text::chars_of(s);
    let mut r = String::new();
    let mut i: usize = 0;
    while i < v.len()
        invariant
            i <= v@.len(),
            v@ == s@,
            r@ == lower(s@).take(i as int),
        decreases v@.len() - i,
    {
        let c = v[i];
        let d = if 'A' <= c && c <= 'Z' {
            ((c as u8) + 32) as char
        } else {
            c
        };
        proof {
            if 'A' <= c && c <= 'Z' {
                assert(d == ascii_lower(c));
            }
        }
        push_char(&mut r, d);
        proof {
            assert(lower(s@).take(i + 1) =~= lower(s@).take(i as int).push(ascii_lower(v@[i as int])));
        }
        i += 1;
    }
    proof {
        assert(lower(s@).take(v@.len() as int) =~= lower(s@));
    }
    r
}

/// Whether `a` orders before `b` in the list.
fn entry_less(ms: &[PluginMarketplaceEntry], a: &PluginEntry, b: &PluginEntry) -> (r: bool)
    requires
        entry_valid(ms@, *a),
        entry_valid(ms@, *b),
    ensures
        r == entry_lt(ms@, *a, *b),
{
    let pa = &ms[a.marketplace].plugins[a.plugin];
    let pb = &ms[b.marketplace].plugins[b.plugin];
    if pa.installed != pb.installed {
        return pa.installed;
    }
    let la = to_ascii_lower(a.display_name.as_str());
    let lb = to_ascii_lower(b.display_name.as_str());
    if !str_eq(la.as_str(), lb.as_str()) {
        return str_less(la.as_str(), lb.as_str());
    }
    if !str_eq(a.display_name.as_str(), b.display_name.as_str()) {
        return str_less(a.display_name.as_str(), b.display_name.as_str());
    }
    if !str_eq(pa.name.as_str(), pb.name.as_str()) {
        return str_less(pa.name.as_str(), pb.name.as_str());
    }
    str_less(pa.id.as_str(), pb.id.as_str())
}

/// Inserting where the order puts an entry keeps the list in order.
proof fn lemma_insert_entry(ms: Seq<PluginMarketplaceEntry>, before: Seq<PluginEntry>, p: int, e: PluginEntry)
    requires
        0 <= p <= before.len(),
        entries_sorted(ms, before),
        forall|k: int| 0 <= k < p ==> !entry_lt(ms, e, #[trigger] before[k]),
        p < before.len() ==> entry_lt(ms, e, before[p]),
    ensures
        entries_sorted(ms, before.insert(p, e)),
{
    let after = before.insert(p, e);
    assert forall|k: int| p <= k < before.len() implies !entry_lt(ms, #[trigger] before[k], e) by {
        if entry_lt(ms, before[k], e) {
            lemma_entry_lt_transitive(ms, before[k], e, before[p]);
            if k == p {
                lemma_entry_lt_irreflexive(ms, before[k]);
            }
        }
    }
    assert forall|i: int, j: int| 0 <= i < j < after.len() implies !entry_lt(
        ms,
        #[trigger] after[j],
        #[trigger] after[i],
    ) by {
        if j > p {
            assert(after[j] == before[j - 1]);
        }
        if i > p {
            assert(after[i] == before[i - 1]);
        }
        if i < p {
            assert(after[i] == before[i]);
        }
        if j < p {
            assert(after[j] == before[j]);
        }
    }
}

/// Neither entry orders before the other: they hold the same place in the
/// list order.
pub open spec fn same_rank(ms: Seq<PluginMarketplaceEntry>, a: PluginEntry, b: PluginEntry) -> bool {
    !entry_lt(ms, a, b) && !entry_lt(ms, b, a)
}

/// The entries of `v` that hold the same place in the order as `x`, in
/// their order in `v`.
pub open spec fn same_rank_entries(
    ms: Seq<PluginMarketplaceEntry>,
    v: Seq<PluginEntry>,
    x: PluginEntry,
) -> Seq<PluginEntry>
    decreases v.len(),
{
    if v.len() == 0 {
        Seq::empty()
    } else {
        let r = same_rank_entries(ms, v.drop_last(), x);
        if same_rank(ms, x, v.last()) {
            r.push(v.last())
        } else {
            r
        }
    }
}

/// Entries of the same rank order alike against any third entry.
proof fn lemma_same_rank(ms: Seq<PluginMarketplaceEntry>, a: PluginEntry, b: PluginEntry, c: PluginEntry)
    requires
        same_rank(ms, a, b),
    ensures
        entry_lt(ms, a, c) == entry_lt(ms, b, c),
        same_rank(ms, a, c) == same_rank(ms, b, c),
{
    let (pa, pb) = (plugin_of(ms, a), plugin_of(ms, b));
    lemma_three(lower(a.display_name@), lower(b.display_name@), lower(a.display_name@));
    lemma_three(a.display_name@, b.display_name@, a.display_name@);
    lemma_three(pa.name@, pb.name@, pa.name@);
    lemma_three(pa.id@, pb.id@, pa.id@);
    assert(pa.installed == pb.installed);
    assert(lower(a.display_name@) == lower(b.display_name@));
    assert(a.display_name@ == b.display_name@);
    assert(pa.name@ == pb.name@);
    assert(pa.id@ == pb.id@);
}

/// `same_rank_entries` of a concatenation.
proof fn lemma_same_rank_add(
    ms: Seq<PluginMarketplaceEntry>,
    a: Seq<PluginEntry>,
    b: Seq<PluginEntry>,
    x: PluginEntry,
)
    ensures
        same_rank_entries(ms, a + b, x) == same_rank_entries(ms, a, x) + same_rank_entries(
            ms,
            b,
            x,
        ),
    decreases b.len(),
{
    if b.len() == 0 {
        assert(a + b =~= a);
        assert(same_rank_entries(ms, a, x) + same_rank_entries(ms, b, x) =~= same_rank_entries(
            ms,
            a,
            x,
        ));
    } else {
        lemma_same_rank_add(ms, a, b.drop_last(), x);
        assert((a + b).drop_last() =~= a + b.drop_last());
        assert((a + b).last() == b.last());
        let ra = same_rank_entries(ms, a, x);
        let rb = same_rank_entries(ms, b.drop_last(), x);
        assert((ra + rb).push(b.last()) =~= ra + rb.push(b.last()));
    }
}

/// No entry of `v` ranks like `x`.
proof fn lemma_same_rank_none(ms: Seq<PluginMarketplaceEntry>, v: Seq<PluginEntry>, x: PluginEntry)
    requires
        forall|k: int| 0 <= k < v.len() ==> !same_rank(ms, x, #[trigger] v[k]),
    ensures
        same_rank_entries(ms, v, x) == Seq::<PluginEntry>::empty(),
    decreases v.len(),
{
    if v.len() > 0 {
        let d = v.drop_last();
        assert forall|k: int| 0 <= k < d.len() implies !same_rank(ms, x, #[trigger] d[k]) by {
            assert(d[k] == v[k]);
        }
        lemma_same_rank_none(ms, d, x);
        assert(!same_rank(ms, x, v[v.len() - 1]));
    }
}

/// Inserting an entry after every entry that does not order after it, and
/// before the first that does, puts it last among the entries of its rank.
proof fn lemma_insert_keeps_ranks(
    ms: Seq<PluginMarketplaceEntry>,
    before: Seq<PluginEntry>,
    p: int,
    e: PluginEntry,
    x: PluginEntry,
)
    requires
        0 <= p <= before.len(),
        entries_sorted(ms, before),
        p < before.len() ==> entry_lt(ms, e, before[p]),
    ensures
        same_rank_entries(ms, before.insert(p, e), x) == if same_rank(ms, x, e) {
            same_rank_entries(ms, before, x).push(e)
        } else {
            same_rank_entries(ms, before, x)
        },
{
    let head = before.take(p);
    let tail = before.skip(p);
    assert(before.insert(p, e) =~= head + seq![e] + tail);
    assert(before =~= head + tail);
    lemma_same_rank_add(ms, head + seq![e], tail, x);
    lemma_same_rank_add(ms, head, seq![e], x);
    lemma_same_rank_add(ms, head, tail, x);
    let one = seq![e];
    assert(one.drop_last() =~= Seq::<PluginEntry>::empty());
    assert(one.last() == e);
    assert(same_rank_entries(ms, one.drop_last(), x) =~= Seq::<PluginEntry>::empty());
    if same_rank(ms, x, e) {
        assert(same_rank_entries(ms, one, x) =~= seq![e]);
        assert forall|k: int| 0 <= k < tail.len() implies !same_rank(ms, x, #[trigger] tail[k]) by {
            assert(tail[k] == before[p + k]);
            if k > 0 {
                assert(!entry_lt(ms, before[p + k], before[p]));
            }
            lemma_same_rank(ms, x, e, before[p]);
            lemma_same_rank(ms, x, e, tail[k]);
            if same_rank(ms, e, tail[k]) {
                lemma_same_rank(ms, e, tail[k], before[p]);
            }
        }
        lemma_same_rank_none(ms, tail, x);
        assert(same_rank_entries(ms, before, x) =~= same_rank_entries(ms, head, x));
        assert(same_rank_entries(ms, before.insert(p, e), x) =~= same_rank_entries(ms, head, x).push(
            e,
        ));
    } else {
        assert(same_rank_entries(ms, one, x) =~= Seq::<PluginEntry>::empty());
        assert(same_rank_entries(ms, head, x) + Seq::<PluginEntry>::empty() =~= same_rank_entries(
            ms,
            head,
            x,
        ));
    }
}

/// Puts the plugin list in order, keeping every entry; entries of the same
/// rank keep their order.
pub fn sort_plugin_entries(ms: &[PluginMarketplaceEntry], entries: &mut Vec<PluginEntry>)
    requires
        entries_valid(ms@, old(entries)@),
    ensures
        final(entries)@.to_multiset() == old(entries)@.to_multiset(),
        entries_sorted(ms@, final(entries)@),
        entries_valid(ms@, final(entries)@),
        forall|x: PluginEntry|
            #[trigger] same_rank_entries(ms@, final(entries)@, x) == same_rank_entries(
                ms@,
                old(entries)@,
                x,
            ),
{
    let ghost orig = entries@;
    let mut rest: Vec<PluginEntry> = Vec::new();
    std::mem::swap(&mut rest, entries);
    let mut sorted: Vec<PluginEntry> = Vec::new();
    let ghost mut i: int = 0;
    proof {
        assert(sorted@.to_multiset() =~= Multiset::empty()) by {
            sorted@.to_multiset_ensures();
        }
        assert(orig.take(0).to_multiset() =~= Multiset::empty()) by {
            orig.take(0).to_multiset_ensures();
        }
        assert(rest@ =~= orig.skip(0));
        assert forall|x: PluginEntry| #[trigger]
            same_rank_entries(ms@, sorted@, x) == same_rank_entries(ms@, orig.take(0), x) by {
            assert(orig.take(0) =~= sorted@);
        }
    }
    while rest.len() > 0
        invariant
            0 <= i <= orig.len(),
            rest@ == orig.skip(i),
            sorted@.to_multiset() == orig.take(i).to_multiset(),
            entries_sorted(ms@, sorted@),
            entries_valid(ms@, sorted@),
            entries_valid(ms@, orig),
            forall|x: PluginEntry|
                #[trigger] same_rank_entries(ms@, sorted@, x) == same_rank_entries(
                    ms@,
                    orig.take(i),
                    x,
                ),
        decreases rest.len(),
    {
        let e = rest.remove(0);
        proof {
            assert(e == orig[i]);
            assert(rest@ =~= orig.skip(i + 1));
            assert(entry_valid(ms@, orig[i]));
            assert(orig.take(i + 1) =~= orig.take(i).push(e));
            assert(orig.take(i + 1).drop_last() =~= orig.take(i));
            orig.take(i).to_multiset_ensures();
        }
        let mut p: usize = 0;
        while p < sorted.len() && !entry_less(ms, &e, &sorted[p])
            invariant
                p <= sorted.len(),
                entry_valid(ms@, e),
                entries_valid(ms@, sorted@),
                forall|k: int| 0 <= k < p ==> !entry_lt(ms@, e, #[trigger] sorted@[k]),
            decreases sorted.len() - p,
        {
            p += 1;
        }
        let ghost before = sorted@;
        proof {
            lemma_insert_entry(ms@, before, p as int, e);
        }
        sorted.insert(p, e);
        proof {
            to_multiset_insert(before, p as int, e);
            assert forall|k: int| 0 <= k < sorted@.len() implies entry_valid(ms@, #[trigger] sorted@[k]) by {
                if k < p {
                    assert(sorted@[k] == before[k]);
                } else if k > p {
                    assert(sorted@[k] == before[k - 1]);
                }
            }
            assert forall|x: PluginEntry| #[trigger]
                same_rank_entries(ms@, sorted@, x) == same_rank_entries(ms@, orig.take(i + 1), x) by {
                lemma_insert_keeps_ranks(ms@, before, p as int, e, x);
            }
            i = i + 1;
        }
    }
    proof {
        assert(orig.take(i) =~= orig);
    }
    *entries = sorted;
}


/// How many of `labels` equal `x`.
pub open spec fn count_of(labels: Seq<Seq<char>>, x: Seq<char>) -> nat
    decreases labels.len(),
{
    if labels.len() == 0 {
        0
    } else {
        count_of(labels.drop_last(), x) + if labels.last() == x {
            1nat
        } else {
            0nat
        }
    }
}

/// A count never exceeds the number of labels.
proof fn lemma_count_bounded(labels: Seq<Seq<char>>, x: Seq<char>)
    ensures
        count_of(labels, x) <= labels.len(),
    decreases labels.len(),
{
    if labels.len() > 0 {
        lemma_count_bounded(labels.drop_last(), x);
    }
}

/// The tab label at `i`: unchanged where no other label equals it, else
/// with its place among the equal labels and their number, as `Name (2/3)`.
pub open spec fn tab_label(labels: Seq<Seq<char>>, i: int) -> Seq<char> {
    let total = count_of(labels, labels[i]);
    if total == 1 {
        labels[i]
    } else {
        labels[i] + " ("@ + decimal_chars(count_of(labels.take(i + 1), labels[i])) + "/"@ + decimal_chars(total)
            + ")"@
    }
}

/// How many labels among the first `upto` equal `x`.
fn count_equal(labels: &Vec<String>, x: &str, upto: usize) -> (n: usize)
    requires
        upto <= labels@.len(),
    ensures
        n == count_of(labels@.map_values(|v: String| v@).take(upto as int), x@),
{
    let ghost ls = labels@.map_values(|v: String| v@);
    let mut n: usize = 0;
    let mut k: usize = 0;
    while k < upto
        invariant
            k <= upto <= labels@.len(),
            ls == labels@.map_values(|v: String| v@),
            n == count_of(ls.take(k as int), x@),
        decreases upto - k,
    {
        proof {
            assert(ls.take(k + 1).drop_last() =~= ls.take(k as int));
            assert(ls.take(k + 1).last() == labels@[k as int]@);
            lemma_count_bounded(ls.take(k as int), x@);
        }
        if str_eq(labels[k].as_str(), x) {
            n += 1;
        }
        k += 1;
    }
    n
}

/// Tab labels where equal ones are told apart by their place and number.
pub fn disambiguate_duplicate_tab_labels(labels: Vec<String>) -> (r: Vec<String>)
    ensures
        r@.len() == labels@.len(),
        forall|i: int|
            0 <= i < r@.len() ==> (#[trigger] r@[i])@ == tab_label(labels@.map_values(|v: String| v@), i),
{
    let ghost ls = labels@.map_values(|v: String| v@);
    let mut out: Vec<String> = Vec::new();
    let mut i: usize = 0;
    while i < labels.len()
        invariant
            i <= labels@.len(),
            ls == labels@.map_values(|v: String| v@),
            out@.len() == i,
            forall|k: int| 0 <= k < i ==> (#[trigger] out@[k])@ == tab_label(ls, k),
        decreases labels@.len() - i,
    {
        let label = labels[i].as_str();
        let total = count_equal(&labels, label, labels.len());
        proof {
            assert(ls.take(ls.len() as int) =~= ls);
            assert(ls[i as int] == label@);
        }
        if total == 1 {
            out.push(String::from_str(label));
        } else {
            let current = count_equal(&labels, label, i + 1);
            let mut s = String::from_str(label);
            push_str_chars(&mut s, " (");
            push_decimal_chars(&mut s, current);
            push_str_chars(&mut s, "/");
            push_decimal_chars(&mut s, total);
            push_str_chars(&mut s, ")");
            out.push(s);
        }
        i += 1;
    }
    out
}

/// The hint under the plugin list, by what the selected marketplace
/// allows.
pub open spec fn popup_hint_text(can_remove: bool, can_upgrade: bool) -> Seq<char> {
    if can_remove && can_upgrade {
        "ctrl + u upgrade · ctrl + r remove · space toggle · ←/→ tabs · enter details · esc close"@
    } else if can_remove {
        "ctrl + r remove · space toggle · ←/→ tabs · enter details · esc close"@
    } else if can_upgrade {
        "ctrl + u upgrade · space toggle · ←/→ tabs · enter details · esc close"@
    } else {
        "space enable/disable · ←/→ select marketplace · enter view details · esc close"@
    }
}

/// The hint under the plugin list.
pub fn plugins_popup_hint_line(can_remove_marketplace: bool, can_upgrade_marketplace: bool) -> (s: &'static str)
    ensures
        s@ == popup_hint_text(can_remove_marketplace, can_upgrade_marketplace),
{
    if can_remove_marketplace && can_upgrade_marketplace {
        "ctrl + u upgrade · ctrl + r remove · space toggle · ←/→ tabs · enter details · esc close"
    } else if can_remove_marketplace {
        "ctrl + r remove · space toggle · ←/→ tabs · enter details · esc close"
    } else if can_upgrade_marketplace {
        "ctrl + u upgrade · space toggle · ←/→ tabs · enter details · esc close"
    } else {
        "space enable/disable · ←/→ select marketplace · enter view details · esc close"
    }
}

/// The hint on a plugin's detail page.
pub fn plugin_detail_hint_line() -> (s: &'static str)
    ensures
        s@ == "Press esc to close."@,
{
    "Press esc to close."
}

/// The row shown while a remote section loads.
pub fn remote_section_loading_item(label: &str, description: &str) -> (item: SelectionItem)
    ensures
        item.name@ == "Loading "@ + label@ + " plugins..."@,
        item.description matches Some(d) && d@ == description@,
        item.is_disabled,
{
    let mut name = String::from_str("Loading ");
    push_str_chars(&mut name, label);
    push_str_chars(&mut name, " plugins...");
    SelectionItem { name, description: Some(String::from_str(description)), is_disabled: true }
}

/// The row shown where a remote section failed to load.
pub fn remote_section_error_item(label: &str, message: &str) -> (item: SelectionItem)
    ensures
        item.name@ == label@ + " unavailable"@,
        item.description matches Some(d) && d@ == message@,
        item.is_disabled,
{
    let mut name = String::from_str(label);
    push_str_chars(&mut name, " unavailable");
    SelectionItem { name, description: Some(String::from_str(message)), is_disabled: true }
}

/// Why a remote section of the catalog could not load.
#[derive(Debug)]
pub struct PluginRemoteSectionError {
    pub section_id: String,
    pub label: String,
    pub message: String,
}

/// The first error reported for a section.
pub fn plugin_remote_section_error<'a>(errors: &'a [PluginRemoteSectionError], section_id: &str) -> (r: Option<
    &'a PluginRemoteSectionError,
>)
    ensures
        match r {
            Some(e) => exists|k: int|
                0 <= k < errors@.len() && errors@[k] == *e && e.section_id@ == section_id@ && forall|m: int|
                    0 <= m < k ==> (#[trigger] errors@[m]).section_id@ != section_id@,
            None => forall|m: int| 0 <= m < errors@.len() ==> (#[trigger] errors@[m]).section_id@ != section_id@,
        },
{
    let mut k: usize = 0;
    while k < errors.len()
        invariant
            k <= errors@.len(),
            forall|m: int| 0 <= m < k ==> (#[trigger] errors@[m]).section_id@ != section_id@,
        decreases errors@.len() - k,
    {
        if str_eq(errors[k].section_id.as_str(), section_id) {
            return Some(&errors[k]);
        }
        k += 1;
    }
    None
}

/// The name a marketplace shows: its product's label where it belongs to
/// one, else its display name trimmed where not blank, else its name.
pub open spec fn marketplace_name_text(m: PluginMarketplaceEntry, product_label: Option<Seq<char>>) -> Seq<char> {
    match product_label {
        Some(l) => l,
        None => match trimmed_nonblank(ov(m.display_name)) {
            Some(t) => t,
            None => m.name@,
        },
    }
}

/// The name a marketplace shows.
pub fn marketplace_display_name(m: &PluginMarketplaceEntry, product_label: Option<&str>) -> (s: String)
    ensures
        s@ == marketplace_name_text(
            *m,
            match product_label {
                Some(l) => Some(l@),
                None => None,
            },
        ),
{
    match product_label {
        Some(l) => String::from_str(l),
        None => match trim_nonblank(m.display_name.as_ref()) {
            Some(t) => t,
            None => String::from_str(m.name.as_str()),
        },
    }
}

} // verus!
