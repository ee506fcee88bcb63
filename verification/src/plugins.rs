//! The labels, summaries and request targets that the plugin catalog shows
//! for each plugin.

use vstd::prelude::*;
use crate::debug_config::join;
use crate::diff_line::{push_spaces, spaces};
use crate::status::{trim_text, trimmed};
use crate::text::{decimal_chars, push_char, push_decimal_chars, push_str_chars};

verus! {

/// Whether an administrator disabled a plugin.
#[derive(Clone, Copy, Debug, PartialEq, Eq, Structural)]
pub enum PluginAvailability {
    Available,
    DisabledByAdmin,
}

/// Whether and how a plugin can be installed.
#[derive(Clone, Copy, Debug, PartialEq, Eq, Structural)]
pub enum PluginInstallPolicy {
    NotAvailable,
    Available,
    InstalledByDefault,
}

/// When a plugin asks for authentication.
#[derive(Clone, Copy, Debug, PartialEq, Eq, Structural)]
pub enum PluginAuthPolicy {
    OnInstall,
    OnUse,
}

/// Who can find a shared plugin.
#[derive(Clone, Copy, Debug, PartialEq, Eq, Structural)]
pub enum PluginShareDiscoverability {
    Listed,
    Unlisted,
    Private,
}

/// Someone a plugin is shared with.
#[derive(Debug)]
pub struct PluginSharePrincipal {
    pub name: String,
}

/// How a remote plugin is shared.
#[derive(Debug)]
pub struct PluginShareContext {
    pub remote_plugin_id: String,
    pub remote_version: Option<String>,
    pub discoverability: Option<PluginShareDiscoverability>,
    pub creator_name: Option<String>,
    pub creator_account_user_id: Option<String>,
    pub share_principals: Option<Vec<PluginSharePrincipal>>,
    pub share_url: Option<String>,
}

/// Where a plugin comes from.
#[derive(Debug)]
pub enum PluginSource {
    Local,
    Git { url: String, ref_name: Option<String> },
    Npm { package: String, version: Option<String> },
    Remote,
}

/// What a plugin says of itself.
#[derive(Debug)]
pub struct PluginInterface {
    pub display_name: Option<String>,
    pub short_description: Option<String>,
    pub long_description: Option<String>,
}

/// A plugin as the catalog lists it.
#[derive(Debug)]
pub struct PluginSummary {
    pub id: String,
    pub name: String,
    pub source: PluginSource,
    pub installed: bool,
    pub enabled: bool,
    pub availability: PluginAvailability,
    pub install_policy: PluginInstallPolicy,
    pub auth_policy: PluginAuthPolicy,
    pub interface: Option<PluginInterface>,
    pub local_version: Option<String>,
    pub share_context: Option<PluginShareContext>,
    pub remote_plugin_id: Option<String>,
}

/// The view of an optional string.
pub open spec fn ov(s: Option<String>) -> Option<Seq<char>> {
    match s {
        Some(x) => Some(x@),
        None => None,
    }
}

/// The separator between parts of a summary.
pub open spec fn dot() -> Seq<char> {
    seq![' ', '·', ' ']
}

/// The status shown on a plugin's detail page.
pub open spec fn detail_status_text(p: PluginSummary) -> Seq<char> {
    if p.availability == PluginAvailability::DisabledByAdmin {
        "Disabled by admin"@
    } else if p.install_policy == PluginInstallPolicy::InstalledByDefault {
        if p.installed {
            "Installed by admin"@
        } else {
            "Enabled by Admin"@
        }
    } else if p.installed {
        if p.enabled {
            "Installed"@
        } else {
            "Disabled"@
        }
    } else {
        match p.install_policy {
            PluginInstallPolicy::NotAvailable => "Not installable"@,
            PluginInstallPolicy::Available => "Can be installed"@,
            PluginInstallPolicy::InstalledByDefault => "Installed by admin"@,
        }
    }
}

/// The status shown on a plugin's detail page.
pub fn plugin_detail_status_label(p: &PluginSummary) -> (s: &'static str)
    ensures
        s@ == detail_status_text(*p),
{
    if p.availability == PluginAvailability::DisabledByAdmin {
        return "Disabled by admin";
    }
    if p.install_policy == PluginInstallPolicy::InstalledByDefault {
        return if p.installed {
            "Installed by admin"
        } else {
            "Enabled by Admin"
        };
    }
    if p.installed {
        if p.enabled {
            "Installed"
        } else {
            "Disabled"
        }
    } else {
        match p.install_policy {
            PluginInstallPolicy::NotAvailable => "Not installable",
            PluginInstallPolicy::Available => "Can be installed",
            PluginInstallPolicy::InstalledByDefault => "Installed by admin",
        }
    }
}

/// The status shown in the plugin list.
pub open spec fn status_text(p: PluginSummary) -> Seq<char> {
    if p.availability == PluginAvailability::DisabledByAdmin {
        "Disabled"@
    } else if !p.installed && p.install_policy == PluginInstallPolicy::InstalledByDefault {
        "Admin assigned"@
    } else if p.installed {
        if p.enabled {
            "Installed"@
        } else {
            "Disabled"@
        }
    } else {
        match p.install_policy {
            PluginInstallPolicy::NotAvailable => "Not installable"@,
            PluginInstallPolicy::Available => "Available"@,
            PluginInstallPolicy::InstalledByDefault => "Installed"@,
        }
    }
}

/// The status shown in the plugin list.
pub fn plugin_status_label(p: &PluginSummary) -> (s: &'static str)
    ensures
        s@ == status_text(*p),
{
    if p.availability == PluginAvailability::DisabledByAdmin {
        return "Disabled";
    }
    if !p.installed && p.install_policy == PluginInstallPolicy::InstalledByDefault {
        return "Admin assigned";
    }
    if p.installed {
        if p.enabled {
            "Installed"
        } else {
            "Disabled"
        }
    } else {
        match p.install_policy {
            PluginInstallPolicy::NotAvailable => "Not installable",
            PluginInstallPolicy::Available => "Available",
            PluginInstallPolicy::InstalledByDefault => "Installed",
        }
    }
}

/// When the plugin asks for authentication.
pub open spec fn auth_text(a: PluginAuthPolicy) -> Seq<char> {
    match a {
        PluginAuthPolicy::OnInstall => "Auth on install"@,
        PluginAuthPolicy::OnUse => "Auth on use"@,
    }
}

/// When the plugin asks for authentication.
pub fn plugin_auth_policy_summary(a: PluginAuthPolicy) -> (s: String)
    ensures
        s@ == auth_text(a),
{
    match a {
        PluginAuthPolicy::OnInstall => String::from_str("Auth on install"),
        PluginAuthPolicy::OnUse => String::from_str("Auth on use"),
    }
}

/// Who can find a shared plugin.
pub open spec fn discoverability_text(d: PluginShareDiscoverability) -> Seq<char> {
    match d {
        PluginShareDiscoverability::Listed => "Listed"@,
        PluginShareDiscoverability::Unlisted => "Workspace link"@,
        PluginShareDiscoverability::Private => "Private"@,
    }
}

/// Who can find a shared plugin.
pub fn plugin_share_discoverability_label(d: PluginShareDiscoverability) -> (s: &'static str)
    ensures
        s@ == discoverability_text(d),
{
    match d {
        PluginShareDiscoverability::Listed => "Listed",
        PluginShareDiscoverability::Unlisted => "Workspace link",
        PluginShareDiscoverability::Private => "Private",
    }
}

/// Who made a shared plugin, where known.
pub open spec fn creator_text(c: PluginShareContext) -> Option<Seq<char>> {
    match (ov(c.creator_name), ov(c.creator_account_user_id)) {
        (Some(n), Some(a)) => Some("creator "@ + n + " ("@ + a + ")"@),
        (Some(n), None) => Some("creator "@ + n),
        (None, Some(a)) => Some("creator account "@ + a),
        (None, None) => None,
    }
}

/// Who made a shared plugin, where known.
pub fn plugin_share_creator_summary(c: &PluginShareContext) -> (r: Option<String>)
    ensures
        ov(r) == creator_text(*c),
{
    match (&c.creator_name, &c.creator_account_user_id) {
        (Some(n), Some(a)) => {
            let mut s = String::from_str("creator ");
            push_str_chars(&mut s, n.as_str());
            push_str_chars(&mut s, " (");
            push_str_chars(&mut s, a.as_str());
            push_str_chars(&mut s, ")");
            Some(s)
        },
        (Some(n), None) => {
            let mut s = String::from_str("creator ");
            push_str_chars(&mut s, n.as_str());
            Some(s)
        },
        (None, Some(a)) => {
            let mut s = String::from_str("creator account ");
            push_str_chars(&mut s, a.as_str());
            Some(s)
        },
        (None, None) => None,
    }
}

/// Whom a plugin is shared with.
pub open spec fn principals_text(p: Seq<PluginSharePrincipal>) -> Seq<char> {
    if p.len() == 0 {
        "No explicit principals"@
    } else if p.len() == 1 {
        "1 principal: "@ + p[0].name@
    } else {
        decimal_chars(p.len()) + " principals"@
    }
}

/// Whom a plugin is shared with.
pub fn plugin_share_principals_summary(p: &[PluginSharePrincipal]) -> (s: String)
    ensures
        s@ == principals_text(p@),
{
    if p.len() == 0 {
        String::from_str("No explicit principals")
    } else if p.len() == 1 {
        let mut s = String::from_str("1 principal: ");
        push_str_chars(&mut s, p[0].name.as_str());
        s
    } else {
        let mut s = String::new();
        push_decimal_chars(&mut s, p.len());
        push_str_chars(&mut s, " principals");
        proof {
            assert(Seq::<char>::empty() + decimal_chars(p@.len()) =~= decimal_chars(p@.len()));
        }
        s
    }
}

/// Values joined by a separator.
pub fn join_strings(values: &Vec<String>, sep: &str) -> (s: String)
    ensures
        s@ == join(values@.map_values(|v: String| v@), sep@),
{
    let ghost vs = values@.map_values(|v: String| v@);
    let mut s = String::new();
    let mut i: usize = 0;
    while i < values.len()
        invariant
            i <= values.len(),
            vs == values@.map_values(|v: String| v@),
            s@ == join(vs.take(i as int), sep@),
        decreases values.len() - i,
    {
        if i > 0 {
            push_str_chars(&mut s, sep);
        }
        push_str_chars(&mut s, values[i].as_str());
        proof {
            let t = vs.take(i + 1);
            assert(t.drop_last() =~= vs.take(i as int));
            assert(t.last() == values@[i as int]@);
            if i == 0 {
                assert(t.len() == 1);
                assert(Seq::<char>::empty() + values@[0]@ =~= values@[0]@);
            }
        }
        i += 1;
    }
    proof {
        assert(vs.take(values@.len() as int) =~= vs);
    }
    s
}

/// A string holds more than white space.
pub open spec fn not_blank(s: Seq<char>) -> bool {
    trimmed(s).len() > 0
}

/// The parts of a sharing summary: who can find it, who made it, whom it
/// is shared with, and its link where that is not blank.
pub open spec fn share_parts(c: PluginShareContext) -> Seq<Seq<char>> {
    (match c.discoverability {
        Some(d) => seq![discoverability_text(d)],
        None => Seq::empty(),
    }) + (match creator_text(c) {
        Some(t) => seq![t],
        None => Seq::empty(),
    }) + (match c.share_principals {
        Some(p) => seq![principals_text(p@)],
        None => Seq::empty(),
    }) + (match ov(c.share_url) {
        Some(u) => if not_blank(u) {
            seq![u]
        } else {
            Seq::empty()
        },
        None => Seq::empty(),
    })
}

/// How a plugin is shared: its parts joined by ` · `, or its remote id
/// where there are none.
pub open spec fn share_text(c: PluginShareContext) -> Seq<char> {
    if share_parts(c).len() == 0 {
        "Remote ID "@ + c.remote_plugin_id@
    } else {
        join(share_parts(c), dot())
    }
}

/// Appends a string, keeping the views in step.
fn push_part(parts: &mut Vec<String>, s: String)
    ensures
        final(parts)@.map_values(|v: String| v@) == old(parts)@.map_values(|v: String| v@).push(s@),
{
    let ghost before = parts@;
    parts.push(s);
    proof {
        assert(parts@.map_values(|v: String| v@) =~= before.map_values(|v: String| v@).push(s@));
    }
}

/// Whether a string holds more than white space.
fn is_not_blank(s: &str) -> (r: bool)
    ensures
        r == not_blank(s@),
{
    let t = trim_text(s);
    t.as_str().unicode_len() > 0
}

/// How a plugin is shared.
pub fn plugin_share_context_summary(c: &PluginShareContext) -> (s: String)
    ensures
        s@ == share_text(*c),
{
    let mut parts: Vec<String> = Vec::new();
    proof {
        assert(parts@.map_values(|v: String| v@) =~= Seq::<Seq<char>>::empty());
    }
    let ghost p0 = parts@.map_values(|v: String| v@);
    match c.discoverability {
        Some(d) => push_part(&mut parts, String::from_str(plugin_share_discoverability_label(d))),
        None => {},
    }
    let ghost p1 = parts@.map_values(|v: String| v@);
    match plugin_share_creator_summary(c) {
        Some(t) => push_part(&mut parts, t),
        None => {},
    }
    let ghost p2 = parts@.map_values(|v: String| v@);
    match &c.share_principals {
        Some(p) => push_part(&mut parts, plugin_share_principals_summary(p.as_slice())),
        None => {},
    }
    let ghost p3 = parts@.map_values(|v: String| v@);
    match &c.share_url {
        Some(u) => {
            if is_not_blank(u.as_str()) {
                push_part(&mut parts, String::from_str(u.as_str()));
            }
        },
        None => {},
    }
    proof {
        assert(parts@.map_values(|v: String| v@) =~= share_parts(*c));
    }
    if parts.len() == 0 {
        let mut s = String::from_str("Remote ID ");
        push_str_chars(&mut s, c.remote_plugin_id.as_str());
        s
    } else {
        proof {
            reveal_strlit(" · ");
            assert(" · "@ =~= dot());
        }
        join_strings(&parts, " · ")
    }
}


/// The versions of a plugin, local and remote, joined by ` · `; none where
/// neither is known.
pub open spec fn version_text(p: PluginSummary) -> Option<Seq<char>> {
    let parts = version_parts(p);
    if parts.len() == 0 {
        None
    } else {
        Some(join(parts, dot()))
    }
}

/// The known versions of a plugin, labelled.
pub open spec fn version_parts(p: PluginSummary) -> Seq<Seq<char>> {
    (match ov(p.local_version) {
        Some(v) => seq!["local "@ + v],
        None => Seq::empty(),
    }) + (match p.share_context {
        Some(c) => match ov(c.remote_version) {
            Some(v) => seq!["remote "@ + v],
            None => Seq::empty(),
        },
        None => Seq::empty(),
    })
}

/// A label and a value.
fn labelled(label: &str, value: &str) -> (s: String)
    ensures
        s@ == label@ + value@,
{
    let mut s = String::from_str(label);
    push_str_chars(&mut s, value);
    s
}

/// The versions of a plugin, local and remote.
pub fn plugin_version_summary(p: &PluginSummary) -> (r: Option<String>)
    ensures
        ov(r) == version_text(*p),
{
    let mut parts: Vec<String> = Vec::new();
    proof {
        assert(parts@.map_values(|v: String| v@) =~= Seq::<Seq<char>>::empty());
    }
    match &p.local_version {
        Some(v) => push_part(&mut parts, labelled("local ", v.as_str())),
        None => {},
    }
    match &p.share_context {
        Some(c) => match &c.remote_version {
            Some(v) => push_part(&mut parts, labelled("remote ", v.as_str())),
            None => {},
        },
        None => {},
    }
    proof {
        assert(parts@.map_values(|v: String| v@) =~= version_parts(*p));
    }
    if parts.len() == 0 {
        None
    } else {
        proof {
            reveal_strlit(" · ");
            assert(" · "@ =~= dot());
        }
        Some(join_strings(&parts, " · "))
    }
}

/// A text trimmed, where something is left.
pub open spec fn trimmed_nonblank(s: Option<Seq<char>>) -> Option<Seq<char>> {
    match s {
        Some(t) => if trimmed(t).len() > 0 {
            Some(trimmed(t))
        } else {
            None
        },
        None => None,
    }
}

/// A text trimmed, where something is left.
pub(crate) fn trim_nonblank(s: Option<&String>) -> (r: Option<String>)
    ensures
        ov(r) == trimmed_nonblank(
            match s {
                Some(t) => Some(t@),
                None => None,
            },
        ),
{
    match s {
        Some(t) => {
            let u = trim_text(t.as_str());
            if u.as_str().unicode_len() > 0 {
                Some(u)
            } else {
                None
            }
        },
        None => None,
    }
}

/// The first of two optional strings that is there.
pub open spec fn or_else(a: Option<Seq<char>>, b: Option<Seq<char>>) -> Option<Seq<char>> {
    match a {
        Some(x) => Some(x),
        None => b,
    }
}

/// The name a plugin shows: its display name trimmed, where not blank, else
/// its name.
pub open spec fn display_name_text(p: PluginSummary) -> Seq<char> {
    match trimmed_nonblank(
        match p.interface {
            Some(i) => ov(i.display_name),
            None => None,
        },
    ) {
        Some(t) => t,
        None => p.name@,
    }
}

/// The name a plugin shows.
pub fn plugin_display_name(p: &PluginSummary) -> (s: String)
    ensures
        s@ == display_name_text(*p),
{
    let shown = match &p.interface {
        Some(i) => trim_nonblank(i.display_name.as_ref()),
        None => None,
    };
    match shown {
        Some(t) => t,
        None => String::from_str(p.name.as_str()),
    }
}

/// A plugin's short description, else its long one, trimmed; none where
/// blank.
pub open spec fn description_text(p: PluginSummary) -> Option<Seq<char>> {
    trimmed_nonblank(
        match p.interface {
            Some(i) => or_else(ov(i.short_description), ov(i.long_description)),
            None => None,
        },
    )
}

/// The first of two optional strings that is there.
fn first_of<'a>(a: Option<&'a String>, b: Option<&'a String>) -> (r: Option<&'a String>)
    ensures
        r == (match a {
            Some(x) => Some(x),
            None => b,
        }),
{
    match a {
        Some(x) => Some(x),
        None => b,
    }
}

/// The view of an optional string reference.
pub open spec fn rv(s: Option<&String>) -> Option<Seq<char>> {
    match s {
        Some(t) => Some(t@),
        None => None,
    }
}

/// A plugin's description for the list.
pub fn plugin_description(p: &PluginSummary) -> (r: Option<String>)
    ensures
        ov(r) == description_text(*p),
{
    match &p.interface {
        Some(i) => {
            let d = first_of(i.short_description.as_ref(), i.long_description.as_ref());
            proof {
                assert(rv(d) == or_else(ov(i.short_description), ov(i.long_description)));
            }
            trim_nonblank(d)
        },
        None => None,
    }
}

/// The id a remote plugin is known by: that of its sharing context, else
/// its own.
pub open spec fn remote_identity(p: PluginSummary) -> Option<Seq<char>> {
    match p.share_context {
        Some(c) => Some(c.remote_plugin_id@),
        None => ov(p.remote_plugin_id),
    }
}

/// The id a remote plugin is known by.
pub fn plugin_remote_identity(p: &PluginSummary) -> (r: Option<&str>)
    ensures
        match r {
            Some(s) => remote_identity(*p) == Some(s@),
            None => remote_identity(*p) is None,
        },
{
    match &p.share_context {
        Some(c) => Some(c.remote_plugin_id.as_str()),
        None => match &p.remote_plugin_id {
            Some(id) => Some(id.as_str()),
            None => None,
        },
    }
}

/// The name a request about the plugin uses: the remote id of a remote
/// plugin where it has one, else the plugin's name.
pub open spec fn request_name(p: PluginSummary) -> Seq<char> {
    match (p.source, remote_identity(p)) {
        (PluginSource::Remote, Some(id)) => id,
        _ => p.name@,
    }
}

/// The name a request about the plugin uses.
pub fn plugin_request_name(p: &PluginSummary) -> (s: String)
    ensures
        s@ == request_name(*p),
{
    match &p.source {
        PluginSource::Remote => match plugin_remote_identity(p) {
            Some(id) => String::from_str(id),
            None => String::from_str(p.name.as_str()),
        },
        _ => String::from_str(p.name.as_str()),
    }
}

/// The id to uninstall: the remote id of a remote plugin, if any, else the
/// plugin's id.
pub open spec fn uninstall_id(p: PluginSummary) -> Option<Seq<char>> {
    match p.source {
        PluginSource::Remote => remote_identity(p),
        _ => Some(p.id@),
    }
}

/// The id to uninstall.
pub fn plugin_uninstall_id(p: &PluginSummary) -> (r: Option<String>)
    ensures
        ov(r) == uninstall_id(*p),
{
    match &p.source {
        PluginSource::Remote => match plugin_remote_identity(p) {
            Some(id) => Some(String::from_str(id)),
            None => None,
        },
        _ => Some(String::from_str(p.id.as_str())),
    }
}

/// Where the plugin comes from; a remote plugin names its marketplace by
/// the product's label where the marketplace belongs to one.
pub open spec fn source_text(p: PluginSummary, marketplace_name: Seq<char>, product_label: Option<Seq<char>>) -> Seq<
    char,
> {
    match p.source {
        PluginSource::Local => "Local"@,
        PluginSource::Git { url, ref_name } => match ov(ref_name) {
            Some(r) => "Git · "@ + url@ + "@"@ + r,
            None => "Git · "@ + url@,
        },
        PluginSource::Npm { package, version } => match ov(version) {
            Some(v) => "npm · "@ + package@ + "@"@ + v,
            None => "npm · "@ + package@,
        },
        PluginSource::Remote => "Remote · "@ + match product_label {
            Some(l) => l,
            None => marketplace_name,
        },
    }
}

/// Where the plugin comes from.
pub fn plugin_source_summary(p: &PluginSummary, marketplace_name: &str, product_label: Option<&str>) -> (s:
    String)
    ensures
        s@ == source_text(
            *p,
            marketplace_name@,
            match product_label {
                Some(l) => Some(l@),
                None => None,
            },
        ),
{
    match &p.source {
        PluginSource::Local => String::from_str("Local"),
        PluginSource::Git { url, ref_name } => {
            let mut s = labelled("Git · ", url.as_str());
            match ref_name {
                Some(r) => {
                    push_str_chars(&mut s, "@");
                    push_str_chars(&mut s, r.as_str());
                },
                None => {},
            }
            s
        },
        PluginSource::Npm { package, version } => {
            let mut s = labelled("npm · ", package.as_str());
            match version {
                Some(v) => {
                    push_str_chars(&mut s, "@");
                    push_str_chars(&mut s, v.as_str());
                },
                None => {},
            }
            s
        },
        PluginSource::Remote => match product_label {
            Some(l) => labelled("Remote · ", l),
            None => labelled("Remote · ", marketplace_name),
        },
    }
}

/// Names joined by `, `, or a fixed text where there are none.
pub open spec fn names_text(names: Seq<Seq<char>>, none: Seq<char>) -> Seq<char> {
    if names.len() == 0 {
        none
    } else {
        join(names, ", "@)
    }
}

/// Names joined by `, `, or `none` where there are none.
fn names_summary(names: &Vec<String>, none: &str) -> (s: String)
    ensures
        s@ == names_text(names@.map_values(|v: String| v@), none@),
{
    if names.len() == 0 {
        String::from_str(none)
    } else {
        join_strings(names, ", ")
    }
}


/// A plugin with what its detail page shows. Hooks are given by the name
/// of the event each one handles.
#[derive(Debug)]
pub struct PluginDetail {
    pub summary: PluginSummary,
    pub marketplace_name: String,
    pub marketplace_path: Option<String>,
    pub description: Option<String>,
    pub skills: Vec<String>,
    pub apps: Vec<String>,
    pub hooks: Vec<String>,
    pub mcp_servers: Vec<String>,
}

/// The plugin's skills, by name.
pub fn plugin_skill_summary(d: &PluginDetail) -> (s: String)
    ensures
        s@ == names_text(d.skills@.map_values(|v: String| v@), "No plugin skills."@),
{
    names_summary(&d.skills, "No plugin skills.")
}

/// The plugin's apps, by name.
pub fn plugin_app_summary(d: &PluginDetail) -> (s: String)
    ensures
        s@ == names_text(d.apps@.map_values(|v: String| v@), "No plugin apps."@),
{
    names_summary(&d.apps, "No plugin apps.")
}

/// The plugin's MCP servers, by name.
pub fn plugin_mcp_summary(d: &PluginDetail) -> (s: String)
    ensures
        s@ == names_text(d.mcp_servers@.map_values(|v: String| v@), "No plugin MCP servers."@),
{
    names_summary(&d.mcp_servers, "No plugin MCP servers.")
}

/// The last position of event `e` among counted events, or -1.
pub open spec fn event_index(counts: Seq<(Seq<char>, nat)>, e: Seq<char>) -> int
    decreases counts.len(),
{
    if counts.len() == 0 {
        -1
    } else if counts.last().0 == e {
        counts.len() - 1
    } else {
        event_index(counts.drop_last(), e)
    }
}

/// Each event with the number of hooks that handle it, in the order events
/// first appear.
pub open spec fn hook_counts(events: Seq<Seq<char>>) -> Seq<(Seq<char>, nat)>
    decreases events.len(),
{
    if events.len() == 0 {
        Seq::empty()
    } else {
        let prev = hook_counts(events.drop_last());
        let e = events.last();
        let k = event_index(prev, e);
        if k >= 0 {
            prev.update(k, (e, prev[k].1 + 1))
        } else {
            prev.push((e, 1))
        }
    }
}

/// The position `event_index` gives holds the event.
proof fn lemma_event_index(counts: Seq<(Seq<char>, nat)>, e: Seq<char>)
    ensures
        -1 <= event_index(counts, e) < counts.len(),
        event_index(counts, e) >= 0 ==> counts[event_index(counts, e)].0 == e,
        event_index(counts, e) < 0 ==> forall|k: int| 0 <= k < counts.len() ==> counts[k].0 != e,
        forall|k: int| event_index(counts, e) < k < counts.len() ==> counts[k].0 != e,
    decreases counts.len(),
{
    if counts.len() > 0 {
        let d = counts.drop_last();
        lemma_event_index(d, e);
        assert forall|k: int| 0 <= k < d.len() implies d[k] == counts[k] by {}
    }
}

/// The last position of event `e` among counted events.
fn find_event(counts: &Vec<(String, usize)>, e: &String) -> (r: Option<usize>)
    ensures
        match r {
            Some(k) => k as int == event_index(count_views(counts@), e@),
            None => event_index(count_views(counts@), e@) < 0,
        },
{
    let mut k: usize = counts.len();
    while k > 0
        invariant
            k <= counts@.len(),
            forall|m: int| k <= m < counts@.len() ==> counts@[m].0@ != e@,
        decreases k,
    {
        if crate::text::str_eq(counts[k - 1].0.as_str(), e.as_str()) {
            proof {
                let cv = count_views(counts@);
                lemma_event_index(cv, e@);
                assert(cv[k - 1].0 == e@);
                let x = event_index(cv, e@);
                if x < k - 1 {
                    assert(cv[k - 1].0 != e@);
                } else if x > k - 1 {
                    assert(cv[x].0 == e@);
                    assert(counts@[x].0@ == e@);
                }
            }
            return Some(k - 1);
        }
        k -= 1;
    }
    proof {
        let cv = count_views(counts@);
        lemma_event_index(cv, e@);
        let x = event_index(cv, e@);
        if x >= 0 {
            assert(cv[x].0 == e@);
            assert(counts@[x].0@ == e@);
        }
    }
    None
}

/// No count exceeds the number of events.
proof fn lemma_hook_counts_bounded(events: Seq<Seq<char>>)
    ensures
        forall|k: int| 0 <= k < hook_counts(events).len() ==> (#[trigger] hook_counts(events)[k]).1 <= events.len(),
        hook_counts(events).len() <= events.len(),
    decreases events.len(),
{
    if events.len() > 0 {
        lemma_hook_counts_bounded(events.drop_last());
        lemma_event_index(hook_counts(events.drop_last()), events.last());
    }
}

/// An event with its count, as `Event (n)`.
pub open spec fn count_text(c: (Seq<char>, nat)) -> Seq<char> {
    c.0 + " ("@ + decimal_chars(c.1) + ")"@
}

/// The plugin's hooks: each event with its number of handlers, or a fixed
/// text where there are none.
pub open spec fn hook_text(hooks: Seq<Seq<char>>) -> Seq<char> {
    if hooks.len() == 0 {
        "No plugin hooks."@
    } else {
        join(hook_counts(hooks).map_values(|c: (Seq<char>, nat)| count_text(c)), ", "@)
    }
}

/// The views of counted events.
pub open spec fn count_views(v: Seq<(String, usize)>) -> Seq<(Seq<char>, nat)> {
    v.map_values(|c: (String, usize)| (c.0@, c.1 as nat))
}

/// The plugin's hooks, each event with its number of handlers.
pub fn plugin_hook_summary(d: &PluginDetail) -> (s: String)
    ensures
        s@ == hook_text(d.hooks@.map_values(|v: String| v@)),
{
    let ghost events = d.hooks@.map_values(|v: String| v@);
    if d.hooks.len() == 0 {
        return String::from_str("No plugin hooks.");
    }
    let mut counts: Vec<(String, usize)> = Vec::new();
    let mut i: usize = 0;
    while i < d.hooks.len()
        invariant
            i <= d.hooks@.len(),
            events == d.hooks@.map_values(|v: String| v@),
            count_views(counts@) == hook_counts(events.take(i as int)),
        decreases d.hooks@.len() - i,
    {
        let e = &d.hooks[i];
        proof {
            assert(events.take(i + 1).drop_last() =~= events.take(i as int));
            assert(events.take(i + 1).last() == e@);
            lemma_event_index(count_views(counts@), e@);
            lemma_hook_counts_bounded(events.take(i as int));
        }
        let found = find_event(&counts, e);
        match found {
            Some(k) => {
                let ghost before = counts@;
                let n = counts[k].1;
                proof {
                    assert(events.take(i as int).len() == i);
                    assert(count_views(before)[k as int].1 <= i);
                }
                let name = String::from_str(e.as_str());
                counts.set(k, (name, n + 1));
                proof {
                    assert(count_views(counts@) =~= count_views(before).update(k as int, (e@, (n + 1) as nat)));
                }
            },
            None => {
                let ghost before = counts@;
                counts.push((String::from_str(e.as_str()), 1));
                proof {
                    assert(count_views(counts@) =~= count_views(before).push((e@, 1)));
                }
            },
        }
        i += 1;
    }
    proof {
        assert(events.take(d.hooks@.len() as int) =~= events);
    }
    let mut parts: Vec<String> = Vec::new();
    let mut j: usize = 0;
    while j < counts.len()
        invariant
            j <= counts@.len(),
            parts@.map_values(|v: String| v@) == count_views(counts@).take(j as int).map_values(
                |c: (Seq<char>, nat)| count_text(c),
            ),
        decreases counts@.len() - j,
    {
        let mut t = String::from_str(counts[j].0.as_str());
        push_str_chars(&mut t, " (");
        push_decimal_chars(&mut t, counts[j].1);
        push_str_chars(&mut t, ")");
        let ghost before = parts@;
        parts.push(t);
        proof {
            let cv = count_views(counts@);
            assert(t@ == count_text(cv[j as int]));
            assert(cv.take(j + 1) =~= cv.take(j as int).push(cv[j as int]));
            assert(parts@.map_values(|v: String| v@) =~= before.map_values(|v: String| v@).push(t@));
            assert(parts@.map_values(|v: String| v@) =~= count_views(counts@).take(j + 1).map_values(
                |c: (Seq<char>, nat)| count_text(c),
            ));
        }
        j += 1;
    }
    proof {
        assert(count_views(counts@).take(counts@.len() as int) =~= count_views(counts@));
    }
    join_strings(&parts, ", ")
}


/// The detail page's description: its own, else the long one, else the
/// short one, trimmed; none where blank.
pub open spec fn detail_description_text(d: PluginDetail) -> Option<Seq<char>> {
    trimmed_nonblank(
        or_else(
            ov(d.description),
            match d.summary.interface {
                Some(i) => or_else(ov(i.long_description), ov(i.short_description)),
                None => None,
            },
        ),
    )
}

/// The detail page's description.
pub fn plugin_detail_description(d: &PluginDetail) -> (r: Option<String>)
    ensures
        ov(r) == detail_description_text(*d),
{
    let from_interface = match &d.summary.interface {
        Some(i) => first_of(i.long_description.as_ref(), i.short_description.as_ref()),
        None => None,
    };
    let chosen = first_of(d.description.as_ref(), from_interface);
    proof {
        assert(rv(chosen) == or_else(
            ov(d.description),
            match d.summary.interface {
                Some(i) => or_else(ov(i.long_description), ov(i.short_description)),
                None => None,
            },
        ));
    }
    trim_nonblank(chosen)
}

/// `s` left-aligned in a field of `w` characters.
pub open spec fn pad_right(s: Seq<char>, w: nat) -> Seq<char> {
    if s.len() >= w {
        s
    } else {
        s + spaces((w - s.len()) as nat)
    }
}

/// The padded status label of a plugin.
fn padded_status(p: &PluginSummary, width: usize) -> (s: String)
    ensures
        s@ == pad_right(status_text(*p), width as nat),
{
    let label = plugin_status_label(p);
    let mut s = String::from_str(label);
    let n = label.unicode_len();
    if n < width {
        push_spaces(&mut s, width - n);
    }
    s
}

/// A list row's description: the status padded to `width`, the marketplace
/// and the description, where there is one, joined by ` · `.
pub open spec fn brief_text(p: PluginSummary, marketplace_label: Seq<char>, width: nat) -> Seq<char> {
    let head = pad_right(status_text(p), width) + dot() + marketplace_label;
    match description_text(p) {
        Some(d) => head + dot() + d,
        None => head,
    }
}

/// A list row's description.
pub fn plugin_brief_description(p: &PluginSummary, marketplace_label: &str, status_label_width: usize) -> (s:
    String)
    ensures
        s@ == brief_text(*p, marketplace_label@, status_label_width as nat),
{
    let mut s = padded_status(p, status_label_width);
    push_str_chars(&mut s, " · ");
    push_str_chars(&mut s, marketplace_label);
    proof {
        reveal_strlit(" · ");
    }
    match plugin_description(p) {
        Some(d) => {
            push_str_chars(&mut s, " · ");
            push_str_chars(&mut s, d.as_str());
        },
        None => {},
    }
    s
}

/// A list row's description where the marketplace is known already.
pub open spec fn brief_text_without_marketplace(p: PluginSummary, width: nat) -> Seq<char> {
    match description_text(p) {
        Some(d) => pad_right(status_text(p), width) + dot() + d,
        None => pad_right(status_text(p), width),
    }
}

/// A list row's description where the marketplace is known already.
pub fn plugin_brief_description_without_marketplace(p: &PluginSummary, status_label_width: usize) -> (s:
    String)
    ensures
        s@ == brief_text_without_marketplace(*p, status_label_width as nat),
{
    let mut s = padded_status(p, status_label_width);
    proof {
        reveal_strlit(" · ");
    }
    match plugin_description(p) {
        Some(d) => {
            push_str_chars(&mut s, " · ");
            push_str_chars(&mut s, d.as_str());
        },
        None => {},
    }
    s
}

/// A row of the detail page's metadata list; such rows cannot be chosen.
#[derive(Debug)]
pub struct SelectionItem {
    pub name: String,
    pub description: Option<String>,
    pub is_disabled: bool,
}

/// The rows of the metadata list, by name and description: the source, the
/// authentication policy, then the versions and the sharing where known.
pub open spec fn metadata_rows(d: PluginDetail, product_label: Option<Seq<char>>) -> Seq<(Seq<char>, Seq<char>)> {
    seq![
        ("Source"@, source_text(d.summary, d.marketplace_name@, product_label)),
        ("Auth"@, auth_text(d.summary.auth_policy)),
    ] + (match version_text(d.summary) {
        Some(v) => seq![("Version"@, v)],
        None => Seq::empty(),
    }) + (match d.summary.share_context {
        Some(c) => seq![("Sharing"@, share_text(c))],
        None => Seq::empty(),
    })
}

/// The name and description of a row.
pub open spec fn item_view(i: SelectionItem) -> (Seq<char>, Seq<char>) {
    (
        i.name@,
        match i.description {
            Some(t) => t@,
            None => Seq::empty(),
        },
    )
}

/// Adds a row that cannot be chosen.
fn push_item(items: &mut Vec<SelectionItem>, name: &str, description: String)
    ensures
        final(items)@.len() == old(items)@.len() + 1,
        forall|k: int| 0 <= k < old(items)@.len() ==> final(items)@[k] == old(items)@[k],
        final(items)@.last().name@ == name@,
        final(items)@.last().description == Some(description),
        final(items)@.last().is_disabled,
{
    items.push(SelectionItem { name: String::from_str(name), description: Some(description), is_disabled: true });
}

/// The rows of the detail page's metadata list; none of them can be
/// chosen.
pub fn plugin_metadata_items(d: &PluginDetail, product_label: Option<&str>) -> (items: Vec<SelectionItem>)
    ensures
        items@.map_values(|i: SelectionItem| item_view(i)) == metadata_rows(
            *d,
            match product_label {
                Some(l) => Some(l@),
                None => None,
            },
        ),
        forall|k: int| 0 <= k < items@.len() ==> (#[trigger] items@[k]).is_disabled && items@[k].description is Some,
{
    let mut items: Vec<SelectionItem> = Vec::new();
    push_item(&mut items, "Source", plugin_source_summary(&d.summary, d.marketplace_name.as_str(), product_label));
    push_item(&mut items, "Auth", plugin_auth_policy_summary(d.summary.auth_policy));
    match plugin_version_summary(&d.summary) {
        Some(v) => push_item(&mut items, "Version", v),
        None => {},
    }
    match &d.summary.share_context {
        Some(c) => push_item(&mut items, "Sharing", plugin_share_context_summary(c)),
        None => {},
    }
    proof {
        assert(items@.map_values(|i: SelectionItem| item_view(i)) =~= metadata_rows(
            *d,
            match product_label {
                Some(l) => Some(l@),
                None => None,
            },
        ));
    }
    items
}

/// Where to ask for a plugin's details.
#[derive(Debug)]
pub enum PluginLocation {
    Local { marketplace_path: String },
    Remote { marketplace_name: String },
}

/// A marketplace of the catalog with its plugins; local marketplaces have
/// a path.
#[derive(Debug)]
pub struct PluginMarketplaceEntry {
    pub name: String,
    pub path: Option<String>,
    pub display_name: Option<String>,
    pub plugins: Vec<PluginSummary>,
}

/// A location as plain values: local (`true`) or remote, and its path or
/// marketplace name.
pub open spec fn location_view(l: PluginLocation) -> (bool, Seq<char>) {
    match l {
        PluginLocation::Local { marketplace_path } => (true, marketplace_path@),
        PluginLocation::Remote { marketplace_name } => (false, marketplace_name@),
    }
}

/// Where a plugin of a marketplace is found: in the local marketplace's
/// path, else in the remote marketplace where the plugin has a remote id.
pub open spec fn location_for(path: Option<Seq<char>>, name: Seq<char>, p: PluginSummary) -> Option<(bool, Seq<char>)> {
    match path {
        Some(m) => Some((true, m)),
        None => match remote_identity(p) {
            Some(_) => Some((false, name)),
            None => None,
        },
    }
}

/// The view of an optional location.
pub open spec fn opt_location(l: Option<PluginLocation>) -> Option<(bool, Seq<char>)> {
    match l {
        Some(x) => Some(location_view(x)),
        None => None,
    }
}

/// Where a plugin is found, given its marketplace's path and name.
fn location_of(path: &Option<String>, name: &String, p: &PluginSummary) -> (r: Option<PluginLocation>)
    ensures
        opt_location(r) == location_for(ov(*path), name@, *p),
{
    match path {
        Some(m) => Some(PluginLocation::Local { marketplace_path: String::from_str(m.as_str()) }),
        None => match plugin_remote_identity(p) {
            Some(_) => Some(PluginLocation::Remote { marketplace_name: String::from_str(name.as_str()) }),
            None => None,
        },
    }
}

/// Where a plugin of a marketplace is found.
pub fn plugin_location_for_marketplace(m: &PluginMarketplaceEntry, p: &PluginSummary) -> (r: Option<
    PluginLocation,
>)
    ensures
        opt_location(r) == location_for(ov(m.path), m.name@, *p),
{
    location_of(&m.path, &m.name, p)
}

/// Where the plugin of a detail page is found.
pub fn plugin_detail_location(d: &PluginDetail) -> (r: Option<PluginLocation>)
    ensures
        opt_location(r) == location_for(ov(d.marketplace_path), d.marketplace_name@, d.summary),
{
    location_of(&d.marketplace_path, &d.marketplace_name, &d.summary)
}

/// A local copy of a remote plugin, to prefer where it is in the same
/// state.
#[derive(Debug)]
pub struct PreferredLocalPluginSource {
    pub marketplace_path: String,
    pub plugin_name: String,
    pub installed: bool,
    pub install_policy: PluginInstallPolicy,
}

/// No remote id is listed twice.
pub open spec fn distinct_ids(v: Seq<(String, PreferredLocalPluginSource)>) -> bool {
    forall|i: int, j: int| 0 <= i < j < v.len() ==> (#[trigger] v[i]).0@ != (#[trigger] v[j]).0@
}

/// The preferred local copy listed for `id`, if any.
pub open spec fn preferred_for(v: Seq<(String, PreferredLocalPluginSource)>, id: Seq<char>) -> Option<
    PreferredLocalPluginSource,
> {
    if exists|k: int| 0 <= k < v.len() && (#[trigger] v[k]).0@ == id {
        Some(v[choose|k: int| 0 <= k < v.len() && (#[trigger] v[k]).0@ == id].1)
    } else {
        None
    }
}

/// Where to ask for a listed plugin's details, and under which name: a
/// remote plugin with a local copy in the same state is asked of that copy;
/// any other where it is found, by its request name.
pub open spec fn detail_request(
    m: PluginMarketplaceEntry,
    p: PluginSummary,
    preferred: Seq<(String, PreferredLocalPluginSource)>,
) -> Option<((bool, Seq<char>), Seq<char>)> {
    let local = match (p.source, remote_identity(p)) {
        (PluginSource::Remote, Some(id)) => match preferred_for(preferred, id) {
            Some(src) => if src.installed == p.installed && src.install_policy == p.install_policy {
                Some(((true, src.marketplace_path@), src.plugin_name@))
            } else {
                None
            },
            None => None,
        },
        _ => None,
    };
    match local {
        Some(x) => Some(x),
        None => match location_for(ov(m.path), m.name@, p) {
            Some(l) => Some((l, request_name(p))),
            None => None,
        },
    }
}

/// The view of an optional request.
pub open spec fn opt_request(r: Option<(PluginLocation, String)>) -> Option<((bool, Seq<char>), Seq<char>)> {
    match r {
        Some((l, n)) => Some((location_view(l), n@)),
        None => None,
    }
}

/// The preferred local copy listed for `id`.
fn find_preferred<'a>(v: &'a [(String, PreferredLocalPluginSource)], id: &str) -> (r: Option<
    &'a PreferredLocalPluginSource,
>)
    requires
        distinct_ids(v@),
    ensures
        match r {
            Some(src) => preferred_for(v@, id@) == Some(*src),
            None => preferred_for(v@, id@) is None,
        },
{
    let mut k: usize = 0;
    while k < v.len()
        invariant
            k <= v@.len(),
            distinct_ids(v@),
            forall|m: int| 0 <= m < k ==> (#[trigger] v@[m]).0@ != id@,
        decreases v@.len() - k,
    {
        if crate::text::str_eq(v[k].0.as_str(), id) {
            proof {
                assert(v@[k as int].0@ == id@);
                let c = choose|m: int| 0 <= m < v@.len() && (#[trigger] v@[m]).0@ == id@;
                if c < k {
                    assert(v@[c].0@ != v@[k as int].0@);
                } else if c > k {
                    assert(v@[k as int].0@ != v@[c].0@);
                }
            }
            return Some(&v[k].1);
        }
        k += 1;
    }
    None
}

/// Where to ask for a listed plugin's details, and under which name.
pub fn plugin_detail_request_for_entry(
    m: &PluginMarketplaceEntry,
    p: &PluginSummary,
    preferred: &[(String, PreferredLocalPluginSource)],
) -> (r: Option<(PluginLocation, String)>)
    requires
        distinct_ids(preferred@),
    ensures
        opt_request(r) == detail_request(*m, *p, preferred@),
{
    match &p.source {
        PluginSource::Remote => match plugin_remote_identity(p) {
            Some(id) => match find_preferred(preferred, id) {
                Some(src) => {
                    if src.installed == p.installed && src.install_policy == p.install_policy {
                        return Some(
                            (
                                PluginLocation::Local {
                                    marketplace_path: String::from_str(src.marketplace_path.as_str()),
                                },
                                String::from_str(src.plugin_name.as_str()),
                            ),
                        );
                    }
                },
                None => {},
            },
            None => {},
        },
        _ => {},
    }
    match plugin_location_for_marketplace(m, p) {
        Some(l) => Some((l, plugin_request_name(p))),
        None => None,
    }
}

} // verus!
