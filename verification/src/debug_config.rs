//! The `/debug-config` report: the config layer stack, the requirements that
//! constrain the session and the agent settings, as text rows.

use vstd::prelude::*;
use crate::sorted_map::{keys_sorted, pair_texts, sorted_insert, StringMap};
use crate::style::{Color, Style, StyledLine, StyledSpan};
use crate::text::{decimal_chars, push_decimal_chars, push_str_chars, str_eq};

verus! {

/// A row of one span, as its text and style; the row itself is plain.
pub open spec fn text_row(l: StyledLine) -> (Seq<char>, Style) {
    (l.spans@[0].content@, l.spans@[0].style)
}

/// Rows of one span each, with no row style.
pub open spec fn single_span_rows(rows: Seq<StyledLine>) -> bool {
    forall|i: int| 0 <= i < rows.len() ==> (#[trigger] rows[i]).spans@.len() == 1 && rows[i].style == Style::plain()
}

/// The texts and styles of single-span rows.
pub open spec fn text_rows(rows: Seq<StyledLine>) -> Seq<(Seq<char>, Style)> {
    rows.map_values(|l: StyledLine| text_row(l))
}

/// Plain, bold, dimmed and magenta text.
pub open spec fn plain() -> Style {
    Style::plain()
}

pub open spec fn bold() -> Style {
    Style { bold: true, ..Style::plain() }
}

pub open spec fn dimmed() -> Style {
    Style { dim: true, ..Style::plain() }
}

pub open spec fn magenta() -> Style {
    Style { fg: Some(Color::Magenta), ..Style::plain() }
}

/// A row holding `text` in `style`.
pub fn text_line(text: String, style: Style) -> (l: StyledLine)
    ensures
        l.spans@.len() == 1,
        l.style == Style::plain(),
        text_row(l) == (text@, style),
{
    let mut spans: Vec<StyledSpan> = Vec::new();
    spans.push(StyledSpan { content: text, style });
    StyledLine::from_spans(spans)
}

/// A row holding a literal in `style`.
fn lit_line(text: &str, style: Style) -> (l: StyledLine)
    ensures
        l.spans@.len() == 1,
        l.style == Style::plain(),
        text_row(l) == (text@, style),
{
    text_line(String::from_str(text), style)
}

/// Appends a single-span row.
fn push_row(rows: &mut Vec<StyledLine>, l: StyledLine)
    requires
        single_span_rows(old(rows)@),
        l.spans@.len() == 1,
        l.style == Style::plain(),
    ensures
        single_span_rows(final(rows)@),
        text_rows(final(rows)@) == text_rows(old(rows)@).push(text_row(l)),
{
    let ghost v = text_row(l);
    rows.push(l);
    proof {
        assert(text_rows(rows@) =~= text_rows(old(rows)@).push(v));
    }
}

/// Appends single-span rows.
fn push_rows(rows: &mut Vec<StyledLine>, more: Vec<StyledLine>)
    requires
        single_span_rows(old(rows)@),
        single_span_rows(more@),
    ensures
        single_span_rows(final(rows)@),
        text_rows(final(rows)@) == text_rows(old(rows)@) + text_rows(more@),
{
    let mut more = more;
    let ghost m = more@;
    rows.append(&mut more);
    proof {
        assert(text_rows(rows@) =~= text_rows(old(rows)@) + text_rows(m));
        assert forall|i: int| 0 <= i < rows@.len() implies (#[trigger] rows@[i]).spans@.len() == 1
            && rows@[i].style == Style::plain() by {
            if i >= old(rows)@.len() {
                assert(rows@[i] == m[i - old(rows)@.len()]);
            }
        }
    }
}

/// The `ALL_PROXY` value of a session's network proxy: the SOCKS address
/// where SOCKS is enabled, else the HTTP one.
pub fn session_all_proxy_url(http_addr: &str, socks_addr: &str, socks_enabled: bool) -> (s: String)
    ensures
        s@ == (if socks_enabled {
            "socks5h://"@ + socks_addr@
        } else {
            "http://"@ + http_addr@
        }),
{
    let mut s = String::new();
    if socks_enabled {
        push_str_chars(&mut s, "socks5h://");
        push_str_chars(&mut s, socks_addr);
    } else {
        push_str_chars(&mut s, "http://");
        push_str_chars(&mut s, http_addr);
    }
    proof {
        assert(Seq::<char>::empty() + "socks5h://"@ =~= "socks5h://"@);
        assert(Seq::<char>::empty() + "http://"@ =~= "http://"@);
    }
    s
}

/// A value, or `<unset>`.
pub fn format_optional(value: Option<&str>) -> (s: String)
    ensures
        s@ == (match value {
            Some(v) => v@,
            None => "<unset>"@,
        }),
{
    match value {
        Some(v) => String::from_str(v),
        None => String::from_str("<unset>"),
    }
}

/// Values joined by `sep`.
pub open spec fn join(values: Seq<Seq<char>>, sep: Seq<char>) -> Seq<char>
    decreases values.len(),
{
    if values.len() == 0 {
        Seq::empty()
    } else if values.len() == 1 {
        values[0]
    } else {
        join(values.drop_last(), sep) + sep + values.last()
    }
}

/// Values joined by `, `, or `<empty>` for none.
pub open spec fn join_or_empty_spec(values: Seq<Seq<char>>) -> Seq<char> {
    if values.len() == 0 {
        "<empty>"@
    } else {
        join(values, ", "@)
    }
}

/// The views of strings.
pub open spec fn views(v: Seq<String>) -> Seq<Seq<char>> {
    v.map_values(|s: String| s@)
}

/// Values joined by `, `, or `<empty>` for none.
pub fn join_or_empty(values: &Vec<String>) -> (s: String)
    ensures
        s@ == join_or_empty_spec(views(values@)),
{
    if values.len() == 0 {
        return String::from_str("<empty>");
    }
    let mut s = String::new();
    let mut i: usize = 0;
    while i < values.len()
        invariant
            i <= values.len(),
            values.len() > 0,
            s@ == join(views(values@.take(i as int)), ", "@),
        decreases values.len() - i,
    {
        if i > 0 {
            push_str_chars(&mut s, ", ");
        }
        push_str_chars(&mut s, values[i].as_str());
        proof {
            let t = views(values@.take(i + 1));
            assert(t.drop_last() =~= views(values@.take(i as int)));
            assert(t.last() == values@[i as int]@);
            if i == 0 {
                assert(t.len() == 1);
                assert(Seq::<char>::empty() + values@[0]@ =~= values@[0]@);
            }
        }
        i += 1;
    }
    proof {
        assert(values@.take(values@.len() as int) =~= values@);
    }
    s
}

/// A sandbox mode that requirements may allow.
#[derive(Clone, Copy, Debug, PartialEq, Eq, Structural)]
pub enum SandboxModeRequirement {
    ReadOnly,
    WorkspaceWrite,
    DangerFullAccess,
    ExternalSandbox,
}

/// A web search mode that requirements may allow.
#[derive(Clone, Copy, Debug, PartialEq, Eq, Structural)]
pub enum WebSearchModeRequirement {
    Disabled,
    Cached,
    Live,
}

/// Where data must reside.
#[derive(Clone, Copy, Debug, PartialEq, Eq, Structural)]
pub enum ResidencyRequirement {
    Us,
    Eu,
    Off,
}

/// The name of a sandbox mode.
pub open spec fn sandbox_mode_name(mode: SandboxModeRequirement) -> Seq<char> {
    match mode {
        SandboxModeRequirement::ReadOnly => "read-only"@,
        SandboxModeRequirement::WorkspaceWrite => "workspace-write"@,
        SandboxModeRequirement::DangerFullAccess => "danger-full-access"@,
        SandboxModeRequirement::ExternalSandbox => "external-sandbox"@,
    }
}

/// Each sandbox mode is shown by its own name: read-only as `read-only`,
/// workspace-write as `workspace-write`, full access as
/// `danger-full-access`, an external sandbox as `external-sandbox`; so
/// two different modes never show alike.
pub proof fn lemma_sandbox_mode_names(a: SandboxModeRequirement, b: SandboxModeRequirement)
    ensures
        sandbox_mode_name(SandboxModeRequirement::ReadOnly) =~= seq![
            'r', 'e', 'a', 'd', '-', 'o', 'n', 'l', 'y'
        ],
        sandbox_mode_name(SandboxModeRequirement::WorkspaceWrite) =~= seq![
            'w', 'o', 'r', 'k', 's', 'p', 'a', 'c', 'e', '-', 'w', 'r', 'i', 't', 'e'
        ],
        sandbox_mode_name(SandboxModeRequirement::DangerFullAccess) =~= seq![
            'd', 'a', 'n', 'g', 'e', 'r', '-', 'f', 'u', 'l', 'l', '-', 'a', 'c', 'c', 'e', 's', 's'
        ],
        sandbox_mode_name(SandboxModeRequirement::ExternalSandbox) =~= seq![
            'e', 'x', 't', 'e', 'r', 'n', 'a', 'l', '-', 's', 'a', 'n', 'd', 'b', 'o', 'x'
        ],
        sandbox_mode_name(a) == sandbox_mode_name(b) ==> a == b,
{
    reveal_strlit("read-only");
    reveal_strlit("workspace-write");
    reveal_strlit("danger-full-access");
    reveal_strlit("external-sandbox");
    if sandbox_mode_name(a) == sandbox_mode_name(b) && a != b {
        assert(sandbox_mode_name(a)[0] == sandbox_mode_name(b)[0]);
    }
}

/// The name of a sandbox mode.
pub fn format_sandbox_mode_requirement(mode: SandboxModeRequirement) -> (s: String)
    ensures
        s@ == sandbox_mode_name(mode),
{
    match mode {
        SandboxModeRequirement::ReadOnly => String::from_str("read-only"),
        SandboxModeRequirement::WorkspaceWrite => String::from_str("workspace-write"),
        SandboxModeRequirement::DangerFullAccess => String::from_str("danger-full-access"),
        SandboxModeRequirement::ExternalSandbox => String::from_str("external-sandbox"),
    }
}

/// The name of a residency requirement.
pub open spec fn residency_name(r: ResidencyRequirement) -> Seq<char> {
    match r {
        ResidencyRequirement::Us => "us"@,
        ResidencyRequirement::Eu => "eu"@,
        ResidencyRequirement::Off => "off"@,
    }
}

/// The name of a residency requirement.
pub fn format_residency_requirement(requirement: ResidencyRequirement) -> (s: String)
    ensures
        s@ == residency_name(requirement),
{
    match requirement {
        ResidencyRequirement::Us => String::from_str("us"),
        ResidencyRequirement::Eu => String::from_str("eu"),
        ResidencyRequirement::Off => String::from_str("off"),
    }
}

/// The name of a web search mode.
pub open spec fn web_search_mode_name(m: WebSearchModeRequirement) -> Seq<char> {
    match m {
        WebSearchModeRequirement::Disabled => "disabled"@,
        WebSearchModeRequirement::Cached => "cached"@,
        WebSearchModeRequirement::Live => "live"@,
    }
}

/// Each residency and each web search mode is shown by its own name, so
/// different ones never show alike: `us`, `eu`, `off`; `disabled`,
/// `cached`, `live`.
pub proof fn lemma_residency_and_search_names(
    r1: ResidencyRequirement,
    r2: ResidencyRequirement,
    m1: WebSearchModeRequirement,
    m2: WebSearchModeRequirement,
)
    ensures
        residency_name(ResidencyRequirement::Us) =~= seq!['u', 's'],
        residency_name(ResidencyRequirement::Eu) =~= seq!['e', 'u'],
        residency_name(ResidencyRequirement::Off) =~= seq!['o', 'f', 'f'],
        web_search_mode_name(WebSearchModeRequirement::Disabled) =~= seq![
            'd', 'i', 's', 'a', 'b', 'l', 'e', 'd'
        ],
        web_search_mode_name(WebSearchModeRequirement::Cached) =~= seq!['c', 'a', 'c', 'h', 'e', 'd'],
        web_search_mode_name(WebSearchModeRequirement::Live) =~= seq!['l', 'i', 'v', 'e'],
        residency_name(r1) == residency_name(r2) ==> r1 == r2,
        web_search_mode_name(m1) == web_search_mode_name(m2) ==> m1 == m2,
{
    reveal_strlit("us");
    reveal_strlit("eu");
    reveal_strlit("off");
    reveal_strlit("disabled");
    reveal_strlit("cached");
    reveal_strlit("live");
    if residency_name(r1) == residency_name(r2) {
        assert(residency_name(r1)[0] == residency_name(r2)[0]);
    }
    if web_search_mode_name(m1) == web_search_mode_name(m2) {
        assert(web_search_mode_name(m1)[0] == web_search_mode_name(m2)[0]);
    }
}

/// The name of a web search mode.
pub fn format_web_search_mode(m: WebSearchModeRequirement) -> (s: String)
    ensures
        s@ == web_search_mode_name(m),
{
    match m {
        WebSearchModeRequirement::Disabled => String::from_str("disabled"),
        WebSearchModeRequirement::Cached => String::from_str("cached"),
        WebSearchModeRequirement::Live => String::from_str("live"),
    }
}

/// The allowed web search modes as they apply: disabling web search is
/// always allowed, so it is added where missing.
pub open spec fn normalized_web_search_modes(modes: Seq<WebSearchModeRequirement>) -> Seq<WebSearchModeRequirement> {
    if modes.contains(WebSearchModeRequirement::Disabled) {
        modes
    } else {
        modes.push(WebSearchModeRequirement::Disabled)
    }
}

/// The allowed web search modes with `disabled` added where missing.
pub fn normalize_allowed_web_search_modes(modes: &[WebSearchModeRequirement]) -> (r: Vec<WebSearchModeRequirement>)
    ensures
        r@ == normalized_web_search_modes(modes@),
{
    let mut r: Vec<WebSearchModeRequirement> = Vec::new();
    let mut has_disabled = false;
    let mut i: usize = 0;
    while i < modes.len()
        invariant
            i <= modes.len(),
            r@ == modes@.take(i as int),
            has_disabled == modes@.take(i as int).contains(WebSearchModeRequirement::Disabled),
        decreases modes.len() - i,
    {
        let m = modes[i];
        proof {
            assert(modes@.take(i + 1) =~= modes@.take(i as int).push(m));
            if modes@.take(i as int).contains(WebSearchModeRequirement::Disabled) {
                let k = choose|k: int| 0 <= k < i && modes@.take(i as int)[k] == WebSearchModeRequirement::Disabled;
                assert(modes@.take(i + 1)[k] == WebSearchModeRequirement::Disabled);
            }
            if m == WebSearchModeRequirement::Disabled {
                assert(modes@.take(i + 1)[i as int] == m);
            }
            let t1 = modes@.take(i + 1);
            if t1.contains(WebSearchModeRequirement::Disabled) {
                let k = choose|k: int| 0 <= k < t1.len() && t1[k] == WebSearchModeRequirement::Disabled;
                if k < i {
                    assert(modes@.take(i as int)[k] == WebSearchModeRequirement::Disabled);
                }
            }
        }
        if m == WebSearchModeRequirement::Disabled {
            has_disabled = true;
        }
        r.push(m);
        i += 1;
    }
    proof {
        assert(modes@.take(modes@.len() as int) =~= modes@);
    }
    if !has_disabled {
        r.push(WebSearchModeRequirement::Disabled);
    }
    r
}

/// A requirement row's text.
pub open spec fn requirement_text(name: Seq<char>, value: Seq<char>, source: Option<Seq<char>>) -> Seq<char> {
    "  - "@ + name + ": "@ + value + " (source: "@ + (match source {
        Some(s) => s,
        None => "<unspecified>"@,
    }) + ")"@
}

/// A requirement row: its name, value and where it comes from.
pub fn requirement_line(name: &str, value: String, source: Option<String>) -> (l: StyledLine)
    ensures
        l.spans@.len() == 1,
        l.style == Style::plain(),
        text_row(l) == (requirement_text(name@, value@, match source {
            Some(s) => Some(s@),
            None => None,
        }), plain()),
{
    let mut s = String::new();
    push_str_chars(&mut s, "  - ");
    push_str_chars(&mut s, name);
    push_str_chars(&mut s, ": ");
    push_str_chars(&mut s, value.as_str());
    push_str_chars(&mut s, " (source: ");
    match &source {
        Some(src) => push_str_chars(&mut s, src.as_str()),
        None => push_str_chars(&mut s, "<unspecified>"),
    }
    push_str_chars(&mut s, ")");
    proof {
        assert(s@ =~= requirement_text(name@, value@, match source {
            Some(s) => Some(s@),
            None => None,
        }));
    }
    text_line(s, Style::new())
}

/// Where a config layer comes from.
#[derive(Clone, Copy, Debug, PartialEq, Eq, Structural)]
pub enum ConfigLayerKind {
    Mdm,
    EnterpriseManaged,
    LegacyManagedConfigTomlFromMdm,
    SessionFlags,
    System,
    User,
    Project,
    LegacyManagedConfigTomlFromFile,
}

/// What the value of a layer that is no file is called.
pub open spec fn layer_value_label(kind: ConfigLayerKind) -> Seq<char> {
    match kind {
        ConfigLayerKind::Mdm | ConfigLayerKind::LegacyManagedConfigTomlFromMdm => "MDM value"@,
        ConfigLayerKind::EnterpriseManaged => "Enterprise-managed config value"@,
        _ => "Layer value"@,
    }
}

/// What the value of a layer that is no file is called.
pub fn non_file_layer_value_label(kind: ConfigLayerKind) -> (s: String)
    ensures
        s@ == layer_value_label(kind),
{
    match kind {
        ConfigLayerKind::Mdm | ConfigLayerKind::LegacyManagedConfigTomlFromMdm => String::from_str("MDM value"),
        ConfigLayerKind::EnterpriseManaged => String::from_str("Enterprise-managed config value"),
        _ => String::from_str("Layer value"),
    }
}

/// A config value: a table of keyed values, or a value formatted as TOML.
#[derive(Debug)]
pub enum TomlNode {
    Table(Vec<(String, TomlNode)>),
    Leaf(String),
}

/// The key-value pairs of a config value, keys joined with `.` below
/// `prefix`, in the order of its entries; a bare value under `prefix`, or
/// `<value>` where there is none.
pub open spec fn flat_pairs(node: TomlNode, prefix: Option<Seq<char>>) -> Seq<(Seq<char>, Seq<char>)>
    decreases node,
{
    match node {
        TomlNode::Leaf(v) => seq![(
            match prefix {
                Some(p) => p,
                None => "<value>"@,
            },
            v@,
        )],
        TomlNode::Table(entries) => flat_entries(entries@, prefix),
    }
}

/// The pairs of a table's entries.
pub open spec fn flat_entries(entries: Seq<(String, TomlNode)>, prefix: Option<Seq<char>>) -> Seq<(Seq<char>, Seq<char>)>
    decreases entries,
{
    if entries.len() == 0 {
        Seq::empty()
    } else {
        let e = entries.last();
        flat_entries(entries.drop_last(), prefix) + flat_pairs(
            e.1,
            Some(
                match prefix {
                    Some(p) => p + "."@ + e.0@,
                    None => e.0@,
                },
            ),
        )
    }
}

/// Collects the key-value pairs of a config value.
pub fn flatten_toml_key_values(value: &TomlNode, prefix: Option<&str>, out: &mut Vec<(String, String)>)
    ensures
        pair_views(final(out)@) == pair_views(old(out)@) + flat_pairs(*value, match prefix {
            Some(p) => Some(p@),
            None => None,
        }),
    decreases value,
{
    match value {
        TomlNode::Leaf(v) => {
            let key = match prefix {
                Some(p) => String::from_str(p),
                None => String::from_str("<value>"),
            };
            let ghost before = out@;
            out.push((key, v.clone()));
            proof {
                assert(pair_views(out@) =~= pair_views(before).push((key@, v@)));
            }
        },
        TomlNode::Table(entries) => {
            let mut i: usize = 0;
            let ghost pv = match prefix {
                Some(p) => Some(p@),
                None => None,
            };
            let ghost before = out@;
            while i < entries.len()
                invariant
                    i <= entries.len(),
                    *value == TomlNode::Table(*entries),
                    pv == (match prefix {
                        Some(p) => Some(p@),
                        None => None,
                    }),
                    pair_views(out@) == pair_views(before) + flat_entries(entries@.take(i as int), pv),
                decreases entries.len() - i,
            {
                let (key, child) = (&entries[i].0, &entries[i].1);
                let mut next = String::new();
                match prefix {
                    Some(p) => {
                        push_str_chars(&mut next, p);
                        push_str_chars(&mut next, ".");
                        push_str_chars(&mut next, key.as_str());
                    },
                    None => push_str_chars(&mut next, key.as_str()),
                }
                proof {
                    assert(entries@.take(i + 1).drop_last() =~= entries@.take(i as int));
                    assert(entries@.take(i + 1).last() == entries@[i as int]);
                    assert(next@ == (match pv {
                        Some(p) => p + "."@ + key@,
                        None => key@,
                    })) by {
                        assert(Seq::<char>::empty() + key@ =~= key@);
                    }
                }
                proof {
                    let ev = *entries;
                    assert((*value)->Table_0 == ev);
                    assert(decreases_to!(*value => (*value)->Table_0));
                    assert(decreases_to!(ev => ev@));
                    assert(decreases_to!(ev@ => ev@[i as int]));
                    assert(decreases_to!(ev@[i as int] => ev@[i as int].1));
                    assert(decreases_to!(*value => entries@[i as int].1));
                }
                flatten_toml_key_values(child, Some(next.as_str()), out);
                proof {
                    assert(pair_views(out@) =~= pair_views(before) + flat_entries(entries@.take(i + 1), pv));
                }
                i += 1;
            }
            proof {
                assert(entries@.take(entries@.len() as int) =~= entries@);
            }
        },
    }
}

/// The views of string pairs.
pub open spec fn pair_views(v: Seq<(String, String)>) -> Seq<(Seq<char>, Seq<char>)> {
    v.map_values(|p: (String, String)| (p.0@, p.1@))
}

/// The rows listing session flags.
pub open spec fn session_flag_rows(pairs: Seq<(Seq<char>, Seq<char>)>) -> Seq<(Seq<char>, Style)> {
    if pairs.len() == 0 {
        seq![("     - <none>"@, dimmed())]
    } else {
        Seq::new(pairs.len(), |i: int| ("     - "@ + pairs[i].0 + " = "@ + pairs[i].1, plain()))
    }
}

/// The rows listing the flags a session was started with.
pub fn render_session_flag_details(config: &TomlNode) -> (rows: Vec<StyledLine>)
    ensures
        single_span_rows(rows@),
        text_rows(rows@) == session_flag_rows(flat_pairs(*config, None)),
{
    let mut pairs: Vec<(String, String)> = Vec::new();
    flatten_toml_key_values(config, None, &mut pairs);
    proof {
        assert(pair_views(Seq::<(String, String)>::empty()) =~= Seq::<(Seq<char>, Seq<char>)>::empty());
        assert(pair_views(pairs@) =~= flat_pairs(*config, None));
    }
    let mut rows: Vec<StyledLine> = Vec::new();
    if pairs.len() == 0 {
        push_row(&mut rows, lit_line("     - <none>", Style::new().with_dim()));
        proof {
            assert(text_rows(rows@) =~= session_flag_rows(flat_pairs(*config, None)));
        }
        return rows;
    }
    let mut i: usize = 0;
    while i < pairs.len()
        invariant
            i <= pairs.len(),
            pair_views(pairs@) == flat_pairs(*config, None),
            pairs@.len() > 0,
            single_span_rows(rows@),
            text_rows(rows@) == session_flag_rows(flat_pairs(*config, None)).take(i as int),
        decreases pairs.len() - i,
    {
        let mut s = String::new();
        push_str_chars(&mut s, "     - ");
        push_str_chars(&mut s, pairs[i].0.as_str());
        push_str_chars(&mut s, " = ");
        push_str_chars(&mut s, pairs[i].1.as_str());
        push_row(&mut rows, text_line(s, Style::new()));
        proof {
            assert(pair_views(pairs@)[i as int] == (pairs@[i as int].0@, pairs@[i as int].1@));
            assert(text_rows(rows@) =~= session_flag_rows(flat_pairs(*config, None)).take(i + 1));
        }
        i += 1;
    }
    proof {
        assert(session_flag_rows(flat_pairs(*config, None)).take(pairs@.len() as int) =~= session_flag_rows(
            flat_pairs(*config, None),
        ));
    }
    rows
}

/// A config layer as the report shows it.
#[derive(Debug)]
pub struct ConfigLayerView {
    pub kind: ConfigLayerKind,
    /// How the layer's source is named.
    pub source: String,
    /// Why the layer is disabled, for a disabled layer.
    pub disabled_reason: Option<String>,
    /// The layer's text as written, where it has one.
    pub raw_toml: Option<String>,
    /// The layer's value formatted as TOML.
    pub config_text: String,
    /// The layer's value, tables in key order.
    pub config: TomlNode,
}

/// The rows showing the value of a layer that is no file.
pub open spec fn layer_value_rows(label: Seq<char>, value: Seq<char>) -> Seq<(Seq<char>, Style)> {
    if value.len() == 0 {
        seq![("     "@ + label + ": <empty>"@, dimmed())]
    } else if value.contains('\n') {
        seq![("     "@ + label + ":"@, plain())] + Seq::new(
            crate::text::text_lines(value).len(),
            |i: int| ("       "@ + crate::text::text_lines(value)[i], plain()),
        )
    } else {
        seq![("     "@ + label + ": "@ + value, plain())]
    }
}

/// The value of a layer: its text as written, else its formatted value.
pub open spec fn layer_value(layer: ConfigLayerView) -> Seq<char> {
    match layer.raw_toml {
        Some(r) => r@,
        None => layer.config_text@,
    }
}

/// Whether a string holds a line feed.
fn holds_newline(s: &str) -> (r: bool)
    ensures
        r == s@.contains('\n'),
{
    let v = crate::text::chars_of(s);
    let mut i: usize = 0;
    while i < v.len()
        invariant
            i <= v.len(),
            v@ == s@,
            forall|k: int| 0 <= k < i ==> v@[k] != '\n',
        decreases v.len() - i,
    {
        if v[i] == '\n' {
            return true;
        }
        i += 1;
    }
    false
}

/// The rows showing the value of a layer that is no file.
pub fn render_non_file_layer_value(layer: &ConfigLayerView) -> (rows: Vec<StyledLine>)
    ensures
        single_span_rows(rows@),
        text_rows(rows@) == layer_value_rows(layer_value_label(layer.kind), layer_value(*layer)),
{
    let label = non_file_layer_value_label(layer.kind);
    let value = match &layer.raw_toml {
        Some(r) => r.clone(),
        None => layer.config_text.clone(),
    };
    let mut rows: Vec<StyledLine> = Vec::new();
    if value.as_str().unicode_len() == 0 {
        let mut s = String::new();
        push_str_chars(&mut s, "     ");
        push_str_chars(&mut s, label.as_str());
        push_str_chars(&mut s, ": <empty>");
        push_row(&mut rows, text_line(s, Style::new().with_dim()));
        proof {
            assert(text_rows(rows@) =~= layer_value_rows(label@, value@));
        }
        return rows;
    }
    if holds_newline(value.as_str()) {
        let mut s = String::new();
        push_str_chars(&mut s, "     ");
        push_str_chars(&mut s, label.as_str());
        push_str_chars(&mut s, ":");
        push_row(&mut rows, text_line(s, Style::new()));
        let lines = crate::text::lines_of(value.as_str());
        let mut i: usize = 0;
        while i < lines.len()
            invariant
                i <= lines.len(),
                crate::text::string_views(lines@) == crate::text::text_lines(value@),
                single_span_rows(rows@),
                text_rows(rows@) == layer_value_rows(label@, value@).take(i + 1),
                value@.len() > 0,
                value@.contains('\n'),
            decreases lines.len() - i,
        {
            let mut t = String::new();
            push_str_chars(&mut t, "       ");
            push_str_chars(&mut t, lines[i].as_str());
            push_row(&mut rows, text_line(t, Style::new()));
            proof {
                assert(crate::text::string_views(lines@)[i as int] == lines@[i as int]@);
                assert(text_rows(rows@) =~= layer_value_rows(label@, value@).take(i + 2));
            }
            i += 1;
        }
        proof {
            assert(crate::text::string_views(lines@).len() == lines@.len());
            assert(layer_value_rows(label@, value@).take(lines@.len() as int + 1) =~= layer_value_rows(
                label@,
                value@,
            ));
        }
        return rows;
    }
    let mut s = String::new();
    push_str_chars(&mut s, "     ");
    push_str_chars(&mut s, label.as_str());
    push_str_chars(&mut s, ": ");
    push_str_chars(&mut s, value.as_str());
    push_row(&mut rows, text_line(s, Style::new()));
    proof {
        assert(text_rows(rows@) =~= layer_value_rows(label@, value@));
    }
    rows
}

/// The detail rows of a layer: the flags of session flags, the value of a
/// managed layer, nothing for a file.
pub open spec fn layer_detail_rows(layer: ConfigLayerView) -> Seq<(Seq<char>, Style)> {
    match layer.kind {
        ConfigLayerKind::SessionFlags => session_flag_rows(flat_pairs(layer.config, None)),
        ConfigLayerKind::Mdm | ConfigLayerKind::EnterpriseManaged
        | ConfigLayerKind::LegacyManagedConfigTomlFromMdm => layer_value_rows(
            layer_value_label(layer.kind),
            layer_value(layer),
        ),
        _ => Seq::empty(),
    }
}

/// The detail rows of a layer.
pub fn render_non_file_layer_details(layer: &ConfigLayerView) -> (rows: Vec<StyledLine>)
    ensures
        single_span_rows(rows@),
        text_rows(rows@) == layer_detail_rows(*layer),
{
    match layer.kind {
        ConfigLayerKind::SessionFlags => render_session_flag_details(&layer.config),
        ConfigLayerKind::Mdm | ConfigLayerKind::EnterpriseManaged
        | ConfigLayerKind::LegacyManagedConfigTomlFromMdm => render_non_file_layer_value(layer),
        _ => {
            let rows: Vec<StyledLine> = Vec::new();
            proof {
                assert(text_rows(rows@) =~= Seq::<(Seq<char>, Style)>::empty());
            }
            rows
        },
    }
}

/// The rows of one layer: its number, source and state, its details, and
/// why it is disabled where it is.
pub open spec fn layer_rows(index: nat, layer: ConfigLayerView) -> Seq<(Seq<char>, Style)> {
    seq![(
        "  "@ + decimal_chars(index + 1) + ". "@ + layer.source@ + " ("@ + (if layer.disabled_reason is Some {
            "disabled"@
        } else {
            "enabled"@
        }) + ")"@,
        plain(),
    )] + layer_detail_rows(layer) + match layer.disabled_reason {
        Some(r) => seq![("     reason: "@ + r@, dimmed())],
        None => Seq::empty(),
    }
}

/// The rows of all layers, lowest precedence first.
pub open spec fn layers_rows(layers: Seq<ConfigLayerView>) -> Seq<(Seq<char>, Style)>
    decreases layers.len(),
{
    if layers.len() == 0 {
        Seq::empty()
    } else {
        layers_rows(layers.drop_last()) + layer_rows((layers.len() - 1) as nat, layers.last())
    }
}

/// The rows of one layer.
fn render_layer(index: usize, layer: &ConfigLayerView) -> (rows: Vec<StyledLine>)
    requires
        index < usize::MAX,
    ensures
        single_span_rows(rows@),
        text_rows(rows@) == layer_rows(index as nat, *layer),
{
    let mut s = String::new();
    push_str_chars(&mut s, "  ");
    push_decimal_chars(&mut s, index + 1);
    push_str_chars(&mut s, ". ");
    push_str_chars(&mut s, layer.source.as_str());
    push_str_chars(&mut s, " (");
    if layer.disabled_reason.is_some() {
        push_str_chars(&mut s, "disabled");
    } else {
        push_str_chars(&mut s, "enabled");
    }
    push_str_chars(&mut s, ")");
    let mut rows: Vec<StyledLine> = Vec::new();
    proof {
        assert(text_rows(rows@) =~= Seq::<(Seq<char>, Style)>::empty());
    }
    push_row(&mut rows, text_line(s, Style::new()));
    push_rows(&mut rows, render_non_file_layer_details(layer));
    match &layer.disabled_reason {
        Some(reason) => {
            let mut r = String::new();
            push_str_chars(&mut r, "     reason: ");
            push_str_chars(&mut r, reason.as_str());
            push_row(&mut rows, text_line(r, Style::new().with_dim()));
        },
        None => {},
    }
    proof {
        assert(text_rows(rows@) =~= layer_rows(index as nat, *layer));
    }
    rows
}

/// `true` or `false`.
pub open spec fn bool_text(b: bool) -> Seq<char> {
    if b {
        "true"@
    } else {
        "false"@
    }
}

fn push_bool(s: &mut String, b: bool)
    ensures
        final(s)@ == old(s)@ + bool_text(b),
{
    if b {
        push_str_chars(s, "true");
    } else {
        push_str_chars(s, "false");
    }
}

/// The managed hooks requirement.
#[derive(Debug)]
pub struct ManagedHooksView {
    pub managed_dir: Option<String>,
    pub windows_managed_dir: Option<String>,
    /// The handlers of each matcher group the requirement configures, over
    /// all hook events, as counts.
    pub handler_groups: Vec<usize>,
}

/// Total of `counts`.
pub open spec fn total(counts: Seq<usize>) -> nat
    decreases counts.len(),
{
    if counts.len() == 0 {
        0
    } else {
        total(counts.drop_last()) + counts.last() as nat
    }
}

/// How many hook handlers the matcher groups hold in all, saturating at
/// the largest `usize`.
pub fn count_hook_handlers(groups: &[usize]) -> (n: usize)
    ensures
        n as nat == if total(groups@) <= usize::MAX {
            total(groups@)
        } else {
            usize::MAX as nat
        },
{
    let mut n: usize = 0;
    let mut k: usize = 0;
    let mut saturated = false;
    proof {
        assert(groups@.take(0) =~= Seq::<usize>::empty());
    }
    while k < groups.len()
        invariant
            k <= groups@.len(),
            !saturated ==> n as nat == total(groups@.take(k as int)),
            saturated ==> n == usize::MAX && total(groups@.take(k as int)) > usize::MAX,
        decreases groups@.len() - k,
    {
        proof {
            assert(groups@.take(k + 1).drop_last() =~= groups@.take(k as int));
            assert(groups@.take(k + 1).last() == groups@[k as int]);
        }
        match n.checked_add(groups[k]) {
            Some(m) => {
                if !saturated {
                    n = m;
                }
            },
            None => {
                n = usize::MAX;
                saturated = true;
            },
        }
        k += 1;
    }
    proof {
        assert(groups@.take(groups@.len() as int) =~= groups@);
    }
    n
}

/// The summary of managed hooks: their directories, where set, and how many
/// handlers their matcher groups hold in all.
pub open spec fn hooks_text(h: ManagedHooksView) -> Seq<char> {
    join(
        (match h.managed_dir {
            Some(d) => seq!["managed_dir="@ + d@],
            None => Seq::empty(),
        }) + (match h.windows_managed_dir {
            Some(d) => seq!["windows_managed_dir="@ + d@],
            None => Seq::empty(),
        }) + seq![
            "handlers="@ + decimal_chars(
                if total(h.handler_groups@) <= usize::MAX {
                    total(h.handler_groups@)
                } else {
                    usize::MAX as nat
                },
            ),
        ],
        ", "@,
    )
}

/// Summarizes managed hooks.
pub fn format_managed_hooks_requirements(hooks: &ManagedHooksView) -> (s: String)
    ensures
        s@ == hooks_text(*hooks),
{
    let mut parts: Vec<String> = Vec::new();
    match &hooks.managed_dir {
        Some(d) => {
            let mut p = String::new();
            push_str_chars(&mut p, "managed_dir=");
            push_str_chars(&mut p, d.as_str());
            parts.push(p);
        },
        None => {},
    }
    match &hooks.windows_managed_dir {
        Some(d) => {
            let mut p = String::new();
            push_str_chars(&mut p, "windows_managed_dir=");
            push_str_chars(&mut p, d.as_str());
            parts.push(p);
        },
        None => {},
    }
    let mut h = String::new();
    push_str_chars(&mut h, "handlers=");
    let count = count_hook_handlers(hooks.handler_groups.as_slice());
    push_decimal_chars(&mut h, count);
    parts.push(h);
    proof {
        assert(views(parts@) =~= (match hooks.managed_dir {
            Some(d) => seq!["managed_dir="@ + d@],
            None => Seq::empty(),
        }) + (match hooks.windows_managed_dir {
            Some(d) => seq!["windows_managed_dir="@ + d@],
            None => Seq::empty(),
        }) + seq!["handlers="@ + decimal_chars(count as nat)]);
    }
    join_or_empty(&parts)
}

/// The network requirement.
#[derive(Debug)]
pub struct NetworkConstraintsView {
    pub enabled: Option<bool>,
    pub http_port: Option<u16>,
    pub socks_port: Option<u16>,
    pub allow_upstream_proxy: Option<bool>,
    pub dangerously_allow_non_loopback_proxy: Option<bool>,
    pub dangerously_allow_all_unix_sockets: Option<bool>,
    pub managed_allowed_domains_only: Option<bool>,
    pub allow_local_binding: Option<bool>,
    pub domains_allow: Option<Vec<String>>,
    pub domains_deny: Option<Vec<String>>,
    pub unix_sockets_allow: Option<Vec<String>>,
    pub unix_sockets_deny: Option<Vec<String>>,
}

/// A permission as shown: `allow`, `deny`, anything else `unknown`.
pub open spec fn permission_text(p: Seq<char>) -> Seq<char> {
    if p == "allow"@ {
        "allow"@
    } else if p == "deny"@ {
        "deny"@
    } else {
        "unknown"@
    }
}

/// A permission as shown.
pub fn format_network_domain_permission(permission: &str) -> (s: String)
    ensures
        s@ == permission_text(permission@),
{
    if str_eq(permission, "allow") {
        String::from_str("allow")
    } else if str_eq(permission, "deny") {
        String::from_str("deny")
    } else {
        String::from_str("unknown")
    }
}

/// `s` with each name of `names` set to `perm`, in order.
pub open spec fn insert_all(s: Seq<(Seq<char>, Seq<char>)>, names: Seq<String>, perm: Seq<char>) -> Seq<(Seq<char>, Seq<char>)>
    decreases names.len(),
{
    if names.len() == 0 {
        s
    } else {
        sorted_insert(insert_all(s, names.drop_last(), perm), names.last()@, perm)
    }
}

/// The permission entries: allowed names first, then denied ones, a later
/// entry replacing an earlier one for the same name, in name order.
pub open spec fn permission_entries(allow: Option<Seq<String>>, deny: Option<Seq<String>>) -> Seq<(Seq<char>, Seq<char>)> {
    let with_allow = match allow {
        Some(a) => insert_all(Seq::empty(), a, "allow"@),
        None => Seq::empty(),
    };
    match deny {
        Some(d) => insert_all(with_allow, d, "deny"@),
        None => with_allow,
    }
}

/// Entries as `{name=permission, ...}`.
pub open spec fn entries_text(entries: Seq<(Seq<char>, Seq<char>)>) -> Seq<char> {
    "{"@ + join(
        Seq::new(entries.len(), |i: int| entries[i].0 + "="@ + permission_text(entries[i].1)),
        ", "@,
    ) + "}"@
}

/// Sets every name of `names` to `perm` in `map`.
fn insert_names(map: &mut StringMap, names: &Vec<String>, perm: &str)
    requires
        keys_sorted(old(map).entries_view()),
    ensures
        keys_sorted(final(map).entries_view()),
        final(map).entries_view() == insert_all(old(map).entries_view(), names@, perm@),
{
    let mut i: usize = 0;
    let ghost start = map.entries_view();
    while i < names.len()
        invariant
            i <= names.len(),
            keys_sorted(map.entries_view()),
            map.entries_view() == insert_all(start, names@.take(i as int), perm@),
        decreases names.len() - i,
    {
        map.insert(names[i].clone(), String::from_str(perm));
        proof {
            assert(names@.take(i + 1).drop_last() =~= names@.take(i as int));
        }
        i += 1;
    }
    proof {
        assert(names@.take(names@.len() as int) =~= names@);
    }
}

/// Formats permission entries.
pub fn format_network_permission_entries(entries: &StringMap) -> (s: String)
    ensures
        s@ == entries_text(entries.entries_view()),
{
    let es = entries.entries();
    let ghost ev = entries.entries_view();
    let mut parts: Vec<String> = Vec::new();
    let mut i: usize = 0;
    while i < es.len()
        invariant
            i <= es.len(),
            pair_texts(es@) == ev,
            views(parts@) == Seq::new(i as nat, |k: int| ev[k].0 + "="@ + permission_text(ev[k].1)),
        decreases es.len() - i,
    {
        let mut p = String::new();
        push_str_chars(&mut p, es[i].0.as_str());
        push_str_chars(&mut p, "=");
        let perm = format_network_domain_permission(es[i].1.as_str());
        push_str_chars(&mut p, perm.as_str());
        proof {
            assert(pair_texts(es@)[i as int] == (es@[i as int].0@, es@[i as int].1@));
            assert(ev[i as int] == (es@[i as int].0@, es@[i as int].1@));
            assert(p@ == ev[i as int].0 + "="@ + permission_text(ev[i as int].1));
        }
        let ghost pv = p@;
        let ghost old_parts = parts@;
        parts.push(p);
        proof {
            assert(views(parts@) =~= views(old_parts).push(pv));
            assert(views(parts@) =~= Seq::new(
                (i + 1) as nat,
                |k: int| ev[k].0 + "="@ + permission_text(ev[k].1),
            ));
        }
        i += 1;
    }
    let mut s = String::new();
    push_str_chars(&mut s, "{");
    let mut j: usize = 0;
    while j < parts.len()
        invariant
            j <= parts.len(),
            s@ == "{"@ + join(views(parts@.take(j as int)), ", "@),
        decreases parts.len() - j,
    {
        if j > 0 {
            push_str_chars(&mut s, ", ");
        }
        push_str_chars(&mut s, parts[j].as_str());
        proof {
            let t = views(parts@.take(j + 1));
            assert(t.drop_last() =~= views(parts@.take(j as int)));
            if j == 0 {
                assert(t.len() == 1);
                assert(join(views(parts@.take(0)), ", "@) =~= Seq::<char>::empty());
            }
        }
        j += 1;
    }
    push_str_chars(&mut s, "}");
    proof {
        assert(parts@.take(parts@.len() as int) =~= parts@);
        assert(pair_texts(es@).len() == es@.len());
    }
    s
}

/// The views of optional string lists.
pub open spec fn opt_list(v: Option<Vec<String>>) -> Option<Seq<String>> {
    match v {
        Some(l) => Some(l@),
        None => None,
    }
}

/// `name=value` for a set flag.
pub open spec fn opt_bool_part(name: Seq<char>, v: Option<bool>) -> Seq<Seq<char>> {
    match v {
        Some(b) => seq![name + "="@ + bool_text(b)],
        None => Seq::empty(),
    }
}

/// `name=value` for a set port.
pub open spec fn opt_port_part(name: Seq<char>, v: Option<u16>) -> Seq<Seq<char>> {
    match v {
        Some(p) => seq![name + "="@ + decimal_chars(p as nat)],
        None => Seq::empty(),
    }
}

/// `name={...}` for permission entries, where there are any.
pub open spec fn map_part(name: Seq<char>, entries: Seq<(Seq<char>, Seq<char>)>) -> Seq<Seq<char>> {
    if entries.len() == 0 {
        Seq::empty()
    } else {
        seq![name + "="@ + entries_text(entries)]
    }
}

fn push_opt_bool(parts: &mut Vec<String>, name: &str, v: Option<bool>)
    ensures
        views(final(parts)@) == views(old(parts)@) + opt_bool_part(name@, v),
{
    match v {
        Some(b) => {
            let mut p = String::new();
            push_str_chars(&mut p, name);
            push_str_chars(&mut p, "=");
            push_bool(&mut p, b);
            parts.push(p);
            proof {
                assert(views(parts@) =~= views(old(parts)@) + opt_bool_part(name@, v));
            }
        },
        None => {
            proof {
                assert(views(parts@) =~= views(old(parts)@) + opt_bool_part(name@, v));
            }
        },
    }
}

fn push_opt_port(parts: &mut Vec<String>, name: &str, v: Option<u16>)
    ensures
        views(final(parts)@) == views(old(parts)@) + opt_port_part(name@, v),
{
    match v {
        Some(port) => {
            let mut p = String::new();
            push_str_chars(&mut p, name);
            push_str_chars(&mut p, "=");
            push_decimal_chars(&mut p, port as usize);
            parts.push(p);
            proof {
                assert(views(parts@) =~= views(old(parts)@) + opt_port_part(name@, v));
            }
        },
        None => {
            proof {
                assert(views(parts@) =~= views(old(parts)@) + opt_port_part(name@, v));
            }
        },
    }
}

/// Builds the permission entries of allowed and denied names and appends
/// their part where there are any.
fn push_permission_map(
    parts: &mut Vec<String>,
    name: &str,
    allow: &Option<Vec<String>>,
    deny: &Option<Vec<String>>,
)
    ensures
        views(final(parts)@) == views(old(parts)@) + map_part(
            name@,
            permission_entries(opt_list(*allow), opt_list(*deny)),
        ),
{
    let mut m = StringMap::new();
    match allow {
        Some(a) => insert_names(&mut m, a, "allow"),
        None => {},
    }
    match deny {
        Some(d) => insert_names(&mut m, d, "deny"),
        None => {},
    }
    if m.len() > 0 {
        let mut p = String::new();
        push_str_chars(&mut p, name);
        push_str_chars(&mut p, "=");
        let body = format_network_permission_entries(&m);
        push_str_chars(&mut p, body.as_str());
        parts.push(p);
        proof {
            assert(views(parts@) =~= views(old(parts)@) + map_part(
                name@,
                permission_entries(opt_list(*allow), opt_list(*deny)),
            ));
        }
    } else {
        proof {
            assert(views(parts@) =~= views(old(parts)@) + map_part(
                name@,
                permission_entries(opt_list(*allow), opt_list(*deny)),
            ));
        }
    }
}

/// The requirement on network access, part by part.
pub open spec fn network_parts(n: NetworkConstraintsView) -> Seq<Seq<char>> {
    opt_bool_part("enabled"@, n.enabled) + opt_port_part("http_port"@, n.http_port) + opt_port_part(
        "socks_port"@,
        n.socks_port,
    ) + opt_bool_part("allow_upstream_proxy"@, n.allow_upstream_proxy) + opt_bool_part(
        "dangerously_allow_non_loopback_proxy"@,
        n.dangerously_allow_non_loopback_proxy,
    ) + opt_bool_part("dangerously_allow_all_unix_sockets"@, n.dangerously_allow_all_unix_sockets)
        + opt_bool_part("managed_allowed_domains_only"@, n.managed_allowed_domains_only) + map_part(
        "domains"@,
        permission_entries(opt_list(n.domains_allow), opt_list(n.domains_deny)),
    ) + opt_bool_part("allow_local_binding"@, n.allow_local_binding) + map_part(
        "unix_sockets"@,
        permission_entries(opt_list(n.unix_sockets_allow), opt_list(n.unix_sockets_deny)),
    ) + opt_bool_part("allow_local_binding"@, n.allow_local_binding)
}

/// Summarizes the network requirement: each setting that is set, and the
/// domain and socket permissions in name order.
pub fn format_network_constraints(network: &NetworkConstraintsView) -> (s: String)
    ensures
        s@ == join_or_empty_spec(network_parts(*network)),
{
    let mut parts: Vec<String> = Vec::new();
    proof {
        assert(views(parts@) =~= Seq::<Seq<char>>::empty());
    }
    push_opt_bool(&mut parts, "enabled", network.enabled);
    push_opt_port(&mut parts, "http_port", network.http_port);
    push_opt_port(&mut parts, "socks_port", network.socks_port);
    push_opt_bool(&mut parts, "allow_upstream_proxy", network.allow_upstream_proxy);
    push_opt_bool(&mut parts, "dangerously_allow_non_loopback_proxy", network.dangerously_allow_non_loopback_proxy);
    push_opt_bool(&mut parts, "dangerously_allow_all_unix_sockets", network.dangerously_allow_all_unix_sockets);
    push_opt_bool(&mut parts, "managed_allowed_domains_only", network.managed_allowed_domains_only);
    push_permission_map(&mut parts, "domains", &network.domains_allow, &network.domains_deny);
    push_opt_bool(&mut parts, "allow_local_binding", network.allow_local_binding);
    push_permission_map(&mut parts, "unix_sockets", &network.unix_sockets_allow, &network.unix_sockets_deny);
    push_opt_bool(&mut parts, "allow_local_binding", network.allow_local_binding);
    proof {
        assert(views(parts@) =~= network_parts(*network));
    }
    join_or_empty(&parts)
}

/// The requirements that constrain a session, each with where it comes
/// from.
#[derive(Debug)]
pub struct RequirementsView {
    pub allowed_approval_policies: Option<Vec<String>>,
    pub approval_policy_source: String,
    pub allowed_approvals_reviewers: Option<Vec<String>>,
    pub approvals_reviewer_source: String,
    pub allowed_sandbox_modes: Option<Vec<SandboxModeRequirement>>,
    pub permission_profile_source: String,
    pub allowed_web_search_modes: Option<Vec<WebSearchModeRequirement>>,
    pub web_search_mode_source: String,
    pub allow_managed_hooks_only: Option<bool>,
    pub allow_managed_hooks_only_source: Option<String>,
    pub allow_appshots: Option<bool>,
    pub allow_appshots_source: Option<String>,
    pub allow_remote_control: Option<bool>,
    pub allow_remote_control_source: Option<String>,
    pub guardian_policy_configured: bool,
    pub guardian_policy_config_source: String,
    /// Feature flags, in name order, with their source.
    pub feature_requirements: Option<(Vec<(String, bool)>, String)>,
    pub hooks: Option<ManagedHooksView>,
    pub managed_hooks_source: Option<String>,
    /// MCP server names, in name order, with their source.
    pub mcp_servers: Option<(Vec<String>, String)>,
    pub rules_configured: bool,
    pub enforce_residency: Option<ResidencyRequirement>,
    pub enforce_residency_source: String,
    pub network: Option<(NetworkConstraintsView, String)>,
    pub filesystem_deny_read: Option<(Vec<String>, String)>,
}

/// A requirement row, present where `present` holds.
pub open spec fn opt_req(present: bool, name: Seq<char>, value: Seq<char>, source: Option<Seq<char>>) -> Seq<(Seq<char>, Style)> {
    if present {
        seq![(requirement_text(name, value, source), plain())]
    } else {
        Seq::empty()
    }
}

/// The view of an optional string.
pub open spec fn opt_text(s: Option<String>) -> Option<Seq<char>> {
    match s {
        Some(x) => Some(x@),
        None => None,
    }
}

/// The names of the modes of `modes` that `allowed` holds.
pub open spec fn allowed_mode_names(modes: Seq<SandboxModeRequirement>, allowed: Seq<SandboxModeRequirement>) -> Seq<Seq<char>>
    decreases modes.len(),
{
    if modes.len() == 0 {
        Seq::empty()
    } else {
        allowed_mode_names(modes.drop_last(), allowed) + if allowed.contains(modes.last()) {
            seq![sandbox_mode_name(modes.last())]
        } else {
            Seq::empty()
        }
    }
}

/// `feature=enabled` for each feature.
pub open spec fn feature_texts(f: Seq<(String, bool)>) -> Seq<Seq<char>> {
    Seq::new(f.len(), |i: int| f[i].0@ + "="@ + bool_text(f[i].1))
}

/// Requirement rows, part a.
pub open spec fn requirement_rows_a(r: RequirementsView, allowed: Seq<SandboxModeRequirement>) -> Seq<(Seq<char>, Style)> {
    opt_req(
        r.allowed_approval_policies is Some,
        "allowed_approval_policies"@,
        join_or_empty_spec(views(r.allowed_approval_policies->0@)),
        Some(r.approval_policy_source@),
    ) + opt_req(
        r.allowed_approvals_reviewers is Some,
        "allowed_approvals_reviewers"@,
        join_or_empty_spec(views(r.allowed_approvals_reviewers->0@)),
        Some(r.approvals_reviewer_source@),
    ) + opt_req(
        r.allowed_sandbox_modes is Some,
        "allowed_sandbox_modes"@,
        join_or_empty_spec(allowed_mode_names(r.allowed_sandbox_modes->0@, allowed)),
        Some(r.permission_profile_source@),
    ) + opt_req(
        r.allowed_web_search_modes is Some,
        "allowed_web_search_modes"@,
        join_or_empty_spec(
            normalized_web_search_modes(r.allowed_web_search_modes->0@).map_values(
                |m: WebSearchModeRequirement| web_search_mode_name(m),
            ),
        ),
        Some(r.web_search_mode_source@),
    ) + opt_req(
        r.allow_managed_hooks_only is Some,
        "allow_managed_hooks_only"@,
        bool_text(r.allow_managed_hooks_only->0),
        opt_text(r.allow_managed_hooks_only_source),
    )
}

/// Requirement rows, part b.
pub open spec fn requirement_rows_b(r: RequirementsView, allowed: Seq<SandboxModeRequirement>) -> Seq<(Seq<char>, Style)> {
    opt_req(
        r.allow_appshots is Some,
        "allow_appshots"@,
        bool_text(r.allow_appshots->0),
        opt_text(r.allow_appshots_source),
    ) + opt_req(
        r.allow_remote_control is Some,
        "allow_remote_control"@,
        bool_text(r.allow_remote_control->0),
        opt_text(r.allow_remote_control_source),
    ) + opt_req(
        r.guardian_policy_configured,
        "guardian_policy_config"@,
        "configured"@,
        Some(r.guardian_policy_config_source@),
    ) + opt_req(
        r.feature_requirements is Some,
        "features"@,
        join_or_empty_spec(feature_texts((r.feature_requirements->0).0@)),
        Some((r.feature_requirements->0).1@),
    ) + opt_req(
        r.hooks is Some,
        "hooks"@,
        hooks_text(r.hooks->0),
        opt_text(r.managed_hooks_source),
    )
}

/// Requirement rows, part c.
pub open spec fn requirement_rows_c(r: RequirementsView, allowed: Seq<SandboxModeRequirement>) -> Seq<(Seq<char>, Style)> {
    opt_req(
        r.mcp_servers is Some,
        "mcp_servers"@,
        join_or_empty_spec(views((r.mcp_servers->0).0@)),
        Some((r.mcp_servers->0).1@),
    ) + opt_req(
        r.rules_configured, "rules"@, "configured"@, None
    ) + opt_req(
        r.enforce_residency is Some,
        "enforce_residency"@,
        residency_name(r.enforce_residency->0),
        Some(r.enforce_residency_source@),
    ) + opt_req(
        r.network is Some,
        "experimental_network"@,
        join_or_empty_spec(network_parts((r.network->0).0)),
        Some((r.network->0).1@),
    ) + opt_req(
        r.filesystem_deny_read is Some,
        "permissions.filesystem.deny_read"@,
        join_or_empty_spec(views((r.filesystem_deny_read->0).0@)),
        Some((r.filesystem_deny_read->0).1@),
    
    )
}

/// The requirement rows, in their fixed order; each requirement that is set
/// gives a row.
pub open spec fn requirement_rows(r: RequirementsView, allowed: Seq<SandboxModeRequirement>) -> Seq<(Seq<char>, Style)> {
    requirement_rows_a(r, allowed) + requirement_rows_b(r, allowed) + requirement_rows_c(r, allowed)
}

/// Appends a requirement row.
fn push_requirement(rows: &mut Vec<StyledLine>, name: &str, value: String, source: Option<String>)
    requires
        single_span_rows(old(rows)@),
    ensures
        single_span_rows(final(rows)@),
        text_rows(final(rows)@) == text_rows(old(rows)@) + seq![(
            requirement_text(name@, value@, opt_text(source)),
            plain(),
        )],
{
    let l = requirement_line(name, value, source);
    push_row(rows, l);
    proof {
        assert(text_rows(rows@) =~= text_rows(old(rows)@) + seq![(
            requirement_text(name@, value@, opt_text(source)),
            plain(),
        )]);
    }
}

/// Whether `modes` holds `m`.
fn holds_mode(modes: &[SandboxModeRequirement], m: SandboxModeRequirement) -> (r: bool)
    ensures
        r == modes@.contains(m),
{
    let mut i: usize = 0;
    while i < modes.len()
        invariant
            i <= modes.len(),
            forall|k: int| 0 <= k < i ==> modes@[k] != m,
        decreases modes.len() - i,
    {
        if modes[i] == m {
            proof {
                assert(modes@[i as int] == m);
            }
            return true;
        }
        i += 1;
    }
    false
}

/// The names of the modes that `allowed` holds.
fn allowed_modes_text(modes: &Vec<SandboxModeRequirement>, allowed: &[SandboxModeRequirement]) -> (s: String)
    ensures
        s@ == join_or_empty_spec(allowed_mode_names(modes@, allowed@)),
{
    let mut names: Vec<String> = Vec::new();
    let mut i: usize = 0;
    while i < modes.len()
        invariant
            i <= modes.len(),
            views(names@) == allowed_mode_names(modes@.take(i as int), allowed@),
        decreases modes.len() - i,
    {
        proof {
            assert(modes@.take(i + 1).drop_last() =~= modes@.take(i as int));
        }
        if holds_mode(allowed, modes[i]) {
            let ghost old_names = names@;
            let n = format_sandbox_mode_requirement(modes[i]);
            let ghost nv = n@;
            names.push(n);
            proof {
                assert(views(names@) =~= views(old_names).push(nv));
                assert(views(names@) =~= allowed_mode_names(modes@.take(i + 1), allowed@));
            }
        } else {
            proof {
                assert(views(names@) =~= allowed_mode_names(modes@.take(i + 1), allowed@));
            }
        }
        i += 1;
    }
    proof {
        assert(modes@.take(modes@.len() as int) =~= modes@);
    }
    join_or_empty(&names)
}

/// The names of web search modes.
fn web_search_modes_text(modes: &Vec<WebSearchModeRequirement>) -> (s: String)
    ensures
        s@ == join_or_empty_spec(
            normalized_web_search_modes(modes@).map_values(|m: WebSearchModeRequirement| web_search_mode_name(m)),
        ),
{
    let normalized = normalize_allowed_web_search_modes(modes.as_slice());
    let mut names: Vec<String> = Vec::new();
    let mut i: usize = 0;
    while i < normalized.len()
        invariant
            i <= normalized.len(),
            views(names@) == normalized@.take(i as int).map_values(
                |m: WebSearchModeRequirement| web_search_mode_name(m),
            ),
        decreases normalized.len() - i,
    {
        let ghost old_names = names@;
        let n = format_web_search_mode(normalized[i]);
        let ghost nv = n@;
        names.push(n);
        proof {
            assert(views(names@) =~= views(old_names).push(nv));
            assert(views(names@) =~= normalized@.take(i + 1).map_values(
                |m: WebSearchModeRequirement| web_search_mode_name(m),
            ));
        }
        i += 1;
    }
    proof {
        assert(normalized@.take(normalized@.len() as int) =~= normalized@);
    }
    join_or_empty(&names)
}

/// `feature=enabled` for each feature, joined.
fn features_text(f: &Vec<(String, bool)>) -> (s: String)
    ensures
        s@ == join_or_empty_spec(feature_texts(f@)),
{
    let mut parts: Vec<String> = Vec::new();
    let mut i: usize = 0;
    while i < f.len()
        invariant
            i <= f.len(),
            views(parts@) == feature_texts(f@.take(i as int)),
        decreases f.len() - i,
    {
        let mut p = String::new();
        push_str_chars(&mut p, f[i].0.as_str());
        push_str_chars(&mut p, "=");
        push_bool(&mut p, f[i].1);
        let ghost old_parts = parts@;
        let ghost pv = p@;
        parts.push(p);
        proof {
            assert(views(parts@) =~= views(old_parts).push(pv));
            assert(views(parts@) =~= feature_texts(f@.take(i + 1)));
        }
        i += 1;
    }
    proof {
        assert(f@.take(f@.len() as int) =~= f@);
    }
    join_or_empty(&parts)
}

/// `true` or `false`.
fn bool_string(b: bool) -> (s: String)
    ensures
        s@ == bool_text(b),
{
    if b {
        String::from_str("true")
    } else {
        String::from_str("false")
    }
}

#[verifier::spinoff_prover]
#[verifier::rlimit(40)]
fn render_requirements_a(r: &RequirementsView, allowed: &[SandboxModeRequirement], rows: &mut Vec<StyledLine>)
    requires
        single_span_rows(old(rows)@),
    ensures
        single_span_rows(final(rows)@),
        text_rows(final(rows)@) == text_rows(old(rows)@) + requirement_rows_a(*r, allowed@),
{
    let ghost start = text_rows(rows@);
    if let Some(p) = &r.allowed_approval_policies {
        push_requirement(rows, "allowed_approval_policies", join_or_empty(p), Some(r.approval_policy_source.clone()));
    }
    if let Some(p) = &r.allowed_approvals_reviewers {
        push_requirement(rows, "allowed_approvals_reviewers", join_or_empty(p), Some(r.approvals_reviewer_source.clone()));
    }
    if let Some(m) = &r.allowed_sandbox_modes {
        push_requirement(rows, "allowed_sandbox_modes", allowed_modes_text(m, allowed), Some(r.permission_profile_source.clone()));
    }
    if let Some(m) = &r.allowed_web_search_modes {
        push_requirement(rows, "allowed_web_search_modes", web_search_modes_text(m), Some(r.web_search_mode_source.clone()));
    }
    if let Some(b) = r.allow_managed_hooks_only {
        push_requirement(rows, "allow_managed_hooks_only", bool_string(b), r.allow_managed_hooks_only_source.clone());
    }
    proof {
        assert(text_rows(rows@) =~= start + requirement_rows_a(*r, allowed@));
    }
}

#[verifier::spinoff_prover]
#[verifier::rlimit(40)]
fn render_requirements_b(r: &RequirementsView, allowed: &[SandboxModeRequirement], rows: &mut Vec<StyledLine>)
    requires
        single_span_rows(old(rows)@),
    ensures
        single_span_rows(final(rows)@),
        text_rows(final(rows)@) == text_rows(old(rows)@) + requirement_rows_b(*r, allowed@),
{
    let ghost start = text_rows(rows@);
    if let Some(b) = r.allow_appshots {
        push_requirement(rows, "allow_appshots", bool_string(b), r.allow_appshots_source.clone());
    }
    if let Some(b) = r.allow_remote_control {
        push_requirement(rows, "allow_remote_control", bool_string(b), r.allow_remote_control_source.clone());
    }
    if r.guardian_policy_configured {
        push_requirement(rows, "guardian_policy_config", String::from_str("configured"), Some(r.guardian_policy_config_source.clone()));
    }
    if let Some((f, src)) = &r.feature_requirements {
        push_requirement(rows, "features", features_text(f), Some(src.clone()));
    }
    if let Some(h) = &r.hooks {
        push_requirement(rows, "hooks", format_managed_hooks_requirements(h), r.managed_hooks_source.clone());
    }
    proof {
        assert(text_rows(rows@) =~= start + requirement_rows_b(*r, allowed@));
    }
}

#[verifier::spinoff_prover]
#[verifier::rlimit(40)]
fn render_requirements_c(r: &RequirementsView, allowed: &[SandboxModeRequirement], rows: &mut Vec<StyledLine>)
    requires
        single_span_rows(old(rows)@),
    ensures
        single_span_rows(final(rows)@),
        text_rows(final(rows)@) == text_rows(old(rows)@) + requirement_rows_c(*r, allowed@),
{
    let ghost start = text_rows(rows@);
    if let Some((names, src)) = &r.mcp_servers {
        push_requirement(rows, "mcp_servers", join_or_empty(names), Some(src.clone()));
    }
    if r.rules_configured {
        push_requirement(rows, "rules", String::from_str("configured"), None);
    }
    if let Some(res) = r.enforce_residency {
        push_requirement(rows, "enforce_residency", format_residency_requirement(res), Some(r.enforce_residency_source.clone()));
    }
    if let Some((n, src)) = &r.network {
        push_requirement(rows, "experimental_network", format_network_constraints(n), Some(src.clone()));
    }
    if let Some((deny, src)) = &r.filesystem_deny_read {
        push_requirement(rows, "permissions.filesystem.deny_read", join_or_empty(deny), Some(src.clone()));
    }
    proof {
        assert(text_rows(rows@) =~= start + requirement_rows_c(*r, allowed@));
    }
}

/// The requirement rows.
fn render_requirements(r: &RequirementsView, allowed: &[SandboxModeRequirement]) -> (rows: Vec<StyledLine>)
    ensures
        single_span_rows(rows@),
        text_rows(rows@) == requirement_rows(*r, allowed@),
{
    let mut rows: Vec<StyledLine> = Vec::new();
    proof {
        assert(text_rows(rows@) =~= Seq::<(Seq<char>, Style)>::empty());
    }
    render_requirements_a(r, allowed, &mut rows);
    render_requirements_b(r, allowed, &mut rows);
    render_requirements_c(r, allowed, &mut rows);
    proof {
        assert(text_rows(rows@) =~= requirement_rows(*r, allowed@));
    }
    rows
}

/// The rows of the `/debug-config` report: its title, every layer of the
/// stack lowest precedence first (disabled ones too, with the reason), and
/// the requirements; `<none>` where there are no layers or requirements.
/// `allowed_sandbox_modes` are the sandbox modes the session's permissions
/// can take; other allowed modes are not listed.
pub open spec fn debug_config_rows(
    layers: Seq<ConfigLayerView>,
    req: RequirementsView,
    allowed: Seq<SandboxModeRequirement>,
) -> Seq<(Seq<char>, Style)> {
    seq![
        ("/debug-config"@, magenta()),
        (""@, plain()),
        ("Config layer stack (lowest precedence first):"@, bold()),
    ] + (if layers.len() == 0 {
        seq![("  <none>"@, dimmed())]
    } else {
        layers_rows(layers)
    }) + seq![(""@, plain()), ("Requirements:"@, bold())] + (if requirement_rows(req, allowed).len()
        == 0 {
        seq![("  <none>"@, dimmed())]
    } else {
        requirement_rows(req, allowed)
    })
}

/// The rows of the `/debug-config` report (see `debug_config_rows`).
pub fn render_debug_config_lines(
    layers: &Vec<ConfigLayerView>,
    requirements: &RequirementsView,
    allowed_sandbox_modes: &[SandboxModeRequirement],
) -> (rows: Vec<StyledLine>)
    requires
        layers@.len() < usize::MAX,
    ensures
        single_span_rows(rows@),
        text_rows(rows@) == debug_config_rows(layers@, *requirements, allowed_sandbox_modes@),
{
    let mut rows: Vec<StyledLine> = Vec::new();
    proof {
        assert(text_rows(rows@) =~= Seq::<(Seq<char>, Style)>::empty());
    }
    push_row(&mut rows, lit_line("/debug-config", Style::new().with_fg(Color::Magenta)));
    push_row(&mut rows, lit_line("", Style::new()));
    push_row(&mut rows, lit_line("Config layer stack (lowest precedence first):", Style::new().with_bold()));
    let ghost head = text_rows(rows@);
    if layers.len() == 0 {
        push_row(&mut rows, lit_line("  <none>", Style::new().with_dim()));
    } else {
        let mut i: usize = 0;
        while i < layers.len()
            invariant
                i <= layers.len(),
                layers@.len() < usize::MAX,
                single_span_rows(rows@),
                text_rows(rows@) == head + layers_rows(layers@.take(i as int)),
            decreases layers.len() - i,
        {
            push_rows(&mut rows, render_layer(i, &layers[i]));
            proof {
                assert(layers@.take(i + 1).drop_last() =~= layers@.take(i as int));
                assert(head + layers_rows(layers@.take(i + 1)) =~= head + layers_rows(layers@.take(i as int))
                    + layer_rows(i as nat, layers@[i as int]));
            }
            i += 1;
        }
        proof {
            assert(layers@.take(layers@.len() as int) =~= layers@);
        }
    }
    push_row(&mut rows, lit_line("", Style::new()));
    push_row(&mut rows, lit_line("Requirements:", Style::new().with_bold()));
    let req_rows = render_requirements(requirements, allowed_sandbox_modes);
    if req_rows.len() == 0 {
        push_row(&mut rows, lit_line("  <none>", Style::new().with_dim()));
    } else {
        push_rows(&mut rows, req_rows);
    }
    proof {
        assert(text_rows(rows@) =~= debug_config_rows(layers@, *requirements, allowed_sandbox_modes@));
    }
    rows
}

/// The agent settings the report shows.
#[derive(Debug)]
pub struct AgentsView {
    pub enabled: bool,
    pub max_threads: Option<String>,
    pub max_depth: usize,
    pub default_subagent_model: Option<String>,
    pub default_subagent_reasoning_effort: Option<String>,
    pub interrupt_message_enabled: bool,
}

/// A value, or `<unset>`.
pub open spec fn or_unset(v: Option<String>) -> Seq<char> {
    match v {
        Some(x) => x@,
        None => "<unset>"@,
    }
}

/// The rows of the agent settings.
pub open spec fn agents_rows(a: AgentsView) -> Seq<(Seq<char>, Style)> {
    seq![
        (""@, plain()),
        ("[agents]:"@, bold()),
        ("  - enabled = "@ + bool_text(a.enabled), plain()),
        ("  - max_concurrent_threads_per_session = "@ + or_unset(a.max_threads), plain()),
        ("  - max_depth = "@ + decimal_chars(a.max_depth as nat) + " (V1 only; ignored by V2)"@, plain()),
        ("  - default_subagent_model = "@ + or_unset(a.default_subagent_model), plain()),
        ("  - default_subagent_reasoning_effort = "@ + or_unset(a.default_subagent_reasoning_effort), plain()),
        ("  - interrupt_message = "@ + bool_text(a.interrupt_message_enabled), plain()),
    ]
}

fn labeled(label: &str, value: &str) -> (l: StyledLine)
    ensures
        l.spans@.len() == 1,
        l.style == Style::plain(),
        text_row(l) == (label@ + value@, plain()),
{
    let mut s = String::new();
    push_str_chars(&mut s, label);
    push_str_chars(&mut s, value);
    proof {
        assert(s@ =~= label@ + value@);
    }
    text_line(s, Style::new())
}

fn opt_str(v: &Option<String>) -> (s: String)
    ensures
        s@ == or_unset(*v),
{
    match v {
        Some(x) => x.clone(),
        None => String::from_str("<unset>"),
    }
}

/// The rows of the agent settings.
pub fn render_agents_config_lines(a: &AgentsView) -> (rows: Vec<StyledLine>)
    ensures
        single_span_rows(rows@),
        text_rows(rows@) == agents_rows(*a),
{
    let mut rows: Vec<StyledLine> = Vec::new();
    proof {
        assert(text_rows(rows@) =~= Seq::<(Seq<char>, Style)>::empty());
    }
    push_row(&mut rows, lit_line("", Style::new()));
    push_row(&mut rows, lit_line("[agents]:", Style::new().with_bold()));
    push_row(&mut rows, labeled("  - enabled = ", bool_string(a.enabled).as_str()));
    push_row(&mut rows, labeled("  - max_concurrent_threads_per_session = ", opt_str(&a.max_threads).as_str()));
    let mut d = String::new();
    push_str_chars(&mut d, "  - max_depth = ");
    push_decimal_chars(&mut d, a.max_depth);
    push_str_chars(&mut d, " (V1 only; ignored by V2)");
    push_row(&mut rows, text_line(d, Style::new()));
    push_row(&mut rows, labeled("  - default_subagent_model = ", opt_str(&a.default_subagent_model).as_str()));
    push_row(
        &mut rows,
        labeled(
            "  - default_subagent_reasoning_effort = ",
            opt_str(&a.default_subagent_reasoning_effort).as_str(),
        ),
    );
    push_row(&mut rows, labeled("  - interrupt_message = ", bool_string(a.interrupt_message_enabled).as_str()));
    proof {
        assert(text_rows(rows@) =~= agents_rows(*a));
    }
    rows
}

/// The addresses of a session's network proxy.
#[derive(Debug)]
pub struct SessionNetworkProxyRuntime {
    pub http_addr: String,
    pub socks_addr: String,
}

/// The rows of the session's network proxy.
pub open spec fn proxy_rows(p: SessionNetworkProxyRuntime, socks_enabled: bool) -> Seq<(Seq<char>, Style)> {
    seq![
        (""@, plain()),
        ("Session runtime:"@, bold()),
        ("  - network_proxy"@, plain()),
        ("    - HTTP_PROXY  = http://"@ + p.http_addr@, plain()),
        ("    - ALL_PROXY   = "@ + (if socks_enabled {
            "socks5h://"@ + p.socks_addr@
        } else {
            "http://"@ + p.http_addr@
        }), plain()),
    ]
}

/// The whole `/debug-config` report: the stack and requirements, the agent
/// settings and, where the session runs a network proxy, its addresses.
pub fn new_debug_config_output(
    layers: &Vec<ConfigLayerView>,
    requirements: &RequirementsView,
    allowed_sandbox_modes: &[SandboxModeRequirement],
    agents: &AgentsView,
    session_network_proxy: Option<&SessionNetworkProxyRuntime>,
    socks_enabled: bool,
) -> (rows: Vec<StyledLine>)
    requires
        layers@.len() < usize::MAX,
    ensures
        single_span_rows(rows@),
        text_rows(rows@) == debug_config_rows(layers@, *requirements, allowed_sandbox_modes@) + agents_rows(
            *agents,
        ) + match session_network_proxy {
            Some(p) => proxy_rows(*p, socks_enabled),
            None => Seq::empty(),
        },
{
    let mut rows = render_debug_config_lines(layers, requirements, allowed_sandbox_modes);
    push_rows(&mut rows, render_agents_config_lines(agents));
    let ghost before = text_rows(rows@);
    match session_network_proxy {
        Some(p) => {
            push_row(&mut rows, lit_line("", Style::new()));
            push_row(&mut rows, lit_line("Session runtime:", Style::new().with_bold()));
            push_row(&mut rows, lit_line("  - network_proxy", Style::new()));
            push_row(&mut rows, labeled("    - HTTP_PROXY  = http://", p.http_addr.as_str()));
            let all = session_all_proxy_url(p.http_addr.as_str(), p.socks_addr.as_str(), socks_enabled);
            push_row(&mut rows, labeled("    - ALL_PROXY   = ", all.as_str()));
            proof {
                assert(text_rows(rows@) =~= before + proxy_rows(*p, socks_enabled));
            }
        },
        None => {
            proof {
                assert(text_rows(rows@) =~= before + Seq::<(Seq<char>, Style)>::empty());
            }
        },
    }
    rows
}


/// How a unix socket permission reads: `allow`, `deny`, or `unknown` for
/// anything else.
pub fn format_network_unix_socket_permission(permission: &str) -> (s: &'static str)
    ensures
        s@ == (if permission@ == "allow"@ {
            "allow"@
        } else if permission@ == "deny"@ {
            "deny"@
        } else {
            "unknown"@
        }),
{
    if str_eq(permission, "allow") {
        "allow"
    } else if str_eq(permission, "deny") {
        "deny"
    } else {
        "unknown"
    }
}
} // verus!
