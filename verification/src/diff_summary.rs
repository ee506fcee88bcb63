//! The summary block of a set of file changes: a header with the files and
//! line counts, then each file's diff, indented under it.

use vstd::prelude::*;
use vstd::multiset::Multiset;
use vstd::seq_lib::to_multiset_insert;
use crate::diff_line::span_views;
use crate::diff_render::{
    change_counts, change_number_width, change_plan, line_counts, render_change, rendered,
    FileChange,
};
use crate::diff_theme::DiffRenderStyleContext;
use crate::paths::{
    display_path, display_path_for, lemma_path_lt_irreflexive, lemma_path_lt_transitive, path_less,
    path_lt, PathEnv,
};
use crate::style::{Color, Style, StyledLine, StyledSpan};
use crate::text::{chars_of, decimal_chars, push_char, push_decimal_chars, push_str_chars};

verus! {

/// A changed file with the repositories its paths lie in, where known.
#[derive(Debug)]
pub struct ChangeEntry {
    pub path: String,
    pub change: FileChange,
    pub path_repo_root: Option<String>,
    pub move_repo_root: Option<String>,
}

/// The view of an optional string.
pub open spec fn opt_view(s: Option<String>) -> Option<Seq<char>> {
    match s {
        Some(x) => Some(x@),
        None => None,
    }
}

/// How `path` shows in `env`.
pub open spec fn shown(path: Seq<char>, repo: Option<String>, env: PathEnv) -> Seq<char> {
    display_path(path, env.cwd@, opt_view(repo), opt_view(env.cwd_repo_root), opt_view(env.home))
}

/// The destination of a moved file.
pub open spec fn move_target(change: FileChange) -> Option<Seq<char>> {
    match change {
        FileChange::Update { move_path: Some(p), .. } => Some(p@),
        _ => None,
    }
}

/// The plain style.
pub open spec fn plain() -> Style {
    Style::plain()
}

/// A span of text in a style.
pub open spec fn sv(text: Seq<char>, st: Style) -> (Seq<char>, Style) {
    (text, st)
}

/// The spans naming a file: its path, and ` → ` and the destination where it
/// was moved.
pub open spec fn path_views(e: ChangeEntry, env: PathEnv) -> Seq<(Seq<char>, Style)> {
    match move_target(e.change) {
        Some(m) => seq![
            sv(shown(e.path@, e.path_repo_root, env), plain()),
            sv(seq![' ', '→', ' '] + shown(m, e.move_repo_root, env), plain()),
        ],
        None => seq![sv(shown(e.path@, e.path_repo_root, env), plain())],
    }
}

/// `(+added -removed)`, the counts green and red.
pub open spec fn count_views(added: nat, removed: nat) -> Seq<(Seq<char>, Style)> {
    seq![
        sv(seq!['('], plain()),
        sv(seq!['+'] + decimal_chars(added), Style { fg: Some(Color::Green), ..plain() }),
        sv(seq![' '], plain()),
        sv(seq!['-'] + decimal_chars(removed), Style { fg: Some(Color::Red), ..plain() }),
        sv(seq![')'], plain()),
    ]
}

/// Bold.
pub open spec fn bold() -> Style {
    Style { bold: true, ..plain() }
}

/// Dimmed.
pub open spec fn dimmed() -> Style {
    Style { dim: true, ..plain() }
}

/// A row as plain values: its spans and its style.
pub open spec fn row_view(l: StyledLine) -> (Seq<(Seq<char>, Style)>, Style) {
    (span_views(l.spans@), l.style)
}

/// The verb of a single-file header.
pub open spec fn change_verb(change: FileChange) -> Seq<char> {
    match change {
        FileChange::Add { .. } => seq!['A', 'd', 'd', 'e', 'd'],
        FileChange::Delete { .. } => seq!['D', 'e', 'l', 'e', 't', 'e', 'd'],
        FileChange::Update { .. } => seq!['E', 'd', 'i', 't', 'e', 'd'],
    }
}

/// `n`, or `usize::MAX` where it is larger.
pub open spec fn sat(n: nat) -> nat {
    if n <= usize::MAX {
        n
    } else {
        usize::MAX as nat
    }
}

/// The added (`k == 0`) or removed (`k == 1`) lines over all entries.
pub open spec fn total(entries: Seq<ChangeEntry>, k: int) -> nat
    decreases entries.len(),
{
    if entries.len() == 0 {
        0
    } else {
        let c = change_counts(entries.last().change);
        total(entries.drop_last(), k) + if k == 0 {
            c.0 as nat
        } else {
            c.1 as nat
        }
    }
}

/// ` files ` or ` file ` after the count.
pub open spec fn noun(n: nat) -> Seq<char> {
    if n == 1 {
        seq!['f', 'i', 'l', 'e']
    } else {
        seq!['f', 'i', 'l', 'e', 's']
    }
}

/// The first row of the block.
pub open spec fn header_views(entries: Seq<ChangeEntry>, env: PathEnv) -> Seq<(Seq<char>, Style)> {
    if entries.len() == 1 {
        let e = entries[0];
        let c = change_counts(e.change);
        seq![sv(seq!['•', ' '], dimmed()), sv(change_verb(e.change), bold()), sv(seq![' '], plain())]
            + path_views(e, env) + seq![sv(seq![' '], plain())] + count_views(c.0 as nat, c.1 as nat)
    } else {
        seq![
            sv(seq!['•', ' '], dimmed()),
            sv(seq!['E', 'd', 'i', 't', 'e', 'd'], bold()),
            sv(seq![' '] + decimal_chars(entries.len()) + seq![' '] + noun(entries.len()) + seq![' '], plain()),
        ] + count_views(sat(total(entries, 0)), sat(total(entries, 1)))
    }
}

/// The row naming one file of several.
pub open spec fn file_header_views(e: ChangeEntry, env: PathEnv) -> Seq<(Seq<char>, Style)> {
    let c = change_counts(e.change);
    seq![sv(seq![' ', ' ', '└', ' '], dimmed())] + path_views(e, env) + seq![sv(seq![' '], plain())]
        + count_views(c.0 as nat, c.1 as nat)
}

/// Rows indented by four spaces, keeping their styles.
pub open spec fn indented_views(rows: Seq<StyledLine>) -> Seq<(Seq<(Seq<char>, Style)>, Style)> {
    Seq::new(
        rows.len(),
        |k: int| (seq![sv(seq![' ', ' ', ' ', ' '], plain())] + span_views(rows[k].spans@), rows[k].style),
    )
}

/// The views of rows.
pub open spec fn rows_views(rows: Seq<StyledLine>) -> Seq<(Seq<(Seq<char>, Style)>, Style)> {
    rows.map_values(|l: StyledLine| row_view(l))
}

/// The rows of entry `i` of `n`: a blank row before all but the first, the
/// file's own header where there are several files, then its diff rendered
/// at `wrap_cols - 4` columns, indented.
pub open spec fn entry_rows(
    part: Seq<StyledLine>,
    i: int,
    n: nat,
    e: ChangeEntry,
    env: PathEnv,
    wrap_cols: nat,
    ctx: DiffRenderStyleContext,
) -> bool {
    exists|diff_rows: Seq<StyledLine>|
        #[trigger] rendered(
            diff_rows,
            change_plan(e.change),
            (wrap_cols - 4) as nat,
            change_number_width(e.change),
            ctx,
        ) && rows_views(part) == (if i > 0 {
            seq![(seq![sv(Seq::<char>::empty(), plain())], plain())]
        } else {
            Seq::empty()
        }) + (if n != 1 {
            seq![(file_header_views(e, env), plain())]
        } else {
            Seq::empty()
        }) + indented_views(diff_rows)
}

/// Row groups one after the other.
pub open spec fn concat_rows(parts: Seq<Seq<StyledLine>>) -> Seq<StyledLine>
    decreases parts.len(),
{
    if parts.len() == 0 {
        Seq::empty()
    } else {
        concat_rows(parts.drop_last()) + parts.last()
    }
}

/// `rows` are the summary block of `entries`, in their order.
pub open spec fn summary_block(
    rows: Seq<StyledLine>,
    entries: Seq<ChangeEntry>,
    env: PathEnv,
    wrap_cols: nat,
    ctx: DiffRenderStyleContext,
) -> bool {
    &&& rows.len() >= 1
    &&& row_view(rows[0]) == (header_views(entries, env), plain())
    &&& exists|parts: Seq<Seq<StyledLine>>|
        #![trigger concat_rows(parts)]
        parts.len() == entries.len() && rows.skip(1) == concat_rows(parts) && forall|i: int|
            0 <= i < parts.len() ==> entry_rows(
                #[trigger] parts[i],
                i,
                entries.len(),
                entries[i],
                env,
                wrap_cols,
                ctx,
            )
}

/// Entries in path order.
pub open spec fn sorted_by_path(v: Seq<ChangeEntry>) -> bool {
    forall|i: int, j: int| 0 <= i < j < v.len() ==> !path_lt(#[trigger] v[j].path@, #[trigger] v[i].path@)
}

/// Inserting an entry where the order puts it keeps entries in order.
proof fn lemma_insert_sorted(before: Seq<ChangeEntry>, p: int, e: ChangeEntry)
    requires
        0 <= p <= before.len(),
        sorted_by_path(before),
        forall|k: int| 0 <= k < p ==> !path_lt(e.path@, #[trigger] before[k].path@),
        p < before.len() ==> path_lt(e.path@, before[p].path@),
    ensures
        sorted_by_path(before.insert(p, e)),
{
    before.insert_ensures(p, e);
    let after = before.insert(p, e);
    assert forall|k: int| p <= k < before.len() implies !path_lt(#[trigger] before[k].path@, e.path@) by {
        if path_lt(before[k].path@, e.path@) {
            lemma_path_lt_transitive(before[k].path@, e.path@, before[p].path@);
            if k == p {
                lemma_path_lt_irreflexive(before[k].path@);
            }
        }
    }
    assert forall|i: int, j: int| 0 <= i < j < after.len() implies !path_lt(
        #[trigger] after[j].path@,
        #[trigger] after[i].path@,
    ) by {
        if j > p {
            assert(after[j] == before[j - 1]);
        }
        if i > p {
            assert(after[i] == before[i - 1]);
        }
        if i < p {
            assert(after[i] == before[i]);
        }
        if j < p {
            assert(after[j] == before[j]);
        }
    }
}

/// Puts entries in path order (component by component), keeping all of them.
pub fn sort_entries(entries: Vec<ChangeEntry>) -> (r: Vec<ChangeEntry>)
    ensures
        r@.to_multiset() == entries@.to_multiset(),
        sorted_by_path(r@),
{
    let mut rest = entries;
    let mut sorted: Vec<ChangeEntry> = Vec::new();
    proof {
        assert(sorted@.to_multiset() =~= Multiset::empty()) by {
            sorted@.to_multiset_ensures();
        }
        assert(sorted@.to_multiset().add(rest@.to_multiset()) =~= entries@.to_multiset());
    }
    while rest.len() > 0
        invariant
            sorted@.to_multiset().add(rest@.to_multiset()) == entries@.to_multiset(),
            sorted_by_path(sorted@),
        decreases rest.len(),
    {
        let ghost old_rest = rest@;
        let e = rest.pop().unwrap();
        proof {
            assert(old_rest =~= rest@.push(e));
            rest@.to_multiset_ensures();
        }
        let mut p: usize = 0;
        while p < sorted.len() && !path_less(e.path.as_str(), sorted[p].path.as_str())
            invariant
                p <= sorted.len(),
                forall|k: int| 0 <= k < p ==> !path_lt(e.path@, #[trigger] sorted@[k].path@),
            decreases sorted.len() - p,
        {
            p += 1;
        }
        let ghost before = sorted@;
        proof {
            lemma_insert_sorted(before, p as int, e);
        }
        sorted.insert(p, e);
        proof {
            to_multiset_insert(before, p as int, e);
            assert(sorted@.to_multiset().add(rest@.to_multiset()) =~= before.to_multiset().add(
                old_rest.to_multiset(),
            ));
        }
    }
    proof {
        rest@.to_multiset_ensures();
        assert(rest@.to_multiset() =~= Multiset::empty());
        assert(sorted@.to_multiset().add(rest@.to_multiset()) =~= sorted@.to_multiset());
    }
    sorted
}

/// A span of `text` in `style`, built from characters.
fn span_of(text: Seq<char>, style: Style, s: String) -> (sp: StyledSpan)
    requires
        s@ == text,
    ensures
        sp.content@ == text,
        sp.style == style,
{
    StyledSpan { content: s, style }
}

/// `c` followed by the decimal digits of `n`.
fn signed_count(c: char, n: usize) -> (s: String)
    ensures
        s@ == seq![c] + decimal_chars(n as nat),
{
    let mut s = String::new();
    push_char(&mut s, c);
    push_decimal_chars(&mut s, n);
    proof {
        assert(s@ =~= seq![c] + decimal_chars(n as nat));
    }
    s
}

/// One character as a string.
fn char_string(c: char) -> (s: String)
    ensures
        s@ == seq![c],
{
    let mut s = String::new();
    push_char(&mut s, c);
    proof {
        assert(s@ =~= seq![c]);
    }
    s
}

/// `(+added -removed)`, the counts green and red.
pub fn render_line_count_summary(added: usize, removed: usize) -> (spans: Vec<StyledSpan>)
    ensures
        span_views(spans@) == count_views(added as nat, removed as nat),
{
    let mut spans: Vec<StyledSpan> = Vec::new();
    spans.push(StyledSpan { content: char_string('('), style: Style::new() });
    spans.push(StyledSpan { content: signed_count('+', added), style: Style::new().with_fg(Color::Green) });
    spans.push(StyledSpan { content: char_string(' '), style: Style::new() });
    spans.push(StyledSpan { content: signed_count('-', removed), style: Style::new().with_fg(Color::Red) });
    spans.push(StyledSpan { content: char_string(')'), style: Style::new() });
    proof {
        assert(span_views(spans@) =~= count_views(added as nat, removed as nat));
    }
    spans
}

/// The spans naming a file: its path, and ` → ` and the destination where it
/// was moved.
fn path_spans(e: &ChangeEntry, env: &PathEnv) -> (spans: Vec<StyledSpan>)
    ensures
        span_views(spans@) == path_views(*e, *env),
{
    let mut spans: Vec<StyledSpan> = Vec::new();
    let shown_path = display_path_for(e.path.as_str(), &e.path_repo_root, env);
    spans.push(StyledSpan { content: shown_path, style: Style::new() });
    match &e.change {
        FileChange::Update { move_path: Some(m), .. } => {
            let mut s = String::new();
            push_char(&mut s, ' ');
            push_char(&mut s, '→');
            push_char(&mut s, ' ');
            let shown_target = display_path_for(m.as_str(), &e.move_repo_root, env);
            push_str_chars(&mut s, shown_target.as_str());
            proof {
                assert(s@ =~= seq![' ', '→', ' '] + shown_target@);
            }
            spans.push(StyledSpan { content: s, style: Style::new() });
        },
        _ => {},
    }
    proof {
        assert(span_views(spans@) =~= path_views(*e, *env));
    }
    spans
}

/// Appends one span.
fn push_span_view(spans: &mut Vec<StyledSpan>, sp: StyledSpan)
    ensures
        span_views(final(spans)@) == span_views(old(spans)@).push((sp.content@, sp.style)),
{
    let ghost v = (sp.content@, sp.style);
    spans.push(sp);
    proof {
        assert(span_views(spans@) =~= span_views(old(spans)@).push(v));
    }
}

/// Moves all spans of `more` to the end of `spans`.
fn extend_spans(spans: &mut Vec<StyledSpan>, more: Vec<StyledSpan>)
    ensures
        span_views(final(spans)@) == span_views(old(spans)@) + span_views(more@),
{
    let mut more = more;
    let ghost m = more@;
    spans.append(&mut more);
    proof {
        assert(span_views(spans@) =~= span_views(old(spans)@) + span_views(m));
    }
}

/// Each row with a leading span: `initial` on the first row, `subsequent`
/// on the others; row styles stay.
pub fn prefix_lines(lines: Vec<StyledLine>, initial: &StyledSpan, subsequent: &StyledSpan) -> (out:
    Vec<StyledLine>)
    ensures
        out@.len() == lines@.len(),
        forall|k: int|
            0 <= k < out@.len() ==> (#[trigger] out@[k]).style == lines@[k].style && span_views(
                out@[k].spans@,
            ) == seq![
                if k == 0 {
                    (initial.content@, initial.style)
                } else {
                    (subsequent.content@, subsequent.style)
                },
            ] + span_views(lines@[k].spans@),
{
    let ghost orig = lines@;
    let mut lines = lines;
    let n = lines.len();
    let mut out: Vec<StyledLine> = Vec::new();
    let mut k: usize = 0;
    while k < n
        invariant
            k <= n,
            n == orig.len(),
            lines@ == orig.skip(k as int),
            out@.len() == k,
            forall|j: int|
                0 <= j < k ==> (#[trigger] out@[j]).style == orig[j].style && span_views(
                    out@[j].spans@,
                ) == seq![
                    if j == 0 {
                        (initial.content@, initial.style)
                    } else {
                        (subsequent.content@, subsequent.style)
                    },
                ] + span_views(orig[j].spans@),
        decreases n - k,
    {
        let line = lines.remove(0);
        proof {
            assert(line == orig[k as int]);
            assert(lines@ =~= orig.skip(k + 1));
        }
        let mut spans: Vec<StyledSpan> = Vec::new();
        if k == 0 {
            spans.push(initial.duplicate());
        } else {
            spans.push(subsequent.duplicate());
        }
        let ghost head = spans@;
        let style = line.style;
        extend_spans(&mut spans, line.spans);
        proof {
            assert(span_views(head) =~= seq![
                if k == 0 {
                    (initial.content@, initial.style)
                } else {
                    (subsequent.content@, subsequent.style)
                },
            ]);
        }
        out.push(StyledLine { spans, style });
        k += 1;
    }
    out
}

/// A row from spans, in the plain style.
fn plain_row(spans: Vec<StyledSpan>) -> (l: StyledLine)
    ensures
        row_view(l) == (span_views(spans@), plain()),
{
    StyledLine::from_spans(spans)
}

/// The first row of the summary block.
fn header_row(entries: &Vec<ChangeEntry>, env: &PathEnv) -> (l: StyledLine)
    ensures
        row_view(l) == (header_views(entries@, *env), plain()),
{
    let mut spans: Vec<StyledSpan> = Vec::new();
    let mut bullet = String::new();
    push_char(&mut bullet, '•');
    push_char(&mut bullet, ' ');
    proof {
        assert(bullet@ =~= seq!['•', ' ']);
    }
    push_span_view(&mut spans, StyledSpan { content: bullet, style: Style::new().with_dim() });
    proof {
        assert(span_views(Seq::<StyledSpan>::empty()) =~= Seq::<(Seq<char>, Style)>::empty());
    }
    if entries.len() == 1 {
        let e = &entries[0];
        let verb = match &e.change {
            FileChange::Add { .. } => String::from_str("Added"),
            FileChange::Delete { .. } => String::from_str("Deleted"),
            FileChange::Update { .. } => String::from_str("Edited"),
        };
        proof {
            reveal_strlit("Added");
            reveal_strlit("Deleted");
            reveal_strlit("Edited");
            assert(verb@ == change_verb(e.change));
        }
        push_span_view(&mut spans, StyledSpan { content: verb, style: Style::new().with_bold() });
        push_span_view(&mut spans, StyledSpan { content: char_string(' '), style: Style::new() });
        extend_spans(&mut spans, path_spans(e, env));
        push_span_view(&mut spans, StyledSpan { content: char_string(' '), style: Style::new() });
        let (added, removed) = line_counts(&e.change);
        extend_spans(&mut spans, render_line_count_summary(added, removed));
        proof {
            let c = change_counts(e.change);
            assert(span_views(spans@) =~= seq![
                sv(seq!['•', ' '], dimmed()),
                sv(change_verb(e.change), bold()),
                sv(seq![' '], plain()),
            ] + path_views(*e, *env) + seq![sv(seq![' '], plain())] + count_views(
                c.0 as nat,
                c.1 as nat,
            ));
            assert(entries@[0] == *e);
        }
    } else {
        let edited = String::from_str("Edited");
        proof {
            reveal_strlit("Edited");
        }
        push_span_view(&mut spans, StyledSpan { content: edited, style: Style::new().with_bold() });
        let mut mid = String::new();
        push_char(&mut mid, ' ');
        push_decimal_chars(&mut mid, entries.len());
        push_char(&mut mid, ' ');
        if entries.len() == 1 {
            push_str_chars(&mut mid, "file");
        } else {
            push_str_chars(&mut mid, "files");
        }
        push_char(&mut mid, ' ');
        proof {
            reveal_strlit("file");
            reveal_strlit("files");
            assert(mid@ =~= seq![' '] + decimal_chars(entries@.len()) + seq![' '] + noun(
                entries@.len(),
            ) + seq![' ']);
        }
        push_span_view(&mut spans, StyledSpan { content: mid, style: Style::new() });
        let (added, removed) = totals(entries);
        extend_spans(&mut spans, render_line_count_summary(added, removed));
        proof {
            reveal_strlit("Edited");
            assert(edited@ =~= seq!['E', 'd', 'i', 't', 'e', 'd']);
            assert(span_views(spans@) =~= seq![
                sv(seq!['•', ' '], dimmed()),
                sv(seq!['E', 'd', 'i', 't', 'e', 'd'], bold()),
                sv(
                    seq![' '] + decimal_chars(entries@.len()) + seq![' '] + noun(entries@.len()) + seq![' '],
                    plain(),
                ),
            ] + count_views(sat(total(entries@, 0)), sat(total(entries@, 1))));
        }
    }
    plain_row(spans)
}

/// The added and removed lines over all entries, each at most `usize::MAX`.
fn totals(entries: &Vec<ChangeEntry>) -> (r: (usize, usize))
    ensures
        r.0 == sat(total(entries@, 0)),
        r.1 == sat(total(entries@, 1)),
{
    let mut a: usize = 0;
    let mut d: usize = 0;
    let mut i: usize = 0;
    while i < entries.len()
        invariant
            i <= entries.len(),
            a == sat(total(entries@.take(i as int), 0)),
            d == sat(total(entries@.take(i as int), 1)),
        decreases entries.len() - i,
    {
        let (x, y) = line_counts(&entries[i].change);
        proof {
            assert(entries@.take(i + 1).drop_last() =~= entries@.take(i as int));
        }
        a = a.saturating_add(x);
        d = d.saturating_add(y);
        i += 1;
    }
    proof {
        assert(entries@.take(entries@.len() as int) =~= entries@);
    }
    (a, d)
}

/// The row naming one file of several.
fn file_header_row(e: &ChangeEntry, env: &PathEnv) -> (l: StyledLine)
    ensures
        row_view(l) == (file_header_views(*e, *env), plain()),
{
    let mut spans: Vec<StyledSpan> = Vec::new();
    let mut lead = String::new();
    push_str_chars(&mut lead, "  └ ");
    proof {
        reveal_strlit("  └ ");
        assert(lead@ =~= seq![' ', ' ', '└', ' ']);
    }
    push_span_view(&mut spans, StyledSpan { content: lead, style: Style::new().with_dim() });
    proof {
        assert(span_views(Seq::<StyledSpan>::empty()) =~= Seq::<(Seq<char>, Style)>::empty());
    }
    extend_spans(&mut spans, path_spans(e, env));
    push_span_view(&mut spans, StyledSpan { content: char_string(' '), style: Style::new() });
    let (added, removed) = line_counts(&e.change);
    extend_spans(&mut spans, render_line_count_summary(added, removed));
    proof {
        assert(span_views(spans@) =~= file_header_views(*e, *env));
    }
    plain_row(spans)
}

/// The summary block of `entries` in their order: a header naming the one
/// file and its line counts, or the number of files and their totals; then
/// each file's diff at `wrap_cols - 4` columns indented by four spaces,
/// under its own header where there are several files, blank rows between.
pub fn render_changes_block(
    entries: &Vec<ChangeEntry>,
    wrap_cols: usize,
    env: &PathEnv,
    ctx: DiffRenderStyleContext,
) -> (rows: Vec<StyledLine>)
    requires
        wrap_cols >= 4,
    ensures
        summary_block(rows@, entries@, *env, wrap_cols as nat, ctx),
{
    let mut out: Vec<StyledLine> = Vec::new();
    out.push(header_row(entries, env));
    let ghost mut parts: Seq<Seq<StyledLine>> = Seq::empty();
    let n = entries.len();
    let mut i: usize = 0;
    let mut indent = String::new();
    push_str_chars(&mut indent, "    ");
    proof {
        reveal_strlit("    ");
        assert(out@.skip(1) =~= concat_rows(parts));
    }
    let indent_span = StyledSpan { content: indent, style: Style::new() };
    while i < n
        invariant
            i <= n,
            n == entries@.len(),
            out@.len() >= 1,
            row_view(out@[0]) == (header_views(entries@, *env), plain()),
            wrap_cols >= 4,
            indent_span.content@ == seq![' ', ' ', ' ', ' '],
            indent_span.style == plain(),
            parts.len() == i,
            out@.skip(1) == concat_rows(parts),
            forall|j: int|
                0 <= j < i ==> entry_rows(
                    #[trigger] parts[j],
                    j,
                    n as nat,
                    entries@[j],
                    *env,
                    wrap_cols as nat,
                    ctx,
                ),
        decreases n - i,
    {
        let e = &entries[i];
        let mut part: Vec<StyledLine> = Vec::new();
        if i > 0 {
            let mut blank: Vec<StyledSpan> = Vec::new();
            blank.push(StyledSpan { content: String::new(), style: Style::new() });
            part.push(plain_row(blank));
        }
        if n != 1 {
            part.push(file_header_row(e, env));
        }
        let ghost head = part@;
        let mut diff_rows: Vec<StyledLine> = Vec::new();
        render_change(&e.change, &mut diff_rows, wrap_cols - 4, ctx);
        let ghost drows = diff_rows@;
        let mut indented = prefix_lines(diff_rows, &indent_span, &indent_span);
        let ghost ind = indented@;
        part.append(&mut indented);
        proof {
            assert(drows.skip(0) =~= drows);
            assert(rows_views(ind) =~= indented_views(drows));
            assert(rows_views(head) =~= (if i > 0 {
                seq![(seq![sv(Seq::<char>::empty(), plain())], plain())]
            } else {
                Seq::empty()
            }) + (if n != 1 {
                seq![(file_header_views(*e, *env), plain())]
            } else {
                Seq::empty()
            })) by {
                if i > 0 {
                    assert(span_views(head[0].spans@) =~= seq![sv(Seq::<char>::empty(), plain())]);
                }
            }
            assert(rows_views(part@) =~= rows_views(head) + rows_views(ind));
            assert(entry_rows(part@, i as int, n as nat, entries@[i as int], *env, wrap_cols as nat, ctx));
        }
        let ghost prev = out@;
        let ghost pv = part@;
        out.append(&mut part);
        proof {
            let old_parts = parts;
            parts = old_parts.push(pv);
            assert(parts.drop_last() =~= old_parts);
            assert(out@.skip(1) =~= prev.skip(1) + pv);
            assert(concat_rows(parts) == concat_rows(parts.drop_last()) + pv);
        }
        i += 1;
    }
    proof {
        assert(summary_block(out@, entries@, *env, wrap_cols as nat, ctx));
    }
    out
}

/// The summary block of a set of changes, files in path order.
pub fn create_diff_summary(
    changes: Vec<ChangeEntry>,
    env: &PathEnv,
    wrap_cols: usize,
    ctx: DiffRenderStyleContext,
) -> (rows: Vec<StyledLine>)
    requires
        wrap_cols >= 4,
    ensures
        exists|sorted: Seq<ChangeEntry>|
            sorted.to_multiset() == changes@.to_multiset() && sorted_by_path(sorted)
                && #[trigger] summary_block(rows@, sorted, *env, wrap_cols as nat, ctx),
{
    let sorted = sort_entries(changes);
    let rows = render_changes_block(&sorted, wrap_cols, env, ctx);
    proof {
        assert(summary_block(rows@, sorted@, *env, wrap_cols as nat, ctx));
    }
    rows
}


/// A set of file changes to show one after the other, each under a row
/// naming it, relative to the session's directories.
pub struct DiffSummary {
    changes: Vec<ChangeEntry>,
    env: PathEnv,
}

/// The row naming a file in a [`DiffSummary`]: its path, a space and its
/// line counts.
pub open spec fn path_line_views(e: ChangeEntry, env: PathEnv) -> Seq<(Seq<char>, Style)> {
    let c = change_counts(e.change);
    seq![sv(shown(e.path@, e.path_repo_root, env), plain()), sv(seq![' '], plain())] + count_views(
        c.0 as nat,
        c.1 as nat,
    )
}

/// The width left for a diff inset by two columns.
pub open spec fn inset_width(width: nat) -> nat {
    if width >= 2 {
        (width - 2) as nat
    } else {
        0
    }
}

/// A blank row.
pub open spec fn blank_view() -> (Seq<(Seq<char>, Style)>, Style) {
    (seq![sv(Seq::<char>::empty(), plain())], plain())
}

/// Rows moved two columns to the right, keeping their styles.
pub open spec fn inset_views(rows: Seq<StyledLine>) -> Seq<(Seq<(Seq<char>, Style)>, Style)> {
    Seq::new(rows.len(), |k: int| (seq![sv(seq![' ', ' '], plain())] + span_views(rows[k].spans@), rows[k].style))
}

/// The rows of entry `i` of a [`DiffSummary`]: a blank row before all but
/// the first, the row naming the file, a blank row, then its diff rendered
/// two columns narrower and moved two columns right.
pub open spec fn listed_entry_rows(
    part: Seq<StyledLine>,
    i: int,
    e: ChangeEntry,
    env: PathEnv,
    width: nat,
    ctx: DiffRenderStyleContext,
) -> bool {
    exists|diff_rows: Seq<StyledLine>|
        #[trigger] rendered(
            diff_rows,
            change_plan(e.change),
            inset_width(width),
            change_number_width(e.change),
            ctx,
        ) && rows_views(part) == (if i > 0 {
            seq![blank_view()]
        } else {
            Seq::empty()
        }) + seq![(path_line_views(e, env), plain()), blank_view()] + inset_views(diff_rows)
}

/// `rows` list `entries` in their order, as a [`DiffSummary`] shows them.
pub open spec fn listed_rows(
    rows: Seq<StyledLine>,
    entries: Seq<ChangeEntry>,
    env: PathEnv,
    width: nat,
    ctx: DiffRenderStyleContext,
) -> bool {
    exists|parts: Seq<Seq<StyledLine>>|
        #![trigger concat_rows(parts)]
        parts.len() == entries.len() && rows == concat_rows(parts) && forall|i: int|
            0 <= i < parts.len() ==> listed_entry_rows(#[trigger] parts[i], i, entries[i], env, width, ctx)
}

impl DiffSummary {
    /// The changes it holds.
    pub closed spec fn entries(&self) -> Seq<ChangeEntry> {
        self.changes@
    }

    /// The directories paths are shown against.
    pub closed spec fn path_env(&self) -> PathEnv {
        self.env
    }

    pub fn new(changes: Vec<ChangeEntry>, env: PathEnv) -> (r: Self)
        ensures
            r.entries() == changes@,
            r.path_env() == env,
    {
        DiffSummary { changes, env }
    }

    /// The rows at `width` columns: the files in path order, each named with
    /// its line counts above its diff.
    pub fn render_rows(self, width: usize, ctx: DiffRenderStyleContext) -> (rows: Vec<StyledLine>)
        ensures
            exists|sorted: Seq<ChangeEntry>|
                sorted.to_multiset() == self.entries().to_multiset() && sorted_by_path(sorted)
                    && #[trigger] listed_rows(rows@, sorted, self.path_env(), width as nat, ctx),
    {
        let env = self.env;
        let entries = sort_entries(self.changes);
        let inner = if width >= 2 {
            width - 2
        } else {
            0
        };
        let mut out: Vec<StyledLine> = Vec::new();
        let ghost mut parts: Seq<Seq<StyledLine>> = Seq::empty();
        let n = entries.len();
        let mut lead = String::new();
        push_str_chars(&mut lead, "  ");
        proof {
            reveal_strlit("  ");
            assert(out@ =~= concat_rows(parts));
        }
        let lead_span = StyledSpan { content: lead, style: Style::new() };
        let mut i: usize = 0;
        while i < n
            invariant
                i <= n,
                n == entries@.len(),
                inner == inset_width(width as nat),
                lead_span.content@ == seq![' ', ' '],
                lead_span.style == plain(),
                parts.len() == i,
                out@ == concat_rows(parts),
                forall|j: int|
                    0 <= j < i ==> listed_entry_rows(#[trigger] parts[j], j, entries@[j], env, width as nat, ctx),
            decreases n - i,
        {
            let e = &entries[i];
            let mut part: Vec<StyledLine> = Vec::new();
            if i > 0 {
                let mut blank: Vec<StyledSpan> = Vec::new();
                blank.push(StyledSpan { content: String::new(), style: Style::new() });
                part.push(plain_row(blank));
            }
            let mut spans: Vec<StyledSpan> = Vec::new();
            let shown_path = display_path_for(e.path.as_str(), &e.path_repo_root, &env);
            push_span_view(&mut spans, StyledSpan { content: shown_path, style: Style::new() });
            proof {
                assert(span_views(Seq::<StyledSpan>::empty()) =~= Seq::<(Seq<char>, Style)>::empty());
            }
            push_span_view(&mut spans, StyledSpan { content: char_string(' '), style: Style::new() });
            let (added, removed) = line_counts(&e.change);
            extend_spans(&mut spans, render_line_count_summary(added, removed));
            proof {
                assert(span_views(spans@) =~= path_line_views(*e, env));
            }
            part.push(plain_row(spans));
            let mut blank2: Vec<StyledSpan> = Vec::new();
            blank2.push(StyledSpan { content: String::new(), style: Style::new() });
            part.push(plain_row(blank2));
            let ghost head = part@;
            let mut diff_rows: Vec<StyledLine> = Vec::new();
            render_change(&e.change, &mut diff_rows, inner, ctx);
            let ghost drows = diff_rows@;
            let mut shifted = prefix_lines(diff_rows, &lead_span, &lead_span);
            let ghost ind = shifted@;
            part.append(&mut shifted);
            proof {
                assert(drows.skip(0) =~= drows);
                assert(rows_views(ind) =~= inset_views(drows));
                assert(rows_views(head) =~= (if i > 0 {
                    seq![blank_view()]
                } else {
                    Seq::empty()
                }) + seq![(path_line_views(*e, env), plain()), blank_view()]) by {
                    if i > 0 {
                        assert(span_views(head[0].spans@) =~= seq![sv(Seq::<char>::empty(), plain())]);
                    }
                    assert(span_views(head[head.len() - 1].spans@) =~= seq![sv(Seq::<char>::empty(), plain())]);
                }
                assert(rows_views(part@) =~= rows_views(head) + rows_views(ind));
                assert(listed_entry_rows(part@, i as int, entries@[i as int], env, width as nat, ctx));
            }
            let ghost prev = out@;
            let ghost pv = part@;
            out.append(&mut part);
            proof {
                let old_parts = parts;
                parts = old_parts.push(pv);
                assert(parts.drop_last() =~= old_parts);
                assert(concat_rows(parts) == concat_rows(parts.drop_last()) + pv);
            }
            i += 1;
        }
        proof {
            assert(listed_rows(out@, entries@, env, width as nat, ctx));
        }
        out
    }
}

} // verus!
