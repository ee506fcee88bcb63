//! Rendering of file changes as numbered diff blocks: added and deleted
//! files line by line, updates hunk by hunk from their unified diff.

use vstd::prelude::*;
use crate::diff_line::{
    continuation_text, laid_out_rows, syntax_view, line_number_width, push_spaces,
    push_wrapped_diff_line_inner_with_theme_and_color_level, span_views, spaces,
};
use crate::diff_theme::{
    dim_style, gutter_style, style_gutter_dim, style_gutter_for, DiffColorLevel, DiffLineType,
    DiffRenderStyleContext, DiffTheme, ResolvedDiffBackgrounds,
};
use crate::style::{Style, StyledLine, StyledSpan};
use crate::text::{chars_of, decimal_chars, lines_of, push_char, starts_with, starts_with_str, string_views, text_lines};

verus! {

/// One line of a parsed hunk.
#[derive(Debug)]
pub struct PatchLine {
    pub kind: DiffLineType,
    /// The line's text, with its line feed where it has one.
    pub text: String,
}

/// One hunk of a parsed unified diff.
#[derive(Debug)]
pub struct PatchHunk {
    /// First line of the hunk in the old file.
    pub old_start: usize,
    /// First line of the hunk in the new file.
    pub new_start: usize,
    pub lines: Vec<PatchLine>,
}

/// A hunk as plain values: its starts and its lines.
pub open spec fn hunk_view(h: PatchHunk) -> (nat, nat, Seq<(DiffLineType, Seq<char>)>) {
    (
        h.old_start as nat,
        h.new_start as nat,
        h.lines@.map_values(|l: PatchLine| (l.kind, l.text@)),
    )
}

/// Hunks as plain values.
pub open spec fn hunks_view(v: Seq<PatchHunk>) -> Seq<(nat, nat, Seq<(DiffLineType, Seq<char>)>)> {
    v.map_values(|h: PatchHunk| hunk_view(h))
}

/// The hunks diffy reads from a unified diff, `None` where it refuses the text.
pub uninterp spec fn parsed_patch(text: Seq<char>) -> Option<
    Seq<(nat, nat, Seq<(DiffLineType, Seq<char>)>)>,
>;

/// An ASCII digit.
pub open spec fn is_digit(c: char) -> bool {
    '0' <= c && c <= '9'
}

/// The length of the run of digits that ends `s`.
pub open spec fn trailing_digits(s: Seq<char>) -> nat
    decreases s.len(),
{
    if s.len() == 0 {
        0
    } else if is_digit(s.last()) {
        trailing_digits(s.drop_last()) + 1
    } else {
        0
    }
}

/// `s` holds no run of ten or more digits.
pub open spec fn short_digit_runs(s: Seq<char>) -> bool
    decreases s.len(),
{
    s.len() == 0 || (short_digit_runs(s.drop_last()) && trailing_digits(s) < 10)
}

/// The first index at or after `k` that holds `@`, or the length.
pub open spec fn first_at(s: Seq<char>, k: nat) -> nat
    decreases s.len() - k,
{
    if k >= s.len() {
        s.len()
    } else if s[k as int] == '@' {
        k
    } else {
        first_at(s, k + 1)
    }
}

proof fn lemma_first_at_bounds(s: Seq<char>, k: nat)
    requires
        k <= s.len(),
    ensures
        k <= first_at(s, k) <= s.len(),
    decreases s.len() - k,
{
    if k < s.len() && s[k as int] != '@' {
        lemma_first_at_bounds(s, k + 1);
    }
}

/// A hunk header (`@@ -a,b +c,d @@ ...`) whose ranges, the text up to the
/// next `@`, hold no number of ten or more digits; other lines pass.
pub open spec fn small_header(line: Seq<char>) -> bool {
    starts_with(line, "@@ "@) ==> short_digit_runs(line.subrange(3, first_at(line, 3) as int))
}

/// Every hunk header of the text has line numbers below 10^9, so that
/// adding a start and a length stays well within `usize`.
pub open spec fn small_hunk_numbers(text: Seq<char>) -> bool {
    forall|i: int| 0 <= i < text_lines(text).len() ==> small_header(#[trigger] text_lines(text)[i])
}

/// The hunks read from a unified diff: what diffy reads, where its hunk
/// headers are small enough to be read safely, else nothing.
pub open spec fn read_patch(text: Seq<char>) -> Option<Seq<(nat, nat, Seq<(DiffLineType, Seq<char>)>)>> {
    if small_hunk_numbers(text) {
        parsed_patch(text)
    } else {
        None
    }
}

fn header_is_small(line: &str) -> (r: bool)
    ensures
        r == small_header(line@),
{
    proof {
        reveal_strlit("@@ ");
    }
    if !starts_with_str(line, "@@ ") {
        return true;
    }
    let cs = chars_of(line);
    let mut k: usize = 3;
    let mut run: usize = 0;
    proof {
        assert(cs@.subrange(3, 3) =~= Seq::<char>::empty());
    }
    while k < cs.len() && cs[k] != '@'
        invariant
            cs@ == line@,
            starts_with(line@, "@@ "@),
            3 <= k <= cs@.len(),
            first_at(cs@, 3) == first_at(cs@, k as nat),
            short_digit_runs(cs@.subrange(3, k as int)),
            run == trailing_digits(cs@.subrange(3, k as int)),
            run < 10,
        decreases cs@.len() - k,
    {
        let c = cs[k];
        proof {
            assert(cs@.subrange(3, k + 1).drop_last() =~= cs@.subrange(3, k as int));
            assert(cs@.subrange(3, k + 1).last() == c);
        }
        if '0' <= c && c <= '9' {
            run = run + 1;
            if run >= 10 {
                proof {
                    assert(is_digit(c));
                    assert(trailing_digits(cs@.subrange(3, k + 1)) == run);
                    assert(first_at(cs@, k as nat) == first_at(cs@, (k + 1) as nat));
                    lemma_first_at_bounds(cs@, (k + 1) as nat);
                    lemma_long_run_stays(cs@, 3, k + 1, first_at(cs@, 3) as int);
                    assert(starts_with(line@, "@@ "@));
                    assert(!small_header(line@));
                }
                return false;
            }
        } else {
            run = 0;
        }
        k = k + 1;
    }
    true
}

/// A text without long digit runs has none in any prefix.
proof fn lemma_short_runs_prefix(t: Seq<char>, m: int)
    requires
        0 <= m <= t.len(),
        short_digit_runs(t),
    ensures
        short_digit_runs(t.take(m)),
    decreases t.len(),
{
    if m < t.len() {
        assert(t.take(m) =~= t.drop_last().take(m));
        lemma_short_runs_prefix(t.drop_last(), m);
    } else {
        assert(t.take(m) =~= t);
    }
}

/// A run of ten digits within the ranges of a header keeps it from being
/// small.
proof fn lemma_long_run_stays(s: Seq<char>, lo: int, k: int, f: int)
    requires
        0 <= lo <= k <= f <= s.len(),
        trailing_digits(s.subrange(lo, k)) >= 10,
    ensures
        !short_digit_runs(s.subrange(lo, f)),
{
    if short_digit_runs(s.subrange(lo, f)) {
        lemma_short_runs_prefix(s.subrange(lo, f), k - lo);
        assert(s.subrange(lo, f).take(k - lo) =~= s.subrange(lo, k));
        assert(s.subrange(lo, k).len() > 0);
    }
}

/// Whether every hunk header of a diff is small.
fn hunk_numbers_small(text: &str) -> (r: bool)
    ensures
        r == small_hunk_numbers(text@),
{
    let lines = lines_of(text);
    let mut i: usize = 0;
    while i < lines.len()
        invariant
            i <= lines@.len(),
            string_views(lines@) == text_lines(text@),
            forall|j: int| 0 <= j < i ==> small_header(#[trigger] text_lines(text@)[j]),
        decreases lines@.len() - i,
    {
        assert(string_views(lines@)[i as int] == lines@[i as int]@);
        if !header_is_small(lines[i].as_str()) {
            return false;
        }
        i = i + 1;
    }
    true
}

/// Reads a unified diff, refusing one whose hunk headers hold numbers of ten
/// or more digits.
pub(crate) fn read_patch_checked(text: &str) -> (r: Option<Vec<PatchHunk>>)
    ensures
        r is None <==> read_patch(text@) is None,
        r matches Some(v) ==> read_patch(text@) == Some(hunks_view(v@)),
{
    if !hunk_numbers_small(text) {
        return None;
    }
    parse_patch(text)
}

/// Parses a unified diff.
///
/// Trusted: wraps `diffy::Patch::from_str`; the result is named
/// `parsed_patch` of the text, hunk by hunk with each line's kind and text.
/// diffy adds each hunk's start and length when it checks that hunks are in
/// order; with every number of a hunk header below 10^9 (`requires`) the
/// sum fits in `usize` and the call does not panic.
#[verifier::external_body]
pub(crate) fn parse_patch(text: &str) -> (r: Option<Vec<PatchHunk>>)
    requires
        small_hunk_numbers(text@),
    ensures
        r is None <==> parsed_patch(text@) is None,
        r matches Some(v) ==> parsed_patch(text@) == Some(hunks_view(v@)),
{
    let patch = diffy::Patch::from_str(text).ok()?;
    Some(patch.hunks().iter().map(|h| PatchHunk {
        old_start: h.old_range().start(),
        new_start: h.new_range().start(),
        lines: h.lines().iter().map(|l| match l {
            diffy::Line::Context(t) => PatchLine { kind: DiffLineType::Context, text: t.to_string() },
            diffy::Line::Delete(t) => PatchLine { kind: DiffLineType::Delete, text: t.to_string() },
            diffy::Line::Insert(t) => PatchLine { kind: DiffLineType::Insert, text: t.to_string() },
        }).collect(),
    }).collect())
}

/// `n`, or `usize::MAX` where it is larger.
pub open spec fn sat(n: nat) -> nat {
    if n <= usize::MAX {
        n
    } else {
        usize::MAX as nat
    }
}

/// How many lines of `lines` are of kind `k`.
pub open spec fn count_kind(lines: Seq<(DiffLineType, Seq<char>)>, k: DiffLineType) -> nat
    decreases lines.len(),
{
    if lines.len() == 0 {
        0
    } else {
        count_kind(lines.drop_last(), k) + if lines.last().0 == k {
            1nat
        } else {
            0nat
        }
    }
}

/// How many lines of all hunks are of kind `k`.
pub open spec fn hunks_count(hunks: Seq<(nat, nat, Seq<(DiffLineType, Seq<char>)>)>, k: DiffLineType) -> nat
    decreases hunks.len(),
{
    if hunks.len() == 0 {
        0
    } else {
        hunks_count(hunks.drop_last(), k) + count_kind(hunks.last().2, k)
    }
}

/// Counts the inserted and deleted lines of parsed hunks.
pub fn count_add_remove(hunks: &[PatchHunk]) -> (r: (usize, usize))
    ensures
        r.0 == sat(hunks_count(hunks_view(hunks@), DiffLineType::Insert)),
        r.1 == sat(hunks_count(hunks_view(hunks@), DiffLineType::Delete)),
{
    let mut added: usize = 0;
    let mut removed: usize = 0;
    let mut i: usize = 0;
    while i < hunks.len()
        invariant
            i <= hunks.len(),
            added == sat(hunks_count(hunks_view(hunks@.take(i as int)), DiffLineType::Insert)),
            removed == sat(hunks_count(hunks_view(hunks@.take(i as int)), DiffLineType::Delete)),
        decreases hunks.len() - i,
    {
        let lines = &hunks[i].lines;
        let ghost lv = hunk_view(hunks@[i as int]).2;
        let ghost before_a = hunks_count(hunks_view(hunks@.take(i as int)), DiffLineType::Insert);
        let ghost before_d = hunks_count(hunks_view(hunks@.take(i as int)), DiffLineType::Delete);
        let mut j: usize = 0;
        while j < lines.len()
            invariant
                j <= lines.len(),
                lv == lines@.map_values(|l: PatchLine| (l.kind, l.text@)),
                added == sat(before_a + count_kind(lv.take(j as int), DiffLineType::Insert)),
                removed == sat(before_d + count_kind(lv.take(j as int), DiffLineType::Delete)),
            decreases lines.len() - j,
        {
            proof {
                assert(lv.take(j + 1).drop_last() =~= lv.take(j as int));
            }
            match lines[j].kind {
                DiffLineType::Insert => {
                    added = added.saturating_add(1);
                },
                DiffLineType::Delete => {
                    removed = removed.saturating_add(1);
                },
                DiffLineType::Context => {},
            }
            j += 1;
        }
        proof {
            assert(lv.take(lv.len() as int) =~= lv);
            assert(hunks_view(hunks@.take(i + 1)).drop_last() =~= hunks_view(hunks@.take(i as int)));
        }
        i += 1;
    }
    proof {
        assert(hunks@.take(hunks@.len() as int) =~= hunks@);
    }
    (added, removed)
}

/// The inserted and deleted line counts of a unified diff, both zero where
/// it does not parse.
pub fn calculate_add_remove_from_diff(diff: &str) -> (r: (usize, usize))
    ensures
        r == (match read_patch(diff@) {
            Some(h) => (
                sat(hunks_count(h, DiffLineType::Insert)) as usize,
                sat(hunks_count(h, DiffLineType::Delete)) as usize,
            ),
            None => (0usize, 0usize),
        }),
{
    match read_patch_checked(diff) {
        Some(hunks) => count_add_remove(hunks.as_slice()),
        None => (0, 0),
    }
}

/// A change to one file.
#[derive(Debug)]
pub enum FileChange {
    Add { content: String },
    Delete { content: String },
    Update { unified_diff: String, move_path: Option<String> },
}

/// The added and removed line counts of a change.
pub open spec fn change_counts(change: FileChange) -> (usize, usize) {
    match change {
        FileChange::Add { content } => (text_lines(content@).len() as usize, 0usize),
        FileChange::Delete { content } => (0usize, text_lines(content@).len() as usize),
        FileChange::Update { unified_diff, .. } => match read_patch(unified_diff@) {
            Some(h) => (
                sat(hunks_count(h, DiffLineType::Insert)) as usize,
                sat(hunks_count(h, DiffLineType::Delete)) as usize,
            ),
            None => (0usize, 0usize),
        },
    }
}

/// Lines added and removed by a change: every line of an added or deleted
/// file, the `+` and `-` lines of an update.
pub fn line_counts(change: &FileChange) -> (r: (usize, usize))
    ensures
        r == change_counts(*change),
{
    match change {
        FileChange::Add { content } => {
            let lines = lines_of(content.as_str());
            proof {
                assert(string_views(lines@).len() == lines@.len());
            }
            (lines.len(), 0)
        },
        FileChange::Delete { content } => {
            let lines = lines_of(content.as_str());
            proof {
                assert(string_views(lines@).len() == lines@.len());
            }
            (0, lines.len())
        },
        FileChange::Update { unified_diff, .. } => calculate_add_remove_from_diff(
            unified_diff.as_str(),
        ),
    }
}

/// A row of a rendered change: a separator between hunks, or a numbered
/// diff line.
pub enum PlannedRow {
    Separator,
    Line { number: nat, kind: DiffLineType, text: Seq<char> },
}

/// `s` without its trailing line feeds.
pub open spec fn trim_newlines(s: Seq<char>) -> Seq<char>
    decreases s.len(),
{
    if s.len() > 0 && s.last() == '\n' {
        trim_newlines(s.drop_last())
    } else {
        s
    }
}

/// The rows of an added or deleted file: each line, numbered from 1.
pub open spec fn lines_plan(lines: Seq<Seq<char>>, kind: DiffLineType) -> Seq<PlannedRow> {
    Seq::new(
        lines.len(),
        |i: int| PlannedRow::Line { number: (i + 1) as nat, kind, text: lines[i] },
    )
}

/// The lines of a hunk that count in the old file (all but inserted ones).
pub open spec fn old_count(lines: Seq<(DiffLineType, Seq<char>)>) -> nat {
    count_kind(lines, DiffLineType::Delete) + count_kind(lines, DiffLineType::Context)
}

/// The lines of a hunk that count in the new file (all but deleted ones).
pub open spec fn new_count(lines: Seq<(DiffLineType, Seq<char>)>) -> nat {
    count_kind(lines, DiffLineType::Insert) + count_kind(lines, DiffLineType::Context)
}

/// The number shown for line `j` of a hunk: its old line number where it
/// was deleted, its new one otherwise.
pub open spec fn hunk_line_number(h: (nat, nat, Seq<(DiffLineType, Seq<char>)>), j: int) -> nat {
    if h.2[j].0 == DiffLineType::Delete {
        sat(h.0 + old_count(h.2.take(j)))
    } else {
        sat(h.1 + new_count(h.2.take(j)))
    }
}

/// The rows of one hunk.
pub open spec fn hunk_plan(h: (nat, nat, Seq<(DiffLineType, Seq<char>)>)) -> Seq<PlannedRow> {
    Seq::new(
        h.2.len(),
        |j: int| PlannedRow::Line {
            number: hunk_line_number(h, j),
            kind: h.2[j].0,
            text: trim_newlines(h.2[j].1),
        },
    )
}

/// Every line of a hunk is inserted, deleted or context.
proof fn lemma_count_kinds(lines: Seq<(DiffLineType, Seq<char>)>)
    ensures
        count_kind(lines, DiffLineType::Insert) + count_kind(lines, DiffLineType::Delete)
            + count_kind(lines, DiffLineType::Context) == lines.len(),
    decreases lines.len(),
{
    if lines.len() > 0 {
        lemma_count_kinds(lines.drop_last());
    }
}

/// The lines of `lines` that are not of kind `k`.
pub open spec fn lines_other_than(lines: Seq<(DiffLineType, Seq<char>)>, k: DiffLineType) -> nat {
    (lines.len() - count_kind(lines, k)) as nat
}

/// How the lines of a hunk are numbered: a deleted line by its line in the
/// old file, the hunk's old start plus the lines before it that are not
/// inserted; any other line (inserted or context) by its line in the new
/// file, the hunk's new start plus the lines before it that are not
/// deleted.
pub proof fn lemma_hunk_line_numbers(h: (nat, nat, Seq<(DiffLineType, Seq<char>)>), j: int)
    requires
        0 <= j < h.2.len(),
    ensures
        hunk_plan(h)[j] is Line,
        hunk_plan(h)[j]->kind == h.2[j].0,
        hunk_plan(h)[j]->text == trim_newlines(h.2[j].1),
        h.2[j].0 == DiffLineType::Delete ==> hunk_plan(h)[j]->number == sat(
            h.0 + lines_other_than(h.2.take(j), DiffLineType::Insert),
        ),
        h.2[j].0 != DiffLineType::Delete ==> hunk_plan(h)[j]->number == sat(
            h.1 + lines_other_than(h.2.take(j), DiffLineType::Delete),
        ),
{
    lemma_count_kinds(h.2.take(j));
}

/// An added file shows every line inserted and a deleted file every line
/// deleted, in order, the first numbered 1 and each next one more.
pub proof fn lemma_whole_file_rows(lines: Seq<Seq<char>>, kind: DiffLineType, i: int)
    requires
        0 <= i < lines.len(),
    ensures
        lines_plan(lines, kind).len() == lines.len(),
        lines_plan(lines, kind)[i] is Line,
        lines_plan(lines, kind)[i]->kind == kind,
        lines_plan(lines, kind)[i]->text == lines[i],
        i == 0 ==> lines_plan(lines, kind)[i]->number == 1,
        i > 0 ==> lines_plan(lines, kind)[i]->number == lines_plan(lines, kind)[i - 1]->number + 1,
{
}

/// Two lines of a hunk in a row that are both in the new file (inserted or
/// context) get numbers one apart, as long as the numbers fit.
pub proof fn lemma_new_file_lines_consecutive(h: (nat, nat, Seq<(DiffLineType, Seq<char>)>), j: int)
    requires
        0 <= j,
        j + 1 < h.2.len(),
        h.2[j].0 != DiffLineType::Delete,
        h.2[j + 1].0 != DiffLineType::Delete,
        h.1 + h.2.len() <= usize::MAX,
    ensures
        hunk_plan(h)[j + 1]->number == hunk_plan(h)[j]->number + 1,
{
    lemma_hunk_line_numbers(h, j);
    lemma_hunk_line_numbers(h, j + 1);
    lemma_count_kinds(h.2.take(j));
    assert(h.2.take(j + 1).drop_last() =~= h.2.take(j));
    assert(h.2.take(j + 1).last() == h.2[j]);
}

/// The rows of an update: its hunks, a separator between two.
pub open spec fn update_plan(hunks: Seq<(nat, nat, Seq<(DiffLineType, Seq<char>)>)>) -> Seq<PlannedRow>
    decreases hunks.len(),
{
    if hunks.len() == 0 {
        Seq::empty()
    } else if hunks.len() == 1 {
        hunk_plan(hunks[0])
    } else {
        update_plan(hunks.drop_last()).push(PlannedRow::Separator) + hunk_plan(hunks.last())
    }
}

/// The largest line number of a plan, 0 for none.
pub open spec fn max_number(plan: Seq<PlannedRow>) -> nat
    decreases plan.len(),
{
    if plan.len() == 0 {
        0
    } else {
        let m = max_number(plan.drop_last());
        match plan.last() {
            PlannedRow::Line { number, .. } => if number > m {
                number
            } else {
                m
            },
            PlannedRow::Separator => m,
        }
    }
}

/// The rows of a change.
pub open spec fn change_plan(change: FileChange) -> Seq<PlannedRow> {
    match change {
        FileChange::Add { content } => lines_plan(text_lines(content@), DiffLineType::Insert),
        FileChange::Delete { content } => lines_plan(text_lines(content@), DiffLineType::Delete),
        FileChange::Update { unified_diff, .. } => match read_patch(unified_diff@) {
            Some(h) => update_plan(h),
            None => Seq::empty(),
        },
    }
}

/// The width of the line numbers of a change.
pub open spec fn change_number_width(change: FileChange) -> nat {
    match change {
        FileChange::Add { content } => decimal_chars(text_lines(content@).len()).len(),
        FileChange::Delete { content } => decimal_chars(text_lines(content@).len()).len(),
        FileChange::Update { .. } => decimal_chars(max_number(change_plan(change))).len(),
    }
}

/// The separator row between two hunks: blank gutter, then a dimmed `⋮`.
pub open spec fn separator_row(row: StyledLine, lnw: nat, theme: DiffTheme, level: DiffColorLevel) -> bool {
    let gw: nat = if lnw == 0 {
        1
    } else {
        lnw
    };
    &&& row.style == Style::plain()
    &&& span_views(row.spans@) == seq![
        (spaces(gw).push(' '), gutter_style(DiffLineType::Context, theme, level)),
        (seq!['⋮'], dim_style()),
    ]
}

/// `rows` render the planned row `p`.
pub open spec fn renders_one(
    rows: Seq<StyledLine>,
    p: PlannedRow,
    width: nat,
    lnw: nat,
    ctx: DiffRenderStyleContext,
) -> bool {
    match p {
        PlannedRow::Separator => rows.len() == 1 && separator_row(rows[0], lnw, ctx.theme, ctx.color_level),
        PlannedRow::Line { number, kind, text } => exists|chunks: Seq<Vec<StyledSpan>>, body: Seq<StyledSpan>|
            #[trigger] laid_out_rows(
                rows,
                chunks,
                body,
                number,
                kind,
                text,
                width,
                lnw,
                None,
                ctx.theme,
                ctx.color_level,
                ctx.diff_backgrounds,
            ),
    }
}

/// Row groups one after the other.
pub open spec fn flatten(groups: Seq<Seq<StyledLine>>) -> Seq<StyledLine>
    decreases groups.len(),
{
    if groups.len() == 0 {
        Seq::empty()
    } else {
        flatten(groups.drop_last()) + groups.last()
    }
}

/// Each group renders the planned row of the same index.
pub open spec fn renders_groups(
    groups: Seq<Seq<StyledLine>>,
    plan: Seq<PlannedRow>,
    width: nat,
    lnw: nat,
    ctx: DiffRenderStyleContext,
) -> bool {
    &&& groups.len() == plan.len()
    &&& forall|i: int| 0 <= i < plan.len() ==> renders_one(#[trigger] groups[i], plan[i], width, lnw, ctx)
}

/// `rows` render the planned rows of `plan`, one after the other.
pub open spec fn rendered(
    rows: Seq<StyledLine>,
    plan: Seq<PlannedRow>,
    width: nat,
    lnw: nat,
    ctx: DiffRenderStyleContext,
) -> bool {
    exists|groups: Seq<Seq<StyledLine>>|
        #[trigger] renders_groups(groups, plan, width, lnw, ctx) && flatten(groups) == rows
}

/// Nothing renders the empty plan.
proof fn lemma_rendered_empty(width: nat, lnw: nat, ctx: DiffRenderStyleContext)
    ensures
        rendered(Seq::empty(), Seq::empty(), width, lnw, ctx),
{
    let g = Seq::<Seq<StyledLine>>::empty();
    assert(renders_groups(g, Seq::empty(), width, lnw, ctx));
    assert(flatten(g) =~= Seq::<StyledLine>::empty());
}

/// Rendering one more planned row extends a rendering.
proof fn lemma_rendered_push(
    rows: Seq<StyledLine>,
    plan: Seq<PlannedRow>,
    more: Seq<StyledLine>,
    p: PlannedRow,
    width: nat,
    lnw: nat,
    ctx: DiffRenderStyleContext,
)
    requires
        rendered(rows, plan, width, lnw, ctx),
        renders_one(more, p, width, lnw, ctx),
    ensures
        rendered(rows + more, plan.push(p), width, lnw, ctx),
{
    let groups = choose|groups: Seq<Seq<StyledLine>>|
        #[trigger] renders_groups(groups, plan, width, lnw, ctx) && flatten(groups) == rows;
    let g2 = groups.push(more);
    assert(g2.drop_last() =~= groups);
    assert forall|i: int| 0 <= i < plan.push(p).len() implies renders_one(
        #[trigger] g2[i],
        plan.push(p)[i],
        width,
        lnw,
        ctx,
    ) by {
        if i < plan.len() {
            assert(g2[i] == groups[i]);
        }
    }
    assert(renders_groups(g2, plan.push(p), width, lnw, ctx));
    assert(flatten(g2) == rows + more);
}

/// Renders one numbered diff line onto `out`.
fn render_line(
    out: &mut Vec<StyledLine>,
    number: usize,
    kind: DiffLineType,
    text: &str,
    width: usize,
    lnw: usize,
    ctx: DiffRenderStyleContext,
    Ghost(plan): Ghost<Seq<PlannedRow>>,
    Ghost(start): Ghost<nat>,
)
    requires
        lnw <= 20,
        start <= old(out)@.len(),
        rendered(old(out)@.skip(start as int), plan, width as nat, lnw as nat, ctx),
    ensures
        final(out)@.len() >= old(out)@.len(),
        final(out)@.take(old(out)@.len() as int) == old(out)@,
        rendered(
            final(out)@.skip(start as int),
            plan.push(PlannedRow::Line { number: number as nat, kind, text: text@ }),
            width as nat,
            lnw as nat,
            ctx,
        ),
{
    let mut rows = push_wrapped_diff_line_inner_with_theme_and_color_level(
        number,
        kind,
        text,
        width,
        lnw,
        None,
        ctx.theme,
        ctx.color_level,
        ctx.diff_backgrounds,
    );
    let ghost more = rows@;
    let ghost before = out@;
    proof {
        let p = PlannedRow::Line { number: number as nat, kind, text: text@ };
        let none: Option<&[StyledSpan]> = None;
        assert(syntax_view(none) == None::<Seq<StyledSpan>>);
        let (c, b) = choose|c: Seq<Vec<StyledSpan>>, b: Seq<StyledSpan>|
            laid_out_rows(
                more,
                c,
                b,
                number as nat,
                kind,
                text@,
                width as nat,
                lnw as nat,
                syntax_view(none),
                ctx.theme,
                ctx.color_level,
                ctx.diff_backgrounds,
            );
        assert(laid_out_rows(
            more,
            c,
            b,
            number as nat,
            kind,
            text@,
            width as nat,
            lnw as nat,
            None,
            ctx.theme,
            ctx.color_level,
            ctx.diff_backgrounds,
        ));
        assert(exists|c2: Seq<Vec<StyledSpan>>, b2: Seq<StyledSpan>|
            #[trigger] laid_out_rows(
                more,
                c2,
                b2,
                number as nat,
                kind,
                text@,
                width as nat,
                lnw as nat,
                None,
                ctx.theme,
                ctx.color_level,
                ctx.diff_backgrounds,
            ));
        assert(p->number == number as nat && p->kind == kind && p->text == text@);
        assert(renders_one(more, p, width as nat, lnw as nat, ctx));
        lemma_rendered_push(before.skip(start as int), plan, more, p, width as nat, lnw as nat, ctx);
    }
    out.append(&mut rows);
    proof {
        assert(out@ =~= before + more);
        assert(out@.skip(start as int) =~= before.skip(start as int) + more);
        assert(out@.take(before.len() as int) =~= before);
    }
}

/// Renders the separator between two hunks onto `out`.
fn render_separator(
    out: &mut Vec<StyledLine>,
    lnw: usize,
    width: usize,
    ctx: DiffRenderStyleContext,
    Ghost(plan): Ghost<Seq<PlannedRow>>,
    Ghost(start): Ghost<nat>,
)
    requires
        lnw <= 20,
        start <= old(out)@.len(),
        rendered(old(out)@.skip(start as int), plan, width as nat, lnw as nat, ctx),
    ensures
        final(out)@.len() >= old(out)@.len(),
        final(out)@.take(old(out)@.len() as int) == old(out)@,
        rendered(
            final(out)@.skip(start as int),
            plan.push(PlannedRow::Separator),
            width as nat,
            lnw as nat,
            ctx,
        ),
{
    let gw: usize = if lnw == 0 {
        1
    } else {
        lnw
    };
    let mut spacer = String::new();
    push_spaces(&mut spacer, gw);
    push_char(&mut spacer, ' ');
    let mut dots = String::new();
    push_char(&mut dots, '⋮');
    let mut spans: Vec<StyledSpan> = Vec::new();
    spans.push(
        StyledSpan {
            content: spacer,
            style: style_gutter_for(DiffLineType::Context, ctx.theme, ctx.color_level),
        },
    );
    spans.push(StyledSpan { content: dots, style: style_gutter_dim() });
    let row = StyledLine::from_spans(spans);
    let ghost before = out@;
    proof {
        assert(span_views(row.spans@) =~= seq![
            (spaces(gw as nat).push(' '), gutter_style(DiffLineType::Context, ctx.theme, ctx.color_level)),
            (seq!['⋮'], dim_style()),
        ]);
        assert(renders_one(seq![row], PlannedRow::Separator, width as nat, lnw as nat, ctx));
        lemma_rendered_push(
            before.skip(start as int),
            plan,
            seq![row],
            PlannedRow::Separator,
            width as nat,
            lnw as nat,
            ctx,
        );
    }
    out.push(row);
    proof {
        assert(out@.skip(start as int) =~= before.skip(start as int) + seq![row]);
        assert(out@.take(before.len() as int) =~= before);
    }
}

/// `text` without its trailing line feeds.
pub fn trim_end_newlines(text: &str) -> (r: String)
    ensures
        r@ == trim_newlines(text@),
{
    let v = crate::text::chars_of(text);
    let mut end = v.len();
    proof {
        assert(v@.take(v@.len() as int) =~= v@);
    }
    while end > 0 && v[end - 1] == '\n'
        invariant
            end <= v.len(),
            trim_newlines(v@) == trim_newlines(v@.take(end as int)),
        decreases end,
    {
        proof {
            assert(v@.take(end as int).drop_last() =~= v@.take(end - 1));
        }
        end -= 1;
    }
    proof {
        assert(v@.subrange(0, end as int) =~= v@.take(end as int));
    }
    crate::text::string_of(&v.as_slice()[0..end])
}

/// The plan of an update, hunk by hunk.
proof fn lemma_update_plan_step(hv: Seq<(nat, nat, Seq<(DiffLineType, Seq<char>)>)>, hi: int)
    requires
        0 <= hi < hv.len(),
    ensures
        update_plan(hv.take(hi + 1)) == (if hi == 0 {
            Seq::<PlannedRow>::empty()
        } else {
            update_plan(hv.take(hi)).push(PlannedRow::Separator)
        }) + hunk_plan(hv[hi]),
{
    if hi == 0 {
        assert(hv.take(1)[0] == hv[0]);
        assert(Seq::<PlannedRow>::empty() + hunk_plan(hv[0]) =~= hunk_plan(hv[0]));
    } else {
        assert(hv.take(hi + 1).drop_last() =~= hv.take(hi));
        assert(hv.take(hi + 1).last() == hv[hi]);
    }
}

/// The number of a hunk's line, read off the counters.
proof fn lemma_count_step(lines: Seq<(DiffLineType, Seq<char>)>, j: int)
    requires
        0 <= j < lines.len(),
    ensures
        old_count(lines.take(j + 1)) == old_count(lines.take(j)) + if lines[j].0
            == DiffLineType::Insert {
            0nat
        } else {
            1nat
        },
        new_count(lines.take(j + 1)) == new_count(lines.take(j)) + if lines[j].0
            == DiffLineType::Delete {
            0nat
        } else {
            1nat
        },
{
    assert(lines.take(j + 1).drop_last() =~= lines.take(j));
    assert(lines.take(j + 1).last() == lines[j]);
}

/// The largest line number an update shows.
pub fn max_line_number(hunks: &Vec<PatchHunk>) -> (m: usize)
    ensures
        m == max_number(update_plan(hunks_view(hunks@))),
{
    let ghost hv = hunks_view(hunks@);
    let ghost mut acc: Seq<PlannedRow> = Seq::empty();
    let mut m: usize = 0;
    let mut hi: usize = 0;
    while hi < hunks.len()
        invariant
            hi <= hunks.len(),
            hv == hunks_view(hunks@),
            acc == update_plan(hv.take(hi as int)),
            m == max_number(acc),
        decreases hunks.len() - hi,
    {
        let h = &hunks[hi];
        let ghost hh = hv[hi as int];
        proof {
            if hi > 0 {
                acc = acc.push(PlannedRow::Separator);
                assert(acc.drop_last() =~= update_plan(hv.take(hi as int)));
            }
        }
        let ghost base = acc;
        let mut old_ln = h.old_start;
        let mut new_ln = h.new_start;
        let mut j: usize = 0;
        while j < h.lines.len()
            invariant
                hh == hunk_view(*h),
                j <= h.lines.len(),
                acc == base + hunk_plan(hh).take(j as int),
                m == max_number(acc),
                old_ln == sat(hh.0 + old_count(hh.2.take(j as int))),
                new_ln == sat(hh.1 + new_count(hh.2.take(j as int))),
            decreases h.lines.len() - j,
        {
            let kind = h.lines[j].kind;
            let number = if kind == DiffLineType::Delete {
                old_ln
            } else {
                new_ln
            };
            proof {
                assert(hh.2[j as int].0 == kind);
                let row = hunk_plan(hh)[j as int];
                assert(row == PlannedRow::Line {
                    number: number as nat,
                    kind,
                    text: trim_newlines(hh.2[j as int].1),
                });
                assert(hunk_plan(hh).take(j + 1) =~= hunk_plan(hh).take(j as int).push(row));
                acc = acc.push(row);
                assert(acc.drop_last() =~= base + hunk_plan(hh).take(j as int));
                lemma_count_step(hh.2, j as int);
            }
            if number > m {
                m = number;
            }
            if kind == DiffLineType::Insert {
                new_ln = new_ln.saturating_add(1);
            } else if kind == DiffLineType::Delete {
                old_ln = old_ln.saturating_add(1);
            } else {
                old_ln = old_ln.saturating_add(1);
                new_ln = new_ln.saturating_add(1);
            }
            j += 1;
        }
        proof {
            assert(hunk_plan(hh).take(hh.2.len() as int) =~= hunk_plan(hh));
            lemma_update_plan_step(hv, hi as int);
            if hi == 0 {
                assert(acc =~= update_plan(hv.take(1)));
            } else {
                assert(acc =~= update_plan(hv.take(hi + 1)));
            }
        }
        hi += 1;
    }
    proof {
        assert(hv.take(hv.len() as int) =~= hv);
    }
    m
}

/// Renders the lines of an added or deleted file, numbered from 1.
fn render_file_lines(
    content: &String,
    kind: DiffLineType,
    out: &mut Vec<StyledLine>,
    width: usize,
    ctx: DiffRenderStyleContext,
)
    ensures
        final(out)@.take(old(out)@.len() as int) == old(out)@,
        rendered(
            final(out)@.skip(old(out)@.len() as int),
            lines_plan(text_lines(content@), kind),
            width as nat,
            decimal_chars(text_lines(content@).len()).len(),
            ctx,
        ),
{
    let ghost start = out@.len();
    let ghost before = out@;
    let lines = lines_of(content.as_str());
    let ghost plan = lines_plan(text_lines(content@), kind);
    let lnw = line_number_width(lines.len());
    proof {
        assert(string_views(lines@).len() == lines@.len());
        lemma_rendered_empty(width as nat, lnw as nat, ctx);
        assert(out@.skip(start as int) =~= Seq::<StyledLine>::empty());
        assert(plan.take(0) =~= Seq::<PlannedRow>::empty());
        assert(out@.take(start as int) =~= before);
    }
    let mut i: usize = 0;
    while i < lines.len()
        invariant
            i <= lines.len(),
            string_views(lines@) == text_lines(content@),
            plan == lines_plan(text_lines(content@), kind),
            lnw == decimal_chars(lines@.len() as nat).len(),
            lnw <= 20,
            start <= out@.len(),
            out@.take(start as int) == before,
            rendered(out@.skip(start as int), plan.take(i as int), width as nat, lnw as nat, ctx),
        decreases lines.len() - i,
    {
        let ghost prev = out@;
        render_line(
            out,
            i + 1,
            kind,
            lines[i].as_str(),
            width,
            lnw,
            ctx,
            Ghost(plan.take(i as int)),
            Ghost(start),
        );
        proof {
            assert(string_views(lines@)[i as int] == lines@[i as int]@);
            assert(plan.take(i as int).push(
                PlannedRow::Line { number: (i + 1) as nat, kind, text: lines@[i as int]@ },
            ) =~= plan.take(i + 1));
            assert(out@.take(start as int) =~= out@.take(prev.len() as int).take(start as int));
        }
        i += 1;
    }
    proof {
        assert(plan.take(lines@.len() as int) =~= plan);
    }
}

/// Renders the hunks of an update: a separator between two hunks, each line
/// numbered in the file it belongs to.
fn render_hunks(hunks: &Vec<PatchHunk>, out: &mut Vec<StyledLine>, width: usize, ctx: DiffRenderStyleContext)
    ensures
        final(out)@.take(old(out)@.len() as int) == old(out)@,
        rendered(
            final(out)@.skip(old(out)@.len() as int),
            update_plan(hunks_view(hunks@)),
            width as nat,
            decimal_chars(max_number(update_plan(hunks_view(hunks@)))).len(),
            ctx,
        ),
{
    let ghost start = out@.len();
    let ghost before = out@;
    let ghost hv = hunks_view(hunks@);
    let lnw = line_number_width(max_line_number(hunks));
    let ghost mut acc: Seq<PlannedRow> = Seq::empty();
    proof {
        lemma_rendered_empty(width as nat, lnw as nat, ctx);
        assert(out@.skip(start as int) =~= Seq::<StyledLine>::empty());
        assert(out@.take(start as int) =~= before);
    }
    let mut hi: usize = 0;
    while hi < hunks.len()
        invariant
            hi <= hunks.len(),
            hv == hunks_view(hunks@),
            acc == update_plan(hv.take(hi as int)),
            lnw <= 20,
            start <= out@.len(),
            out@.take(start as int) == before,
            rendered(out@.skip(start as int), acc, width as nat, lnw as nat, ctx),
        decreases hunks.len() - hi,
    {
        let h = &hunks[hi];
        let ghost hh = hv[hi as int];
        if hi > 0 {
            let ghost prev = out@;
            render_separator(out, lnw, width, ctx, Ghost(acc), Ghost(start));
            proof {
                acc = acc.push(PlannedRow::Separator);
                assert(out@.take(start as int) =~= out@.take(prev.len() as int).take(start as int));
            }
        }
        let ghost base = acc;
        let mut old_ln = h.old_start;
        let mut new_ln = h.new_start;
        let mut j: usize = 0;
        while j < h.lines.len()
            invariant
                hh == hunk_view(*h),
                j <= h.lines.len(),
                acc == base + hunk_plan(hh).take(j as int),
                old_ln == sat(hh.0 + old_count(hh.2.take(j as int))),
                new_ln == sat(hh.1 + new_count(hh.2.take(j as int))),
                lnw <= 20,
                start <= out@.len(),
                out@.take(start as int) == before,
                rendered(out@.skip(start as int), acc, width as nat, lnw as nat, ctx),
            decreases h.lines.len() - j,
        {
            let kind = h.lines[j].kind;
            let number = if kind == DiffLineType::Delete {
                old_ln
            } else {
                new_ln
            };
            let text = trim_end_newlines(h.lines[j].text.as_str());
            let ghost prev = out@;
            render_line(out, number, kind, text.as_str(), width, lnw, ctx, Ghost(acc), Ghost(start));
            proof {
                assert(hh.2[j as int] == (kind, h.lines@[j as int].text@));
                let row = hunk_plan(hh)[j as int];
                assert(row == PlannedRow::Line { number: number as nat, kind, text: text@ });
                assert(hunk_plan(hh).take(j + 1) =~= hunk_plan(hh).take(j as int).push(row));
                acc = acc.push(row);
                assert(acc =~= base + hunk_plan(hh).take(j + 1));
                lemma_count_step(hh.2, j as int);
                assert(out@.take(start as int) =~= out@.take(prev.len() as int).take(start as int));
            }
            if kind == DiffLineType::Insert {
                new_ln = new_ln.saturating_add(1);
            } else if kind == DiffLineType::Delete {
                old_ln = old_ln.saturating_add(1);
            } else {
                old_ln = old_ln.saturating_add(1);
                new_ln = new_ln.saturating_add(1);
            }
            j += 1;
        }
        proof {
            assert(hunk_plan(hh).take(hh.2.len() as int) =~= hunk_plan(hh));
            lemma_update_plan_step(hv, hi as int);
            if hi == 0 {
                assert(acc =~= update_plan(hv.take(1)));
            } else {
                assert(acc =~= update_plan(hv.take(hi + 1)));
            }
        }
        hi += 1;
    }
    proof {
        assert(hv.take(hv.len() as int) =~= hv);
    }
}

/// Renders a change as diff rows wrapped to `width` columns: every line of
/// an added file as an insertion and of a deleted file as a deletion,
/// numbered from 1; an update hunk by hunk, each line numbered in the file it
/// belongs to, with a separator between hunks, and nothing when its diff
/// does not parse. Line numbers are right-aligned to the widest among them.
pub fn render_change(change: &FileChange, out: &mut Vec<StyledLine>, width: usize, ctx: DiffRenderStyleContext)
    ensures
        final(out)@.take(old(out)@.len() as int) == old(out)@,
        rendered(
            final(out)@.skip(old(out)@.len() as int),
            change_plan(*change),
            width as nat,
            change_number_width(*change),
            ctx,
        ),
{
    match change {
        FileChange::Add { content } => render_file_lines(content, DiffLineType::Insert, out, width, ctx),
        FileChange::Delete { content } => render_file_lines(content, DiffLineType::Delete, out, width, ctx),
        FileChange::Update { unified_diff, .. } => {
            match read_patch_checked(unified_diff.as_str()) {
                Some(hunks) => render_hunks(&hunks, out, width, ctx),
                None => {
                    proof {
                        lemma_rendered_empty(width as nat, change_number_width(*change), ctx);
                        assert(out@.skip(out@.len() as int) =~= Seq::<StyledLine>::empty());
                        assert(out@.take(out@.len() as int) =~= out@);
                    }
                },
            }
        },
    }
}

} // verus!
