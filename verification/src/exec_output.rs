//! How the output of a command is cut down for display: the head and tail
//! kept around an omission line, the middle cut of wrapped lines to fit a
//! row budget, and the preview of input sent to a running command.

use vstd::prelude::*;
use crate::debug_config::{dimmed, text_line, text_row};
use crate::style::{Style, StyledLine, StyledSpan};
use crate::text::{chars_of, decimal_chars, push_char, push_decimal_chars, push_str_chars};

verus! {

/// The hint that the omitted lines can be seen in the transcript.
pub open spec fn transcript_hint() -> Seq<char> {
    "ctrl + t to view transcript"@
}

/// `… +N lines (ctrl + t to view transcript)`.
pub open spec fn ellipsis_text(omitted: nat) -> Seq<char> {
    "… +"@ + decimal_chars(omitted) + " lines ("@ + transcript_hint() + ")"@
}

/// The line that stands for omitted output lines.
pub fn output_ellipsis_text(omitted: usize) -> (s: String)
    ensures
        s@ == ellipsis_text(omitted as nat),
{
    let mut s = String::from_str("… +");
    push_decimal_chars(&mut s, omitted);
    push_str_chars(&mut s, " lines (");
    push_str_chars(&mut s, "ctrl + t to view transcript");
    push_str_chars(&mut s, ")");
    s
}

/// `… +N lines`, the omission line of a command's own text.
pub open spec fn command_ellipsis_text(omitted: nat) -> Seq<char> {
    "… +"@ + decimal_chars(omitted) + " lines"@
}

/// Keeps the first `keep` lines of a command's display; the lines after
/// them become one dim line `… +N lines` (without the transcript hint).
pub fn limit_lines_from_start(lines: Vec<StyledLine>, keep: usize) -> (out: Vec<StyledLine>)
    ensures
        lines@.len() <= keep ==> out@ == lines@,
        lines@.len() > keep ==> {
            &&& out@.len() == keep + 1
            &&& out@.subrange(0, keep as int) == lines@.subrange(0, keep as int)
            &&& out@[keep as int].spans@.len() == 1
            &&& out@[keep as int].style == Style::plain()
            &&& text_row(out@[keep as int]) == (command_ellipsis_text((lines@.len() - keep) as nat), dimmed())
        },
{
    let total = lines.len();
    if total <= keep {
        return lines;
    }
    let mut out = lines;
    out.truncate(keep);
    let mut text = String::from_str("… +");
    push_decimal_chars(&mut text, total - keep);
    push_str_chars(&mut text, " lines");
    out.push(text_line(text, Style::new().with_dim()));
    proof {
        assert(out@.subrange(0, keep as int) =~= lines@.subrange(0, keep as int));
    }
    out
}

/// The lines shown before and after the omission for an agent's command.
pub const TOOL_CALL_MAX_LINES: usize = 5;

/// The lines shown before and after the omission for a command the user ran.
pub const USER_SHELL_TOOL_CALL_MAX_LINES: usize = 50;

/// How a command's output is shown.
#[derive(Clone, Copy, Debug)]
pub struct OutputLinesParams {
    /// The most lines shown before and after the omission.
    pub line_limit: usize,
    /// Show nothing for a command that succeeded.
    pub only_err: bool,
    /// Start the first line with the output corner `  └ `.
    pub include_angle_pipe: bool,
    /// Indent the output under the command.
    pub include_prefix: bool,
}

/// The shown lines of a command's output, and the lines omitted.
#[derive(Debug)]
pub struct OutputLines {
    pub lines: Vec<StyledLine>,
    pub omitted: Option<usize>,
}

/// A span as its text and style.
pub open spec fn span_shape(s: StyledSpan) -> (Seq<char>, Style) {
    (s.content@, s.style)
}

/// A span as its text and its style made dim.
pub open spec fn dim_span_shape(s: StyledSpan) -> (Seq<char>, Style) {
    (s.content@, Style { dim: true, ..s.style })
}

/// The texts and styles of spans.
pub open spec fn span_shapes(spans: Seq<StyledSpan>) -> Seq<(Seq<char>, Style)> {
    spans.map_values(|s: StyledSpan| span_shape(s))
}

/// The texts of spans, with their styles made dim.
pub open spec fn dim_span_shapes(spans: Seq<StyledSpan>) -> Seq<(Seq<char>, Style)> {
    spans.map_values(|s: StyledSpan| dim_span_shape(s))
}

/// A line as the texts and styles of its spans, and its own style.
pub open spec fn line_shape(l: StyledLine) -> (Seq<(Seq<char>, Style)>, Style) {
    (span_shapes(l.spans@), l.style)
}

/// An output line as shown: after `prefix`, where there is one, with every
/// span dim.
pub open spec fn shown_output_line(l: StyledLine, prefix: Option<Seq<char>>) -> (Seq<(Seq<char>, Style)>, Style) {
    let spans = dim_span_shapes(l.spans@);
    (
        match prefix {
            Some(p) => seq![(p, dimmed())] + spans,
            None => spans,
        },
        l.style,
    )
}

/// The prefix of the `i`th head line.
pub open spec fn head_prefix(i: int, params: OutputLinesParams) -> Seq<char> {
    if !params.include_prefix {
        ""@
    } else if i == 0 && params.include_angle_pipe {
        "  └ "@
    } else {
        "    "@
    }
}

/// Of the head lines of an output, only the first can carry the output
/// corner `  └ `, and only where the corner is asked for; with a prefix
/// asked for, every other head line is indented by four spaces; without
/// one, no head line has a prefix.
pub proof fn lemma_head_prefixes(i: int, params: OutputLinesParams)
    requires
        0 <= i,
    ensures
        head_prefix(i, params) == "  └ "@ <==> (i == 0 && params.include_angle_pipe
            && params.include_prefix),
        params.include_prefix && (i > 0 || !params.include_angle_pipe) ==> head_prefix(i, params)
            == "    "@,
        !params.include_prefix ==> head_prefix(i, params).len() == 0,
{
    reveal_strlit("  └ ");
    reveal_strlit("    ");
    reveal_strlit("");
    assert("    "@[2] != "  └ "@[2]);
    assert("    "@ != "  └ "@);
    assert(""@.len() != "  └ "@.len());
    assert(""@ != "  └ "@);
}

/// An output line as shown, after `prefix` where given.
fn dim_output_line(line: StyledLine, prefix: Option<&str>) -> (r: StyledLine)
    ensures
        line_shape(r) == shown_output_line(line, match prefix {
            Some(p) => Some(p@),
            None => None,
        }),
{
    let mut spans: Vec<StyledSpan> = Vec::new();
    let ghost start: int = 0;
    match prefix {
        Some(p) => {
            spans.push(StyledSpan::styled(p, Style::new().with_dim()));
            proof {
                start = 1;
            }
        },
        None => {},
    }
    let StyledLine { spans: mut rest, style } = line;
    let ghost initial = rest@;
    let mut k: usize = 0;
    let n = rest.len();
    while rest.len() > 0
        invariant
            0 <= k <= n,
            n == initial.len(),
            rest@ == initial.subrange(k as int, n as int),
            start == (if prefix is Some { 1int } else { 0 }),
            spans@.len() == start + k,
            prefix matches Some(p) ==> span_shape(spans@[0]) == (p@, dimmed()),
            forall|j: int| 0 <= j < k ==> #[trigger] span_shape(spans@[start + j]) == dim_span_shape(initial[j]),
        decreases rest.len(),
    {
        let span = rest.remove(0);
        let dim_style = span.style.with_dim();
        spans.push(StyledSpan { content: span.content, style: dim_style });
        k = k + 1;
        proof {
            assert(rest@ =~= initial.subrange(k as int, n as int));
        }
    }
    let r = StyledLine { spans, style };
    proof {
        assert(k == n);
        let expected_spans = dim_span_shapes(initial);
        match prefix {
            Some(p) => {
                assert(span_shapes(r.spans@) =~= seq![(p@, dimmed())] + expected_spans) by {
                    assert forall|j: int| 0 <= j < span_shapes(r.spans@).len() implies span_shapes(r.spans@)[j]
                        == (seq![(p@, dimmed())] + expected_spans)[j] by {
                        if j > 0 {
                            assert(span_shape(r.spans@[start + (j - 1)]) == dim_span_shape(initial[j - 1]));
                        }
                    }
                }
            },
            None => {
                assert(span_shapes(r.spans@) =~= expected_spans) by {
                    assert forall|j: int| 0 <= j < span_shapes(r.spans@).len() implies span_shapes(r.spans@)[j]
                        == expected_spans[j] by {
                        assert(span_shape(r.spans@[start + j]) == dim_span_shape(initial[j]));
                    }
                }
            },
        }
    }
    r
}

/// The lines of a command's output: `output` is the exit code, the lines
/// still kept (as styled lines, escapes read) and the number of lines seen.
/// The first and last lines within the limit are shown dim, with the line
/// for the omitted ones between them; a command that succeeded shows
/// nothing where only errors are asked for.
pub fn output_lines(output: Option<(i32, Vec<StyledLine>, usize)>, params: OutputLinesParams) -> (r: OutputLines)
    ensures
        match output {
            None => r.lines@.len() == 0 && r.omitted is None,
            Some((code, retained, total)) => if params.only_err && code == 0 {
                r.lines@.len() == 0 && r.omitted is None
            } else {
                let (h, t, o) = output_window(total as nat, retained@.len(), params.line_limit as nat);
                let e: int = if o > 0 { 1 } else { 0 };
                &&& r.omitted == (if o > 0 { Some(o as usize) } else { None })
                &&& r.lines@.len() == h + e + t
                &&& forall|i: int| 0 <= i < h ==> #[trigger] line_shape(r.lines@[i])
                    == shown_output_line(retained@[i], Some(head_prefix(i, params)))
                &&& o > 0 ==> line_shape(r.lines@[h as int]) == (seq![(ellipsis_text(o), dimmed())], Style::plain())
                &&& forall|k: int| 0 <= k < t ==> #[trigger] line_shape(r.lines@[h + e + k])
                    == shown_output_line(
                        retained@[retained@.len() - t + k],
                        if params.include_prefix { Some("    "@) } else { None },
                    )
            },
        },
{
    proof {
        reveal_strlit("");
        reveal_strlit("  └ ");
        reveal_strlit("    ");
    }
    let (code, mut retained, total) = match output {
        None => return OutputLines { lines: Vec::new(), omitted: None },
        Some(o) => o,
    };
    if params.only_err && code == 0 {
        return OutputLines { lines: Vec::new(), omitted: None };
    }
    let ghost kept = retained@;
    let n = retained.len();
    let (head_end, tail_len, omitted_count) = output_line_window(total, n, params.line_limit);
    // The last `tail_len` lines, last first.
    let mut tail_rev: Vec<StyledLine> = Vec::new();
    while tail_rev.len() < tail_len
        invariant
            tail_len <= n - head_end,
            head_end <= n,
            n == kept.len(),
            tail_rev@.len() <= tail_len,
            retained@ == kept.subrange(0, n - tail_rev@.len()),
            forall|j: int| 0 <= j < tail_rev@.len() ==> #[trigger] tail_rev@[j] == kept[n - 1 - j],
        decreases tail_len - tail_rev@.len(),
    {
        let line = retained.pop().unwrap();
        tail_rev.push(line);
        proof {
            assert(retained@ =~= kept.subrange(0, n - tail_rev@.len()));
        }
    }
    let mut out: Vec<StyledLine> = Vec::new();
    let mut i: usize = 0;
    while i < head_end
        invariant
            head_end <= n - tail_len,
            n == kept.len(),
            i <= head_end,
            retained@ == kept.subrange(i as int, n - tail_len),
            out@.len() == i,
            forall|j: int| 0 <= j < i ==> #[trigger] line_shape(out@[j]) == shown_output_line(kept[j], Some(head_prefix(j, params))),
        decreases head_end - i,
    {
        let line = retained.remove(0);
        let prefix = if !params.include_prefix {
            ""
        } else if i == 0 && params.include_angle_pipe {
            "  └ "
        } else {
            "    "
        };
        out.push(dim_output_line(line, Some(prefix)));
        i = i + 1;
        proof {
            assert(retained@ =~= kept.subrange(i as int, n - tail_len));
        }
    }
    let omitted = if omitted_count > 0 {
        let mut spans: Vec<StyledSpan> = Vec::new();
        spans.push(StyledSpan::styled(output_ellipsis_text(omitted_count).as_str(), Style::new().with_dim()));
        let line = StyledLine::from_spans(spans);
        let ghost before = out@;
        out.push(line);
        proof {
            assert(span_shapes(out@[head_end as int].spans@) =~= seq![(ellipsis_text(omitted_count as nat), dimmed())]);
        }
        Some(omitted_count)
    } else {
        None
    };
    let ghost e: int = if omitted_count > 0 { 1 } else { 0 };
    let tail_prefix = if params.include_prefix { Some("    ") } else { None };
    let mut k: usize = 0;
    while k < tail_len
        invariant
            tail_rev@.len() == tail_len - k,
            k <= tail_len,
            tail_len <= n - head_end,
            n == kept.len(),
            e == (if omitted_count > 0 { 1int } else { 0 }),
            out@.len() == head_end + e + k,
            forall|j: int| 0 <= j < tail_rev@.len() ==> #[trigger] tail_rev@[j] == kept[n - 1 - j],
            forall|j: int| 0 <= j < head_end ==> #[trigger] line_shape(out@[j]) == shown_output_line(kept[j], Some(head_prefix(j, params))),
            omitted_count > 0 ==> line_shape(out@[head_end as int]) == (seq![(ellipsis_text(omitted_count as nat), dimmed())], Style::plain()),
            forall|j: int| 0 <= j < k ==> #[trigger] line_shape(out@[head_end + e + j]) == shown_output_line(
                kept[n - tail_len + j],
                match tail_prefix {
                    Some(p) => Some(p@),
                    None => None,
                },
            ),
        decreases tail_len - k,
    {
        let ghost before = tail_rev@;
        let line = tail_rev.pop().unwrap();
        proof {
            assert(line == kept[n - tail_len + k]);
            assert forall|j: int| 0 <= j < tail_rev@.len() implies #[trigger] tail_rev@[j] == kept[n - 1 - j] by {
                assert(tail_rev@[j] == before[j]);
            }
        }
        out.push(dim_output_line(line, tail_prefix));
        k = k + 1;
    }
    OutputLines { lines: out, omitted }
}

/// `a - b`, or 0.
pub open spec fn sub0(a: nat, b: nat) -> nat {
    if a >= b {
        (a - b) as nat
    } else {
        0
    }
}

/// The smallest of three.
pub open spec fn min3(a: nat, b: nat, c: nat) -> nat {
    let ab = if a <= b {
        a
    } else {
        b
    };
    if ab <= c {
        ab
    } else {
        c
    }
}

/// Which lines of a command's output are shown: the first `head` lines,
/// the last `tail` lines, and the number omitted between them, given all
/// lines seen, the lines still kept, and the limit of each part.
pub open spec fn output_window(total: nat, retained: nat, line_limit: nat) -> (nat, nat, nat) {
    let head = min3(total, line_limit, retained);
    let tail = min3(sub0(total, head), line_limit, sub0(retained, head));
    (head, tail, sub0(total, head + tail))
}

/// What the window of a command's output keeps: at most `line_limit` first
/// and `line_limit` last lines, all among the lines still kept; the lines
/// not shown are counted as omitted; with every line kept, nothing is
/// omitted exactly when the output fits in twice the limit, and an output
/// within the limit is shown whole as first lines.
pub proof fn lemma_output_window(total: nat, retained: nat, line_limit: nat)
    ensures
        ({
            let (h, t, o) = output_window(total, retained, line_limit);
            &&& h <= line_limit && t <= line_limit
            &&& h + t <= retained
            &&& h + t <= total ==> h + t + o == total
            &&& retained >= total ==> (o == 0 <==> total <= 2 * line_limit)
            &&& retained >= total && total <= line_limit ==> h == total && t == 0 && o == 0
        }),
{
}

/// The lines shown of a command's output (see `output_window`).
pub fn output_line_window(total: usize, retained: usize, line_limit: usize) -> (r: (usize, usize, usize))
    ensures
        (r.0 as nat, r.1 as nat, r.2 as nat) == output_window(total as nat, retained as nat, line_limit as nat),
{
    let head = if total <= line_limit {
        total
    } else {
        line_limit
    };
    let head = if head <= retained {
        head
    } else {
        retained
    };
    let a = total - head;
    let b = retained - head;
    let tail = if a <= line_limit {
        a
    } else {
        line_limit
    };
    let tail = if tail <= b {
        tail
    } else {
        b
    };
    let omitted = total - head - tail;
    (head, tail, omitted)
}

/// The rows of lines `a..b`.
pub open spec fn rows_sum(rows: Seq<usize>, a: int, b: int) -> nat
    decreases b - a,
{
    if b <= a {
        0
    } else {
        rows_sum(rows, a, b - 1) + rows[b - 1] as nat
    }
}

/// How a middle cut treats a list of lines.
#[derive(Debug, PartialEq, Eq, Structural)]
pub enum MiddleCut {
    /// Nothing fits.
    Nothing,
    /// All lines fit.
    KeepAll,
    /// Only the omission line fits; it counts this many lines.
    OnlyEllipsis(usize),
    /// Lines `0..head_end` and `tail_start..` are kept, with an omission
    /// line counting `omitted` lines between them.
    Split { head_end: usize, tail_start: usize, omitted: usize },
}

/// The number of lines an omission line would count before any cut: the
/// count an earlier cut reported plus the lines other than the one that already
/// stands for it.
pub open spec fn estimated_omitted(n: nat, hint: Option<usize>) -> nat {
    match hint {
        Some(h) => (h as nat + sub0(n, 1)) as nat,
        None => n,
    }
}

/// The head ends at `h`: the lines before fit the budget and the next one
/// does not (or there is none).
pub open spec fn head_fits(rows: Seq<usize>, h: int, budget: nat) -> bool {
    0 <= h <= rows.len() && rows_sum(rows, 0, h) <= budget && (h == rows.len() || rows_sum(rows, 0, h + 1)
        > budget)
}

/// The tail starts at `t`: the lines from there fit the budget, and the one
/// before does not, unless the head ends there.
pub open spec fn tail_fits(rows: Seq<usize>, head_end: int, t: int, budget: nat) -> bool {
    head_end <= t <= rows.len() && rows_sum(rows, t, rows.len() as int) <= budget && (t == head_end
        || rows_sum(rows, t - 1, rows.len() as int) > budget)
}

/// Extending a range by one line on the left adds its rows.
proof fn lemma_rows_sum_left(rows: Seq<usize>, a: int, b: int)
    requires
        0 <= a < b <= rows.len(),
    ensures
        rows_sum(rows, a, b) == rows[a] as nat + rows_sum(rows, a + 1, b),
    decreases b - a,
{
    if b - 1 > a {
        lemma_rows_sum_left(rows, a, b - 1);
        assert(rows_sum(rows, a + 1, b) == rows_sum(rows, a + 1, b - 1) + rows[b - 1] as nat);
    } else {
        assert(rows_sum(rows, a, a) == 0);
        assert(rows_sum(rows, a + 1, b) == 0);
    }
}

/// Cuts lines out of the middle so that what is kept takes at most
/// `max_rows` rows. `rows` gives each line's rows at the display width,
/// `ellipsis_rows` those of the omission line for the estimated count.
/// Where all lines fit they stay; where only the omission line fits it
/// alone stays; else the head takes half the rows left (rounded down) and
/// the tail the rest, each as many whole lines as fit, the head first.
pub fn truncate_lines_middle(rows: &[usize], max_rows: usize, ellipsis_rows: usize, omitted_hint: Option<usize>) -> (r:
    MiddleCut)
    requires
        omitted_hint matches Some(h) ==> h + rows@.len() <= usize::MAX,
    ensures
        max_rows == 0 ==> r == MiddleCut::Nothing,
        max_rows > 0 && rows_sum(rows@, 0, rows@.len() as int) <= max_rows ==> r == MiddleCut::KeepAll,
        max_rows > 0 && rows_sum(rows@, 0, rows@.len() as int) > max_rows && ellipsis_rows >= max_rows ==> r
            == MiddleCut::OnlyEllipsis(estimated_omitted(rows@.len() as nat, omitted_hint) as usize),
        max_rows > 0 && rows_sum(rows@, 0, rows@.len() as int) > max_rows && ellipsis_rows < max_rows ==> ({
            let available = (max_rows - ellipsis_rows) as nat;
            let head_budget = available / 2;
            let tail_budget = (available - head_budget) as nat;
            r matches MiddleCut::Split { head_end, tail_start, omitted } && head_fits(
                rows@,
                head_end as int,
                head_budget,
            ) && tail_fits(rows@, head_end as int, tail_start as int, tail_budget) && omitted == (match omitted_hint {
                Some(h) => h as nat,
                None => 0,
            }) + sub0(
                sub0(rows@.len() as nat, (head_end + (rows@.len() - tail_start)) as nat),
                if omitted_hint is Some {
                    1
                } else {
                    0
                },
            )
        }),
{
    if max_rows == 0 {
        return MiddleCut::Nothing;
    }
    let n = rows.len();
    let mut total: usize = 0;
    let mut k: usize = 0;
    let mut over = false;
    while k < n
        invariant
            k <= n,
            n == rows@.len(),
            !over ==> total as nat == rows_sum(rows@, 0, k as int) && total <= max_rows,
            over ==> rows_sum(rows@, 0, rows@.len() as int) > max_rows,
        decreases n - k,
    {
        if !over {
            if rows[k] > max_rows - total {
                over = true;
                proof {
                    assert(rows_sum(rows@, 0, k + 1) > max_rows);
                    lemma_rows_sum_mono(rows@, k + 1, rows@.len() as int);
                }
            } else {
                total = total + rows[k];
            }
        }
        k += 1;
    }
    if !over {
        return MiddleCut::KeepAll;
    }
    let estimated = match omitted_hint {
        Some(h) => h + if n >= 1 {
            n - 1
        } else {
            0
        },
        None => n,
    };
    if ellipsis_rows >= max_rows {
        return MiddleCut::OnlyEllipsis(estimated);
    }
    let available = max_rows - ellipsis_rows;
    let head_budget = available / 2;
    let tail_budget = available - head_budget;
    let mut head_rows: usize = 0;
    let mut head_end: usize = 0;
    let mut head_full = false;
    while head_end < n && !head_full
        invariant
            head_end <= n,
            n == rows@.len(),
            head_rows as nat == rows_sum(rows@, 0, head_end as int),
            head_rows <= head_budget,
            head_full ==> head_end < n && rows_sum(rows@, 0, head_end + 1) > head_budget,
        decreases n - head_end, if head_full {
            0int
        } else {
            1int
        },
    {
        if rows[head_end] > head_budget - head_rows {
            head_full = true;
        } else {
            head_rows = head_rows + rows[head_end];
            head_end += 1;
        }
    }
    let mut tail_rows: usize = 0;
    let mut tail_start: usize = n;
    let mut tail_full = false;
    while tail_start > head_end && !tail_full
        invariant
            head_end <= tail_start <= n,
            n == rows@.len(),
            tail_rows as nat == rows_sum(rows@, tail_start as int, n as int),
            tail_rows <= tail_budget,
            tail_full ==> tail_start > head_end && rows_sum(rows@, tail_start - 1, n as int) > tail_budget,
        decreases tail_start, if tail_full {
            0int
        } else {
            1int
        },
    {
        let idx = tail_start - 1;
        proof {
            lemma_rows_sum_left(rows@, idx as int, n as int);
        }
        if rows[idx] > tail_budget - tail_rows {
            tail_full = true;
        } else {
            tail_rows = tail_rows + rows[idx];
            tail_start -= 1;
        }
    }
    let kept = head_end + (n - tail_start);
    let base = match omitted_hint {
        Some(h) => h,
        None => 0,
    };
    let rest = n - kept;
    let additional = match omitted_hint {
        Some(_) => if rest >= 1 {
            rest - 1
        } else {
            0
        },
        None => rest,
    };
    MiddleCut::Split { head_end, tail_start, omitted: base + additional }
}

/// Rows never shrink as a range grows to the right.
proof fn lemma_rows_sum_mono(rows: Seq<usize>, b: int, c: int)
    requires
        0 <= b <= c,
    ensures
        rows_sum(rows, 0, b) <= rows_sum(rows, 0, c),
    decreases c - b,
{
    if c > b {
        lemma_rows_sum_mono(rows, b, c - 1);
    }
}

/// The preview of input sent to a running command: newlines and backticks
/// escaped, and cut to 80 characters followed by `...` where longer.
pub open spec fn escaped(input: Seq<char>) -> Seq<char>
    decreases input.len(),
{
    if input.len() == 0 {
        Seq::empty()
    } else {
        escaped(input.drop_last()) + if input.last() == '\n' {
            seq!['\\', 'n']
        } else if input.last() == '`' {
            seq!['\\', '`']
        } else {
            seq![input.last()]
        }
    }
}

/// The preview of input sent to a running command.
pub open spec fn input_preview(input: Seq<char>) -> Seq<char> {
    let e = escaped(input);
    if e.len() <= 80 {
        e
    } else {
        e.take(80) + "..."@
    }
}

/// Summarizes input sent to a running command (see `input_preview`).
pub fn summarize_interaction_input(input: &str) -> (s: String)
    ensures
        s@ == input_preview(input@),
{
    let v = chars_of(input);
    let mut e: Vec<char> = Vec::new();
    let mut i: usize = 0;
    while i < v.len()
        invariant
            i <= v@.len(),
            v@ == input@,
            e@ == escaped(v@.take(i as int)),
        decreases v@.len() - i,
    {
        proof {
            assert(v@.take(i + 1).drop_last() =~= v@.take(i as int));
            assert(v@.take(i + 1).last() == v@[i as int]);
        }
        let c = v[i];
        if c == '\n' {
            e.push('\\');
            e.push('n');
        } else if c == '`' {
            e.push('\\');
            e.push('`');
        } else {
            e.push(c);
        }
        proof {
            assert(e@ =~= escaped(v@.take(i + 1)));
        }
        i += 1;
    }
    proof {
        assert(v@.take(v@.len() as int) =~= v@);
    }
    let mut s = String::new();
    let n = if e.len() <= 80 {
        e.len()
    } else {
        80
    };
    let mut k: usize = 0;
    while k < n
        invariant
            k <= n <= e@.len(),
            s@ == e@.take(k as int),
        decreases n - k,
    {
        push_char(&mut s, e[k]);
        proof {
            assert(e@.take(k + 1) =~= e@.take(k as int).push(e@[k as int]));
        }
        k += 1;
    }
    if e.len() > 80 {
        push_str_chars(&mut s, "...");
    } else {
        proof {
            assert(e@.take(n as int) =~= e@);
        }
    }
    s
}

} // verus!
