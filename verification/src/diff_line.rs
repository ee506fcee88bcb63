//! One diff line laid out as terminal rows: a right-aligned line number, the
//! `+`/`-`/space sign, and the content wrapped to the width left.

use vstd::prelude::*;
use crate::diff_theme::{
    change_style, dim_style, gutter_style, style_add, style_context, style_del, style_gutter_for,
    style_line_bg_for, style_sign_add, style_sign_del, DiffColorLevel, DiffLineType, DiffTheme,
    ResolvedDiffBackgrounds,
};
use crate::style::{Color, Style, StyledLine, StyledSpan};
use crate::text::{decimal_chars, decimal_string, push_char};
use crate::wrap::{wrap_styled_spans, wrapped_correctly};

verus! {

/// `n` spaces.
pub open spec fn spaces(n: nat) -> Seq<char> {
    Seq::new(n, |i: int| ' ')
}

/// `s` right-aligned in a field of `w` characters.
pub open spec fn pad_left(s: Seq<char>, w: nat) -> Seq<char> {
    if s.len() >= w {
        s
    } else {
        spaces((w - s.len()) as nat) + s
    }
}

/// The number of digits of the largest line number, at least 1.
pub fn line_number_width(max_line_number: usize) -> (w: usize)
    ensures
        w == decimal_chars(max_line_number as nat).len(),
        1 <= w <= 20,
{
    let mut m = max_line_number;
    let mut count: usize = 1;
    proof {
        lemma_decimal_len_bound(max_line_number as nat);
        lemma_decimal_len(max_line_number as nat);
    }
    while m >= 10
        invariant
            count + decimal_chars(m as nat).len() == decimal_chars(max_line_number as nat).len() + 1,
            count <= 20,
            decimal_chars(m as nat).len() >= 1,
            decimal_chars(max_line_number as nat).len() <= 20,
        decreases m,
    {
        proof {
            lemma_decimal_len(m as nat);
            lemma_decimal_len(max_line_number as nat);
            lemma_decimal_len_bound(m as nat);
        }
        m = m / 10;
        count = count + 1;
    }
    proof {
        lemma_decimal_len(max_line_number as nat);
        lemma_decimal_len_bound(max_line_number as nat);
    }
    count
}

/// The length of a number's decimal digits.
proof fn lemma_decimal_len(n: nat)
    ensures
        decimal_chars(n).len() >= 1,
        n >= 10 ==> decimal_chars(n).len() == decimal_chars(n / 10).len() + 1,
        n < 10 ==> decimal_chars(n).len() == 1,
    decreases n,
{
    if n >= 10 {
        lemma_decimal_len(n / 10);
    }
}

/// A number below 2^64 has at most 20 digits.
proof fn lemma_decimal_len_bound(n: nat)
    requires
        n <= usize::MAX,
    ensures
        decimal_chars(n).len() <= 20,
{
    assert(pow10(20) == 100000000000000000000nat) by {
        reveal_with_fuel(pow10, 21);
    }
    lemma_decimal_len_le(n, 20);
}

proof fn lemma_decimal_len_le(n: nat, k: nat)
    requires
        k >= 1,
        n < pow10(k),
    ensures
        decimal_chars(n).len() <= k,
    decreases k,
{
    lemma_decimal_len(n);
    if n >= 10 {
        assert(k >= 2) by {
            if k == 1 {
                assert(pow10(1) == 10) by {
                    assert(pow10(0) == 1);
                }
            }
        }
        assert(n / 10 < pow10((k - 1) as nat)) by {
            assert(pow10(k) == 10 * pow10((k - 1) as nat));
        }
        lemma_decimal_len_le(n / 10, (k - 1) as nat);
    }
}

/// Ten to the power `k`.
pub open spec fn pow10(k: nat) -> nat
    decreases k,
{
    if k == 0 {
        1
    } else {
        10 * pow10((k - 1) as nat)
    }
}

/// The gutter of a line's first row: the number right-aligned, then a space.
pub open spec fn gutter_text(line_number: nat, gutter_width: nat) -> Seq<char> {
    pad_left(decimal_chars(line_number), gutter_width).push(' ')
}

/// The gutter of a continuation row: blanks for the number and the sign.
pub open spec fn continuation_text(gutter_width: nat) -> Seq<char> {
    spaces(gutter_width + 2)
}

/// The sign of a diff line.
pub open spec fn sign_char(kind: DiffLineType) -> char {
    match kind {
        DiffLineType::Insert => '+',
        DiffLineType::Delete => '-',
        DiffLineType::Context => ' ',
    }
}

/// The style of a diff line's sign.
pub open spec fn sign_style(
    kind: DiffLineType,
    theme: DiffTheme,
    level: DiffColorLevel,
    bgs: ResolvedDiffBackgrounds,
) -> Style {
    match (kind, theme) {
        (DiffLineType::Insert, DiffTheme::Light) => Style { fg: Some(Color::Green), ..Style::plain() },
        (DiffLineType::Insert, DiffTheme::Dark) => change_style(theme, level, bgs.add, Color::Green),
        (DiffLineType::Delete, DiffTheme::Light) => Style { fg: Some(Color::Red), ..Style::plain() },
        (DiffLineType::Delete, DiffTheme::Dark) => change_style(theme, level, bgs.del, Color::Red),
        (DiffLineType::Context, _) => Style::plain(),
    }
}

/// The style of a diff line's plain content.
pub open spec fn content_style(
    kind: DiffLineType,
    theme: DiffTheme,
    level: DiffColorLevel,
    bgs: ResolvedDiffBackgrounds,
) -> Style {
    match kind {
        DiffLineType::Insert => change_style(theme, level, bgs.add, Color::Green),
        DiffLineType::Delete => change_style(theme, level, bgs.del, Color::Red),
        DiffLineType::Context => Style::plain(),
    }
}

/// The style of the full row.
pub open spec fn row_style(kind: DiffLineType, bgs: ResolvedDiffBackgrounds) -> Style {
    match (kind, bgs.add, bgs.del) {
        (DiffLineType::Insert, Some(c), _) => Style { bg: Some(c), ..Style::plain() },
        (DiffLineType::Delete, _, Some(c)) => Style { bg: Some(c), ..Style::plain() },
        _ => Style::plain(),
    }
}

/// A syntax span as a diff line shows it: dimmed on deleted lines.
pub open spec fn syntax_span_as_shown(kind: DiffLineType, sp: StyledSpan) -> (Seq<char>, Style) {
    (sp.content@, if kind == DiffLineType::Delete {
        Style { dim: true, ..sp.style }
    } else {
        sp.style
    })
}

/// The columns left for content: `width` less the gutter and the sign, at
/// least one.
pub open spec fn content_cols(width: nat, gutter_width: nat) -> nat {
    if width > gutter_width + 2 {
        (width - gutter_width - 2) as nat
    } else {
        1
    }
}

/// The leading spans of row `i`: gutter and sign on the first row, the
/// blank gutter on the others.
pub open spec fn row_head(
    i: int,
    line_number: nat,
    gutter_width: nat,
    kind: DiffLineType,
    gstyle: Style,
    sstyle: Style,
) -> Seq<(Seq<char>, Style)> {
    if i == 0 {
        seq![
            (gutter_text(line_number, gutter_width), gstyle),
            (seq![sign_char(kind)], sstyle),
        ]
    } else {
        seq![(continuation_text(gutter_width), gstyle)]
    }
}

/// A span's text and style.
pub open spec fn span_view(sp: StyledSpan) -> (Seq<char>, Style) {
    (sp.content@, sp.style)
}

/// The texts and styles of spans.
pub open spec fn span_views(s: Seq<StyledSpan>) -> Seq<(Seq<char>, Style)> {
    s.map_values(|sp: StyledSpan| span_view(sp))
}

/// Syntax spans as a diff line of `kind` shows them.
pub open spec fn shown_syntax(kind: DiffLineType, syn: Seq<StyledSpan>) -> Seq<(Seq<char>, Style)> {
    syn.map_values(|sp: StyledSpan| syntax_span_as_shown(kind, sp))
}

/// Rows that lay out a diff line: `body` is the line's content as shown,
/// `chunks` its wrapping, and each row is its head followed by its chunk.
pub open spec fn laid_out_rows(
    rows: Seq<StyledLine>,
    chunks: Seq<Vec<StyledSpan>>,
    body: Seq<StyledSpan>,
    line_number: nat,
    kind: DiffLineType,
    text: Seq<char>,
    width: nat,
    line_number_width: nat,
    syntax: Option<Seq<StyledSpan>>,
    theme: DiffTheme,
    level: DiffColorLevel,
    bgs: ResolvedDiffBackgrounds,
) -> bool {
    let gw: nat = if line_number_width == 0 {
        1
    } else {
        line_number_width
    };
    let input: Seq<(Seq<char>, Style)> = match syntax {
        Some(syn) => shown_syntax(kind, syn),
        None => seq![(text, content_style(kind, theme, level, bgs))],
    };
    &&& span_views(body) == input
    &&& wrapped_correctly(body, content_cols(width, gw), chunks)
    &&& rows.len() == chunks.len()
    &&& forall|i: int|
        0 <= i < rows.len() ==> {
            &&& (#[trigger] rows[i]).style == row_style(kind, bgs)
            &&& span_views(rows[i].spans@) == row_head(
                i,
                line_number,
                gw,
                kind,
                gutter_style(kind, theme, level),
                sign_style(kind, theme, level, bgs),
            ) + span_views(chunks[i]@)
        }
}

/// The spans of an optional slice.
pub open spec fn syntax_view(s: Option<&[StyledSpan]>) -> Option<Seq<StyledSpan>> {
    match s {
        Some(syn) => Some(syn@),
        None => None,
    }
}

/// `n` spaces as a string.
pub(crate) fn push_spaces(s: &mut String, n: usize)
    ensures
        final(s)@ == old(s)@ + spaces(n as nat),
{
    let mut i: usize = 0;
    while i < n
        invariant
            i <= n,
            s@ == old(s)@ + spaces(i as nat),
        decreases n - i,
    {
        push_char(s, ' ');
        proof {
            assert(old(s)@ + spaces((i + 1) as nat) =~= (old(s)@ + spaces(i as nat)).push(' '));
        }
        i += 1;
    }
}

/// The first-row gutter text.
fn gutter_string(line_number: usize, gutter_width: usize) -> (s: String)
    ensures
        s@ == gutter_text(line_number as nat, gutter_width as nat),
{
    let digits = decimal_string(line_number);
    let n = digits.as_str().unicode_len();
    let mut s = String::new();
    if n < gutter_width {
        push_spaces(&mut s, gutter_width - n);
    }
    let mut i: usize = 0;
    let dv = crate::text::chars_of(digits.as_str());
    while i < dv.len()
        invariant
            i <= dv.len(),
            dv@ == decimal_chars(line_number as nat),
            n == dv@.len(),
            s@ == (if n < gutter_width {
                spaces((gutter_width - n) as nat)
            } else {
                Seq::empty()
            }) + dv@.take(i as int),
        decreases dv.len() - i,
    {
        push_char(&mut s, dv[i]);
        proof {
            assert(dv@.take(i + 1) =~= dv@.take(i as int).push(dv@[i as int]));
        }
        i += 1;
    }
    push_char(&mut s, ' ');
    proof {
        assert(dv@.take(dv@.len() as int) =~= dv@);
        if n >= gutter_width {
            assert(Seq::<char>::empty() + dv@ =~= dv@);
        }
    }
    s
}

/// Lays out one diff line as rows at most `width` columns wide where the
/// text allows.
///
/// The first row starts with the line number right-aligned in
/// `max(line_number_width, 1)` columns, a space and the sign; the others
/// start with blanks of the same width and two spaces. The content is
/// `syntax_spans` where given (dimmed on deleted lines), else `text` in the
/// line's content style, wrapped by `wrap_styled_spans` to the columns left.
/// Every row carries the line's full-width background.
pub fn push_wrapped_diff_line_inner_with_theme_and_color_level(
    line_number: usize,
    kind: DiffLineType,
    text: &str,
    width: usize,
    line_number_width: usize,
    syntax_spans: Option<&[StyledSpan]>,
    theme: DiffTheme,
    color_level: DiffColorLevel,
    diff_backgrounds: ResolvedDiffBackgrounds,
) -> (rows: Vec<StyledLine>)
    requires
        line_number_width < usize::MAX - 2,
    ensures
        exists|chunks: Seq<Vec<StyledSpan>>, body: Seq<StyledSpan>|
            #[trigger] laid_out_rows(
                rows@,
                chunks,
                body,
                line_number as nat,
                kind,
                text@,
                width as nat,
                line_number_width as nat,
                syntax_view(syntax_spans),
                theme,
                color_level,
                diff_backgrounds,
            ),
{
    let gutter_width: usize = if line_number_width == 0 {
        1
    } else {
        line_number_width
    };
    let prefix_cols = gutter_width + 1;
    let sign: char = match kind {
        DiffLineType::Insert => '+',
        DiffLineType::Delete => '-',
        DiffLineType::Context => ' ',
    };
    let sstyle = match kind {
        DiffLineType::Insert => style_sign_add(theme, color_level, diff_backgrounds),
        DiffLineType::Delete => style_sign_del(theme, color_level, diff_backgrounds),
        DiffLineType::Context => style_context(),
    };
    let cstyle = match kind {
        DiffLineType::Insert => style_add(theme, color_level, diff_backgrounds),
        DiffLineType::Delete => style_del(theme, color_level, diff_backgrounds),
        DiffLineType::Context => style_context(),
    };
    let line_bg = style_line_bg_for(kind, diff_backgrounds);
    let gstyle = style_gutter_for(kind, theme, color_level);
    let ghost input: Seq<(Seq<char>, Style)> = match syntax_spans {
        Some(syn) => shown_syntax(kind, syn@),
        None => seq![(text@, content_style(kind, theme, color_level, diff_backgrounds))],
    };
    let mut body: Vec<StyledSpan> = Vec::new();
    match syntax_spans {
        Some(syn) => {
            let mut k: usize = 0;
            while k < syn.len()
                invariant
                    k <= syn.len(),
                    body@.len() == k,
                    syntax_spans == Some(syn),
                    input == shown_syntax(kind, syn@),
                    forall|j: int| 0 <= j < k ==> span_view(#[trigger] body@[j]) == input[j],
                decreases syn.len() - k,
            {
                let sp = &syn[k];
                let st = if kind == DiffLineType::Delete {
                    sp.style.with_dim()
                } else {
                    sp.style
                };
                body.push(StyledSpan { content: sp.content.clone(), style: st });
                k += 1;
            }
            proof {
                assert(span_views(body@) =~= input);
            }
        },
        None => {
            body.push(StyledSpan::styled(text, cstyle));
            proof {
                assert(span_views(body@) =~= input);
            }
        },
    }
    let available: usize = if width > prefix_cols + 1 {
        width - prefix_cols - 1
    } else {
        1
    };
    let chunks = wrap_styled_spans(body.as_slice(), available);
    let ghost chunk_views = chunks@;
    let mut chunks = chunks;
    let n = chunks.len();
    let mut rows: Vec<StyledLine> = Vec::new();
    let mut idx: usize = 0;
    while idx < n
        invariant
            idx <= n,
            n == chunk_views.len(),
            1 <= gutter_width < usize::MAX - 2,
            sign == sign_char(kind),
            chunks@ == chunk_views.skip(idx as int),
            rows@.len() == idx,
            forall|j: int|
                0 <= j < rows@.len() ==> {
                    &&& (#[trigger] rows@[j]).style == line_bg
                    &&& span_views(rows@[j].spans@) == row_head(
                        j,
                        line_number as nat,
                        gutter_width as nat,
                        kind,
                        gstyle,
                        sstyle,
                    ) + span_views(chunk_views[j]@)
                },
        decreases n - idx,
    {
        proof {
            assert(chunks@.len() > 0);
        }
        let mut chunk = chunks.remove(0);
        proof {
            assert(chunk == chunk_views[idx as int]);
            assert(chunks@ =~= chunk_views.skip(idx + 1));
        }
        let mut row_spans: Vec<StyledSpan> = Vec::new();
        if idx == 0 {
            row_spans.push(
                StyledSpan { content: gutter_string(line_number, gutter_width), style: gstyle },
            );
            let mut sign_s = String::new();
            push_char(&mut sign_s, sign);
            proof {
                assert(sign_s@ =~= seq![sign_char(kind)]);
            }
            row_spans.push(StyledSpan { content: sign_s, style: sstyle });
        } else {
            let mut cont = String::new();
            push_spaces(&mut cont, gutter_width + 2);
            proof {
                assert(cont@ =~= continuation_text(gutter_width as nat));
            }
            row_spans.push(StyledSpan { content: cont, style: gstyle });
        }
        let ghost head = row_spans@;
        proof {
            assert(span_views(head) =~= row_head(
                idx as int,
                line_number as nat,
                gutter_width as nat,
                kind,
                gstyle,
                sstyle,
            ));
        }
        row_spans.append(&mut chunk);
        proof {
            assert(row_spans@ =~= head + chunk_views[idx as int]@);
            assert(span_views((head + chunk_views[idx as int]@))
                =~= span_views(head) + span_views(chunk_views[idx as int]@));
        }
        rows.push(StyledLine { spans: row_spans, style: line_bg });
        idx += 1;
    }
    proof {
        assert(gstyle == gutter_style(kind, theme, color_level));
        assert(sstyle == sign_style(kind, theme, color_level, diff_backgrounds));
        assert(line_bg == row_style(kind, diff_backgrounds));
        assert(available == content_cols(width as nat, gutter_width as nat));
        assert(laid_out_rows(
            rows@,
            chunk_views,
            body@,
            line_number as nat,
            kind,
            text@,
            width as nat,
            line_number_width as nat,
            syntax_view(syntax_spans),
            theme,
            color_level,
            diff_backgrounds,
        ));
    }
    rows
}

} // verus!
