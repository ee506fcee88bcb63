//! Hard wrapping of styled text at a column limit, keeping each character's
//! style across the breaks.

use vstd::prelude::*;
use crate::style::{Style, StyledSpan};
use crate::text::{chars_of, push_char};
use crate::width::{
    cell_width, cell_width_of, char_width, char_width_spec, lemma_text_width_add, lemma_text_width_one, text_width,
    TAB_WIDTH,
};

verus! {

/// What a character becomes on screen: a tab as four spaces, anything else
/// as itself.
pub open spec fn expand_char(c: char) -> Seq<char> {
    if c == '\t' {
        seq![' ', ' ', ' ', ' ']
    } else {
        seq![c]
    }
}

/// `expand_char` applied to every character.
pub open spec fn expand_text(s: Seq<char>) -> Seq<char>
    decreases s.len(),
{
    if s.len() == 0 {
        Seq::empty()
    } else {
        expand_text(s.drop_last()) + expand_char(s.last())
    }
}

/// The characters of `s`, each paired with the style `st`.
pub open spec fn with_style(s: Seq<char>, st: Style) -> Seq<(char, Style)> {
    s.map_values(|c: char| (c, st))
}

/// The characters of a span with its style.
pub open spec fn span_cells(s: StyledSpan) -> Seq<(char, Style)> {
    with_style(s.content@, s.style)
}

/// The styled characters of a sequence of spans, in order.
pub open spec fn spans_cells(spans: Seq<StyledSpan>) -> Seq<(char, Style)>
    decreases spans.len(),
{
    if spans.len() == 0 {
        Seq::empty()
    } else {
        spans_cells(spans.drop_last()) + span_cells(spans.last())
    }
}

/// The styled characters of a sequence of lines, in order.
pub open spec fn lines_cells(lines: Seq<Vec<StyledSpan>>) -> Seq<(char, Style)>
    decreases lines.len(),
{
    if lines.len() == 0 {
        Seq::empty()
    } else {
        lines_cells(lines.drop_last()) + spans_cells(lines.last()@)
    }
}

/// Styled characters with every tab expanded, each piece keeping its style.
pub open spec fn expand_cells(cells: Seq<(char, Style)>) -> Seq<(char, Style)>
    decreases cells.len(),
{
    if cells.len() == 0 {
        Seq::empty()
    } else {
        expand_cells(cells.drop_last()) + with_style(expand_char(cells.last().0), cells.last().1)
    }
}

/// Columns taken by a line of spans.
pub open spec fn line_width(line: Seq<StyledSpan>) -> nat
    decreases line.len(),
{
    if line.len() == 0 {
        0
    } else {
        line_width(line.drop_last()) + text_width(line.last().content@)
    }
}

/// A line holding nothing but one character (a tab shown as its spaces).
pub open spec fn lone_piece(line: Seq<StyledSpan>) -> bool {
    line.len() == 1 && (line[0].content@.len() == 1 || line[0].content@ == expand_char('\t'))
}

/// Layout state while wrapping: finished lines, the line being built, its
/// column, and whether a run of characters that fit is still open.
pub type WrapState = (Seq<Seq<(char, Style)>>, Seq<(char, Style)>, nat, bool);

/// Columns a character is given when it is forced onto a line of its own:
/// its Unicode width, a tab as `TAB_WIDTH`, any other control code as one.
pub open spec fn forced_width(c: char) -> nat {
    match char_width_spec(c) {
        Some(w) => w,
        None => if c == '\t' {
            TAB_WIDTH as nat
        } else {
            1
        },
    }
}

/// Closes the open run: a line filled to the limit ends there.
pub open spec fn end_run(st: WrapState, max_cols: nat) -> WrapState {
    if st.3 && st.2 >= max_cols {
        (st.0.push(st.1), Seq::empty(), 0, false)
    } else {
        (st.0, st.1, st.2, false)
    }
}

/// Places `c` with no run open: on the line if it fits, else alone at the
/// start of a new line.
pub open spec fn place_fresh(st: WrapState, c: char, sty: Style, max_cols: nat) -> WrapState {
    if st.2 + cell_width(c) <= max_cols {
        (st.0, st.1 + with_style(expand_char(c), sty), st.2 + cell_width(c), true)
    } else {
        (
            if st.1.len() > 0 {
                st.0.push(st.1)
            } else {
                st.0
            },
            with_style(expand_char(c), sty),
            forced_width(c),
            false,
        )
    }
}

/// Places `c`: it joins the line if it fits; otherwise the open run is
/// closed first and `c` placed afresh.
pub open spec fn place(st: WrapState, c: char, sty: Style, max_cols: nat) -> WrapState {
    if st.2 + cell_width(c) <= max_cols {
        (st.0, st.1 + with_style(expand_char(c), sty), st.2 + cell_width(c), true)
    } else {
        place_fresh(end_run(st, max_cols), c, sty, max_cols)
    }
}

/// Places the characters of `cs`, in order, in style `sty`.
pub open spec fn place_chars(st: WrapState, cs: Seq<char>, sty: Style, max_cols: nat) -> WrapState
    decreases cs.len(),
{
    if cs.len() == 0 {
        st
    } else {
        place(place_chars(st, cs.drop_last(), sty, max_cols), cs.last(), sty, max_cols)
    }
}

/// Places every span, closing the open run at the end of each.
pub open spec fn place_spans(spans: Seq<StyledSpan>, max_cols: nat) -> WrapState
    decreases spans.len(),
{
    if spans.len() == 0 {
        (Seq::empty(), Seq::empty(), 0, false)
    } else {
        let sp = spans.last();
        end_run(
            place_chars(place_spans(spans.drop_last(), max_cols), sp.content@, sp.style, max_cols),
            max_cols,
        )
    }
}

/// The styled characters of each wrapped line: the finished lines, then the
/// last line if it holds anything or is the only one.
pub open spec fn wrap_layout(spans: Seq<StyledSpan>, max_cols: nat) -> Seq<Seq<(char, Style)>> {
    let st = place_spans(spans, max_cols);
    if st.1.len() > 0 || st.0.len() == 0 {
        st.0.push(st.1)
    } else {
        st.0
    }
}

/// The styled characters of each line.
pub open spec fn line_cells(lines: Seq<Vec<StyledSpan>>) -> Seq<Seq<(char, Style)>> {
    lines.map_values(|l: Vec<StyledSpan>| spans_cells(l@))
}

/// What `wrap_styled_spans` promises of its lines.
pub open spec fn wrapped_correctly(
    spans: Seq<StyledSpan>,
    max_cols: nat,
    lines: Seq<Vec<StyledSpan>>,
) -> bool {
    &&& lines.len() >= 1
    &&& line_cells(lines) == wrap_layout(spans, max_cols)
    &&& lines_cells(lines) == expand_cells(spans_cells(spans))
    &&& forall|i: int|
        0 <= i < lines.len() ==> line_width(#[trigger] lines[i]@) <= max_cols || (lone_piece(
            lines[i]@,
        ) && line_width(lines[i]@) <= TAB_WIDTH)
    &&& forall|i: int, j: int|
        0 <= i < lines.len() && 0 <= j < lines[i]@.len() ==> (#[trigger] lines[i]@[j]).content@.len()
            > 0
    &&& (spans_cells(spans).len() == 0 ==> lines.len() == 1 && lines[0]@.len() == 0)
    &&& (spans_cells(spans).len() > 0 ==> forall|i: int|
        0 <= i < lines.len() ==> (#[trigger] lines[i]@).len() > 0)
}

/// `expand_text` of a pushed sequence.
proof fn lemma_expand_text_push(s: Seq<char>, c: char)
    ensures
        expand_text(s.push(c)) == expand_text(s) + expand_char(c),
{
    assert(s.push(c).drop_last() =~= s);
}

/// `expand_cells` distributes over concatenation.
pub proof fn lemma_expand_cells_add(a: Seq<(char, Style)>, b: Seq<(char, Style)>)
    ensures
        expand_cells(a + b) == expand_cells(a) + expand_cells(b),
    decreases b.len(),
{
    if b.len() == 0 {
        assert(a + b =~= a);
        assert(expand_cells(a) + expand_cells(b) =~= expand_cells(a));
    } else {
        lemma_expand_cells_add(a, b.drop_last());
        assert((a + b).drop_last() =~= a + b.drop_last());
        assert((a + b).last() == b.last());
        let t = with_style(expand_char(b.last().0), b.last().1);
        assert(expand_cells(a) + expand_cells(b.drop_last()) + t =~= expand_cells(a) + (
        expand_cells(b.drop_last()) + t));
    }
}

/// Expanding characters of one style gives the expanded text in that style.
proof fn lemma_expand_cells_styled(s: Seq<char>, st: Style)
    ensures
        expand_cells(with_style(s, st)) == with_style(expand_text(s), st),
    decreases s.len(),
{
    if s.len() == 0 {
        assert(with_style(s, st) =~= Seq::<(char, Style)>::empty());
        assert(with_style(expand_text(s), st) =~= Seq::<(char, Style)>::empty());
    } else {
        lemma_expand_cells_styled(s.drop_last(), st);
        assert(with_style(s, st).drop_last() =~= with_style(s.drop_last(), st));
        assert(with_style(expand_text(s), st) =~= with_style(expand_text(s.drop_last()), st)
            + with_style(expand_char(s.last()), st));
    }
}

/// Expanding keeps the width.
proof fn lemma_expand_text_width(s: Seq<char>)
    ensures
        text_width(expand_text(s)) == text_width(s),
    decreases s.len(),
{
    if s.len() > 0 {
        lemma_expand_text_width(s.drop_last());
        lemma_text_width_add(expand_text(s.drop_last()), expand_char(s.last()));
        let c = s.last();
        if c == '\t' {
            let sp = seq![' ', ' ', ' ', ' '];
            assert(sp.drop_last() =~= seq![' ', ' ', ' ']);
            assert(seq![' ', ' ', ' '].drop_last() =~= seq![' ', ' ']);
            assert(seq![' ', ' '].drop_last() =~= seq![' ']);
            lemma_text_width_one(' ');
            assert(cell_width(' ') == 1);
            assert(seq![' ', ' '].last() == ' ');
            assert(seq![' ', ' ', ' '].last() == ' ');
            assert(sp.last() == ' ');
            assert(text_width(seq![' ', ' ']) == 2);
            assert(text_width(seq![' ', ' ', ' ']) == 3);
            assert(text_width(sp) == 4);
        } else {
            lemma_text_width_one(c);
        }
    }
}

/// Nothing expands to nothing, and something to something.
proof fn lemma_expand_cells_len(a: Seq<(char, Style)>)
    ensures
        a.len() == 0 <==> expand_cells(a).len() == 0,
    decreases a.len(),
{
    if a.len() > 0 {
        lemma_expand_cells_len(a.drop_last());
    }
}

/// The string shown for `chars[lo..hi]`: each tab as four spaces.
fn expand_piece(chars: &Vec<char>, lo: usize, hi: usize) -> (s: String)
    requires
        lo <= hi <= chars.len(),
    ensures
        s@ == expand_text(chars@.subrange(lo as int, hi as int)),
{
    let mut s = String::new();
    let mut i = lo;
    while i < hi
        invariant
            lo <= i <= hi <= chars.len(),
            s@ == expand_text(chars@.subrange(lo as int, i as int)),
        decreases hi - i,
    {
        let c = chars[i];
        if c == '\t' {
            push_char(&mut s, ' ');
            push_char(&mut s, ' ');
            push_char(&mut s, ' ');
            push_char(&mut s, ' ');
        } else {
            push_char(&mut s, c);
        }
        proof {
            assert(chars@.subrange(lo as int, i + 1) =~= chars@.subrange(lo as int, i as int).push(
                c,
            ));
            lemma_expand_text_push(chars@.subrange(lo as int, i as int), c);
        }
        i += 1;
    }
    s
}

/// Moves the line being built to the finished lines.
fn flush_line(result: &mut Vec<Vec<StyledSpan>>, current: &mut Vec<StyledSpan>)
    ensures
        final(result)@ == old(result)@.push(*old(current)),
        final(current)@.len() == 0,
        lines_cells(final(result)@) == lines_cells(old(result)@) + spans_cells(old(current)@),
        spans_cells(final(current)@) == Seq::<(char, Style)>::empty(),
{
    let mut full: Vec<StyledSpan> = Vec::new();
    std::mem::swap(&mut full, current);
    proof {
        assert(old(result)@.push(full).drop_last() =~= old(result)@);
    }
    result.push(full);
}

/// Appends a span to the line being built.
fn push_span(current: &mut Vec<StyledSpan>, sp: StyledSpan)
    ensures
        final(current)@ == old(current)@.push(sp),
        spans_cells(final(current)@) == spans_cells(old(current)@) + span_cells(sp),
        line_width(final(current)@) == line_width(old(current)@) + text_width(sp.content@),
{
    proof {
        assert(old(current)@.push(sp).drop_last() =~= old(current)@);
    }
    current.push(sp);
}

/// Laying out `chars[pos..end]` adds their expansion, in `style`.
proof fn lemma_lay_out(
    done: Seq<(char, Style)>,
    chars: Seq<char>,
    pos: int,
    end: int,
    style: Style,
)
    requires
        0 <= pos <= end <= chars.len(),
    ensures
        expand_cells(done + with_style(chars.take(end), style)) == expand_cells(
            done + with_style(chars.take(pos), style),
        ) + with_style(expand_text(chars.subrange(pos, end)), style),
{
    let chunk = chars.subrange(pos, end);
    assert(chars.take(end) =~= chars.take(pos) + chunk);
    assert(with_style(chars.take(end), style) =~= with_style(chars.take(pos), style) + with_style(
        chunk,
        style,
    ));
    assert(done + with_style(chars.take(end), style) =~= (done + with_style(chars.take(pos), style))
        + with_style(chunk, style));
    lemma_expand_cells_add(done + with_style(chars.take(pos), style), with_style(chunk, style));
    lemma_expand_cells_styled(chunk, style);
}

/// A nonempty text expands to a nonempty one.
proof fn lemma_expand_text_len(s: Seq<char>)
    ensures
        s.len() > 0 ==> expand_text(s).len() > 0,
{
    if s.len() > 0 {
        assert(expand_char(s.last()).len() > 0);
    }
}

/// One character, laid out alone.
proof fn lemma_lone_char(chars: Seq<char>, pos: int)
    requires
        0 <= pos < chars.len(),
    ensures
        expand_text(chars.subrange(pos, pos + 1)) == expand_char(chars[pos]),
        text_width(expand_char(chars[pos])) == cell_width(chars[pos]),
        expand_char(chars[pos]).len() == 1 || expand_char(chars[pos]) == expand_char('\t'),
        Seq::<StyledSpan>::empty().len() == 0,
{
    let one = chars.subrange(pos, pos + 1);
    let ch = chars[pos];
    assert(one =~= seq![ch]);
    assert(one.drop_last() =~= Seq::<char>::empty());
    assert(expand_text(Seq::<char>::empty()) =~= Seq::<char>::empty());
    assert(expand_text(one) =~= expand_char(ch));
    lemma_expand_text_width(one);
    lemma_text_width_one(ch);
}

/// The layout state that the lines built so far stand for.
pub open spec fn built_state(result: Seq<Vec<StyledSpan>>, current: Seq<StyledSpan>, col: nat) -> WrapState {
    (line_cells(result), spans_cells(current), col, false)
}

/// A run of characters that all fit joins the line being built.
proof fn lemma_place_run(
    s0: WrapState,
    c: WrapState,
    chars: Seq<char>,
    pos: int,
    end: int,
    sty: Style,
    max_cols: nat,
)
    requires
        0 <= pos < end <= chars.len(),
        end_run(place_chars(s0, chars.take(pos), sty, max_cols), max_cols) == c,
        place_chars(s0, chars.take(pos), sty, max_cols).3 ==> place_chars(
            s0,
            chars.take(pos),
            sty,
            max_cols,
        ).2 + cell_width(chars[pos]) > max_cols,
        forall|k: int|
            pos < k <= end ==> c.2 + text_width(#[trigger] chars.subrange(pos, k)) <= max_cols,
    ensures
        place_chars(s0, chars.take(end), sty, max_cols) == (
            c.0,
            c.1 + with_style(expand_text(chars.subrange(pos, end)), sty),
            c.2 + text_width(chars.subrange(pos, end)),
            true,
        ),
    decreases end - pos,
{
    let t = chars.take(end);
    assert(t.drop_last() =~= chars.take(end - 1));
    assert(t.last() == chars[end - 1]);
    let ch = chars[end - 1];
    let run = chars.subrange(pos, end);
    assert(run.drop_last() =~= chars.subrange(pos, end - 1));
    assert(run.last() == ch);
    lemma_expand_text_push(chars.subrange(pos, end - 1), ch);
    assert(chars.subrange(pos, end - 1).push(ch) =~= run);
    let prev = chars.subrange(pos, end - 1);
    assert(with_style(expand_text(run), sty) =~= with_style(expand_text(prev), sty) + with_style(
        expand_char(ch),
        sty,
    ));
    assert(c.2 + text_width(run) <= max_cols);
    if end - 1 == pos {
        let m = place_chars(s0, chars.take(pos), sty, max_cols);
        assert(prev =~= Seq::<char>::empty());
        assert(expand_text(prev) =~= Seq::<char>::empty());
        assert(with_style(Seq::<char>::empty(), sty) =~= Seq::<(char, Style)>::empty());
        assert(c.1 + Seq::<(char, Style)>::empty() =~= c.1);
        assert(text_width(prev) == 0);
        if m.2 + cell_width(ch) <= max_cols {
            assert(!m.3);
            assert(m == c);
        }
    } else {
        lemma_place_run(s0, c, chars, pos, end - 1, sty, max_cols);
        assert(c.1 + with_style(expand_text(prev), sty) + with_style(expand_char(ch), sty) =~= c.1
            + with_style(expand_text(run), sty));
    }
}

/// A character that does not fit even after the run is closed goes alone
/// to a new line.
proof fn lemma_place_forced(
    s0: WrapState,
    c: WrapState,
    chars: Seq<char>,
    pos: int,
    sty: Style,
    max_cols: nat,
)
    requires
        0 <= pos < chars.len(),
        end_run(place_chars(s0, chars.take(pos), sty, max_cols), max_cols) == c,
        place_chars(s0, chars.take(pos), sty, max_cols).3 ==> place_chars(
            s0,
            chars.take(pos),
            sty,
            max_cols,
        ).2 + cell_width(chars[pos]) > max_cols,
        c.2 + cell_width(chars[pos]) > max_cols,
    ensures
        place_chars(s0, chars.take(pos + 1), sty, max_cols) == (
            if c.1.len() > 0 {
                c.0.push(c.1)
            } else {
                c.0
            },
            with_style(expand_char(chars[pos]), sty),
            forced_width(chars[pos]),
            false,
        ),
{
    let t = chars.take(pos + 1);
    assert(t.drop_last() =~= chars.take(pos));
    assert(t.last() == chars[pos]);
    let m = place_chars(s0, chars.take(pos), sty, max_cols);
    if !m.3 {
        assert(m == c);
    }
}

/// Splits styled spans into lines of at most `max_cols` columns.
///
/// Characters are laid out one after the other by display width, a tab
/// counting `TAB_WIDTH` columns and shown as that many spaces. A line ends
/// when the next character would not fit, or when a span ends exactly at
/// the limit. A character wider than the room left starts a new line; one
/// wider than `max_cols` gets a line of its own. Styles never change at a
/// break, and there is always at least one line.
pub fn wrap_styled_spans(spans: &[StyledSpan], max_cols: usize) -> (lines: Vec<Vec<StyledSpan>>)
    ensures
        wrapped_correctly(spans@, max_cols as nat, lines@),
{
    let mut result: Vec<Vec<StyledSpan>> = Vec::new();
    let mut current: Vec<StyledSpan> = Vec::new();
    let mut col: usize = 0;
    let mut si: usize = 0;
    let ghost mc = max_cols as nat;
    proof {
        assert(line_cells(result@) =~= Seq::<Seq<(char, Style)>>::empty());
        assert(spans_cells(current@) =~= Seq::<(char, Style)>::empty());
        assert(spans@.take(0) =~= Seq::<StyledSpan>::empty());
    }
    while si < spans.len()
        invariant
            si <= spans.len(),
            mc == max_cols as nat,
            place_spans(spans@.take(si as int), mc) == built_state(result@, current@, col as nat),
            lines_cells(result@) + spans_cells(current@) == expand_cells(
                spans_cells(spans@.take(si as int)),
            ),
            current@.len() == 0 ==> col == 0,
            line_width(current@) <= col,
            col <= max_cols || lone_piece(current@) && col <= TAB_WIDTH,
            forall|i: int|
                0 <= i < result@.len() ==> line_width(#[trigger] result@[i]@) <= max_cols || (
                lone_piece(result@[i]@) && line_width(result@[i]@) <= TAB_WIDTH),
            forall|i: int| 0 <= i < result@.len() ==> (#[trigger] result@[i]@).len() > 0,
            forall|i: int, j: int|
                0 <= i < result@.len() && 0 <= j < result@[i]@.len() ==> (
                #[trigger] result@[i]@[j]).content@.len() > 0,
            forall|j: int| 0 <= j < current@.len() ==> (#[trigger] current@[j]).content@.len() > 0,
        decreases spans.len() - si,
    {
        let style = spans[si].style;
        let chars = chars_of(spans[si].content.as_str());
        let ghost done = spans_cells(spans@.take(si as int));
        let ghost s0 = place_spans(spans@.take(si as int), mc);
        let mut pos: usize = 0;
        proof {
            assert(chars@.take(0) =~= Seq::<char>::empty());
        }
        while pos < chars.len()
            invariant
                si < spans.len(),
                mc == max_cols as nat,
                pos <= chars.len(),
                chars@ == spans@[si as int].content@,
                style == spans@[si as int].style,
                done == spans_cells(spans@.take(si as int)),
                s0 == place_spans(spans@.take(si as int), mc),
                end_run(place_chars(s0, chars@.take(pos as int), style, mc), mc) == built_state(
                    result@,
                    current@,
                    col as nat,
                ),
                place_chars(s0, chars@.take(pos as int), style, mc).3 && pos < chars@.len()
                    ==> place_chars(s0, chars@.take(pos as int), style, mc).2 + cell_width(
                    chars@[pos as int],
                ) > mc,
                lines_cells(result@) + spans_cells(current@) == expand_cells(
                    done + with_style(chars@.take(pos as int), style),
                ),
                current@.len() == 0 ==> col == 0,
                line_width(current@) <= col,
                col <= max_cols || lone_piece(current@) && col <= TAB_WIDTH,
                forall|i: int|
                    0 <= i < result@.len() ==> line_width(#[trigger] result@[i]@) <= max_cols || (
                    lone_piece(result@[i]@) && line_width(result@[i]@) <= TAB_WIDTH),
                forall|i: int| 0 <= i < result@.len() ==> (#[trigger] result@[i]@).len() > 0,
                forall|i: int, j: int|
                    0 <= i < result@.len() && 0 <= j < result@[i]@.len() ==> (
                    #[trigger] result@[i]@[j]).content@.len() > 0,
                forall|j: int|
                    0 <= j < current@.len() ==> (#[trigger] current@[j]).content@.len() > 0,
            decreases chars.len() - pos,
        {
            // Take the characters that still fit on the line.
            let mut end: usize = pos;
            let mut chars_col: usize = 0;
            while end < chars.len()
                invariant
                    pos <= end <= chars.len(),
                    chars_col == text_width(chars@.subrange(pos as int, end as int)),
                    end > pos ==> col + chars_col <= max_cols,
                    chars_col <= max_cols,
                    forall|k: int|
                        pos < k <= end ==> col + text_width(#[trigger] chars@.subrange(pos as int, k))
                            <= max_cols,
                ensures
                    pos <= end <= chars.len(),
                    chars_col == text_width(chars@.subrange(pos as int, end as int)),
                    end > pos ==> col + chars_col <= max_cols,
                    forall|k: int|
                        pos < k <= end ==> col + text_width(#[trigger] chars@.subrange(pos as int, k))
                            <= max_cols,
                    end < chars.len() ==> col + chars_col + cell_width(chars@[end as int])
                        > max_cols,
                decreases chars.len() - end,
            {
                let w = cell_width_of(chars[end]);
                if (col as u128) + (chars_col as u128) + (w as u128) > (max_cols as u128) {
                    break;
                }
                proof {
                    assert(chars@.subrange(pos as int, end + 1) =~= chars@.subrange(
                        pos as int,
                        end as int,
                    ).push(chars@[end as int]));
                    assert(chars@.subrange(pos as int, end + 1).drop_last() =~= chars@.subrange(
                        pos as int,
                        end as int,
                    ));
                }
                chars_col = chars_col + w;
                end += 1;
            }
            if end == pos {
                // Not even one character fits: it opens a new line.
                let ghost c = built_state(result@, current@, col as nat);
                proof {
                    assert(chars@.subrange(pos as int, pos as int) =~= Seq::<char>::empty());
                    assert(text_width(Seq::<char>::empty()) == 0);
                    lemma_place_forced(s0, c, chars@, pos as int, style, mc);
                }
                if current.len() > 0 {
                    let ghost cur_before = current@;
                    proof {
                        lemma_spans_cells_nonempty(cur_before);
                    }
                    flush_line(&mut result, &mut current);
                }
                let ghost mid = line_cells(result@);
                let ch = chars[pos];
                let first_w = cell_width_of(ch);
                let piece = expand_piece(&chars, pos, pos + 1);
                proof {
                    lemma_lay_out(done, chars@, pos as int, pos + 1, style);
                    lemma_lone_char(chars@, pos as int);
                }
                push_span(&mut current, StyledSpan { content: piece, style });
                col =
                match char_width(ch) {
                    Some(w) => w,
                    None => {
                        if ch == '\t' {
                            TAB_WIDTH
                        } else {
                            1
                        }
                    },
                };
                proof {
                    assert(spans_cells(current@) =~= with_style(expand_char(ch), style)) by {
                        assert(spans_cells(Seq::<StyledSpan>::empty()) =~= Seq::<(
                            char,
                            Style,
                        )>::empty());
                    }
                    assert(chars@.take(pos + 1).drop_last() =~= chars@.take(pos as int));
                }
                pos += 1;
            } else {
                let ghost c = built_state(result@, current@, col as nat);
                let ghost p0 = pos;
                proof {
                    lemma_place_run(s0, c, chars@, pos as int, end as int, style, mc);
                }
                let piece = expand_piece(&chars, pos, end);
                proof {
                    lemma_lay_out(done, chars@, pos as int, end as int, style);
                    lemma_expand_text_width(chars@.subrange(pos as int, end as int));
                    lemma_expand_text_len(chars@.subrange(pos as int, end as int));
                }
                push_span(&mut current, StyledSpan { content: piece, style });
                col = col + chars_col;
                pos = end;
                if col >= max_cols {
                    flush_line(&mut result, &mut current);
                    col = 0;
                    proof {
                        assert(line_cells(result@) =~= c.0.push(
                            c.1 + with_style(
                                expand_text(chars@.subrange(p0 as int, end as int)),
                                style,
                            ),
                        ));
                        assert(spans_cells(current@) =~= Seq::<(char, Style)>::empty());
                    }
                }
            }
        }
        proof {
            assert(chars@.take(chars@.len() as int) =~= chars@);
            assert(spans@.take(si + 1).drop_last() =~= spans@.take(si as int));
            assert(spans_cells(spans@.take(si + 1)) == done + span_cells(spans@[si as int]));
        }
        si += 1;
    }
    proof {
        assert(spans@.take(spans@.len() as int) =~= spans@);
    }
    proof {
        lemma_expand_cells_len(spans_cells(spans@));
        if spans_cells(spans@).len() == 0 {
            if result@.len() > 0 {
                assert(result@[0]@.len() > 0);
                lemma_lines_cells_nonempty(result@);
            }
            if current@.len() > 0 {
                lemma_spans_cells_nonempty(current@);
            }
        }
        if current@.len() > 0 {
            lemma_spans_cells_nonempty(current@);
        } else {
            assert(spans_cells(current@) =~= Seq::<(char, Style)>::empty());
        }
    }
    if current.len() > 0 || result.len() == 0 {
        proof {
            assert(result@.push(current).drop_last() =~= result@);
            assert(line_cells(result@.push(current)) =~= line_cells(result@).push(
                spans_cells(current@),
            ));
        }
        result.push(current);
    }
    result
}

/// Lines that all hold a nonempty span have characters.
proof fn lemma_lines_cells_nonempty(lines: Seq<Vec<StyledSpan>>)
    requires
        forall|i: int, j: int|
            0 <= i < lines.len() && 0 <= j < lines[i]@.len() ==> (
            #[trigger] lines[i]@[j]).content@.len() > 0,
        exists|i: int| 0 <= i < lines.len() && (#[trigger] lines[i]@).len() > 0,
    ensures
        lines_cells(lines).len() > 0,
    decreases lines.len(),
{
    let k = choose|i: int| 0 <= i < lines.len() && (#[trigger] lines[i]@).len() > 0;
    if k == lines.len() - 1 {
        let l = lines.last()@;
        lemma_spans_cells_nonempty(l);
    } else {
        assert(lines.drop_last()[k] == lines[k]);
        lemma_lines_cells_nonempty(lines.drop_last());
    }
}

/// A nonempty line of nonempty spans has characters.
proof fn lemma_spans_cells_nonempty(l: Seq<StyledSpan>)
    requires
        l.len() > 0,
        forall|j: int| 0 <= j < l.len() ==> (#[trigger] l[j]).content@.len() > 0,
    ensures
        spans_cells(l).len() > 0,
{
    assert(span_cells(l.last()).len() > 0);
}

} // verus!
