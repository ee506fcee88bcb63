//! Display width of characters, as terminals lay them out.

use vstd::prelude::*;

verus! {

/// The column count that the Unicode width tables give a printable
/// character at or above U+00A0.
pub uninterp spec fn table_width(c: char) -> nat;

/// Whether `c` is a control code: below U+0020, or from U+007F to U+009F.
pub open spec fn is_control(c: char) -> bool {
    (c as u32) < 0x20 || (0x7f <= (c as u32) && (c as u32) < 0xa0)
}

/// The width of `c` in columns, `None` for a control code.
pub open spec fn char_width_spec(c: char) -> Option<nat> {
    if is_control(c) {
        None
    } else if (c as u32) < 0x7f {
        Some(1)
    } else {
        Some(table_width(c))
    }
}

/// Columns a tab stands for.
pub const TAB_WIDTH: usize = 4;

/// Columns a character takes when laid out: its Unicode width, a tab as
/// `TAB_WIDTH`, any other control code as nothing.
pub open spec fn cell_width(c: char) -> nat {
    if c == '\t' {
        TAB_WIDTH as nat
    } else {
        match char_width_spec(c) {
            Some(w) => w,
            None => 0,
        }
    }
}

/// Columns taken by a character sequence.
pub open spec fn text_width(s: Seq<char>) -> nat
    decreases s.len(),
{
    if s.len() == 0 {
        0
    } else {
        text_width(s.drop_last()) + cell_width(s.last())
    }
}

/// The width of a character in columns, `None` for a control code.
///
/// Trusted: wraps `UnicodeWidthChar::width` of unicode-width, which gives
/// `None` for U+0000..U+001F and U+007F..U+009F, 1 for the other ASCII
/// characters, and a table entry of at most 3 for everything from U+00A0.
#[verifier::external_body]
pub(crate) fn char_width(c: char) -> (r: Option<usize>)
    ensures
        r is None <==> is_control(c),
        r matches Some(w) ==> w <= 3,
        r matches Some(w) ==> (c as u32) < 0x7f ==> w == 1,
        r matches Some(w) ==> (c as u32) >= 0x7f ==> w == table_width(c),
{
    unicode_width::UnicodeWidthChar::width(c)
}

/// Columns a character takes when laid out (see `cell_width`).
pub fn cell_width_of(c: char) -> (w: usize)
    ensures
        w == cell_width(c),
        w <= 4,
{
    if c == '\t' {
        TAB_WIDTH
    } else {
        match char_width(c) {
            Some(w) => w,
            None => 0,
        }
    }
}

/// `text_width` of a concatenation.
pub proof fn lemma_text_width_add(a: Seq<char>, b: Seq<char>)
    ensures
        text_width(a + b) == text_width(a) + text_width(b),
    decreases b.len(),
{
    if b.len() == 0 {
        assert(a + b =~= a);
    } else {
        lemma_text_width_add(a, b.drop_last());
        assert((a + b).drop_last() =~= a + b.drop_last());
    }
}

/// `text_width` of a one-character sequence.
pub proof fn lemma_text_width_one(c: char)
    ensures
        text_width(seq![c]) == cell_width(c),
{
    assert(seq![c].drop_last() =~= Seq::<char>::empty());
    assert(text_width(Seq::<char>::empty()) == 0);
    assert(seq![c].last() == c);
}


/// The width in columns that unicode-width gives a whole string.
pub uninterp spec fn str_table_width(s: Seq<char>) -> nat;

/// Trusted: calls `UnicodeWidthStr::width` of unicode-width, which depends
/// on the text alone.
#[verifier::external_body]
fn str_width(s: &str) -> (r: usize)
    ensures
        r == str_table_width(s@),
{
    unicode_width::UnicodeWidthStr::width(s)
}

/// `s` without its OSC escape sequences: an ESC followed by `]` drops
/// everything up to and including the next BEL (or the rest, without one).
pub open spec fn strip_osc(s: Seq<char>) -> Seq<char>
    decreases s.len(),
{
    if s.len() == 0 {
        Seq::empty()
    } else if s.len() >= 2 && s[0] == '\u{1b}' && s[1] == ']' {
        proof {
            lemma_skip_to_bel_len(s.skip(2));
        }
        strip_osc(skip_to_bel(s.skip(2)))
    } else {
        seq![s[0]] + strip_osc(s.skip(1))
    }
}

/// What follows the first BEL of `s`; nothing where there is none.
pub open spec fn skip_to_bel(s: Seq<char>) -> Seq<char>
    decreases s.len(),
{
    if s.len() == 0 {
        Seq::empty()
    } else if s[0] == '\u{7}' {
        s.skip(1)
    } else {
        skip_to_bel(s.skip(1))
    }
}

/// Skipping to a BEL never lengthens a text.
pub proof fn lemma_skip_to_bel_len(s: Seq<char>)
    ensures
        skip_to_bel(s).len() <= s.len(),
    decreases s.len(),
{
    if s.len() > 0 && s[0] != '\u{7}' {
        lemma_skip_to_bel_len(s.skip(1));
    }
}

/// The columns a text takes on screen, OSC escape sequences (such as
/// hyperlinks) taking none.
pub fn display_width(s: &str) -> (w: usize)
    ensures
        w == str_table_width(strip_osc(s@)),
{
    let v = crate::text::chars_of(s);
    let mut visible = String::new();
    let mut i: usize = 0;
    proof {
        assert(v@.skip(0) =~= v@);
    }
    while i < v.len()
        invariant
            i <= v@.len(),
            v@ == s@,
            visible@ + strip_osc(v@.skip(i as int)) == strip_osc(s@),
        decreases v@.len() - i,
    {
        if v[i] == '\u{1b}' && i + 1 < v.len() && v[i + 1] == ']' {
            let ghost rest = v@.skip(i as int);
            let mut j: usize = i + 2;
            proof {
                assert(rest.skip(2) =~= v@.skip(j as int));
                assert(strip_osc(rest) == strip_osc(skip_to_bel(v@.skip(j as int))));
            }
            while j < v.len() && v[j] != '\u{7}'
                invariant
                    i + 2 <= j <= v@.len(),
                    v@ == s@,
                    skip_to_bel(v@.skip(j as int)) == skip_to_bel(rest.skip(2)),
                decreases v@.len() - j,
            {
                proof {
                    assert(v@.skip(j as int).skip(1) =~= v@.skip(j + 1));
                }
                j += 1;
            }
            if j < v.len() {
                proof {
                    assert(v@.skip(j as int).skip(1) =~= v@.skip(j + 1));
                }
                i = j + 1;
            } else {
                proof {
                    assert(v@.skip(j as int) =~= Seq::<char>::empty());
                    assert(v@.skip(v@.len() as int) =~= Seq::<char>::empty());
                }
                i = j;
            }
        } else {
            let ghost rest = v@.skip(i as int);
            crate::text::push_char(&mut visible, v[i]);
            proof {
                assert(rest.skip(1) =~= v@.skip(i + 1));
                assert(strip_osc(rest) == seq![rest[0]] + strip_osc(rest.skip(1)));
                assert(visible@ + strip_osc(v@.skip(i + 1)) =~= (visible@.drop_last() + seq![v@[i as int]]) + strip_osc(
                    v@.skip(i + 1),
                ));
            }
            i += 1;
        }
    }
    proof {
        assert(v@.skip(i as int) =~= Seq::<char>::empty());
        assert(visible@ + Seq::<char>::empty() =~= visible@);
    }
    str_width(visible.as_str())
}
} // verus!
