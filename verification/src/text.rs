//! Character and string helpers shared by the rendering code.

use vstd::prelude::*;
use vstd::utf8::*;

verus! {

/// Appends one character to a string.
///
/// Trusted: wraps `String::push`, which std documents as appending the
/// given `char` to the end of the string.
#[verifier::external_body]
pub fn push_char(s: &mut String, c: char)
    ensures
        final(s)@ == old(s)@.push(c),
{
    s.push(c);
}

/// The characters of a string slice, in order.
pub fn chars_of(s: &str) -> (v: Vec<char>)
    ensures
        v@ == s@,
{
    let mut v: Vec<char> = Vec::new();
    for c in it: s.chars()
        invariant
            v@ == it.seq().take(it.index() as int),
            it.seq() == s@,
    {
        v.push(c);
    }
    v
}

/// Builds a string from a character sequence.
pub fn string_of(v: &[char]) -> (s: String)
    ensures
        s@ == v@,
{
    let mut s = String::new();
    let mut i: usize = 0;
    while i < v.len()
        invariant
            i <= v.len(),
            s@ == v@.take(i as int),
        decreases v.len() - i,
    {
        push_char(&mut s, v[i]);
        i += 1;
        assert(s@ == v@.take(i as int));
    }
    assert(v@.take(v.len() as int) == v@);
    s
}


/// Decodes UTF-8 bytes into a string.
///
/// Trusted: wraps `String::from_utf8`, which std documents as succeeding
/// exactly when the bytes are valid UTF-8 and as keeping the bytes unchanged;
/// the characters are then those the bytes encode.
#[verifier::external_body]
pub fn utf8_to_string(bytes: Vec<u8>) -> (r: Option<String>)
    ensures
        r is Some <==> valid_utf8(bytes@),
        r matches Some(s) ==> s@ == decode_utf8(bytes@),
{
    String::from_utf8(bytes).ok()
}

/// Decodes bytes known to be valid UTF-8.
pub fn string_from_utf8(bytes: Vec<u8>) -> (s: String)
    requires
        valid_utf8(bytes@),
    ensures
        s@ == decode_utf8(bytes@),
{
    match utf8_to_string(bytes) {
        Some(s) => s,
        None => {
            assert(false);
            String::new()
        },
    }
}

/// Decimal digits of `n`.
pub open spec fn decimal_chars(n: nat) -> Seq<char>
    decreases n,
{
    if n < 10 {
        seq![digit_char(n)]
    } else {
        decimal_chars(n / 10).push(digit_char(n % 10))
    }
}

/// The ASCII digit for `d < 10`.
pub open spec fn digit_char(d: nat) -> char {
    if d == 0 {
        '0'
    } else if d == 1 {
        '1'
    } else if d == 2 {
        '2'
    } else if d == 3 {
        '3'
    } else if d == 4 {
        '4'
    } else if d == 5 {
        '5'
    } else if d == 6 {
        '6'
    } else if d == 7 {
        '7'
    } else if d == 8 {
        '8'
    } else {
        '9'
    }
}

fn digit(d: usize) -> (c: char)
    requires
        d < 10,
    ensures
        c == digit_char(d as nat),
{
    if d == 0 {
        '0'
    } else if d == 1 {
        '1'
    } else if d == 2 {
        '2'
    } else if d == 3 {
        '3'
    } else if d == 4 {
        '4'
    } else if d == 5 {
        '5'
    } else if d == 6 {
        '6'
    } else if d == 7 {
        '7'
    } else if d == 8 {
        '8'
    } else {
        '9'
    }
}

/// Appends the decimal digits of `n`.
pub fn push_decimal_chars(s: &mut String, n: usize)
    ensures
        final(s)@ == old(s)@ + decimal_chars(n as nat),
    decreases n,
{
    if n < 10 {
        push_char(s, digit(n));
        assert(decimal_chars(n as nat) =~= seq![digit_char(n as nat)]);
    } else {
        push_decimal_chars(s, n / 10);
        push_char(s, digit(n % 10));
    }
}

/// The decimal representation of `n`.
pub fn decimal_string(n: usize) -> (s: String)
    ensures
        s@ == decimal_chars(n as nat),
{
    let mut s = String::new();
    push_decimal_chars(&mut s, n);
    assert(s@ =~= decimal_chars(n as nat));
    s
}

/// Lines finished so far and the line being read, after reading `s` as
/// `str::lines` does: a line feed ends a line, dropping one carriage return
/// right before it.
pub open spec fn lines_progress(s: Seq<char>) -> (Seq<Seq<char>>, Seq<char>)
    decreases s.len(),
{
    if s.len() == 0 {
        (Seq::empty(), Seq::empty())
    } else {
        let (done, cur) = lines_progress(s.drop_last());
        if s.last() == '\n' {
            (done.push(strip_cr_chars(cur)), Seq::empty())
        } else {
            (done, cur.push(s.last()))
        }
    }
}

/// `l` without one trailing carriage return.
pub open spec fn strip_cr_chars(l: Seq<char>) -> Seq<char> {
    if l.len() > 0 && l.last() == '\r' {
        l.drop_last()
    } else {
        l
    }
}

/// The lines of `s` as `str::lines` yields them: split at each line feed,
/// which is dropped with a carriage return right before it; a last line
/// without a line feed is kept as it is, and an empty one is no line.
pub open spec fn text_lines(s: Seq<char>) -> Seq<Seq<char>> {
    let (done, cur) = lines_progress(s);
    if cur.len() > 0 {
        done.push(cur)
    } else {
        done
    }
}

/// The views of a vector of strings.
pub open spec fn string_views(v: Seq<String>) -> Seq<Seq<char>> {
    v.map_values(|s: String| s@)
}

/// The lines of `s`, as `str::lines` yields them.
pub fn lines_of(s: &str) -> (lines: Vec<String>)
    ensures
        string_views(lines@) == text_lines(s@),
{
    let chars = chars_of(s);
    let mut lines: Vec<String> = Vec::new();
    let mut cur: Vec<char> = Vec::new();
    let mut i: usize = 0;
    while i < chars.len()
        invariant
            i <= chars.len(),
            chars@ == s@,
            string_views(lines@) == lines_progress(chars@.take(i as int)).0,
            cur@ == lines_progress(chars@.take(i as int)).1,
        decreases chars.len() - i,
    {
        let c = chars[i];
        proof {
            assert(chars@.take(i + 1).drop_last() =~= chars@.take(i as int));
        }
        if c == '\n' {
            let n = cur.len();
            let line = if n > 0 && cur[n - 1] == '\r' {
                string_of(&cur.as_slice()[0..n - 1])
            } else {
                string_of(cur.as_slice())
            };
            proof {
                if n > 0 && cur@[n - 1] == '\r' {
                    assert(cur@.subrange(0, n - 1) =~= cur@.drop_last());
                }
                assert(string_views(lines@.push(line)) =~= string_views(lines@).push(line@));
            }
            lines.push(line);
            cur = Vec::new();
        } else {
            cur.push(c);
        }
        i += 1;
    }
    proof {
        assert(chars@.take(chars@.len() as int) =~= chars@);
    }
    if cur.len() > 0 {
        let line = string_of(cur.as_slice());
        proof {
            assert(string_views(lines@.push(line)) =~= string_views(lines@).push(line@));
        }
        lines.push(line);
    }
    lines
}

/// Appends a string slice.
pub fn push_str_chars(s: &mut String, t: &str)
    ensures
        final(s)@ == old(s)@ + t@,
{
    let v = chars_of(t);
    let mut i: usize = 0;
    while i < v.len()
        invariant
            i <= v.len(),
            v@ == t@,
            s@ == old(s)@ + v@.take(i as int),
        decreases v.len() - i,
    {
        push_char(s, v[i]);
        proof {
            assert(old(s)@ + v@.take(i + 1) =~= (old(s)@ + v@.take(i as int)).push(v@[i as int]));
        }
        i += 1;
    }
    proof {
        assert(v@.take(v@.len() as int) =~= v@);
    }
}

/// Whether `a` orders before `b` as `str`'s `Ord` orders them: character by
/// character, a proper prefix first.
pub open spec fn str_lt(a: Seq<char>, b: Seq<char>) -> bool
    decreases a.len(),
{
    if b.len() == 0 {
        false
    } else if a.len() == 0 {
        true
    } else if (a[0] as u32) < (b[0] as u32) {
        true
    } else if (a[0] as u32) > (b[0] as u32) {
        false
    } else {
        str_lt(a.drop_first(), b.drop_first())
    }
}

/// `str_lt` is transitive.
pub proof fn lemma_str_lt_transitive(a: Seq<char>, b: Seq<char>, c: Seq<char>)
    requires
        str_lt(a, b),
        str_lt(b, c),
    ensures
        str_lt(a, c),
    decreases a.len(),
{
    if a.len() > 0 && b.len() > 0 && c.len() > 0 && (a[0] as u32) == (b[0] as u32) && (b[0] as u32)
        == (c[0] as u32) {
        lemma_str_lt_transitive(a.drop_first(), b.drop_first(), c.drop_first());
    }
}

/// `str_lt` is a strict total order: of two different strings exactly one
/// orders first.
pub proof fn lemma_str_lt_total(a: Seq<char>, b: Seq<char>)
    ensures
        !(str_lt(a, b) && str_lt(b, a)),
        a != b ==> str_lt(a, b) || str_lt(b, a),
        !str_lt(a, a),
    decreases a.len(),
{
    if a.len() > 0 && b.len() > 0 {
        vstd::utf8::char_u32_cast(a[0], a[0] as u32);
        vstd::utf8::char_u32_cast(b[0], b[0] as u32);
        lemma_str_lt_total(a.drop_first(), b.drop_first());
        lemma_str_lt_total(a.drop_first(), a.drop_first());
        if (a[0] as u32) == (b[0] as u32) {
            assert(a[0] == b[0]);
            if a.drop_first() == b.drop_first() {
                assert forall|i: int| 0 <= i < a.len() implies a[i] == b[i] by {
                    if i > 0 {
                        assert(a[i] == a.drop_first()[i - 1]);
                        assert(b[i] == b.drop_first()[i - 1]);
                    }
                }
                assert(a =~= b);
            }
        }
    } else if a.len() > 0 {
        lemma_str_lt_total(a.drop_first(), a.drop_first());
    } else if b.len() == 0 {
        assert(a =~= b);
    }
}

/// Whether `a` orders before `b` (see `str_lt`).
pub fn str_less(a: &str, b: &str) -> (r: bool)
    ensures
        r == str_lt(a@, b@),
{
    let x = chars_of(a);
    let y = chars_of(b);
    let mut i: usize = 0;
    proof {
        assert(x@.skip(0) =~= x@);
        assert(y@.skip(0) =~= y@);
    }
    while i < x.len() && i < y.len()
        invariant
            i <= x.len(),
            i <= y.len(),
            x@ == a@,
            y@ == b@,
            str_lt(a@, b@) == str_lt(x@.skip(i as int), y@.skip(i as int)),
        decreases x.len() - i,
    {
        let cx = x[i] as u32;
        let cy = y[i] as u32;
        proof {
            assert(x@.skip(i as int)[0] == x@[i as int]);
            assert(y@.skip(i as int)[0] == y@[i as int]);
        }
        if cx != cy {
            return cx < cy;
        }
        proof {
            assert(x@.skip(i as int).drop_first() =~= x@.skip(i + 1));
            assert(y@.skip(i as int).drop_first() =~= y@.skip(i + 1));
        }
        i += 1;
    }
    i < y.len()
}

/// Whether two strings are equal.
pub fn str_eq(a: &str, b: &str) -> (r: bool)
    ensures
        r == (a@ == b@),
{
    let x = chars_of(a);
    let y = chars_of(b);
    if x.len() != y.len() {
        return false;
    }
    let mut i: usize = 0;
    while i < x.len()
        invariant
            i <= x.len(),
            x.len() == y.len(),
            x@ == a@,
            y@ == b@,
            x@.take(i as int) == y@.take(i as int),
        decreases x.len() - i,
    {
        if x[i] != y[i] {
            proof {
                assert(x@[i as int] != y@[i as int]);
            }
            return false;
        }
        proof {
            assert(x@.take(i + 1) =~= x@.take(i as int).push(x@[i as int]));
            assert(y@.take(i + 1) =~= y@.take(i as int).push(y@[i as int]));
        }
        i += 1;
    }
    proof {
        assert(x@.take(x@.len() as int) =~= x@);
        assert(y@.take(y@.len() as int) =~= y@);
    }
    true
}

/// Whether `s` starts with `p`.
pub open spec fn starts_with(s: Seq<char>, p: Seq<char>) -> bool {
    p.len() <= s.len() && s.take(p.len() as int) == p
}

/// Whether `p` occurs in `s`.
pub open spec fn contains_text(s: Seq<char>, p: Seq<char>) -> bool {
    exists|i: int| 0 <= i && i + p.len() <= s.len() && #[trigger] s.subrange(i, i + p.len()) == p
}

/// Whether `chars[i..]` starts with `p`.
fn matches_at(chars: &Vec<char>, i: usize, p: &Vec<char>) -> (r: bool)
    requires
        i <= chars.len(),
    ensures
        r == (i + p@.len() <= chars@.len() && chars@.subrange(i as int, i + p@.len()) == p@),
{
    if p.len() > chars.len() - i {
        return false;
    }
    let mut k: usize = 0;
    while k < p.len()
        invariant
            k <= p.len(),
            i + p@.len() <= chars@.len(),
            chars@.subrange(i as int, i + k) == p@.take(k as int),
        decreases p.len() - k,
    {
        let n = chars.len();
        assert(i + k < n);
        if chars[i + k] != p[k] {
            proof {
                assert(chars@.subrange(i as int, i + p@.len())[k as int] != p@[k as int]);
            }
            return false;
        }
        proof {
            assert(chars@.subrange(i as int, i + k + 1) =~= chars@.subrange(i as int, i + k).push(chars@[i + k]));
            assert(p@.take(k + 1) =~= p@.take(k as int).push(p@[k as int]));
        }
        k += 1;
    }
    proof {
        assert(p@.take(p@.len() as int) =~= p@);
    }
    true
}

/// Whether `s` starts with `p`.
pub fn starts_with_str(s: &str, p: &str) -> (r: bool)
    ensures
        r == starts_with(s@, p@),
{
    let cs = chars_of(s);
    let cp = chars_of(p);
    let r = matches_at(&cs, 0, &cp);
    proof {
        assert(cs@.subrange(0, p@.len() as int) =~= cs@.take(p@.len() as int));
    }
    r
}

/// Whether `p` occurs in `s`.
pub fn contains_str(s: &str, p: &str) -> (r: bool)
    ensures
        r == contains_text(s@, p@),
{
    let cs = chars_of(s);
    let cp = chars_of(p);
    if cp.len() == 0 {
        proof {
            let z: int = 0;
            assert(s@.subrange(z, z + p@.len()) =~= p@);
        }
        return true;
    }
    let mut i: usize = 0;
    while i < cs.len()
        invariant
            i <= cs.len(),
            cp@.len() > 0,
            cs@ == s@,
            cp@ == p@,
            forall|j: int| 0 <= j < i && j + p@.len() <= s@.len() ==> #[trigger] s@.subrange(j, j + p@.len()) != p@,
        decreases cs.len() - i,
    {
        if matches_at(&cs, i, &cp) {
            return true;
        }
        i += 1;
    }
    false
}

fn digit_u64(d: u64) -> (c: char)
    requires
        d < 10,
    ensures
        c == digit_char(d as nat),
{
    digit(d as usize)
}

/// Appends the decimal digits of a 64-bit number.
pub fn push_decimal_u64(s: &mut String, n: u64)
    ensures
        final(s)@ == old(s)@ + decimal_chars(n as nat),
    decreases n,
{
    if n < 10 {
        push_char(s, digit_u64(n));
        assert(decimal_chars(n as nat) =~= seq![digit_char(n as nat)]);
    } else {
        push_decimal_u64(s, n / 10);
        push_char(s, digit_u64(n % 10));
    }
}

} // verus!
