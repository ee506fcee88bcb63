//! Byte-level helpers for UTF-8 text kept as raw bytes.

use vstd::prelude::*;
use vstd::utf8::*;

verus! {

broadcast use {vstd::utf8::valid_utf8_concat, vstd::utf8::encode_utf8_valid_utf8};

/// The bytes of an ASCII line feed.
pub const LF: u8 = 10;

/// The bytes of an ASCII carriage return.
pub const CR: u8 = 13;

/// Largest index `j <= i` that does not point into the middle of a UTF-8
/// character (a continuation byte).
pub open spec fn floor_boundary(s: Seq<u8>, i: int) -> int
    decreases i,
{
    if i <= 0 || i >= s.len() || !is_continuation_byte(s[i]) {
        i
    } else {
        floor_boundary(s, i - 1)
    }
}

/// Smallest index `j >= i` that does not point into the middle of a UTF-8
/// character.
pub open spec fn ceil_boundary(s: Seq<u8>, i: int) -> int
    decreases s.len() - i,
{
    if i <= 0 || i >= s.len() || !is_continuation_byte(s[i]) {
        i
    } else {
        ceil_boundary(s, i + 1)
    }
}

/// Number of line feeds in `s`.
pub open spec fn count_newlines(s: Seq<u8>) -> nat
    decreases s.len(),
{
    if s.len() == 0 {
        0
    } else {
        count_newlines(s.drop_last()) + if s.last() == LF {
            1nat
        } else {
            0nat
        }
    }
}

/// True when byte index `i` of valid UTF-8 `s` starts a character (or is the
/// start or the end of `s`).
pub open spec fn at_boundary(s: Seq<u8>, i: int) -> bool {
    0 <= i <= s.len() && (i == 0 || i == s.len() || !is_continuation_byte(s[i]))
}

/// Splitting valid UTF-8 at a position that is not a continuation byte yields
/// two valid halves.
pub proof fn lemma_split_valid(s: Seq<u8>, i: int)
    requires
        valid_utf8(s),
        at_boundary(s, i),
    ensures
        valid_utf8(s.subrange(0, i)),
        valid_utf8(s.subrange(i, s.len() as int)),
{
    is_char_boundary_start_end_of_seq(s);
    if 0 < i < s.len() {
        is_char_boundary_iff_not_is_continuation_byte(s, i);
    }
    valid_utf8_split(s, i);
}

/// Any sub-range of valid UTF-8 cut at two boundaries is valid.
pub proof fn lemma_subrange_valid(s: Seq<u8>, i: int, j: int)
    requires
        valid_utf8(s),
        at_boundary(s, i),
        at_boundary(s, j),
        i <= j,
    ensures
        valid_utf8(s.subrange(i, j)),
{
    lemma_split_valid(s, j);
    let p = s.subrange(0, j);
    assert(at_boundary(p, i));
    lemma_split_valid(p, i);
    assert(p.subrange(i, p.len() as int) =~= s.subrange(i, j));
}

/// An ASCII byte sequence is valid UTF-8.
pub proof fn lemma_ascii_valid(s: Seq<u8>)
    requires
        forall|k: int| 0 <= k < s.len() ==> #[trigger] s[k] < 0x80,
    ensures
        valid_utf8(s),
    decreases s.len(),
{
    if s.len() > 0 {
        let rest = s.subrange(1, s.len() as int);
        lemma_ascii_valid(rest);
        reveal_with_fuel(valid_utf8, 2);
        assert(pop_first_scalar(s) =~= rest);
    }
}

/// `floor_boundary` stays in range and lands on a boundary.
pub proof fn lemma_floor_boundary(s: Seq<u8>, i: int)
    requires
        0 <= i <= s.len(),
    ensures
        0 <= floor_boundary(s, i) <= i,
        at_boundary(s, floor_boundary(s, i)),
    decreases i,
{
    if !(i <= 0 || i >= s.len() || !is_continuation_byte(s[i])) {
        lemma_floor_boundary(s, i - 1);
    }
}

/// `ceil_boundary` stays in range and lands on a boundary.
pub proof fn lemma_ceil_boundary(s: Seq<u8>, i: int)
    requires
        0 <= i <= s.len(),
    ensures
        i <= ceil_boundary(s, i) <= s.len(),
        at_boundary(s, ceil_boundary(s, i)),
    decreases s.len() - i,
{
    if !(i <= 0 || i >= s.len() || !is_continuation_byte(s[i])) {
        lemma_ceil_boundary(s, i + 1);
    }
}

/// A non-empty valid UTF-8 sequence does not start with a continuation byte.
pub proof fn lemma_valid_starts_at_boundary(b: Seq<u8>)
    requires
        valid_utf8(b),
    ensures
        b.len() == 0 || !is_continuation_byte(b[0]),
{
    if b.len() > 0 {
        is_char_boundary_start_end_of_seq(b);
        is_char_boundary_iff_not_is_continuation_byte(b, 0);
    }
}

/// Below the end of `a`, `floor_boundary` does not see what follows `a`.
pub proof fn lemma_floor_prefix(a: Seq<u8>, b: Seq<u8>, i: int)
    requires
        0 <= i < a.len(),
    ensures
        floor_boundary(a + b, i) == floor_boundary(a, i),
    decreases i,
{
    assert((a + b)[i] == a[i]);
    if i > 0 && is_continuation_byte(a[i]) {
        lemma_floor_prefix(a, b, i - 1);
    }
}

/// Past the end of `a`, `floor_boundary` of `a + b` is that of `b`, shifted.
pub proof fn lemma_floor_suffix(a: Seq<u8>, b: Seq<u8>, i: int)
    requires
        a.len() <= i <= a.len() + b.len(),
        b.len() == 0 || !is_continuation_byte(b[0]),
    ensures
        floor_boundary(a + b, i) == a.len() + floor_boundary(b, i - a.len()),
    decreases i,
{
    if i == a.len() + b.len() {
    } else if i == a.len() {
        assert((a + b)[i] == b[0]);
    } else {
        assert((a + b)[i] == b[i - a.len()]);
        if is_continuation_byte(b[i - a.len()]) {
            lemma_floor_suffix(a, b, i - 1);
        }
    }
}

/// Past the end of `a`, `ceil_boundary` of `a + b` is that of `b`, shifted.
pub proof fn lemma_ceil_suffix(a: Seq<u8>, b: Seq<u8>, i: int)
    requires
        a.len() <= i <= a.len() + b.len(),
        b.len() == 0 || !is_continuation_byte(b[0]),
    ensures
        ceil_boundary(a + b, i) == a.len() + ceil_boundary(b, i - a.len()),
    decreases a.len() + b.len() - i,
{
    if i == a.len() + b.len() {
    } else if i == a.len() {
        assert((a + b)[i] == b[0]);
    } else {
        assert((a + b)[i] == b[i - a.len()]);
        if is_continuation_byte(b[i - a.len()]) {
            lemma_ceil_suffix(a, b, i + 1);
        }
    }
}

/// Up to the end of `a`, `ceil_boundary` of `a + b` is that of `a` when `b`
/// starts a character.
pub proof fn lemma_ceil_prefix(a: Seq<u8>, b: Seq<u8>, i: int)
    requires
        0 <= i <= a.len(),
        b.len() == 0 || !is_continuation_byte(b[0]),
    ensures
        ceil_boundary(a + b, i) == ceil_boundary(a, i),
    decreases a.len() - i,
{
    if i == a.len() {
        if b.len() > 0 {
            assert((a + b)[i] == b[0]);
        }
    } else {
        assert((a + b)[i] == a[i]);
        if i > 0 && is_continuation_byte(a[i]) {
            lemma_ceil_prefix(a, b, i + 1);
        }
    }
}

/// `ceil_boundary` is constant from `i` up to its value at `i`.
pub proof fn lemma_ceil_between(s: Seq<u8>, i: int, x: int)
    requires
        0 <= i <= x,
        i <= s.len(),
        x <= ceil_boundary(s, i),
    ensures
        ceil_boundary(s, x) == ceil_boundary(s, i),
    decreases x - i,
{
    if x > i {
        lemma_ceil_between(s, i + 1, x);
    }
}

/// `ceil_boundary` on a suffix that starts at a boundary.
pub proof fn lemma_ceil_skip(s: Seq<u8>, c: int, j: int)
    requires
        at_boundary(s, c),
        0 <= j <= s.len() - c,
    ensures
        ceil_boundary(s.subrange(c, s.len() as int), j) + c == ceil_boundary(s, c + j),
    decreases s.len() - c - j,
{
    let t = s.subrange(c, s.len() as int);
    if j == 0 {
    } else if j == t.len() {
    } else {
        assert(t[j] == s[c + j]);
        if is_continuation_byte(t[j]) {
            lemma_ceil_skip(s, c, j + 1);
        }
    }
}

/// True when `b` is a UTF-8 continuation byte.
pub fn is_continuation(b: u8) -> (r: bool)
    ensures
        r == is_continuation_byte(b),
{
    0x80 <= b && b <= 0xbf
}

/// Computes `floor_boundary(s, i)`.
pub fn floor_char_boundary(s: &[u8], i: usize) -> (r: usize)
    requires
        i <= s@.len(),
    ensures
        r == floor_boundary(s@, i as int),
{
    let mut j = i;
    while !(j == 0 || j >= s.len() || !is_continuation(s[j]))
        invariant
            j <= i <= s@.len(),
            floor_boundary(s@, j as int) == floor_boundary(s@, i as int),
        decreases j,
    {
        j -= 1;
    }
    j
}

/// Computes `ceil_boundary(s, i)`.
pub fn ceil_char_boundary(s: &[u8], i: usize) -> (r: usize)
    requires
        i <= s@.len(),
    ensures
        r == ceil_boundary(s@, i as int),
{
    let mut j = i;
    while !(j == 0 || j >= s.len() || !is_continuation(s[j]))
        invariant
            i <= j <= s@.len(),
            ceil_boundary(s@, j as int) == ceil_boundary(s@, i as int),
        decreases s@.len() - j,
    {
        j += 1;
    }
    j
}

/// Appends `src[lo..hi]` to `dst`.
pub fn extend_range(dst: &mut Vec<u8>, src: &[u8], lo: usize, hi: usize)
    requires
        lo <= hi <= src@.len(),
    ensures
        final(dst)@ == old(dst)@ + src@.subrange(lo as int, hi as int),
{
    let ghost start = dst@;
    let mut k = lo;
    while k < hi
        invariant
            lo <= k <= hi <= src@.len(),
            dst@ == start + src@.subrange(lo as int, k as int),
        decreases hi - k,
    {
        dst.push(src[k]);
        k += 1;
        assert(dst@ =~= start + src@.subrange(lo as int, k as int));
    }
}

/// Counts the line feeds in `s`.
pub fn newline_count(s: &[u8]) -> (n: usize)
    ensures
        n == count_newlines(s@),
{
    let mut n: usize = 0;
    let mut k: usize = 0;
    while k < s.len()
        invariant
            k <= s@.len(),
            n == count_newlines(s@.subrange(0, k as int)),
            n <= k,
        decreases s@.len() - k,
    {
        assert(s@.subrange(0, k as int + 1).drop_last() =~= s@.subrange(0, k as int));
        if s[k] == LF {
            n += 1;
        }
        k += 1;
    }
    assert(s@.subrange(0, s@.len() as int) =~= s@);
    n
}

/// `count_newlines` distributes over concatenation.
pub proof fn lemma_count_newlines_add(a: Seq<u8>, b: Seq<u8>)
    ensures
        count_newlines(a + b) == count_newlines(a) + count_newlines(b),
    decreases b.len(),
{
    if b.len() == 0 {
        assert(a + b =~= a);
    } else {
        lemma_count_newlines_add(a, b.drop_last());
        assert((a + b).drop_last() =~= a + b.drop_last());
    }
}

/// Decimal digits of `n` as ASCII bytes.
pub open spec fn decimal_bytes(n: nat) -> Seq<u8>
    decreases n,
{
    if n < 10 {
        seq![(n + 48) as u8]
    } else {
        decimal_bytes(n / 10).push(((n % 10) + 48) as u8)
    }
}

/// Decimal digits are ASCII and at most twenty of them describe a `usize`.
pub proof fn lemma_decimal_bytes_ascii(n: nat)
    ensures
        forall|k: int| 0 <= k < decimal_bytes(n).len() ==> 48 <= #[trigger] decimal_bytes(n)[k] < 58,
        decimal_bytes(n).len() >= 1,
    decreases n,
{
    if n >= 10 {
        lemma_decimal_bytes_ascii(n / 10);
    }
}

/// Appends the decimal representation of `n` to `dst`.
pub fn push_decimal(dst: &mut Vec<u8>, n: usize)
    ensures
        final(dst)@ == old(dst)@ + decimal_bytes(n as nat),
    decreases n,
{
    if n < 10 {
        dst.push((n + 48) as u8);
        assert(decimal_bytes(n as nat) =~= seq![(n + 48) as u8]);
    } else {
        push_decimal(dst, n / 10);
        dst.push(((n % 10) + 48) as u8);
    }
}

/// Appends every byte of `src` to `dst`.
pub fn extend_all(dst: &mut Vec<u8>, src: &[u8])
    ensures
        final(dst)@ == old(dst)@ + src@,
{
    extend_range(dst, src, 0, src.len());
    assert(src@.subrange(0, src@.len() as int) =~= src@);
}


/// The position right after an ASCII byte of valid UTF-8 is a boundary.
pub proof fn lemma_after_ascii_boundary(s: Seq<u8>, i: int)
    requires
        valid_utf8(s),
        0 <= i < s.len(),
        s[i] < 0x80,
    ensures
        at_boundary(s, i + 1),
{
    if i + 1 < s.len() {
        lemma_split_valid(s, i);
        let t = s.subrange(i, s.len() as int);
        reveal_with_fuel(valid_utf8, 2);
        assert(pop_first_scalar(t) =~= s.subrange(i + 1, s.len() as int));
        let u = s.subrange(i + 1, s.len() as int);
        assert(valid_utf8(u));
        assert(u[0] == s[i + 1]);
    }
}
} // verus!
