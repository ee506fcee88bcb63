//! Bounded incremental preview of streamed command output.
//!
//! All output is kept until a byte budget is exceeded. From then on only the
//! first and the last completed lines plus the line in progress are kept, and
//! every kept line keeps only a prefix and a suffix of its bytes, so a command
//! that never prints a newline cannot grow the preview without bound.

use vstd::prelude::*;
use vstd::utf8::*;
use vstd::string::StringSliceAdditionalSpecFns;
use crate::text::{decimal_chars, push_decimal_chars, string_from_utf8};
use crate::bytes::{
    at_boundary, ceil_boundary, ceil_char_boundary, count_newlines, decimal_bytes, extend_all,
    extend_range, floor_boundary, floor_char_boundary, lemma_ascii_valid, lemma_ceil_boundary,
    lemma_decimal_bytes_ascii, lemma_floor_boundary, lemma_valid_starts_at_boundary,
    lemma_floor_prefix, lemma_floor_suffix, lemma_ceil_suffix, lemma_ceil_prefix, lemma_ceil_between,
    lemma_ceil_skip, lemma_split_valid, lemma_subrange_valid,
    newline_count, push_decimal, lemma_count_newlines_add, lemma_after_ascii_boundary, CR, LF,
};

verus! {

broadcast use {vstd::utf8::valid_utf8_concat, vstd::utf8::encode_utf8_valid_utf8};

/// Byte budget of the untruncated output.
pub const LIVE_COMMAND_OUTPUT_MAX_BYTES: usize = 1024 * 1024;

/// Number of completed lines kept at each end once truncated.
pub const LIVE_COMMAND_OUTPUT_MAX_LINES: usize = 50;

/// Bytes of one line kept once it is abbreviated.
pub const LIVE_COMMAND_OUTPUT_MAX_LINE_BYTES: usize = 10280;

/// Bytes kept from the start of an abbreviated line.
pub const LIVE_COMMAND_OUTPUT_LINE_HEAD_BYTES: usize = 5140;

/// Bytes kept from the end of an abbreviated line.
pub const LIVE_COMMAND_OUTPUT_LINE_TAIL_BYTES: usize = 5140;

/// Abstract state of one abbreviated line: kept prefix, kept suffix and the
/// number of bytes dropped between them.
pub type LineModel = (Seq<u8>, Seq<u8>, nat);

/// The empty line.
pub open spec fn empty_line() -> LineModel {
    (Seq::empty(), Seq::empty(), 0nat)
}

/// Effect of appending `chunk` to an abbreviated line.
pub open spec fn line_push(st: LineModel, chunk: Seq<u8>) -> LineModel {
    let head = st.0;
    let tail = st.1;
    let om = st.2;
    let head_remaining: int = if tail.len() == 0 && om == 0 && head.len()
        < LIVE_COMMAND_OUTPUT_LINE_HEAD_BYTES {
        LIVE_COMMAND_OUTPUT_LINE_HEAD_BYTES - head.len()
    } else {
        0
    };
    let cut: int = if head_remaining < chunk.len() {
        head_remaining
    } else {
        chunk.len() as int
    };
    let head_end = floor_boundary(chunk, cut);
    let new_head = head + chunk.subrange(0, head_end);
    let rest = chunk.subrange(head_end, chunk.len() as int);
    if rest.len() == 0 {
        (new_head, tail, om)
    } else if rest.len() >= LIVE_COMMAND_OUTPUT_LINE_TAIL_BYTES {
        let ts = ceil_boundary(rest, rest.len() - LIVE_COMMAND_OUTPUT_LINE_TAIL_BYTES);
        (new_head, rest.subrange(ts, rest.len() as int), om + tail.len() + ts as nat)
    } else {
        let t2 = tail + rest;
        let start: int = if t2.len() >= LIVE_COMMAND_OUTPUT_LINE_TAIL_BYTES {
            t2.len() - LIVE_COMMAND_OUTPUT_LINE_TAIL_BYTES
        } else {
            0
        };
        let ts = ceil_boundary(t2, start);
        (new_head, t2.subrange(ts, t2.len() as int), om + ts as nat)
    }
}

/// Index of the last occurrence of `b` in `s`, or -1.
pub open spec fn last_index_of(s: Seq<u8>, b: u8) -> int
    decreases s.len(),
{
    if s.len() == 0 {
        -1
    } else if s.last() == b {
        s.len() - 1
    } else {
        last_index_of(s.drop_last(), b)
    }
}

/// True when `s` holds the byte `b`.
pub open spec fn holds_byte(s: Seq<u8>, b: u8) -> bool {
    exists|k: int| 0 <= k < s.len() && s[k] == b
}

/// True when `b` is an ASCII letter.
pub open spec fn is_ascii_alpha(b: u8) -> bool {
    (0x41 <= b <= 0x5a) || (0x61 <= b <= 0x7a)
}

/// True when `s` holds an ASCII letter.
pub open spec fn holds_alpha(s: Seq<u8>) -> bool {
    exists|k: int| 0 <= k < s.len() && is_ascii_alpha(s[k])
}

/// Byte that closes an escape sequence left open at the end of `head`:
/// BEL for an OSC sequence, `m` for a CSI sequence, nothing otherwise.
pub open spec fn escape_terminator(head: Seq<u8>) -> Seq<u8> {
    let start = last_index_of(head, 0x1b);
    if start < 0 {
        Seq::empty()
    } else {
        let esc = head.subrange(start + 1, head.len() as int);
        if esc.len() > 0 && esc[0] == 0x5d && !holds_byte(esc, 0x07) {
            seq![0x07u8]
        } else if esc.len() > 0 && esc[0] == 0x5b && !holds_alpha(esc.subrange(1, esc.len() as int)) {
            seq![0x6du8]
        } else {
            Seq::empty()
        }
    }
}

/// The SGR reset sequence `ESC [ 0 m`.
pub open spec fn sgr_reset() -> Seq<u8> {
    seq![0x1bu8, 0x5bu8, 0x30u8, 0x6du8]
}

/// `"... "`
pub open spec fn marker_open() -> Seq<u8> {
    seq![0x2eu8, 0x2eu8, 0x2eu8, 0x20u8]
}

/// `" bytes omitted ..."`
pub open spec fn marker_close() -> Seq<u8> {
    seq![
        0x20u8, 0x62u8, 0x79u8, 0x74u8, 0x65u8, 0x73u8, 0x20u8, 0x6fu8, 0x6du8, 0x69u8, 0x74u8,
        0x74u8, 0x65u8, 0x64u8, 0x20u8, 0x2eu8, 0x2eu8, 0x2eu8
    ]
}

/// The omission marker `... N bytes omitted ...`.
pub open spec fn omission_marker(n: nat) -> Seq<u8> {
    marker_open() + decimal_bytes(n) + marker_close()
}

/// Saturating view of a count in a `usize`.
pub open spec fn sat(n: nat) -> nat {
    if n <= usize::MAX {
        n
    } else {
        usize::MAX as nat
    }
}

/// The text shown for an abbreviated line.
pub open spec fn render_line(st: LineModel) -> Seq<u8> {
    if st.2 == 0 {
        st.0 + st.1
    } else {
        st.0 + escape_terminator(st.0) + sgr_reset() + omission_marker(sat(st.2)) + st.1
    }
}

/// A line of text shown as its first and last bytes only.
pub open spec fn abbreviate(line: Seq<u8>) -> Seq<u8> {
    render_line(line_push(empty_line(), line))
}

/// Bytes of a chunk that may still join the kept prefix of a line.
pub open spec fn head_room(st: LineModel) -> int {
    if st.1.len() == 0 && st.2 == 0 && st.0.len() < LIVE_COMMAND_OUTPUT_LINE_HEAD_BYTES {
        LIVE_COMMAND_OUTPUT_LINE_HEAD_BYTES - st.0.len()
    } else {
        0
    }
}

/// Where the kept suffix starts in `t`: the first character boundary that
/// leaves at most the suffix budget.
pub open spec fn tail_cut(t: Seq<u8>) -> int {
    ceil_boundary(
        t,
        if t.len() >= LIVE_COMMAND_OUTPUT_LINE_TAIL_BYTES {
            t.len() - LIVE_COMMAND_OUTPUT_LINE_TAIL_BYTES
        } else {
            0
        },
    )
}

/// Suffix and dropped count after `r` joins the suffix `t` with `o` bytes
/// dropped so far.
pub open spec fn tail_step(t: Seq<u8>, o: nat, r: Seq<u8>) -> (Seq<u8>, nat) {
    let t2 = t + r;
    let c = tail_cut(t2);
    (t2.subrange(c, t2.len() as int), o + c as nat)
}

/// `line_push` as a prefix step followed by a suffix step.
proof fn lemma_line_push_form(st: LineModel, c: Seq<u8>)
    requires
        valid_utf8(c),
    ensures
        ({
            let cut = if head_room(st) < c.len() {
                head_room(st)
            } else {
                c.len() as int
            };
            let e = floor_boundary(c, cut);
            let rest = c.subrange(e, c.len() as int);
            &&& 0 <= e <= c.len()
            &&& valid_utf8(rest)
            &&& line_push(st, c) == if rest.len() == 0 {
                (st.0 + c.subrange(0, e), st.1, st.2)
            } else {
                let ts = tail_step(st.1, st.2, rest);
                (st.0 + c.subrange(0, e), ts.0, ts.1)
            }
        }),
{
    let cut = if head_room(st) < c.len() {
        head_room(st)
    } else {
        c.len() as int
    };
    lemma_floor_boundary(c, cut);
    let e = floor_boundary(c, cut);
    lemma_split_valid(c, e);
    let rest = c.subrange(e, c.len() as int);
    lemma_valid_starts_at_boundary(rest);
    let t = st.1;
    if rest.len() >= LIVE_COMMAND_OUTPUT_LINE_TAIL_BYTES {
        let k = rest.len() - LIVE_COMMAND_OUTPUT_LINE_TAIL_BYTES;
        lemma_ceil_suffix(t, rest, t.len() + k);
        lemma_ceil_boundary(rest, k);
        let ts = ceil_boundary(rest, k);
        assert((t + rest).subrange(t.len() + ts, (t + rest).len() as int) =~= rest.subrange(
            ts,
            rest.len() as int,
        ));
    }
}

/// Pushing nothing leaves a line as it is.
proof fn lemma_line_push_nothing(st: LineModel)
    ensures
        line_push(st, Seq::<u8>::empty()) == st,
{
    let c = Seq::<u8>::empty();
    assert(floor_boundary(c, 0) == 0);
    assert(c.subrange(0, 0) =~= c);
    assert(st.0 + c =~= st.0);
}

/// Two successive suffix steps are one step on the joined bytes.
proof fn lemma_tail_step_twice(t: Seq<u8>, o: nat, a: Seq<u8>, b: Seq<u8>)
    requires
        valid_utf8(b),
    ensures
        ({
            let s1 = tail_step(t, o, a);
            tail_step(s1.0, s1.1, b) == tail_step(t, o, a + b)
        }),
{
    let ta = t + a;
    let s = ta + b;
    assert(t + (a + b) =~= s);
    let big = LIVE_COMMAND_OUTPUT_LINE_TAIL_BYTES as int;
    let m1: int = if ta.len() >= big {
        ta.len() - big
    } else {
        0
    };
    let c1 = tail_cut(ta);
    lemma_ceil_boundary(ta, m1);
    lemma_valid_starts_at_boundary(b);
    lemma_ceil_prefix(ta, b, m1);
    let t1 = ta.subrange(c1, ta.len() as int);
    assert(t1 + b =~= s.subrange(c1, s.len() as int));
    assert(at_boundary(s, c1)) by {
        if c1 < ta.len() {
            assert(s[c1] == ta[c1]);
        } else if b.len() > 0 {
            assert(s[c1] == b[0]);
        }
    }
    let l = s.len() as int;
    let m2: int = if l - c1 >= big {
        l - c1 - big
    } else {
        0
    };
    lemma_ceil_skip(s, c1, m2);
    let c2 = tail_cut(t1 + b);
    let m: int = if l >= big {
        l - big
    } else {
        0
    };
    if l >= big && c1 > m {
        lemma_ceil_between(s, m1, m);
    }
    lemma_ceil_boundary(s, m);
    assert(c1 + c2 == tail_cut(s));
    assert((t1 + b).subrange(c2, (t1 + b).len() as int) =~= s.subrange(c1 + c2, l));
}

/// Pushing two valid chunks one after the other leaves a line in the same
/// state as pushing them joined: how output is split into chunks does not
/// change what a line keeps.
pub proof fn lemma_line_push_concat(st: LineModel, a: Seq<u8>, b: Seq<u8>)
    requires
        valid_utf8(a),
        valid_utf8(b),
    ensures
        line_push(line_push(st, a), b) == line_push(st, a + b),
{
    let ab = a + b;
    lemma_line_push_form(st, a);
    lemma_line_push_form(st, ab);
    let s1 = line_push(st, a);
    lemma_line_push_form(s1, b);
    lemma_valid_starts_at_boundary(b);
    let room = head_room(st);
    if room >= a.len() {
        assert(floor_boundary(a, a.len() as int) == a.len());
        assert(a.subrange(a.len() as int, a.len() as int) =~= Seq::<u8>::empty());
        assert(a.subrange(0, a.len() as int) =~= a);
        assert(s1 == (st.0 + a, st.1, st.2));
        let cut2 = if room - a.len() < b.len() {
            room - a.len()
        } else {
            b.len() as int
        };
        if st.1.len() == 0 && st.2 == 0 && st.0.len() + a.len() < LIVE_COMMAND_OUTPUT_LINE_HEAD_BYTES {
            assert(head_room(s1) == room - a.len());
        } else {
            assert(head_room(s1) == 0);
            assert(room - a.len() == 0);
        }
        lemma_floor_suffix(a, b, a.len() + cut2);
        let e2 = floor_boundary(b, cut2);
        assert(floor_boundary(ab, a.len() + cut2) == a.len() + e2);
        assert(ab.subrange(0, a.len() + e2) =~= a + b.subrange(0, e2));
        assert(ab.subrange(a.len() + e2, ab.len() as int) =~= b.subrange(e2, b.len() as int));
        assert(st.0 + a + b.subrange(0, e2) =~= st.0 + ab.subrange(0, a.len() + e2));
    } else {
        lemma_floor_prefix(a, b, room);
        lemma_floor_boundary(a, room);
        let e = floor_boundary(a, room);
        let ra = a.subrange(e, a.len() as int);
        assert(ra.len() > 0);
        assert(ab.subrange(0, e) =~= a.subrange(0, e));
        assert(ab.subrange(e, ab.len() as int) =~= ra + b);
        let ts = tail_step(st.1, st.2, ra);
        assert(head_room(s1) == 0) by {
            let t2 = st.1 + ra;
            lemma_ceil_boundary(t2, if t2.len() >= LIVE_COMMAND_OUTPUT_LINE_TAIL_BYTES {
                t2.len() - LIVE_COMMAND_OUTPUT_LINE_TAIL_BYTES
            } else {
                0
            });
        }
        assert(floor_boundary(b, 0) == 0);
        assert(b.subrange(0, 0) =~= Seq::<u8>::empty());
        assert(b.subrange(0, b.len() as int) =~= b);
        assert(s1.0 + Seq::<u8>::empty() =~= s1.0);
        if b.len() == 0 {
            assert(ra + b =~= ra);
        } else {
            lemma_tail_step_twice(st.1, st.2, ra, b);
        }
    }
}

/// The state of a line after pushing `chunks` one after the other.
pub open spec fn push_all(st: LineModel, chunks: Seq<Seq<u8>>) -> LineModel
    decreases chunks.len(),
{
    if chunks.len() == 0 {
        st
    } else {
        line_push(push_all(st, chunks.drop_last()), chunks.last())
    }
}

/// The bytes of `chunks` joined in order.
pub open spec fn joined(chunks: Seq<Seq<u8>>) -> Seq<u8>
    decreases chunks.len(),
{
    if chunks.len() == 0 {
        Seq::empty()
    } else {
        joined(chunks.drop_last()) + chunks.last()
    }
}

/// A line fed valid chunks one after the other holds what it would hold had
/// it been fed their joined bytes at once.
pub proof fn lemma_push_all(chunks: Seq<Seq<u8>>)
    requires
        forall|i: int| 0 <= i < chunks.len() ==> valid_utf8(#[trigger] chunks[i]),
    ensures
        push_all(empty_line(), chunks) == line_push(empty_line(), joined(chunks)),
        valid_utf8(joined(chunks)),
    decreases chunks.len(),
{
    if chunks.len() == 0 {
        lemma_line_push_nothing(empty_line());
        lemma_ascii_valid(Seq::<u8>::empty());
    } else {
        let init = chunks.drop_last();
        assert forall|i: int| 0 <= i < init.len() implies valid_utf8(#[trigger] init[i]) by {
            assert(init[i] == chunks[i]);
        }
        lemma_push_all(init);
        assert(valid_utf8(chunks[chunks.len() - 1]));
        lemma_line_push_concat(empty_line(), joined(init), chunks.last());
    }
}

/// What a line keeps of valid bytes `s` pushed into it: a prefix and a
/// suffix of `s` within their budgets, the bytes between them counted as
/// dropped; with nothing dropped it shows `s` whole.
pub proof fn lemma_line_keeps(s: Seq<u8>)
    requires
        valid_utf8(s),
    ensures
        ({
            let st = line_push(empty_line(), s);
            &&& st.0 == s.subrange(0, st.0.len() as int)
            &&& st.1 == s.subrange(s.len() - st.1.len(), s.len() as int)
            &&& st.0.len() + st.2 + st.1.len() == s.len()
            &&& st.0.len() <= LIVE_COMMAND_OUTPUT_LINE_HEAD_BYTES
            &&& st.1.len() <= LIVE_COMMAND_OUTPUT_LINE_TAIL_BYTES
            &&& st.2 == 0 ==> render_line(st) == s
        }),
{
    lemma_line_push_form(empty_line(), s);
    let cut: int = if LIVE_COMMAND_OUTPUT_LINE_HEAD_BYTES < s.len() {
        LIVE_COMMAND_OUTPUT_LINE_HEAD_BYTES as int
    } else {
        s.len() as int
    };
    assert(head_room(empty_line()) == LIVE_COMMAND_OUTPUT_LINE_HEAD_BYTES);
    lemma_floor_boundary(s, cut);
    let e = floor_boundary(s, cut);
    let rest = s.subrange(e, s.len() as int);
    let e0 = Seq::<u8>::empty();
    assert(e0 + s.subrange(0, e) =~= s.subrange(0, e));
    if rest.len() > 0 {
        assert(e0 + rest =~= rest);
        let m: int = if rest.len() >= LIVE_COMMAND_OUTPUT_LINE_TAIL_BYTES {
            rest.len() - LIVE_COMMAND_OUTPUT_LINE_TAIL_BYTES
        } else {
            0
        };
        lemma_ceil_boundary(rest, m);
        let c = tail_cut(rest);
        assert(rest.subrange(c, rest.len() as int) =~= s.subrange(e + c, s.len() as int));
        if c == 0 {
            assert(s.subrange(0, e) + rest =~= s);
        }
    } else {
        assert(s.subrange(0, e) =~= s);
        assert(s.subrange(s.len() as int, s.len() as int) =~= e0);
        assert(s + e0 =~= s);
    }
}

/// One line being accumulated, kept as a bounded prefix and suffix.
pub struct LiveCommandOutputLine {
    head: Vec<u8>,
    tail: Vec<u8>,
    omitted_bytes: usize,
    model: Ghost<LineModel>,
}

impl LiveCommandOutputLine {
    /// The abstract state.
    pub closed spec fn view_model(&self) -> LineModel {
        self.model@
    }

    /// Internal consistency: the fields hold the model, the kept bytes are
    /// valid UTF-8 and within their budgets.
    pub closed spec fn wf(&self) -> bool {
        &&& self.head@ == self.model@.0
        &&& self.tail@ == self.model@.1
        &&& self.omitted_bytes == sat(self.model@.2)
        &&& valid_utf8(self.head@)
        &&& valid_utf8(self.tail@)
        &&& self.head@.len() <= LIVE_COMMAND_OUTPUT_LINE_HEAD_BYTES
        &&& self.tail@.len() <= LIVE_COMMAND_OUTPUT_LINE_TAIL_BYTES
    }

    /// An empty line.
    pub fn new() -> (r: Self)
        ensures
            r.wf(),
            r.view_model() == empty_line(),
    {
        let r = LiveCommandOutputLine {
            head: Vec::new(),
            tail: Vec::new(),
            omitted_bytes: 0,
            model: Ghost(empty_line()),
        };
        proof {
            lemma_ascii_valid(r.head@);
        }
        r
    }

    /// Appends `chunk[lo..hi]`, keeping only a prefix and a suffix.
    pub fn push_range(&mut self, chunk: &[u8], lo: usize, hi: usize)
        requires
            old(self).wf(),
            lo <= hi <= chunk@.len(),
            valid_utf8(chunk@.subrange(lo as int, hi as int)),
        ensures
            final(self).wf(),
            final(self).view_model() == line_push(
                old(self).view_model(),
                chunk@.subrange(lo as int, hi as int),
            ),
    {
        let ghost c = chunk@.subrange(lo as int, hi as int);
        let ghost st = self.model@;
        let len = hi - lo;
        let head_remaining: usize = if self.tail.len() == 0 && self.omitted_bytes == 0
            && self.head.len() < LIVE_COMMAND_OUTPUT_LINE_HEAD_BYTES {
            LIVE_COMMAND_OUTPUT_LINE_HEAD_BYTES - self.head.len()
        } else {
            0
        };
        let cut = if head_remaining < len {
            head_remaining
        } else {
            len
        };
        let sub = slice_range(chunk, lo, hi);
        assert(sub@ == c);
        let head_end = floor_char_boundary(&sub, cut);
        proof {
            lemma_floor_boundary(c, cut as int);
            lemma_split_valid(c, head_end as int);
        }
        extend_range(&mut self.head, &sub, 0, head_end);
        let rest_len = len - head_end;
        let ghost rest = c.subrange(head_end as int, c.len() as int);
        if rest_len == 0 {
            proof {
                self.model@ = line_push(st, c);
            }
            return;
        }
        if rest_len >= LIVE_COMMAND_OUTPUT_LINE_TAIL_BYTES {
            let rest_v = slice_range(&sub, head_end, len);
            assert(rest_v@ == rest);
            let ts = ceil_char_boundary(&rest_v, rest_len - LIVE_COMMAND_OUTPUT_LINE_TAIL_BYTES);
            proof {
                lemma_ceil_boundary(rest, rest_len - LIVE_COMMAND_OUTPUT_LINE_TAIL_BYTES);
                lemma_split_valid(rest, ts as int);
            }
            self.omitted_bytes = self.omitted_bytes.saturating_add(self.tail.len()).saturating_add(
                ts,
            );
            let mut t: Vec<u8> = Vec::new();
            extend_range(&mut t, &rest_v, ts, rest_len);
            self.tail = t;
            proof {
                self.model@ = line_push(st, c);
                assert(self.tail@ =~= self.model@.1);
            }
            return;
        }
        extend_range(&mut self.tail, &sub, head_end, len);
        let tlen = self.tail.len();
        let start = if tlen >= LIVE_COMMAND_OUTPUT_LINE_TAIL_BYTES {
            tlen - LIVE_COMMAND_OUTPUT_LINE_TAIL_BYTES
        } else {
            0
        };
        let ts = ceil_char_boundary(&self.tail, start);
        proof {
            lemma_ceil_boundary(self.tail@, start as int);
            lemma_split_valid(self.tail@, ts as int);
        }
        if ts > 0 {
            let mut t: Vec<u8> = Vec::new();
            extend_range(&mut t, &self.tail, ts, tlen);
            self.tail = t;
            self.omitted_bytes = self.omitted_bytes.saturating_add(ts);
        }
        proof {
            self.model@ = line_push(st, c);
            assert(self.tail@ =~= self.model@.1);
        }
    }

    /// The kept text, with an omission marker between prefix and suffix when
    /// bytes were dropped. An escape sequence cut open at the end of the
    /// prefix is closed before the marker.
    pub fn render(&self) -> (r: Vec<u8>)
        requires
            self.wf(),
        ensures
            r@ == render_line(self.view_model()),
            valid_utf8(r@),
    {
        let mut line: Vec<u8> = Vec::new();
        extend_all(&mut line, &self.head);
        if self.omitted_bytes > 0 {
            let term = escape_terminator_of(&self.head);
            extend_all(&mut line, &term);
            let reset: [u8; 4] = [0x1b, 0x5b, 0x30, 0x6d];
            extend_all(&mut line, &reset);
            let open: [u8; 4] = [0x2e, 0x2e, 0x2e, 0x20];
            extend_all(&mut line, &open);
            push_decimal(&mut line, self.omitted_bytes);
            let close: [u8; 18] = [
                0x20, 0x62, 0x79, 0x74, 0x65, 0x73, 0x20, 0x6f, 0x6d, 0x69, 0x74, 0x74, 0x65, 0x64,
                0x20, 0x2e, 0x2e, 0x2e,
            ];
            extend_all(&mut line, &close);
            proof {
                assert(reset@ =~= sgr_reset());
                assert(open@ =~= marker_open());
                assert(close@ =~= marker_close());
                lemma_decimal_bytes_ascii(self.omitted_bytes as nat);
                let mid = term@ + sgr_reset() + omission_marker(sat(self.model@.2));
                assert forall|k: int| 0 <= k < mid.len() implies #[trigger] mid[k] < 0x80 by {
                    if k < term@.len() {
                    } else if k < term@.len() + 4 {
                    } else {
                        let k2 = k - term@.len() - 4;
                        let dec = decimal_bytes(self.omitted_bytes as nat);
                        if k2 < 4 {
                            assert(omission_marker(sat(self.model@.2))[k2] == marker_open()[k2]);
                        } else if k2 < 4 + dec.len() {
                            assert(omission_marker(sat(self.model@.2))[k2] == dec[k2 - 4]);
                        } else {
                            assert(omission_marker(sat(self.model@.2))[k2] == marker_close()[k2
                                - 4 - dec.len()]);
                        }
                    }
                }
                lemma_ascii_valid(mid);
                assert(line@ =~= self.head@ + mid);
                assert(valid_utf8(self.head@ + mid));
            }
        }
        extend_all(&mut line, &self.tail);
        proof {
            if self.omitted_bytes > 0 {
                assert(line@ =~= render_line(self.model@));
            } else {
                assert(line@ =~= render_line(self.model@));
            }
            assert(valid_utf8(line@));
        }
        line
    }
}

/// Copies `s[lo..hi]` into a new vector.
pub fn slice_range(s: &[u8], lo: usize, hi: usize) -> (r: Vec<u8>)
    requires
        lo <= hi <= s@.len(),
    ensures
        r@ == s@.subrange(lo as int, hi as int),
{
    let mut r: Vec<u8> = Vec::new();
    extend_range(&mut r, s, lo, hi);
    assert(r@ =~= s@.subrange(lo as int, hi as int));
    r
}

/// Computes `escape_terminator(head)`.
fn escape_terminator_of(head: &[u8]) -> (r: Vec<u8>)
    ensures
        r@ == escape_terminator(head@),
        forall|k: int| 0 <= k < r@.len() ==> #[trigger] r@[k] < 0x80,
{
    let mut i = head.len();
    assert(head@.subrange(0, head@.len() as int) =~= head@);
    while i > 0 && head[i - 1] != 0x1b
        invariant
            i <= head@.len(),
            last_index_of(head@, 0x1b) == last_index_of(head@.subrange(0, i as int), 0x1b),
        decreases i,
    {
        assert(head@.subrange(0, i as int).drop_last() =~= head@.subrange(0, i as int - 1));
        i -= 1;
    }
    proof {
        if i > 0 {
            assert(head@.subrange(0, i as int).last() == 0x1b);
        } else {
            assert(head@.subrange(0, 0) =~= Seq::<u8>::empty());
        }
    }
    let mut r: Vec<u8> = Vec::new();
    if i == 0 {
        return r;
    }
    let start = i;
    let esc_len = head.len() - start;
    let ghost esc = head@.subrange(start as int, head@.len() as int);
    if esc_len > 0 && head[start] == 0x5d {
        let mut k = start;
        while k < head.len() && head[k] != 0x07
            invariant
                start <= k <= head@.len(),
                forall|j: int| start <= j < k ==> head@[j] != 0x07,
            decreases head@.len() - k,
        {
            k += 1;
        }
        if k == head.len() {
            assert(!holds_byte(esc, 0x07));
            r.push(0x07);
            assert(r@ =~= seq![0x07u8]);
            return r;
        }
        assert(esc[k - start] == 0x07);
        return r;
    }
    if esc_len > 0 && head[start] == 0x5b {
        let mut k = start + 1;
        while k < head.len() && !((0x41 <= head[k] && head[k] <= 0x5a) || (0x61 <= head[k]
            && head[k] <= 0x7a))
            invariant
                start + 1 <= k <= head@.len(),
                forall|j: int| start + 1 <= j < k ==> !is_ascii_alpha(head@[j]),
            decreases head@.len() - k,
        {
            k += 1;
        }
        let ghost e1 = esc.subrange(1, esc.len() as int);
        if k == head.len() {
            assert forall|j: int| 0 <= j < e1.len() implies !is_ascii_alpha(e1[j]) by {
                assert(e1[j] == head@[start + 1 + j]);
            }
            r.push(0x6d);
            assert(r@ =~= seq![0x6du8]);
            return r;
        }
        assert(e1[k - start - 1] == head@[k as int]);
        return r;
    }
    r
}


/// Index of the first line feed in `s`, or `s.len()` when there is none.
pub open spec fn first_lf(s: Seq<u8>) -> nat
    decreases s.len(),
{
    if s.len() == 0 {
        0
    } else if s[0] == LF {
        0
    } else {
        1 + first_lf(s.subrange(1, s.len() as int))
    }
}

/// Drops one trailing carriage return.
pub open spec fn strip_cr(l: Seq<u8>) -> Seq<u8> {
    if l.len() > 0 && l.last() == CR {
        l.drop_last()
    } else {
        l
    }
}

/// The lines of `s` as `str::lines` yields them: split after each line feed,
/// the line feed and a carriage return right before it removed; a final line
/// without a line feed is kept as it is.
pub open spec fn str_lines(s: Seq<u8>) -> Seq<Seq<u8>>
    decreases s.len(),
{
    if s.len() == 0 {
        Seq::empty()
    } else {
        let i = first_lf(s);
        if i >= s.len() {
            seq![s]
        } else {
            seq![strip_cr(s.subrange(0, i as int))] + str_lines(
                s.subrange((i + 1) as int, s.len() as int),
            )
        }
    }
}

/// Number of lines of `s`: its line feeds, plus one for a final line that
/// has none.
pub open spec fn line_count(s: Seq<u8>) -> nat {
    count_newlines(s) + if s.len() > 0 && s.last() != LF {
        1nat
    } else {
        0nat
    }
}

/// How a line of the untruncated output is previewed.
pub open spec fn preview_line(l: Seq<u8>) -> Seq<u8> {
    if l.len() <= LIVE_COMMAND_OUTPUT_MAX_LINE_BYTES {
        l
    } else {
        abbreviate(l)
    }
}

/// `first_lf` is the position of the first line feed.
pub proof fn lemma_first_lf(s: Seq<u8>, k: int)
    requires
        0 <= k <= s.len(),
        forall|j: int| 0 <= j < k ==> s[j] != LF,
        k == s.len() || s[k] == LF,
    ensures
        first_lf(s) == k,
    decreases s.len(),
{
    if s.len() > 0 && s[0] != LF {
        lemma_first_lf(s.subrange(1, s.len() as int), k - 1);
    }
}

/// `str_lines` yields `line_count` lines.
pub proof fn lemma_str_lines_len(s: Seq<u8>)
    ensures
        str_lines(s).len() == line_count(s),
    decreases s.len(),
{
    if s.len() > 0 {
        let i = first_lf(s) as int;
        lemma_first_lf_props(s);
        if i >= s.len() {
            lemma_no_lf_count(s);
        } else {
            let rest = s.subrange(i + 1, s.len() as int);
            lemma_str_lines_len(rest);
            let pre = s.subrange(0, i + 1);
            assert(s =~= pre + rest);
            lemma_count_newlines_add(pre, rest);
            lemma_no_lf_count(s.subrange(0, i));
            assert(pre.drop_last() =~= s.subrange(0, i));
            if rest.len() == 0 {
                assert(s.last() == LF);
            } else {
                assert(s.last() == rest.last());
            }
        }
    }
}

/// Properties of `first_lf`.
pub proof fn lemma_first_lf_props(s: Seq<u8>)
    ensures
        first_lf(s) <= s.len(),
        forall|j: int| 0 <= j < first_lf(s) ==> s[j] != LF,
        first_lf(s) < s.len() ==> s[first_lf(s) as int] == LF,
    decreases s.len(),
{
    if s.len() > 0 && s[0] != LF {
        let t = s.subrange(1, s.len() as int);
        lemma_first_lf_props(t);
        assert forall|j: int| 0 <= j < first_lf(s) implies s[j] != LF by {
            if j > 0 {
                assert(s[j] == t[j - 1]);
            }
        }
    }
}

/// A sequence without line feeds counts none.
pub proof fn lemma_no_lf_count(s: Seq<u8>)
    requires
        forall|j: int| 0 <= j < s.len() ==> s[j] != LF,
    ensures
        count_newlines(s) == 0,
    decreases s.len(),
{
    if s.len() > 0 {
        lemma_no_lf_count(s.drop_last());
    }
}

/// The bytes after the last line feed of `s`: the line in progress.
pub open spec fn partial_of(s: Seq<u8>) -> Seq<u8>
    decreases s.len(),
{
    let i = first_lf(s);
    if i >= s.len() {
        s
    } else {
        partial_of(s.subrange((i + 1) as int, s.len() as int))
    }
}

/// The completed lines of `s`: each line ended by a line feed, without the
/// line feed and without a carriage return right before it.
pub open spec fn done_lines(s: Seq<u8>) -> Seq<Seq<u8>>
    decreases s.len(),
{
    let i = first_lf(s);
    if i >= s.len() {
        Seq::empty()
    } else {
        seq![strip_cr(s.subrange(0, i as int))] + done_lines(
            s.subrange((i + 1) as int, s.len() as int),
        )
    }
}

/// Each completed line of `s` as the preview shows it.
pub open spec fn shown_lines(s: Seq<u8>) -> Seq<Seq<u8>> {
    done_lines(s).map_values(|l: Seq<u8>| abbreviate(l))
}

/// Number of first completed lines a truncated preview keeps.
pub open spec fn head_count(n: nat) -> nat {
    if n < LIVE_COMMAND_OUTPUT_MAX_LINES {
        n
    } else {
        LIVE_COMMAND_OUTPUT_MAX_LINES as nat
    }
}

/// Number of last completed lines a truncated preview keeps after its first
/// lines.
pub open spec fn tail_count(n: nat) -> nat {
    let rest = (n - head_count(n)) as nat;
    if rest < LIVE_COMMAND_OUTPUT_MAX_LINES {
        rest
    } else {
        LIVE_COMMAND_OUTPUT_MAX_LINES as nat
    }
}

/// The first completed lines a truncated preview keeps, as shown.
pub open spec fn kept_first(s: Seq<u8>) -> Seq<Seq<u8>> {
    shown_lines(s).take(head_count(done_lines(s).len()) as int)
}

/// The last completed lines a truncated preview keeps, in order, as shown.
pub open spec fn kept_last(s: Seq<u8>) -> Seq<Seq<u8>> {
    let n = done_lines(s).len();
    shown_lines(s).subrange(n - tail_count(n), n as int)
}

/// The line in progress as a truncated preview shows it: abbreviated, with
/// a carriage return at its very end kept after the abbreviation.
pub open spec fn shown_partial(s: Seq<u8>) -> Seq<u8> {
    let p = partial_of(s);
    if p.len() > 0 && p.last() == CR {
        abbreviate(p.drop_last()).push(CR)
    } else {
        abbreviate(p)
    }
}

/// The lines of a truncated preview of `s`: the first kept lines, the last
/// kept lines and the line in progress, if any.
pub open spec fn truncated_preview(s: Seq<u8>) -> Seq<Seq<u8>> {
    kept_first(s) + kept_last(s) + if partial_of(s).len() > 0 {
        seq![shown_partial(s)]
    } else {
        Seq::<Seq<u8>>::empty()
    }
}

/// Appending bytes without a line feed extends the line in progress and
/// completes no line.
pub proof fn lemma_append_partial(s: Seq<u8>, p: Seq<u8>)
    requires
        forall|j: int| 0 <= j < p.len() ==> p[j] != LF,
    ensures
        done_lines(s + p) == done_lines(s),
        partial_of(s + p) == partial_of(s) + p,
    decreases s.len(),
{
    lemma_first_lf_props(s);
    let i = first_lf(s) as int;
    if i < s.len() {
        lemma_first_lf(s + p, i);
        assert((s + p).subrange(0, i) =~= s.subrange(0, i));
        assert((s + p).subrange(i + 1, (s + p).len() as int) =~= s.subrange(i + 1, s.len() as int)
            + p);
        lemma_append_partial(s.subrange(i + 1, s.len() as int), p);
    } else {
        lemma_first_lf(s + p, (s + p).len() as int);
    }
}

/// Appending `q` and a line feed, with no line feed in `q`, completes the
/// line in progress.
pub proof fn lemma_append_line(s: Seq<u8>, q: Seq<u8>)
    requires
        forall|j: int| 0 <= j < q.len() ==> q[j] != LF,
    ensures
        done_lines(s + q.push(LF)) == done_lines(s).push(strip_cr(partial_of(s) + q)),
        partial_of(s + q.push(LF)) == Seq::<u8>::empty(),
    decreases s.len(),
{
    let x = s + q.push(LF);
    lemma_first_lf_props(s);
    let i = first_lf(s) as int;
    if i < s.len() {
        lemma_first_lf(x, i);
        assert(x.subrange(0, i) =~= s.subrange(0, i));
        assert(x.subrange(i + 1, x.len() as int) =~= s.subrange(i + 1, s.len() as int) + q.push(
            LF,
        ));
        lemma_append_line(s.subrange(i + 1, s.len() as int), q);
        assert(done_lines(x) =~= done_lines(s).push(strip_cr(partial_of(s) + q)));
    } else {
        let k: int = s.len() as int + q.len() as int;
        lemma_first_lf(x, k);
        assert(x.subrange(0, k) =~= s + q);
        let r = x.subrange(k + 1, x.len() as int);
        assert(r =~= Seq::<u8>::empty());
        assert(first_lf(r) == 0);
        assert(done_lines(r) =~= Seq::<Seq<u8>>::empty());
        assert(partial_of(r) =~= Seq::<u8>::empty());
        assert(partial_of(s) == s);
        assert(done_lines(x) =~= seq![strip_cr(s + q)]);
        assert(done_lines(s) =~= Seq::<Seq<u8>>::empty());
    }
}

/// `s` has as many completed lines as line feeds.
pub proof fn lemma_done_lines_len(s: Seq<u8>)
    ensures
        done_lines(s).len() == count_newlines(s),
    decreases s.len(),
{
    lemma_first_lf_props(s);
    let i = first_lf(s) as int;
    if i < s.len() {
        let pre = s.subrange(0, i + 1);
        let rest = s.subrange(i + 1, s.len() as int);
        assert(s =~= pre + rest);
        lemma_count_newlines_add(pre, rest);
        assert(pre.drop_last() =~= s.subrange(0, i));
        lemma_no_lf_count(s.subrange(0, i));
        lemma_done_lines_len(rest);
    } else {
        lemma_no_lf_count(s);
    }
}

/// There is a line in progress exactly when `s` does not end with a line
/// feed, and it ends with the last byte of `s`.
pub proof fn lemma_partial_last(s: Seq<u8>)
    ensures
        partial_of(s).len() > 0 <==> (s.len() > 0 && s.last() != LF),
        partial_of(s).len() > 0 ==> partial_of(s).last() == s.last(),
    decreases s.len(),
{
    lemma_first_lf_props(s);
    let i = first_lf(s) as int;
    if i < s.len() {
        let rest = s.subrange(i + 1, s.len() as int);
        lemma_partial_last(rest);
        if rest.len() > 0 {
            assert(rest.last() == s.last());
        }
    } else if s.len() > 0 {
        assert(s[s.len() - 1] != LF);
    }
}

/// How the kept first and last lines change when one more line completes.
proof fn lemma_keep_new_line(old_s: Seq<u8>, new_s: Seq<u8>, x: Seq<u8>)
    requires
        shown_lines(new_s) == shown_lines(old_s).push(x),
    ensures
        kept_first(old_s).len() <= LIVE_COMMAND_OUTPUT_MAX_LINES,
        kept_last(old_s).len() <= LIVE_COMMAND_OUTPUT_MAX_LINES,
        kept_last(old_s).len() > 0 ==> kept_first(old_s).len() == LIVE_COMMAND_OUTPUT_MAX_LINES,
        kept_first(old_s).len() < LIVE_COMMAND_OUTPUT_MAX_LINES ==> kept_first(new_s)
            == kept_first(old_s).push(x) && kept_last(new_s) == kept_last(old_s),
        kept_first(old_s).len() >= LIVE_COMMAND_OUTPUT_MAX_LINES ==> kept_first(new_s)
            == kept_first(old_s) && kept_last(new_s) == (if kept_last(old_s).len()
            == LIVE_COMMAND_OUTPUT_MAX_LINES {
            kept_last(old_s).drop_first()
        } else {
            kept_last(old_s)
        }).push(x),
{
    let d = shown_lines(old_s);
    let n = done_lines(old_s).len();
    assert(d.len() == n);
    assert(shown_lines(new_s).len() == n + 1);
    assert(done_lines(new_s).len() == n + 1);
    let e = shown_lines(new_s);
    if n < LIVE_COMMAND_OUTPUT_MAX_LINES {
        assert(kept_first(new_s) =~= kept_first(old_s).push(x));
        assert(kept_last(new_s) =~= kept_last(old_s));
    } else {
        assert(kept_first(new_s) =~= kept_first(old_s));
        if kept_last(old_s).len() == LIVE_COMMAND_OUTPUT_MAX_LINES {
            assert(kept_last(new_s) =~= kept_last(old_s).drop_first().push(x));
        } else {
            assert(kept_last(new_s) =~= kept_last(old_s).push(x));
        }
    }
}

/// Bounded preview of the output of a running command.
pub struct LiveCommandOutput {
    full_output: Vec<u8>,
    truncated: bool,
    head: Vec<Vec<u8>>,
    tail: Vec<Vec<u8>>,
    current: LiveCommandOutputLine,
    completed_lines: usize,
    has_partial_line: bool,
    pending_carriage_return: bool,
    stream: Ghost<Seq<u8>>,
}

impl LiveCommandOutput {
    /// Everything pushed so far, as bytes.
    pub closed spec fn stream(&self) -> Seq<u8> {
        self.stream@
    }

    /// True once the byte budget was exceeded.
    pub closed spec fn is_truncated(&self) -> bool {
        self.truncated
    }

    /// Internal consistency of the preview.
    pub closed spec fn wf(&self) -> bool {
        &&& self.wf_core()
        &&& self.truncated ==> self.stream@.len() > LIVE_COMMAND_OUTPUT_MAX_BYTES
    }

    /// Consistency of the counters and kept lines with the stream.
    pub closed spec fn wf_core(&self) -> bool {
        &&& valid_utf8(self.stream@)
        &&& self.completed_lines == sat(count_newlines(self.stream@))
        &&& self.has_partial_line == (self.stream@.len() > 0 && self.stream@.last() != LF)
        &&& !self.truncated ==> {
            &&& self.full_output@ == self.stream@
            &&& self.full_output@.len() <= LIVE_COMMAND_OUTPUT_MAX_BYTES
            &&& self.head@.len() == 0
            &&& self.tail@.len() == 0
            &&& !self.pending_carriage_return
        }
        &&& self.truncated ==> self.full_output@.len() == 0
        &&& self.current.wf()
        &&& self.head@.len() <= LIVE_COMMAND_OUTPUT_MAX_LINES
        &&& self.tail@.len() <= LIVE_COMMAND_OUTPUT_MAX_LINES
        &&& self.tail@.len() > 0 ==> self.head@.len() == LIVE_COMMAND_OUTPUT_MAX_LINES
        &&& self.head@.len() + self.tail@.len() <= self.completed_lines
        &&& forall|i: int| 0 <= i < self.head@.len() ==> valid_utf8(#[trigger] self.head@[i]@)
        &&& forall|i: int| 0 <= i < self.tail@.len() ==> valid_utf8(#[trigger] self.tail@[i]@)
        &&& self.pending_carriage_return ==> self.has_partial_line
        &&& !self.truncated ==> self.current.view_model() == empty_line()
        &&& self.truncated ==> {
            &&& self.current.view_model() == line_push(
                empty_line(),
                strip_cr(partial_of(self.stream@)),
            )
            &&& valid_utf8(strip_cr(partial_of(self.stream@)))
            &&& self.pending_carriage_return == (self.stream@.len() > 0 && self.stream@.last()
                == CR)
            &&& byte_views(self.head@) == kept_first(self.stream@)
            &&& byte_views(self.tail@) == kept_last(self.stream@)
        }
    }

    /// An empty preview.
    pub fn new() -> (r: Self)
        ensures
            r.wf(),
            r.stream() == Seq::<u8>::empty(),
            !r.is_truncated(),
    {
        let r = LiveCommandOutput {
            full_output: Vec::new(),
            truncated: false,
            head: Vec::new(),
            tail: Vec::new(),
            current: LiveCommandOutputLine::new(),
            completed_lines: 0,
            has_partial_line: false,
            pending_carriage_return: false,
            stream: Ghost(Seq::empty()),
        };
        proof {
            lemma_ascii_valid(Seq::<u8>::empty());
        }
        r
    }

    /// Appends a chunk of output. Lines are counted as `str::lines` counts
    /// them, whatever the chunk boundaries.
    pub fn push_str(&mut self, chunk: &str)
        requires
            old(self).wf(),
        ensures
            final(self).wf(),
            final(self).stream() == old(self).stream() + chunk.spec_bytes(),
            old(self).is_truncated() ==> final(self).is_truncated(),
            !final(self).is_truncated() <==> old(self).stream().len() + chunk.spec_bytes().len()
                <= LIVE_COMMAND_OUTPUT_MAX_BYTES,
    {
        let bytes = chunk.as_bytes();
        proof {
            encode_utf8_valid_utf8(chunk@);
        }
        if !self.truncated {
            if self.full_output.len().saturating_add(bytes.len()) <= LIVE_COMMAND_OUTPUT_MAX_BYTES {
                let ghost old_stream = self.stream@;
                extend_all(&mut self.full_output, bytes);
                let n = newline_count(bytes);
                self.completed_lines = self.completed_lines.saturating_add(n);
                if bytes.len() > 0 {
                    self.has_partial_line = bytes[bytes.len() - 1] != LF;
                }
                proof {
                    self.stream@ = old_stream + bytes@;
                    lemma_count_newlines_add(old_stream, bytes@);
                    if bytes@.len() > 0 {
                        assert(self.stream@.last() == bytes@.last());
                    } else {
                        assert(self.stream@ =~= old_stream);
                    }
                }
                return;
            }
            self.truncated = true;
            let mut full: Vec<u8> = Vec::new();
            std::mem::swap(&mut full, &mut self.full_output);
            self.completed_lines = 0;
            self.has_partial_line = false;
            proof {
                self.stream@ = Seq::empty();
                let e = Seq::<u8>::empty();
                assert(first_lf(e) == 0);
                assert(done_lines(e) =~= Seq::<Seq<u8>>::empty());
                assert(partial_of(e) == e);
                assert(strip_cr(e) == e);
                lemma_line_push_nothing(empty_line());
                lemma_ascii_valid(e);
                assert(byte_views(self.head@) =~= kept_first(e));
                assert(byte_views(self.tail@) =~= kept_last(e));
            }
            self.push_truncated_bytes(&full);
            assert(self.stream@ =~= full@);
        }
        self.push_truncated_bytes(bytes);
    }

    /// Appends bounded output, treating a CRLF split across chunks as one
    /// terminator while keeping a lone CR.
    fn push_truncated_bytes(&mut self, chunk: &[u8])
        requires
            old(self).wf_core(),
            old(self).truncated,
            old(self).full_output@.len() == 0,
            valid_utf8(chunk@),
        ensures
            final(self).wf_core(),
            final(self).truncated,
            final(self).stream() == old(self).stream() + chunk@,
    {
        let ghost start = self.stream@;
        let len = chunk.len();
        let mut pos: usize = 0;
        proof {
            lemma_ascii_valid(Seq::<u8>::empty());
        }
        while pos < len
            invariant
                self.wf_core(),
                self.truncated,
                self.full_output@.len() == 0,
                valid_utf8(chunk@),
                pos <= len == chunk@.len(),
                self.stream@ == start + chunk@.subrange(0, pos as int),
                at_boundary(chunk@, pos as int),
            decreases len - pos,
        {
            let mut nl = pos;
            while nl < len && chunk[nl] != LF
                invariant
                    pos <= nl <= len == chunk@.len(),
                    forall|j: int| pos <= j < nl ==> chunk@[j] != LF,
                decreases len - nl,
            {
                nl += 1;
            }
            let ghost p0 = pos;
            if nl == len {
                self.push_partial_part(chunk, pos);
                pos = len;
            } else {
                self.push_line_part(chunk, pos, nl);
                pos = nl + 1;
            }
            assert(self.stream@ =~= start + chunk@.subrange(0, pos as int)) by {
                assert(chunk@.subrange(0, pos as int) =~= chunk@.subrange(0, p0 as int)
                    + chunk@.subrange(p0 as int, pos as int));
            }
        }
        assert(chunk@.subrange(0, len as int) =~= chunk@);
    }


    /// Handles the last part of a chunk, which has no line feed.
    #[verifier::rlimit(50)]
    fn push_partial_part(&mut self, chunk: &[u8], pos: usize)
        requires
            old(self).wf_core(),
            old(self).truncated,
            old(self).full_output@.len() == 0,
            valid_utf8(chunk@),
            pos < chunk@.len(),
            at_boundary(chunk@, pos as int),
            forall|j: int| pos <= j < chunk@.len() ==> chunk@[j] != LF,
        ensures
            final(self).wf_core(),
            final(self).truncated,
            final(self).full_output@.len() == 0,
            final(self).stream() == old(self).stream() + chunk@.subrange(
                pos as int,
                chunk@.len() as int,
            ),
    {
        let len = chunk.len();
        let ghost old_stream = self.stream@;
        let ghost p = partial_of(old_stream);
        let ghost acc = strip_cr(p);
        proof {
            lemma_partial_last(old_stream);
            if self.pending_carriage_return {
                assert(p.last() == CR);
                assert(p =~= acc + seq![CR]);
            } else if p.len() > 0 {
                assert(p.last() != CR);
            }
        }
        if self.pending_carriage_return {
            let cr: [u8; 1] = [CR];
            proof {
                lemma_ascii_valid(cr@);
                assert(cr@.subrange(0, 1) =~= cr@);
                assert(cr@ =~= seq![CR]);
                lemma_line_push_concat(empty_line(), acc, cr@);
            }
            self.current.push_range(&cr, 0, 1);
            self.pending_carriage_return = false;
            proof {
                acc = acc + seq![CR];
            }
        }
        assert(acc == p);
        let mut end = len;
        if chunk[len - 1] == CR {
            self.pending_carriage_return = true;
            end = len - 1;
        }
        proof {
            if end < len {
                lemma_split_valid(chunk@, pos as int);
                assert(at_boundary(chunk@, end as int));
            }
            lemma_subrange_valid(chunk@, pos as int, end as int);
            lemma_ascii_valid(seq![CR]);
            lemma_line_push_concat(empty_line(), acc, chunk@.subrange(pos as int, end as int));
        }
        self.current.push_range(chunk, pos, end);
        self.has_partial_line = self.has_partial_line || end > pos || self.pending_carriage_return;
        proof {
            let piece = chunk@.subrange(pos as int, len as int);
            self.stream@ = old_stream + piece;
            lemma_no_lf_count(piece);
            lemma_count_newlines_add(old_stream, piece);
            assert(self.stream@.last() == chunk@[len - 1]);
            lemma_subrange_valid(chunk@, pos as int, len as int);
            lemma_append_partial(old_stream, piece);
            let np = p + piece;
            assert(np.last() == chunk@[len - 1]);
            if end < len {
                assert(np.drop_last() =~= p + chunk@.subrange(pos as int, end as int));
            } else {
                assert(np =~= p + chunk@.subrange(pos as int, end as int));
            }
            assert(valid_utf8(acc));
            assert(valid_utf8(chunk@.subrange(pos as int, end as int)));
            assert(valid_utf8(p + chunk@.subrange(pos as int, end as int)));
            assert(strip_cr(partial_of(self.stream@)) == p + chunk@.subrange(pos as int, end as int));
            assert(kept_first(self.stream@) == kept_first(old_stream));
            assert(kept_last(self.stream@) == kept_last(old_stream));
        }
    }

    /// Handles a part of a chunk that ends with a line feed at `nl`.
    #[verifier::rlimit(60)]
    fn push_line_part(&mut self, chunk: &[u8], pos: usize, nl: usize)
        requires
            old(self).wf_core(),
            old(self).truncated,
            old(self).full_output@.len() == 0,
            valid_utf8(chunk@),
            pos <= nl < chunk@.len(),
            at_boundary(chunk@, pos as int),
            chunk@[nl as int] == LF,
            forall|j: int| pos <= j < nl ==> chunk@[j] != LF,
        ensures
            final(self).wf_core(),
            final(self).truncated,
            final(self).full_output@.len() == 0,
            final(self).stream() == old(self).stream() + chunk@.subrange(
                pos as int,
                nl + 1,
            ),
            at_boundary(chunk@, nl + 1),
    {
        let ghost old_stream = self.stream@;
        let ghost p = partial_of(old_stream);
        let ghost q = chunk@.subrange(pos as int, nl as int);
        let ghost acc = strip_cr(p);
        proof {
            lemma_partial_last(old_stream);
            if self.pending_carriage_return {
                assert(p.last() == CR);
                assert(p =~= acc + seq![CR]);
            } else if p.len() > 0 {
                assert(p.last() != CR);
            }
        }
        let has_cr = nl > pos && chunk[nl - 1] == CR;
        let end = if has_cr {
            nl - 1
        } else {
            nl
        };
        if self.pending_carriage_return && (has_cr || end > pos) {
            let cr: [u8; 1] = [CR];
            proof {
                lemma_ascii_valid(cr@);
                assert(cr@.subrange(0, 1) =~= cr@);
                assert(cr@ =~= seq![CR]);
                lemma_line_push_concat(empty_line(), acc, cr@);
            }
            self.current.push_range(&cr, 0, 1);
            proof {
                acc = acc + seq![CR];
            }
        }
        let ghost pushed_all = !self.pending_carriage_return || has_cr || end > pos;
        self.pending_carriage_return = false;
        proof {
            lemma_split_valid(chunk@, pos as int);
            if has_cr {
                let t = chunk@.subrange(pos as int, chunk@.len() as int);
                assert(at_boundary(chunk@, end as int));
            }
            lemma_subrange_valid(chunk@, pos as int, end as int);
            lemma_ascii_valid(seq![CR]);
            lemma_line_push_concat(empty_line(), acc, chunk@.subrange(pos as int, end as int));
        }
        self.current.push_range(chunk, pos, end);
        let ghost body = acc + chunk@.subrange(pos as int, end as int);
        proof {
            if pushed_all {
                assert(acc == p);
                if has_cr {
                    assert((p + q).drop_last() =~= body);
                } else {
                    assert(p + q =~= body);
                    if q.len() > 0 {
                        assert((p + q).last() == chunk@[nl - 1]);
                    }
                }
            } else {
                assert(q =~= Seq::<u8>::empty());
                assert(p + q =~= p);
                assert(body =~= acc);
            }
            assert(body == strip_cr(p + q));
        }
        self.completed_lines = self.completed_lines.saturating_add(1);
        self.has_partial_line = false;
        let line = self.current.render();
        assert(line@ == abbreviate(body));
        self.current = LiveCommandOutputLine::new();
        let ghost new_stream = old_stream + chunk@.subrange(pos as int, nl + 1);
        proof {
            assert(chunk@.subrange(pos as int, nl + 1) =~= q.push(LF));
            lemma_append_line(old_stream, q);
            lemma_done_lines_len(old_stream);
            assert(shown_lines(new_stream) =~= shown_lines(old_stream).push(abbreviate(body)));
            lemma_keep_new_line(old_stream, new_stream, abbreviate(body));
        }
        if self.head.len() < LIVE_COMMAND_OUTPUT_MAX_LINES {
            self.head.push(line);
            proof {
                assert(byte_views(self.head@) =~= kept_first(new_stream));
            }
        } else {
            if self.tail.len() == LIVE_COMMAND_OUTPUT_MAX_LINES {
                let ghost before = self.tail@;
                self.tail.remove(0);
                assert(byte_views(self.tail@) =~= byte_views(before).drop_first());
            }
            self.tail.push(line);
            proof {
                assert(byte_views(self.tail@) =~= kept_last(new_stream));
            }
        }
        proof {
            let piece = chunk@.subrange(pos as int, nl + 1);
            self.stream@ = old_stream + piece;
            assert(piece.drop_last() =~= chunk@.subrange(pos as int, nl as int));
            lemma_no_lf_count(piece.drop_last());
            lemma_count_newlines_add(old_stream, piece);
            assert(self.stream@.last() == LF);
            lemma_after_ascii_boundary(chunk@, nl as int);
            lemma_subrange_valid(chunk@, pos as int, nl + 1);
            assert forall|i: int| 0 <= i < self.tail@.len() implies valid_utf8(
                #[trigger] self.tail@[i]@,
            ) by {}
            assert forall|i: int| 0 <= i < self.head@.len() implies valid_utf8(
                #[trigger] self.head@[i]@,
            ) by {}
            assert(strip_cr(partial_of(self.stream@)) =~= Seq::<u8>::empty());
            lemma_line_push_nothing(empty_line());
            lemma_ascii_valid(Seq::<u8>::empty());
            assert(byte_views(self.head@) == kept_first(self.stream@));
            assert(byte_views(self.tail@) == kept_last(self.stream@));
        }
    }

    /// Number of output lines seen so far, as `str::lines` would count them
    /// over the whole output.
    pub fn total_lines(&self) -> (n: usize)
        requires
            self.wf(),
        ensures
            n == sat(line_count(self.stream())),
    {
        let partial: usize = if self.has_partial_line {
            1
        } else {
            0
        };
        self.completed_lines.saturating_add(partial)
    }

    /// Number of lines the preview keeps.
    pub fn retained_lines(&self) -> (n: usize)
        requires
            self.wf(),
        ensures
            n <= sat(line_count(self.stream())),
            !self.is_truncated() ==> n == sat(line_count(self.stream())),
            n <= 2 * LIVE_COMMAND_OUTPUT_MAX_LINES + 1 || !self.is_truncated(),
            self.is_truncated() ==> n == self.retained_count(),
    {
        if self.truncated {
            let partial: usize = if self.has_partial_line {
                1
            } else {
                0
            };
            self.head.len() + self.tail.len() + partial
        } else {
            self.total_lines()
        }
    }
}

/// The byte views of a sequence of byte vectors.
pub open spec fn byte_views(v: Seq<Vec<u8>>) -> Seq<Seq<u8>> {
    v.map_values(|b: Vec<u8>| b@)
}

/// The previewed lines of the untruncated output.
pub open spec fn untruncated_preview(s: Seq<u8>) -> Seq<Seq<u8>> {
    str_lines(s).map_values(|l: Seq<u8>| preview_line(l))
}

/// Copies `s[lo..hi]`, abbreviating it when it is longer than a line's
/// byte budget.
fn preview_line_of(s: &[u8], lo: usize, hi: usize) -> (r: Vec<u8>)
    requires
        lo <= hi <= s@.len(),
        valid_utf8(s@.subrange(lo as int, hi as int)),
    ensures
        r@ == preview_line(s@.subrange(lo as int, hi as int)),
        valid_utf8(r@),
{
    if hi - lo <= LIVE_COMMAND_OUTPUT_MAX_LINE_BYTES {
        slice_range(s, lo, hi)
    } else {
        let mut line = LiveCommandOutputLine::new();
        line.push_range(s, lo, hi);
        line.render()
    }
}

impl LiveCommandOutput {
    /// The line in progress as shown, with a deferred carriage return put
    /// back at its end.
    fn render_partial_line(&self) -> (r: Vec<u8>)
        requires
            self.wf(),
        ensures
            valid_utf8(r@),
            r@ == if self.pending_carriage_return {
                render_line(self.current.view_model()).push(CR)
            } else {
                render_line(self.current.view_model())
            },
    {
        let mut line = self.current.render();
        if self.pending_carriage_return {
            let ghost before = line@;
            line.push(CR);
            proof {
                lemma_ascii_valid(seq![CR]);
                assert(line@ =~= before + seq![CR]);
            }
        }
        line
    }

    /// The preview lines as bytes: all lines (each abbreviated when over the
    /// line budget) while untruncated; the kept first and last lines and the
    /// line in progress once truncated.
    pub fn preview_lines(&self) -> (r: Vec<Vec<u8>>)
        requires
            self.wf(),
        ensures
            !self.is_truncated() ==> byte_views(r@) == untruncated_preview(self.stream()),
            self.is_truncated() ==> byte_views(r@) == truncated_preview(self.stream()),
            r@.len() == self.retained_count(),
            forall|i: int| 0 <= i < r@.len() ==> valid_utf8(#[trigger] r@[i]@),
    {
        let mut out: Vec<Vec<u8>> = Vec::new();
        if self.truncated {
            let mut i: usize = 0;
            while i < self.head.len()
                invariant
                    self.wf(),
                    i <= self.head@.len(),
                    out@.len() == i,
                    forall|k: int| 0 <= k < out@.len() ==> valid_utf8(#[trigger] out@[k]@),
                    byte_views(out@) == byte_views(self.head@).take(i as int),
                decreases self.head@.len() - i,
            {
                let ghost before = out@;
                let line = self.head[i].clone();
                assert(line@ == self.head@[i as int]@);
                out.push(line);
                i += 1;
                assert(byte_views(out@) =~= byte_views(self.head@).take(i as int));
            }
            let mut j: usize = 0;
            while j < self.tail.len()
                invariant
                    self.wf(),
                    j <= self.tail@.len(),
                    out@.len() == self.head@.len() + j,
                    forall|k: int| 0 <= k < out@.len() ==> valid_utf8(#[trigger] out@[k]@),
                    byte_views(out@) == byte_views(self.head@) + byte_views(self.tail@).take(
                        j as int,
                    ),
                decreases self.tail@.len() - j,
            {
                let ghost before = out@;
                let line = self.tail[j].clone();
                assert(line@ == self.tail@[j as int]@);
                out.push(line);
                assert(byte_views(out@) =~= byte_views(before).push(line@));
                assert(byte_views(self.tail@).take(j + 1) =~= byte_views(self.tail@).take(
                    j as int,
                ).push(self.tail@[j as int]@));
                j += 1;
                assert(byte_views(out@) =~= byte_views(self.head@) + byte_views(self.tail@).take(
                    j as int,
                ));
            }
            proof {
                assert(byte_views(self.head@).take(self.head@.len() as int) =~= byte_views(
                    self.head@,
                ));
                assert(byte_views(self.tail@).take(self.tail@.len() as int) =~= byte_views(
                    self.tail@,
                ));
                lemma_partial_last(self.stream@);
            }
            if self.has_partial_line {
                let ghost before = out@;
                let last = self.render_partial_line();
                proof {
                    let p = partial_of(self.stream@);
                    if self.pending_carriage_return {
                        assert(strip_cr(p) == p.drop_last());
                    } else {
                        assert(strip_cr(p) == p);
                    }
                    assert(last@ == shown_partial(self.stream@));
                }
                out.push(last);
                assert(byte_views(out@) =~= byte_views(before).push(last@));
            }
            assert(byte_views(out@) =~= truncated_preview(self.stream@));
            return out;
        }
        let full = &self.full_output;
        let len = full.len();
        let mut pos: usize = 0;
        proof {
            assert(full@.subrange(0, len as int) =~= full@);
            lemma_ascii_valid(Seq::<u8>::empty());
        }
        while pos < len
            invariant
                self.wf(),
                !self.truncated,
                full@ == self.stream@,
                len == full@.len(),
                pos <= len,
                at_boundary(full@, pos as int),
                untruncated_preview(full@) == byte_views(out@) + untruncated_preview(
                    full@.subrange(pos as int, len as int),
                ),
                forall|k: int| 0 <= k < out@.len() ==> valid_utf8(#[trigger] out@[k]@),
            decreases len - pos,
        {
            let mut nl = pos;
            while nl < len && full[nl] != LF
                invariant
                    pos <= nl <= len == full@.len(),
                    forall|j: int| pos <= j < nl ==> full@[j] != LF,
                decreases len - nl,
            {
                nl += 1;
            }
            let ghost rest = full@.subrange(pos as int, len as int);
            proof {
                lemma_first_lf(rest, nl - pos);
            }
            let ghost before = out@;
            if nl == len {
                proof {
                    lemma_subrange_valid(full@, pos as int, len as int);
                }
                let line = preview_line_of(full, pos, len);
                out.push(line);
                proof {
                    assert(str_lines(rest) == seq![rest]);
                    assert(full@.subrange(len as int, len as int) =~= Seq::<u8>::empty());
                    assert(byte_views(out@) =~= byte_views(before) + seq![preview_line(rest)]);
                    assert(untruncated_preview(rest) =~= seq![preview_line(rest)]);
                }
                pos = len;
            } else {
                let end = if nl > pos && full[nl - 1] == CR {
                    nl - 1
                } else {
                    nl
                };
                proof {
                    lemma_split_valid(full@, pos as int);
                    lemma_subrange_valid(full@, pos as int, nl as int);
                    let l = full@.subrange(pos as int, nl as int);
                    if end < nl {
                        lemma_split_valid(l, end - pos);
                        assert(l.subrange(0, end - pos) =~= full@.subrange(pos as int, end as int));
                    }
                }
                let line = preview_line_of(full, pos, end);
                out.push(line);
                proof {
                    let l = full@.subrange(pos as int, nl as int);
                    assert(rest.subrange(0, (nl - pos) as int) =~= l);
                    assert(strip_cr(l) =~= full@.subrange(pos as int, end as int));
                    let rest2 = full@.subrange(nl + 1, len as int);
                    assert(rest.subrange((nl - pos + 1) as int, rest.len() as int) =~= rest2);
                    assert(str_lines(rest) =~= seq![strip_cr(l)] + str_lines(rest2));
                    assert(untruncated_preview(rest) =~= seq![preview_line(strip_cr(l))]
                        + untruncated_preview(rest2));
                    assert(byte_views(out@) =~= byte_views(before) + seq![
                        preview_line(strip_cr(l)),
                    ]);
                    lemma_after_ascii_boundary(full@, nl as int);
                }
                pos = nl + 1;
            }
        }
        proof {
            assert(full@.subrange(len as int, len as int) =~= Seq::<u8>::empty());
            assert(byte_views(out@) =~= untruncated_preview(full@));
            lemma_str_lines_len(full@);
        }
        out
    }

    /// Number of lines `preview_lines` yields.
    pub closed spec fn retained_count(&self) -> nat {
        if self.truncated {
            self.head@.len() + self.tail@.len() + if self.has_partial_line {
                1nat
            } else {
                0nat
            }
        } else {
            line_count(self.stream@)
        }
    }

    /// The preview lines as text.
    pub fn lines(&self) -> (r: Vec<String>)
        requires
            self.wf(),
        ensures
            r@.len() == self.retained_count(),
            !self.is_truncated() ==> forall|i: int|
                0 <= i < r@.len() ==> #[trigger] r@[i]@ == decode_utf8(
                    untruncated_preview(self.stream())[i],
                ),
            self.is_truncated() ==> forall|i: int|
                0 <= i < r@.len() ==> #[trigger] r@[i]@ == decode_utf8(
                    truncated_preview(self.stream())[i],
                ),
    {
        let bytes = self.preview_lines();
        let mut out: Vec<String> = Vec::new();
        let mut i: usize = 0;
        while i < bytes.len()
            invariant
                i <= bytes@.len(),
                out@.len() == i,
                forall|k: int| 0 <= k < bytes@.len() ==> valid_utf8(#[trigger] bytes@[k]@),
                forall|k: int| 0 <= k < i ==> #[trigger] out@[k]@ == decode_utf8(bytes@[k]@),
            decreases bytes@.len() - i,
        {
            out.push(string_from_utf8(bytes[i].clone()));
            i += 1;
        }
        proof {
            if !self.truncated {
                assert forall|i: int| 0 <= i < out@.len() implies #[trigger] out@[i]@
                    == decode_utf8(untruncated_preview(self.stream@)[i]) by {
                    assert(byte_views(bytes@)[i] == bytes@[i]@);
                }
            } else {
                assert forall|i: int| 0 <= i < out@.len() implies #[trigger] out@[i]@
                    == decode_utf8(truncated_preview(self.stream@)[i]) by {
                    assert(byte_views(bytes@)[i] == bytes@[i]@);
                }
            }
        }
        out
    }
}

/// The transcript marker `… +N lines` for omitted lines.
pub open spec fn omitted_marker(n: nat) -> Seq<char> {
    "… +"@ + decimal_chars(n) + " lines"@
}

impl LiveCommandOutput {
    /// Number of first lines kept once truncated.
    pub closed spec fn kept_head_count(&self) -> nat {
        self.head@.len()
    }

    /// Rows the omission marker takes: one where lines were dropped.
    pub closed spec fn marker_rows(&self) -> nat {
        if self.omitted_count() > 0 {
            1
        } else {
            0
        }
    }

    /// Lines dropped from the middle once truncated.
    pub closed spec fn omitted_count(&self) -> nat {
        let total = sat(line_count(self.stream@));
        let kept = self.retained_count();
        if total > kept {
            (total - kept) as nat
        } else {
            0
        }
    }

    /// Lossless transcript lines while untruncated; once truncated the kept
    /// first lines, a marker counting the lines dropped, the kept last lines
    /// and the line in progress.
    pub fn transcript_lines(&self) -> (r: Vec<String>)
        requires
            self.wf(),
        ensures
            !self.is_truncated() ==> r@.len() == line_count(self.stream()) && forall|i: int|
                0 <= i < r@.len() ==> #[trigger] r@[i]@ == decode_utf8(str_lines(self.stream())[i]),
            self.is_truncated() ==> r@.len() == self.retained_count() + if self.omitted_count()
                > 0 {
                1nat
            } else {
                0nat
            },
            self.is_truncated() && self.omitted_count() > 0 ==> r@[self.kept_head_count() as int]@
                == omitted_marker(self.omitted_count()),
            self.is_truncated() ==> self.kept_head_count() == kept_first(self.stream()).len()
                && forall|i: int|
                0 <= i < self.kept_head_count() ==> #[trigger] r@[i]@ == decode_utf8(
                    kept_first(self.stream())[i],
                ),
            self.is_truncated() ==> forall|j: int|
                0 <= j < kept_last(self.stream()).len() ==> r@[self.kept_head_count()
                    + self.marker_rows() + j]@ == decode_utf8(#[trigger] kept_last(self.stream())[j]),
            self.is_truncated() && partial_of(self.stream()).len() > 0 ==> r@.last()@ == decode_utf8(
                shown_partial(self.stream()),
            ),
    {
        let mut out: Vec<String> = Vec::new();
        if self.truncated {
            let total = self.total_lines();
            let kept = self.retained_lines();
            let omitted = if total > kept {
                total - kept
            } else {
                0
            };
            let mut i: usize = 0;
            while i < self.head.len()
                invariant
                    self.wf(),
                    i <= self.head@.len(),
                    out@.len() == i,
                    forall|k: int| 0 <= k < i ==> #[trigger] out@[k]@ == decode_utf8(self.head@[k]@),
                decreases self.head@.len() - i,
            {
                let line = self.head[i].clone();
                assert(line@ == self.head@[i as int]@);
                out.push(string_from_utf8(line));
                i += 1;
            }
            if omitted > 0 {
                let mut m = String::from_str("… +");
                push_decimal_chars(&mut m, omitted);
                m.append(" lines");
                out.push(m);
            }
            let ghost marker_len = out@.len();
            let mut j: usize = 0;
            while j < self.tail.len()
                invariant
                    self.wf(),
                    j <= self.tail@.len(),
                    out@.len() == marker_len + j,
                    marker_len == self.head@.len() + if omitted > 0 {
                        1nat
                    } else {
                        0nat
                    },
                    omitted > 0 ==> out@[self.head@.len() as int]@ == omitted_marker(
                        omitted as nat,
                    ),
                    forall|k: int| 0 <= k < self.head@.len() ==> #[trigger] out@[k]@ == decode_utf8(
                        self.head@[k]@,
                    ),
                    forall|k: int| 0 <= k < j ==> #[trigger] out@[marker_len + k]@ == decode_utf8(
                        self.tail@[k]@,
                    ),
                decreases self.tail@.len() - j,
            {
                let line = self.tail[j].clone();
                assert(line@ == self.tail@[j as int]@);
                out.push(string_from_utf8(line));
                j += 1;
            }
            proof {
                lemma_partial_last(self.stream@);
                assert forall|k: int| 0 <= k < self.head@.len() implies #[trigger] out@[k]@
                    == decode_utf8(kept_first(self.stream@)[k]) by {
                    assert(byte_views(self.head@)[k] == self.head@[k]@);
                }
                assert forall|k: int| 0 <= k < kept_last(self.stream@).len() implies out@[
                    marker_len + k]@ == decode_utf8(#[trigger] kept_last(self.stream@)[k]) by {
                    assert(byte_views(self.tail@)[k] == self.tail@[k]@);
                }
            }
            if self.has_partial_line {
                let last = self.render_partial_line();
                proof {
                    let p = partial_of(self.stream@);
                    if self.pending_carriage_return {
                        assert(strip_cr(p) == p.drop_last());
                    } else {
                        assert(strip_cr(p) == p);
                    }
                    assert(last@ == shown_partial(self.stream@));
                }
                out.push(string_from_utf8(last));
            }
            assert(omitted == self.omitted_count());
            return out;
        }
        let full = &self.full_output;
        let len = full.len();
        let mut pos: usize = 0;
        proof {
            assert(full@.subrange(0, len as int) =~= full@);
        }
        let ghost all = str_lines(full@);
        while pos < len
            invariant
                self.wf(),
                !self.truncated,
                full@ == self.stream@,
                len == full@.len(),
                pos <= len,
                at_boundary(full@, pos as int),
                all == str_lines(full@),
                all.len() == out@.len() + str_lines(full@.subrange(pos as int, len as int)).len(),
                forall|k: int| 0 <= k < out@.len() ==> #[trigger] out@[k]@ == decode_utf8(all[k]),
                forall|k: int|
                    0 <= k < str_lines(full@.subrange(pos as int, len as int)).len() ==> all[out@.len()
                        + k] == #[trigger] str_lines(full@.subrange(pos as int, len as int))[k],
            decreases len - pos,
        {
            let mut nl = pos;
            while nl < len && full[nl] != LF
                invariant
                    pos <= nl <= len == full@.len(),
                    forall|j: int| pos <= j < nl ==> full@[j] != LF,
                decreases len - nl,
            {
                nl += 1;
            }
            let ghost rest = full@.subrange(pos as int, len as int);
            proof {
                lemma_first_lf(rest, nl - pos);
            }
            if nl == len {
                proof {
                    lemma_subrange_valid(full@, pos as int, len as int);
                    assert(str_lines(rest) == seq![rest]);
                    assert(str_lines(rest)[0] == rest);
                    assert(all[out@.len() + 0int] == str_lines(rest)[0]);
                    assert(full@.subrange(len as int, len as int) =~= Seq::<u8>::empty());
                }
                let line = crate::live_output::slice_range(full, pos, len);
                out.push(string_from_utf8(line));
                pos = len;
            } else {
                let end = if nl > pos && full[nl - 1] == CR {
                    nl - 1
                } else {
                    nl
                };
                proof {
                    lemma_split_valid(full@, pos as int);
                    lemma_subrange_valid(full@, pos as int, nl as int);
                    let l = full@.subrange(pos as int, nl as int);
                    if end < nl {
                        lemma_split_valid(l, end - pos);
                        assert(l.subrange(0, end - pos) =~= full@.subrange(pos as int, end as int));
                    }
                    assert(rest.subrange(0, (nl - pos) as int) =~= l);
                    assert(strip_cr(l) =~= full@.subrange(pos as int, end as int));
                    let rest2 = full@.subrange(nl + 1, len as int);
                    assert(rest.subrange((nl - pos + 1) as int, rest.len() as int) =~= rest2);
                    assert(str_lines(rest) =~= seq![strip_cr(l)] + str_lines(rest2));
                    assert(all[out@.len() as int] == str_lines(rest)[0]);
                    assert forall|k: int| 0 <= k < str_lines(rest2).len() implies all[out@.len() + 1
                        + k] == #[trigger] str_lines(rest2)[k] by {
                        assert(str_lines(rest)[k + 1] == str_lines(rest2)[k]);
                    }
                    lemma_after_ascii_boundary(full@, nl as int);
                }
                let line = crate::live_output::slice_range(full, pos, end);
                out.push(string_from_utf8(line));
                pos = nl + 1;
            }
        }
        proof {
            assert(full@.subrange(len as int, len as int) =~= Seq::<u8>::empty());
            lemma_str_lines_len(full@);
        }
        out
    }
}
} // verus!
