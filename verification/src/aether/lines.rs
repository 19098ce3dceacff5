//! Splitting terminal output into lines.
//!
//! A line feed ends a line. A carriage return that is not part of the line
//! ending moves the cursor back, so what comes after it overwrites what stood
//! before: only the last frame of a line is kept.

use crate::text::{chars_of, string_of, width_of};
use vstd::prelude::*;
use vstd::utf8::*;

verus! {

/// The largest size, in bytes, of an unterminated tail. What exceeds it is
/// discarded from the front.
pub const MAX_PARTIAL: usize = 16384;

/// The texts of some strings.
pub open spec fn texts(v: Seq<String>) -> Seq<Seq<char>> {
    Seq::new(v.len(), |i: int| v[i]@)
}

/// The index of the first line feed of `s`, or its length if it has none.
pub open spec fn first_lf(s: Seq<char>) -> nat
    decreases s.len(),
{
    if s.len() == 0 || s[0] == '\n' {
        0
    } else {
        1 + first_lf(s.drop_first())
    }
}

/// The number of carriage returns at the end of `s`.
pub open spec fn trailing_crs(s: Seq<char>) -> nat
    decreases s.len(),
{
    if s.len() > 0 && s.last() == '\r' {
        1 + trailing_crs(s.drop_last())
    } else {
        0
    }
}

/// What stands in `s` after its last carriage return.
pub open spec fn after_last_cr(s: Seq<char>) -> Seq<char>
    decreases s.len(),
{
    if s.len() == 0 || s.last() == '\r' {
        seq![]
    } else {
        after_last_cr(s.drop_last()).push(s.last())
    }
}

/// `s` without the carriage returns at its end.
pub open spec fn bare(s: Seq<char>) -> Seq<char> {
    s.take(s.len() - trailing_crs(s))
}

/// What is visible of `s`, a piece of output without line feed: its last
/// frame, without the carriage returns at the end.
pub open spec fn frame(s: Seq<char>) -> Seq<char> {
    after_last_cr(bare(s))
}

/// The last frame of `s` together with the carriage returns at its end, which
/// may turn out to be the beginning of a line ending.
pub open spec fn open_frame(s: Seq<char>) -> Seq<char> {
    frame(s) + s.skip(s.len() - trailing_crs(s))
}

/// The terminated lines of `s`, each by what is visible of it.
pub open spec fn lines_of(s: Seq<char>) -> Seq<Seq<char>>
    decreases s.len(),
{
    let p = first_lf(s);
    if p >= s.len() {
        seq![]
    } else {
        seq![frame(s.take(p as int))] + lines_of(s.skip(p as int + 1))
    }
}

/// What is left of `s` after its last line.
pub open spec fn tail_of(s: Seq<char>) -> Seq<char>
    decreases s.len(),
{
    let p = first_lf(s);
    if p >= s.len() {
        open_frame(s)
    } else {
        tail_of(s.skip(p as int + 1))
    }
}

/// The longest end of `s` that takes at most [`MAX_PARTIAL`] bytes in UTF-8.
pub open spec fn capped(s: Seq<char>) -> Seq<char>
    decreases s.len(),
{
    if s.len() == 0 || encode_utf8(s).len() <= MAX_PARTIAL {
        s
    } else {
        capped(s.drop_first())
    }
}

proof fn lemma_first_lf(s: Seq<char>)
    ensures
        first_lf(s) <= s.len(),
        first_lf(s) < s.len() ==> s[first_lf(s) as int] == '\n',
        forall|i: int| 0 <= i < first_lf(s) ==> s[i] != '\n',
    decreases s.len(),
{
    if s.len() > 0 && s[0] != '\n' {
        let t = s.drop_first();
        lemma_first_lf(t);
        assert forall|i: int| 0 <= i < first_lf(s) implies s[i] != '\n' by {
            if i > 0 {
                assert(s[i] == t[i - 1]);
            }
        }
    }
}

proof fn lemma_first_lf_is(s: Seq<char>, p: nat)
    requires
        p <= s.len(),
        p < s.len() ==> s[p as int] == '\n',
        forall|i: int| 0 <= i < p ==> s[i] != '\n',
    ensures
        first_lf(s) == p,
{
    lemma_first_lf(s);
}

proof fn lemma_trailing_crs(s: Seq<char>)
    ensures
        trailing_crs(s) <= s.len(),
        forall|i: int| s.len() - trailing_crs(s) <= i < s.len() ==> s[i] == '\r',
        bare(s).len() > 0 ==> bare(s).last() != '\r',
    decreases s.len(),
{
    if s.len() > 0 && s.last() == '\r' {
        let t = s.drop_last();
        lemma_trailing_crs(t);
        assert(bare(s) =~= bare(t));
        assert forall|i: int| s.len() - trailing_crs(s) <= i < s.len() implies s[i] == '\r' by {
            if i < s.len() - 1 {
                assert(s[i] == t[i]);
            }
        }
    }
}

proof fn lemma_trailing_crs_is(s: Seq<char>, n: nat)
    requires
        n <= s.len(),
        forall|i: int| s.len() - n <= i < s.len() ==> s[i] == '\r',
        n < s.len() ==> s[s.len() - n - 1] != '\r',
    ensures
        trailing_crs(s) == n,
{
    lemma_trailing_crs(s);
    let m = trailing_crs(s);
    if m < n {
        assert(bare(s).last() == s[s.len() - m - 1]);
    }
}

proof fn lemma_after_last_cr(s: Seq<char>)
    ensures
        after_last_cr(s).len() <= s.len(),
        after_last_cr(s) == s.skip(s.len() - after_last_cr(s).len()),
        !after_last_cr(s).contains('\r'),
        after_last_cr(s).len() < s.len() ==> s[s.len() - after_last_cr(s).len() - 1] == '\r',
    decreases s.len(),
{
    let r = after_last_cr(s);
    if s.len() > 0 && s.last() != '\r' {
        let t = s.drop_last();
        lemma_after_last_cr(t);
        let q = after_last_cr(t);
        assert(r =~= s.skip(s.len() - r.len()));
        assert forall|i: int| 0 <= i < r.len() implies r[i] != '\r' by {
            if i < q.len() {
                assert(r[i] == q[i]);
                assert(q.contains(q[i]));
            }
        }
        if r.len() < s.len() {
            assert(s[s.len() - r.len() - 1] == t[t.len() - q.len() - 1]);
        }
    } else {
        assert(r =~= s.skip(s.len() as int));
    }
}

proof fn lemma_after_last_cr_is(s: Seq<char>, k: int)
    requires
        0 <= k <= s.len(),
        forall|i: int| k <= i < s.len() ==> s[i] != '\r',
        k > 0 ==> s[k - 1] == '\r',
    ensures
        after_last_cr(s) == s.skip(k),
{
    lemma_after_last_cr(s);
    let n = after_last_cr(s).len();
    if s.len() - n < k {
        let r = after_last_cr(s);
        assert(r[k - 1 - (s.len() - n)] == s[k - 1]);
        assert(r.contains(r[k - 1 - (s.len() - n)]));
    }
}

proof fn lemma_frame_shift(d: Seq<char>, y: Seq<char>)
    requires
        d.len() > 0 ==> d.last() == '\r',
        exists|i: int| 0 <= i < y.len() && y[i] != '\r',
    ensures
        frame(d + y) == frame(y),
        open_frame(d + y) == open_frame(y),
{
    let z = d + y;
    let n = trailing_crs(y);
    lemma_trailing_crs(y);
    assert(n < y.len()) by {
        let i = choose|i: int| 0 <= i < y.len() && y[i] != '\r';
        if n == y.len() {
            assert(y[i] == '\r');
        }
    }
    assert(bare(y).last() == y[y.len() - n - 1]);
    lemma_trailing_crs_is(z, n);
    let cy = bare(y);
    let cz = bare(z);
    assert(cz =~= d + cy);
    lemma_after_last_cr(cy);
    let k = cy.len() - after_last_cr(cy).len();
    assert forall|i: int| d.len() + k <= i < cz.len() implies cz[i] != '\r' by {
        let r = after_last_cr(cy);
        assert(cz[i] == r[i - d.len() - k]);
        assert(r.contains(r[i - d.len() - k]));
    }
    lemma_after_last_cr_is(cz, d.len() + k);
    assert(cz.skip(d.len() + k) =~= cy.skip(k));
    assert(z.skip(z.len() - n) =~= y.skip(y.len() - n));
}

/// Keeping only the open frame of `a` loses nothing for what comes after it.
proof fn lemma_open_frame(a: Seq<char>, x: Seq<char>)
    ensures
        frame(open_frame(a) + x) == frame(a + x),
        open_frame(open_frame(a) + x) == open_frame(a + x),
{
    let t = open_frame(a);
    lemma_trailing_crs(a);
    lemma_after_last_cr(bare(a));
    let f = frame(a);
    let d = a.take(bare(a).len() - f.len());
    assert(a =~= d + t);
    assert(a + x =~= d + (t + x));
    if d.len() > 0 {
        assert(d.last() == bare(a)[bare(a).len() - f.len() - 1]);
        assert(f.len() > 0) by {
            assert(bare(a).last() != '\r');
        }
        assert(f.last() == bare(a).last());
        assert((t + x)[f.len() - 1] != '\r');
        lemma_frame_shift(d, t + x);
    } else {
        assert(a =~= t);
    }
}

proof fn lemma_no_lf_in_open_frame(a: Seq<char>)
    requires
        first_lf(a) == a.len(),
    ensures
        first_lf(open_frame(a)) == open_frame(a).len(),
{
    lemma_first_lf(a);
    lemma_trailing_crs(a);
    lemma_after_last_cr(bare(a));
    let t = open_frame(a);
    let k = a.len() - t.len();
    assert forall|i: int| 0 <= i < t.len() implies t[i] != '\n' by {
        assert(t[i] == a[k + i]);
    }
    lemma_first_lf_is(t, t.len());
}

/// The output can be cut anywhere: splitting off the lines of a first part,
/// and then those of what it leaves together with a second part, gives the
/// same lines and leaves the same tail as doing it at once.
pub proof fn law_output_can_be_cut(a: Seq<char>, b: Seq<char>)
    ensures
        lines_of(a + b) == lines_of(a) + lines_of(tail_of(a) + b),
        tail_of(a + b) == tail_of(tail_of(a) + b),
    decreases a.len(),
{
    lemma_first_lf(a);
    let p = first_lf(a);
    if p < a.len() {
        lemma_first_lf_is(a + b, p);
        let rest = a.skip(p as int + 1);
        law_output_can_be_cut(rest, b);
        assert((a + b).skip(p as int + 1) =~= rest + b);
        assert((a + b).take(p as int) =~= a.take(p as int));
        let line = seq![frame(a.take(p as int))];
        assert(line + (lines_of(rest) + lines_of(tail_of(rest) + b)) =~= (line + lines_of(rest))
            + lines_of(tail_of(rest) + b));
    } else {
        let t = open_frame(a);
        lemma_no_lf_in_open_frame(a);
        lemma_first_lf(t);
        lemma_first_lf(b);
        let q = first_lf(b);
        lemma_first_lf_is(a + b, a.len() + q);
        lemma_first_lf_is(t + b, t.len() + q);
        if q < b.len() {
            let x = b.take(q as int);
            lemma_open_frame(a, x);
            assert((a + b).take((a.len() + q) as int) =~= a + x);
            assert((t + b).take((t.len() + q) as int) =~= t + x);
            assert((a + b).skip((a.len() + q) as int + 1) =~= b.skip(q as int + 1));
            assert((t + b).skip((t.len() + q) as int + 1) =~= b.skip(q as int + 1));
        } else {
            lemma_open_frame(a, b);
        }
        assert(lines_of(a) + lines_of(t + b) =~= lines_of(t + b));
    }
}

/// What is left holds no further line: splitting it again changes nothing.
pub proof fn law_tail_is_settled(a: Seq<char>)
    ensures
        lines_of(tail_of(a)).len() == 0,
        tail_of(tail_of(a)) == tail_of(a),
    decreases a.len(),
{
    lemma_first_lf(a);
    let p = first_lf(a);
    if p < a.len() {
        law_tail_is_settled(a.skip(p as int + 1));
    } else {
        lemma_no_lf_in_open_frame(a);
        lemma_open_frame(a, seq![]);
        assert(open_frame(a) + seq![] =~= open_frame(a));
        assert(a + seq![] =~= a);
    }
}

/// No line holds a carriage return or a line feed.
pub proof fn law_lines_are_clean(a: Seq<char>)
    ensures
        forall|i: int|
            0 <= i < lines_of(a).len() ==> !(#[trigger] lines_of(a)[i]).contains('\r')
                && !lines_of(a)[i].contains('\n'),
    decreases a.len(),
{
    lemma_first_lf(a);
    let p = first_lf(a);
    if p < a.len() {
        let s = a.take(p as int);
        let rest = a.skip(p as int + 1);
        law_lines_are_clean(rest);
        lemma_trailing_crs(s);
        lemma_after_last_cr(bare(s));
        let f = frame(s);
        assert forall|j: int| 0 <= j < f.len() implies f[j] != '\n' by {
            assert(f[j] == a[bare(s).len() - f.len() + j]);
        }
        assert forall|i: int| 0 <= i < lines_of(a).len() implies !(
        #[trigger] lines_of(a)[i]).contains('\r') && !lines_of(a)[i].contains('\n') by {
            if i > 0 {
                assert(lines_of(a)[i] == lines_of(rest)[i - 1]);
            } else {
                assert(lines_of(a)[0] == f);
            }
        }
    }
}

/// A tail never outgrows its bound, and one within the bound is kept whole.
pub proof fn law_tail_is_bounded(s: Seq<char>)
    ensures
        encode_utf8(capped(s)).len() <= MAX_PARTIAL,
        encode_utf8(s).len() <= MAX_PARTIAL ==> capped(s) == s,
        exists|k: int| 0 <= k <= s.len() && capped(s) == s.skip(k),
    decreases s.len(),
{
    if s.len() == 0 || encode_utf8(s).len() <= MAX_PARTIAL {
        assert(s.skip(0) =~= s);
    } else {
        let t = s.drop_first();
        law_tail_is_bounded(t);
        let k = choose|k: int| 0 <= k <= t.len() && capped(t) == t.skip(k);
        assert(t.skip(k) =~= s.skip(k + 1));
    }
}

/// Splits off every terminated line of `buf` and returns them in order; what
/// is left stays in `buf`, with the carriage returns that may begin a line
/// ending, and no longer than [`MAX_PARTIAL`] bytes.
pub fn drain_lines(buf: &mut String) -> (lines: Vec<String>)
    ensures
        texts(lines@) == lines_of(old(buf)@),
        final(buf)@ == capped(tail_of(old(buf)@)),
{
    let v = chars_of(buf.as_str());
    let mut lines: Vec<String> = Vec::new();
    let mut from: usize = 0;
    assert(v@.skip(0) =~= old(buf)@);
    assert(texts(lines@) + lines_of(old(buf)@) =~= lines_of(old(buf)@));
    loop
        invariant_except_break
            texts(lines@) + lines_of(v@.skip(from as int)) == lines_of(old(buf)@),
            tail_of(v@.skip(from as int)) == tail_of(old(buf)@),
        invariant
            from <= v@.len(),
        ensures
            texts(lines@) == lines_of(old(buf)@),
            open_frame(v@.skip(from as int)) == tail_of(old(buf)@),
        decreases v@.len() - from,
    {
        let ghost rest = v@.skip(from as int);
        let mut lf: usize = from;
        while lf < v.len() && v[lf] != '\n'
            invariant
                from <= lf <= v@.len(),
                forall|i: int| from <= i < lf ==> v@[i] != '\n',
            decreases v@.len() - lf,
        {
            lf = lf + 1;
        }
        proof {
            lemma_first_lf_is(rest, (lf - from) as nat);
        }
        if lf == v.len() {
            assert(texts(lines@) + lines_of(rest) =~= texts(lines@));
            break;
        }
        let ghost piece = rest.take(lf - from);
        assert(piece =~= v@.subrange(from as int, lf as int));
        let (start, end) = visible(&v, from, lf);
        let line = string_of(&v, start, end);
        let ghost before = texts(lines@);
        lines.push(line);
        assert(texts(lines@) =~= before.push(frame(piece)));
        assert(rest.skip(lf - from + 1) =~= v@.skip(lf + 1));
        assert(before + lines_of(rest) =~= texts(lines@) + lines_of(v@.skip(lf + 1)));
        from = lf + 1;
    }
    let total: usize = v.len();
    let (start, end) = visible(&v, from, total);
    let ghost last = v@.skip(from as int);
    assert(last =~= v@.subrange(from as int, total as int));
    assert(open_frame(last) =~= v@.skip(start as int)) by {
        lemma_trailing_crs(last);
    }
    let cut: usize = cap_from(&v, start);
    *buf = string_of(&v, cut, total);
    assert(v@.subrange(cut as int, total as int) =~= v@.skip(cut as int));
    lines
}

/// The range of `v` that is visible of the piece `v[from..to]`.
fn visible(v: &Vec<char>, from: usize, to: usize) -> (r: (usize, usize))
    requires
        from <= to <= v@.len(),
    ensures
        from <= r.0 <= r.1 <= to,
        v@.subrange(r.0 as int, r.1 as int) == frame(v@.subrange(from as int, to as int)),
        to - r.1 == trailing_crs(v@.subrange(from as int, to as int)),
{
    let ghost s = v@.subrange(from as int, to as int);
    let mut end: usize = to;
    while from < end && v[end - 1] == '\r'
        invariant
            from <= end <= to <= v@.len(),
            forall|i: int| end <= i < to ==> v@[i] == '\r',
        decreases end,
    {
        end = end - 1;
    }
    proof {
        lemma_trailing_crs_is(s, (to - end) as nat);
    }
    assert(bare(s) =~= v@.subrange(from as int, end as int));
    let mut start: usize = end;
    while from < start && v[start - 1] != '\r'
        invariant
            from <= start <= end <= to <= v@.len(),
            forall|i: int| start <= i < end ==> v@[i] != '\r',
        decreases start,
    {
        start = start - 1;
    }
    proof {
        lemma_after_last_cr_is(bare(s), start - from);
        assert(bare(s).skip(start - from) =~= v@.subrange(start as int, end as int));
    }
    (start, end)
}

/// The index of `v` from which the end that fits into [`MAX_PARTIAL`] bytes
/// begins, of the part from `start` on.
fn cap_from(v: &Vec<char>, start: usize) -> (cut: usize)
    requires
        start <= v@.len(),
    ensures
        start <= cut <= v@.len(),
        v@.skip(cut as int) == capped(v@.skip(start as int)),
{
    let mut cut: usize = v.len();
    let mut size: usize = 0;
    assert(v@.skip(cut as int) =~= seq![]);
    while start < cut
        invariant
            start <= cut <= v@.len(),
            size == encode_utf8(v@.skip(cut as int)).len(),
            size <= MAX_PARTIAL,
        decreases cut,
    {
        let w: usize = width_of(v[cut - 1]);
        assert(v@.skip(cut - 1).drop_first() =~= v@.skip(cut as int));
        assert(encode_utf8(v@.skip(cut - 1)).len() == w + size);
        if size + w > MAX_PARTIAL {
            proof {
                lemma_capped(v@, start as int, cut as int);
            }
            return cut;
        }
        size = size + w;
        cut = cut - 1;
    }
    cut
}

proof fn lemma_capped(s: Seq<char>, start: int, cut: int)
    requires
        0 <= start < cut <= s.len(),
        encode_utf8(s.skip(cut)).len() <= MAX_PARTIAL,
        encode_utf8(s.skip(cut - 1)).len() > MAX_PARTIAL,
    ensures
        capped(s.skip(start)) == s.skip(cut),
    decreases cut - start,
{
    assert(s.skip(start).drop_first() =~= s.skip(start + 1));
    if start + 1 < cut {
        lemma_capped(s, start + 1, cut);
        lemma_size_grows(s, start, cut - 1);
    } else {
        assert(capped(s.skip(cut)) == s.skip(cut));
    }
}

proof fn lemma_size_grows(s: Seq<char>, i: int, j: int)
    requires
        0 <= i <= j <= s.len(),
    ensures
        encode_utf8(s.skip(i)).len() >= encode_utf8(s.skip(j)).len(),
    decreases j - i,
{
    if i < j {
        lemma_size_grows(s, i + 1, j);
        assert(s.skip(i).drop_first() =~= s.skip(i + 1));
    }
}

/// A run of carriage returns.
pub open spec fn crs(n: nat) -> Seq<char> {
    Seq::new(n, |i: int| '\r')
}

/// Whether `s` holds no carriage return and no line feed.
pub open spec fn is_plain(s: Seq<char>) -> bool {
    forall|i: int| 0 <= i < s.len() ==> #[trigger] s[i] != '\r' && s[i] != '\n'
}

proof fn lemma_frame_of(x: Seq<char>, f: Seq<char>, n: nat)
    requires
        is_plain(f),
        x.len() == 0 || (x.last() == '\r' && f.len() > 0),
    ensures
        frame(x + f + crs(n)) == f,
        open_frame(x + f + crs(n)) == f + crs(n),
{
    let s = x + f + crs(n);
    if f.len() > 0 {
        assert(s[s.len() - n - 1] == f[f.len() - 1]);
        assert(f[f.len() - 1] != '\r');
    }
    lemma_trailing_crs_is(s, n);
    assert(bare(s) =~= x + f);
    assert forall|i: int| x.len() <= i < (x + f).len() implies (x + f)[i] != '\r' by {
        assert((x + f)[i] == f[i - x.len()]);
    }
    lemma_after_last_cr_is(x + f, x.len() as int);
    assert((x + f).skip(x.len() as int) =~= f);
    assert(s.skip(s.len() - n) =~= crs(n));
}

/// What a terminated line shows: a piece of output that a line feed ends, with
/// any number of carriage returns before it, gives one line, and the lines of
/// what follows come after it. Where earlier frames `x` of the piece end in a
/// carriage return, they are overwritten by the text `f` after it and leave no
/// trace.
pub proof fn law_a_line_feed_ends_a_line(x: Seq<char>, f: Seq<char>, n: nat, rest: Seq<char>)
    requires
        forall|i: int| 0 <= i < x.len() ==> #[trigger] x[i] != '\n',
        is_plain(f),
        x.len() == 0 || (x.last() == '\r' && f.len() > 0),
    ensures
        lines_of(x + f + crs(n) + seq!['\n'] + rest) == seq![f] + lines_of(rest),
        tail_of(x + f + crs(n) + seq!['\n'] + rest) == tail_of(rest),
{
    let piece = x + f + crs(n);
    let s = piece + seq!['\n'] + rest;
    assert forall|i: int| 0 <= i < piece.len() implies s[i] != '\n' by {
        if i < x.len() {
            assert(s[i] == x[i]);
        } else if i < x.len() + f.len() {
            assert(s[i] == f[i - x.len()]);
        }
    }
    lemma_first_lf_is(s, piece.len());
    assert(s.take(piece.len() as int) =~= piece);
    assert(s.skip(piece.len() as int + 1) =~= rest);
    lemma_frame_of(x, f, n);
}

/// What waits without a line feed: nothing of it is a line yet, overwritten
/// frames are gone, and the carriage returns at the end wait for a line feed
/// that may still come.
pub proof fn law_an_open_line_waits(x: Seq<char>, f: Seq<char>, n: nat)
    requires
        forall|i: int| 0 <= i < x.len() ==> #[trigger] x[i] != '\n',
        is_plain(f),
        x.len() == 0 || (x.last() == '\r' && f.len() > 0),
    ensures
        lines_of(x + f + crs(n)) == Seq::<Seq<char>>::empty(),
        tail_of(x + f + crs(n)) == f + crs(n),
{
    let s = x + f + crs(n);
    assert forall|i: int| 0 <= i < s.len() implies s[i] != '\n' by {
        if i < x.len() {
            assert(s[i] == x[i]);
        } else if i < x.len() + f.len() {
            assert(s[i] == f[i - x.len()]);
        }
    }
    lemma_first_lf_is(s, s.len());
    lemma_frame_of(x, f, n);
}

/// As much of the end is kept as fits into 16384 bytes, in whole characters:
/// what is kept is an end of the text, it fits, and with one more character it
/// would not.
pub proof fn law_as_much_is_kept_as_fits(s: Seq<char>)
    ensures
        exists|k: int| #[trigger]
            is_cut(s, k) && capped(s) == s.skip(k) && encode_utf8(s.skip(k)).len() <= 16384 && (k
                > 0 ==> encode_utf8(s.skip(k - 1)).len() > 16384),
    decreases s.len(),
{
    if s.len() == 0 || encode_utf8(s).len() <= 16384 {
        assert(s.skip(0) =~= s);
        assert(is_cut(s, 0));
    } else {
        let t = s.drop_first();
        law_as_much_is_kept_as_fits(t);
        let k = choose|k: int| #[trigger]
            is_cut(t, k) && capped(t) == t.skip(k) && encode_utf8(t.skip(k)).len() <= 16384 && (k
                > 0 ==> encode_utf8(t.skip(k - 1)).len() > 16384);
        assert(t.skip(k) =~= s.skip(k + 1));
        if k > 0 {
            assert(t.skip(k - 1) =~= s.skip(k));
        } else {
            assert(s.skip(0) =~= s);
        }
        assert(is_cut(s, k + 1));
    }
}

/// Whether `k` is a place at which `s` can be cut.
pub open spec fn is_cut(s: Seq<char>, k: int) -> bool {
    0 <= k <= s.len()
}

} // verus!
