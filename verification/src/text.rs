//! Text primitives: everything the rest of the crate does with characters,
//! stated over the characters of a string.

use vstd::prelude::*;
use vstd::utf8::*;

verus! {

/// `String::push` of the standard library: appends the given character to the
/// end of the string.
pub assume_specification[ String::push ](s: &mut String, c: char)
    ensures
        final(s)@ == old(s)@.push(c),
;

/// Whether `needle` occurs in `s` as a contiguous run of characters.
pub open spec fn has_run(s: Seq<char>, needle: Seq<char>) -> bool {
    exists|i: int|
        0 <= i <= s.len() - needle.len() && #[trigger] s.subrange(i, i + needle.len()) == needle
}

/// Whether `s` ends with the characters of `tail`.
pub open spec fn has_tail(s: Seq<char>, tail: Seq<char>) -> bool {
    tail.len() <= s.len() && s.subrange(s.len() - tail.len(), s.len() as int) == tail
}

/// The characters with the Unicode `White_Space` property.
pub open spec fn is_space(c: char) -> bool {
    let v = c as u32;
    ||| 0x9 <= v <= 0xd
    ||| v == 0x20
    ||| v == 0x85
    ||| v == 0xa0
    ||| v == 0x1680
    ||| 0x2000 <= v <= 0x200a
    ||| v == 0x2028
    ||| v == 0x2029
    ||| v == 0x202f
    ||| v == 0x205f
    ||| v == 0x3000
}

/// `s` without its leading white space.
pub open spec fn trimmed_start(s: Seq<char>) -> Seq<char>
    decreases s.len(),
{
    if s.len() > 0 && is_space(s.first()) {
        trimmed_start(s.drop_first())
    } else {
        s
    }
}

/// `s` without its trailing white space.
pub open spec fn trimmed_end(s: Seq<char>) -> Seq<char>
    decreases s.len(),
{
    if s.len() > 0 && is_space(s.last()) {
        trimmed_end(s.drop_last())
    } else {
        s
    }
}

/// `s` without the white space around it.
pub open spec fn trimmed(s: Seq<char>) -> Seq<char> {
    trimmed_end(trimmed_start(s))
}

/// The decimal digit that stands for `d`.
pub open spec fn digit(d: nat) -> char {
    (0x30 + d) as char
}

/// The decimal numeral of `n`, without leading zeros.
pub open spec fn decimal(n: nat) -> Seq<char>
    decreases n,
{
    if n < 10 {
        seq![digit(n)]
    } else {
        decimal(n / 10).push(digit(n % 10))
    }
}

/// The characters of `s`, in order.
pub fn chars_of(s: &str) -> (v: Vec<char>)
    ensures
        v@ == s@,
{
    let mut v: Vec<char> = Vec::new();
    for c in iter: s.chars()
        invariant
            v@ == iter.seq().take(iter.index()),
            iter.seq() == s@,
    {
        v.push(c);
    }
    v
}

/// The string made of the characters `v[from..to]`.
pub fn string_of(v: &Vec<char>, from: usize, to: usize) -> (s: String)
    requires
        from <= to <= v@.len(),
    ensures
        s@ == v@.subrange(from as int, to as int),
{
    let mut s = String::new();
    let mut i: usize = from;
    while i < to
        invariant
            from <= i <= to <= v@.len(),
            s@ == v@.subrange(from as int, i as int),
        decreases to - i,
    {
        s.push(v[i]);
        i = i + 1;
    }
    s
}

/// Whether `c` has the Unicode `White_Space` property.
pub fn is_white_space(c: char) -> (b: bool)
    ensures
        b == is_space(c),
{
    let v: u32 = c as u32;
    (0x9 <= v && v <= 0xd) || v == 0x20 || v == 0x85 || v == 0xa0 || v == 0x1680 || (0x2000 <= v
        && v <= 0x200a) || v == 0x2028 || v == 0x2029 || v == 0x202f || v == 0x205f || v == 0x3000
}

/// `s` without the white space around it.
pub fn trim(s: &str) -> (t: String)
    ensures
        t@ == trimmed(s@),
{
    let v = chars_of(s);
    let mut from: usize = 0;
    assert(v@.skip(0) =~= s@);
    while from < v.len() && is_white_space(v[from])
        invariant
            from <= v@.len(),
            v@ == s@,
            trimmed_start(s@) == trimmed_start(v@.skip(from as int)),
        decreases v@.len() - from,
    {
        assert(v@.skip(from as int).drop_first() =~= v@.skip(from + 1));
        from = from + 1;
    }
    let ghost rest = v@.skip(from as int);
    let mut to: usize = v.len();
    while from < to && is_white_space(v[to - 1])
        invariant
            from <= to <= v@.len(),
            trimmed_end(rest) == trimmed_end(v@.subrange(from as int, to as int)),
        decreases to,
    {
        let ghost cur = v@.subrange(from as int, to as int);
        assert(cur.drop_last() =~= v@.subrange(from as int, to - 1));
        to = to - 1;
    }
    string_of(&v, from, to)
}

/// `s` without its trailing white space.
pub fn trim_end(s: &str) -> (t: String)
    ensures
        t@ == trimmed_end(s@),
{
    let v = chars_of(s);
    let mut to: usize = v.len();
    assert(v@.subrange(0, to as int) =~= s@);
    while 0 < to && is_white_space(v[to - 1])
        invariant
            to <= v@.len(),
            v@ == s@,
            trimmed_end(s@) == trimmed_end(v@.subrange(0, to as int)),
        decreases to,
    {
        assert(v@.subrange(0, to as int).drop_last() =~= v@.subrange(0, to - 1));
        to = to - 1;
    }
    string_of(&v, 0, to)
}

/// Whether `s` ends with the characters of `tail`.
pub fn ends_with(s: &str, tail: &str) -> (b: bool)
    ensures
        b == has_tail(s@, tail@),
{
    let v = chars_of(s);
    let t = chars_of(tail);
    if v.len() < t.len() {
        return false;
    }
    run_at(&v, v.len() - t.len(), &t)
}

/// Whether the characters of `needle` stand in `v` from index `at` on.
pub fn run_at(v: &Vec<char>, at: usize, needle: &Vec<char>) -> (b: bool)
    requires
        at + needle@.len() <= v@.len(),
    ensures
        b == (v@.subrange(at as int, at + needle@.len()) == needle@),
{
    let total: usize = v.len();
    let mut i: usize = 0;
    while i < needle.len()
        invariant
            total == v@.len(),
            at + needle@.len() <= total,
            i <= needle@.len(),
            forall|k: int| 0 <= k < i ==> v@[at + k] == #[trigger] needle@[k],
        decreases needle@.len() - i,
    {
        if v[at + i] != needle[i] {
            assert(v@.subrange(at as int, at + needle@.len())[i as int] != needle@[i as int]);
            return false;
        }
        i = i + 1;
    }
    assert(v@.subrange(at as int, at + needle@.len()) =~= needle@);
    true
}

/// Whether `needle` occurs in `s`.
pub fn contains(s: &str, needle: &str) -> (b: bool)
    ensures
        b == has_run(s@, needle@),
{
    let v = chars_of(s);
    let n = chars_of(needle);
    if v.len() < n.len() {
        return false;
    }
    let last: usize = v.len() - n.len();
    let mut at: usize = 0;
    loop
        invariant
            v@ == s@,
            n@ == needle@,
            at <= last,
            last == v@.len() - n@.len(),
            forall|i: int| 0 <= i < at ==> #[trigger] v@.subrange(i, i + n@.len()) != n@,
        decreases last - at,
    {
        if run_at(&v, at, &n) {
            assert(s@.subrange(at as int, at + needle@.len()) == needle@);
            return true;
        }
        if at == last {
            return false;
        }
        at = at + 1;
    }
}

/// Appends the decimal numeral of `n` to `s`.
pub fn push_decimal(s: &mut String, n: u64)
    ensures
        final(s)@ == old(s)@ + decimal(n as nat),
    decreases n,
{
    if n >= 10 {
        push_decimal(s, n / 10);
    }
    let d: u8 = (n % 10) as u8;
    s.push((0x30u8 + d) as char);
    assert(old(s)@ + decimal(n as nat) =~= s@);
}

/// The number of bytes that `c` takes in UTF-8.
pub fn width_of(c: char) -> (n: usize)
    ensures
        n == encode_scalar(c as u32).len(),
        1 <= n <= 4,
{
    let v: u32 = c as u32;
    proof {
        char_is_scalar(c);
    }
    if v <= 0x7f {
        1
    } else if v <= 0x7ff {
        2
    } else if v <= 0xffff {
        3
    } else {
        4
    }
}

/// A text with white space around it is trimmed to that text: whatever white
/// space `a` and `b` stand before and after a text `t` that neither begins nor
/// ends with any, exactly `t` is left; and at the end alone, exactly `b` goes.
pub proof fn law_trimming_takes_the_space_around(a: Seq<char>, t: Seq<char>, b: Seq<char>)
    requires
        forall|i: int| 0 <= i < a.len() ==> is_space(#[trigger] a[i]),
        forall|i: int| 0 <= i < b.len() ==> is_space(#[trigger] b[i]),
        t.len() > 0 ==> !is_space(t[0]) && !is_space(t[t.len() - 1]),
    ensures
        trimmed(a + t + b) == t,
        trimmed_end(t + b) == t,
        t.len() > 0 ==> trimmed_end(a + t + b) == a + t,
{
    lemma_trimmed_end(t, b);
    assert(a + t + b =~= a + (t + b));
    if t.len() > 0 {
        lemma_trimmed_start(a, t + b);
        lemma_trimmed_end(a + t, b);
        assert(a + (t + b) =~= (a + t) + b);
    } else {
        let all = a + b;
        assert(a + (t + b) =~= all + Seq::<char>::empty());
        lemma_trimmed_start(all, seq![]);
        assert(trimmed(a + t + b) =~= seq![]);
    }
}

proof fn lemma_trimmed_start(a: Seq<char>, t: Seq<char>)
    requires
        forall|i: int| 0 <= i < a.len() ==> is_space(#[trigger] a[i]),
        t.len() > 0 ==> !is_space(t[0]),
    ensures
        trimmed_start(a + t) == t,
    decreases a.len(),
{
    if a.len() > 0 {
        assert(is_space(a[0]));
        let rest = a.drop_first();
        assert forall|i: int| 0 <= i < rest.len() implies is_space(#[trigger] rest[i]) by {
            assert(is_space(a[i + 1]));
        }
        lemma_trimmed_start(rest, t);
        assert((a + t).drop_first() =~= rest + t);
    } else {
        assert(a + t =~= t);
    }
}

proof fn lemma_trimmed_end(t: Seq<char>, b: Seq<char>)
    requires
        forall|i: int| 0 <= i < b.len() ==> is_space(#[trigger] b[i]),
        t.len() > 0 ==> !is_space(t[t.len() - 1]),
    ensures
        trimmed_end(t + b) == t,
    decreases b.len(),
{
    if b.len() > 0 {
        assert(is_space(b[b.len() - 1]));
        let rest = b.drop_last();
        assert forall|i: int| 0 <= i < rest.len() implies is_space(#[trigger] rest[i]) by {
            assert(is_space(b[i]));
        }
        lemma_trimmed_end(t, rest);
        assert((t + b).drop_last() =~= t + rest);
    } else {
        assert(t + b =~= t);
    }
}

/// A text ends with `tail` exactly where it is some text followed by `tail`.
pub proof fn law_a_tail_is_what_stands_at_the_end(s: Seq<char>, a: Seq<char>, tail: Seq<char>)
    ensures
        has_tail(a + tail, tail),
        has_tail(s, tail) <==> exists|x: Seq<char>| s == #[trigger] (x + tail),
{
    let all = a + tail;
    assert(all.subrange(all.len() - tail.len(), all.len() as int) =~= tail);
    if has_tail(s, tail) {
        assert(s =~= s.take(s.len() - tail.len()) + tail);
    }
    if exists|x: Seq<char>| s == #[trigger] (x + tail) {
        let x = choose|x: Seq<char>| s == #[trigger] (x + tail);
        assert(s.subrange(s.len() - tail.len(), s.len() as int) =~= tail);
    }
}

/// A text occurs wherever it stands between two others.
pub proof fn law_a_run_stands_between(a: Seq<char>, needle: Seq<char>, b: Seq<char>)
    ensures
        has_run(a + needle + b, needle),
{
    let all = a + needle + b;
    assert(all.subrange(a.len() as int, a.len() as int + needle.len()) =~= needle);
}

/// The number that a row of decimal digits stands for.
pub open spec fn number_of(digits: Seq<char>) -> nat
    decreases digits.len(),
{
    if digits.len() == 0 {
        0
    } else {
        number_of(digits.drop_last()) * 10 + (digits.last() as u32 - 0x30) as nat
    }
}

/// The numeral of a number reads back as that number, and consists of decimal
/// digits without a leading zero.
pub proof fn law_a_numeral_reads_back(n: nat)
    ensures
        number_of(decimal(n)) == n,
        decimal(n).len() > 0,
        forall|i: int|
            0 <= i < decimal(n).len() ==> 0x30 <= #[trigger] decimal(n)[i] as u32 <= 0x39,
        n > 0 ==> decimal(n)[0] as u32 != 0x30,
    decreases n,
{
    reveal_with_fuel(number_of, 2);
    if n < 10 {
        assert(decimal(n).drop_last() =~= seq![]);
    } else {
        let front = decimal(n / 10);
        law_a_numeral_reads_back(n / 10);
        assert(decimal(n).drop_last() =~= front);
        assert forall|i: int| 0 <= i < decimal(n).len() implies 0x30 <= #[trigger] decimal(
            n,
        )[i] as u32 <= 0x39 by {
            if i < front.len() {
                assert(decimal(n)[i] == front[i]);
            }
        }
        assert(decimal(n)[0] == front[0]);
    }
}

/// What trimming the end takes off is white space and nothing else, and what it
/// leaves does not end with any.
pub proof fn law_only_white_space_is_taken_off(s: Seq<char>)
    ensures
        trimmed_end(s).len() <= s.len(),
        trimmed_end(s) == s.take(trimmed_end(s).len() as int),
        forall|i: int| trimmed_end(s).len() <= i < s.len() ==> is_space(#[trigger] s[i]),
        trimmed_end(s).len() > 0 ==> !is_space(trimmed_end(s).last()),
    decreases s.len(),
{
    if s.len() > 0 && is_space(s.last()) {
        let t = s.drop_last();
        law_only_white_space_is_taken_off(t);
        let n = trimmed_end(s).len() as int;
        assert(t.take(n) =~= s.take(n));
        assert forall|i: int| n <= i < s.len() implies is_space(#[trigger] s[i]) by {
            if i < t.len() {
                assert(s[i] == t[i]);
            }
        }
    } else {
        assert(s.take(s.len() as int) =~= s);
    }
}

} // verus!
