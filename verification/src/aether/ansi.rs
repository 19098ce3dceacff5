//! Removal of terminal escape sequences from text.

use crate::text::chars_of;
use vstd::prelude::*;

verus! {

/// The escape character, with which every escape sequence begins.
pub const ESC: char = '\u{1b}';

/// The bell character, one of the two ends of an operating system command.
pub const BEL: char = '\u{7}';

/// The ASCII letters.
pub open spec fn is_letter(c: char) -> bool {
    ('a' <= c <= 'z') || ('A' <= c <= 'Z')
}

/// The number of characters that the body of a control sequence takes at the
/// front of `t`: up to and including the first letter, or all of `t`.
pub open spec fn csi_len(t: Seq<char>) -> nat
    decreases t.len(),
{
    if t.len() == 0 {
        0
    } else if is_letter(t[0]) {
        1
    } else {
        1 + csi_len(t.drop_first())
    }
}

/// The number of characters that the body of an operating system command takes
/// at the front of `t`: up to and including the first bell or `ESC \`, or all
/// of `t`.
pub open spec fn osc_len(t: Seq<char>) -> nat
    decreases t.len(),
{
    if t.len() == 0 {
        0
    } else if t[0] == BEL {
        1
    } else if t[0] == ESC && t.len() >= 2 && t[1] == '\\' {
        2
    } else {
        1 + osc_len(t.drop_first())
    }
}

/// The characters that can end the designation of a character set, such as the
/// letter of `ESC ( B`.
pub open spec fn is_set_name(c: char) -> bool {
    '0' <= c <= '~'
}

/// The number of characters of the escape sequence at the front of `s`, which
/// begins with the escape character: a control sequence (`ESC [`), an operating
/// system command (`ESC ]`), the designation of a character set (`ESC ( B`), or
/// the escape character and the one after it (`ESC =`).
pub open spec fn escape_len(s: Seq<char>) -> nat {
    if s.len() < 2 {
        s.len()
    } else if s[1] == '[' {
        2 + csi_len(s.skip(2))
    } else if s[1] == ']' {
        2 + osc_len(s.skip(2))
    } else if s[1] == '(' && s.len() >= 3 && is_set_name(s[2]) {
        3
    } else {
        2
    }
}

/// `s` without its escape sequences.
pub open spec fn stripped(s: Seq<char>) -> Seq<char>
    decreases s.len(),
{
    if s.len() == 0 {
        seq![]
    } else if s[0] != ESC {
        seq![s[0]] + stripped(s.drop_first())
    } else {
        proof {
            lemma_escape_len(s);
        }
        stripped(s.skip(escape_len(s) as int))
    }
}

proof fn lemma_csi_len(t: Seq<char>)
    ensures
        csi_len(t) <= t.len(),
    decreases t.len(),
{
    if t.len() > 0 {
        lemma_csi_len(t.drop_first());
    }
}

proof fn lemma_osc_len(t: Seq<char>)
    ensures
        osc_len(t) <= t.len(),
    decreases t.len(),
{
    if t.len() > 0 {
        lemma_osc_len(t.drop_first());
    }
}

/// An escape sequence takes at least one character, and no more than there are.
pub proof fn lemma_escape_len(s: Seq<char>)
    requires
        s.len() > 0,
    ensures
        1 <= escape_len(s) <= s.len(),
{
    if s.len() >= 2 {
        lemma_csi_len(s.skip(2));
        lemma_osc_len(s.skip(2));
    }
}

/// Nothing of an escape sequence is left: the result holds no escape
/// character, and is no longer than the text that it came from.
pub proof fn law_stripped_has_no_escape(s: Seq<char>)
    ensures
        !stripped(s).contains(ESC),
        stripped(s).len() <= s.len(),
    decreases s.len(),
{
    if s.len() == 0 {
    } else if s[0] != ESC {
        law_stripped_has_no_escape(s.drop_first());
        let t = stripped(s.drop_first());
        assert(seq![s[0]] + t =~= stripped(s));
        assert forall|i: int| 0 <= i < stripped(s).len() implies stripped(s)[i] != ESC by {
            if i > 0 {
                assert(stripped(s)[i] == t[i - 1]);
                assert(t.contains(t[i - 1]));
            }
        }
    } else {
        lemma_escape_len(s);
        law_stripped_has_no_escape(s.skip(escape_len(s) as int));
    }
}

/// Text without an escape character is left as it is.
pub proof fn law_plain_text_is_kept(s: Seq<char>)
    requires
        !s.contains(ESC),
    ensures
        stripped(s) == s,
    decreases s.len(),
{
    if s.len() > 0 {
        assert(s.contains(s[0]));
        let t = s.drop_first();
        assert forall|i: int| 0 <= i < t.len() implies t[i] != ESC by {
            assert(s.contains(s[i + 1]));
        }
        law_plain_text_is_kept(t);
        assert(seq![s[0]] + t =~= s);
    }
}

/// Removing escape sequences a second time changes nothing.
pub proof fn law_strip_is_idempotent(s: Seq<char>)
    ensures
        stripped(stripped(s)) == stripped(s),
{
    law_stripped_has_no_escape(s);
    law_plain_text_is_kept(stripped(s));
}

/// Text before the first escape character goes through unchanged, whatever
/// follows it.
pub proof fn law_plain_prefix_is_kept(a: Seq<char>, b: Seq<char>)
    requires
        !a.contains(ESC),
    ensures
        stripped(a + b) == a + stripped(b),
    decreases a.len(),
{
    if a.len() == 0 {
        assert(a + b =~= b);
        assert(a + stripped(b) =~= stripped(b));
    } else {
        assert(a.contains(a[0]));
        let t = a.drop_first();
        assert forall|i: int| 0 <= i < t.len() implies t[i] != ESC by {
            assert(a.contains(a[i + 1]));
        }
        law_plain_prefix_is_kept(t, b);
        assert((a + b).drop_first() =~= t + b);
        assert(seq![a[0]] + (t + stripped(b)) =~= a + stripped(b));
    }
}

/// Whether `c` is an ASCII letter.
fn letter(c: char) -> (b: bool)
    ensures
        b == is_letter(c),
{
    ('a' <= c && c <= 'z') || ('A' <= c && c <= 'Z')
}

/// `s` without its escape sequences: control sequences (`ESC [` up to a
/// letter), operating system commands (`ESC ]` up to a bell or `ESC \`), the
/// designations of character sets (`ESC (` and the name of one), and other
/// escapes, which are two characters long.
pub fn strip_ansi(s: &str) -> (out: String)
    ensures
        out@ == stripped(s@),
{
    let v = chars_of(s);
    let mut out = String::new();
    let mut i: usize = 0;
    assert(v@.skip(0) =~= s@);
    assert(out@ + stripped(s@) =~= stripped(s@));
    while i < v.len()
        invariant
            i <= v@.len(),
            out@ + stripped(v@.skip(i as int)) == stripped(s@),
        decreases v@.len() - i,
    {
        let ghost rest = v@.skip(i as int);
        let c: char = v[i];
        if c != ESC {
            let ghost before = out@;
            out.push(c);
            assert(rest.drop_first() =~= v@.skip(i + 1));
            assert(before + stripped(rest) =~= out@ + stripped(v@.skip(i + 1)));
            i = i + 1;
        } else {
            let end: usize = escape_end(&v, i);
            assert(rest.skip(escape_len(rest) as int) =~= v@.skip(end as int));
            i = end;
        }
    }
    assert(v@.skip(i as int) =~= seq![]);
    assert(out@ + stripped(v@.skip(i as int)) =~= out@);
    out
}

/// The index after the escape sequence that begins at index `i` of `v`.
fn escape_end(v: &Vec<char>, i: usize) -> (end: usize)
    requires
        i < v@.len(),
        v@[i as int] == ESC,
    ensures
        i < end <= v@.len(),
        end == i + escape_len(v@.skip(i as int)),
{
    let ghost rest = v@.skip(i as int);
    let total: usize = v.len();
    if total - i < 2 {
        return total;
    }
    let kind: char = v[i + 1];
    let mut j: usize = i + 2;
    assert(rest.skip(2) =~= v@.skip(j as int));
    if kind == '[' {
        while j < total
            invariant
                i + 2 <= j <= total,
                total == v@.len(),
                i + escape_len(v@.skip(i as int)) == j + csi_len(v@.skip(j as int)),
            decreases total - j,
        {
            assert(v@.skip(j as int).drop_first() =~= v@.skip(j + 1));
            if letter(v[j]) {
                return j + 1;
            }
            j = j + 1;
        }
    } else if kind == ']' {
        while j < total
            invariant
                i + 2 <= j <= total,
                total == v@.len(),
                i + escape_len(v@.skip(i as int)) == j + osc_len(v@.skip(j as int)),
            decreases total - j,
        {
            assert(v@.skip(j as int).drop_first() =~= v@.skip(j + 1));
            if v[j] == BEL {
                return j + 1;
            }
            if v[j] == ESC && total - j >= 2 && v[j + 1] == '\\' {
                return j + 2;
            }
            j = j + 1;
        }
    } else if kind == '(' && total - i >= 3 {
        let name: char = v[j];
        if '0' <= name && name <= '~' {
            return j + 1;
        }
    }
    j
}

/// Whether `c` is an ASCII letter, by its code point.
pub open spec fn ends_control(c: char) -> bool {
    0x41 <= c as u32 <= 0x5a || 0x61 <= c as u32 <= 0x7a
}

proof fn lemma_csi_stops(p: Seq<char>, f: char, t: Seq<char>)
    requires
        forall|i: int| 0 <= i < p.len() ==> !ends_control(#[trigger] p[i]),
    ensures
        ends_control(f) ==> csi_len(p + seq![f] + t) == p.len() + 1,
        csi_len(p) == p.len(),
    decreases p.len(),
{
    let s = p + seq![f] + t;
    if p.len() > 0 {
        assert(!ends_control(p[0]));
        let q = p.drop_first();
        assert forall|i: int| 0 <= i < q.len() implies !ends_control(#[trigger] q[i]) by {
            assert(!ends_control(p[i + 1]));
        }
        lemma_csi_stops(q, f, t);
        assert(s.drop_first() =~= q + seq![f] + t);
    }
}

/// A control sequence goes as a whole and takes nothing of the text after it:
/// it is `ESC [`, parameters without an ASCII letter, and one ASCII letter of
/// either case, which are the code points from 0x41 to 0x5a and from 0x61 to
/// 0x7a. One that is cut off before its letter goes to the end.
pub proof fn law_control_sequences_end_at_a_letter(p: Seq<char>, f: char, t: Seq<char>)
    requires
        forall|i: int|
            0 <= i < p.len() ==> !(0x41 <= (#[trigger] p[i]) as u32 <= 0x5a || 0x61 <= p[i] as u32
                <= 0x7a),
        0x41 <= f as u32 <= 0x5a || 0x61 <= f as u32 <= 0x7a,
    ensures
        stripped(seq!['\u{1b}', '['] + p + seq![f] + t) == stripped(t),
        stripped(seq!['\u{1b}', '['] + p) == Seq::<char>::empty(),
        !t.contains('\u{1b}') ==> stripped(seq!['\u{1b}', '['] + p + seq![f] + t) == t,
{
    let s = seq!['\u{1b}', '['] + p + seq![f] + t;
    let cut = seq!['\u{1b}', '['] + p;
    assert forall|i: int| 0 <= i < p.len() implies !ends_control(#[trigger] p[i]) by {
        assert(!(0x41 <= p[i] as u32 <= 0x5a || 0x61 <= p[i] as u32 <= 0x7a));
    }
    lemma_csi_stops(p, f, t);
    assert(s.skip(2) =~= p + seq![f] + t);
    assert(cut.skip(2) =~= p);
    assert(s.skip(p.len() as int + 3) =~= t);
    assert(escape_len(cut) == cut.len());
    assert(cut.skip(cut.len() as int) =~= seq![]);
    reveal_with_fuel(stripped, 2);
    if !t.contains('\u{1b}') {
        law_plain_text_is_kept(t);
    }
}

/// Whether `p` holds no end of an operating system command: no bell, and no
/// escape character with a backslash after it.
pub open spec fn ends_no_command(p: Seq<char>) -> bool {
    &&& forall|i: int| 0 <= i < p.len() ==> #[trigger] p[i] != '\u{7}'
    &&& forall|i: int|
        0 <= i && i + 1 < p.len() && #[trigger] p[i] == '\u{1b}' ==> p[i + 1] != '\\'
}

proof fn lemma_osc_stops(p: Seq<char>, end: Seq<char>, t: Seq<char>)
    requires
        ends_no_command(p),
        end == seq!['\u{7}'] || end == seq!['\u{1b}', '\\'],
    ensures
        osc_len(p + end + t) == p.len() + end.len(),
        osc_len(p) == p.len(),
    decreases p.len(),
{
    let s = p + end + t;
    if p.len() > 0 {
        let q = p.drop_first();
        assert(p[0] != '\u{7}');
        assert forall|i: int| 0 <= i < q.len() implies #[trigger] q[i] != '\u{7}' by {
            assert(p[i + 1] != '\u{7}');
        }
        assert forall|i: int|
            0 <= i && i + 1 < q.len() && #[trigger] q[i] == '\u{1b}' implies q[i + 1] != '\\' by {
            assert(p[i + 1] == '\u{1b}');
        }
        lemma_osc_stops(q, end, t);
        assert(s.drop_first() =~= q + end + t);
        assert(s[0] == p[0]);
        if p.len() == 1 {
            assert(s[1] == end[0]);
        } else {
            assert(s[1] == p[1]);
        }
    }
}

/// An operating system command, such as one that sets the title of a window,
/// goes as a whole, with all that it carries: it is `ESC ]`, a payload, and a
/// bell or `ESC \`. One that is cut off before its end goes to the end.
pub proof fn law_commands_go_with_their_payload(p: Seq<char>, t: Seq<char>)
    requires
        ends_no_command(p),
    ensures
        stripped(seq!['\u{1b}', ']'] + p + seq!['\u{7}'] + t) == stripped(t),
        stripped(seq!['\u{1b}', ']'] + p + seq!['\u{1b}', '\\'] + t) == stripped(t),
        stripped(seq!['\u{1b}', ']'] + p) == Seq::<char>::empty(),
{
    let bell = seq!['\u{7}'];
    let st = seq!['\u{1b}', '\\'];
    let a = seq!['\u{1b}', ']'] + p + bell + t;
    let b = seq!['\u{1b}', ']'] + p + st + t;
    let cut = seq!['\u{1b}', ']'] + p;
    lemma_osc_stops(p, bell, t);
    lemma_osc_stops(p, st, t);
    assert(a.skip(2) =~= p + bell + t);
    assert(b.skip(2) =~= p + st + t);
    assert(cut.skip(2) =~= p);
    assert(a.skip(p.len() as int + 3) =~= t);
    assert(b.skip(p.len() as int + 4) =~= t);
    assert(escape_len(cut) == cut.len());
    assert(cut.skip(cut.len() as int) =~= seq![]);
    reveal_with_fuel(stripped, 2);
}

proof fn lemma_set_name(c: char)
    ensures
        is_set_name(c) <==> 0x30 <= c as u32 <= 0x7e,
{
}

/// Any other escape goes with the character after it, and nothing more; only
/// `ESC (` takes the name of a character set with it, one character of the code
/// points from 0x30 to 0x7e. A lone escape character at the end goes too.
pub proof fn law_short_escapes_take_little(c: char, t: Seq<char>)
    requires
        c != '[',
        c != ']',
    ensures
        c != '(' ==> stripped(seq!['\u{1b}', c] + t) == stripped(t),
        c == '(' && (t.len() == 0 || !(0x30 <= t[0] as u32 <= 0x7e)) ==> stripped(
            seq!['\u{1b}', c] + t,
        ) == stripped(t),
        c == '(' && t.len() > 0 && 0x30 <= t[0] as u32 <= 0x7e ==> stripped(seq!['\u{1b}', c] + t)
            == stripped(t.drop_first()),
        stripped(seq!['\u{1b}']) == Seq::<char>::empty(),
{
    let s = seq!['\u{1b}', c] + t;
    assert(s.skip(2) =~= t);
    if t.len() > 0 {
        assert(s[2] == t[0]);
        assert(s.skip(3) =~= t.drop_first());
        lemma_set_name(t[0]);
        assert(c == '(' && 0x30 <= t[0] as u32 <= 0x7e ==> escape_len(s) == 3);
    }
    let lone = seq!['\u{1b}'];
    assert(escape_len(lone) == 1);
    assert(lone.skip(1) =~= seq![]);
    reveal_with_fuel(stripped, 2);
}

} // verus!
