//! Incremental UTF-8 decoding of the bytes that arrive from the terminal.
//!
//! A read can end in the middle of a character. The bytes of such an
//! unfinished character are carried over and decoded together with the bytes
//! of the next read, so that no character is damaged by where a read ends.
//! Nothing else is carried over: bytes that cannot be part of any character are
//! replaced, and what follows them is decoded at once.

use vstd::prelude::*;
use vstd::utf8::*;

verus! {

/// `char::from_u32` of the standard library: the character with the given
/// value, or `None` where the value is no Unicode scalar.
pub assume_specification[ char::from_u32 ](i: u32) -> (r: Option<char>)
    ensures
        is_scalar(i) ==> r == Some(i as char),
        !is_scalar(i) ==> r is None,
;

/// The character that stands for bytes that decode to nothing (U+FFFD).
pub const REPLACEMENT: char = '\u{fffd}';

/// What stands at the front of a sequence of bytes.
pub enum Head {
    /// A whole character, encoded in this many bytes.
    Whole(usize),
    /// This many bytes that cannot be part of any character.
    Broken(usize),
    /// The beginning of a character whose remaining bytes are not there yet.
    Cut,
}

/// The number of bytes that a character with first byte `b` takes; 0 where no
/// character begins with `b`.
pub open spec fn claimed_width(b: u8) -> nat {
    if b <= 0x7f {
        1
    } else if 0xc2 <= b <= 0xdf {
        2
    } else if 0xe0 <= b <= 0xef {
        3
    } else if 0xf0 <= b <= 0xf4 {
        4
    } else {
        0
    }
}

/// Whether `b2` can follow `b1` as the second byte of a character. The ranges
/// leave out overlong forms, surrogates and values past U+10FFFF.
pub open spec fn second_fits(b1: u8, b2: u8) -> bool {
    if b1 == 0xe0 {
        0xa0 <= b2 <= 0xbf
    } else if b1 == 0xed {
        0x80 <= b2 <= 0x9f
    } else if b1 == 0xf0 {
        0x90 <= b2 <= 0xbf
    } else if b1 == 0xf4 {
        0x80 <= b2 <= 0x8f
    } else {
        is_continuation_byte(b2)
    }
}

/// What stands at the front of the non-empty sequence `b`: a whole character;
/// or the longest run that still looks like a character, cut off by the end
/// of `b` or broken by the byte after it.
pub open spec fn head(b: Seq<u8>) -> Head {
    let w = claimed_width(b[0]);
    if w == 0 {
        Head::Broken(1)
    } else if w == 1 {
        Head::Whole(1)
    } else if b.len() < 2 {
        Head::Cut
    } else if !second_fits(b[0], b[1]) {
        Head::Broken(1)
    } else if w == 2 {
        Head::Whole(2)
    } else if b.len() < 3 {
        Head::Cut
    } else if !is_continuation_byte(b[2]) {
        Head::Broken(2)
    } else if w == 3 {
        Head::Whole(3)
    } else if b.len() < 4 {
        Head::Cut
    } else if !is_continuation_byte(b[3]) {
        Head::Broken(3)
    } else {
        Head::Whole(4)
    }
}

/// The text of `b`: each character, and one replacement character for each run
/// of broken bytes. A character that is cut off by the end of `b` is left out.
pub open spec fn step_text(b: Seq<u8>) -> Seq<char>
    decreases b.len(),
{
    if b.len() == 0 {
        seq![]
    } else {
        match head(b) {
            Head::Whole(w) => seq![decode_first_scalar(b) as char] + step_text(b.skip(w as int)),
            Head::Broken(n) => seq![REPLACEMENT] + step_text(b.skip(n as int)),
            Head::Cut => seq![],
        }
    }
}

/// The bytes of `b` that one decoding step leaves for the next: those of a
/// character that is cut off by the end of `b`.
pub open spec fn step_rest(b: Seq<u8>) -> Seq<u8>
    decreases b.len(),
{
    if b.len() == 0 {
        seq![]
    } else {
        match head(b) {
            Head::Whole(w) => step_rest(b.skip(w as int)),
            Head::Broken(n) => step_rest(b.skip(n as int)),
            Head::Cut => b,
        }
    }
}

/// The head is a whole character exactly where a well-formed UTF-8 encoding
/// of one stands at the front.
pub proof fn lemma_whole_is_valid(b: Seq<u8>)
    requires
        b.len() > 0,
    ensures
        head(b) is Whole <==> valid_first_scalar(b),
        head(b) matches Head::Whole(w) ==> w == length_of_first_scalar(b) && 1 <= w <= b.len()
            && is_scalar(decode_first_scalar(b)),
        head(b) matches Head::Broken(n) ==> 1 <= n <= b.len(),
{
    let b1 = b[0];
    if b.len() >= 1 && is_leading_byte_width_1(b1) {
        assert(b1 <= 0x7f ==> (b1 & 0x7f) as u32 <= 0x7f) by (bit_vector);
    }
    if b.len() >= 2 && is_leading_byte_width_2(b1) && is_continuation_byte(b[1]) {
        lemma_width_2(b1, b[1]);
    }
    if b.len() >= 3 && is_leading_byte_width_3(b1) && is_continuation_byte(b[1])
        && is_continuation_byte(b[2]) {
        lemma_width_3(b1, b[1], b[2]);
    }
    if b.len() >= 4 && is_leading_byte_width_4(b1) && is_continuation_byte(b[1])
        && is_continuation_byte(b[2]) && is_continuation_byte(b[3]) {
        lemma_width_4(b1, b[1], b[2], b[3]);
    }
}

proof fn lemma_masks()
    by (bit_vector)
    ensures
        forall|x: u8| #[trigger] ((x as u32) & 0x7f) == (x & 0x7f) as u32,
        forall|x: u8| #[trigger] ((x as u32) & 0x3f) == (x & 0x3f) as u32,
        forall|x: u8| #[trigger] ((x as u32) & 0x1f) == (x & 0x1f) as u32,
        forall|x: u8| #[trigger] ((x as u32) & 0x0f) == (x & 0x0f) as u32,
        forall|x: u8| #[trigger] ((x as u32) & 0x07) == (x & 0x07) as u32,
{
}

proof fn lemma_width_2(b1: u8, b2: u8)
    by (bit_vector)
    requires
        0xc0 <= b1 <= 0xdf,
        0x80 <= b2 <= 0xbf,
    ensures
        codepoint_width_2(b1, b2) >= 0x80 <==> b1 >= 0xc2,
        codepoint_width_2(b1, b2) <= 0x7ff,
{
}

proof fn lemma_width_3(b1: u8, b2: u8, b3: u8)
    by (bit_vector)
    requires
        0xe0 <= b1 <= 0xef,
        0x80 <= b2 <= 0xbf,
        0x80 <= b3 <= 0xbf,
    ensures
        codepoint_width_3(b1, b2, b3) >= 0x800 <==> !(b1 == 0xe0 && b2 < 0xa0),
        (0xd800 <= codepoint_width_3(b1, b2, b3) && codepoint_width_3(b1, b2, b3) <= 0xdfff) <==> (
        b1 == 0xed && b2 > 0x9f),
        codepoint_width_3(b1, b2, b3) <= 0xffff,
{
}

proof fn lemma_width_4(b1: u8, b2: u8, b3: u8, b4: u8)
    by (bit_vector)
    requires
        0xf0 <= b1 <= 0xf7,
        0x80 <= b2 <= 0xbf,
        0x80 <= b3 <= 0xbf,
        0x80 <= b4 <= 0xbf,
    ensures
        codepoint_width_4(b1, b2, b3, b4) >= 0x10000 <==> !(b1 == 0xf0 && b2 < 0x90),
        codepoint_width_4(b1, b2, b3, b4) <= 0x10ffff <==> b1 < 0xf4 || (b1 == 0xf4 && b2 <= 0x8f),
{
}

/// The text that the decoding steps for the reads `chunks` yield together,
/// and the bytes that the last of them leaves, from the carried bytes `carry`.
pub open spec fn steps(carry: Seq<u8>, chunks: Seq<Seq<u8>>) -> (Seq<char>, Seq<u8>)
    decreases chunks.len(),
{
    if chunks.len() == 0 {
        (seq![], carry)
    } else {
        let b = carry + chunks.first();
        let (text, rest) = steps(step_rest(b), chunks.drop_first());
        (step_text(b) + text, rest)
    }
}

/// The bytes of all the reads, in order.
pub open spec fn joined(chunks: Seq<Seq<u8>>) -> Seq<u8>
    decreases chunks.len(),
{
    if chunks.len() == 0 {
        seq![]
    } else {
        chunks.first() + joined(chunks.drop_first())
    }
}

/// A step leaves at most the beginning of one character, which is never more
/// than three bytes.
pub proof fn law_only_a_cut_character_waits(b: Seq<u8>)
    ensures
        step_rest(b).len() <= 3,
        step_rest(b).len() == 0 || head(step_rest(b)) is Cut,
        step_rest(b).len() <= b.len(),
        step_rest(b) == b.skip(b.len() - step_rest(b).len()),
    decreases b.len(),
{
    if b.len() == 0 {
        assert(step_rest(b) =~= b.skip(0));
    } else {
        lemma_whole_is_valid(b);
        match head(b) {
            Head::Whole(n) | Head::Broken(n) => {
                let t = b.skip(n as int);
                law_only_a_cut_character_waits(t);
                assert(t.skip(t.len() - step_rest(t).len()) =~= b.skip(
                    b.len() - step_rest(t).len(),
                ));
            },
            Head::Cut => {
                assert(b.skip(0) =~= b);
            },
        }
    }
}

/// A decoding step damages nothing and loses nothing: whatever bytes `more`
/// come later, the text of everything is the text of the step followed by the
/// text of what it left together with what came later, and the same bytes are
/// left in the end.
pub proof fn law_step_keeps_text(b: Seq<u8>, more: Seq<u8>)
    ensures
        step_text(b + more) == step_text(b) + step_text(step_rest(b) + more),
        step_rest(b + more) == step_rest(step_rest(b) + more),
    decreases b.len(),
{
    if b.len() == 0 {
        assert(b + more =~= more);
        assert(step_rest(b) + more =~= more);
        assert(step_text(b) + step_text(more) =~= step_text(more));
    } else {
        lemma_whole_is_valid(b);
        lemma_whole_is_valid(b + more);
        match head(b) {
            Head::Whole(w) => {
                let t = b.skip(w as int);
                law_step_keeps_text(t, more);
                assert((b + more).skip(w as int) =~= t + more);
                let c = decode_first_scalar(b) as char;
                assert(seq![c] + (step_text(t) + step_text(step_rest(t) + more)) =~= (seq![c]
                    + step_text(t)) + step_text(step_rest(t) + more));
            },
            Head::Broken(n) => {
                let t = b.skip(n as int);
                law_step_keeps_text(t, more);
                assert((b + more).skip(n as int) =~= t + more);
                assert(seq![REPLACEMENT] + (step_text(t) + step_text(step_rest(t) + more)) =~= (
                seq![REPLACEMENT] + step_text(t)) + step_text(step_rest(t) + more));
            },
            Head::Cut => {
                assert(step_text(b) + step_text(b + more) =~= step_text(b + more));
            },
        }
    }
}

/// The reads can be cut anywhere: the steps over all of them yield the text of
/// all the bytes, and leave what one step over all of them would leave.
pub proof fn law_steps_keep_text(carry: Seq<u8>, chunks: Seq<Seq<u8>>)
    requires
        carry.len() == 0 || head(carry) is Cut,
    ensures
        steps(carry, chunks).0 == step_text(carry + joined(chunks)),
        steps(carry, chunks).1 == step_rest(carry + joined(chunks)),
    decreases chunks.len(),
{
    if chunks.len() == 0 {
        assert(carry + joined(chunks) =~= carry);
    } else {
        let b = carry + chunks.first();
        let tail = chunks.drop_first();
        law_step_keeps_text(b, joined(tail));
        law_only_a_cut_character_waits(b);
        law_steps_keep_text(step_rest(b), tail);
        assert(carry + joined(chunks) =~= b + joined(tail));
    }
}

/// Well-formed text comes through exactly: if the bytes of all the reads
/// together are valid UTF-8, the steps yield the text that they encode and
/// leave no byte, wherever the reads were cut.
pub proof fn law_valid_stream_is_exact(chunks: Seq<Seq<u8>>)
    requires
        valid_utf8(joined(chunks)),
    ensures
        steps(seq![], chunks).0 == decode_utf8(joined(chunks)),
        steps(seq![], chunks).1.len() == 0,
{
    law_steps_keep_text(seq![], chunks);
    assert(seq![] + joined(chunks) =~= joined(chunks));
    law_valid_text_is_exact(joined(chunks));
}

/// A step over valid UTF-8 yields the text that it encodes and leaves no byte.
pub proof fn law_valid_text_is_exact(b: Seq<u8>)
    requires
        valid_utf8(b),
    ensures
        step_text(b) == decode_utf8(b),
        step_rest(b).len() == 0,
    decreases b.len(),
{
    if b.len() > 0 {
        lemma_whole_is_valid(b);
        assert(pop_first_scalar(b) =~= b.skip(length_of_first_scalar(b)));
        law_valid_text_is_exact(pop_first_scalar(b));
    }
}

/// A head is cut exactly where bytes can still come that complete it to a
/// character, and not yet one.
pub proof fn law_cut_can_be_completed(b: Seq<u8>)
    requires
        b.len() > 0,
    ensures
        head(b) is Cut <==> !valid_first_scalar(b) && exists|more: Seq<u8>|
            valid_first_scalar(#[trigger] (b + more)),
{
    lemma_whole_is_valid(b);
    if head(b) is Cut {
        let second: u8 = if b[0] == 0xe0 {
            0xa0
        } else if b[0] == 0xf0 {
            0x90
        } else {
            0x80
        };
        let more = if b.len() == 1 {
            seq![second, 0x80u8, 0x80u8]
        } else {
            seq![0x80u8, 0x80u8]
        };
        lemma_whole_is_valid(b + more);
        assert(head(b + more) is Whole);
    } else if !valid_first_scalar(b) {
        assert forall|more: Seq<u8>| !valid_first_scalar(#[trigger] (b + more)) by {
            lemma_whole_is_valid(b + more);
            assert(head(b + more) == head(b));
        }
    }
}

/// Broken bytes are the longest run that still looked like the beginning of a
/// character, or a single byte that cannot begin one; whatever comes after
/// them, they stay broken.
pub proof fn law_broken_bytes_stay_broken(b: Seq<u8>, n: usize, more: Seq<u8>)
    requires
        b.len() > 0,
        head(b) == Head::Broken(n),
    ensures
        1 <= n <= 3,
        n <= b.len(),
        n > 1 ==> head(b.take(n as int)) is Cut,
        n == 1 ==> claimed_width(b[0]) == 0 || b.len() >= 2 && head(b.take(1)) is Cut
            && !second_fits(b[0], b[1]),
        head(b + more) == Head::Broken(n),
{
}

/// The part of `v` from index `at` on, classified by what stands at its front.
fn head_at(v: &Vec<u8>, at: usize) -> (h: Head)
    requires
        at < v@.len(),
    ensures
        h == head(v@.skip(at as int)),
{
    let left: usize = v.len() - at;
    let b1: u8 = v[at];
    let width: usize = if b1 <= 0x7f {
        1
    } else if 0xc2 <= b1 && b1 <= 0xdf {
        2
    } else if 0xe0 <= b1 && b1 <= 0xef {
        3
    } else if 0xf0 <= b1 && b1 <= 0xf4 {
        4
    } else {
        0
    };
    if width == 0 {
        return Head::Broken(1);
    }
    if width == 1 {
        return Head::Whole(1);
    }
    if left < 2 {
        return Head::Cut;
    }
    let b2: u8 = v[at + 1];
    let fits: bool = if b1 == 0xe0 {
        0xa0 <= b2 && b2 <= 0xbf
    } else if b1 == 0xed {
        0x80 <= b2 && b2 <= 0x9f
    } else if b1 == 0xf0 {
        0x90 <= b2 && b2 <= 0xbf
    } else if b1 == 0xf4 {
        0x80 <= b2 && b2 <= 0x8f
    } else {
        0x80 <= b2 && b2 <= 0xbf
    };
    if !fits {
        return Head::Broken(1);
    }
    if width == 2 {
        return Head::Whole(2);
    }
    if left < 3 {
        return Head::Cut;
    }
    let b3: u8 = v[at + 2];
    if !(0x80 <= b3 && b3 <= 0xbf) {
        return Head::Broken(2);
    }
    if width == 3 {
        return Head::Whole(3);
    }
    if left < 4 {
        return Head::Cut;
    }
    let b4: u8 = v[at + 3];
    if !(0x80 <= b4 && b4 <= 0xbf) {
        return Head::Broken(3);
    }
    Head::Whole(4)
}

/// The value of the character that takes `width` bytes of `v` from `at` on.
fn scalar_at(v: &Vec<u8>, at: usize, width: usize) -> (c: u32)
    requires
        at < v@.len(),
        head(v@.skip(at as int)) == Head::Whole(width),
    ensures
        c == decode_first_scalar(v@.skip(at as int)),
{
    let ghost b = v@.skip(at as int);
    proof {
        lemma_whole_is_valid(b);
        lemma_masks();
    }
    assert(at + width <= v.len());
    let b1: u32 = v[at] as u32;
    if width == 1 {
        let r: u32 = b1 & 0x7f;
        assert(r == codepoint_width_1(b[0]));
        return r;
    }
    let b2: u32 = v[at + 1] as u32;
    if width == 2 {
        let r: u32 = ((b1 & 0x1f) << 6) | (b2 & 0x3f);
        assert(r == codepoint_width_2(b[0], b[1]));
        return r;
    }
    let b3: u32 = v[at + 2] as u32;
    if width == 3 {
        let r: u32 = ((b1 & 0x0f) << 12) | ((b2 & 0x3f) << 6) | (b3 & 0x3f);
        assert(r == codepoint_width_3(b[0], b[1], b[2]));
        return r;
    }
    let b4: u32 = v[at + 3] as u32;
    let r: u32 = ((b1 & 0x07) << 18) | ((b2 & 0x3f) << 12) | ((b3 & 0x3f) << 6) | (b4 & 0x3f);
    assert(r == codepoint_width_4(b[0], b[1], b[2], b[3]));
    r
}

/// Decodes the bytes of one read. `carry` holds the bytes that the step
/// before left; the text goes to the end of `out`, and the bytes of a character
/// that is not complete yet stay in `carry`.
pub fn decode_step(carry: &mut Vec<u8>, chunk: &[u8], out: &mut String)
    ensures
        final(out)@ == old(out)@ + step_text(old(carry)@ + chunk@),
        final(carry)@ == step_rest(old(carry)@ + chunk@),
{
    let mut k: usize = 0;
    while k < chunk.len()
        invariant
            k <= chunk@.len(),
            carry@ == old(carry)@ + chunk@.take(k as int),
        decreases chunk@.len() - k,
    {
        carry.push(chunk[k]);
        k = k + 1;
    }
    assert(chunk@.take(k as int) =~= chunk@);
    let ghost all = carry@;
    let mut at: usize = 0;
    assert(all.skip(0) =~= all);
    loop
        invariant_except_break
            out@ + step_text(all.skip(at as int)) == old(out)@ + step_text(all),
            step_rest(all.skip(at as int)) == step_rest(all),
        invariant
            carry@ == all,
            at <= all.len(),
        ensures
            out@ == old(out)@ + step_text(all),
            all.skip(at as int) == step_rest(all),
        decreases all.len() - at,
    {
        let ghost rest = all.skip(at as int);
        if at == carry.len() {
            assert(rest =~= seq![]);
            assert(out@ + step_text(rest) =~= out@);
            break;
        }
        proof {
            lemma_whole_is_valid(rest);
        }
        match head_at(carry, at) {
            Head::Whole(w) => {
                let c: u32 = scalar_at(carry, at, w);
                let ghost before = out@;
                if let Some(ch) = char::from_u32(c) {
                    out.push(ch);
                }
                assert(rest.skip(w as int) =~= all.skip(at + w));
                assert(before + step_text(rest) =~= out@ + step_text(all.skip(at + w)));
                at = at + w;
            },
            Head::Broken(n) => {
                let ghost before = out@;
                out.push(REPLACEMENT);
                assert(rest.skip(n as int) =~= all.skip(at + n));
                assert(before + step_text(rest) =~= out@ + step_text(all.skip(at + n)));
                at = at + n;
            },
            Head::Cut => {
                assert(out@ + step_text(rest) =~= out@);
                break;
            },
        }
    }
    let mut left: Vec<u8> = Vec::new();
    let mut i: usize = at;
    while i < carry.len()
        invariant
            at <= i <= carry@.len(),
            carry@ == all,
            left@ == all.subrange(at as int, i as int),
        decreases carry@.len() - i,
    {
        left.push(carry[i]);
        i = i + 1;
    }
    assert(left@ =~= all.skip(at as int));
    *carry = left;
}

/// Whether bytes can come after `b` that make a character stand at its front.
pub open spec fn can_become_character(b: Seq<u8>) -> bool {
    exists|more: Seq<u8>| valid_first_scalar(#[trigger] (b + more))
}

/// Valid UTF-8 at the front comes through exactly, whatever follows it.
pub proof fn law_valid_front_is_exact(v: Seq<u8>, b: Seq<u8>)
    requires
        valid_utf8(v),
    ensures
        step_text(v + b) == decode_utf8(v) + step_text(b),
        step_rest(v + b) == step_rest(b),
{
    law_valid_text_is_exact(v);
    law_step_keeps_text(v, b);
    assert(step_rest(v) + b =~= b);
}

/// Bytes that can still become a character wait, all of them, and give no text
/// yet.
pub proof fn law_an_unfinished_character_waits(b: Seq<u8>)
    requires
        b.len() > 0,
        !valid_first_scalar(b),
        can_become_character(b),
    ensures
        step_text(b) == Seq::<char>::empty(),
        step_rest(b) == b,
{
    law_cut_can_be_completed(b);
}

/// Where no character can come of the bytes at the front, the longest run of
/// them that could have begun one, or else the first byte, is replaced by one
/// U+FFFD, and decoding goes on right after it.
pub proof fn law_a_broken_run_is_replaced_once(b: Seq<u8>, n: int)
    requires
        1 <= n <= b.len(),
        !can_become_character(b),
        n > 1 ==> can_become_character(b.take(n)),
        n < b.len() ==> !can_become_character(b.take(n + 1)),
    ensures
        step_text(b) == seq!['\u{fffd}'] + step_text(b.skip(n)),
        step_rest(b) == step_rest(b.skip(n)),
{
    lemma_front_decides(b);
    lemma_whole_is_valid(b);
    if valid_first_scalar(b) {
        assert(b + Seq::<u8>::empty() =~= b);
        assert(can_become_character(b));
    }
    law_cut_can_be_completed(b);
    let k = match head(b) {
        Head::Broken(k) => k as int,
        _ => 0,
    };
    assert(head(b) is Broken);
    if n < b.len() {
        lemma_front_decides(b.take(n + 1));
    }
    lemma_front_decides(b.take(n));
    if n > 1 && k < n {
        assert(head(b.take(n)) == head(b));
    }
    if k > n {
        assert(head(b.take(n + 1)) is Cut);
    }
}

/// Whether a character can come of `b` is told by what stands at its front.
proof fn lemma_front_decides(b: Seq<u8>)
    requires
        b.len() > 0,
    ensures
        can_become_character(b) <==> !(head(b) is Broken),
{
    lemma_whole_is_valid(b);
    law_cut_can_be_completed(b);
    if valid_first_scalar(b) {
        assert(b + Seq::<u8>::empty() =~= b);
    } else if head(b) is Broken {
        assert forall|more: Seq<u8>| !valid_first_scalar(#[trigger] (b + more)) by {}
    }
}

} // verus!
