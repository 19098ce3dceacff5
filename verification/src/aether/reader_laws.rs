//! What holds of a reader over one or several steps.

use crate::aether::ansi::stripped;
use crate::aether::decode::{
    joined, law_step_keeps_text, law_valid_text_is_exact, step_rest, step_text,
};
use crate::aether::lines::{
    law_output_can_be_cut, law_tail_is_bounded, lines_of, tail_of, MAX_PARTIAL,
};
use crate::aether::prompts::{
    is_code_prompt, law_a_choice_prompt_ends_with_a_colon, law_a_code_prompt_is_told_by_its_words,
    PromptRule,
};
use crate::aether::pty::PtySignal;
use crate::aether::reader::{
    after_line, after_lines, all_hits, answers, ended, ends_in_header, fresh, has_hit, header_hits,
    hit_ids,
    last_hit, lemma_lines_keep, logged, new_lines, noted, output, replied, reply_acts, rule_for, shown,
    step_acts, stepped, taken_in, Act, PromptReader, ReaderAction, ReaderModel, CODE_REQUIRED,
    HEADER_ARM_WINDOW,
};
use crate::events::LogEvent;
use crate::text::{has_tail, is_space, law_only_white_space_is_taken_off, trimmed_end};
use vstd::prelude::*;
use vstd::utf8::*;

verus! {

/// While a request for a one-time code stands at the end of the output,
/// nothing is typed.
pub proof fn law_code_prompt_is_never_answered(m: ReaderModel, partial_hit: bool, now: u64)
    requires
        is_code_prompt(stripped(m.buf)),
    ensures
        forall|i: int|
            0 <= i < reply_acts(m, partial_hit, now).len() ==> !(#[trigger] reply_acts(
                m,
                partial_hit,
                now,
            )[i] is Type),
{
}

/// Whatever is typed is the answer of the rule for the section of the last
/// header, which came at most [`HEADER_ARM_WINDOW`] lines before and was not
/// answered since; it is typed once, first, and then counts as answered.
pub proof fn law_only_armed_prompts_are_answered(
    m: ReaderModel,
    partial_hit: bool,
    now: u64,
    i: int,
)
    requires
        0 <= i < reply_acts(m, partial_hit, now).len(),
        reply_acts(m, partial_hit, now)[i] is Type,
    ensures
        i == 0,
        m.lines_since_header <= HEADER_ARM_WINDOW,
        m.section is Some,
        !m.answered.contains(m.section->0),
        replied(m, partial_hit).answered.contains(m.section->0),
        rule_for(m.rules, m.section->0) < m.rules.len(),
        reply_acts(m, partial_hit, now)[i] == Act::Type(
            m.rules[rule_for(m.rules, m.section->0) as int].answer@ + "\r\n"@,
        ),
{
}

proof fn lemma_last_hit(hits: Seq<bool>)
    ensures
        -1 <= last_hit(hits) < hits.len(),
        last_hit(hits) >= 0 ==> hits[last_hit(hits)],
        last_hit(hits) >= 0 <==> has_hit(hits),
    decreases hits.len(),
{
    if hits.len() > 0 && !hits.last() {
        let t = hits.drop_last();
        lemma_last_hit(t);
        if has_hit(hits) {
            let j = choose|j: int| 0 <= j < hits.len() && hits[j];
            assert(t[j]);
        }
        if has_hit(t) {
            let j = choose|j: int| 0 <= j < t.len() && t[j];
            assert(hits[j]);
        }
    } else if hits.len() > 0 {
        assert(hits[hits.len() - 1]);
    }
}

/// Lines that are no header count up, and leave the section and what was
/// answered as they are.
proof fn lemma_plain_lines(m: ReaderModel, hits: Seq<Seq<bool>>)
    requires
        forall|i: int| 0 <= i < hits.len() ==> !has_hit(#[trigger] hits[i]),
    ensures
        after_lines(m, hits).lines_since_header == (if m.lines_since_header + hits.len()
            > u32::MAX {
            u32::MAX as int
        } else {
            m.lines_since_header + hits.len()
        }),
        after_lines(m, hits).section == m.section,
        after_lines(m, hits).answered == m.answered,
    decreases hits.len(),
{
    if hits.len() > 0 {
        let t = hits.drop_last();
        assert forall|i: int| 0 <= i < t.len() implies !has_hit(#[trigger] t[i]) by {
            assert(t[i] == hits[i]);
        }
        lemma_plain_lines(m, t);
        let n = after_lines(m, t);
        let last = hits.last();
        assert(!has_hit(hits[hits.len() - 1]));
        lemma_last_hit(last);
        assert(hit_ids(n.rules, last) =~= Set::empty()) by {
            assert forall|id: Seq<char>| !hit_ids(n.rules, last).contains(id) by {
                if hit_ids(n.rules, last).contains(id) {
                    let j = choose|j: int| 0 <= j < last.len() && last[j] && n.rules[j].id@ == id;
                    assert(last[j]);
                }
            }
        }
        assert(n.answered.difference(Set::empty()) =~= n.answered);
    }
}

/// A header arms only the prompt that follows it: once more lines than the
/// window allows have come that are no header, nothing is answered.
pub proof fn law_old_headers_are_disarmed(m: ReaderModel, hits: Seq<Seq<bool>>, partial_hit: bool)
    requires
        hits.len() > HEADER_ARM_WINDOW,
        forall|i: int| 0 <= i < hits.len() ==> !has_hit(#[trigger] hits[i]),
    ensures
        !answers(after_lines(m, hits), partial_hit),
{
    lemma_plain_lines(m, hits);
}

/// A prompt is answered once: after it, and until a header comes again,
/// nothing more is typed, whatever the end of the output looks like.
pub proof fn law_a_prompt_is_answered_once(
    m: ReaderModel,
    partial_hit: bool,
    hits: Seq<Seq<bool>>,
    buf: Seq<char>,
    later_hit: bool,
)
    requires
        answers(m, partial_hit),
        forall|i: int| 0 <= i < hits.len() ==> !has_hit(#[trigger] hits[i]),
    ensures
        !answers(
            (ReaderModel { buf, ..after_lines(replied(m, partial_hit), hits) }),
            later_hit,
        ),
{
    lemma_plain_lines(replied(m, partial_hit), hits);
}

/// A header that comes again allows its prompt to be answered again.
pub proof fn law_a_repeated_header_rearms(m: ReaderModel, hits: Seq<bool>, j: int)
    requires
        0 <= j < hits.len(),
        hits.len() == m.rules.len(),
        hits[j],
    ensures
        !after_line(m, hits).answered.contains(m.rules[j].id@),
        after_line(m, hits).lines_since_header == 0,
        after_line(m, hits).section is Some,
        !after_line(m, hits).answered.contains(after_line(m, hits).section->0),
{
    lemma_last_hit(hits);
    assert(hit_ids(m.rules, hits).contains(m.rules[j].id@));
    let k = last_hit(hits);
    assert(hit_ids(m.rules, hits).contains(m.rules[k].id@));
}

/// Once the prompts are done they stay done, and the end of the output makes
/// them so.
pub proof fn law_prompts_done_is_kept(m: ReaderModel, chunk: Seq<u8>)
    ensures
        m.signals.prompts_done ==> stepped(m, chunk).signals.prompts_done,
        ended(m).signals.prompts_done,
{
    lemma_lines_keep(taken_in(m, chunk), all_hits(m.rules, new_lines(m, chunk)));
}

/// The prompts are done by answering exactly when every section of the rules,
/// as many as there are rules, has been answered.
pub proof fn law_prompts_are_done_when_all_answered(m: ReaderModel, partial_hit: bool)
    requires
        !m.signals.prompts_done,
    ensures
        replied(m, partial_hit).signals.prompts_done <==> answers(m, partial_hit) && replied(
            m,
            partial_hit,
        ).answered.len() == m.rules.len(),
{
}

/// Requests for a one-time code are numbered without gaps: a step asks at most
/// once, exactly when the request appears, with the number after the last one,
/// and says so in the log.
pub proof fn law_requests_are_numbered(
    m: ReaderModel,
    chunk: Seq<u8>,
    times: Seq<u64>,
    now: u64,
)
    requires
        m.signals.access_code_seq < u64::MAX,
    ensures
        ({
            let appears = is_code_prompt(stripped(taken_in(m, chunk).buf)) && !m.code_visible;
            let seq = stepped(m, chunk).signals.access_code_seq;
            let a = step_acts(m, chunk, times, now);
            let n = new_lines(m, chunk).len();
            &&& seq == m.signals.access_code_seq + (if appears {
                1int
            } else {
                0
            })
            &&& appears ==> a.len() == n + 2 && a[n as int] == Act::AskCode(seq) && a[n as int + 1]
                == Act::Log(CODE_REQUIRED@, now)
            &&& !appears ==> forall|i: int| 0 <= i < a.len() ==> !(#[trigger] a[i] is AskCode)
            &&& stepped(m, chunk).code_visible == is_code_prompt(stripped(taken_in(m, chunk).buf))
        }),
{
    lemma_lines_keep(taken_in(m, chunk), all_hits(m.rules, new_lines(m, chunk)));
    let n = noted(m, chunk);
    let lines = logged(new_lines(m, chunk), times);
    let rest = reply_acts(n, ends_in_header(n), now);
    let a = step_acts(m, chunk, times, now);
    assert forall|i: int| 0 <= i < a.len() implies a[i] == (if i < lines.len() {
        lines[i]
    } else {
        rest[i - lines.len()]
    }) by {}
}

/// Every line that a read completes is logged, in order and before anything
/// else, and counted.
pub proof fn law_every_line_is_logged(
    m: ReaderModel,
    chunk: Seq<u8>,
    times: Seq<u64>,
    now: u64,
)
    ensures
        ({
            let lines = new_lines(m, chunk);
            let a = step_acts(m, chunk, times, now);
            &&& lines.len() <= a.len()
            &&& forall|i: int|
                0 <= i < lines.len() ==> #[trigger] a[i] == Act::Log(lines[i], times[i])
            &&& stepped(m, chunk).signals.lines_seen as int == (m.signals.lines_seen
                + lines.len()) % 0x1_0000_0000_0000_0000
        }),
{
    let hits = all_hits(m.rules, new_lines(m, chunk));
    lemma_lines_seen(taken_in(m, chunk), hits);
}

proof fn lemma_lines_seen(m: ReaderModel, hits: Seq<Seq<bool>>)
    ensures
        after_lines(m, hits).signals.lines_seen as int == (m.signals.lines_seen + hits.len())
            % 0x1_0000_0000_0000_0000,
    decreases hits.len(),
{
    if hits.len() > 0 {
        lemma_lines_seen(m, hits.drop_last());
    }
}

proof fn lemma_shown_splits(a: Seq<Seq<char>>, b: Seq<Seq<char>>)
    ensures
        shown(a + b) == shown(a) + shown(b),
    decreases b.len(),
{
    if b.len() == 0 {
        assert(a + b =~= a);
        assert(shown(a) + shown(b) =~= shown(a));
    } else {
        lemma_shown_splits(a, b.drop_last());
        assert((a + b).drop_last() =~= a + b.drop_last());
        assert((a + b).last() == b.last());
        assert(shown(a + b) =~= shown(a) + shown(b));
    }
}

/// It does not matter where a read ends: the lines of two reads, one after the
/// other, are those of both at once, and leave the same output behind. This
/// holds as long as the first read leaves no more than [`MAX_PARTIAL`] bytes of
/// unterminated output.
pub proof fn law_reads_can_be_cut(m: ReaderModel, a: Seq<u8>, b: Seq<u8>)
    requires
        encode_utf8(tail_of(output(m, a))).len() <= MAX_PARTIAL,
    ensures
        new_lines(m, a + b) == new_lines(m, a) + new_lines(taken_in(m, a), b),
        taken_in(m, a + b) == taken_in(taken_in(m, a), b),
{
    let x = m.carry + a;
    assert(m.carry + (a + b) =~= x + b);
    law_step_keeps_text(x, b);
    let n = taken_in(m, a);
    let first = output(m, a);
    let second = step_text(step_rest(x) + b);
    assert(output(m, a + b) =~= first + second);
    law_output_can_be_cut(first, second);
    assert(n.buf == tail_of(first)) by {
        law_tail_is_bounded(tail_of(first));
    }
    lemma_shown_splits(lines_of(first), lines_of(tail_of(first) + second));
}

/// The lines that some reads complete, one read after the other.
pub open spec fn lines_in_turn(m: ReaderModel, chunks: Seq<Seq<u8>>) -> Seq<Seq<char>>
    decreases chunks.len(),
{
    if chunks.len() == 0 {
        seq![]
    } else {
        new_lines(m, chunks.first()) + lines_in_turn(stepped(m, chunks.first()), chunks.drop_first())
    }
}

/// Whether no read leaves more unterminated output than is kept.
pub open spec fn stays_in_bounds(m: ReaderModel, chunks: Seq<Seq<u8>>) -> bool
    decreases chunks.len(),
{
    chunks.len() == 0 || encode_utf8(tail_of(output(m, chunks.first()))).len() <= MAX_PARTIAL
        && stays_in_bounds(stepped(m, chunks.first()), chunks.drop_first())
}

proof fn lemma_lines_of_reads(m: ReaderModel, chunks: Seq<Seq<u8>>)
    requires
        chunks.len() > 0,
        stays_in_bounds(m, chunks),
    ensures
        lines_in_turn(m, chunks) == new_lines(m, joined(chunks)),
    decreases chunks.len(),
{
    let c = chunks.first();
    let rest = chunks.drop_first();
    lemma_lines_keep(taken_in(m, c), all_hits(m.rules, new_lines(m, c)));
    if rest.len() == 0 {
        assert(joined(rest) =~= seq![]);
        assert(joined(chunks) =~= c);
        assert(lines_in_turn(stepped(m, c), rest) =~= seq![]);
        assert(lines_in_turn(m, chunks) =~= new_lines(m, c));
    } else {
        let b = m.carry + c;
        assert(m.carry + joined(chunks) =~= b + joined(rest));
        law_reads_can_be_cut(m, c, joined(rest));
        let n = stepped(m, c);
        lemma_lines_of_reads(n, rest);
        assert(new_lines(n, joined(rest)) == new_lines(taken_in(m, c), joined(rest)));
    }
}

/// From its start, a session logs exactly the lines of what Aether printed,
/// wherever the reads were cut: those of the whole text, with broken bytes
/// replaced, without escape sequences and empty lines. Where the output is valid
/// UTF-8, that text is the one that it encodes. This holds as long as no read
/// leaves more unterminated output than is kept.
pub proof fn law_a_session_logs_its_output(rules: Seq<PromptRule>, chunks: Seq<Seq<u8>>)
    requires
        stays_in_bounds(fresh(rules), chunks),
    ensures
        lines_in_turn(fresh(rules), chunks) == shown(lines_of(step_text(joined(chunks)))),
        valid_utf8(joined(chunks)) ==> step_text(joined(chunks)) == decode_utf8(joined(chunks)),
{
    let m = fresh(rules);
    let all = joined(chunks);
    if valid_utf8(all) {
        law_valid_text_is_exact(all);
    }
    if chunks.len() == 0 {
        assert(lines_of(step_text(all)) =~= seq![]);
    } else {
        assert(m.carry + all =~= all);
        lemma_lines_of_reads(m, chunks);
        assert(output(m, all) =~= step_text(all));
    }
}

/// The state after some reads.
pub open spec fn run(m: ReaderModel, chunks: Seq<Seq<u8>>) -> ReaderModel
    decreases chunks.len(),
{
    if chunks.len() == 0 {
        m
    } else {
        stepped(run(m, chunks.drop_last()), chunks.last())
    }
}

/// The actions for some reads, each with the timestamps for its lines and the
/// one for its response.
pub open spec fn run_acts(
    m: ReaderModel,
    chunks: Seq<Seq<u8>>,
    times: Seq<(Seq<u64>, u64)>,
) -> Seq<Act>
    decreases chunks.len(),
{
    if chunks.len() == 0 {
        seq![]
    } else {
        run_acts(m, chunks.drop_last(), times.drop_last()) + step_acts(
            run(m, chunks.drop_last()),
            chunks.last(),
            times.last().0,
            times.last().1,
        )
    }
}

/// The numbers of the requests for a one-time code among some actions.
pub open spec fn asked(a: Seq<Act>) -> Seq<u64>
    decreases a.len(),
{
    if a.len() == 0 {
        seq![]
    } else {
        match a.last() {
            Act::AskCode(n) => asked(a.drop_last()).push(n),
            _ => asked(a.drop_last()),
        }
    }
}

proof fn lemma_asked_splits(a: Seq<Act>, b: Seq<Act>)
    ensures
        asked(a + b) == asked(a) + asked(b),
    decreases b.len(),
{
    if b.len() == 0 {
        assert(a + b =~= a);
        assert(asked(a) + asked(b) =~= asked(a));
    } else {
        lemma_asked_splits(a, b.drop_last());
        assert((a + b).drop_last() =~= a + b.drop_last());
        assert((a + b).last() == b.last());
        assert(asked(a + b) =~= asked(a) + asked(b));
    }
}

proof fn lemma_nothing_asked(a: Seq<Act>)
    requires
        forall|i: int| 0 <= i < a.len() ==> !(#[trigger] a[i] is AskCode),
    ensures
        asked(a) == Seq::<u64>::empty(),
    decreases a.len(),
{
    if a.len() > 0 {
        let t = a.drop_last();
        assert forall|i: int| 0 <= i < t.len() implies !(#[trigger] t[i] is AskCode) by {
            assert(t[i] == a[i]);
        }
        lemma_nothing_asked(t);
        assert(!(a[a.len() - 1] is AskCode));
    }
}

/// Over a whole session the requests for a one-time code are numbered one after
/// the other, and their number is the one that the supervisor observes.
pub proof fn law_a_session_counts_its_requests(
    m: ReaderModel,
    chunks: Seq<Seq<u8>>,
    times: Seq<(Seq<u64>, u64)>,
)
    requires
        times.len() == chunks.len(),
        m.signals.access_code_seq + chunks.len() <= u64::MAX,
    ensures
        ({
            let first = m.signals.access_code_seq;
            let last = run(m, chunks).signals.access_code_seq;
            &&& first <= last <= first + chunks.len()
            &&& asked(run_acts(m, chunks, times)) == Seq::new(
                (last - first) as nat,
                |i: int| (first + 1 + i) as u64,
            )
        }),
    decreases chunks.len(),
{
    let first = m.signals.access_code_seq;
    if chunks.len() == 0 {
        assert(asked(run_acts(m, chunks, times)) =~= Seq::new(0, |i: int| (first + 1 + i) as u64));
    } else {
        let before = chunks.drop_last();
        let earlier = times.drop_last();
        let c = chunks.last();
        let (stamps, now) = times.last();
        law_a_session_counts_its_requests(m, before, earlier);
        let n = run(m, before);
        law_requests_are_numbered(n, c, stamps, now);
        law_every_line_is_logged(n, c, stamps, now);
        let a = step_acts(n, c, stamps, now);
        lemma_asked_splits(run_acts(m, before, earlier), a);
        let last = run(m, chunks).signals.access_code_seq;
        let k = new_lines(n, c).len() as int;
        if last == n.signals.access_code_seq {
            lemma_nothing_asked(a);
        } else {
            let head = a.take(k);
            assert forall|i: int| 0 <= i < head.len() implies !(#[trigger] head[i] is AskCode) by {
                assert(head[i] == a[i]);
            }
            lemma_nothing_asked(head);
            reveal_with_fuel(asked, 3);
            assert(a.drop_last().drop_last() =~= head);
            assert(asked(a) =~= seq![last]);
        }
        assert(asked(run_acts(m, chunks, times)) =~= Seq::new(
            (last - first) as nat,
            |i: int| (first + 1 + i) as u64,
        ));
    }
}

/// A reader that has seen nothing has answered nothing, expects nothing and has
/// counted nothing.
pub proof fn law_a_new_reader_knows_its_rules_only(rules: Seq<PromptRule>)
    ensures
        fresh(rules).rules == rules,
        fresh(rules).answered == Set::<Seq<char>>::empty(),
        fresh(rules).section is None,
        fresh(rules).lines_since_header == 0,
        fresh(rules).buf.len() == 0,
        fresh(rules).carry.len() == 0,
        !fresh(rules).code_visible,
        !fresh(rules).signals.prompts_done,
        fresh(rules).signals.lines_seen == 0,
        fresh(rules).signals.access_code_seq == 0,
{
}

/// The lines that are shown are all the lines, without their escape sequences,
/// except those of which nothing is left.
pub proof fn law_all_but_empty_lines_are_shown(raw: Seq<Seq<char>>)
    ensures
        shown(raw) == raw.map_values(|l: Seq<char>| stripped(l)).filter(
            |l: Seq<char>| l.len() > 0,
        ),
    decreases raw.len(),
{
    reveal(Seq::filter);
    let all = raw.map_values(|l: Seq<char>| stripped(l));
    if raw.len() > 0 {
        law_all_but_empty_lines_are_shown(raw.drop_last());
        assert(all.drop_last() =~= raw.drop_last().map_values(|l: Seq<char>| stripped(l)));
    }
}

/// What a line does: it is counted; it arms the prompts that it announces, all
/// of which can be answered again, and the last of them is the one that is
/// expected; one that announces none is a further line since the last header.
pub proof fn law_what_a_line_does(m: ReaderModel, line: Seq<char>, id: Seq<char>, j: int)
    ensures
        ({
            let n = after_line(m, header_hits(m.rules, line));
            &&& n.answered.contains(id) <==> m.answered.contains(id) && forall|r: int|
                0 <= r < m.rules.len() && has_tail(line, (#[trigger] m.rules[r]).header@)
                    ==> m.rules[r].id@ != id
            &&& 0 <= j < m.rules.len() && has_tail(line, m.rules[j].header@) && (forall|r: int|
                j < r < m.rules.len() ==> !has_tail(line, (#[trigger] m.rules[r]).header@))
                ==> n.section == Some(m.rules[j].id@) && n.lines_since_header == 0
            &&& (forall|r: int|
                0 <= r < m.rules.len() ==> !has_tail(line, (#[trigger] m.rules[r]).header@))
                ==> n.section == m.section && n.lines_since_header as int == (
            if m.lines_since_header == 0xffff_ffff {
                0xffff_ffff
            } else {
                m.lines_since_header + 1
            })
            &&& n.signals.lines_seen as int == (m.signals.lines_seen + 1)
                % 0x1_0000_0000_0000_0000
            &&& n.signals.prompts_done == m.signals.prompts_done
            &&& n.signals.access_code_seq == m.signals.access_code_seq
            &&& n.rules == m.rules
            &&& n.buf == m.buf
            &&& n.carry == m.carry
            &&& n.code_visible == m.code_visible
        }),
{
    let hits = header_hits(m.rules, line);
    lemma_last_hit(hits);
    let k = last_hit(hits);
    lemma_nothing_after_last_hit(hits);
    if hit_ids(m.rules, hits).contains(id) {
        let r = choose|r: int| 0 <= r < hits.len() && hits[r] && m.rules[r].id@ == id;
        assert(has_tail(line, m.rules[r].header@));
    }
    assert forall|r: int|
        0 <= r < m.rules.len() && has_tail(line, (#[trigger] m.rules[r]).header@)
            && m.rules[r].id@ == id implies hit_ids(m.rules, hits).contains(id) by {
        assert(hits[r]);
    }
    if 0 <= j < m.rules.len() && has_tail(line, m.rules[j].header@) && (forall|r: int|
        j < r < m.rules.len() ==> !has_tail(line, (#[trigger] m.rules[r]).header@)) {
        assert(hits[j]);
        if k > j {
            assert(!has_tail(line, m.rules[k].header@));
        }
    }
    if k >= 0 {
        assert(has_tail(line, m.rules[k].header@));
    }
}

proof fn lemma_nothing_after_last_hit(hits: Seq<bool>)
    ensures
        forall|r: int| last_hit(hits) < r < hits.len() ==> !#[trigger] hits[r],
    decreases hits.len(),
{
    lemma_last_hit(hits);
    if hits.len() > 0 && !hits.last() {
        let t = hits.drop_last();
        lemma_nothing_after_last_hit(t);
        assert forall|r: int| last_hit(hits) < r < hits.len() implies !#[trigger] hits[r] by {
            if r < t.len() {
                assert(hits[r] == t[r]);
            } else {
                assert(hits[r] == hits.last());
            }
        }
    }
}

/// The prompt that is expected after some lines: the one that the last header
/// among them announced, at index `i`, counting the lines that came after it.
pub proof fn law_the_last_header_is_expected(
    m: ReaderModel,
    lines: Seq<Seq<char>>,
    i: int,
    j: int,
)
    requires
        0 <= i < lines.len() <= 0xffff_ffff,
        0 <= j < m.rules.len(),
        has_tail(lines[i], m.rules[j].header@),
        forall|r: int|
            j < r < m.rules.len() ==> !has_tail(lines[i], (#[trigger] m.rules[r]).header@),
        forall|k: int, r: int|
            i < k < lines.len() && 0 <= r < m.rules.len() ==> !has_tail(
                #[trigger] lines[k],
                (#[trigger] m.rules[r]).header@,
            ),
    ensures
        ({
            let n = after_lines(m, all_hits(m.rules, lines));
            &&& n.section == Some(m.rules[j].id@)
            &&& n.lines_since_header == lines.len() - 1 - i
            &&& !n.answered.contains(m.rules[j].id@)
        }),
    decreases lines.len(),
{
    let hits = all_hits(m.rules, lines);
    let front = lines.drop_last();
    let last = lines.last();
    assert(hits.drop_last() =~= all_hits(m.rules, front));
    assert(hits.last() == header_hits(m.rules, last));
    let before = after_lines(m, hits.drop_last());
    lemma_lines_keep(m, hits.drop_last());
    let id = m.rules[j].id@;
    if i == lines.len() - 1 {
        law_what_a_line_does(before, last, id, j);
        assert(has_tail(last, before.rules[j].header@));
    } else {
        assert forall|k: int, r: int|
            i < k < front.len() && 0 <= r < m.rules.len() implies !has_tail(
            #[trigger] front[k],
            (#[trigger] m.rules[r]).header@,
        ) by {
            assert(!has_tail(lines[k], m.rules[r].header@));
        }
        assert(front[i] == lines[i]);
        law_the_last_header_is_expected(m, front, i, j);
        assert forall|r: int| 0 <= r < before.rules.len() implies !has_tail(
            last,
            (#[trigger] before.rules[r]).header@,
        ) by {
            assert(!has_tail(lines[lines.len() - 1], m.rules[r].header@));
        }
        law_what_a_line_does(before, last, id, j);
    }
}

proof fn lemma_rule_is(rules: Seq<PromptRule>, j: int)
    requires
        0 <= j < rules.len(),
        forall|r: int| 0 <= r < j ==> (#[trigger] rules[r]).id@ != rules[j].id@,
    ensures
        rule_for(rules, rules[j].id@) == j,
    decreases j,
{
    if j > 0 {
        let t = rules.drop_first();
        assert(rules[0].id@ != rules[j].id@);
        assert forall|r: int| 0 <= r < j - 1 implies (#[trigger] t[r]).id@ != t[j - 1].id@ by {
            assert(rules[r + 1].id@ != rules[j].id@);
        }
        lemma_rule_is(t, j - 1);
    }
}

/// Whether the end of the output, `p` and a colon and white space `w`, is a
/// prompt for a choice that is no header and asks for no one-time code.
pub open spec fn asks_for_a_choice(
    rules: Seq<PromptRule>,
    end: Seq<char>,
    p: Seq<char>,
    w: Seq<char>,
) -> bool {
    &&& end == p + seq![':'] + w
    &&& forall|i: int| 0 <= i < w.len() ==> is_space(#[trigger] w[i])
    &&& forall|x: Seq<char>, y: Seq<char>| end != #[trigger] (x + "Enter the code:"@ + y)
    &&& forall|r: int|
        0 <= r < rules.len() ==> !has_tail(end, (#[trigger] rules[r]).header@)
}

/// Every prompt that is due is answered, whichever rule it belongs to: where
/// the prompt of rule `j` is expected, at most 4 lines after its header and not
/// answered since, and the output ends with a prompt for a choice, the answer
/// of that rule and a line ending are typed, first of all, and it is logged.
pub proof fn law_a_due_prompt_is_answered(
    m: ReaderModel,
    j: int,
    p: Seq<char>,
    w: Seq<char>,
    now: u64,
)
    requires
        0 <= j < m.rules.len(),
        forall|r: int| 0 <= r < j ==> (#[trigger] m.rules[r]).id@ != m.rules[j].id@,
        m.section == Some(m.rules[j].id@),
        m.lines_since_header <= 4,
        !m.answered.contains(m.rules[j].id@),
        asks_for_a_choice(m.rules, stripped(m.buf), p, w),
    ensures
        reply_acts(m, ends_in_header(m), now) == seq![
            Act::Type(m.rules[j].answer@ + "\r\n"@),
            Act::Log(
                "[gui] answered "@ + m.rules[j].id@ + " \u{2192} "@ + m.rules[j].answer@,
                now,
            ),
        ],
        replied(m, ends_in_header(m)).answered == m.answered.insert(m.rules[j].id@),
{
    let end = stripped(m.buf);
    law_a_choice_prompt_ends_with_a_colon(p, ':', w);
    law_a_code_prompt_is_told_by_its_words(seq![], seq![], end);
    lemma_rule_is(m.rules, j);
    let hits = header_hits(m.rules, end);
    if has_hit(hits) {
        let r = choose|r: int| 0 <= r < hits.len() && hits[r];
        assert(has_tail(end, m.rules[r].header@));
    }
}

/// A read that brings the header of rule `j`, at most 4 further lines, and then
/// a prompt for a choice, leads to that rule's answer being typed right after
/// the lines are logged: for every rule, and however the reader stood before.
pub proof fn law_a_read_with_a_prompt_is_answered(
    m: ReaderModel,
    chunk: Seq<u8>,
    i: int,
    j: int,
    p: Seq<char>,
    w: Seq<char>,
    times: Seq<u64>,
    now: u64,
)
    requires
        0 <= j < m.rules.len(),
        forall|r: int| 0 <= r < j ==> (#[trigger] m.rules[r]).id@ != m.rules[j].id@,
        ({
            let lines = new_lines(m, chunk);
            &&& 0 <= i < lines.len() <= i + 5
            &&& lines.len() <= 0xffff_ffff
            &&& has_tail(lines[i], m.rules[j].header@)
            &&& forall|r: int|
                j < r < m.rules.len() ==> !has_tail(lines[i], (#[trigger] m.rules[r]).header@)
            &&& forall|k: int, r: int|
                i < k < lines.len() && 0 <= r < m.rules.len() ==> !has_tail(
                    #[trigger] lines[k],
                    (#[trigger] m.rules[r]).header@,
                )
        }),
        asks_for_a_choice(m.rules, stripped(taken_in(m, chunk).buf), p, w),
    ensures
        ({
            let lines = new_lines(m, chunk);
            let a = step_acts(m, chunk, times, now);
            &&& a.len() == lines.len() + 2
            &&& a[lines.len() as int] == Act::Type(m.rules[j].answer@ + "\r\n"@)
            &&& a[lines.len() as int + 1] == Act::Log(
                "[gui] answered "@ + m.rules[j].id@ + " \u{2192} "@ + m.rules[j].answer@,
                now,
            )
        }),
{
    let t = taken_in(m, chunk);
    let lines = new_lines(m, chunk);
    lemma_lines_keep(t, all_hits(m.rules, lines));
    law_the_last_header_is_expected(t, lines, i, j);
    law_a_due_prompt_is_answered(noted(m, chunk), j, p, w, now);
}

/// A read that ends with a prompt for a choice, and brings no header, leads to
/// the answer of the rule whose header came before it, as long as no more than
/// 4 lines have come since and it has not been answered.
pub proof fn law_a_prompt_in_a_later_read_is_answered(
    m: ReaderModel,
    chunk: Seq<u8>,
    j: int,
    p: Seq<char>,
    w: Seq<char>,
    times: Seq<u64>,
    now: u64,
)
    requires
        0 <= j < m.rules.len(),
        forall|r: int| 0 <= r < j ==> (#[trigger] m.rules[r]).id@ != m.rules[j].id@,
        m.section == Some(m.rules[j].id@),
        m.lines_since_header + new_lines(m, chunk).len() <= 4,
        !m.answered.contains(m.rules[j].id@),
        forall|k: int, r: int|
            0 <= k < new_lines(m, chunk).len() && 0 <= r < m.rules.len() ==> !has_tail(
                #[trigger] new_lines(m, chunk)[k],
                (#[trigger] m.rules[r]).header@,
            ),
        asks_for_a_choice(m.rules, stripped(taken_in(m, chunk).buf), p, w),
    ensures
        step_acts(m, chunk, times, now).len() == new_lines(m, chunk).len() + 2,
        step_acts(m, chunk, times, now)[new_lines(m, chunk).len() as int] == Act::Type(
            m.rules[j].answer@ + "\r\n"@,
        ),
{
    let t = taken_in(m, chunk);
    let lines = new_lines(m, chunk);
    let hits = all_hits(m.rules, lines);
    lemma_lines_keep(t, hits);
    assert forall|k: int| 0 <= k < hits.len() implies !has_hit(#[trigger] hits[k]) by {
        if has_hit(hits[k]) {
            let r = choose|r: int| 0 <= r < hits[k].len() && hits[k][r];
            assert(has_tail(lines[k], m.rules[r].header@));
        }
    }
    lemma_plain_lines(t, hits);
    law_a_due_prompt_is_answered(noted(m, chunk), j, p, w, now);
}

/// A request for a one-time code at the end of the output is reported when it
/// appears, with the next number, and never again while it stands there; and
/// then nothing is typed and no prompt counts as answered.
pub proof fn law_a_code_request_is_reported_when_it_appears(
    m: ReaderModel,
    a: Seq<char>,
    b: Seq<char>,
    hit: bool,
    now: u64,
)
    requires
        stripped(m.buf) == a + "Enter the code:"@ + b,
        m.signals.access_code_seq < u64::MAX,
    ensures
        !m.code_visible ==> reply_acts(m, hit, now) == seq![
            Act::AskCode((m.signals.access_code_seq + 1) as u64),
            Act::Log("[gui] Zero Trust access code required"@, now),
        ],
        m.code_visible ==> reply_acts(m, hit, now) == Seq::<Act>::empty(),
        replied(m, hit).code_visible,
        replied(m, hit).signals.access_code_seq == m.signals.access_code_seq + (
        if m.code_visible {
            0int
        } else {
            1
        }),
        replied(m, hit).answered == m.answered,
        replied(m, hit).signals.prompts_done == m.signals.prompts_done,
{
    law_a_code_prompt_is_told_by_its_words(a, b, stripped(m.buf));
}

/// Nothing else is ever done: whatever is done at the end of the output, either
/// a request for a one-time code has just appeared there, or the output ends
/// with a prompt for a choice, whose header came at most 4 lines before and was
/// not answered since, and there is a rule for it.
pub proof fn law_nothing_is_done_without_cause(m: ReaderModel, now: u64)
    requires
        reply_acts(m, ends_in_header(m), now).len() > 0,
    ensures
        ({
            let end = stripped(m.buf);
            ||| !m.code_visible && exists|x: Seq<char>, y: Seq<char>|
                end == #[trigger] (x + "Enter the code:"@ + y)
            ||| (exists|p: Seq<char>, w: Seq<char>| #[trigger]
                asks_for_a_choice(m.rules, end, p, w)) && m.lines_since_header <= 4
                && m.section is Some && !m.answered.contains(m.section->0) && exists|r: int|
                0 <= r < m.rules.len() && (#[trigger] m.rules[r]).id@ == m.section->0
        }),
{
    let end = stripped(m.buf);
    law_a_code_prompt_is_told_by_its_words(seq![], seq![], end);
    if !is_code_prompt(end) {
        law_only_white_space_is_taken_off(end);
        let t = trimmed_end(end);
        let w = end.skip(t.len() as int);
        assert(end =~= t.drop_last() + seq![':'] + w);
        assert forall|i: int| 0 <= i < w.len() implies is_space(#[trigger] w[i]) by {
            assert(is_space(end[t.len() + i]));
        }
        assert forall|r: int| 0 <= r < m.rules.len() implies !has_tail(
            end,
            (#[trigger] m.rules[r]).header@,
        ) by {
            let hits = header_hits(m.rules, end);
            if has_tail(end, m.rules[r].header@) {
                assert(hits[r]);
                assert(has_hit(hits));
            }
        }
        assert(asks_for_a_choice(m.rules, end, t.drop_last(), w));
        lemma_rule_found(m.rules, m.section->0);
    }
}

proof fn lemma_rule_found(rules: Seq<PromptRule>, id: Seq<char>)
    requires
        rule_for(rules, id) < rules.len(),
    ensures
        exists|r: int| 0 <= r < rules.len() && (#[trigger] rules[r]).id@ == id,
    decreases rules.len(),
{
    if rules[0].id@ != id {
        let t = rules.drop_first();
        lemma_rule_found(t, id);
        let r = choose|r: int| 0 <= r < t.len() && (#[trigger] t[r]).id@ == id;
        assert(rules[r + 1].id@ == id);
    }
}

/// What a response changes: the prompts are done from then on if it typed an
/// answer and now as many sections are answered as there are rules; whether a
/// request for a one-time code stands at the end is remembered; and apart from
/// what was answered and the count of requests, all else stays.
pub proof fn law_what_a_response_changes(m: ReaderModel, hit: bool, now: u64)
    ensures
        ({
            let n = replied(m, hit);
            let a = reply_acts(m, hit, now);
            let typed = a.len() > 0 && a[0] is Type;
            &&& n.signals.prompts_done <==> m.signals.prompts_done || (typed && n.answered.len()
                == m.rules.len())
            &&& typed ==> m.section is Some && n.answered == m.answered.insert(m.section->0)
            &&& !typed ==> n.answered == m.answered
            &&& n.code_visible <==> exists|x: Seq<char>, y: Seq<char>|
                stripped(m.buf) == #[trigger] (x + "Enter the code:"@ + y)
            &&& n.signals.lines_seen == m.signals.lines_seen
            &&& n.rules == m.rules
            &&& n.section == m.section
            &&& n.lines_since_header == m.lines_since_header
            &&& n.buf == m.buf
            &&& n.carry == m.carry
        }),
{
    law_a_code_prompt_is_told_by_its_words(seq![], seq![], stripped(m.buf));
}

/// The end of the output is all that is told by it: the prompts count as done,
/// and nothing else changes.
pub proof fn law_the_end_of_the_output_releases(m: ReaderModel)
    ensures
        ended(m).signals.prompts_done,
        ended(m).signals.lines_seen == m.signals.lines_seen,
        ended(m).signals.access_code_seq == m.signals.access_code_seq,
        ended(m).answered == m.answered,
        ended(m).section == m.section,
        ended(m).buf == m.buf,
        ended(m).carry == m.carry,
{
}

/// A reader and what it wants done are seen with all that they hold.
pub proof fn law_a_reader_is_seen_whole(r: PromptReader, text: String, n: u64)
    ensures
        r@.rules == r.rules@,
        r@.answered == r.answered@,
        r.section matches Some(s) ==> r@.section == Some(s@),
        r.section is None ==> r@.section is None,
        r@.lines_since_header == r.lines_since_header,
        r@.buf == r.line_buf@,
        r@.carry == r.carry@,
        r@.code_visible == r.code_visible,
        r@.signals == r.signals,
        ReaderAction::Type(text)@ == Act::Type(text@),
        ReaderAction::Send(PtySignal::Log(LogEvent { line: text, timestamp: n }))@ == Act::Log(
            text@,
            n,
        ),
        ReaderAction::Send(PtySignal::AccessCodeRequested { sequence: n })@ == Act::AskCode(n),
{
}

/// The bytes of a read go to the output and to what waits for the next read;
/// nothing else changes by them.
pub proof fn law_bytes_change_the_output_only(m: ReaderModel, chunk: Seq<u8>)
    ensures
        taken_in(m, chunk).rules == m.rules,
        taken_in(m, chunk).answered == m.answered,
        taken_in(m, chunk).section == m.section,
        taken_in(m, chunk).lines_since_header == m.lines_since_header,
        taken_in(m, chunk).code_visible == m.code_visible,
        taken_in(m, chunk).signals == m.signals,
        taken_in(m, chunk).carry == step_rest(m.carry + chunk),
        encode_utf8(tail_of(m.buf + step_text(m.carry + chunk))).len() <= 16384 ==> taken_in(
            m,
            chunk,
        ).buf == tail_of(m.buf + step_text(m.carry + chunk)),
{
    law_tail_is_bounded(tail_of(m.buf + step_text(m.carry + chunk)));
}

/// Where something is typed, if anything is, and what is answered by it.
proof fn lemma_typed(m: ReaderModel, chunk: Seq<u8>, times: Seq<u64>, now: u64)
    ensures
        ({
            let a = step_acts(m, chunk, times, now);
            let k = new_lines(m, chunk).len() as int;
            let n = noted(m, chunk);
            &&& forall|i: int|
                0 <= i < a.len() && (#[trigger] a[i] is Type) ==> i == k && answers(
                    n,
                    ends_in_header(n),
                )
            &&& answers(n, ends_in_header(n)) ==> a.len() == k + 2 && a[k] is Type
        }),
{
    let n = noted(m, chunk);
    let lines = logged(new_lines(m, chunk), times);
    let rest = reply_acts(n, ends_in_header(n), now);
    let a = step_acts(m, chunk, times, now);
    assert forall|i: int| 0 <= i < a.len() implies a[i] == (if i < lines.len() {
        lines[i]
    } else {
        rest[i - lines.len()]
    }) by {}
}

/// No prompt is answered twice: after a read in which something was typed, a
/// read that brings no header types nothing, whatever else it brings.
pub proof fn law_no_read_answers_again(
    m: ReaderModel,
    first: Seq<u8>,
    second: Seq<u8>,
    times: Seq<u64>,
    now: u64,
    later_times: Seq<u64>,
    later: u64,
    i: int,
    j: int,
)
    requires
        0 <= i < step_acts(m, first, times, now).len(),
        step_acts(m, first, times, now)[i] is Type,
        forall|k: int, r: int|
            0 <= k < new_lines(stepped(m, first), second).len() && 0 <= r < m.rules.len()
                ==> !has_tail(
                #[trigger] new_lines(stepped(m, first), second)[k],
                (#[trigger] m.rules[r]).header@,
            ),
        0 <= j < step_acts(stepped(m, first), second, later_times, later).len(),
    ensures
        !(step_acts(stepped(m, first), second, later_times, later)[j] is Type),
{
    lemma_typed(m, first, times, now);
    let n = noted(m, first);
    lemma_lines_keep(taken_in(m, first), all_hits(m.rules, new_lines(m, first)));
    let s = stepped(m, first);
    assert(answers(n, ends_in_header(n)));
    lemma_typed(s, second, later_times, later);
    let lines = new_lines(s, second);
    let hits = all_hits(s.rules, lines);
    assert forall|k: int| 0 <= k < hits.len() implies !has_hit(#[trigger] hits[k]) by {
        if has_hit(hits[k]) {
            let r = choose|r: int| 0 <= r < hits[k].len() && hits[k][r];
            assert(has_tail(lines[k], m.rules[r].header@));
        }
    }
    lemma_plain_lines(taken_in(s, second), hits);
}

/// What a read leaves of the prompts: they are done from then on if something
/// was typed in it and now as many sections are answered as there are rules;
/// and the rules stay.
pub proof fn law_a_read_can_complete_the_prompts(
    m: ReaderModel,
    chunk: Seq<u8>,
    times: Seq<u64>,
    now: u64,
)
    ensures
        ({
            let a = step_acts(m, chunk, times, now);
            let k = new_lines(m, chunk).len() as int;
            let s = stepped(m, chunk);
            let typed = a.len() > k && a[k] is Type;
            &&& s.signals.prompts_done <==> m.signals.prompts_done || (typed && s.answered.len()
                == m.rules.len())
            &&& typed ==> s.section is Some && s.answered.contains(s.section->0)
            &&& s.rules == m.rules
            &&& s.buf == taken_in(m, chunk).buf
            &&& s.carry == taken_in(m, chunk).carry
        }),
{
    lemma_typed(m, chunk, times, now);
    lemma_lines_keep(taken_in(m, chunk), all_hits(m.rules, new_lines(m, chunk)));
}

} // verus!
