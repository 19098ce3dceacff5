//! The reader of a session: turns the bytes that Aether prints into log lines,
//! requests for a one-time code, and answers to the prompts that it knows.

use crate::aether::ansi::{strip_ansi, stripped};
use crate::aether::decode::{decode_step, step_rest, step_text};
use crate::aether::lines::{capped, drain_lines, lines_of, tail_of, texts};
use crate::aether::prompts::{
    is_choice_prompt, is_code_prompt, looks_like_choice_prompt, PromptRule, ACCESS_CODE_PROMPT,
};
use crate::aether::pty::{PtySignal, SessionSignals};
use crate::aether::sections::SectionSet;
use crate::events::{is_reading, now_millis, LogEvent};
use crate::text::contains;
use vstd::prelude::*;

verus! {

/// How many lines after a header its prompt may still be answered.
pub const HEADER_ARM_WINDOW: u32 = 4;

/// The log line for a request for a one-time code.
pub const CODE_REQUIRED: &'static str = "[gui] Zero Trust access code required";

/// What the reader wants done.
pub enum ReaderAction {
    /// Type this text at the terminal.
    Type(String),
    /// Report this.
    Send(PtySignal),
}

/// A [`ReaderAction`] by its text.
pub enum Act {
    Type(Seq<char>),
    Log(Seq<char>, u64),
    AskCode(u64),
}

impl View for ReaderAction {
    type V = Act;

    open spec fn view(&self) -> Act {
        match self {
            ReaderAction::Type(s) => Act::Type(s@),
            ReaderAction::Send(PtySignal::Log(e)) => Act::Log(e.line@, e.timestamp),
            ReaderAction::Send(PtySignal::AccessCodeRequested { sequence }) => Act::AskCode(
                *sequence,
            ),
        }
    }
}

/// Some actions by their texts.
pub open spec fn acts(v: Seq<ReaderAction>) -> Seq<Act> {
    Seq::new(v.len(), |i: int| v[i]@)
}

/// The rows of a table.
pub open spec fn rows(v: Seq<Vec<bool>>) -> Seq<Seq<bool>> {
    Seq::new(v.len(), |i: int| v[i]@)
}

/// The state of a reader.
pub struct PromptReader {
    /// The prompts that it knows.
    pub rules: Vec<PromptRule>,
    /// The sections that have been answered since their last header.
    pub answered: SectionSet,
    /// The section of the last header.
    pub section: Option<String>,
    /// The number of lines since the last header.
    pub lines_since_header: u32,
    /// The output after the last line.
    pub line_buf: String,
    /// The bytes that are not decoded yet.
    pub carry: Vec<u8>,
    /// Whether a request for a one-time code stood at the end of the output.
    pub code_visible: bool,
    /// What the supervisor observes.
    pub signals: SessionSignals,
}

/// The state of a reader, by its texts.
#[verifier::ext_equal]
pub struct ReaderModel {
    pub rules: Seq<PromptRule>,
    pub answered: Set<Seq<char>>,
    pub section: Option<Seq<char>>,
    pub lines_since_header: u32,
    pub buf: Seq<char>,
    pub carry: Seq<u8>,
    pub code_visible: bool,
    pub signals: SessionSignals,
}

impl View for PromptReader {
    type V = ReaderModel;

    open spec fn view(&self) -> ReaderModel {
        ReaderModel {
            rules: self.rules@,
            answered: self.answered@,
            section: match self.section {
                Some(s) => Some(s@),
                None => None,
            },
            lines_since_header: self.lines_since_header,
            buf: self.line_buf@,
            carry: self.carry@,
            code_visible: self.code_visible,
            signals: self.signals,
        }
    }
}

/// The state before any output.
pub open spec fn fresh(rules: Seq<PromptRule>) -> ReaderModel {
    ReaderModel {
        rules,
        answered: Set::empty(),
        section: None,
        lines_since_header: 0,
        buf: seq![],
        carry: seq![],
        code_visible: false,
        signals: SessionSignals { prompts_done: false, lines_seen: 0, access_code_seq: 0 },
    }
}

/// The texts without escape sequences, and without those that are then empty.
pub open spec fn shown(raw: Seq<Seq<char>>) -> Seq<Seq<char>>
    decreases raw.len(),
{
    if raw.len() == 0 {
        seq![]
    } else {
        let line = stripped(raw.last());
        if line.len() == 0 {
            shown(raw.drop_last())
        } else {
            shown(raw.drop_last()).push(line)
        }
    }
}

/// The output of `m` with the bytes of one more read, before lines are taken
/// from it.
pub open spec fn output(m: ReaderModel, chunk: Seq<u8>) -> Seq<char> {
    m.buf + step_text(m.carry + chunk)
}

/// The state after the bytes of one read have been taken in.
pub open spec fn taken_in(m: ReaderModel, chunk: Seq<u8>) -> ReaderModel {
    ReaderModel {
        buf: capped(tail_of(output(m, chunk))),
        carry: step_rest(m.carry + chunk),
        ..m
    }
}

/// The index of the last entry that is true, or -1.
pub open spec fn last_hit(hits: Seq<bool>) -> int
    decreases hits.len(),
{
    if hits.len() == 0 {
        -1
    } else if hits.last() {
        hits.len() - 1
    } else {
        last_hit(hits.drop_last())
    }
}

/// The sections whose headers were hit.
pub open spec fn hit_ids(rules: Seq<PromptRule>, hits: Seq<bool>) -> Set<Seq<char>> {
    Set::new(|id: Seq<char>| exists|j: int| 0 <= j < hits.len() && hits[j] && rules[j].id@ == id)
}

/// The state after a line that is the header of the rules in `hits`. The last
/// of them gives the section; all of them can be answered again.
pub open spec fn after_line(m: ReaderModel, hits: Seq<bool>) -> ReaderModel {
    let k = last_hit(hits);
    ReaderModel {
        answered: m.answered.difference(hit_ids(m.rules, hits)),
        section: if k >= 0 {
            Some(m.rules[k].id@)
        } else {
            m.section
        },
        lines_since_header: if k >= 0 {
            0
        } else if m.lines_since_header == u32::MAX {
            u32::MAX
        } else {
            (m.lines_since_header + 1) as u32
        },
        signals: SessionSignals {
            lines_seen: m.signals.lines_seen.wrapping_add(1),
            ..m.signals
        },
        ..m
    }
}

/// The state after some lines, each with the rules whose header it is.
pub open spec fn after_lines(m: ReaderModel, hits: Seq<Seq<bool>>) -> ReaderModel
    decreases hits.len(),
{
    if hits.len() == 0 {
        m
    } else {
        after_line(after_lines(m, hits.drop_last()), hits.last())
    }
}

/// The log of some lines, each with its timestamp.
pub open spec fn logged(lines: Seq<Seq<char>>, times: Seq<u64>) -> Seq<Act> {
    Seq::new(lines.len(), |i: int| Act::Log(lines[i], times[i]))
}

/// The index of the first rule for the section `id`, or the number of rules.
pub open spec fn rule_for(rules: Seq<PromptRule>, id: Seq<char>) -> nat
    decreases rules.len(),
{
    if rules.len() == 0 || rules[0].id@ == id {
        0
    } else {
        1 + rule_for(rules.drop_first(), id)
    }
}

/// Whether the end of the output is a prompt that is to be answered now:
/// it asks for no one-time code, it looks like a prompt for a choice and is no
/// header, its header came at most [`HEADER_ARM_WINDOW`] lines before, and it
/// has not been answered since.
pub open spec fn answers(m: ReaderModel, partial_hit: bool) -> bool {
    &&& !is_code_prompt(stripped(m.buf))
    &&& m.lines_since_header <= HEADER_ARM_WINDOW
    &&& is_choice_prompt(stripped(m.buf))
    &&& !partial_hit
    &&& m.section is Some
    &&& !m.answered.contains(m.section->0)
    &&& rule_for(m.rules, m.section->0) < m.rules.len()
}

/// The actions at the end of the output.
pub open spec fn reply_acts(m: ReaderModel, partial_hit: bool, now: u64) -> Seq<Act> {
    if is_code_prompt(stripped(m.buf)) {
        if m.code_visible {
            seq![]
        } else {
            seq![
                Act::AskCode((m.signals.access_code_seq + 1) as u64),
                Act::Log(CODE_REQUIRED@, now),
            ]
        }
    } else if answers(m, partial_hit) {
        let id = m.section->0;
        let answer = m.rules[rule_for(m.rules, id) as int].answer@;
        seq![
            Act::Type(answer + "\r\n"@),
            Act::Log("[gui] answered "@ + id + " \u{2192} "@ + answer, now),
        ]
    } else {
        seq![]
    }
}

/// The state after the end of the output has been dealt with.
pub open spec fn replied(m: ReaderModel, partial_hit: bool) -> ReaderModel {
    let code = is_code_prompt(stripped(m.buf));
    let answered = if answers(m, partial_hit) {
        m.answered.insert(m.section->0)
    } else {
        m.answered
    };
    ReaderModel {
        answered,
        code_visible: code,
        signals: SessionSignals {
            prompts_done: m.signals.prompts_done || (answers(m, partial_hit) && answered.len()
                == m.rules.len()),
            access_code_seq: if code && !m.code_visible {
                (m.signals.access_code_seq + 1) as u64
            } else {
                m.signals.access_code_seq
            },
            ..m.signals
        },
        ..m
    }
}

impl PromptReader {
    /// The set of answered sections is well formed.
    pub open spec fn wf(&self) -> bool {
        self.answered.wf()
    }

    /// A reader that has seen no output yet.
    pub fn new(rules: Vec<PromptRule>) -> (r: PromptReader)
        ensures
            r.wf(),
            r@ == fresh(rules@),
    {
        PromptReader {
            rules,
            answered: SectionSet::new(),
            section: None,
            lines_since_header: 0,
            line_buf: String::new(),
            carry: Vec::new(),
            code_visible: false,
            signals: SessionSignals { prompts_done: false, lines_seen: 0, access_code_seq: 0 },
        }
    }

    /// Takes in the bytes of one read and returns the lines that they complete,
    /// without escape sequences and without empty lines.
    pub fn receive(&mut self, chunk: &[u8]) -> (lines: Vec<String>)
        requires
            old(self).wf(),
        ensures
            final(self).wf(),
            texts(lines@) == shown(lines_of(output(old(self)@, chunk@))),
            final(self)@ == taken_in(old(self)@, chunk@),
    {
        decode_step(&mut self.carry, chunk, &mut self.line_buf);
        let raw = drain_lines(&mut self.line_buf);
        let mut lines: Vec<String> = Vec::new();
        let mut i: usize = 0;
        assert(texts(raw@).take(0) =~= seq![]);
        while i < raw.len()
            invariant
                i <= raw@.len(),
                texts(lines@) == shown(texts(raw@).take(i as int)),
            decreases raw@.len() - i,
        {
            let line = strip_ansi(raw[i].as_str());
            let ghost before = texts(lines@);
            let ghost next = texts(raw@).take(i + 1);
            assert(next.drop_last() =~= texts(raw@).take(i as int));
            assert(next.last() == raw@[i as int]@);
            if !line.as_str().is_empty() {
                lines.push(line);
                assert(texts(lines@) =~= before.push(line@));
            }
            i = i + 1;
        }
        assert(texts(raw@).take(i as int) =~= texts(raw@));
        lines
    }

    /// The end of the output, without escape sequences.
    pub fn partial(&self) -> (s: String)
        ensures
            s@ == stripped(self@.buf),
    {
        strip_ansi(self.line_buf.as_str())
    }

    /// Notes one line that is the header of the rules in `hits`.
    fn note_line(&mut self, hits: &Vec<bool>)
        requires
            old(self).wf(),
            hits@.len() == old(self).rules@.len(),
        ensures
            final(self).wf(),
            final(self)@ == after_line(old(self)@, hits@),
    {
        let ghost m = self@;
        let mut matched: bool = false;
        let mut j: usize = 0;
        assert(m.answered.difference(hit_ids(m.rules, hits@.take(0))) =~= m.answered);
        while j < self.rules.len()
            invariant
                self.wf(),
                hits@.len() == self.rules@.len(),
                j <= hits@.len(),
                self@ == (ReaderModel {
                    answered: m.answered.difference(hit_ids(m.rules, hits@.take(j as int))),
                    section: if last_hit(hits@.take(j as int)) >= 0 {
                        Some(m.rules[last_hit(hits@.take(j as int))].id@)
                    } else {
                        m.section
                    },
                    ..m
                }),
                matched == (last_hit(hits@.take(j as int)) >= 0),
                last_hit(hits@.take(j as int)) < j,
            decreases hits@.len() - j,
        {
            let ghost now = hits@.take(j + 1);
            let ghost was = hits@.take(j as int);
            assert(now.drop_last() =~= was);
            assert(now.last() == hits@[j as int]);
            if hits[j] {
                let id = self.rules[j].id.clone();
                self.answered.remove(&id);
                self.section = Some(id);
                matched = true;
                assert(m.answered.difference(hit_ids(m.rules, was)).remove(m.rules[j as int].id@)
                    =~= m.answered.difference(hit_ids(m.rules, now))) by {
                    assert(hit_ids(m.rules, was).insert(m.rules[j as int].id@) =~= hit_ids(
                        m.rules,
                        now,
                    )) by {
                        lemma_hit_ids_grow(m.rules, hits@, j as int);
                    }
                }
            } else {
                assert(hit_ids(m.rules, was) =~= hit_ids(m.rules, now)) by {
                    lemma_hit_ids_grow(m.rules, hits@, j as int);
                }
            }
            j = j + 1;
        }
        assert(hits@.take(j as int) =~= hits@);
        if matched {
            self.lines_since_header = 0;
        } else if self.lines_since_header < u32::MAX {
            self.lines_since_header = self.lines_since_header + 1;
        }
        let seen: u64 = self.signals.lines_seen.wrapping_add(1);
        self.signals = SessionSignals {
            prompts_done: self.signals.prompts_done,
            lines_seen: seen,
            access_code_seq: self.signals.access_code_seq,
        };
    }

    /// Notes the lines that came in, each with the rules whose header it is and
    /// with its timestamp, and returns their log.
    pub fn note_lines(
        &mut self,
        lines: &Vec<String>,
        hits: &Vec<Vec<bool>>,
        times: &Vec<u64>,
    ) -> (r: Vec<ReaderAction>)
        requires
            old(self).wf(),
            hits@.len() == lines@.len(),
            times@.len() == lines@.len(),
            forall|i: int| 0 <= i < hits@.len() ==> (#[trigger] hits@[i])@.len() == old(
                self,
            ).rules@.len(),
        ensures
            final(self).wf(),
            final(self)@ == after_lines(old(self)@, rows(hits@)),
            acts(r@) == logged(texts(lines@), times@),
    {
        let ghost m = self@;
        let mut r: Vec<ReaderAction> = Vec::new();
        let mut i: usize = 0;
        assert(rows(hits@).take(0) =~= seq![]);
        while i < lines.len()
            invariant
                self.wf(),
                hits@.len() == lines@.len(),
                times@.len() == lines@.len(),
                i <= lines@.len(),
                forall|k: int| 0 <= k < hits@.len() ==> (#[trigger] hits@[k])@.len()
                    == self.rules@.len(),
                self.rules@ == m.rules,
                self@ == after_lines(m, rows(hits@).take(i as int)),
                acts(r@) == logged(texts(lines@).take(i as int), times@),
            decreases lines@.len() - i,
        {
            let ghost next = rows(hits@).take(i + 1);
            assert(next.drop_last() =~= rows(hits@).take(i as int));
            assert(next.last() == hits@[i as int]@);
            self.note_line(&hits[i]);
            let ghost before = acts(r@);
            r.push(
                ReaderAction::Send(
                    PtySignal::Log(LogEvent { line: lines[i].clone(), timestamp: times[i] }),
                ),
            );
            assert(acts(r@) =~= before.push(Act::Log(lines@[i as int]@, times@[i as int])));
            assert(acts(r@) =~= logged(texts(lines@).take(i + 1), times@));
            i = i + 1;
        }
        assert(rows(hits@).take(i as int) =~= rows(hits@));
        assert(texts(lines@).take(i as int) =~= texts(lines@));
        r
    }

    /// The index of the first rule for the section `id`, or the number of rules.
    fn find_rule(&self, id: &String) -> (k: usize)
        ensures
            k == rule_for(self.rules@, id@),
            k <= self.rules@.len(),
    {
        let mut k: usize = 0;
        assert(self.rules@.skip(0) =~= self.rules@);
        while k < self.rules.len()
            invariant
                k <= self.rules@.len(),
                rule_for(self.rules@, id@) == k + rule_for(self.rules@.skip(k as int), id@),
            decreases self.rules@.len() - k,
        {
            assert(self.rules@.skip(k as int).drop_first() =~= self.rules@.skip(k + 1));
            if self.rules[k].id == *id {
                return k;
            }
            k = k + 1;
        }
        k
    }

    /// The rule that answers the prompt at the end of the output, where there
    /// is one that is to be answered now.
    fn due_answer(&self, partial: &str, partial_hit: bool) -> (r: Option<usize>)
        requires
            partial@ == stripped(self@.buf),
            !is_code_prompt(partial@),
        ensures
            r is Some <==> answers(self@, partial_hit),
            r matches Some(k) ==> k == rule_for(self.rules@, self@.section->0),
    {
        if self.lines_since_header <= HEADER_ARM_WINDOW && looks_like_choice_prompt(partial)
            && !partial_hit {
            if let Some(id) = &self.section {
                if !self.answered.contains(id) {
                    let k: usize = self.find_rule(id);
                    if k < self.rules.len() {
                        return Some(k);
                    }
                }
            }
        }
        None
    }

    /// Deals with the end of the output: reports a request for a one-time code
    /// when it appears, and answers a prompt that is to be answered now.
    /// `partial_hit` says whether the end of the output is itself the header of
    /// a rule.
    pub fn respond(&mut self, partial_hit: bool, now: u64) -> (r: Vec<ReaderAction>)
        requires
            old(self).wf(),
            old(self).signals.access_code_seq < u64::MAX,
        ensures
            final(self).wf(),
            final(self)@ == replied(old(self)@, partial_hit),
            acts(r@) == reply_acts(old(self)@, partial_hit, now),
    {
        let ghost m = self@;
        let mut r: Vec<ReaderAction> = Vec::new();
        let partial = self.partial();
        let code: bool = contains(partial.as_str(), ACCESS_CODE_PROMPT);
        if code {
            if !self.code_visible {
                let sequence: u64 = self.signals.access_code_seq + 1;
                self.signals = SessionSignals {
                    prompts_done: self.signals.prompts_done,
                    lines_seen: self.signals.lines_seen,
                    access_code_seq: sequence,
                };
                r.push(ReaderAction::Send(PtySignal::AccessCodeRequested { sequence }));
                r.push(
                    ReaderAction::Send(
                        PtySignal::Log(LogEvent { line: CODE_REQUIRED.to_owned(), timestamp: now }),
                    ),
                );
            }
            self.code_visible = true;
            assert(acts(r@) =~= reply_acts(m, partial_hit, now));
            assert(self@ =~= replied(m, partial_hit));
            return r;
        }
        self.code_visible = false;
        if let Some(k) = self.due_answer(partial.as_str(), partial_hit) {
            let id = self.rules[k].id.clone();
            proof {
                lemma_rule_for(self.rules@, m.section->0);
            }
            let typed = self.rules[k].answer.clone().concat("\r\n");
            let line = "[gui] answered ".to_owned().concat(id.as_str()).concat(
                " \u{2192} ",
            ).concat(self.rules[k].answer.as_str());
            r.push(ReaderAction::Type(typed));
            r.push(ReaderAction::Send(PtySignal::Log(LogEvent { line, timestamp: now })));
            self.answered.insert(id);
            if self.answered.len() == self.rules.len() {
                self.signals = SessionSignals {
                    prompts_done: true,
                    lines_seen: self.signals.lines_seen,
                    access_code_seq: self.signals.access_code_seq,
                };
            }
        }
        assert(acts(r@) =~= reply_acts(m, partial_hit, now));
        assert(self@ =~= replied(m, partial_hit));
        r
    }

    /// Notes that no more output will come, so that nothing waits for further
    /// prompts.
    pub fn on_eof(&mut self)
        requires
            old(self).wf(),
        ensures
            final(self).wf(),
            final(self)@ == ended(old(self)@),
    {
        self.signals = SessionSignals {
            prompts_done: true,
            lines_seen: self.signals.lines_seen,
            access_code_seq: self.signals.access_code_seq,
        };
    }

    /// For each rule, whether `line` is its header.
    fn hits_of(&self, line: &str) -> (hits: Vec<bool>)
        ensures
            hits@ == header_hits(self.rules@, line@),
    {
        let mut hits: Vec<bool> = Vec::new();
        let mut j: usize = 0;
        while j < self.rules.len()
            invariant
                j <= self.rules@.len(),
                hits@ == header_hits(self.rules@, line@).take(j as int),
            decreases self.rules@.len() - j,
        {
            hits.push(self.rules[j].header_matches(line));
            j = j + 1;
        }
        assert(hits@ =~= header_hits(self.rules@, line@));
        hits
    }

    /// Deals with the bytes of one read, by the headers of the rules: takes
    /// them in, notes the lines that they complete, and responds to the end of
    /// the output. The clock is read anew for each line, and once more for the
    /// response.
    pub fn on_chunk(&mut self, chunk: &[u8]) -> (r: Vec<ReaderAction>)
        requires
            old(self).wf(),
            old(self).signals.access_code_seq < u64::MAX,
        ensures
            final(self).wf(),
            final(self)@ == stepped(old(self)@, chunk@),
            exists|times: Seq<u64>, now: u64|
                acts(r@) == #[trigger] step_acts(old(self)@, chunk@, times, now) && are_readings(
                    times,
                ) && times.len() == new_lines(old(self)@, chunk@).len() && is_reading(now),
    {
        let ghost m = self@;
        let lines = self.receive(chunk);
        let mut hits: Vec<Vec<bool>> = Vec::new();
        let mut times: Vec<u64> = Vec::new();
        let mut i: usize = 0;
        while i < lines.len()
            invariant
                i <= lines@.len(),
                rows(hits@) == all_hits(self.rules@, texts(lines@)).take(i as int),
                times@.len() == i,
                are_readings(times@),
            decreases lines@.len() - i,
        {
            let ghost before = rows(hits@);
            hits.push(self.hits_of(lines[i].as_str()));
            times.push(now_millis());
            assert(rows(hits@) =~= before.push(header_hits(self.rules@, lines@[i as int]@)));
            assert(rows(hits@) =~= all_hits(self.rules@, texts(lines@)).take(i + 1));
            i = i + 1;
        }
        assert(rows(hits@) =~= all_hits(self.rules@, texts(lines@)));
        assert forall|k: int| 0 <= k < hits@.len() implies (#[trigger] hits@[k])@.len()
            == self.rules@.len() by {
            assert(rows(hits@)[k] == hits@[k]@);
        }
        assert(hits@.len() == rows(hits@).len());
        let mut r = self.note_lines(&lines, &hits, &times);
        let ghost first = acts(r@);
        proof {
            lemma_lines_keep(taken_in(m, chunk@), rows(hits@));
        }
        let partial_hits = self.hits_of(self.partial().as_str());
        let partial_hit: bool = any(&partial_hits);
        let now: u64 = now_millis();
        let mut rest = self.respond(partial_hit, now);
        let ghost second = acts(rest@);
        r.append(&mut rest);
        assert(acts(r@) =~= first + second);
        assert(acts(r@) == step_acts(m, chunk@, times@, now));
        assert(texts(lines@).len() == times@.len());
        r
    }
}

/// Whether some entry of `v` is true.
fn any(v: &Vec<bool>) -> (b: bool)
    ensures
        b == has_hit(v@),
{
    let mut j: usize = 0;
    while j < v.len()
        invariant
            j <= v@.len(),
            forall|k: int| 0 <= k < j ==> !v@[k],
        decreases v@.len() - j,
    {
        if v[j] {
            return true;
        }
        j = j + 1;
    }
    false
}

/// Whether some entry is true.
pub open spec fn has_hit(hits: Seq<bool>) -> bool {
    exists|j: int| 0 <= j < hits.len() && hits[j]
}

/// For each rule, whether `line` is its header.
pub open spec fn header_hits(rules: Seq<PromptRule>, line: Seq<char>) -> Seq<bool> {
    Seq::new(rules.len(), |j: int| rules[j].announces(line))
}

/// For each line, the rules whose header it is.
pub open spec fn all_hits(rules: Seq<PromptRule>, lines: Seq<Seq<char>>) -> Seq<Seq<bool>> {
    Seq::new(lines.len(), |i: int| header_hits(rules, lines[i]))
}

/// The state after the end of the output.
pub open spec fn ended(m: ReaderModel) -> ReaderModel {
    ReaderModel { signals: SessionSignals { prompts_done: true, ..m.signals }, ..m }
}

/// The lines that one more read completes.
pub open spec fn new_lines(m: ReaderModel, chunk: Seq<u8>) -> Seq<Seq<char>> {
    shown(lines_of(output(m, chunk)))
}

/// The state after the lines of one read have been noted.
pub open spec fn noted(m: ReaderModel, chunk: Seq<u8>) -> ReaderModel {
    after_lines(taken_in(m, chunk), all_hits(m.rules, new_lines(m, chunk)))
}

/// Whether the end of the output of `m` is itself a header.
pub open spec fn ends_in_header(m: ReaderModel) -> bool {
    has_hit(header_hits(m.rules, stripped(m.buf)))
}

/// The state after one read.
pub open spec fn stepped(m: ReaderModel, chunk: Seq<u8>) -> ReaderModel {
    let n = noted(m, chunk);
    replied(n, ends_in_header(n))
}

/// The actions for one read: the log of its lines, each with its timestamp in
/// `times`, then what the end of the output calls for, at the time `now`.
pub open spec fn step_acts(
    m: ReaderModel,
    chunk: Seq<u8>,
    times: Seq<u64>,
    now: u64,
) -> Seq<Act> {
    let n = noted(m, chunk);
    logged(new_lines(m, chunk), times) + reply_acts(n, ends_in_header(n), now)
}

/// Whether each of some timestamps is that of a clock reading.
pub open spec fn are_readings(times: Seq<u64>) -> bool {
    forall|i: int| 0 <= i < times.len() ==> is_reading(#[trigger] times[i])
}

/// Lines change neither the rules nor the output nor the requests for a code.
pub proof fn lemma_lines_keep(m: ReaderModel, hits: Seq<Seq<bool>>)
    ensures
        after_lines(m, hits).rules == m.rules,
        after_lines(m, hits).buf == m.buf,
        after_lines(m, hits).carry == m.carry,
        after_lines(m, hits).code_visible == m.code_visible,
        after_lines(m, hits).signals.access_code_seq == m.signals.access_code_seq,
        after_lines(m, hits).signals.prompts_done == m.signals.prompts_done,
    decreases hits.len(),
{
    if hits.len() > 0 {
        lemma_lines_keep(m, hits.drop_last());
    }
}

proof fn lemma_rule_for(rules: Seq<PromptRule>, id: Seq<char>)
    ensures
        rule_for(rules, id) <= rules.len(),
        rule_for(rules, id) < rules.len() ==> rules[rule_for(rules, id) as int].id@ == id,
    decreases rules.len(),
{
    if rules.len() > 0 && rules[0].id@ != id {
        lemma_rule_for(rules.drop_first(), id);
    }
}

proof fn lemma_hit_ids_grow(rules: Seq<PromptRule>, hits: Seq<bool>, j: int)
    requires
        0 <= j < hits.len(),
        hits.len() == rules.len(),
    ensures
        hits[j] ==> hit_ids(rules, hits.take(j + 1)) == hit_ids(rules, hits.take(j)).insert(
            rules[j].id@,
        ),
        !hits[j] ==> hit_ids(rules, hits.take(j + 1)) == hit_ids(rules, hits.take(j)),
{
    let now = hits.take(j + 1);
    let was = hits.take(j);
    assert forall|id: Seq<char>| hit_ids(rules, now).contains(id) <==> hit_ids(rules, was).contains(
        id,
    ) || (hits[j] && rules[j].id@ == id) by {
        if hit_ids(rules, now).contains(id) {
            let k = choose|k: int| 0 <= k < now.len() && now[k] && rules[k].id@ == id;
            if k < j {
                assert(was[k]);
            }
        }
        if hit_ids(rules, was).contains(id) {
            let k = choose|k: int| 0 <= k < was.len() && was[k] && rules[k].id@ == id;
            assert(now[k]);
        }
        if hits[j] && rules[j].id@ == id {
            assert(now[j]);
        }
    }
    if hits[j] {
        assert(hit_ids(rules, now) =~= hit_ids(rules, was).insert(rules[j].id@));
    } else {
        assert(hit_ids(rules, now) =~= hit_ids(rules, was));
    }
}

} // verus!
