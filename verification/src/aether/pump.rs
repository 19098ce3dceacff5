//! Gathering log lines into batches.

use crate::aether::pty::PtySignal;
use crate::aether::status::{LOG_BATCH_MAX, LOG_FLUSH_MS};
use crate::events::{AccessCodeEvent, LogBatch, LogEvent};
use vstd::prelude::*;

verus! {

/// What happens to the pump.
pub enum PumpEvent {
    /// The reader reports something.
    Signal(PtySignal),
    /// The time to gather lines is up.
    Timeout,
    /// The reader is gone.
    Disconnected,
}

/// What the pump wants done.
pub enum PumpAction {
    /// Hand on these lines.
    EmitBatch(LogBatch),
    /// Begin to gather lines anew: see [`LogPump::rearm`].
    Rearm,
    /// Hand on the request for a one-time code with this number: see
    /// [`access_code_event`].
    EmitAccessCode(u64),
    /// Stop.
    Stop,
}

/// The state of the pump.
pub struct LogPump {
    /// The lines that wait to be handed on.
    pub batch: Vec<LogEvent>,
    /// When they are to be handed on, in milliseconds of the same clock as the
    /// times that the pump is given.
    pub next_flush_ms: u64,
}

/// The lines that some actions hand on, in order.
pub open spec fn handed_on(actions: Seq<PumpAction>) -> Seq<LogEvent>
    decreases actions.len(),
{
    if actions.len() == 0 {
        seq![]
    } else {
        handed_on(actions.drop_last()) + match actions.last() {
            PumpAction::EmitBatch(b) => b.lines@,
            _ => seq![],
        }
    }
}

/// The line that an event brings, if it brings one.
pub open spec fn line_of(e: PumpEvent) -> Seq<LogEvent> {
    match e {
        PumpEvent::Signal(PtySignal::Log(line)) => seq![line],
        _ => seq![],
    }
}

/// Whether the lines that wait are handed on at the event `e`: when enough of
/// them wait, at a request for a one-time code, when the time is up, and at
/// the end.
pub open spec fn flushes(waiting: nat, e: PumpEvent) -> bool {
    match e {
        PumpEvent::Signal(PtySignal::Log(_)) => waiting + 1 >= LOG_BATCH_MAX,
        _ => true,
    }
}

/// What the actions for the event `e` are, with the lines `lines` waiting once
/// its own line is among them: if they are handed on, that comes first; then
/// the time to gather lines begins anew, except at the end; then comes what the
/// event itself asks for.
pub open spec fn right_actions(
    actions: Seq<PumpAction>,
    lines: Seq<LogEvent>,
    flush: bool,
    e: PumpEvent,
) -> bool {
    let n: int = if flush && lines.len() > 0 {
        1
    } else {
        0
    };
    &&& n == 1 ==> actions.len() > 0 && (actions[0] matches PumpAction::EmitBatch(b) && b.lines@
        == lines)
    &&& match e {
        PumpEvent::Signal(PtySignal::AccessCodeRequested { sequence }) => actions.len() == n + 2
            && actions[n] == PumpAction::Rearm && actions[n + 1] == PumpAction::EmitAccessCode(
            sequence,
        ),
        PumpEvent::Disconnected => actions.len() == n + 1 && actions[n] == PumpAction::Stop,
        _ => if flush {
            actions.len() == n + 1 && actions[n] == PumpAction::Rearm
        } else {
            actions.len() == 0
        },
    }
}

/// The event for the request with the given number, handed on at the time
/// `now`, in milliseconds since the Unix epoch.
pub fn access_code_event(sequence: u64, now: u64) -> (e: AccessCodeEvent)
    ensures
        e.sequence == sequence,
        e.requested_at_ms == now,
{
    AccessCodeEvent { sequence, requested_at_ms: now }
}

/// How long it is from `now_ms` until `due_ms`, which may have passed.
pub open spec fn time_until(due_ms: u64, now_ms: u64) -> u64 {
    if now_ms >= due_ms {
        0
    } else {
        (due_ms - now_ms) as u64
    }
}

impl LogPump {
    /// Fewer lines wait than make a full batch.
    pub open spec fn wf(&self) -> bool {
        self.batch@.len() < LOG_BATCH_MAX
    }

    /// A pump with no lines.
    pub fn new(now_ms: u64) -> (r: LogPump)
        requires
            now_ms + LOG_FLUSH_MS <= u64::MAX,
        ensures
            r.wf(),
            r.batch@.len() == 0,
            r.next_flush_ms == now_ms + LOG_FLUSH_MS,
    {
        LogPump { batch: Vec::new(), next_flush_ms: now_ms + LOG_FLUSH_MS }
    }

    /// How long to wait for the next event, in milliseconds.
    pub fn wait_ms(&self, now_ms: u64) -> (r: u64)
        ensures
            r == time_until(self.next_flush_ms, now_ms),
            r == (if now_ms >= self.next_flush_ms {
                0
            } else {
                self.next_flush_ms - now_ms
            }),
    {
        if now_ms >= self.next_flush_ms {
            0
        } else {
            self.next_flush_ms - now_ms
        }
    }

    /// Begins to gather lines anew at the time `now_ms`.
    pub fn rearm(&mut self, now_ms: u64)
        requires
            old(self).wf(),
            now_ms + LOG_FLUSH_MS <= u64::MAX,
        ensures
            final(self).wf(),
            final(self).batch@ == old(self).batch@,
            final(self).next_flush_ms == now_ms + LOG_FLUSH_MS,
    {
        self.next_flush_ms = now_ms + LOG_FLUSH_MS;
    }

    /// Deals with one event, and returns what is to be done, in order.
    pub fn on_event(&mut self, e: PumpEvent) -> (r: Vec<PumpAction>)
        requires
            old(self).wf(),
        ensures
            final(self).wf(),
            right_actions(
                r@,
                old(self).batch@ + line_of(e),
                flushes(old(self).batch@.len(), e),
                e,
            ),
            final(self).batch@ == (if flushes(old(self).batch@.len(), e) {
                seq![]
            } else {
                old(self).batch@ + line_of(e)
            }),
            final(self).next_flush_ms == old(self).next_flush_ms,
    {
        let ghost all = self.batch@ + line_of(e);
        assert(line_of(e).len() == 0 ==> all =~= self.batch@);
        let mut r: Vec<PumpAction> = Vec::new();
        match e {
            PumpEvent::Signal(PtySignal::Log(line)) => {
                self.batch.push(line);
                assert(self.batch@ =~= all);
                if self.batch.len() >= LOG_BATCH_MAX {
                    self.flush(&mut r);
                    r.push(PumpAction::Rearm);
                }
            },
            PumpEvent::Signal(PtySignal::AccessCodeRequested { sequence }) => {
                self.flush(&mut r);
                r.push(PumpAction::Rearm);
                r.push(PumpAction::EmitAccessCode(sequence));
            },
            PumpEvent::Timeout => {
                self.flush(&mut r);
                r.push(PumpAction::Rearm);
            },
            PumpEvent::Disconnected => {
                self.flush(&mut r);
                r.push(PumpAction::Stop);
            },
        }
        r
    }

    fn flush(&mut self, r: &mut Vec<PumpAction>)
        requires
            old(r)@.len() == 0,
        ensures
            final(self).batch@.len() == 0,
            final(self).next_flush_ms == old(self).next_flush_ms,
            final(r)@.len() == (if old(self).batch@.len() > 0 {
                1int
            } else {
                0
            }),
            old(self).batch@.len() > 0 ==> (final(r)@[0] matches PumpAction::EmitBatch(b)
                && b.lines@ == old(self).batch@),
    {
        if self.batch.len() > 0 {
            let mut lines: Vec<LogEvent> = Vec::new();
            lines.append(&mut self.batch);
            r.push(PumpAction::EmitBatch(LogBatch { lines }));
        }
    }
}

/// No line is lost, doubled or put out of order: what is handed on at an event,
/// followed by what still waits, is what waited before, followed by the line
/// that the event brings.
pub proof fn law_no_line_is_lost(
    before: Seq<LogEvent>,
    after: Seq<LogEvent>,
    actions: Seq<PumpAction>,
    e: PumpEvent,
)
    requires
        right_actions(actions, before + line_of(e), flushes(before.len(), e), e),
        after == (if flushes(before.len(), e) {
            seq![]
        } else {
            before + line_of(e)
        }),
    ensures
        handed_on(actions) + after == before + line_of(e),
{
    reveal_with_fuel(handed_on, 4);
    let all = before + line_of(e);
    if actions.len() == 1 {
        assert(actions.drop_last() =~= seq![]);
    } else if actions.len() == 2 {
        assert(actions.drop_last().drop_last() =~= seq![]);
    } else if actions.len() == 3 {
        assert(actions.drop_last().drop_last().drop_last() =~= seq![]);
    }
    assert(handed_on(actions) + after =~= all);
}

/// Whether `waiting` lists the lines that wait before each of some events, and
/// after the last, and `actions` the actions for each of them.
pub open spec fn is_history(
    waiting: Seq<Seq<LogEvent>>,
    events: Seq<PumpEvent>,
    actions: Seq<Seq<PumpAction>>,
) -> bool {
    &&& waiting.len() == events.len() + 1
    &&& actions.len() == events.len()
    &&& forall|i: int|
        #![trigger events[i]]
        0 <= i < events.len() ==> {
            let flush = flushes(waiting[i].len(), events[i]);
            &&& right_actions(
                actions[i],
                waiting[i] + line_of(events[i]),
                flush,
                events[i],
            )
            &&& waiting[i + 1] == (if flush {
                seq![]
            } else {
                waiting[i] + line_of(events[i])
            })
        }
}

/// The lines that some events bring, in order.
pub open spec fn lines_brought(events: Seq<PumpEvent>) -> Seq<LogEvent>
    decreases events.len(),
{
    if events.len() == 0 {
        seq![]
    } else {
        lines_brought(events.drop_last()) + line_of(events.last())
    }
}

/// The lines that the actions for some events hand on, in order.
pub open spec fn all_handed_on(actions: Seq<Seq<PumpAction>>) -> Seq<LogEvent>
    decreases actions.len(),
{
    if actions.len() == 0 {
        seq![]
    } else {
        all_handed_on(actions.drop_last()) + handed_on(actions.last())
    }
}

/// Over any number of events, what has been handed on, followed by what still
/// waits, is what waited at first, followed by every line that came; and when
/// the reader is gone, nothing waits any more.
pub proof fn law_the_log_is_complete(
    waiting: Seq<Seq<LogEvent>>,
    events: Seq<PumpEvent>,
    actions: Seq<Seq<PumpAction>>,
)
    requires
        is_history(waiting, events, actions),
    ensures
        all_handed_on(actions) + waiting.last() == waiting[0] + lines_brought(events),
        events.len() > 0 && events.last() is Disconnected ==> waiting.last().len() == 0,
    decreases events.len(),
{
    if events.len() == 0 {
        assert(all_handed_on(actions) + waiting.last() =~= waiting[0] + lines_brought(events));
    } else {
        let n = events.len() - 1;
        let w = waiting.drop_last();
        let es = events.drop_last();
        let acts = actions.drop_last();
        assert forall|i: int| #![trigger es[i]] 0 <= i < es.len() implies {
            let flush = flushes(w[i].len(), es[i]);
            &&& right_actions(acts[i], w[i] + line_of(es[i]), flush, es[i])
            &&& w[i + 1] == (if flush {
                seq![]
            } else {
                w[i] + line_of(es[i])
            })
        } by {
            assert(es[i] == events[i]);
        }
        law_the_log_is_complete(w, es, acts);
        let e = events[n];
        law_no_line_is_lost(waiting[n], waiting[n + 1], actions[n], e);
        let now = handed_on(actions[n]);
        assert(all_handed_on(actions) + waiting[n + 1] =~= all_handed_on(acts) + (now + waiting[n
            + 1]));
        assert(all_handed_on(acts) + (waiting[n] + line_of(e)) =~= (all_handed_on(acts)
            + waiting[n]) + line_of(e));
        assert(waiting[0] + lines_brought(events) =~= (waiting[0] + lines_brought(es)) + line_of(e));
    }
}

/// A request for a one-time code is never held back, and comes after every line
/// that was reported before it.
pub proof fn law_code_requests_come_last(
    before: Seq<LogEvent>,
    actions: Seq<PumpAction>,
    sequence: u64,
)
    requires
        right_actions(
            actions,
            before,
            flushes(
                before.len(),
                PumpEvent::Signal(PtySignal::AccessCodeRequested { sequence }),
            ),
            PumpEvent::Signal(PtySignal::AccessCodeRequested { sequence }),
        ),
    ensures
        actions.len() > 0,
        actions.last() == PumpAction::EmitAccessCode(sequence),
        handed_on(actions.drop_last()) == before,
{
    reveal_with_fuel(handed_on, 3);
    let t = actions.drop_last();
    if t.len() == 1 {
        assert(t.drop_last() =~= seq![]);
    } else {
        assert(t.drop_last().drop_last() =~= seq![]);
    }
    assert(handed_on(t) =~= before);
}

/// What each event leads to, for any lines that wait. A line is handed on with
/// those before it exactly when it is the 256th; a request for a code, a
/// timeout and the end hand on what waits, if anything does. After that the
/// time begins anew, except at the end, and a request for a code follows.
pub proof fn law_what_an_event_leads_to(
    before: Seq<LogEvent>,
    line: LogEvent,
    sequence: u64,
    actions: Seq<PumpAction>,
)
    ensures
        ({
            let log = PumpEvent::Signal(PtySignal::Log(line));
            let ask = PumpEvent::Signal(PtySignal::AccessCodeRequested { sequence });
            &&& line_of(log) == seq![line]
            &&& line_of(ask).len() == 0
            &&& line_of(PumpEvent::Timeout).len() == 0
            &&& line_of(PumpEvent::Disconnected).len() == 0
            &&& flushes(before.len(), log) <==> before.len() >= 255
            &&& flushes(before.len(), ask)
            &&& flushes(before.len(), PumpEvent::Timeout)
            &&& flushes(before.len(), PumpEvent::Disconnected)
            &&& right_actions(actions, before + seq![line], before.len() >= 255, log) <==> (
            if before.len() >= 255 {
                actions.len() == 2 && hands_on(actions[0], before + seq![line]) && actions[1]
                    is Rearm
            } else {
                actions.len() == 0
            })
            &&& before.len() == 0 ==> {
                &&& right_actions(actions, before, true, ask) <==> actions.len() == 2
                    && actions[0] is Rearm && actions[1] == PumpAction::EmitAccessCode(sequence)
                &&& right_actions(actions, before, true, PumpEvent::Timeout) <==> actions.len() == 1
                    && actions[0] is Rearm
                &&& right_actions(actions, before, true, PumpEvent::Disconnected) <==> actions.len()
                    == 1 && actions[0] is Stop
            }
            &&& before.len() > 0 ==> {
                &&& right_actions(actions, before, true, ask) <==> actions.len() == 3 && hands_on(
                    actions[0],
                    before,
                ) && actions[1] is Rearm && actions[2] == PumpAction::EmitAccessCode(sequence)
                &&& right_actions(actions, before, true, PumpEvent::Timeout) <==> actions.len() == 2
                    && hands_on(actions[0], before) && actions[1] is Rearm
                &&& right_actions(actions, before, true, PumpEvent::Disconnected) <==> actions.len()
                    == 2 && hands_on(actions[0], before) && actions[1] is Stop
            }
        }),
{
}

/// Whether an action hands on exactly these lines.
pub open spec fn hands_on(a: PumpAction, lines: Seq<LogEvent>) -> bool {
    a matches PumpAction::EmitBatch(b) && b.lines@ == lines
}

/// Waiting ends exactly when the time to gather lines is up, and never before.
pub proof fn law_waiting_ends_on_time(due_ms: u64, now_ms: u64)
    ensures
        now_ms <= due_ms ==> now_ms + time_until(due_ms, now_ms) == due_ms,
        now_ms > due_ms ==> time_until(due_ms, now_ms) == 0,
{
}

} // verus!
