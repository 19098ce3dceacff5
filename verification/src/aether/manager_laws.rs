//! What holds of the supervisor over one or several steps.

use crate::aether::manager::{
    can_disconnect, can_start, disconnected, failed, failure_outcome, initial, may_act, registered,
    retry_next, shut_down, started, stopped, with_state, FailureOutcome, ManagerModel,
};
use crate::aether::monitor::{
    connect_polled, connect_probed, connect_step, connected, health_polled, health_probed, lost,
    probe_counted, strikes_out, ConnectMonitor, ConnectStep, HealthMonitor,
};
use crate::aether::pty::{ExitReport, PtySession};
use crate::aether::status::{RetryPolicy, PROMPT_PHASE_GRACE_MS};
use crate::state::StateView;
use vstd::prelude::*;

verus! {

/// Once its generation is not the current one, whatever runs for a lineage
/// changes nothing: it reports no state, registers no session, counts no
/// failure, makes no attempt, and its watchers leave everything as it is.
pub proof fn law_a_superseded_lineage_is_inert(
    m: ManagerModel,
    generation: u64,
    s: StateView,
    session: PtySession,
    max: u32,
    message: Seq<char>,
    phase: Seq<char>,
)
    requires
        m.generation != generation,
    ensures
        with_state(m, generation, s) == m,
        registered(m, generation, session) == m,
        failed(m, generation, max, message, phase) == m,
        lost(m, generation, max, message) == m,
        forall|slept: bool, time_is_up: bool|
            !(#[trigger] retry_next(m, generation, slept, time_is_up) is Launch),
        forall|policy: RetryPolicy| #[trigger]
            failure_outcome(m, generation, policy) == FailureOutcome::Ignored,
        forall|w: ConnectMonitor, exit: Option<ExitReport>, done: bool, t: u64|
            w.generation == generation ==> #[trigger] connect_polled(m, w, exit, done, t, max) == m,
        forall|w: ConnectMonitor, live: bool, t: u64, addr: Seq<char>, now: u64|
            w.generation == generation ==> #[trigger] connect_probed(m, w, live, t, addr, now, max)
                == m,
        forall|w: HealthMonitor, exit: Option<ExitReport>|
            w.generation == generation ==> #[trigger] health_polled(m, w, exit, max) == m,
        forall|w: HealthMonitor, live: bool|
            w.generation == generation ==> #[trigger] health_probed(m, w, live, max) == m,
{
}

/// Once the user has asked for a session to stop, its watchers change nothing
/// either, and no failure of it is followed by a new attempt.
pub proof fn law_a_stopping_session_is_left_alone(
    m: ManagerModel,
    generation: u64,
    max: u32,
    message: Seq<char>,
    phase: Seq<char>,
)
    requires
        m.user_requested_stop,
    ensures
        failed(m, generation, max, message, phase) == m,
        lost(m, generation, max, message) == m,
        !(retry_next(m, generation, true, true) is Launch),
        forall|w: ConnectMonitor, exit: Option<ExitReport>, done: bool, t: u64| #[trigger]
            connect_polled(m, w, exit, done, t, max) == m,
        forall|w: ConnectMonitor, live: bool, t: u64, addr: Seq<char>, now: u64| #[trigger]
            connect_probed(m, w, live, t, addr, now, max) == m,
        forall|w: HealthMonitor, exit: Option<ExitReport>| #[trigger]
            health_polled(m, w, exit, max) == m,
        forall|w: HealthMonitor, live: bool| #[trigger] health_probed(m, w, live, max) == m,
{
}

/// Starting, disconnecting and exiting each supersede the lineage that was
/// current before.
pub proof fn law_requests_supersede(m: ManagerModel)
    ensures
        started(m).generation != m.generation,
        disconnected(m).generation != m.generation,
        shut_down(m).generation != m.generation,
{
}

/// Disconnecting and connecting again cannot lead to two sessions: the attempt
/// that the first lineage was about to make is not made, and a session that it
/// started in the meantime is not registered.
pub proof fn law_reconnecting_starts_one_session(
    m: ManagerModel,
    session: PtySession,
    slept: bool,
    time_is_up: bool,
)
    requires
        can_disconnect(m),
    ensures
        ({
            let idle = if m.session is Some {
                stopped(disconnected(m))
            } else {
                disconnected(m)
            };
            let again = started(idle);
            &&& idle.session is None
            &&& can_start(idle)
            &&& !(retry_next(disconnected(m), m.generation, slept, time_is_up) is Launch)
            &&& !(retry_next(again, m.generation, slept, time_is_up) is Launch)
            &&& registered(again, m.generation, session) == again
        }),
{
}

/// While a connection is there or being made, another one is refused: what has
/// been started cannot be started again.
pub proof fn law_a_second_start_is_refused(m: ManagerModel)
    ensures
        !can_start(started(m)),
{
}

/// A request to disconnect always leads back to where a connection can be
/// made, with no session, and with the request itself forgotten.
pub proof fn law_disconnecting_ends_idle(m: ManagerModel)
    requires
        can_disconnect(m),
    ensures
        m.session is None ==> disconnected(m).state is Idle && !disconnected(
            m,
        ).user_requested_stop && disconnected(m).session is None,
        m.session is Some ==> disconnected(m).state is Disconnecting && stopped(
            disconnected(m),
        ).state is Idle && !stopped(disconnected(m)).user_requested_stop && stopped(
            disconnected(m),
        ).session is None,
        disconnected(m).retry_count == 0,
{
}

/// The state after a lineage has made a new attempt and started a session.
pub open spec fn relaunched(m: ManagerModel, generation: u64, s: PtySession) -> ManagerModel {
    registered(with_state(m, generation, StateView::Launching), generation, s)
}

/// The state after `n` failures in a row, with a new attempt before each of
/// them.
pub open spec fn failed_times(
    m: ManagerModel,
    generation: u64,
    s: PtySession,
    max: u32,
    message: Seq<char>,
    phase: Seq<char>,
    n: nat,
) -> ManagerModel
    decreases n,
{
    if n == 0 {
        m
    } else {
        failed(
            relaunched(
                failed_times(m, generation, s, max, message, phase, (n - 1) as nat),
                generation,
                s,
            ),
            generation,
            max,
            message,
            phase,
        )
    }
}

/// A lineage that keeps failing tries again exactly as often as allowed, each
/// time announcing which attempt it is, and then gives up.
pub proof fn law_retries_are_bounded(
    m: ManagerModel,
    generation: u64,
    s: PtySession,
    max: u32,
    message: Seq<char>,
    phase: Seq<char>,
    n: nat,
)
    requires
        may_act(m, generation),
        m.retry_count == 0,
        max < u32::MAX,
        1 <= n <= max + 1,
    ensures
        n <= max ==> failed_times(m, generation, s, max, message, phase, n).state
            == (StateView::Reconnecting { attempt: n as u32, max_attempts: max }),
        n == max + 1 ==> failed_times(m, generation, s, max, message, phase, n).state is Error,
        failed_times(m, generation, s, max, message, phase, n).session is None,
        failed_times(m, generation, s, max, message, phase, n).generation == generation,
        failed_times(m, generation, s, max, message, phase, n).retry_count == n,
    decreases n,
{
    let k = (n - 1) as nat;
    if k > 0 {
        law_retries_are_bounded(m, generation, s, max, message, phase, k);
    }
    let before = failed_times(m, generation, s, max, message, phase, k);
    assert(before.generation == generation);
    assert(may_act(relaunched(before, generation, s), generation));
}

/// Reaching a connection gives a lineage all its attempts back.
pub proof fn law_success_resets_the_retries(m: ManagerModel, addr: Seq<char>, now: u64)
    ensures
        connected(m, addr, now).retry_count == 0,
        started(m).retry_count == 0,
{
}

/// A session that lives past the time for prompts is announced to look for a
/// route, also if it never asks anything.
pub proof fn law_connecting_is_announced(
    m: ManagerModel,
    w: ConnectMonitor,
    prompts_done: bool,
    elapsed_ms: u64,
    policy: RetryPolicy,
)
    requires
        may_act(m, w.generation),
        !w.announced,
        prompts_done || elapsed_ms >= PROMPT_PHASE_GRACE_MS,
    ensures
        connect_step(m, w, None, prompts_done, elapsed_ms, policy) == (ConnectStep::Probe {
            announce: true,
        }),
        connect_polled(
            m,
            w,
            None,
            prompts_done,
            elapsed_ms,
            policy.max_auto_retries,
        ).state is Connecting,
{
}

/// One probe that fails does not lose a connection, and a probe that succeeds
/// forgives those before it; two failures in a row lose it.
pub proof fn law_two_strikes_lose_a_connection(m: ManagerModel, w: HealthMonitor, max: u32)
    requires
        w.wf(),
    ensures
        w.strikes == 0 ==> health_probed(m, w, false, max) == m,
        health_probed(m, probe_counted(w, true), false, max) == m,
        w.strikes == 0 ==> strikes_out(probe_counted(w, false), false),
        may_act(m, w.generation) && w.strikes == 0 ==> !(health_probed(
            m,
            probe_counted(w, false),
            false,
            max,
        ).state is Connected) && health_probed(m, probe_counted(w, false), false, max).session
            is None,
{
}

/// Whether a session is held only in states in which one can run.
pub open spec fn session_fits(m: ManagerModel) -> bool {
    m.state is Idle || m.state is Error || m.state is Reconnecting ==> m.session is None
}

/// No session is held, and so none can be lost unnoticed, where a connection
/// can be made: every step keeps it so. A session is registered while its
/// lineage is being launched, and an attempt to start one fails while there is
/// none.
pub proof fn law_no_session_is_forgotten(
    m: ManagerModel,
    generation: u64,
    s: PtySession,
    max: u32,
    message: Seq<char>,
    phase: Seq<char>,
)
    requires
        session_fits(m),
    ensures
        session_fits(initial()),
        can_start(m) ==> m.session is None && session_fits(started(m)),
        m.state is Launching ==> session_fits(registered(m, generation, s)),
        m.session is None ==> session_fits(
            with_state(m, generation, StateView::Error { message, phase }),
        ),
        session_fits(with_state(m, generation, StateView::Launching)),
        session_fits(failed(m, generation, max, message, phase)),
        session_fits(lost(m, generation, max, message)),
        can_disconnect(m) ==> session_fits(disconnected(m)),
        session_fits(stopped(m)),
        session_fits(shut_down(m)),
        forall|w: ConnectMonitor, exit: Option<ExitReport>, done: bool, t: u64|
            session_fits(#[trigger] connect_polled(m, w, exit, done, t, max)),
        forall|w: ConnectMonitor, live: bool, t: u64, addr: Seq<char>, now: u64|
            session_fits(#[trigger] connect_probed(m, w, live, t, addr, now, max)),
        forall|w: HealthMonitor, exit: Option<ExitReport>|
            session_fits(#[trigger] health_polled(m, w, exit, max)),
        forall|w: HealthMonitor, live: bool|
            session_fits(#[trigger] health_probed(m, w, live, max)),
{
}

} // verus!
