//! What each step of the supervisor does, whatever state it finds.

use crate::aether::manager::{
    can_disconnect, can_start, disconnect_answer, disconnected, exit_next, failed, failure_outcome,
    initial, registered, retry_next, shut_down, start_answer, started, stop_next, stopped,
    with_state, AetherManager, DisconnectStep, ExitStep, FailureOutcome, ManagerModel, RetryStep,
    ShutdownStep,
};
use crate::aether::monitor::{
    announcement_noted, connect_polled, connect_probed, connect_result, connect_step,
    health_polled, health_probed, health_step, loss_step, lost, probe_counted, probe_planned,
    strikes_out, ConnectMonitor, ConnectResult, ConnectStep, HealthMonitor, HealthStep,
};
use crate::aether::pty::{ExitReport, PtySession};
use crate::aether::status::RetryPolicy;
use crate::error::AetherError;
use crate::state::StateView;
use crate::text::decimal;
use vstd::prelude::*;

verus! {

/// The supervisor starts with nothing: no session, no request to stop, and no
/// failure.
pub proof fn law_the_start_is_idle()
    ensures
        initial().session is None,
        initial().state is Idle,
        !initial().user_requested_stop,
        initial().retry_count == 0,
        initial().generation == 0,
{
}

/// A connection can be made exactly where there is none and where the last one
/// failed, and nowhere else; it then begins as a new lineage that is being
/// launched, with all its attempts, and the session that is held stays.
pub proof fn law_what_connecting_does(m: ManagerModel)
    ensures
        m.state is Idle ==> can_start(m),
        m.state is Error ==> can_start(m),
        m.state is Launching ==> !can_start(m),
        m.state is Connecting ==> !can_start(m),
        m.state is Connected ==> !can_start(m),
        m.state is Reconnecting ==> !can_start(m),
        m.state is Disconnecting ==> !can_start(m),
        started(m).state is Launching,
        started(m).session == m.session,
        !started(m).user_requested_stop,
        started(m).retry_count == 0,
        m.generation < u64::MAX ==> started(m).generation == m.generation + 1,
        m.generation == u64::MAX ==> started(m).generation == 0,
{
}

/// A session is registered for the current lineage in every state, and for no
/// other lineage; so is a state that a lineage reports.
pub proof fn law_only_the_current_lineage_registers(
    m: ManagerModel,
    generation: u64,
    s: PtySession,
    state: StateView,
)
    ensures
        m.generation == generation ==> registered(m, generation, s) == (ManagerModel {
            session: Some(s),
            state: m.state,
            user_requested_stop: false,
            retry_count: m.retry_count,
            generation,
        }),
        m.generation != generation ==> registered(m, generation, s) == m,
        m.generation == generation ==> with_state(m, generation, state) == (ManagerModel {
            session: m.session,
            state,
            user_requested_stop: m.user_requested_stop,
            retry_count: m.retry_count,
            generation,
        }),
        m.generation != generation ==> with_state(m, generation, state) == m,
{
}

/// An unexpected failure of the current lineage, in whatever state, is followed
/// by a new attempt after the next pause as long as attempts are left, and by
/// giving up exactly when none is. The session is gone either way.
pub proof fn law_a_failure_is_retried_while_attempts_are_left(
    m: ManagerModel,
    generation: u64,
    policy: RetryPolicy,
    message: Seq<char>,
    phase: Seq<char>,
)
    requires
        m.generation == generation,
        !m.user_requested_stop,
        m.retry_count < u32::MAX,
    ensures
        m.retry_count < policy.max_auto_retries ==> {
            &&& failure_outcome(m, generation, policy) == (FailureOutcome::Retry {
                attempt: (m.retry_count + 1) as u32,
                backoff_ms: policy.backoff_ms@[m.retry_count as int],
            })
            &&& failed(m, generation, policy.max_auto_retries, message, phase) == (ManagerModel {
                session: None,
                state: StateView::Reconnecting {
                    attempt: (m.retry_count + 1) as u32,
                    max_attempts: policy.max_auto_retries,
                },
                user_requested_stop: false,
                retry_count: (m.retry_count + 1) as u32,
                generation,
            })
        },
        m.retry_count >= policy.max_auto_retries ==> {
            &&& failure_outcome(m, generation, policy) == FailureOutcome::GaveUp
            &&& failed(m, generation, policy.max_auto_retries, message, phase) == (ManagerModel {
                session: None,
                state: StateView::Error {
                    message: message + " (gave up after "@ + decimal(
                        policy.max_auto_retries as nat,
                    ) + " retries)"@,
                    phase,
                },
                user_requested_stop: false,
                retry_count: (m.retry_count + 1) as u32,
                generation,
            })
        },
{
}

/// A failure of any other lineage, or of a session that is being stopped, is
/// passed over.
pub proof fn law_other_failures_are_passed_over(
    m: ManagerModel,
    generation: u64,
    policy: RetryPolicy,
    message: Seq<char>,
    phase: Seq<char>,
)
    requires
        m.generation != generation || m.user_requested_stop,
    ensures
        failure_outcome(m, generation, policy) == FailureOutcome::Ignored,
        failed(m, generation, policy.max_auto_retries, message, phase) == m,
{
}

/// A pause before a new attempt goes on in slices of 150 milliseconds while it
/// is wanted, is given up after the first slice in which it is not, and ends in
/// the attempt when its time is up, in whatever state.
pub proof fn law_a_pause_ends_in_an_attempt(m: ManagerModel, generation: u64, slept: bool)
    ensures
        m.generation == generation && !m.user_requested_stop ==> {
            &&& retry_next(m, generation, slept, false) == RetryStep::Sleep(150)
            &&& retry_next(m, generation, slept, true) == RetryStep::Launch
        },
        m.generation != generation || m.user_requested_stop ==> {
            &&& retry_next(m, generation, true, false) == RetryStep::Abandon
            &&& retry_next(m, generation, true, true) == RetryStep::Abandon
        },
        retry_next(m, generation, false, false) == RetryStep::Sleep(150),
        m.generation == generation ==> retry_next(m, generation, false, true) == RetryStep::Launch,
        m.generation != generation ==> retry_next(m, generation, false, true)
            == RetryStep::Abandon,
{
}

/// Whatever the state of the connection, a session that is held can be
/// disconnected, and so can a pause without one; nothing else can. A session is
/// then being stopped under a new generation; a pause is over at once.
pub proof fn law_whatever_is_held_can_be_disconnected(m: ManagerModel)
    ensures
        m.session is Some ==> can_disconnect(m),
        m.state is Reconnecting ==> can_disconnect(m),
        m.session is None && !(m.state is Reconnecting) ==> !can_disconnect(m),
        m.session is Some ==> disconnected(m) == (ManagerModel {
            session: m.session,
            state: StateView::Disconnecting,
            user_requested_stop: true,
            retry_count: 0,
            generation: disconnected(m).generation,
        }),
        m.session is None ==> disconnected(m) == (ManagerModel {
            session: None,
            state: StateView::Idle,
            user_requested_stop: false,
            retry_count: 0,
            generation: disconnected(m).generation,
        }),
        m.generation < u64::MAX ==> disconnected(m).generation == m.generation + 1,
        m.generation == u64::MAX ==> disconnected(m).generation == 0,
{
}

/// A session that is being stopped is waited for until it has ended or its time
/// is up; then it is given up in whatever state, killed if it still runs, and a
/// connection can be made again. Under another generation nothing is done.
pub proof fn law_stopping_waits_and_ends_idle(
    m: ManagerModel,
    generation: u64,
    exited: bool,
    time_is_up: bool,
)
    ensures
        m.generation != generation ==> stop_next(m, generation, exited, time_is_up)
            == ShutdownStep::Superseded,
        m.generation == generation && !exited && !time_is_up ==> stop_next(
            m,
            generation,
            exited,
            time_is_up,
        ) == ShutdownStep::Wait,
        m.generation == generation && exited ==> stop_next(m, generation, exited, time_is_up) == (
        ShutdownStep::Finished { kill: false }),
        m.generation == generation && !exited && time_is_up ==> stop_next(
            m,
            generation,
            exited,
            time_is_up,
        ) == (ShutdownStep::Finished { kill: m.session is Some }),
        stopped(m) == (ManagerModel {
            session: None,
            state: StateView::Idle,
            user_requested_stop: false,
            retry_count: m.retry_count,
            generation: m.generation,
        }),
        can_start(stopped(m)),
{
}

/// A program that exits gives its session up under a new generation, looks
/// every 25 milliseconds whether it has ended, and kills it once it has or its
/// time is up.
pub proof fn law_exiting_gives_the_session_up(m: ManagerModel)
    ensures
        shut_down(m).session is None,
        shut_down(m).state == m.state,
        m.generation < u64::MAX ==> shut_down(m).generation == m.generation + 1,
        m.generation == u64::MAX ==> shut_down(m).generation == 0,
        exit_next(false, false) == ExitStep::Sleep(25),
        exit_next(true, false) == ExitStep::Kill,
        exit_next(false, true) == ExitStep::Kill,
        exit_next(true, true) == ExitStep::Kill,
{
}

/// A live port is a connection, whatever state was announced before and however
/// much time has passed: the state becomes connected, with exactly the given
/// address and time, and all attempts are there again.
pub proof fn law_a_live_port_is_a_connection(
    m: ManagerModel,
    w: ConnectMonitor,
    elapsed_ms: u64,
    addr: Seq<char>,
    now: u64,
    policy: RetryPolicy,
)
    requires
        m.generation == w.generation,
        !m.user_requested_stop,
    ensures
        connect_result(m, w, true, elapsed_ms, policy) == ConnectResult::Connected,
        connect_probed(m, w, true, elapsed_ms, addr, now, policy.max_auto_retries) == (
        ManagerModel {
            session: m.session,
            state: StateView::Connected { socks_addr: addr, connected_at_ms: now },
            user_requested_stop: false,
            retry_count: 0,
            generation: m.generation,
        }),
{
}

/// A port that is not live is waited for until the time for the connection is
/// up; then, in whatever state, the session is given up and the attempt has
/// failed.
pub proof fn law_a_dead_port_is_waited_for(
    m: ManagerModel,
    w: ConnectMonitor,
    elapsed_ms: u64,
    addr: Seq<char>,
    now: u64,
    policy: RetryPolicy,
)
    ensures
        elapsed_ms < w.timeout_ms ==> {
            &&& connect_result(m, w, false, elapsed_ms, policy) == ConnectResult::Again
            &&& connect_probed(m, w, false, elapsed_ms, addr, now, policy.max_auto_retries) == m
        },
        elapsed_ms >= w.timeout_ms && m.generation == w.generation && !m.user_requested_stop ==> {
            let gone = ManagerModel { session: None, ..m };
            &&& connect_result(m, w, false, elapsed_ms, policy) == (ConnectResult::TimedOut {
                kill: m.session is Some,
                outcome: failure_outcome(gone, m.generation, policy),
            })
            &&& connect_probed(m, w, false, elapsed_ms, addr, now, policy.max_auto_retries)
                == failed(
                gone,
                m.generation,
                policy.max_auto_retries,
                "Timed out waiting for Aether to find a working route"@,
                "connecting"@,
            )
        },
{
}

/// The first half of a round before the connection is up: a session that has
/// ended has failed, in whatever state and at whatever time, and the reason
/// says how it ended; one that runs is probed, and is announced to look for a
/// route once, as soon as its prompts are done or 2000 milliseconds have
/// passed.
pub proof fn law_a_launched_session_is_watched(
    m: ManagerModel,
    w: ConnectMonitor,
    exit: ExitReport,
    prompts_done: bool,
    elapsed_ms: u64,
    policy: RetryPolicy,
)
    requires
        m.generation == w.generation,
        !m.user_requested_stop,
    ensures
        ({
            let gone = ManagerModel { session: None, ..m };
            let max = policy.max_auto_retries;
            let due = !w.announced && (prompts_done || elapsed_ms >= 2000);
            &&& connect_step(m, w, Some(exit), prompts_done, elapsed_ms, policy)
                == ConnectStep::Failed(failure_outcome(gone, m.generation, policy))
            &&& connect_polled(m, w, Some(exit), prompts_done, elapsed_ms, max) == failed(
                gone,
                m.generation,
                max,
                "Aether exited before connecting ("@ + exit.text() + ")"@,
                "connecting"@,
            )
            &&& connect_step(m, w, None, prompts_done, elapsed_ms, policy) == (ConnectStep::Probe {
                announce: due,
            })
            &&& connect_polled(m, w, None, prompts_done, elapsed_ms, max) == (ManagerModel {
                state: if due {
                    StateView::Connecting
                } else {
                    m.state
                },
                ..m
            })
        }),
{
}

/// A watcher whose lineage may not act any more stops at its next look, and
/// changes nothing.
pub proof fn law_a_stale_watcher_stops(
    m: ManagerModel,
    w: ConnectMonitor,
    h: HealthMonitor,
    exit: Option<ExitReport>,
    done: bool,
    t: u64,
    addr: Seq<char>,
    now: u64,
    policy: RetryPolicy,
)
    requires
        (m.generation != w.generation && m.generation != h.generation) || m.user_requested_stop,
    ensures
        connect_step(m, w, exit, done, t, policy) == ConnectStep::Stop,
        connect_polled(m, w, exit, done, t, policy.max_auto_retries) == m,
        connect_result(m, w, true, t, policy) == ConnectResult::Stop,
        connect_probed(m, w, true, t, addr, now, policy.max_auto_retries) == m,
        t >= w.timeout_ms ==> connect_result(m, w, false, t, policy) == ConnectResult::Stop,
        connect_probed(m, w, false, t, addr, now, policy.max_auto_retries) == m,
        health_step(m, h, exit, t, policy) == HealthStep::Stop,
        health_polled(m, h, exit, policy.max_auto_retries) == m,
        loss_step(m, h.generation, policy) == HealthStep::Stop,
        health_probed(m, h, false, policy.max_auto_retries) == m,
{
}

/// A connection, in whatever state it is, is lost when its session ends, with
/// the reason how; otherwise its port is probed when the time for that has come
/// and not before.
pub proof fn law_a_connection_is_watched(
    m: ManagerModel,
    w: HealthMonitor,
    exit: ExitReport,
    now_ms: u64,
    policy: RetryPolicy,
)
    requires
        m.generation == w.generation,
        !m.user_requested_stop,
    ensures
        ({
            let gone = ManagerModel { session: None, ..m };
            let max = policy.max_auto_retries;
            &&& health_step(m, w, Some(exit), now_ms, policy) == (HealthStep::Lost {
                kill: m.session is Some,
                outcome: failure_outcome(gone, m.generation, policy),
            })
            &&& health_polled(m, w, Some(exit), max) == failed(
                gone,
                m.generation,
                max,
                "Lost connection unexpectedly ("@ + exit.text() + ")"@,
                "connected"@,
            )
            &&& now_ms >= w.next_health_ms ==> health_step(m, w, None, now_ms, policy)
                == HealthStep::Probe
            &&& now_ms < w.next_health_ms ==> health_step(m, w, None, now_ms, policy)
                == HealthStep::Again
            &&& health_polled(m, w, None, max) == m
        }),
{
}

/// A port that answers clears the count of failures and changes nothing else;
/// the first failure in a row is counted and changes nothing else; the second
/// loses the connection, in whatever state, because the proxy is silent.
pub proof fn law_two_silent_probes_lose_a_connection(
    m: ManagerModel,
    w: HealthMonitor,
    policy: RetryPolicy,
)
    requires
        m.generation == w.generation,
        !m.user_requested_stop,
    ensures
        ({
            let gone = ManagerModel { session: None, ..m };
            let max = policy.max_auto_retries;
            &&& !strikes_out(w, true)
            &&& probe_counted(w, true) == (HealthMonitor { strikes: 0, ..w })
            &&& health_probed(m, w, true, max) == m
            &&& w.strikes == 0 ==> !strikes_out(w, false) && probe_counted(w, false) == (
            HealthMonitor { strikes: 1, ..w }) && health_probed(m, w, false, max) == m
            &&& w.strikes == 1 ==> {
                &&& strikes_out(w, false)
                &&& loss_step(m, m.generation, policy) == (HealthStep::Lost {
                    kill: m.session is Some,
                    outcome: failure_outcome(gone, m.generation, policy),
                })
                &&& health_probed(m, w, false, max) == failed(
                    gone,
                    m.generation,
                    max,
                    "SOCKS5 proxy stopped responding"@,
                    "connected"@,
                )
            }
        }),
{
}

/// A connection that is lost for any reason is reconnected as long as attempts
/// are left, and given up otherwise.
pub proof fn law_a_lost_connection_is_reconnected(
    m: ManagerModel,
    policy: RetryPolicy,
    reason: Seq<char>,
)
    requires
        !m.user_requested_stop,
        m.retry_count < u32::MAX,
    ensures
        m.retry_count < policy.max_auto_retries ==> {
            &&& loss_step(m, m.generation, policy) == (HealthStep::Lost {
                kill: m.session is Some,
                outcome: FailureOutcome::Retry {
                    attempt: (m.retry_count + 1) as u32,
                    backoff_ms: policy.backoff_ms@[m.retry_count as int],
                },
            })
            &&& lost(m, m.generation, policy.max_auto_retries, reason).state == (
            StateView::Reconnecting {
                attempt: (m.retry_count + 1) as u32,
                max_attempts: policy.max_auto_retries,
            })
        },
        m.retry_count >= policy.max_auto_retries ==> {
            &&& loss_step(m, m.generation, policy) == (HealthStep::Lost {
                kill: m.session is Some,
                outcome: FailureOutcome::GaveUp,
            })
            &&& lost(m, m.generation, policy.max_auto_retries, reason).state is Error
        },
        lost(m, m.generation, policy.max_auto_retries, reason).session is None,
{
}

/// The supervisor is seen with all that it holds.
pub proof fn law_the_supervisor_is_seen_whole(m: AetherManager)
    ensures
        m@.session == m.session,
        m@.state == m.state@,
        m@.user_requested_stop == m.user_requested_stop,
        m@.retry_count == m.retry_count,
        m@.generation == m.generation,
{
}

/// What requests are answered, whatever state they find. To connect: that the
/// port is in use, whenever it is; else the number of the new lineage where
/// there is no connection or the last one failed, and that one is there already
/// in any other state. To disconnect: the number under which the session is
/// stopped, whenever one is held; that a pause is cut short, where there is one
/// without a session; and that there is nothing to disconnect otherwise.
pub proof fn law_what_requests_are_answered(m: ManagerModel, port: u16)
    ensures
        start_answer(m, Some(port)) == Err::<u64, AetherError>(AetherError::PortInUse(port)),
        m.state is Idle || m.state is Error ==> (start_answer(m, None) matches Ok(g) && (
        m.generation < u64::MAX ==> g == m.generation + 1)),
        !(m.state is Idle) && !(m.state is Error) ==> start_answer(m, None) == Err::<
            u64,
            AetherError,
        >(AetherError::AlreadyRunning),
        m.session is Some ==> (disconnect_answer(m) matches Ok(DisconnectStep::Stopping {
            generation,
        }) && (m.generation < u64::MAX ==> generation == m.generation + 1)),
        m.session is None && m.state is Reconnecting ==> disconnect_answer(m) == Ok::<
            DisconnectStep,
            AetherError,
        >(DisconnectStep::Cancelled),
        m.session is None && !(m.state is Reconnecting) ==> disconnect_answer(m) == Err::<
            DisconnectStep,
            AetherError,
        >(AetherError::NotConnected),
{
}

/// What the watchers remember: that the search for a route was announced, once
/// it was; and that the next probe is due 5000 milliseconds after one begins.
pub proof fn law_what_watchers_remember(
    w: ConnectMonitor,
    h: HealthMonitor,
    o: FailureOutcome,
    probe_ms: u64,
)
    requires
        probe_ms + 5000 <= u64::MAX,
    ensures
        announcement_noted(w, ConnectStep::Probe { announce: true }) == (ConnectMonitor {
            announced: true,
            ..w
        }),
        announcement_noted(w, ConnectStep::Probe { announce: false }) == w,
        announcement_noted(w, ConnectStep::Stop) == w,
        announcement_noted(w, ConnectStep::Failed(o)) == w,
        probe_planned(h, HealthStep::Probe, probe_ms) == (HealthMonitor {
            next_health_ms: (probe_ms + 5000) as u64,
            ..h
        }),
        probe_planned(h, HealthStep::Again, probe_ms) == h,
        probe_planned(h, HealthStep::Stop, probe_ms) == h,
{
}

} // verus!
