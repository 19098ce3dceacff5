//! How requests and what runs in the background interleave.
//!
//! Each lineage has at most one activity at a time: it starts a session,
//! watches it, or waits to try again; or it stops a session for a request to
//! disconnect. Any activity may take its next step at any time, also after its
//! lineage has been superseded.

use crate::aether::manager::{
    can_disconnect, can_start, disconnected, initial, registered, retry_next, shut_down, started,
    stopped, with_state, FailureOutcome, ManagerModel, RetryStep,
};
use crate::aether::manager_laws::session_fits;
use crate::aether::monitor::{
    connect_polled, connect_probed, connect_result, connect_step, health_polled, health_probed,
    health_step, loss_step, strikes_out, ConnectMonitor, ConnectResult, ConnectStep, HealthMonitor,
    HealthStep,
};
use crate::aether::pty::{ExitReport, PtySession};
use crate::aether::status::RetryPolicy;
use crate::state::StateView;
use vstd::prelude::*;

verus! {

/// What is being done for a lineage.
pub enum Activity {
    /// A session is being started.
    Starting,
    /// The session is being watched.
    Watching,
    /// The pause before a new attempt.
    Pausing,
    /// The session is being stopped.
    Stopping,
}

/// The supervisor with everything that runs in the background.
pub struct World {
    pub m: ManagerModel,
    /// What is being done under each generation.
    pub activities: Map<u64, Activity>,
    /// How many processes have been started.
    pub begun: nat,
    /// How many processes have ended, on their own or killed.
    pub ended: nat,
}

/// One step of the supervisor.
pub enum Event {
    /// The user connects.
    Connect,
    /// A session could not be started under `generation`.
    NotStarted { generation: u64, message: Seq<char> },
    /// A session was started under `generation`.
    Started { generation: u64, session: PtySession },
    /// The first half of a round before the connection is up.
    ConnectPoll {
        watcher: ConnectMonitor,
        exit: Option<ExitReport>,
        prompts_done: bool,
        elapsed_ms: u64,
        policy: RetryPolicy,
    },
    /// The second half of a round before the connection is up.
    ConnectProbe {
        watcher: ConnectMonitor,
        live: bool,
        elapsed_ms: u64,
        addr: Seq<char>,
        now: u64,
        policy: RetryPolicy,
    },
    /// The first half of a round of watching a connection.
    HealthPoll { by: HealthMonitor, exit: Option<ExitReport>, now_ms: u64, policy: RetryPolicy },
    /// The second half of a round of watching a connection.
    HealthProbe { by: HealthMonitor, live: bool, policy: RetryPolicy },
    /// A step of the pause before a new attempt.
    Pause { generation: u64, slept: bool, time_is_up: bool },
    /// The user disconnects.
    Disconnect,
    /// A step of stopping a session.
    Stop { generation: u64, exited: bool, time_is_up: bool },
    /// The program exits.
    Exit,
}

/// The world at the start of the program.
pub open spec fn first_world() -> World {
    World { m: initial(), activities: Map::empty(), begun: 0, ended: 0 }
}

/// Whether `a` is being done under `generation`.
pub open spec fn doing(w: World, generation: u64, a: Activity) -> bool {
    w.activities.contains_key(generation) && w.activities[generation] == a
}

/// Whether nothing runs any more under the generation after the current one.
/// Generations come round again only after every other number.
pub open spec fn next_is_free(w: World) -> bool {
    !w.activities.contains_key(w.m.generation.wrapping_add(1))
}

/// Whether an event can happen. A process is polled only as the session that
/// is held.
pub open spec fn can_happen(w: World, e: Event) -> bool {
    match e {
        Event::Connect => can_start(w.m) && next_is_free(w),
        Event::NotStarted { generation, .. } => doing(w, generation, Activity::Starting),
        Event::Started { generation, .. } => doing(w, generation, Activity::Starting),
        Event::ConnectPoll { watcher: by, exit, policy, .. } => {
            &&& doing(w, by.generation, Activity::Watching)
            &&& exit is Some ==> w.m.session is Some
            &&& policy.wf() && w.m.retry_count < u32::MAX
        },
        Event::ConnectProbe { watcher: by, policy, .. } => {
            &&& doing(w, by.generation, Activity::Watching)
            &&& policy.wf() && w.m.retry_count < u32::MAX
        },
        Event::HealthPoll { by, exit, policy, .. } => {
            &&& doing(w, by.generation, Activity::Watching)
            &&& exit is Some ==> w.m.session is Some
            &&& by.wf() && policy.wf() && w.m.retry_count < u32::MAX
        },
        Event::HealthProbe { by, policy, .. } => {
            &&& doing(w, by.generation, Activity::Watching)
            &&& by.wf() && policy.wf() && w.m.retry_count < u32::MAX
        },
        Event::Pause { generation, .. } => doing(w, generation, Activity::Pausing),
        Event::Disconnect => can_disconnect(w.m) && next_is_free(w),
        Event::Stop { generation, exited, .. } => {
            &&& doing(w, generation, Activity::Stopping)
            &&& exited ==> w.m.session is Some
        },
        Event::Exit => next_is_free(w),
    }
}

/// The activities after the one under `generation` has ended.
pub open spec fn over(w: World, generation: u64) -> Map<u64, Activity> {
    w.activities.remove(generation)
}

/// The activities after a failure of the lineage `generation`.
pub open spec fn after_failure(w: World, generation: u64, o: FailureOutcome) -> Map<u64, Activity> {
    match o {
        FailureOutcome::Retry { .. } => w.activities.insert(generation, Activity::Pausing),
        _ => over(w, generation),
    }
}

/// One more process has ended, if `b`.
pub open spec fn plus(n: nat, b: bool) -> nat {
    if b {
        n + 1
    } else {
        n
    }
}

/// The world after an event: the supervisor decides, and what it decides is
/// done.
pub open spec fn happened(w: World, e: Event) -> World {
    match e {
        Event::Connect => World {
            m: started(w.m),
            activities: w.activities.insert(started(w.m).generation, Activity::Starting),
            ..w
        },
        Event::NotStarted { generation, message } => World {
            m: with_state(
                w.m,
                generation,
                StateView::Error { message, phase: "launching"@ },
            ),
            activities: over(w, generation),
            ..w
        },
        Event::Started { generation, session } => {
            let current = w.m.generation == generation;
            World {
                m: registered(w.m, generation, session),
                activities: if current {
                    w.activities.insert(generation, Activity::Watching)
                } else {
                    over(w, generation)
                },
                begun: w.begun + 1,
                ended: plus(w.ended, !current),
            }
        },
        Event::ConnectPoll { watcher: by, exit, prompts_done, elapsed_ms, policy } => {
            let step = connect_step(w.m, by, exit, prompts_done, elapsed_ms, policy);
            World {
                m: connect_polled(
                    w.m,
                    by,
                    exit,
                    prompts_done,
                    elapsed_ms,
                    policy.max_auto_retries,
                ),
                activities: match step {
                    ConnectStep::Stop => over(w, by.generation),
                    ConnectStep::Failed(o) => after_failure(w, by.generation, o),
                    ConnectStep::Probe { .. } => w.activities,
                },
                ended: plus(w.ended, step is Failed),
                ..w
            }
        },
        Event::ConnectProbe { watcher: by, live, elapsed_ms, addr, now, policy } => {
            let result = connect_result(w.m, by, live, elapsed_ms, policy);
            World {
                m: connect_probed(w.m, by, live, elapsed_ms, addr, now, policy.max_auto_retries),
                activities: match result {
                    ConnectResult::Stop => over(w, by.generation),
                    ConnectResult::TimedOut { outcome, .. } => after_failure(
                        w,
                        by.generation,
                        outcome,
                    ),
                    _ => w.activities,
                },
                ended: plus(w.ended, result matches ConnectResult::TimedOut { kill, .. } && kill),
                ..w
            }
        },
        Event::HealthPoll { by, exit, now_ms, policy } => {
            let step = health_step(w.m, by, exit, now_ms, policy);
            World {
                m: health_polled(w.m, by, exit, policy.max_auto_retries),
                ..after_health(w, by, step)
            }
        },
        Event::HealthProbe { by, live, policy } => {
            let step = if strikes_out(by, live) {
                loss_step(w.m, by.generation, policy)
            } else {
                HealthStep::Again
            };
            World {
                m: health_probed(w.m, by, live, policy.max_auto_retries),
                ..after_health(w, by, step)
            }
        },
        Event::Pause { generation, slept, time_is_up } => {
            let step = retry_next(w.m, generation, slept, time_is_up);
            World {
                m: if step is Launch {
                    with_state(w.m, generation, StateView::Launching)
                } else {
                    w.m
                },
                activities: match step {
                    RetryStep::Abandon => over(w, generation),
                    RetryStep::Sleep(_) => w.activities,
                    RetryStep::Launch => w.activities.insert(generation, Activity::Starting),
                },
                ..w
            }
        },
        Event::Disconnect => World {
            m: disconnected(w.m),
            activities: if w.m.session is Some {
                w.activities.insert(disconnected(w.m).generation, Activity::Stopping)
            } else {
                w.activities
            },
            ..w
        },
        Event::Stop { generation, exited, time_is_up } => if w.m.generation != generation {
            World { activities: over(w, generation), ..w }
        } else if exited || time_is_up {
            World {
                m: stopped(w.m),
                activities: over(w, generation),
                ended: plus(w.ended, w.m.session is Some),
                ..w
            }
        } else {
            w
        },
        Event::Exit => World {
            m: shut_down(w.m),
            ended: plus(w.ended, w.m.session is Some),
            ..w
        },
    }
}

/// The world after a step of the watcher `by` of a connection, apart from the
/// state of the supervisor.
pub open spec fn after_health(w: World, by: HealthMonitor, step: HealthStep) -> World {
    World {
        activities: match step {
            HealthStep::Stop => over(w, by.generation),
            HealthStep::Lost { outcome, .. } => after_failure(w, by.generation, outcome),
            _ => w.activities,
        },
        ended: plus(w.ended, step matches HealthStep::Lost { kill, .. } && kill),
        ..w
    }
}

/// The world after some events.
pub open spec fn after_events(w: World, events: Seq<Event>) -> World
    decreases events.len(),
{
    if events.len() == 0 {
        w
    } else {
        happened(after_events(w, events.drop_last()), events.last())
    }
}

/// Whether some events can happen one after the other.
pub open spec fn can_follow(w: World, events: Seq<Event>) -> bool
    decreases events.len(),
{
    events.len() > 0 ==> can_follow(w, events.drop_last()) && can_happen(
        after_events(w, events.drop_last()),
        events.last(),
    )
}

/// What always holds: a session is held only where one can run and where its
/// lineage watches or stops it, a session is started only for a lineage that is
/// being launched, what is watched is not being stopped, and every process that
/// was started has ended or is the session that is held.
pub open spec fn in_order(w: World) -> bool {
    &&& session_fits(w.m)
    &&& w.m.session is Some ==> doing(w, w.m.generation, Activity::Watching) || doing(
        w,
        w.m.generation,
        Activity::Stopping,
    )
    &&& doing(w, w.m.generation, Activity::Starting) ==> w.m.state is Launching
    &&& doing(w, w.m.generation, Activity::Watching) ==> !w.m.user_requested_stop
    &&& w.begun == plus(w.ended, w.m.session is Some)
}

proof fn lemma_stays_in_order(w: World, e: Event)
    requires
        in_order(w),
        can_happen(w, e),
    ensures
        in_order(happened(w, e)),
{
}

/// However requests and background work interleave, no process is leaked:
/// every process that was started has ended, or is the one session that is
/// held, which its lineage watches or stops.
pub proof fn law_no_process_is_leaked(events: Seq<Event>)
    requires
        can_follow(first_world(), events),
    ensures
        in_order(after_events(first_world(), events)),
    decreases events.len(),
{
    if events.len() > 0 {
        law_no_process_is_leaked(events.drop_last());
        lemma_stays_in_order(after_events(first_world(), events.drop_last()), events.last());
    }
}

/// However requests and background work interleave, a session that is started
/// for the current lineage never takes the place of another one.
pub proof fn law_no_session_is_overwritten(events: Seq<Event>, generation: u64, session: PtySession)
    requires
        can_follow(first_world(), events),
        can_happen(
            after_events(first_world(), events),
            Event::Started { generation, session },
        ),
        after_events(first_world(), events).m.generation == generation,
    ensures
        after_events(first_world(), events).m.session is None,
{
    law_no_process_is_leaked(events);
}

} // verus!
