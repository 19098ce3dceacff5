//! Watching a session: first until its SOCKS port is up, then for as long as
//! the connection lasts.
//!
//! The watchers decide; whoever runs them polls the process, probes the port
//! and keeps the time. Probing takes a while, so each round is two steps: one
//! before the port is probed, and one with the result.

use crate::aether::manager::{
    failed, failure_outcome, handle_unexpected_failure, may_act, with_state, without_session,
    AetherManager, FailureOutcome, ManagerModel,
};
use crate::aether::pty::ExitReport;
use crate::aether::status::{
    RetryPolicy, CONNECTED_HEALTH_INTERVAL_MS, CONNECTED_HEALTH_STRIKES, PROMPT_PHASE_GRACE_MS,
};
use crate::state::{ConnectionState, StateView};
use vstd::prelude::*;

verus! {

/// Why a session that ended before it was connected failed.
pub open spec fn exit_message(exit: ExitReport) -> Seq<char> {
    "Aether exited before connecting ("@ + exit.text() + ")"@
}

/// Why a connection whose session ended failed.
pub open spec fn loss_message(exit: ExitReport) -> Seq<char> {
    "Lost connection unexpectedly ("@ + exit.text() + ")"@
}

/// Watches a session until its SOCKS port is up.
#[derive(Clone, Copy, Debug)]
pub struct ConnectMonitor {
    /// The lineage that it watches for.
    pub generation: u64,
    /// Whether it has announced that Aether looks for a route.
    pub announced: bool,
    /// How long it watches, in milliseconds.
    pub timeout_ms: u64,
}

/// What to do before the port is probed.
#[derive(Clone, Copy, Debug, PartialEq, Eq, Structural)]
pub enum ConnectStep {
    /// Stop watching.
    Stop,
    /// Stop watching: the session has ended, with this outcome.
    Failed(FailureOutcome),
    /// Probe the port; `announce` says whether the state has changed.
    Probe { announce: bool },
}

/// What to do once the port has been probed.
#[derive(Clone, Copy, Debug, PartialEq, Eq, Structural)]
pub enum ConnectResult {
    /// Stop watching.
    Stop,
    /// The connection is up: remember the profile and watch the connection.
    Connected,
    /// Stop watching: the time is up, with this outcome. `kill` says whether
    /// there is a session to kill.
    TimedOut { kill: bool, outcome: FailureOutcome },
    /// Sleep, and begin another round.
    Again,
}

/// Whether it is time to announce that Aether looks for a route: its prompts
/// are done, or it has had the time for them.
pub open spec fn past_prompts(prompts_done: bool, elapsed_ms: u64) -> bool {
    prompts_done || elapsed_ms >= PROMPT_PHASE_GRACE_MS
}

/// The state after the connection is up.
pub open spec fn connected(m: ManagerModel, addr: Seq<char>, now: u64) -> ManagerModel {
    ManagerModel {
        state: StateView::Connected { socks_addr: addr, connected_at_ms: now },
        retry_count: 0,
        ..m
    }
}

/// Why a connection that does not come up in time fails.
pub open spec fn timeout_message() -> Seq<char> {
    "Timed out waiting for Aether to find a working route"@
}

/// The state after the first half of a round before the connection is up.
pub open spec fn connect_polled(
    m: ManagerModel,
    w: ConnectMonitor,
    exit: Option<ExitReport>,
    prompts_done: bool,
    elapsed_ms: u64,
    max: u32,
) -> ManagerModel {
    if !may_act(m, w.generation) {
        m
    } else if exit is Some {
        failed(without_session(m), w.generation, max, exit_message(exit->0), "connecting"@)
    } else if !w.announced && past_prompts(prompts_done, elapsed_ms) {
        with_state(m, w.generation, StateView::Connecting)
    } else {
        m
    }
}

/// What to do before the port is probed.
pub open spec fn connect_step(
    m: ManagerModel,
    w: ConnectMonitor,
    exit: Option<ExitReport>,
    prompts_done: bool,
    elapsed_ms: u64,
    policy: RetryPolicy,
) -> ConnectStep {
    if !may_act(m, w.generation) {
        ConnectStep::Stop
    } else if exit is Some {
        ConnectStep::Failed(failure_outcome(without_session(m), w.generation, policy))
    } else {
        ConnectStep::Probe { announce: !w.announced && past_prompts(prompts_done, elapsed_ms) }
    }
}

/// The watcher after the first half of a round with this result.
pub open spec fn announcement_noted(w: ConnectMonitor, step: ConnectStep) -> ConnectMonitor {
    ConnectMonitor {
        announced: w.announced || step == (ConnectStep::Probe { announce: true }),
        ..w
    }
}

/// The state after the second half of a round before the connection is up.
pub open spec fn connect_probed(
    m: ManagerModel,
    w: ConnectMonitor,
    live: bool,
    elapsed_ms: u64,
    addr: Seq<char>,
    now: u64,
    max: u32,
) -> ManagerModel {
    if !may_act(m, w.generation) {
        m
    } else if live {
        connected(m, addr, now)
    } else if elapsed_ms >= w.timeout_ms {
        failed(without_session(m), w.generation, max, timeout_message(), "connecting"@)
    } else {
        m
    }
}

/// What to do once the port has been probed.
pub open spec fn connect_result(
    m: ManagerModel,
    w: ConnectMonitor,
    live: bool,
    elapsed_ms: u64,
    policy: RetryPolicy,
) -> ConnectResult {
    if !live && elapsed_ms < w.timeout_ms {
        ConnectResult::Again
    } else if !may_act(m, w.generation) {
        ConnectResult::Stop
    } else if live {
        ConnectResult::Connected
    } else {
        ConnectResult::TimedOut {
            kill: m.session is Some,
            outcome: failure_outcome(without_session(m), w.generation, policy),
        }
    }
}

impl ConnectMonitor {
    /// A watcher for a session that has just been started.
    pub fn new(generation: u64, timeout_ms: u64) -> (r: ConnectMonitor)
        ensures
            r == (ConnectMonitor { generation, announced: false, timeout_ms }),
    {
        ConnectMonitor { generation, announced: false, timeout_ms }
    }

    /// The first half of a round. `exit` is how the session ended, if it did;
    /// `elapsed_ms` is the time since it was started.
    pub fn poll(
        &mut self,
        manager: &mut AetherManager,
        exit: Option<ExitReport>,
        prompts_done: bool,
        elapsed_ms: u64,
        policy: &RetryPolicy,
    ) -> (r: ConnectStep)
        requires
            policy.wf(),
            old(manager)@.retry_count < u32::MAX,
        ensures
            r == connect_step(
                old(manager)@,
                *old(self),
                exit,
                prompts_done,
                elapsed_ms,
                *policy,
            ),
            final(manager)@ == connect_polled(
                old(manager)@,
                *old(self),
                exit,
                prompts_done,
                elapsed_ms,
                policy.max_auto_retries,
            ),
            *final(self) == announcement_noted(*old(self), r),
            *final(self) == (ConnectMonitor {
                announced: old(self).announced || r == (ConnectStep::Probe { announce: true }),
                ..*old(self)
            }),
    {
        if !manager.is_live(self.generation) {
            return ConnectStep::Stop;
        }
        if let Some(exit) = exit {
            manager.session = None;
            let message = "Aether exited before connecting (".to_owned().concat(
                exit.describe().as_str(),
            ).concat(")");
            let outcome = handle_unexpected_failure(
                manager,
                self.generation,
                policy,
                message.as_str(),
                "connecting",
            );
            return ConnectStep::Failed(outcome);
        }
        let mut announce: bool = false;
        if !self.announced && (prompts_done || elapsed_ms >= PROMPT_PHASE_GRACE_MS) {
            if !manager.set_state_if_current(self.generation, ConnectionState::Connecting) {
                return ConnectStep::Stop;
            }
            self.announced = true;
            announce = true;
        }
        ConnectStep::Probe { announce }
    }

    /// The second half of a round: `live` says whether the SOCKS port `addr`
    /// is up.
    pub fn probed(
        &self,
        manager: &mut AetherManager,
        live: bool,
        elapsed_ms: u64,
        addr: &str,
        now: u64,
        policy: &RetryPolicy,
    ) -> (r: ConnectResult)
        requires
            policy.wf(),
            old(manager)@.retry_count < u32::MAX,
        ensures
            r == connect_result(old(manager)@, *self, live, elapsed_ms, *policy),
            final(manager)@ == connect_probed(
                old(manager)@,
                *self,
                live,
                elapsed_ms,
                addr@,
                now,
                policy.max_auto_retries,
            ),
    {
        if live {
            if !manager.is_live(self.generation) {
                return ConnectResult::Stop;
            }
            manager.state = ConnectionState::Connected {
                socks_addr: addr.to_owned(),
                connected_at_ms: now,
            };
            manager.retry_count = 0;
            return ConnectResult::Connected;
        }
        if elapsed_ms >= self.timeout_ms {
            if !manager.is_live(self.generation) {
                return ConnectResult::Stop;
            }
            let kill: bool = manager.session.is_some();
            manager.session = None;
            let outcome = handle_unexpected_failure(
                manager,
                self.generation,
                policy,
                "Timed out waiting for Aether to find a working route",
                "connecting",
            );
            return ConnectResult::TimedOut { kill, outcome };
        }
        ConnectResult::Again
    }
}

/// Watches a connection. It is lost when the session ends, and also when the
/// session runs on but its SOCKS port does not answer any more.
#[derive(Clone, Copy, Debug)]
pub struct HealthMonitor {
    /// The lineage that it watches for.
    pub generation: u64,
    /// When to probe the port next, in milliseconds of the same clock as the
    /// times that it is given.
    pub next_health_ms: u64,
    /// How many times in a row the port has not answered.
    pub strikes: u8,
}

/// What to do about a connection.
#[derive(Clone, Copy, Debug, PartialEq, Eq, Structural)]
pub enum HealthStep {
    /// Stop watching.
    Stop,
    /// Stop watching: the connection is lost, with this outcome. `kill` says
    /// whether there is a session to kill.
    Lost { kill: bool, outcome: FailureOutcome },
    /// Probe the port.
    Probe,
    /// Sleep, and begin another round.
    Again,
}

/// Why a connection whose port does not answer any more failed.
pub open spec fn silence_message() -> Seq<char> {
    "SOCKS5 proxy stopped responding"@
}

/// What to do about a connection that is lost.
pub open spec fn loss_step(m: ManagerModel, generation: u64, policy: RetryPolicy) -> HealthStep {
    if may_act(m, generation) {
        HealthStep::Lost {
            kill: m.session is Some,
            outcome: failure_outcome(without_session(m), generation, policy),
        }
    } else {
        HealthStep::Stop
    }
}

/// The state after a connection is lost, for the given reason.
pub open spec fn lost(
    m: ManagerModel,
    generation: u64,
    max: u32,
    reason: Seq<char>,
) -> ManagerModel {
    if may_act(m, generation) {
        failed(without_session(m), generation, max, reason, "connected"@)
    } else {
        m
    }
}

/// Whether it is time to probe the port.
pub open spec fn probe_due(w: HealthMonitor, now_ms: u64) -> bool {
    now_ms >= w.next_health_ms
}

/// The state after the first half of a round of watching a connection.
pub open spec fn health_polled(
    m: ManagerModel,
    w: HealthMonitor,
    exit: Option<ExitReport>,
    max: u32,
) -> ManagerModel {
    if exit is Some {
        lost(m, w.generation, max, loss_message(exit->0))
    } else {
        m
    }
}

/// What to do after the first half of a round.
pub open spec fn health_step(
    m: ManagerModel,
    w: HealthMonitor,
    exit: Option<ExitReport>,
    now_ms: u64,
    policy: RetryPolicy,
) -> HealthStep {
    if !may_act(m, w.generation) {
        HealthStep::Stop
    } else if exit is Some {
        loss_step(m, w.generation, policy)
    } else if probe_due(w, now_ms) {
        HealthStep::Probe
    } else {
        HealthStep::Again
    }
}

/// The watcher after the first half of a round with this result; a probe that
/// is due begins at the time `probe_ms`.
pub open spec fn probe_planned(w: HealthMonitor, step: HealthStep, probe_ms: u64) -> HealthMonitor {
    HealthMonitor {
        next_health_ms: if step is Probe {
            (probe_ms + CONNECTED_HEALTH_INTERVAL_MS) as u64
        } else {
            w.next_health_ms
        },
        ..w
    }
}

/// Whether a probe with this result is the one that loses the connection.
pub open spec fn strikes_out(w: HealthMonitor, live: bool) -> bool {
    !live && w.strikes + 1 >= CONNECTED_HEALTH_STRIKES
}

/// The state after the second half of a round of watching a connection.
pub open spec fn health_probed(
    m: ManagerModel,
    w: HealthMonitor,
    live: bool,
    max: u32,
) -> ManagerModel {
    if strikes_out(w, live) {
        lost(m, w.generation, max, silence_message())
    } else {
        m
    }
}

/// The watcher after a probe with this result.
pub open spec fn probe_counted(w: HealthMonitor, live: bool) -> HealthMonitor {
    HealthMonitor {
        strikes: if live {
            0
        } else {
            (w.strikes + 1) as u8
        },
        ..w
    }
}

impl HealthMonitor {
    /// Not enough strikes to lose the connection.
    pub open spec fn wf(&self) -> bool {
        self.strikes < CONNECTED_HEALTH_STRIKES
    }

    /// A watcher for a connection that is up.
    pub fn new(generation: u64, now_ms: u64) -> (r: HealthMonitor)
        requires
            now_ms + CONNECTED_HEALTH_INTERVAL_MS <= u64::MAX,
        ensures
            r.wf(),
            r == (HealthMonitor {
                generation,
                next_health_ms: (now_ms + CONNECTED_HEALTH_INTERVAL_MS) as u64,
                strikes: 0,
            }),
    {
        HealthMonitor {
            generation,
            next_health_ms: now_ms + CONNECTED_HEALTH_INTERVAL_MS,
            strikes: 0,
        }
    }

    fn lose(
        &self,
        manager: &mut AetherManager,
        reason: &str,
        policy: &RetryPolicy,
    ) -> (r: HealthStep)
        requires
            policy.wf(),
            old(manager)@.retry_count < u32::MAX,
        ensures
            r == loss_step(old(manager)@, self.generation, *policy),
            final(manager)@ == lost(
                old(manager)@,
                self.generation,
                policy.max_auto_retries,
                reason@,
            ),
    {
        if !manager.is_live(self.generation) {
            return HealthStep::Stop;
        }
        let kill: bool = manager.session.is_some();
        manager.session = None;
        let outcome = handle_unexpected_failure(
            manager,
            self.generation,
            policy,
            reason,
            "connected",
        );
        HealthStep::Lost { kill, outcome }
    }

    /// The first half of a round. `exit` is how the session ended, if it did;
    /// `now_ms` is the time, and `probe_ms` the time at which a probe that is
    /// due now begins, from which the next one is reckoned.
    pub fn poll(
        &mut self,
        manager: &mut AetherManager,
        exit: Option<ExitReport>,
        now_ms: u64,
        probe_ms: u64,
        policy: &RetryPolicy,
    ) -> (r: HealthStep)
        requires
            old(self).wf(),
            probe_ms + CONNECTED_HEALTH_INTERVAL_MS <= u64::MAX,
            policy.wf(),
            old(manager)@.retry_count < u32::MAX,
        ensures
            final(self).wf(),
            r == health_step(old(manager)@, *old(self), exit, now_ms, *policy),
            final(manager)@ == health_polled(
                old(manager)@,
                *old(self),
                exit,
                policy.max_auto_retries,
            ),
            *final(self) == probe_planned(*old(self), r, probe_ms),
            *final(self) == (HealthMonitor {
                next_health_ms: if r is Probe {
                    (probe_ms + CONNECTED_HEALTH_INTERVAL_MS) as u64
                } else {
                    old(self).next_health_ms
                },
                ..*old(self)
            }),
    {
        if !manager.is_live(self.generation) {
            return HealthStep::Stop;
        }
        if let Some(exit) = exit {
            let reason = "Lost connection unexpectedly (".to_owned().concat(
                exit.describe().as_str(),
            ).concat(")");
            return self.lose(manager, reason.as_str(), policy);
        }
        if now_ms >= self.next_health_ms {
            self.next_health_ms = probe_ms + CONNECTED_HEALTH_INTERVAL_MS;
            return HealthStep::Probe;
        }
        HealthStep::Again
    }

    /// The second half of a round in which the port was probed: `live` says
    /// whether it answered.
    pub fn probed(
        &mut self,
        manager: &mut AetherManager,
        live: bool,
        policy: &RetryPolicy,
    ) -> (r: HealthStep)
        requires
            old(self).wf(),
            policy.wf(),
            old(manager)@.retry_count < u32::MAX,
        ensures
            r == (if strikes_out(*old(self), live) {
                loss_step(old(manager)@, old(self).generation, *policy)
            } else {
                HealthStep::Again
            }),
            final(manager)@ == health_probed(
                old(manager)@,
                *old(self),
                live,
                policy.max_auto_retries,
            ),
            *final(self) == probe_counted(*old(self), live),
            !strikes_out(*old(self), live) ==> final(self).wf(),
    {
        if live {
            self.strikes = 0;
            return HealthStep::Again;
        }
        self.strikes = self.strikes + 1;
        if self.strikes >= CONNECTED_HEALTH_STRIKES {
            return self.lose(manager, "SOCKS5 proxy stopped responding", policy);
        }
        HealthStep::Again
    }
}

} // verus!
