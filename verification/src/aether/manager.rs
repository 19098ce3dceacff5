//! The supervisor's state and how it changes.
//!
//! Each connection that the user asks for is a lineage with a number of its
//! own, its generation. What runs in the background for a lineage acts under
//! its generation, and once another generation is current it changes nothing
//! any more.

use crate::aether::pty::{is_access_code, is_internal, PtySession};
use crate::aether::status::{RetryPolicy, EXIT_POLL_MS, RETRY_SLICE_MS};
use crate::error::AetherError;
use crate::state::{ConnectionState, StateView};
use crate::text::{decimal, push_decimal, trimmed};
use vstd::prelude::*;

verus! {

/// The state of the supervisor.
pub struct AetherManager {
    /// The running session, if there is one.
    pub session: Option<PtySession>,
    /// The state of the connection.
    pub state: ConnectionState,
    /// Whether the user asked for the running session to stop.
    pub user_requested_stop: bool,
    /// How many failures in a row the current lineage has had.
    pub retry_count: u32,
    /// The current lineage.
    pub generation: u64,
}

/// The state of the supervisor, by its texts.
#[verifier::ext_equal]
pub struct ManagerModel {
    pub session: Option<PtySession>,
    pub state: StateView,
    pub user_requested_stop: bool,
    pub retry_count: u32,
    pub generation: u64,
}

impl View for AetherManager {
    type V = ManagerModel;

    open spec fn view(&self) -> ManagerModel {
        ManagerModel {
            session: self.session,
            state: self.state@,
            user_requested_stop: self.user_requested_stop,
            retry_count: self.retry_count,
            generation: self.generation,
        }
    }
}

/// The state at the start of the program.
pub open spec fn initial() -> ManagerModel {
    ManagerModel {
        session: None,
        state: StateView::Idle,
        user_requested_stop: false,
        retry_count: 0,
        generation: 0,
    }
}

/// Whether what runs under `generation` may still act: its lineage is the
/// current one and the user has not asked for it to stop.
pub open spec fn may_act(m: ManagerModel, generation: u64) -> bool {
    m.generation == generation && !m.user_requested_stop
}

/// The state after the lineage `generation` reports the connection state `s`.
pub open spec fn with_state(m: ManagerModel, generation: u64, s: StateView) -> ManagerModel {
    if m.generation == generation {
        ManagerModel { state: s, ..m }
    } else {
        m
    }
}

/// Whether a new connection can be made: there is none, or the last one failed.
pub open spec fn can_start(m: ManagerModel) -> bool {
    m.state is Idle || m.state is Error
}

/// The state after a new lineage has begun.
pub open spec fn started(m: ManagerModel) -> ManagerModel {
    ManagerModel {
        state: StateView::Launching,
        user_requested_stop: false,
        retry_count: 0,
        generation: m.generation.wrapping_add(1),
        ..m
    }
}

/// The state after the lineage `generation` has a session.
pub open spec fn registered(m: ManagerModel, generation: u64, s: PtySession) -> ManagerModel {
    if m.generation == generation {
        ManagerModel { session: Some(s), user_requested_stop: false, ..m }
    } else {
        m
    }
}

/// The state after the session has been given up.
pub open spec fn without_session(m: ManagerModel) -> ManagerModel {
    ManagerModel { session: None, ..m }
}

/// The state after an unexpected failure of the lineage `generation`: as long
/// as attempts are left, the next one is announced; then the failure is.
pub open spec fn failed(
    m: ManagerModel,
    generation: u64,
    max: u32,
    message: Seq<char>,
    phase: Seq<char>,
) -> ManagerModel {
    if !may_act(m, generation) {
        m
    } else {
        let attempt = (m.retry_count + 1) as u32;
        ManagerModel {
            session: None,
            retry_count: attempt,
            state: if attempt > max {
                StateView::Error {
                    message: message + " (gave up after "@ + decimal(max as nat) + " retries)"@,
                    phase,
                }
            } else {
                StateView::Reconnecting { attempt, max_attempts: max }
            },
            ..m
        }
    }
}

/// What becomes of a lineage after an unexpected failure.
#[derive(Clone, Copy, Debug, PartialEq, Eq, Structural)]
pub enum FailureOutcome {
    /// It has ended already, or is being stopped.
    Ignored,
    /// It has no attempt left.
    GaveUp,
    /// It tries again after a pause.
    Retry { attempt: u32, backoff_ms: u64 },
}

/// What becomes of a lineage after an unexpected failure.
pub open spec fn failure_outcome(
    m: ManagerModel,
    generation: u64,
    policy: RetryPolicy,
) -> FailureOutcome {
    if !may_act(m, generation) {
        FailureOutcome::Ignored
    } else if m.retry_count + 1 > policy.max_auto_retries {
        FailureOutcome::GaveUp
    } else {
        FailureOutcome::Retry {
            attempt: (m.retry_count + 1) as u32,
            backoff_ms: policy.backoff_ms@[m.retry_count as int],
        }
    }
}

/// What becomes of an attempt to start a session.
pub enum SpawnOutcome {
    /// It failed, and this is why. `announced` says whether the state was
    /// changed to tell so.
    Failed { error: AetherError, announced: bool },
    /// It came too late: the session is to be killed.
    Superseded,
    /// The session is registered and is to be watched.
    Watch,
}

/// The next step of the pause before a new attempt.
#[derive(Clone, Copy, Debug, PartialEq, Eq, Structural)]
pub enum RetryStep {
    /// The attempt is not wanted any more.
    Abandon,
    /// Sleep for this many milliseconds.
    Sleep(u64),
    /// Make the attempt.
    Launch,
}

/// What a request to disconnect leads to.
#[derive(Clone, Copy, Debug, PartialEq, Eq, Structural)]
pub enum DisconnectStep {
    /// The pause before a new attempt was cut short; there is nothing to stop.
    Cancelled,
    /// The session is to be interrupted, and watched under this generation
    /// until it ends.
    Stopping { generation: u64 },
}

/// The next step while a session is being stopped.
#[derive(Clone, Copy, Debug, PartialEq, Eq, Structural)]
pub enum ShutdownStep {
    /// Another lineage has taken over.
    Superseded,
    /// Sleep, and look again.
    Wait,
    /// The session is given up; `kill` says whether it is to be killed.
    Finished { kill: bool },
}

/// The next step while the program waits to exit.
#[derive(Clone, Copy, Debug, PartialEq, Eq, Structural)]
pub enum ExitStep {
    /// Sleep for this many milliseconds and look again.
    Sleep(u64),
    /// Kill the session, if it still runs, and collect its end.
    Kill,
}

/// Whether there is something to disconnect.
pub open spec fn can_disconnect(m: ManagerModel) -> bool {
    m.session is Some || m.state is Reconnecting
}

/// The state after a request to disconnect.
pub open spec fn disconnected(m: ManagerModel) -> ManagerModel {
    ManagerModel {
        state: if m.session is Some {
            StateView::Disconnecting
        } else {
            StateView::Idle
        },
        user_requested_stop: m.session is Some,
        retry_count: 0,
        generation: m.generation.wrapping_add(1),
        ..m
    }
}

/// The state after a session that was being stopped is given up.
pub open spec fn stopped(m: ManagerModel) -> ManagerModel {
    ManagerModel {
        session: None,
        state: StateView::Idle,
        user_requested_stop: false,
        ..m
    }
}

/// The state after the program has given up its session to exit.
pub open spec fn shut_down(m: ManagerModel) -> ManagerModel {
    ManagerModel { session: None, generation: m.generation.wrapping_add(1), ..m }
}

impl AetherManager {
    /// The state at the start of the program.
    pub fn new() -> (r: AetherManager)
        ensures
            r@ == initial(),
    {
        AetherManager {
            session: None,
            state: ConnectionState::Idle,
            user_requested_stop: false,
            retry_count: 0,
            generation: 0,
        }
    }

    /// The state of the connection.
    pub fn status(&self) -> (r: ConnectionState)
        ensures
            r@ == self@.state,
    {
        self.state.clone()
    }

    /// Whether what runs under `generation` may still act.
    pub fn is_live(&self, generation: u64) -> (r: bool)
        ensures
            r == may_act(self@, generation),
    {
        self.generation == generation && !self.user_requested_stop
    }

    /// Changes the state of the connection if `generation` is the current one,
    /// and says whether it was.
    pub fn set_state_if_current(&mut self, generation: u64, new_state: ConnectionState) -> (r: bool)
        ensures
            r == (old(self)@.generation == generation),
            final(self)@ == with_state(old(self)@, generation, new_state@),
    {
        if self.generation != generation {
            return false;
        }
        self.state = new_state;
        true
    }
}

impl Default for AetherManager {
    fn default() -> (r: AetherManager)
        ensures
            r@ == initial(),
    {
        AetherManager::new()
    }
}

/// The file name of the Aether program.
pub fn binary_name(windows: bool) -> (r: &'static str)
    ensures
        windows ==> r@ == "aether.exe"@,
        !windows ==> r@ == "aether"@,
{
    if windows {
        "aether.exe"
    } else {
        "aether"
    }
}

/// The path of the Aether program, if the program is there.
pub fn resolve_binary(path: String, exists: bool) -> (r: Result<String, AetherError>)
    ensures
        exists ==> r == Ok::<String, AetherError>(path),
        !exists ==> r == Err::<String, AetherError>(AetherError::BinaryMissing(path)),
{
    if !exists {
        return Err(AetherError::BinaryMissing(path));
    }
    Ok(path)
}

/// What a request to connect is answered.
pub open spec fn start_answer(m: ManagerModel, live_port: Option<u16>) -> Result<
    u64,
    AetherError,
> {
    match live_port {
        Some(port) => Err(AetherError::PortInUse(port)),
        None => if can_start(m) {
            Ok(started(m).generation)
        } else {
            Err(AetherError::AlreadyRunning)
        },
    }
}

/// What a request to disconnect is answered.
pub open spec fn disconnect_answer(m: ManagerModel) -> Result<DisconnectStep, AetherError> {
    if m.session is Some {
        Ok(DisconnectStep::Stopping { generation: disconnected(m).generation })
    } else if m.state is Reconnecting {
        Ok(DisconnectStep::Cancelled)
    } else {
        Err(AetherError::NotConnected)
    }
}

/// Begins a new lineage, and returns its generation. `live_port` is the port
/// that the profile asks for, if something listens on it already.
pub fn start_connect(manager: &mut AetherManager, live_port: Option<u16>) -> (r: Result<
    u64,
    AetherError,
>)
    ensures
        r == start_answer(old(manager)@, live_port),
        live_port matches Some(port) ==> r == Err::<u64, AetherError>(AetherError::PortInUse(port)),
        live_port is None && !can_start(old(manager)@) ==> r == Err::<u64, AetherError>(
            AetherError::AlreadyRunning,
        ),
        live_port is None && can_start(old(manager)@) ==> r == Ok::<u64, AetherError>(
            old(manager)@.generation.wrapping_add(1),
        ) && final(manager)@ == started(old(manager)@),
        r is Err ==> *final(manager) == *old(manager),
{
    if let Some(port) = live_port {
        return Err(AetherError::PortInUse(port));
    }
    let free: bool = match &manager.state {
        ConnectionState::Idle => true,
        ConnectionState::Error { .. } => true,
        _ => false,
    };
    if !free {
        return Err(AetherError::AlreadyRunning);
    }
    manager.generation = manager.generation.wrapping_add(1);
    manager.state = ConnectionState::Launching;
    manager.retry_count = 0;
    manager.user_requested_stop = false;
    Ok(manager.generation)
}

/// Deals with an attempt of the lineage `generation` to start a session.
pub fn spawn_and_monitor(
    manager: &mut AetherManager,
    generation: u64,
    spawned: Result<PtySession, AetherError>,
) -> (r: SpawnOutcome)
    ensures
        spawned matches Err(e) ==> r == (SpawnOutcome::Failed {
            error: e,
            announced: old(manager)@.generation == generation,
        }) && final(manager)@ == with_state(
            old(manager)@,
            generation,
            StateView::Error { message: e.message_text(), phase: "launching"@ },
        ),
        spawned matches Ok(s) ==> r == (if old(manager)@.generation == generation {
            SpawnOutcome::Watch
        } else {
            SpawnOutcome::Superseded
        }) && final(manager)@ == registered(old(manager)@, generation, s),
{
    match spawned {
        Err(e) => {
            let state = ConnectionState::Error {
                message: e.message(),
                phase: "launching".to_owned(),
            };
            let announced: bool = manager.set_state_if_current(generation, state);
            SpawnOutcome::Failed { error: e, announced }
        },
        Ok(s) => {
            if manager.generation != generation {
                return SpawnOutcome::Superseded;
            }
            manager.session = Some(s);
            manager.user_requested_stop = false;
            SpawnOutcome::Watch
        },
    }
}

/// Deals with an unexpected failure of the lineage `generation`.
pub fn handle_unexpected_failure(
    manager: &mut AetherManager,
    generation: u64,
    policy: &RetryPolicy,
    failure_message: &str,
    phase: &str,
) -> (r: FailureOutcome)
    requires
        policy.wf(),
        old(manager)@.retry_count < u32::MAX,
    ensures
        r == failure_outcome(old(manager)@, generation, *policy),
        final(manager)@ == failed(
            old(manager)@,
            generation,
            policy.max_auto_retries,
            failure_message@,
            phase@,
        ),
{
    if !manager.is_live(generation) {
        return FailureOutcome::Ignored;
    }
    manager.session = None;
    manager.retry_count = manager.retry_count + 1;
    let attempt: u32 = manager.retry_count;
    if attempt > policy.max_auto_retries {
        let mut message = failure_message.to_owned().concat(" (gave up after ");
        push_decimal(&mut message, policy.max_auto_retries as u64);
        manager.state = ConnectionState::Error {
            message: message.concat(" retries)"),
            phase: phase.to_owned(),
        };
        return FailureOutcome::GaveUp;
    }
    manager.state = ConnectionState::Reconnecting {
        attempt,
        max_attempts: policy.max_auto_retries,
    };
    FailureOutcome::Retry { attempt, backoff_ms: policy.backoff_ms[attempt as usize - 1] }
}

/// The next step of the pause before a new attempt of the lineage
/// `generation`. `slept` says whether a slice of the pause has just passed,
/// and `time_is_up` whether the whole pause has.
pub fn retry_step(
    manager: &mut AetherManager,
    generation: u64,
    slept: bool,
    time_is_up: bool,
) -> (r: RetryStep)
    ensures
        r == retry_next(old(manager)@, generation, slept, time_is_up),
        final(manager)@ == (if r is Launch {
            with_state(old(manager)@, generation, StateView::Launching)
        } else {
            old(manager)@
        }),
{
    if slept && !manager.is_live(generation) {
        return RetryStep::Abandon;
    }
    if !time_is_up {
        return RetryStep::Sleep(RETRY_SLICE_MS);
    }
    if manager.set_state_if_current(generation, ConnectionState::Launching) {
        RetryStep::Launch
    } else {
        RetryStep::Abandon
    }
}

/// The next step of the pause before a new attempt: after each slice it is
/// given up if it is not wanted any more, and when the time is up the attempt
/// is made if the lineage is still the current one.
pub open spec fn retry_next(
    m: ManagerModel,
    generation: u64,
    slept: bool,
    time_is_up: bool,
) -> RetryStep {
    if slept && !may_act(m, generation) {
        RetryStep::Abandon
    } else if !time_is_up {
        RetryStep::Sleep(RETRY_SLICE_MS)
    } else if m.generation == generation {
        RetryStep::Launch
    } else {
        RetryStep::Abandon
    }
}

/// Deals with the user's request to disconnect.
pub fn request_disconnect(manager: &mut AetherManager) -> (r: Result<DisconnectStep, AetherError>)
    ensures
        r == disconnect_answer(old(manager)@),
        !can_disconnect(old(manager)@) ==> r == Err::<DisconnectStep, AetherError>(
            AetherError::NotConnected,
        ) && *final(manager) == *old(manager),
        can_disconnect(old(manager)@) ==> final(manager)@ == disconnected(old(manager)@) && r
            == Ok::<DisconnectStep, AetherError>(
            if old(manager)@.session is Some {
                DisconnectStep::Stopping { generation: final(manager)@.generation }
            } else {
                DisconnectStep::Cancelled
            },
        ),
{
    let reconnecting: bool = match &manager.state {
        ConnectionState::Reconnecting { .. } => true,
        _ => false,
    };
    if manager.session.is_none() && !reconnecting {
        return Err(AetherError::NotConnected);
    }
    manager.generation = manager.generation.wrapping_add(1);
    manager.user_requested_stop = true;
    manager.retry_count = 0;
    let generation: u64 = manager.generation;
    if manager.session.is_none() {
        manager.user_requested_stop = false;
        manager.state = ConnectionState::Idle;
        return Ok(DisconnectStep::Cancelled);
    }
    manager.set_state_if_current(generation, ConnectionState::Disconnecting);
    Ok(DisconnectStep::Stopping { generation })
}

/// The next step while a session is being stopped under `generation`.
pub open spec fn stop_next(
    m: ManagerModel,
    generation: u64,
    exited: bool,
    time_is_up: bool,
) -> ShutdownStep {
    if m.generation != generation {
        ShutdownStep::Superseded
    } else if exited || time_is_up {
        ShutdownStep::Finished { kill: !exited && m.session is Some }
    } else {
        ShutdownStep::Wait
    }
}

/// The next step while a session is being stopped under `generation`, from
/// whether it has ended and whether the time for it is up.
pub fn shutdown_step(
    manager: &mut AetherManager,
    generation: u64,
    exited: bool,
    time_is_up: bool,
) -> (r: ShutdownStep)
    ensures
        r == stop_next(old(manager)@, generation, exited, time_is_up),
        r == (if old(manager)@.generation != generation {
            ShutdownStep::Superseded
        } else if exited || time_is_up {
            ShutdownStep::Finished { kill: !exited && old(manager)@.session is Some }
        } else {
            ShutdownStep::Wait
        }),
        final(manager)@ == (if r is Finished {
            stopped(old(manager)@)
        } else {
            old(manager)@
        }),
{
    if manager.generation != generation {
        return ShutdownStep::Superseded;
    }
    if !exited && !time_is_up {
        return ShutdownStep::Wait;
    }
    let kill: bool = !exited && manager.session.is_some();
    manager.session = None;
    manager.user_requested_stop = false;
    manager.state = ConnectionState::Idle;
    ShutdownStep::Finished { kill }
}

/// The text that enters a one-time code into the running session.
pub fn submit_access_code(manager: &AetherManager, code: &str) -> (r: Result<String, AetherError>)
    ensures
        manager@.session is None ==> r == Err::<String, AetherError>(AetherError::NotConnected),
        manager@.session is Some ==> {
            &&& r is Ok <==> is_access_code(code@)
            &&& r matches Ok(s) ==> s@ == trimmed(code@) + "\r\n"@
            &&& r matches Err(e) ==> is_internal(e, "invalid Zero Trust access code"@)
        },
{
    match &manager.session {
        None => Err(AetherError::NotConnected),
        Some(session) => session.send_access_code(code),
    }
}

/// Gives up the session because the program exits, and returns it: it is to be
/// interrupted, given a moment to end, and killed.
pub fn shutdown_blocking(manager: &mut AetherManager) -> (r: Option<PtySession>)
    ensures
        r == old(manager)@.session,
        final(manager)@ == shut_down(old(manager)@),
{
    manager.generation = manager.generation.wrapping_add(1);
    let session = manager.session;
    manager.session = None;
    session
}

/// The next step after the session of a program that exits was interrupted.
pub open spec fn exit_next(exited: bool, time_is_up: bool) -> ExitStep {
    if exited || time_is_up {
        ExitStep::Kill
    } else {
        ExitStep::Sleep(EXIT_POLL_MS)
    }
}

/// The next step after the session of a program that exits was interrupted,
/// from whether it has ended and whether the time for it is up.
pub fn exit_step(exited: bool, time_is_up: bool) -> (r: ExitStep)
    ensures
        r == exit_next(exited, time_is_up),
        r == (if exited || time_is_up {
            ExitStep::Kill
        } else {
            ExitStep::Sleep(EXIT_POLL_MS)
        }),
{
    if time_is_up || exited {
        ExitStep::Kill
    } else {
        ExitStep::Sleep(EXIT_POLL_MS)
    }
}

} // verus!
