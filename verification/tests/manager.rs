use aether_gui::aether::manager::{
    binary_name, exit_step, handle_unexpected_failure, request_disconnect, resolve_binary,
    retry_step, shutdown_blocking, shutdown_step, spawn_and_monitor, start_connect,
    submit_access_code, AetherManager, DisconnectStep, ExitStep, FailureOutcome, RetryStep,
    ShutdownStep, SpawnOutcome,
};
use aether_gui::aether::monitor::{
    ConnectMonitor, ConnectResult, ConnectStep, HealthMonitor, HealthStep,
};
use aether_gui::aether::pty::{ExitReport, PtySession, SessionSignals};
use aether_gui::aether::status::{
    RetryPolicy, CONNECTED_HEALTH_INTERVAL_MS, EXIT_POLL_MS, PROMPT_PHASE_GRACE_MS, RETRY_SLICE_MS,
};
use aether_gui::error::AetherError;
use aether_gui::state::ConnectionState;

fn policy() -> RetryPolicy {
    RetryPolicy {
        max_auto_retries: 3,
        backoff_ms: vec![2000, 5000, 10000],
    }
}

fn session() -> PtySession {
    PtySession {
        process_id: Some(11),
        signals: SessionSignals::default(),
    }
}

/// A manager with a session that is being launched.
fn launched() -> (AetherManager, u64) {
    let mut m = AetherManager::new();
    let g = start_connect(&mut m, None).unwrap();
    assert!(matches!(
        spawn_and_monitor(&mut m, g, Ok(session())),
        SpawnOutcome::Watch
    ));
    (m, g)
}

fn exited(code: u32) -> Option<ExitReport> {
    Some(ExitReport { code, signal: None })
}

fn state(m: &AetherManager) -> String {
    format!("{:?}", m.status())
}

#[test]
fn a_manager_starts_idle() {
    let m = AetherManager::default();
    assert_eq!(state(&m), "Idle");
    assert!(m.session.is_none());
    assert_eq!((m.retry_count, m.generation), (0, 0));
}

#[test]
fn the_program_has_its_name_and_place() {
    assert_eq!(binary_name(true), "aether.exe");
    assert_eq!(binary_name(false), "aether");
    assert_eq!(resolve_binary("/x/aether".to_string(), true).unwrap(), "/x/aether");
    assert_eq!(
        resolve_binary("/x/aether".to_string(), false)
            .unwrap_err()
            .message(),
        "Aether binary not found at /x/aether"
    );
}

#[test]
fn starting_begins_a_lineage() {
    let mut m = AetherManager::new();
    assert_eq!(
        start_connect(&mut m, Some(1080)).unwrap_err().code(),
        "port_in_use"
    );
    assert_eq!(state(&m), "Idle");
    assert_eq!(start_connect(&mut m, None).unwrap(), 1);
    assert_eq!(state(&m), "Launching");
    assert_eq!(
        start_connect(&mut m, None).unwrap_err().code(),
        "already_running"
    );
    assert_eq!(m.generation, 1);
    m.state = ConnectionState::Error {
        message: "x".to_string(),
        phase: "connecting".to_string(),
    };
    assert_eq!(start_connect(&mut m, None).unwrap(), 2);
    m.generation = u64::MAX;
    m.state = ConnectionState::Idle;
    assert_eq!(start_connect(&mut m, None).unwrap(), 0);
}

#[test]
fn a_session_that_cannot_start_is_an_error() {
    let mut m = AetherManager::new();
    let g = start_connect(&mut m, None).unwrap();
    match spawn_and_monitor(&mut m, g, Err(AetherError::SpawnFailed("no pty".to_string()))) {
        SpawnOutcome::Failed { error, announced } => {
            assert_eq!(error.code(), "spawn_failed");
            assert!(announced);
        }
        _ => panic!(),
    }
    assert_eq!(
        state(&m),
        "Error { message: \"failed to launch Aether: no pty\", phase: \"launching\" }"
    );
}

#[test]
fn a_session_that_comes_too_late_is_not_registered() {
    let mut m = AetherManager::new();
    assert!(matches!(
        spawn_and_monitor(&mut m, 9, Ok(session())),
        SpawnOutcome::Superseded
    ));
    assert!(m.session.is_none());
    assert!(matches!(
        spawn_and_monitor(&mut m, 9, Err(AetherError::NotConnected)),
        SpawnOutcome::Failed {
            announced: false,
            ..
        }
    ));
    assert_eq!(state(&m), "Idle");
}

#[test]
fn failures_are_retried_and_then_given_up() {
    let (mut m, g) = launched();
    for (attempt, backoff_ms) in [(1, 2000), (2, 5000), (3, 10000)] {
        assert_eq!(
            handle_unexpected_failure(&mut m, g, &policy(), "boom", "connecting"),
            FailureOutcome::Retry {
                attempt,
                backoff_ms
            }
        );
        assert_eq!(
            state(&m),
            format!("Reconnecting {{ attempt: {attempt}, max_attempts: 3 }}")
        );
        assert!(m.session.is_none());
    }
    assert_eq!(
        handle_unexpected_failure(&mut m, g, &policy(), "boom", "connecting"),
        FailureOutcome::GaveUp
    );
    assert_eq!(
        state(&m),
        "Error { message: \"boom (gave up after 3 retries)\", phase: \"connecting\" }"
    );
}

#[test]
fn a_superseded_lineage_changes_nothing() {
    let (mut m, g) = launched();
    let old = g.wrapping_sub(1);
    assert_eq!(
        handle_unexpected_failure(&mut m, old, &policy(), "boom", "connecting"),
        FailureOutcome::Ignored
    );
    assert!(!m.set_state_if_current(old, ConnectionState::Connecting));
    assert_eq!(retry_step(&mut m, old, true, true), RetryStep::Abandon);
    assert_eq!(retry_step(&mut m, old, false, true), RetryStep::Abandon);
    assert_eq!(shutdown_step(&mut m, old, true, true), ShutdownStep::Superseded);
    let mut w = ConnectMonitor::new(old, 1000);
    assert_eq!(
        w.poll(&mut m, exited(1), true, 9999, &policy()),
        ConnectStep::Stop
    );
    assert_eq!(
        w.probed(&mut m, true, 0, "127.0.0.1:1080", 5, &policy()),
        ConnectResult::Stop
    );
    assert_eq!(state(&m), "Launching");
    assert!(m.session.is_some());
    assert_eq!(m.retry_count, 0);
}

#[test]
fn cancelling_a_pause_and_reconnecting_starts_one_session() {
    let (mut m, g) = launched();
    handle_unexpected_failure(&mut m, g, &policy(), "boom", "connecting");
    assert_eq!(retry_step(&mut m, g, false, false), RetryStep::Sleep(RETRY_SLICE_MS));
    assert_eq!(retry_step(&mut m, g, true, false), RetryStep::Sleep(RETRY_SLICE_MS));
    assert_eq!(request_disconnect(&mut m).unwrap(), DisconnectStep::Cancelled);
    assert_eq!(state(&m), "Idle");
    assert!(!m.user_requested_stop);
    let again = start_connect(&mut m, None).unwrap();
    assert_ne!(again, g);
    assert_eq!(retry_step(&mut m, g, true, true), RetryStep::Abandon);
    assert!(matches!(
        spawn_and_monitor(&mut m, g, Ok(session())),
        SpawnOutcome::Superseded
    ));
    assert!(matches!(
        spawn_and_monitor(&mut m, again, Ok(session())),
        SpawnOutcome::Watch
    ));
}

#[test]
fn a_pause_ends_in_a_new_attempt() {
    let (mut m, g) = launched();
    handle_unexpected_failure(&mut m, g, &policy(), "boom", "connecting");
    assert_eq!(retry_step(&mut m, g, true, true), RetryStep::Launch);
    assert_eq!(state(&m), "Launching");
}

#[test]
fn disconnecting_stops_the_session() {
    let mut m = AetherManager::new();
    assert_eq!(request_disconnect(&mut m).unwrap_err().code(), "not_connected");
    let (mut m, g) = launched();
    let stop = match request_disconnect(&mut m).unwrap() {
        DisconnectStep::Stopping { generation } => generation,
        DisconnectStep::Cancelled => panic!(),
    };
    assert_ne!(stop, g);
    assert_eq!(state(&m), "Disconnecting");
    assert!(m.user_requested_stop);
    assert_eq!(
        start_connect(&mut m, None).unwrap_err().code(),
        "already_running"
    );
    assert_eq!(shutdown_step(&mut m, stop, false, false), ShutdownStep::Wait);
    assert_eq!(
        shutdown_step(&mut m, stop, false, true),
        ShutdownStep::Finished { kill: true }
    );
    assert_eq!(state(&m), "Idle");
    assert!(m.session.is_none() && !m.user_requested_stop);
    let (mut m, _) = launched();
    if let DisconnectStep::Stopping { generation } = request_disconnect(&mut m).unwrap() {
        assert_eq!(
            shutdown_step(&mut m, generation, true, false),
            ShutdownStep::Finished { kill: false }
        );
    }
    assert_eq!(state(&m), "Idle");
}

#[test]
fn codes_go_to_the_running_session_only() {
    let m = AetherManager::new();
    assert_eq!(submit_access_code(&m, "1").unwrap_err().code(), "not_connected");
    let (m, _) = launched();
    assert_eq!(submit_access_code(&m, " 1 ").unwrap(), "1\r\n");
    assert_eq!(submit_access_code(&m, " ").unwrap_err().code(), "internal");
}

#[test]
fn exiting_gives_the_session_up() {
    let (mut m, g) = launched();
    let s = shutdown_blocking(&mut m).unwrap();
    assert_eq!(s.pid(), 11);
    assert_eq!(m.generation, g + 1);
    assert!(m.session.is_none());
    assert!(shutdown_blocking(&mut m).is_none());
    assert_eq!(exit_step(false, false), ExitStep::Sleep(EXIT_POLL_MS));
    assert_eq!(exit_step(true, false), ExitStep::Kill);
    assert_eq!(exit_step(false, true), ExitStep::Kill);
}

#[test]
fn connecting_is_announced_after_the_prompts_or_in_time() {
    let (mut m, g) = launched();
    let mut w = ConnectMonitor::new(g, 60_000);
    let p = policy();
    assert_eq!(
        w.poll(&mut m, None, false, PROMPT_PHASE_GRACE_MS - 1, &p),
        ConnectStep::Probe { announce: false }
    );
    assert_eq!(state(&m), "Launching");
    assert_eq!(
        w.poll(&mut m, None, false, PROMPT_PHASE_GRACE_MS, &p),
        ConnectStep::Probe { announce: true }
    );
    assert_eq!(state(&m), "Connecting");
    assert_eq!(
        w.poll(&mut m, None, true, PROMPT_PHASE_GRACE_MS, &p),
        ConnectStep::Probe { announce: false }
    );
    let (mut m, g) = launched();
    let mut w = ConnectMonitor::new(g, 60_000);
    assert_eq!(
        w.poll(&mut m, None, true, 0, &p),
        ConnectStep::Probe { announce: true }
    );
}

#[test]
fn a_live_port_is_a_connection() {
    let (mut m, g) = launched();
    m.retry_count = 2;
    let w = ConnectMonitor::new(g, 1000);
    assert_eq!(
        w.probed(&mut m, true, 2000, "127.0.0.1:1080", 5, &policy()),
        ConnectResult::Connected
    );
    assert_eq!(
        state(&m),
        "Connected { socks_addr: \"127.0.0.1:1080\", connected_at_ms: 5 }"
    );
    assert_eq!(m.retry_count, 0);
}

#[test]
fn a_connection_that_does_not_come_up_times_out() {
    let (mut m, g) = launched();
    m.retry_count = 3;
    let w = ConnectMonitor::new(g, 1000);
    assert_eq!(
        w.probed(&mut m, false, 999, "a", 5, &policy()),
        ConnectResult::Again
    );
    assert_eq!(
        w.probed(&mut m, false, 1000, "a", 5, &policy()),
        ConnectResult::TimedOut {
            kill: true,
            outcome: FailureOutcome::GaveUp
        }
    );
    assert_eq!(
        state(&m),
        "Error { message: \"Timed out waiting for Aether to find a working route (gave up after 3 retries)\", phase: \"connecting\" }"
    );
    assert!(m.session.is_none());
}

#[test]
fn a_session_that_ends_before_it_is_connected_fails() {
    let (mut m, g) = launched();
    m.retry_count = 3;
    let mut w = ConnectMonitor::new(g, 1000);
    assert_eq!(
        w.poll(&mut m, exited(2), false, 0, &policy()),
        ConnectStep::Failed(FailureOutcome::GaveUp)
    );
    assert_eq!(
        state(&m),
        "Error { message: \"Aether exited before connecting (Exited with code 2) (gave up after 3 retries)\", phase: \"connecting\" }"
    );
}

#[test]
fn two_failed_probes_in_a_row_lose_a_connection() {
    let (mut m, g) = launched();
    let p = policy();
    let mut w = HealthMonitor::new(g, 100);
    let due = 100 + CONNECTED_HEALTH_INTERVAL_MS;
    assert_eq!(w.poll(&mut m, None, due - 1, due, &p), HealthStep::Again);
    assert_eq!(w.next_health_ms, due);
    assert_eq!(w.poll(&mut m, None, due, due + 3, &p), HealthStep::Probe);
    assert_eq!(w.next_health_ms, due + 3 + CONNECTED_HEALTH_INTERVAL_MS);
    assert_eq!(w.probed(&mut m, false, &p), HealthStep::Again);
    assert_eq!(w.probed(&mut m, true, &p), HealthStep::Again);
    assert_eq!(w.probed(&mut m, false, &p), HealthStep::Again);
    m.retry_count = 3;
    assert_eq!(
        w.probed(&mut m, false, &p),
        HealthStep::Lost {
            kill: true,
            outcome: FailureOutcome::GaveUp
        }
    );
    assert_eq!(
        state(&m),
        "Error { message: \"SOCKS5 proxy stopped responding (gave up after 3 retries)\", phase: \"connected\" }"
    );
}

#[test]
fn a_connection_whose_session_ends_is_lost() {
    let (mut m, g) = launched();
    let mut w = HealthMonitor::new(g, 0);
    assert_eq!(
        w.poll(&mut m, exited(0), 1, 1, &policy()),
        HealthStep::Lost {
            kill: true,
            outcome: FailureOutcome::Retry {
                attempt: 1,
                backoff_ms: 2000
            }
        }
    );
    let (mut m, g) = launched();
    m.retry_count = 3;
    let mut w = HealthMonitor::new(g, 0);
    w.poll(&mut m, exited(0), 1, 1, &policy());
    assert_eq!(
        state(&m),
        "Error { message: \"Lost connection unexpectedly (Success) (gave up after 3 retries)\", phase: \"connected\" }"
    );
    let (mut m, g) = launched();
    request_disconnect(&mut m).unwrap();
    let mut w = HealthMonitor::new(g, 0);
    assert_eq!(w.poll(&mut m, exited(0), 1, 1, &policy()), HealthStep::Stop);
}

#[test]
fn no_session_is_leaked_when_lineages_overlap() {
    let (mut m, g) = launched();
    let p = policy();
    let mut w = ConnectMonitor::new(g, 1000);
    let stop = match request_disconnect(&mut m).unwrap() {
        DisconnectStep::Stopping { generation } => generation,
        DisconnectStep::Cancelled => panic!(),
    };
    assert_eq!(w.poll(&mut m, exited(1), true, 0, &p), ConnectStep::Stop);
    assert_eq!(
        shutdown_step(&mut m, stop, true, false),
        ShutdownStep::Finished { kill: false }
    );
    let next = start_connect(&mut m, None).unwrap();
    assert_eq!(shutdown_step(&mut m, stop, true, true), ShutdownStep::Superseded);
    assert!(matches!(
        spawn_and_monitor(&mut m, next, Ok(session())),
        SpawnOutcome::Watch
    ));
    assert_eq!(
        w.probed(&mut m, false, 1000, "a", 0, &p),
        ConnectResult::Stop
    );
    assert!(m.session.is_some());
}
