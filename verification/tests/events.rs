use aether_gui::error::AetherError;
use aether_gui::events::{now_millis, timestamp_of, ACCESS_CODE_EVENT, LOG_EVENT, STATUS_EVENT};

#[test]
fn errors_have_their_codes_and_messages() {
    let all = [
        (
            AetherError::AlreadyRunning,
            "already_running",
            "Aether is already running",
        ),
        (
            AetherError::BinaryMissing("/opt/aether".to_string()),
            "binary_missing",
            "Aether binary not found at /opt/aether",
        ),
        (
            AetherError::SpawnFailed("no pty".to_string()),
            "spawn_failed",
            "failed to launch Aether: no pty",
        ),
        (
            AetherError::PortInUse(1080),
            "port_in_use",
            "port 1080 is already in use by another process",
        ),
        (
            AetherError::NotConnected,
            "not_connected",
            "no active connection",
        ),
        (
            AetherError::Internal("oops".to_string()),
            "internal",
            "internal error: oops",
        ),
    ];
    for (i, (e, code, message)) in all.iter().enumerate() {
        assert_eq!(e.code(), *code);
        assert_eq!(e.message(), *message);
        for (j, (other, _, _)) in all.iter().enumerate() {
            assert_eq!(e.code() == other.code(), i == j);
        }
    }
    assert_eq!(AetherError::PortInUse(1).code(), AetherError::PortInUse(2).code());
}

#[test]
fn timestamps_are_milliseconds_since_the_epoch() {
    assert_eq!(timestamp_of(None), 0);
    assert_eq!(timestamp_of(Some(1_700_000_000_123)), 1_700_000_000_123);
    assert_eq!(timestamp_of(Some((1u128 << 64) + 5)), 5);
}

#[test]
fn the_clock_runs_in_milliseconds() {
    let before = std::time::SystemTime::now()
        .duration_since(std::time::UNIX_EPOCH)
        .unwrap()
        .as_millis() as u64;
    let now = now_millis();
    assert!(now >= before);
    assert!(now < before + 60_000);
}

#[test]
fn events_have_their_names() {
    assert_eq!(STATUS_EVENT, "aether://status");
    assert_eq!(LOG_EVENT, "aether://log");
    assert_eq!(ACCESS_CODE_EVENT, "aether://access-code");
}
