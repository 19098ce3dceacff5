use aether_gui::aether::pty::PtySignal;
use aether_gui::aether::pump::{access_code_event, LogPump, PumpAction, PumpEvent};
use aether_gui::aether::status::{LOG_BATCH_MAX, LOG_FLUSH_MS};
use aether_gui::events::LogEvent;

fn log(line: &str) -> PumpEvent {
    PumpEvent::Signal(PtySignal::Log(LogEvent {
        line: line.to_string(),
        timestamp: 1,
    }))
}

fn lines(a: &PumpAction) -> Vec<String> {
    match a {
        PumpAction::EmitBatch(b) => b.lines.iter().map(|e| e.line.clone()).collect(),
        _ => panic!(),
    }
}

#[test]
fn lines_wait_until_the_time_is_up() {
    let mut p = LogPump::new(1000);
    assert_eq!(p.wait_ms(1000), LOG_FLUSH_MS);
    assert_eq!(p.wait_ms(1100), LOG_FLUSH_MS - 100);
    assert_eq!(p.wait_ms(5000), 0);
    assert!(p.on_event(log("a")).is_empty());
    assert!(p.on_event(log("b")).is_empty());
    assert_eq!(p.next_flush_ms, 1000 + LOG_FLUSH_MS);
    let acts = p.on_event(PumpEvent::Timeout);
    assert_eq!(acts.len(), 2);
    assert_eq!(lines(&acts[0]), ["a", "b"]);
    assert!(matches!(&acts[1], PumpAction::Rearm));
    p.rearm(1125);
    assert_eq!(p.next_flush_ms, 1125 + LOG_FLUSH_MS);
    let acts = p.on_event(PumpEvent::Timeout);
    assert_eq!(acts.len(), 1);
    assert!(matches!(&acts[0], PumpAction::Rearm));
}

#[test]
fn a_full_batch_is_handed_on_at_once() {
    let mut p = LogPump::new(0);
    for i in 1..LOG_BATCH_MAX {
        assert!(p.on_event(log(&format!("{i}"))).is_empty());
    }
    let acts = p.on_event(log("last"));
    assert_eq!(acts.len(), 2);
    assert_eq!(lines(&acts[0]).len(), 256);
    assert_eq!(lines(&acts[0])[0], "1");
    assert_eq!(lines(&acts[0])[255], "last");
    assert!(matches!(&acts[1], PumpAction::Rearm));
    assert!(p.batch.is_empty());
}

#[test]
fn a_request_for_a_code_follows_the_lines_before_it() {
    let mut p = LogPump::new(0);
    p.on_event(log("a"));
    let ask = || PumpEvent::Signal(PtySignal::AccessCodeRequested { sequence: 3 });
    let acts = p.on_event(ask());
    assert_eq!(acts.len(), 3);
    assert_eq!(lines(&acts[0]), ["a"]);
    assert!(matches!(&acts[1], PumpAction::Rearm));
    assert!(matches!(&acts[2], PumpAction::EmitAccessCode(3)));
    let acts = p.on_event(ask());
    assert_eq!(acts.len(), 2);
    assert!(matches!(&acts[1], PumpAction::EmitAccessCode(3)));
    let e = access_code_event(3, 77);
    assert_eq!((e.sequence, e.requested_at_ms), (3, 77));
}

#[test]
fn the_end_hands_on_what_waits() {
    let mut p = LogPump::new(0);
    p.on_event(log("a"));
    let acts = p.on_event(PumpEvent::Disconnected);
    assert_eq!(acts.len(), 2);
    assert_eq!(lines(&acts[0]), ["a"]);
    assert!(matches!(&acts[1], PumpAction::Stop));
    let acts = p.on_event(PumpEvent::Disconnected);
    assert_eq!(acts.len(), 1);
    assert!(matches!(&acts[0], PumpAction::Stop));
}
