use aether_gui::aether::ansi::strip_ansi;
use aether_gui::aether::decode::decode_step;
use aether_gui::aether::lines::{drain_lines, MAX_PARTIAL};
use aether_gui::aether::pty::{
    access_code_not_sent, input_unavailable, ChildPoll, ExitReport, PtySession, ReapStep,
    SessionSignals, MAX_ACCESS_CODE, REAP_POLL_MS,
};

fn feed(buf: &mut String, chunk: &str) -> Vec<String> {
    buf.push_str(chunk);
    drain_lines(buf)
}

#[test]
fn plain_newlines() {
    let mut buf = String::new();
    assert_eq!(feed(&mut buf, "a\nb\nc"), ["a", "b"]);
    assert_eq!(buf, "c");
}

#[test]
fn crlf_and_onlcr_double_cr() {
    let mut buf = String::new();
    assert_eq!(feed(&mut buf, "a\r\nb\r\r\n"), ["a", "b"]);
    assert_eq!(buf, "");
}

#[test]
fn cr_overwrite_drops_spinner_frames() {
    let mut buf = String::new();
    assert_eq!(
        feed(&mut buf, "scan 1%\rscan 2%\rscan 3%"),
        Vec::<String>::new()
    );
    assert_eq!(buf, "scan 3%");
    assert_eq!(feed(&mut buf, "\rscan done\n"), ["scan done"]);
    assert_eq!(buf, "");
}

#[test]
fn lone_cr_at_end_waits_for_possible_lf() {
    let mut buf = String::new();
    assert_eq!(feed(&mut buf, "abc\r"), Vec::<String>::new());
    assert_eq!(buf, "abc\r");
    assert_eq!(feed(&mut buf, "\n"), ["abc"]);
    assert_eq!(buf, "");
}

#[test]
fn unterminated_tail_is_capped() {
    let mut buf = String::new();
    let big = "é".repeat(MAX_PARTIAL);
    assert_eq!(feed(&mut buf, &big), Vec::<String>::new());
    assert!(buf.len() <= MAX_PARTIAL + 1);
    assert!(buf.chars().all(|c| c == 'é'));
}

#[test]
fn strips_csi_and_osc() {
    assert_eq!(strip_ansi("\u{1b}[32m[+]\u{1b}[0m ok"), "[+] ok");
    assert_eq!(strip_ansi("\u{1b}]0;Aether\u{7}ready"), "ready");
    assert_eq!(strip_ansi("\u{1b}]0;Aether\u{1b}\\ready"), "ready");
}

#[test]
fn split_utf8_across_reads_is_not_corrupted() {
    let text = "سلام\n";
    let bytes = text.as_bytes();
    let mut line_buf = String::new();
    let mut carry: Vec<u8> = Vec::new();
    let mut out = Vec::new();
    for chunk in bytes.chunks(3) {
        decode_step(&mut carry, chunk, &mut line_buf);
        out.extend(drain_lines(&mut line_buf));
    }
    assert_eq!(out, ["سلام"]);
}

#[test]
fn escapes_that_are_cut_off_take_the_rest() {
    assert_eq!(strip_ansi("a\u{1b}"), "a");
    assert_eq!(strip_ansi("a\u{1b}[12;3"), "a");
    assert_eq!(strip_ansi("a\u{1b}]0;title"), "a");
    assert_eq!(strip_ansi("a\u{1b}]0;title\u{1b}"), "a");
    assert_eq!(strip_ansi("a\u{1b}=b"), "ab");
    assert_eq!(strip_ansi("a\u{1b}("), "a");
    assert_eq!(strip_ansi("\u{1b}\u{1b}[0m"), "[0m");
    assert_eq!(strip_ansi("\u{1b}]x\u{1b}y\u{7}z"), "z");
    assert_eq!(strip_ansi("plain é"), "plain é");
    assert_eq!(strip_ansi(""), "");
}

#[test]
fn the_designation_of_a_character_set_is_removed_whole() {
    assert_eq!(strip_ansi("\u{1b}(Bok"), "ok");
    assert_eq!(strip_ansi("a\u{1b}(Bc\u{1b}(0d"), "acd");
    assert_eq!(strip_ansi("\u{1b}(\u{1b}[0mok"), "ok");
    assert_eq!(strip_ansi("\u{1b}(\u{1b}]0;t:"), "");
    assert_eq!(strip_ansi("\u{1b}( ok"), " ok");
    assert_eq!(strip_ansi("\u{1b}(éok"), "éok");
}

#[test]
fn other_escapes_are_two_characters_long() {
    assert_eq!(strip_ansi("\u{1b}=ok\u{1b}>"), "ok");
    assert_eq!(strip_ansi("\u{1b} hello"), "hello");
    assert_eq!(strip_ansi("\u{1b}#8ok"), "8ok");
    assert_eq!(strip_ansi("\u{1b}7(B"), "(B");
    assert_eq!(strip_ansi("\u{1b}/\u{1b}[1mok"), "ok");
}

#[test]
fn stripping_twice_changes_nothing() {
    let once = strip_ansi("\u{1b}\u{1b}[0m a \u{1b}]2;t\u{7}b\u{1b}[1;31mc");
    assert!(!once.contains('\u{1b}'));
    assert_eq!(strip_ansi(&once), once);
}

#[test]
fn a_carriage_return_inside_a_terminated_line_overwrites() {
    let mut buf = String::new();
    assert_eq!(feed(&mut buf, "old\rnew\r\r\nnext"), ["new"]);
    assert_eq!(buf, "next");
    let mut buf = String::new();
    assert_eq!(feed(&mut buf, "\n\r\n\r\r"), ["", ""]);
    assert_eq!(buf, "\r\r");
    let mut buf = String::new();
    assert_eq!(feed(&mut buf, "a\rb\r"), Vec::<String>::new());
    assert_eq!(buf, "b\r");
}

#[test]
fn output_can_be_cut_between_any_two_characters() {
    let text = "a\rb\r\n\r\nc\r\r\nlast\rlonger\r";
    let mut whole = String::new();
    let lines = feed(&mut whole, text);
    for at in 0..=text.len() {
        let mut buf = String::new();
        let mut got = feed(&mut buf, &text[..at]);
        got.extend(feed(&mut buf, &text[at..]));
        assert_eq!(got, lines);
        assert_eq!(buf, whole);
    }
    assert_eq!(drain_lines(&mut whole), Vec::<String>::new());
    assert_eq!(whole, "longer\r");
}

#[test]
fn a_tail_is_cut_to_whole_characters() {
    let mut buf = String::new();
    let text = format!("{}{}", "€".repeat(5000), "x".repeat(2000));
    feed(&mut buf, &text);
    assert!(buf.len() <= MAX_PARTIAL);
    assert!(buf.len() > MAX_PARTIAL - 3);
    assert!(text.ends_with(&buf));
    let mut fits = String::new();
    feed(&mut fits, &"x".repeat(MAX_PARTIAL));
    assert_eq!(fits.len(), MAX_PARTIAL);
}

fn session() -> PtySession {
    PtySession {
        process_id: Some(4711),
        signals: SessionSignals {
            prompts_done: true,
            lines_seen: 3,
            access_code_seq: 2,
        },
    }
}

#[test]
fn a_session_tells_what_it_knows() {
    let s = session();
    assert_eq!(s.pid(), 4711);
    assert!(s.prompts_done());
    assert_eq!(s.signals().lines_seen(), 3);
    assert_eq!(s.signals().access_code_seq(), 2);
    assert!(s.signals().prompts_done());
    let unknown = PtySession {
        process_id: None,
        signals: SessionSignals::default(),
    };
    assert_eq!(unknown.pid(), 0);
    assert!(!unknown.prompts_done());
    assert_eq!(unknown.signals().lines_seen(), 0);
    assert_eq!(unknown.signals().access_code_seq(), 0);
    assert_eq!(s.send_ctrl_c(), [3u8]);
}

#[test]
fn access_codes_are_trimmed_and_checked() {
    let s = session();
    assert_eq!(s.send_access_code(" 123456 \n").unwrap(), "123456\r\n");
    assert_eq!(s.send_access_code("\u{3000}a b\u{a0}").unwrap(), "a b\r\n");
    let most = "x".repeat(MAX_ACCESS_CODE);
    assert_eq!(s.send_access_code(&most).unwrap(), format!("{most}\r\n"));
    for bad in [
        String::new(),
        " \t\r\n".to_string(),
        "12\n34".to_string(),
        "12\r34".to_string(),
        "x".repeat(MAX_ACCESS_CODE + 1),
        "é".repeat(MAX_ACCESS_CODE / 2 + 1),
    ] {
        let e = s.send_access_code(&bad).unwrap_err();
        assert_eq!(e.code(), "internal");
        assert_eq!(
            e.message(),
            "internal error: invalid Zero Trust access code"
        );
    }
}

#[test]
fn input_errors_say_what_failed() {
    assert_eq!(
        input_unavailable().message(),
        "internal error: Aether input is unavailable"
    );
    assert_eq!(
        access_code_not_sent("broken pipe").message(),
        "internal error: sending Zero Trust access code: broken pipe"
    );
}

fn ok() -> ExitReport {
    ExitReport {
        code: 0,
        signal: None,
    }
}

#[test]
fn only_a_process_that_has_ended_is_reported() {
    let s = session();
    let report = s.try_wait(ChildPoll::Exited(ExitReport {
        code: 7,
        signal: None,
    }));
    assert_eq!(report.unwrap().describe(), "Exited with code 7");
    assert!(s.try_wait(ChildPoll::Running).is_none());
    assert!(s.try_wait(ChildPoll::Failed).is_none());
}

#[test]
fn a_killed_process_is_always_collected() {
    let s = session();
    assert_eq!(
        s.kill_and_reap(ChildPoll::Running, false),
        ReapStep::Sleep(REAP_POLL_MS)
    );
    assert_eq!(s.kill_and_reap(ChildPoll::Running, true), ReapStep::Wait);
    assert_eq!(s.kill_and_reap(ChildPoll::Exited(ok()), false), ReapStep::Done);
    assert_eq!(s.kill_and_reap(ChildPoll::Failed, true), ReapStep::Done);
}

#[test]
fn exits_are_described_as_the_terminal_library_does() {
    for code in [0u32, 1, 9, 10, 137, u32::MAX] {
        let r = ExitReport { code, signal: None };
        assert_eq!(
            r.describe(),
            portable_pty::ExitStatus::with_exit_code(code).to_string()
        );
    }
    assert_eq!(ok().describe(), "Success");
    let failed = ExitReport {
        code: 101,
        signal: None,
    };
    assert_eq!(failed.describe(), "Exited with code 101");
    let killed = ExitReport {
        code: 1,
        signal: Some("Killed".to_string()),
    };
    assert_eq!(killed.describe(), "Terminated by Killed");
    assert_eq!(
        killed.describe(),
        portable_pty::ExitStatus::with_signal("Killed").to_string()
    );
}
