use aether_gui::aether::prompts::{looks_like_choice_prompt, PromptRule};
use aether_gui::aether::pty::PtySignal;
use aether_gui::aether::reader::{PromptReader, ReaderAction, CODE_REQUIRED, HEADER_ARM_WINDOW};
use aether_gui::events::now_millis;

fn rule(id: &str, header: &str, answer: &str) -> PromptRule {
    PromptRule {
        id: id.to_string(),
        header: header.to_string(),
        answer: answer.to_string(),
    }
}

fn reader() -> PromptReader {
    PromptReader::new(vec![
        rule("protocol", "Protocol", "2"),
        rule("scan", "Scan mode", "1"),
    ])
}

/// The actions, one line of text for each.
fn feed(r: &mut PromptReader, bytes: &[u8]) -> Vec<String> {
    let before = now_millis();
    r.on_chunk(bytes)
        .into_iter()
        .map(|a| match a {
            ReaderAction::Type(s) => format!("type {s}"),
            ReaderAction::Send(PtySignal::Log(e)) => {
                assert!(before <= e.timestamp && e.timestamp <= now_millis());
                format!("log {}", e.line)
            }
            ReaderAction::Send(PtySignal::AccessCodeRequested { sequence }) => {
                format!("code {sequence}")
            }
        })
        .collect()
}

#[test]
fn lines_are_logged_without_escapes_and_blanks() {
    let mut r = reader();
    assert_eq!(
        feed(&mut r, "\u{1b}[32mone\u{1b}[0m\r\n\r\n\u{1b}[0m\ntwo\npart".as_bytes()),
        ["log one", "log two"]
    );
    assert_eq!(r.signals.lines_seen(), 2);
    assert_eq!(r.partial(), "part");
    assert!(!r.signals.prompts_done());
}

#[test]
fn a_prompt_after_its_header_is_answered_once() {
    let mut r = reader();
    assert_eq!(
        feed(&mut r, b"Protocol\n1) a\n2) b\nChoice: "),
        [
            "log Protocol",
            "log 1) a",
            "log 2) b",
            "type 2\r\n",
            "log [gui] answered protocol \u{2192} 2",
        ]
    );
    assert_eq!(feed(&mut r, b" "), Vec::<String>::new());
    assert_eq!(feed(&mut r, b"2\nAgain: "), ["log Choice:  2"]);
    assert!(!r.signals.prompts_done());
}

#[test]
fn all_prompts_answered_means_prompts_done() {
    let mut r = reader();
    feed(&mut r, b"Protocol\nChoice:");
    assert!(!r.signals.prompts_done());
    assert_eq!(
        feed(&mut r, b"2\r\nScan mode\r\nChoice:"),
        [
            "log Choice:2",
            "log Scan mode",
            "type 1\r\n",
            "log [gui] answered scan \u{2192} 1",
        ]
    );
    assert!(r.signals.prompts_done());
    feed(&mut r, b"\nProtocol\n");
    assert!(r.signals.prompts_done());
}

#[test]
fn no_more_output_means_prompts_done() {
    let mut r = reader();
    r.on_eof();
    assert!(r.signals.prompts_done());
    assert_eq!(r.signals.lines_seen(), 0);
}

#[test]
fn a_header_arms_its_prompt_for_a_few_lines_only() {
    assert_eq!(HEADER_ARM_WINDOW, 4);
    let mut r = reader();
    assert_eq!(feed(&mut r, b"Protocol\n1\n2\n3\n4\nChoice:").len(), 7);
    let mut r = reader();
    assert_eq!(feed(&mut r, b"Protocol\n1\n2\n3\n4\n5\nChoice:").len(), 6);
    let mut r = reader();
    assert_eq!(feed(&mut r, b"Choice:"), Vec::<String>::new());
}

#[test]
fn a_header_that_comes_again_rearms_its_prompt() {
    let mut r = reader();
    assert_eq!(feed(&mut r, b"Protocol\nChoice:").len(), 3);
    assert_eq!(
        feed(&mut r, b"\nProtocol\nChoice:"),
        [
            "log Choice:",
            "log Protocol",
            "type 2\r\n",
            "log [gui] answered protocol \u{2192} 2",
        ]
    );
}

#[test]
fn a_header_is_not_answered_as_a_prompt() {
    let mut r = PromptReader::new(vec![rule("scan", "mode:", "1")]);
    assert_eq!(
        feed(&mut r, b"Scan mode:\nScan mode:"),
        ["log Scan mode:"]
    );
}

#[test]
fn a_request_for_a_code_is_reported_and_never_answered() {
    let mut r = reader();
    assert_eq!(CODE_REQUIRED, "[gui] Zero Trust access code required");
    assert_eq!(
        feed(&mut r, b"Protocol\nEnter the code:"),
        [
            "log Protocol",
            "code 1",
            "log [gui] Zero Trust access code required",
        ]
    );
    assert_eq!(feed(&mut r, b" "), Vec::<String>::new());
    assert_eq!(r.signals.access_code_seq(), 1);
    assert_eq!(
        feed(&mut r, b"wrong\nEnter the code:"),
        ["log Enter the code: wrong"]
    );
    assert_eq!(feed(&mut r, b"\n"), ["log Enter the code:"]);
    assert_eq!(
        feed(&mut r, b"Enter the code:"),
        ["code 2", "log [gui] Zero Trust access code required"]
    );
    assert_eq!(r.signals.access_code_seq(), 2);
}

#[test]
fn reads_can_be_cut_anywhere() {
    let bytes = "Protocol\r\n╭─\u{1b}[1m سلام\u{1b}[0m ─╮\r\nplain é\r\nend".as_bytes();
    let mut whole = reader();
    let all = feed(&mut whole, bytes);
    for at in 0..=bytes.len() {
        let mut r = reader();
        let mut got = feed(&mut r, &bytes[..at]);
        got.extend(feed(&mut r, &bytes[at..]));
        assert_eq!(got, all);
        assert_eq!(r.partial(), whole.partial());
    }
}

#[test]
fn broken_bytes_hold_nothing_back() {
    let mut r = reader();
    assert_eq!(feed(&mut r, b"\xffok\n"), ["log \u{fffd}ok"]);
    r.on_eof();
    assert_eq!(r.signals.lines_seen(), 1);
    let mut r = reader();
    assert_eq!(
        feed(&mut r, b"\xff\nProtocol\n\xfe?\xe2:"),
        [
            "log \u{fffd}",
            "log Protocol",
            "type 2\r\n",
            "log [gui] answered protocol \u{2192} 2",
        ]
    );
    let bytes = b"\xffone\n\xe2\x82two\xf0\n\xc3\xa9\n";
    let mut whole = reader();
    let all = feed(&mut whole, bytes);
    assert_eq!(all.len(), 3);
    for at in 0..=bytes.len() {
        let mut r = reader();
        let mut got = feed(&mut r, &bytes[..at]);
        got.extend(feed(&mut r, &bytes[at..]));
        assert_eq!(got, all);
    }
}

#[test]
fn headers_can_be_told_by_any_rule() {
    let mut r = reader();
    let lines = r.receive(b"PROTOCOL?\nother\nwhich:");
    assert_eq!(lines, ["PROTOCOL?", "other"]);
    let hits = vec![vec![true, false], vec![false, false]];
    let log = r.note_lines(&lines, &hits, &vec![5, 6]);
    assert_eq!(log.len(), 2);
    assert!(matches!(
        &log[0],
        ReaderAction::Send(PtySignal::Log(e)) if e.line == "PROTOCOL?" && e.timestamp == 5
    ));
    assert!(matches!(
        &log[1],
        ReaderAction::Send(PtySignal::Log(e)) if e.line == "other" && e.timestamp == 6
    ));
    let acts = r.respond(false, 7);
    assert!(matches!(&acts[0], ReaderAction::Type(s) if s == "2\r\n"));
    assert!(matches!(
        &acts[1],
        ReaderAction::Send(PtySignal::Log(e))
            if e.line == "[gui] answered protocol \u{2192} 2" && e.timestamp == 7
    ));
    assert_eq!(acts.len(), 2);
    assert_eq!(r.lines_since_header, 1);
}

#[test]
fn the_last_of_several_headers_counts() {
    let mut r = PromptReader::new(vec![rule("a", "mode", "1"), rule("b", "Scan mode", "2")]);
    let acts = feed(&mut r, b"Scan mode\n?:");
    assert_eq!(acts[1], "type 2\r\n");
}

#[test]
fn choice_prompts_end_with_a_colon() {
    assert!(looks_like_choice_prompt("Choice:"));
    assert!(looks_like_choice_prompt("Choice: \t"));
    assert!(!looks_like_choice_prompt("Choice: 2"));
    assert!(!looks_like_choice_prompt("  "));
    assert!(!looks_like_choice_prompt(""));
}
