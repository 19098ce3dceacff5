//! The terminal session that Aether runs in.

use crate::error::AetherError;
use crate::events::LogEvent;
use crate::text::{
    chars_of, decimal, is_space, law_trimming_takes_the_space_around, trim, trimmed,
};
use vstd::prelude::*;
use vstd::utf8::encode_utf8;

verus! {

/// What the supervisor observes of a session's reader.
#[derive(Clone, Copy, Debug)]
pub struct SessionSignals {
    /// Every prompt has been answered, or no more output will come.
    pub prompts_done: bool,
    /// The number of lines that have been logged.
    pub lines_seen: u64,
    /// The number of requests for a one-time code.
    pub access_code_seq: u64,
}

impl Default for SessionSignals {
    fn default() -> (r: SessionSignals)
        ensures
            !r.prompts_done,
            r.lines_seen == 0,
            r.access_code_seq == 0,
    {
        SessionSignals { prompts_done: false, lines_seen: 0, access_code_seq: 0 }
    }
}

impl SessionSignals {
    /// Whether every prompt has been answered, or no more output will come.
    pub fn prompts_done(&self) -> (r: bool)
        ensures
            r == self.prompts_done,
    {
        self.prompts_done
    }

    /// The number of lines that have been logged.
    pub fn lines_seen(&self) -> (r: u64)
        ensures
            r == self.lines_seen,
    {
        self.lines_seen
    }

    /// The number of requests for a one-time code.
    pub fn access_code_seq(&self) -> (r: u64)
        ensures
            r == self.access_code_seq,
    {
        self.access_code_seq
    }
}

/// What the reader of a session reports.
pub enum PtySignal {
    /// A line of output.
    Log(LogEvent),
    /// Aether waits for a one-time code.
    AccessCodeRequested { sequence: u64 },
}

/// The size of the terminal, in lines of text.
pub const PTY_ROWS: u16 = 40;

/// The size of the terminal, in columns of text.
pub const PTY_COLS: u16 = 120;

/// The largest one-time code, in bytes.
pub const MAX_ACCESS_CODE: usize = 512;

/// How often a killed process is polled, in milliseconds.
pub const REAP_POLL_MS: u64 = 25;

/// How a process ended.
pub struct ExitReport {
    /// Its exit code.
    pub code: u32,
    /// The name of the signal that ended it, if one did.
    pub signal: Option<String>,
}

/// `portable_pty::ExitStatus::with_exit_code`, written out with `Display`: what
/// a process that ended with `code`, and by no signal, is reported as.
#[verifier::external_body]
fn exit_code_text(code: u32) -> (s: String)
    ensures
        code == 0 ==> s@ == "Success"@,
        code != 0 ==> s@ == "Exited with code "@ + decimal(code as nat),
{
    portable_pty::ExitStatus::with_exit_code(code).to_string()
}

/// `portable_pty::ExitStatus::with_signal`, written out with `Display`: what a
/// process that the signal with the given name ended is reported as.
#[verifier::external_body]
fn exit_signal_text(signal: &str) -> (s: String)
    ensures
        s@ == "Terminated by "@ + signal@,
{
    portable_pty::ExitStatus::with_signal(signal).to_string()
}

impl ExitReport {
    /// How a process ended, in words.
    pub open spec fn text(&self) -> Seq<char> {
        match self.signal {
            Some(name) => "Terminated by "@ + name@,
            None => if self.code == 0 {
                "Success"@
            } else {
                "Exited with code "@ + decimal(self.code as nat)
            },
        }
    }

    /// How a process ended, in words.
    pub fn describe(&self) -> (s: String)
        ensures
            s@ == self.text(),
    {
        match &self.signal {
            Some(name) => exit_signal_text(name.as_str()),
            None => exit_code_text(self.code),
        }
    }
}

/// What a poll of a process shows.
pub enum ChildPoll {
    /// It still runs.
    Running,
    /// It has ended like this, and its end has been collected.
    Exited(ExitReport),
    /// It cannot be polled.
    Failed,
}

/// What to do about a process that was killed.
#[derive(Clone, Copy, Debug, PartialEq, Eq, Structural)]
pub enum ReapStep {
    /// Nothing more.
    Done,
    /// Wait until it ends.
    Wait,
    /// Sleep for this many milliseconds and poll again.
    Sleep(u64),
}

/// What to do about a process that was killed, from what a poll of it shows and
/// whether the time for it to end is up.
pub open spec fn reap_next(poll: ChildPoll, time_is_up: bool) -> ReapStep {
    match poll {
        ChildPoll::Running => if time_is_up {
            ReapStep::Wait
        } else {
            ReapStep::Sleep(REAP_POLL_MS)
        },
        _ => ReapStep::Done,
    }
}

/// Whether `code`, without the white space around it, can be sent as a
/// one-time code: it is not empty, not too large, and one line.
pub open spec fn is_access_code(code: Seq<char>) -> bool {
    let t = trimmed(code);
    &&& t.len() > 0
    &&& encode_utf8(t).len() <= MAX_ACCESS_CODE
    &&& !t.contains('\r')
    &&& !t.contains('\n')
}

/// Whether `r` is an internal error with the given reason.
pub open spec fn is_internal(e: AetherError, reason: Seq<char>) -> bool {
    e matches AetherError::Internal(s) && s@ == reason
}

/// A running session, as far as the supervisor decides about it.
#[derive(Clone, Copy, Debug)]
pub struct PtySession {
    /// The id of the process, where it has one.
    pub process_id: Option<u32>,
    /// What was last observed of the reader.
    pub signals: SessionSignals,
}

impl PtySession {
    /// The id of the process; 0 where it has none.
    pub fn pid(&self) -> (r: u32)
        ensures
            self.process_id matches Some(id) ==> r == id,
            self.process_id is None ==> r == 0,
    {
        match self.process_id {
            Some(id) => id,
            None => 0,
        }
    }

    /// What was last observed of the reader.
    pub fn signals(&self) -> (r: SessionSignals)
        ensures
            r == self.signals,
    {
        self.signals
    }

    /// Whether the prompts were done when the reader was last observed.
    pub fn prompts_done(&self) -> (r: bool)
        ensures
            r == self.signals.prompts_done,
    {
        self.signals.prompts_done()
    }

    /// How the process ended, if a poll of it shows that it has. A process that
    /// cannot be polled counts as running.
    pub fn try_wait(&self, poll: ChildPoll) -> (r: Option<ExitReport>)
        ensures
            r == (match poll {
                ChildPoll::Exited(report) => Some(report),
                _ => None,
            }),
    {
        match poll {
            ChildPoll::Exited(report) => Some(report),
            _ => None,
        }
    }

    /// The bytes that interrupt the program: the one that a terminal sends for
    /// Ctrl-C.
    pub fn send_ctrl_c(&self) -> (r: Vec<u8>)
        ensures
            r@ == seq![3u8],
    {
        let mut r: Vec<u8> = Vec::new();
        r.push(3u8);
        r
    }

    /// The text that enters a one-time code: the code without the white space
    /// around it, and a line ending. It goes to the terminal and to no log.
    pub fn send_access_code(&self, code: &str) -> (r: Result<String, AetherError>)
        ensures
            r is Ok <==> is_access_code(code@),
            r matches Ok(s) ==> s@ == trimmed(code@) + "\r\n"@,
            r matches Err(e) ==> is_internal(e, "invalid Zero Trust access code"@),
    {
        let t = trim(code);
        if t.as_str().is_empty() || t.as_str().as_bytes().len() > MAX_ACCESS_CODE || has_line_break(
            t.as_str(),
        ) {
            return Err(AetherError::Internal("invalid Zero Trust access code".to_owned()));
        }
        Ok(t.concat("\r\n"))
    }

    /// The next step after the process was killed, from what a poll of it
    /// shows and whether the time for it to end is up. The end of the process
    /// is always collected, by a poll or by waiting for it.
    pub fn kill_and_reap(&self, poll: ChildPoll, time_is_up: bool) -> (r: ReapStep)
        ensures
            r == reap_next(poll, time_is_up),
            r is Done <==> !(poll is Running),
            r is Wait <==> poll is Running && time_is_up,
            poll is Running && !time_is_up ==> r == ReapStep::Sleep(REAP_POLL_MS),
    {
        match poll {
            ChildPoll::Running => if time_is_up {
                ReapStep::Wait
            } else {
                ReapStep::Sleep(REAP_POLL_MS)
            },
            ChildPoll::Exited(_) => ReapStep::Done,
            ChildPoll::Failed => ReapStep::Done,
        }
    }
}

/// Whether `s` holds a carriage return or a line feed.
fn has_line_break(s: &str) -> (b: bool)
    ensures
        b == (s@.contains('\r') || s@.contains('\n')),
{
    let v = chars_of(s);
    let mut i: usize = 0;
    while i < v.len()
        invariant
            v@ == s@,
            i <= v@.len(),
            forall|k: int| 0 <= k < i ==> v@[k] != '\r' && v@[k] != '\n',
        decreases v@.len() - i,
    {
        if v[i] == '\r' || v[i] == '\n' {
            assert(s@.contains(v@[i as int]));
            return true;
        }
        i = i + 1;
    }
    false
}

/// The error for a terminal that cannot be written to any more.
pub fn input_unavailable() -> (e: AetherError)
    ensures
        is_internal(e, "Aether input is unavailable"@),
{
    AetherError::Internal("Aether input is unavailable".to_owned())
}

/// The error for a one-time code that could not be written, for this reason.
pub fn access_code_not_sent(reason: &str) -> (e: AetherError)
    ensures
        is_internal(e, "sending Zero Trust access code: "@ + reason@),
{
    AetherError::Internal("sending Zero Trust access code: ".to_owned().concat(reason))
}

/// What enters a one-time code is a single line: its only line break is the
/// line ending.
pub proof fn law_access_code_is_one_line(code: Seq<char>, i: int)
    requires
        is_access_code(code),
        0 <= i < (trimmed(code) + "\r\n"@).len(),
        (trimmed(code) + "\r\n"@)[i] == '\r' || (trimmed(code) + "\r\n"@)[i] == '\n',
    ensures
        i >= trimmed(code).len(),
        (trimmed(code) + "\r\n"@).len() == trimmed(code).len() + 2,
{
    reveal_strlit("\r\n");
    let t = trimmed(code);
    if i < t.len() {
        assert(t.contains(t[i]));
    }
}

/// A one-time code, with any white space around it, can be sent exactly where
/// it is not empty, takes at most 512 bytes, and holds no carriage return and
/// no line feed.
pub proof fn law_what_a_one_time_code_can_be(a: Seq<char>, code: Seq<char>, b: Seq<char>)
    requires
        forall|i: int| 0 <= i < a.len() ==> is_space(#[trigger] a[i]),
        forall|i: int| 0 <= i < b.len() ==> is_space(#[trigger] b[i]),
        code.len() > 0 ==> !is_space(code[0]) && !is_space(code[code.len() - 1]),
    ensures
        trimmed(a + code + b) == code,
        is_access_code(a + code + b) <==> code.len() > 0 && encode_utf8(code).len() <= 512
            && forall|i: int|
            0 <= i < code.len() ==> #[trigger] code[i] != '\r' && code[i] != '\n',
{
    law_trimming_takes_the_space_around(a, code, b);
    if forall|i: int| 0 <= i < code.len() ==> #[trigger] code[i] != '\r' && code[i] != '\n' {
    } else {
        let i = choose|i: int|
            0 <= i < code.len() && !(#[trigger] code[i] != '\r' && code[i] != '\n');
        assert(code.contains(code[i]));
    }
}

/// How the end of a process is told: by the name of the signal that ended it,
/// whatever its code; otherwise as a success exactly for the code 0, and by the
/// code for any other.
pub proof fn law_how_an_end_is_told(code: u32, name: String)
    ensures
        (ExitReport { code, signal: Some(name) }).text() == "Terminated by "@ + name@,
        (ExitReport { code: 0, signal: None }).text() == "Success"@,
        code != 0 ==> (ExitReport { code, signal: None }).text() == "Exited with code "@ + decimal(
            code as nat,
        ),
{
}

/// The size of the terminal, the limit of a one-time code and the pause between
/// two looks at a killed process.
pub proof fn law_the_terminal_and_its_limits()
    ensures
        PTY_ROWS == 40,
        PTY_COLS == 120,
        MAX_ACCESS_CODE == 512,
        REAP_POLL_MS == 25,
{
}

/// A process that was killed is done with only when its end has been collected
/// or cannot be; until then it is looked at again every 25 milliseconds while
/// there is time, and waited for after that.
pub proof fn law_a_killed_process_is_seen_to_its_end(report: ExitReport, time_is_up: bool)
    ensures
        reap_next(ChildPoll::Exited(report), time_is_up) == ReapStep::Done,
        reap_next(ChildPoll::Failed, time_is_up) == ReapStep::Done,
        reap_next(ChildPoll::Running, false) == ReapStep::Sleep(25),
        reap_next(ChildPoll::Running, true) == ReapStep::Wait,
{
}

} // verus!
