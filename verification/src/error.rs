//! The errors that the supervisor reports.

use crate::text::{decimal, push_decimal};
use vstd::prelude::*;

verus! {

/// Why a request failed.
#[derive(Debug)]
pub enum AetherError {
    /// A connection is already there or being made.
    AlreadyRunning,
    /// The Aether program is not at this path.
    BinaryMissing(String),
    /// The Aether program could not be started, for this reason.
    SpawnFailed(String),
    /// Another process listens on this port.
    PortInUse(u16),
    /// There is no connection to act on.
    NotConnected,
    /// Anything else.
    Internal(String),
}

impl AetherError {
    /// The machine-readable name of this kind of error. It does not depend on
    /// the wording of the message.
    pub open spec fn code_text(&self) -> Seq<char> {
        match self {
            AetherError::AlreadyRunning => "already_running"@,
            AetherError::BinaryMissing(_) => "binary_missing"@,
            AetherError::SpawnFailed(_) => "spawn_failed"@,
            AetherError::PortInUse(_) => "port_in_use"@,
            AetherError::NotConnected => "not_connected"@,
            AetherError::Internal(_) => "internal"@,
        }
    }

    /// The message for a person to read.
    pub open spec fn message_text(&self) -> Seq<char> {
        match self {
            AetherError::AlreadyRunning => "Aether is already running"@,
            AetherError::BinaryMissing(path) => "Aether binary not found at "@ + path@,
            AetherError::SpawnFailed(reason) => "failed to launch Aether: "@ + reason@,
            AetherError::PortInUse(port) => "port "@ + decimal(*port as nat)
                + " is already in use by another process"@,
            AetherError::NotConnected => "no active connection"@,
            AetherError::Internal(reason) => "internal error: "@ + reason@,
        }
    }

    /// The machine-readable name of this kind of error.
    pub fn code(&self) -> (r: &'static str)
        ensures
            r@ == self.code_text(),
    {
        match self {
            AetherError::AlreadyRunning => "already_running",
            AetherError::BinaryMissing(_) => "binary_missing",
            AetherError::SpawnFailed(_) => "spawn_failed",
            AetherError::PortInUse(_) => "port_in_use",
            AetherError::NotConnected => "not_connected",
            AetherError::Internal(_) => "internal",
        }
    }

    /// The message for a person to read.
    pub fn message(&self) -> (r: String)
        ensures
            r@ == self.message_text(),
    {
        match self {
            AetherError::AlreadyRunning => "Aether is already running".to_owned(),
            AetherError::BinaryMissing(path) => {
                "Aether binary not found at ".to_owned().concat(path.as_str())
            },
            AetherError::SpawnFailed(reason) => {
                "failed to launch Aether: ".to_owned().concat(reason.as_str())
            },
            AetherError::PortInUse(port) => {
                let mut s = "port ".to_owned();
                push_decimal(&mut s, *port as u64);
                s.concat(" is already in use by another process")
            },
            AetherError::NotConnected => "no active connection".to_owned(),
            AetherError::Internal(reason) => "internal error: ".to_owned().concat(reason.as_str()),
        }
    }
}

/// Whether two errors are of the same kind.
pub open spec fn same_kind(a: AetherError, b: AetherError) -> bool {
    match (a, b) {
        (AetherError::AlreadyRunning, AetherError::AlreadyRunning) => true,
        (AetherError::BinaryMissing(_), AetherError::BinaryMissing(_)) => true,
        (AetherError::SpawnFailed(_), AetherError::SpawnFailed(_)) => true,
        (AetherError::PortInUse(_), AetherError::PortInUse(_)) => true,
        (AetherError::NotConnected, AetherError::NotConnected) => true,
        (AetherError::Internal(_), AetherError::Internal(_)) => true,
        _ => false,
    }
}

/// The code tells the kinds of errors apart, and nothing else: two errors have
/// the same code exactly where they are of the same kind.
pub proof fn law_code_is_the_kind(a: AetherError, b: AetherError)
    ensures
        a.code_text() == b.code_text() <==> same_kind(a, b),
{
    reveal_strlit("already_running");
    reveal_strlit("binary_missing");
    reveal_strlit("spawn_failed");
    reveal_strlit("port_in_use");
    reveal_strlit("not_connected");
    reveal_strlit("internal");
    assert(a.code_text().len() == b.code_text().len() ==> same_kind(a, b));
}

/// What each error tells: its code, and a message that names the path, the
/// reason or the port it carries.
pub proof fn law_errors_tell_what_they_carry(path: String, port: u16)
    ensures
        AetherError::AlreadyRunning.code_text() == "already_running"@,
        AetherError::AlreadyRunning.message_text() == "Aether is already running"@,
        AetherError::BinaryMissing(path).code_text() == "binary_missing"@,
        AetherError::BinaryMissing(path).message_text() == "Aether binary not found at "@ + path@,
        AetherError::SpawnFailed(path).code_text() == "spawn_failed"@,
        AetherError::SpawnFailed(path).message_text() == "failed to launch Aether: "@ + path@,
        AetherError::PortInUse(port).code_text() == "port_in_use"@,
        AetherError::PortInUse(port).message_text() == "port "@ + decimal(port as nat)
            + " is already in use by another process"@,
        AetherError::NotConnected.code_text() == "not_connected"@,
        AetherError::NotConnected.message_text() == "no active connection"@,
        AetherError::Internal(path).code_text() == "internal"@,
        AetherError::Internal(path).message_text() == "internal error: "@ + path@,
{
}

} // verus!
