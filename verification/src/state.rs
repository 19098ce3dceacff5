//! The state of the connection.

use vstd::prelude::*;

verus! {

/// The state of the connection.
#[derive(Debug)]
pub enum ConnectionState {
    /// There is no connection.
    Idle,
    /// Aether is being started.
    Launching,
    /// Aether runs and looks for a route.
    Connecting,
    /// The SOCKS proxy at `socks_addr` is up.
    Connected { socks_addr: String, connected_at_ms: u64 },
    /// The connection was lost and is about to be made again.
    Reconnecting { attempt: u32, max_attempts: u32 },
    /// Aether is being stopped.
    Disconnecting,
    /// The connection failed in the given phase.
    Error { message: String, phase: String },
}

/// A [`ConnectionState`] by its texts.
pub enum StateView {
    Idle,
    Launching,
    Connecting,
    Connected { socks_addr: Seq<char>, connected_at_ms: u64 },
    Reconnecting { attempt: u32, max_attempts: u32 },
    Disconnecting,
    Error { message: Seq<char>, phase: Seq<char> },
}

impl View for ConnectionState {
    type V = StateView;

    open spec fn view(&self) -> StateView {
        match self {
            ConnectionState::Idle => StateView::Idle,
            ConnectionState::Launching => StateView::Launching,
            ConnectionState::Connecting => StateView::Connecting,
            ConnectionState::Connected { socks_addr, connected_at_ms } => StateView::Connected {
                socks_addr: socks_addr@,
                connected_at_ms: *connected_at_ms,
            },
            ConnectionState::Reconnecting { attempt, max_attempts } => StateView::Reconnecting {
                attempt: *attempt,
                max_attempts: *max_attempts,
            },
            ConnectionState::Disconnecting => StateView::Disconnecting,
            ConnectionState::Error { message, phase } => StateView::Error {
                message: message@,
                phase: phase@,
            },
        }
    }
}

impl Clone for ConnectionState {
    fn clone(&self) -> (r: ConnectionState)
        ensures
            r@ == self@,
    {
        match self {
            ConnectionState::Idle => ConnectionState::Idle,
            ConnectionState::Launching => ConnectionState::Launching,
            ConnectionState::Connecting => ConnectionState::Connecting,
            ConnectionState::Connected { socks_addr, connected_at_ms } => {
                ConnectionState::Connected {
                    socks_addr: socks_addr.clone(),
                    connected_at_ms: *connected_at_ms,
                }
            },
            ConnectionState::Reconnecting { attempt, max_attempts } => {
                ConnectionState::Reconnecting { attempt: *attempt, max_attempts: *max_attempts }
            },
            ConnectionState::Disconnecting => ConnectionState::Disconnecting,
            ConnectionState::Error { message, phase } => {
                ConnectionState::Error { message: message.clone(), phase: phase.clone() }
            },
        }
    }
}

/// Each state is seen with all that it carries.
pub proof fn law_a_state_is_seen_whole(a: String, b: String, n: u64, k: u32, max: u32)
    ensures
        ConnectionState::Idle@ == StateView::Idle,
        ConnectionState::Launching@ == StateView::Launching,
        ConnectionState::Connecting@ == StateView::Connecting,
        (ConnectionState::Connected { socks_addr: a, connected_at_ms: n })@ == (
        StateView::Connected { socks_addr: a@, connected_at_ms: n }),
        (ConnectionState::Reconnecting { attempt: k, max_attempts: max })@ == (
        StateView::Reconnecting { attempt: k, max_attempts: max }),
        ConnectionState::Disconnecting@ == StateView::Disconnecting,
        (ConnectionState::Error { message: a, phase: b })@ == (StateView::Error {
            message: a@,
            phase: b@,
        }),
{
}

} // verus!
