//! What the supervisor needs to know of a connection profile.

use vstd::prelude::*;

verus! {

/// The parts of a connection profile that decide how Aether is started and
/// watched.
pub struct ConnectionProfile {
    /// The command line arguments for the profile.
    pub args: Vec<String>,
    /// Whether to run MASQUE over HTTP/2.
    pub masque_http2: bool,
    /// Whether Zero Trust is entered with a service token.
    pub service_auth: bool,
    /// The id of the service token.
    pub access_client_id: String,
    /// The secret of the service token.
    pub access_client_secret: String,
    /// The environment variable, and its value, for any other way into Zero
    /// Trust.
    pub zero_trust_env: Option<(String, String)>,
    /// The address on which the SOCKS proxy listens.
    pub bind_address: String,
    /// How long a connection may take to come up, in milliseconds.
    pub connect_timeout_ms: u64,
}

} // verus!
