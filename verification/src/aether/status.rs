//! How long to wait, and how often to try again.

use vstd::prelude::*;

verus! {

/// How long after its start Aether counts as past its prompts, whether or not
/// any prompt came. In milliseconds, as are the other times here.
pub const PROMPT_PHASE_GRACE_MS: u64 = 2000;

/// How often to look whether the SOCKS port is up.
pub const CONNECT_POLL_MS: u64 = 400;

/// How often to look whether the process of a connection still runs.
pub const CONNECTED_POLL_MS: u64 = 500;

/// How often to look whether the SOCKS port of a connection still answers.
pub const CONNECTED_HEALTH_INTERVAL_MS: u64 = 5000;

/// How many times in a row the SOCKS port may fail to answer before the
/// connection counts as lost.
pub const CONNECTED_HEALTH_STRIKES: u8 = 2;

/// How long log lines are gathered.
pub const LOG_FLUSH_MS: u64 = 120;

/// How many log lines are gathered at most.
pub const LOG_BATCH_MAX: usize = 256;

/// How long a killed process may take to end.
pub const REAP_GRACE_MS: u64 = 500;

/// How often to look whether an attempt to reconnect is still wanted.
pub const RETRY_SLICE_MS: u64 = 150;

/// How often to look whether a process that was asked to stop has ended.
pub const SHUTDOWN_POLL_MS: u64 = 200;

/// How long a process that is asked to stop because the program exits may take.
pub const EXIT_GRACE_MS: u64 = 500;

/// How often to look whether it has ended.
pub const EXIT_POLL_MS: u64 = 25;

/// When and how often to try again after a failure.
pub struct RetryPolicy {
    /// How many failures in a row are followed by a new attempt.
    pub max_auto_retries: u32,
    /// The pause before each attempt.
    pub backoff_ms: Vec<u64>,
}

impl RetryPolicy {
    /// There is a pause for each attempt.
    pub open spec fn wf(&self) -> bool {
        self.max_auto_retries <= self.backoff_ms@.len()
    }
}

/// The times that the supervisor keeps to, in milliseconds, and its limits.
pub proof fn law_the_times_that_are_kept()
    ensures
        PROMPT_PHASE_GRACE_MS == 2000,
        CONNECT_POLL_MS == 400,
        CONNECTED_POLL_MS == 500,
        CONNECTED_HEALTH_INTERVAL_MS == 5000,
        CONNECTED_HEALTH_STRIKES == 2,
        LOG_FLUSH_MS == 120,
        LOG_BATCH_MAX == 256,
        REAP_GRACE_MS == 500,
        RETRY_SLICE_MS == 150,
        SHUTDOWN_POLL_MS == 200,
        EXIT_GRACE_MS == 500,
        EXIT_POLL_MS == 25,
{
}

} // verus!
