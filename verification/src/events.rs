//! The events that the supervisor reports to the user interface.

use std::time::{Duration, SystemTime, SystemTimeError};
use vstd::prelude::*;

verus! {

/// Name of the event that carries a new connection state.
pub const STATUS_EVENT: &'static str = "aether://status";

/// Name of the event that carries a batch of log lines.
pub const LOG_EVENT: &'static str = "aether://log";

/// Name of the event that says that Aether waits for a one-time code. It has a
/// channel of its own so that it never depends on which log lines are kept.
pub const ACCESS_CODE_EVENT: &'static str = "aether://access-code";

/// One line of output.
#[derive(Clone, Debug)]
pub struct LogEvent {
    pub line: String,
    /// Milliseconds since the Unix epoch.
    pub timestamp: u64,
}

/// The log lines of one flush, in order.
#[derive(Clone, Debug)]
pub struct LogBatch {
    pub lines: Vec<LogEvent>,
}

/// A request for a one-time code.
#[derive(Clone, Copy, Debug)]
pub struct AccessCodeEvent {
    /// Counts the requests of one session, from 1 on.
    pub sequence: u64,
    /// When the request was handed on, in milliseconds since the Unix epoch.
    pub requested_at_ms: u64,
}

/// A reading of the system clock.
#[verifier::external_type_specification]
#[verifier::external_body]
pub struct ExSystemTime(SystemTime);

/// The error for a clock reading that lies before another.
#[verifier::external_type_specification]
#[verifier::external_body]
pub struct ExSystemTimeError(SystemTimeError);

/// How long after the Unix epoch the reading `t` lies; nothing where it lies
/// before it.
pub uninterp spec fn epoch_distance(t: SystemTime) -> Option<Duration>;

/// The whole milliseconds of a duration.
pub uninterp spec fn whole_millis(d: Duration) -> u128;

/// `SystemTime::now` of the standard library reads the system clock. Nothing
/// is claimed of the reading.
pub assume_specification[ SystemTime::now ]() -> SystemTime
;

/// `SystemTime::duration_since` of the standard library, from the Unix epoch
/// to `t`: the distance between them, or an error where `t` lies before it. It
/// depends on `t` alone.
#[verifier::external_body]
fn since_epoch(t: &SystemTime) -> (r: Result<Duration, SystemTimeError>)
    ensures
        r is Ok <==> epoch_distance(*t) is Some,
        r matches Ok(d) ==> epoch_distance(*t) == Some(d),
{
    t.duration_since(std::time::UNIX_EPOCH)
}

/// `Duration::as_millis` of the standard library: the whole milliseconds of
/// `d`.
pub assume_specification[ Duration::as_millis ](d: &Duration) -> (r: u128)
    ensures
        r == whole_millis(*d),
;

/// The timestamp for the clock reading `t`.
pub open spec fn timestamp_at(t: SystemTime) -> u64 {
    match epoch_distance(t) {
        Some(d) => (whole_millis(d) % 0x1_0000_0000_0000_0000) as u64,
        None => 0,
    }
}

/// The timestamp for a clock reading that lies `elapsed` milliseconds after
/// the Unix epoch, or before it (`None`): the low 64 bits, or 0.
pub fn timestamp_of(elapsed: Option<u128>) -> (t: u64)
    ensures
        elapsed matches Some(ms) ==> t == ms % 0x1_0000_0000_0000_0000,
        elapsed is None ==> t == 0,
{
    match elapsed {
        Some(ms) => {
            let low: u128 = ms % 0x1_0000_0000_0000_0000u128;
            low as u64
        },
        None => 0,
    }
}

/// Whether `ms` is the timestamp for some clock reading.
pub open spec fn is_reading(ms: u64) -> bool {
    exists|t: SystemTime| ms == #[trigger] timestamp_at(t)
}

/// The current time in milliseconds since the Unix epoch; 0 where the system
/// clock stands before it.
pub fn now_millis() -> (r: u64)
    ensures
        is_reading(r),
{
    let t = SystemTime::now();
    let r: u64 = match since_epoch(&t) {
        Ok(d) => timestamp_of(Some(d.as_millis())),
        Err(_) => timestamp_of(None),
    };
    assert(r == timestamp_at(t));
    r
}

/// A reading that lies `ms` whole milliseconds after the Unix epoch has that
/// very number as its timestamp, as far as it fits; one before it has 0.
pub proof fn law_timestamps_count_milliseconds(t: SystemTime)
    ensures
        epoch_distance(t) matches Some(d) ==> whole_millis(d) <= u64::MAX ==> timestamp_at(t)
            == whole_millis(d),
        epoch_distance(t) matches Some(d) ==> timestamp_at(t) as int == whole_millis(d) as int
            % 0x1_0000_0000_0000_0000,
        epoch_distance(t) is None ==> timestamp_at(t) == 0,
{
}

} // verus!
