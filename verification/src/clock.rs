//! The clocks of the machine, as far as the library reads them.
//!
//! What a clock says is not a matter of proof. The items here hand the
//! readings on; what is made of a reading is decided by functions that take
//! it as an argument.

use std::time::{Duration, Instant, SystemTime, SystemTimeError};
use vstd::prelude::*;

verus! {

/// `std::time::SystemTime`: a time of the wall clock. It is carried, never
/// looked into.
#[verifier::external_type_specification]
#[verifier::external_body]
pub struct ExSystemTime(SystemTime);

/// `std::time::SystemTimeError`: what `SystemTime::duration_since` answers
/// for a time before the one asked about. It is carried, never looked into.
#[verifier::external_type_specification]
#[verifier::external_body]
pub struct ExSystemTimeError(SystemTimeError);

/// `std::time::Instant`: a reading of the monotonic clock. It is carried,
/// never looked into.
#[verifier::external_type_specification]
#[verifier::external_body]
pub struct ExInstant(Instant);

/// `SystemTime::now`: the wall clock's time. Nothing is claimed of it.
pub assume_specification[ SystemTime::now ]() -> SystemTime
;

/// `Instant::now`: a reading of the monotonic clock. Nothing is claimed of it.
pub assume_specification[ Instant::now ]() -> Instant
;

/// `Instant::elapsed`: the time since a reading of the monotonic clock.
/// Nothing is claimed of it.
pub assume_specification[ Instant::elapsed ](start: &Instant) -> Duration
;

/// `Duration::as_micros`: the whole microseconds in a duration. Nothing is
/// claimed of the number.
pub assume_specification[ Duration::as_micros ](d: &Duration) -> u128
;

/// `SystemTime::duration_since` with `UNIX_EPOCH`: how long after the start of
/// 1970 `time` lies, or an error where it lies before. Nothing is claimed of
/// either.
#[verifier::external_body]
pub(crate) fn since_unix_epoch(time: &SystemTime) -> Result<Duration, SystemTimeError> {
    time.duration_since(std::time::UNIX_EPOCH)
}

/// The lower 64 bits of a count of microseconds.
pub fn micros_to_timestamp(micros: u128) -> (stamp: u64)
    ensures
        stamp == micros % 0x1_0000_0000_0000_0000,
{
    (micros % 0x1_0000_0000_0000_0000) as u64
}

/// The timestamp that a reading of the wall clock stands for: the lower 64
/// bits of the microseconds since the start of 1970, and zero for a clock
/// that stands before 1970, which has no such count.
pub open spec fn timestamp_for(elapsed_micros: Option<u128>) -> u64 {
    match elapsed_micros {
        Some(micros) => (micros % 0x1_0000_0000_0000_0000) as u64,
        None => 0,
    }
}

/// Makes a timestamp of a reading of the wall clock: the microseconds since
/// the start of 1970, or nothing where the clock stands before 1970.
pub fn timestamp_of(elapsed_micros: Option<u128>) -> (stamp: u64)
    ensures
        stamp == timestamp_for(elapsed_micros),
{
    match elapsed_micros {
        Some(micros) => micros_to_timestamp(micros),
        None => 0,
    }
}

/// The microseconds that the monotonic clock has gone on since `start`,
/// reduced to 64 bits.
pub fn micros_since(start: &Instant) -> u64 {
    let elapsed = start.elapsed();
    micros_to_timestamp(elapsed.as_micros())
}

} // verus!
