//! The wall clock, read in milliseconds since the Unix epoch.

use std::time::{Duration, SystemTime};
use vstd::prelude::*;

verus! {

#[verifier::external_type_specification]
#[verifier::external_body]
pub struct ExSystemTime(SystemTime);

/// Calls `std::time::SystemTime::now`. Nothing is claimed of the result:
/// it is the time at the moment of the call.
#[verifier::external_body]
fn system_now() -> SystemTime {
    SystemTime::now()
}

/// Calls `SystemTime::duration_since` with `UNIX_EPOCH`, keeping the
/// duration and dropping the error. Nothing is claimed of the result: the
/// time value is opaque here.
#[verifier::external_body]
fn duration_since_unix_epoch(t: &SystemTime) -> Option<Duration> {
    t.duration_since(std::time::UNIX_EPOCH).ok()
}

/// Calls `Duration::as_millis`. Nothing is claimed of the result: the
/// duration is opaque here.
#[verifier::external_body]
fn duration_millis(d: &Duration) -> u128 {
    d.as_millis()
}

/// The timestamp that a clock reading stands for: the milliseconds, cut to
/// 64 bits, or 0 when the clock stands before the epoch.
pub fn millis_to_timestamp(ms: Option<u128>) -> (t: u64)
    ensures
        t == match ms {
            Some(m) => (m % 0x1_0000_0000_0000_0000) as u64,
            None => 0,
        },
{
    match ms {
        Some(m) => {
            let t = (m % 0x1_0000_0000_0000_0000u128) as u64;
            t
        },
        None => 0,
    }
}

/// Milliseconds since the Unix epoch, 0 when the clock stands before it.
/// The value depends on the time of the call; nothing more is stated.
pub fn now_ms() -> u64 {
    let now = system_now();
    let ms = match duration_since_unix_epoch(&now) {
        Some(d) => Some(duration_millis(&d)),
        None => None,
    };
    millis_to_timestamp(ms)
}

} // verus!
