//! A default seed taken from the wall clock.
use vstd::prelude::*;
use std::time::{Duration, SystemTimeError};

verus! {

#[verifier::external_type_specification]
#[verifier::external_body]
pub struct ExSystemTimeError(std::time::SystemTimeError);

/// Relies on std's `SystemTime::duration_since`, applied to `SystemTime::now()`
/// and `UNIX_EPOCH`: the time since the epoch, or an error when the clock
/// reads earlier than it. Nothing is known of the value.
#[verifier::external_body]
fn since_epoch() -> (r: Result<Duration, SystemTimeError>) {
    std::time::SystemTime::now().duration_since(std::time::UNIX_EPOCH)
}

/// std documents that the microseconds within the second are below one
/// million.
pub assume_specification[ core::time::Duration::subsec_micros ](d: &core::time::Duration) -> (r: u32)
    ensures
        r < 1_000_000,
;

/// The microseconds within the current second of the wall clock, a number
/// below one million; `None` when the clock reads earlier than the Unix
/// epoch.
pub fn time_seed() -> (r: Option<u32>)
    ensures
        r matches Some(v) ==> v < 1_000_000,
{
    match since_epoch() {
        Ok(d) => Some(d.subsec_micros()),
        Err(_) => None,
    }
}

} // verus!
