//! The clock and the random numbers that the broker uses.
use std::time::{Duration, SystemTimeError};
use vstd::prelude::*;

verus! {

/// The error of a clock that reads earlier than a given time
/// (`std::time::SystemTimeError`), carried through opaque.
#[verifier::external_type_specification]
#[verifier::external_body]
pub struct ExSystemTimeError(std::time::SystemTimeError);

/// Calls `SystemTime::elapsed` on `UNIX_EPOCH`: the time from the Unix
/// epoch to the reading of the system clock, or an error when the clock
/// reads earlier. Nothing is promised of the value: the clock may move in
/// either direction.
#[verifier::external_body]
fn since_epoch() -> Result<Duration, SystemTimeError> {
    std::time::UNIX_EPOCH.elapsed()
}

/// Calls `Duration::as_millis`: the whole milliseconds of `d`. Nothing is
/// stated of the value, since `Duration` is opaque here.
#[verifier::external_body]
fn duration_millis(d: &Duration) -> u128 {
    d.as_millis()
}

/// Milliseconds from the Unix epoch to the reading of the system clock;
/// zero when the clock reads earlier than the epoch, and at most
/// `u64::MAX`.
pub(crate) fn now_millis() -> u64 {
    match since_epoch() {
        Ok(d) => {
            let ms = duration_millis(&d);
            if ms > u64::MAX as u128 {
                u64::MAX
            } else {
                ms as u64
            }
        },
        Err(_) => 0,
    }
}

/// Calls `rand::random::<u16>()`, a number drawn uniformly from every
/// `u16`. Nothing is promised of the value.
#[verifier::external_body]
pub(crate) fn random_packet_id() -> u16 {
    rand::random::<u16>()
}

} // verus!
