//! The wall clock, read through the standard library.

use vstd::prelude::*;

verus! {

/// `std::time::SystemTime`: an instant of the wall clock, opaque to the
/// verifier.
#[verifier::external_type_specification]
#[verifier::external_body]
pub struct ExSystemTime(std::time::SystemTime);

/// Calls `std::time::SystemTime::now`. Nothing is claimed of the instant
/// that it returns.
#[verifier::external_body]
fn system_now() -> (now: std::time::SystemTime) {
    std::time::SystemTime::now()
}

/// Calls `std::time::SystemTime::duration_since` with the Unix epoch: the
/// time that has passed since the epoch, `None` where `instant` lies before
/// it. Nothing is claimed of the duration.
#[verifier::external_body]
fn since_epoch(instant: &std::time::SystemTime) -> (elapsed: Option<std::time::Duration>) {
    match instant.duration_since(std::time::UNIX_EPOCH) {
        Ok(elapsed) => Some(elapsed),
        Err(_) => None,
    }
}

/// Calls `std::time::Duration::as_micros`: the whole microseconds of the
/// duration. Nothing is claimed of the number.
#[verifier::external_body]
fn whole_micros(elapsed: &std::time::Duration) -> (micros: u128) {
    elapsed.as_micros()
}

/// The microseconds since the Unix epoch cut down to sixty-four bits.
pub open spec fn stamp_of(micros: Option<u128>) -> i64 {
    match micros {
        Some(m) => m as i64,
        None => 0,
    }
}

/// The time stamp that a reading of the clock gives: the microseconds since
/// the Unix epoch cut down to sixty-four bits, zero for a clock that stands
/// before the epoch.
pub fn stamp_from(micros: Option<u128>) -> (stamp: i64)
    ensures
        stamp == stamp_of(micros),
{
    match micros {
        Some(m) => #[verifier::truncate]
        (m as i64),
        None => 0,
    }
}

/// The current time stamp in microseconds. The value depends on the clock;
/// `stamp_from` says how it is made from a reading.
pub fn unix_micros() -> (stamp: i64) {
    let now = system_now();
    let micros = match since_epoch(&now) {
        Some(elapsed) => Some(whole_micros(&elapsed)),
        None => None,
    };
    stamp_from(micros)
}

} // verus!
