//! Wall-clock helpers: milliseconds since the Unix epoch.

use vstd::prelude::*;

verus! {

/// Error returned when the system clock reads before the Unix epoch.
#[derive(Clone, Copy, PartialEq, Eq, Structural, Debug)]
pub struct TimeError;

/// Relies on `std::time::SystemTime::now` and
/// `SystemTime::duration_since(UNIX_EPOCH)`: the number of milliseconds since
/// the Unix epoch. The value depends on the machine's clock, so nothing is
/// stated of it. Panics only if the clock reads before the epoch.
#[verifier::external_body]
pub fn current_timestamp() -> u128 {
    std::time::SystemTime::now().duration_since(std::time::UNIX_EPOCH).unwrap().as_millis()
}

/// Relies on `std::time::SystemTime::now` and
/// `SystemTime::duration_since(UNIX_EPOCH)`: the milliseconds since the
/// epoch, or the clock's error when it reads before the epoch. The value
/// depends on the machine's clock, so nothing is stated of it.
#[verifier::external_body]
fn clock_millis() -> Result<u128, TimeError> {
    match std::time::SystemTime::now().duration_since(std::time::UNIX_EPOCH) {
        Ok(d) => Ok(d.as_millis()),
        Err(_) => Err(TimeError),
    }
}

/// As `current_timestamp`, but a clock reading before the epoch is reported
/// as `TimeError` instead of a panic.
pub fn safely_current_timestamp() -> Result<u128, TimeError> {
    clock_millis()
}

} // verus!
