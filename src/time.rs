use vstd::prelude::*;

verus! {

/// Relies on `std::time::SystemTime::now` and `duration_since(UNIX_EPOCH)`:
/// milliseconds since the Unix epoch, or zero when the clock reads earlier
/// than the epoch. Nothing is promised of the value.
#[verifier::external_body]
pub(crate) fn unix_time_millis() -> (r: u64) {
    std::time::SystemTime::now().duration_since(std::time::UNIX_EPOCH).unwrap_or_default().as_millis() as u64
}

/// Whole seconds since the Unix epoch, from the same clock.
pub(crate) fn unix_time_secs() -> (r: u64) {
    unix_time_millis() / 1000
}

} // verus!
