use vstd::prelude::*;

verus! {

/// The wall clock in milliseconds since the Unix epoch.
///
/// Relies on `std::time::SystemTime::now`, read through `duration_since(UNIX_EPOCH)`
/// and `as_millis`; a clock set before the epoch reads as 0. Nothing is promised of
/// the value: it is whatever the machine's clock says.
#[verifier::external_body]
pub fn now_millis() -> (r: u64) {
    std::time::SystemTime::now()
        .duration_since(std::time::UNIX_EPOCH)
        .map(|d| d.as_millis() as u64)
        .unwrap_or(0)
}

} // verus!
