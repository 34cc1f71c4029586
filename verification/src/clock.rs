use vstd::prelude::*;

verus! {

/// The present time in whole seconds since the Unix epoch, read with
/// `std::time::SystemTime::now`; a clock set before the epoch reads as zero. Nothing is
/// promised of the value: two readings may differ in either direction.
#[verifier::external_body]
pub(crate) fn unix_now() -> u64 {
    std::time::SystemTime::now().duration_since(std::time::UNIX_EPOCH).unwrap_or_default().as_secs()
}

} // verus!
