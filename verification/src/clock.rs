use vstd::prelude::*;

verus! {

/// Relies on `std::time::SystemTime::now` and
/// `SystemTime::duration_since(UNIX_EPOCH)`: the number of whole seconds
/// elapsed since the Unix epoch, read from the system clock. The value is
/// environment state, so nothing is promised of it; every caller states
/// what holds of its result whatever the clock returned.
#[verifier::external_body]
pub fn get_seconds() -> u64 {
    std::time::SystemTime::now()
        .duration_since(std::time::UNIX_EPOCH)
        .expect("system clock is set before the Unix epoch")
        .as_secs()
}

} // verus!
