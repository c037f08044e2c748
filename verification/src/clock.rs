use vstd::prelude::*;

verus! {

/// Relies on `std::time::SystemTime::now`, `SystemTime::duration_since` and
/// `Duration::as_secs`: the system clock, read as whole seconds since the
/// Unix epoch, or zero for a clock standing before the epoch. Nothing is
/// assumed of the value: the clock can move arbitrarily between reads.
#[verifier::external_body]
pub(crate) fn now_secs() -> u64 {
    match std::time::SystemTime::now().duration_since(std::time::UNIX_EPOCH) {
        Ok(elapsed) => elapsed.as_secs(),
        Err(_) => 0,
    }
}

} // verus!
