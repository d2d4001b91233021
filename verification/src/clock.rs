//! The monotonic clock, read through std's `Instant`.
//!
//! Times handed to the state machines of this crate are nanoseconds since
//! an epoch `Instant` that the state captured when it was created.
use vstd::prelude::*;

verus! {

#[verifier::external_type_specification]
#[verifier::external_body]
pub struct ExInstant(std::time::Instant);

/// std `Instant::now`. Nothing is claimed of the value.
#[verifier::external_body]
pub fn instant_now() -> std::time::Instant {
    std::time::Instant::now()
}

/// Nanoseconds elapsed since `epoch` (std `Instant::elapsed`), saturated to
/// `u64`. It depends on when it is called: nothing is claimed of it.
#[verifier::external_body]
pub fn nanos_since(epoch: &std::time::Instant) -> u64 {
    u64::try_from(epoch.elapsed().as_nanos()).unwrap_or(u64::MAX)
}

/// `later.duration_since(earlier)` in nanoseconds: zero when `earlier`
/// is not before `later` (std saturates the same way).
pub open spec fn elapsed(earlier: u64, later: u64) -> int {
    if later >= earlier {
        later - earlier
    } else {
        0
    }
}

pub fn elapsed_ns(earlier: u64, later: u64) -> (r: u64)
    ensures
        r == elapsed(earlier, later),
{
    if later >= earlier {
        later - earlier
    } else {
        0
    }
}

} // verus!
