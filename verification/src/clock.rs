//! Monotonic time as seen by the lease pools.
use vstd::prelude::*;

verus! {

#[verifier::external_type_specification]
#[verifier::external_body]
pub struct ExInstant(std::time::Instant);

/// `Instant::now`: the current monotonic instant. Nothing is claimed of it.
#[verifier::external_body]
pub(crate) fn instant_now() -> std::time::Instant {
    std::time::Instant::now()
}

/// `Instant::elapsed`, in whole seconds: the seconds since `t`. Nothing is
/// claimed of the value, which depends on the clock.
#[verifier::external_body]
pub(crate) fn elapsed_secs(t: &std::time::Instant) -> u64 {
    t.elapsed().as_secs()
}

} // verus!
