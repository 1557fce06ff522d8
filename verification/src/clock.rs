//! Wall-clock access for the search deadline. The clock's readings depend
//! on the machine and the moment, so nothing is promised of them: the
//! search is correct whatever the clock returns, and the deadline only
//! decides when iterative deepening stops committing results.

use vstd::prelude::*;

verus! {

#[verifier::external_type_specification]
#[verifier::external_body]
pub struct ExInstant(std::time::Instant);

/// Relies on std::time::Instant::now: an opaque reading of the monotonic
/// clock. Nothing is promised of its value.
#[verifier::external_body]
pub fn monotonic_now() -> std::time::Instant {
    std::time::Instant::now()
}

/// Relies on std::time::Instant::elapsed: the time since `start`, as an
/// opaque duration. Nothing is promised of its value.
#[verifier::external_body]
pub fn elapsed_since(start: &std::time::Instant) -> std::time::Duration {
    start.elapsed()
}

/// Relies on core::time::Duration's derived PartialOrd: whether `a` is the
/// longer duration. Nothing is promised of the outcome.
#[verifier::external_body]
pub fn duration_longer(a: &std::time::Duration, b: &std::time::Duration) -> bool {
    *a > *b
}

} // verus!
