use vstd::prelude::*;

verus! {

/// Nanoseconds in a millisecond.
pub const NS_PER_MS: u64 = 1000000;

/// Nanoseconds elapsed from `last` to `now`; a reading before `last` counts
/// as none.
pub open spec fn since(last: u64, now: u64) -> int {
    if now >= last { now - last } else { 0 }
}

#[verifier::external_type_specification]
#[verifier::external_body]
pub struct ExTokioInstant(tokio::time::Instant);

#[verifier::external_type_specification]
#[verifier::external_body]
pub struct ExStdInstant(std::time::Instant);

/// Relies on tokio::time::Instant::now: reads the monotonic clock. Nothing is
/// promised of the value.
pub assume_specification[ tokio::time::Instant::now ]() -> tokio::time::Instant;

/// Relies on std::time::Instant::now: reads the monotonic clock. Nothing is
/// promised of the value.
pub assume_specification[ std::time::Instant::now ]() -> std::time::Instant;

/// Relies on tokio::time::Instant::elapsed: nanoseconds since `start`.
/// The value depends on the clock, so nothing is promised of it.
#[verifier::external_body]
pub(crate) fn tokio_elapsed_ns(start: &tokio::time::Instant) -> u64 {
    start.elapsed().as_nanos() as u64
}

/// Relies on std::time::Instant::elapsed: nanoseconds since `start`.
/// The value depends on the clock, so nothing is promised of it.
#[verifier::external_body]
pub(crate) fn std_elapsed_ns(start: &std::time::Instant) -> u64 {
    start.elapsed().as_nanos() as u64
}

} // verus!
