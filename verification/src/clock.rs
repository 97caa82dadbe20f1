use vstd::prelude::*;

verus! {

#[verifier::external_type_specification]
#[verifier::external_body]
pub struct ExInstant(std::time::Instant);

/// Calls `std::time::Instant::now`. Nothing is stated of the reading: it
/// comes from the system clock.
#[verifier::external_body]
pub(crate) fn instant_now() -> std::time::Instant {
    std::time::Instant::now()
}

/// Calls `Instant::elapsed` on `since` and returns the duration in
/// nanoseconds (`Duration::as_nanos`). Nothing is stated of the value: it
/// depends on the clock.
#[verifier::external_body]
pub(crate) fn elapsed_nanos(since: &std::time::Instant) -> u128 {
    since.elapsed().as_nanos()
}

/// `timeout_ms` milliseconds in nanoseconds.
pub open spec fn millis_as_nanos(timeout_ms: u64) -> int {
    timeout_ms * 1_000_000
}

/// `elapsed_nanos` nanoseconds are more than `timeout_ms` milliseconds.
pub open spec fn exceeds_spec(elapsed_nanos: int, timeout_ms: u64) -> bool {
    elapsed_nanos > millis_as_nanos(timeout_ms)
}

/// Whether `elapsed_nanos` nanoseconds are more than `timeout_ms`
/// milliseconds.
pub fn elapsed_exceeds(elapsed_nanos: u128, timeout_ms: u64) -> (r: bool)
    ensures
        r == exceeds_spec(elapsed_nanos as int, timeout_ms),
{
    let limit: u128 = (timeout_ms as u128) * 1_000_000;
    elapsed_nanos > limit
}

/// Whether more than `timeout_ms` milliseconds have passed since `since`:
/// the comparison of [`elapsed_exceeds`] on the clock's reading, which is
/// not stated.
pub(crate) fn has_elapsed(since: &std::time::Instant, timeout_ms: u64) -> (r: bool)
    ensures
        exists|n: u128| r == #[trigger] exceeds_spec(n as int, timeout_ms),
{
    let nanos = elapsed_nanos(since);
    let r = elapsed_exceeds(nanos, timeout_ms);
    assert(r == exceeds_spec(nanos as int, timeout_ms));
    r
}

} // verus!
