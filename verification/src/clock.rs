//! Trusted wall-clock primitives. Search runs under a deadline, polled
//! cooperatively; nothing is assumed about what the clock returns, so
//! every caller's contract holds whatever the time is.

use core::time::Duration;
use instant::Instant;
use vstd::prelude::*;

verus! {

#[verifier::external_type_specification]
#[verifier::external_body]
pub struct ExInstant(Instant);

/// Relies on `instant::Instant::now`: the present moment. Nothing is
/// assumed of the value.
#[verifier::external_body]
fn now_instant() -> Instant {
    Instant::now()
}

/// Relies on `Instant::checked_add`: the moment `duration` after `t`,
/// or nothing when the sum is not representable. Nothing is assumed of
/// the value.
#[verifier::external_body]
fn instant_checked_add(t: &Instant, duration: Duration) -> Option<Instant> {
    t.checked_add(duration)
}

/// The moment `duration` from now, or now itself if the sum is not
/// representable.
pub fn deadline_after(duration: Duration) -> Instant {
    let start = now_instant();
    match instant_checked_add(&start, duration) {
        Some(deadline) => deadline,
        None => start,
    }
}

/// Relies on `instant::Instant::now`: whether the deadline has passed.
/// Nothing is assumed of the answer.
#[verifier::external_body]
pub fn past_deadline(deadline: &Instant) -> bool {
    Instant::now() > *deadline
}

/// Relies on `Duration::from_millis`: a budget of so many
/// milliseconds.
#[verifier::external_body]
pub fn millis(ms: u64) -> Duration {
    Duration::from_millis(ms)
}

/// Relies on `Duration`'s division. A zero divisor would panic, so it
/// is excluded; the callers' budget-splitting policy stays in verified
/// code.
#[verifier::external_body]
pub fn duration_div(duration: Duration, divisor: u32) -> Duration
    requires
        divisor > 0,
{
    duration / divisor
}

}
