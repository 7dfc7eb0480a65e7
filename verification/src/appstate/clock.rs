//! Reading the clock, which the game uses to time a round.
use std::time::{Duration, Instant};

use vstd::prelude::*;

verus! {

/// A point in time, as `std::time::Instant` has it.
#[verifier::external_type_specification]
#[verifier::external_body]
pub struct ExInstant(Instant);

/// Calls `Instant::now`: the current time. Nothing is promised of it.
#[verifier::external_body]
pub(crate) fn now() -> Instant {
    Instant::now()
}

/// Calls `Instant::elapsed`: the time passed since `start`. Nothing is
/// promised of it.
#[verifier::external_body]
pub(crate) fn elapsed(start: &Instant) -> Duration {
    start.elapsed()
}

/// Calls `Duration::as_secs`: the whole seconds of `d`. Nothing is promised of
/// it, since a `Duration` is opaque here.
#[verifier::external_body]
pub(crate) fn whole_seconds(d: &Duration) -> u64 {
    d.as_secs()
}

/// The whole seconds passed since `start`.
pub(crate) fn seconds_since(start: &Instant) -> u64 {
    let d = elapsed(start);
    whole_seconds(&d)
}

} // verus!
