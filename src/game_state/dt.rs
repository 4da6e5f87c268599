//! Frame timing.
use vstd::prelude::*;
use std::time::{Duration, Instant};

verus! {

#[verifier::external_type_specification]
#[verifier::external_body]
pub struct ExInstant(Instant);

/// Relies on `Instant::now`: the current time of the monotonic clock.
/// Nothing is known of the value.
#[verifier::external_body]
fn now() -> (r: Instant) {
    Instant::now()
}

/// Relies on `Instant::saturating_duration_since`: the time from `earlier`
/// to `later`, zero when `earlier` is the later one.
#[verifier::external_body]
fn elapsed_between(later: &Instant, earlier: &Instant) -> (r: Duration) {
    later.saturating_duration_since(*earlier)
}

/// Relies on `Duration::as_micros`: the whole number of microseconds.
#[verifier::external_body]
fn whole_micros(d: &Duration) -> (r: u128) {
    d.as_micros()
}

/// The time between frames.
pub struct DeltaTime {
    last_frame_time: Instant,
}

impl DeltaTime {
    pub fn new() -> (r: DeltaTime) {
        DeltaTime { last_frame_time: now() }
    }

    /// Microseconds since the previous call (or since creation); run this at
    /// the start of every update.
    pub fn get_dt(&mut self) -> (r: u128) {
        let t = now();
        let d = elapsed_between(&t, &self.last_frame_time);
        self.last_frame_time = t;
        whole_micros(&d)
    }
}

} // verus!
