//! Human-like pacing: a random pause between two paint commands.

use rand::distributions::uniform::{UniformDuration, UniformSampler};
use rand::rngs::StdRng;
use std::time::Duration;
use vstd::prelude::*;

verus! {

/// Shortest pause between two paint commands of a worker, in seconds.
pub const MIN_PAUSE_SECS: u64 = 65;

/// Longest pause between two paint commands of a worker, in seconds.
pub const MAX_PAUSE_SECS: u64 = 180;

/// Nanoseconds in a second.
pub const NANOS_PER_SEC: u64 = 1_000_000_000;

#[verifier::external_type_specification]
#[verifier::external_body]
pub struct ExStdRng(StdRng);

/// Draws a duration between `low_secs` and `high_secs` seconds, both
/// included, and returns it in nanoseconds.
///
/// Calls `UniformDuration::sample_single_inclusive` of `rand`, which
/// builds the inclusive range and samples it once. Not proved: that it
/// accepts every pair of bounds with `low_secs <= high_secs`, and that
/// the duration it returns is neither shorter than the lower bound nor
/// longer than the upper one. Nothing is said of which duration in that
/// range comes out.
#[verifier::external_body]
fn sample_nanos(rng: &mut StdRng, low_secs: u64, high_secs: u64) -> (nanos: u128)
    requires
        low_secs <= high_secs,
    ensures
        low_secs * NANOS_PER_SEC <= nanos <= high_secs * NANOS_PER_SEC,
{
    let low = Duration::from_secs(low_secs);
    let high = Duration::from_secs(high_secs);
    UniformDuration::sample_single_inclusive(low, high, rng).as_nanos()
}

/// The source of the pauses that make a worker look human to the canvas
/// service.
pub struct SleepPerformer {
    rng: StdRng,
}

impl SleepPerformer {
    /// A source of pauses that draws from `rng`.
    pub fn new(rng: StdRng) -> (sleep: SleepPerformer)
        ensures
            sleep.generator() == rng,
    {
        SleepPerformer { rng }
    }

    /// The generator that the pauses are drawn from.
    pub closed spec fn generator(&self) -> StdRng {
        self.rng
    }

    /// The next pause, in nanoseconds: between 65 and 180 seconds, both
    /// included.
    pub fn perform(&mut self) -> (nanos: u128)
        ensures
            MIN_PAUSE_SECS * NANOS_PER_SEC <= nanos <= MAX_PAUSE_SECS * NANOS_PER_SEC,
            65_000_000_000 <= nanos <= 180_000_000_000,
    {
        sample_nanos(&mut self.rng, MIN_PAUSE_SECS, MAX_PAUSE_SECS)
    }
}

} // verus!
