//! The clock that the address cache is driven by.
//!
//! The cache takes time as a number: nanoseconds on a monotonic clock. This
//! module reads such a clock. What it reads is not a function of anything the
//! library knows, so nothing is stated of the readings themselves; what the
//! cache does with a reading is stated for every reading.

use vstd::prelude::*;

verus! {

/// `time::Instant`, a point on the system's monotonic clock. The library
/// carries such values and never looks into them.
#[verifier::external_type_specification]
#[verifier::external_body]
pub struct ExInstant(time::Instant);

/// `time::Duration`, a signed span of time. The library carries such values
/// and never looks into them.
#[verifier::external_type_specification]
#[verifier::external_body]
pub struct ExDuration(time::Duration);

/// `time::Instant::now` reads the system's monotonic clock. Nothing is
/// claimed of the instant it returns.
pub assume_specification[ time::Instant::now ]() -> (now: time::Instant)
;

/// `time::Instant::elapsed` measures the time since an instant was taken.
/// Nothing is claimed of the duration it returns. The library applies it to
/// instants that `time::Instant::now` returned, and to no others.
pub assume_specification[ time::Instant::elapsed ](instant: time::Instant) -> (elapsed:
    time::Duration)
;

/// `time::Duration::whole_nanoseconds` gives a duration as a signed number of
/// nanoseconds. Nothing is claimed of that number.
pub assume_specification[ time::Duration::whole_nanoseconds ](duration: time::Duration) -> (nanoseconds:
    i128)
;

/// A span in nanoseconds as a clock reading: a negative span reads as zero,
/// and one beyond the range of the reading as its greatest value.
pub open spec fn as_reading(nanoseconds: i128) -> u64 {
    if nanoseconds < 0 {
        0
    } else if nanoseconds > u64::MAX {
        u64::MAX
    } else {
        nanoseconds as u64
    }
}

/// Turns a span in nanoseconds into a clock reading.
pub fn reading(nanoseconds: i128) -> (r: u64)
    ensures
        r == as_reading(nanoseconds),
{
    if nanoseconds < 0 {
        0
    } else if nanoseconds > 0xffff_ffff_ffff_ffff {
        u64::MAX
    } else {
        nanoseconds as u64
    }
}

/// A monotonic clock that counts nanoseconds from the moment it was started.
#[derive(Clone, Copy, Debug)]
pub struct Clock {
    origin: time::Instant,
}

impl Clock {
    /// Starts a clock.
    pub fn start() -> Clock {
        Clock { origin: time::Instant::now() }
    }

    /// The nanoseconds since the clock was started.
    pub fn now(&self) -> u64 {
        reading(self.origin.elapsed().whole_nanoseconds())
    }
}

} // verus!
