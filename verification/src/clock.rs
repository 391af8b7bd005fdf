//! The monotonic clock that admission control reads.

use vstd::prelude::*;

verus! {

/// `std::time::Instant`: a reading of the monotonic clock, carried as an
/// opaque value.
#[verifier::external_type_specification]
#[verifier::external_body]
pub struct ExInstant(std::time::Instant);

/// `std::time::Instant::now`: the current reading of the system's monotonic
/// clock. Nothing is claimed of the value.
pub assume_specification[ std::time::Instant::now ]() -> std::time::Instant;

/// `std::time::Instant::elapsed`: the time that has passed since the given
/// reading was taken. Nothing is claimed of the value.
pub assume_specification[ std::time::Instant::elapsed ](
    at: &std::time::Instant,
) -> core::time::Duration;

/// `core::time::Duration::as_nanos`: the span in whole nanoseconds. Nothing
/// is claimed of the value.
pub assume_specification[ core::time::Duration::as_nanos ](span: &core::time::Duration) -> u128;

/// A monotonic clock that counts nanoseconds from the moment it was started.
pub struct Clock {
    origin: std::time::Instant,
}

impl Clock {
    /// Starts a clock; its readings count from now.
    pub fn start() -> Clock {
        Clock { origin: std::time::Instant::now() }
    }

    /// Nanoseconds since the clock was started.
    pub fn now_nanos(&self) -> u128 {
        let span = self.origin.elapsed();
        span.as_nanos()
    }
}

} // verus!
