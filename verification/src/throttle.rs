//! Fixed-window admission counter for one client.
//!
//! Times are nanoseconds on a monotonic clock whose origin the caller fixes
//! (see [`crate::clock::Clock`]). Nothing here reads a clock: every function
//! takes the current time as an argument.

use vstd::prelude::*;

verus! {

/// Requests admitted per client within one window, by default.
pub const MAX_CONNECTIONS: usize = 15000;

/// Length of a window in nanoseconds, by default: sixty seconds.
pub const TIME_INTERVAL_NANOS: u128 = 60_000_000_000;

/// The two limits of admission control. They are fixed for a process and are
/// the same for every client.
#[derive(Clone, Copy, Debug, PartialEq, Eq, Structural)]
pub struct ThrottleLimits {
    /// Requests admitted within one window.
    pub max_requests: usize,
    /// Length of a window in nanoseconds.
    pub window_nanos: u128,
}

/// Counter of the requests admitted since the window opened.
#[derive(Clone, Copy, Debug, PartialEq, Eq, Structural)]
pub struct Throttle {
    /// Requests admitted since `last_reset`.
    pub count: usize,
    /// When the current window opened.
    pub last_reset: u128,
}

/// Whether a window that opened at `last_reset` is over at `now`: strictly
/// more than the window's length has passed. A `now` before `last_reset`
/// counts as no time passed.
pub open spec fn window_expired(limits: ThrottleLimits, last_reset: u128, now: u128) -> bool {
    now - last_reset > limits.window_nanos
}

/// A throttle that has admitted nothing and whose window opens at `now`.
pub open spec fn fresh_throttle(now: u128) -> Throttle {
    Throttle { count: 0, last_reset: now }
}

/// The throttle as the admission check sees it at `now`: reset if its window
/// is over, unchanged otherwise.
pub open spec fn throttle_at(limits: ThrottleLimits, t: Throttle, now: u128) -> Throttle {
    if window_expired(limits, t.last_reset, now) {
        fresh_throttle(now)
    } else {
        t
    }
}

/// Whether a request at `now` is admitted.
pub open spec fn admits(limits: ThrottleLimits, t: Throttle, now: u128) -> bool {
    throttle_at(limits, t, now).count < limits.max_requests
}

/// The throttle after a request at `now`, admitted or not.
pub open spec fn throttle_after(limits: ThrottleLimits, t: Throttle, now: u128) -> Throttle {
    let seen = throttle_at(limits, t, now);
    if seen.count < limits.max_requests {
        Throttle { count: (seen.count + 1) as usize, last_reset: seen.last_reset }
    } else {
        seen
    }
}

/// The throttle after the requests at `times`, in order.
pub open spec fn throttle_after_all(limits: ThrottleLimits, t: Throttle, times: Seq<u128>) -> Throttle
    decreases times.len(),
{
    if times.len() == 0 {
        t
    } else {
        throttle_after(limits, throttle_after_all(limits, t, times.drop_last()), times.last())
    }
}

/// Whether the request at `times[i]` is admitted, the requests before it
/// having been made in order.
pub open spec fn admits_nth(limits: ThrottleLimits, t: Throttle, times: Seq<u128>, i: int) -> bool {
    admits(limits, throttle_after_all(limits, t, times.take(i)), times[i])
}

impl ThrottleLimits {
    /// The limits a service runs with unless told otherwise.
    pub fn standard() -> (limits: ThrottleLimits)
        ensures
            limits.max_requests == MAX_CONNECTIONS,
            limits.window_nanos == TIME_INTERVAL_NANOS,
    {
        ThrottleLimits { max_requests: MAX_CONNECTIONS, window_nanos: TIME_INTERVAL_NANOS }
    }
}

impl Throttle {
    /// The count never exceeds the number of requests a window admits.
    pub open spec fn wf(self, limits: ThrottleLimits) -> bool {
        self.count <= limits.max_requests
    }

    /// A throttle whose window opens at `now` and that has admitted nothing.
    pub fn new(now: u128) -> (t: Throttle)
        ensures
            t == fresh_throttle(now),
    {
        Throttle { count: 0, last_reset: now }
    }

    /// Decides on one request at `now` and counts it if it is admitted.
    ///
    /// A window that is over is reopened at `now` with a count of zero before
    /// the decision. The request is admitted if fewer than
    /// `limits.max_requests` were admitted in the window.
    pub fn check_and_increment(&mut self, limits: &ThrottleLimits, now: u128) -> (admitted: bool)
        ensures
            admitted == admits(*limits, *old(self), now),
            *final(self) == throttle_after(*limits, *old(self), now),
            old(self).wf(*limits) ==> final(self).wf(*limits),
    {
        if now > self.last_reset && now - self.last_reset > limits.window_nanos {
            self.count = 0;
            self.last_reset = now;
        }
        if self.count < limits.max_requests {
            self.count = self.count + 1;
            true
        } else {
            false
        }
    }
}

/// The count after a number of requests within the window, from a given
/// count: one more for each request, up to the limit.
pub open spec fn count_after(limits: ThrottleLimits, count: usize, requests: nat) -> int {
    if count >= limits.max_requests {
        count as int
    } else if count + requests <= limits.max_requests {
        count + requests
    } else {
        limits.max_requests as int
    }
}

/// While no request falls after the window's end, a throttle counts every
/// request up to the limit and keeps its window.
proof fn lemma_count_within_window(limits: ThrottleLimits, t: Throttle, times: Seq<u128>)
    requires
        forall|i: int|
            0 <= i < times.len() ==> !window_expired(limits, t.last_reset, #[trigger] times[i]),
    ensures
        throttle_after_all(limits, t, times).last_reset == t.last_reset,
        throttle_after_all(limits, t, times).count == count_after(limits, t.count, times.len()),
    decreases times.len(),
{
    if times.len() > 0 {
        let before = times.drop_last();
        assert forall|i: int| 0 <= i < before.len() implies !window_expired(
            limits,
            t.last_reset,
            #[trigger] before[i],
        ) by {
            assert(before[i] == times[i]);
        }
        lemma_count_within_window(limits, t, before);
        assert(!window_expired(limits, t.last_reset, times[times.len() - 1]));
    }
}

/// A series of requests goes the same way from a throttle and from what the
/// first request sees of it.
proof fn lemma_first_request_sees(limits: ThrottleLimits, t: Throttle, times: Seq<u128>)
    requires
        times.len() > 0,
    ensures
        throttle_after_all(limits, t, times) == throttle_after_all(
            limits,
            throttle_at(limits, t, times[0]),
            times,
        ),
    decreases times.len(),
{
    let before = times.drop_last();
    let seen = throttle_at(limits, t, times[0]);
    if before.len() == 0 {
        assert(throttle_after_all(limits, t, before) == t);
        assert(throttle_after_all(limits, seen, before) == seen);
    } else {
        assert(before[0] == times[0]);
        lemma_first_request_sees(limits, t, before);
    }
}

/// Within one window a client is admitted exactly `max_requests` times.
///
/// Take any throttle and any requests at `times` such that the first of
/// them finds the count at zero (the throttle is new, or its window is
/// over), and none of them comes after the end of the window that the
/// first one finds open. Then each of the first `max_requests` requests is
/// admitted and every later one is denied.
pub proof fn lemma_window_admits_exactly_max(
    limits: ThrottleLimits,
    t: Throttle,
    times: Seq<u128>,
    i: int,
)
    requires
        0 <= i < times.len(),
        throttle_at(limits, t, times[0]).count == 0,
        forall|j: int|
            0 <= j < times.len() ==> !window_expired(
                limits,
                throttle_at(limits, t, times[0]).last_reset,
                #[trigger] times[j],
            ),
    ensures
        admits_nth(limits, t, times, i) <==> i < limits.max_requests,
{
    let seen = throttle_at(limits, t, times[0]);
    let before = times.take(i);
    assert(!window_expired(limits, seen.last_reset, times[0]));
    assert(!window_expired(limits, seen.last_reset, times[i]));
    if i > 0 {
        assert(before[0] == times[0]);
        lemma_first_request_sees(limits, t, before);
        assert forall|j: int| 0 <= j < before.len() implies !window_expired(
            limits,
            seen.last_reset,
            #[trigger] before[j],
        ) by {
            assert(before[j] == times[j]);
        }
        lemma_count_within_window(limits, seen, before);
    } else {
        assert(throttle_after_all(limits, t, before) == t);
    }
}

/// Once the window is over, the next request starts a new one.
///
/// Whatever the count was, a request that comes after the window's end is
/// admitted (if the limits admit any request at all), counts as the first of
/// its window, and the window opens at the time of that request.
pub proof fn lemma_expired_window_restarts(limits: ThrottleLimits, t: Throttle, now: u128)
    requires
        window_expired(limits, t.last_reset, now),
        limits.max_requests >= 1,
    ensures
        admits(limits, t, now),
        throttle_after(limits, t, now) == (Throttle { count: 1, last_reset: now }),
{
}

/// The admission check keeps the count within the limit.
pub proof fn lemma_throttle_stays_wf(limits: ThrottleLimits, t: Throttle, now: u128)
    requires
        t.wf(limits),
    ensures
        throttle_after(limits, t, now).wf(limits),
{
}

} // verus!
