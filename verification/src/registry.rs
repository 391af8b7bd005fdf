//! The throttles of all clients, keyed by client identity.
//!
//! A client's identity is its source address as a 128-bit number. The
//! registry never forgets a client: an entry stays for as long as the registry
//! lives. Exclusive access is what `&mut self` asks for; a caller that shares
//! the registry between tasks holds a lock around each call.

use crate::clock::Clock;
use crate::throttle::{
    admits, fresh_throttle, lemma_window_admits_exactly_max, throttle_after, throttle_after_all,
    throttle_at, window_expired, Throttle, ThrottleLimits,
};
use std::collections::HashMap;
use vstd::prelude::*;

verus! {

/// The throttle that stands for `identity` at `now`: its own if it has been
/// seen, a fresh one otherwise.
pub open spec fn slot_of(slots: Map<u128, Throttle>, identity: u128, now: u128) -> Throttle {
    if slots.contains_key(identity) {
        slots[identity]
    } else {
        fresh_throttle(now)
    }
}

/// The slots once `identity` has been looked up at `now`.
pub open spec fn slots_with(slots: Map<u128, Throttle>, identity: u128, now: u128) -> Map<
    u128,
    Throttle,
> {
    slots.insert(identity, slot_of(slots, identity, now))
}

/// Whether a request of `identity` at `now` is admitted.
pub open spec fn registry_admits(
    limits: ThrottleLimits,
    slots: Map<u128, Throttle>,
    identity: u128,
    now: u128,
) -> bool {
    admits(limits, slot_of(slots, identity, now), now)
}

/// The slots after a request of `identity` at `now`.
pub open spec fn slots_after(
    limits: ThrottleLimits,
    slots: Map<u128, Throttle>,
    identity: u128,
    now: u128,
) -> Map<u128, Throttle> {
    slots.insert(identity, throttle_after(limits, slot_of(slots, identity, now), now))
}

/// The slots after the requests of `identity` at `times`, in order.
pub open spec fn slots_after_all(
    limits: ThrottleLimits,
    slots: Map<u128, Throttle>,
    identity: u128,
    times: Seq<u128>,
) -> Map<u128, Throttle>
    decreases times.len(),
{
    if times.len() == 0 {
        slots
    } else {
        slots_after(
            limits,
            slots_after_all(limits, slots, identity, times.drop_last()),
            identity,
            times.last(),
        )
    }
}

/// Whether the request of `identity` at `times[i]` is admitted, its requests
/// before that one having been made in order.
pub open spec fn registry_admits_nth(
    limits: ThrottleLimits,
    slots: Map<u128, Throttle>,
    identity: u128,
    times: Seq<u128>,
    i: int,
) -> bool {
    registry_admits(limits, slots_after_all(limits, slots, identity, times.take(i)), identity, times[i])
}

/// Every slot keeps its count within the limit.
pub open spec fn slots_wf(limits: ThrottleLimits, slots: Map<u128, Throttle>) -> bool {
    forall|identity: u128| #[trigger]
        slots.contains_key(identity) ==> slots[identity].wf(limits)
}

/// Mapping from client identity to that client's throttle.
pub struct ThrottleRegistry {
    limits: ThrottleLimits,
    slots: HashMap<u128, Throttle>,
}

impl View for ThrottleRegistry {
    type V = Map<u128, Throttle>;

    closed spec fn view(&self) -> Map<u128, Throttle> {
        self.slots@
    }
}

impl ThrottleRegistry {
    /// The limits that every throttle of this registry is held to.
    pub closed spec fn limits(&self) -> ThrottleLimits {
        self.limits
    }

    /// Every throttle in the registry keeps its count within the limit.
    pub open spec fn wf(&self) -> bool {
        slots_wf(self.limits(), self@)
    }

    /// An empty registry with the given limits.
    pub fn new(limits: ThrottleLimits) -> (registry: ThrottleRegistry)
        ensures
            registry@ == Map::<u128, Throttle>::empty(),
            registry.limits() == limits,
            registry.wf(),
    {
        ThrottleRegistry { limits, slots: HashMap::new() }
    }

    /// The limits this registry was made with.
    pub fn configured_limits(&self) -> (limits: ThrottleLimits)
        ensures
            limits == self.limits(),
    {
        self.limits
    }

    /// The state of the throttle of `identity`, if the client has been seen.
    pub fn get(&self, identity: u128) -> (slot: Option<Throttle>)
        ensures
            slot == if self@.contains_key(identity) {
                Some(self@[identity])
            } else {
                None
            },
    {
        broadcast use vstd::std_specs::hash::group_hash_axioms;

        match self.slots.get(&identity) {
            Some(t) => Some(*t),
            None => None,
        }
    }

    /// The throttle of `identity`; a client seen for the first time gets a
    /// fresh one whose window opens at `now`. Returns the throttle's state.
    pub fn get_or_create(&mut self, identity: u128, now: u128) -> (slot: Throttle)
        ensures
            slot == slot_of(old(self)@, identity, now),
            final(self)@ == slots_with(old(self)@, identity, now),
            final(self).limits() == old(self).limits(),
            old(self).wf() ==> final(self).wf(),
    {
        broadcast use vstd::std_specs::hash::group_hash_axioms;

        let found = self.get(identity);
        match found {
            Some(t) => {
                assert(self@ =~= slots_with(self@, identity, now));
                t
            },
            None => {
                let t = Throttle::new(now);
                self.slots.insert(identity, t);
                t
            },
        }
    }

    /// Decides on one request of `identity` at `now`: looks the client's
    /// throttle up, creating it on first sight, and lets it decide.
    pub fn admit_at(&mut self, identity: u128, now: u128) -> (admitted: bool)
        ensures
            admitted == registry_admits(old(self).limits(), old(self)@, identity, now),
            final(self)@ == slots_after(old(self).limits(), old(self)@, identity, now),
            final(self).limits() == old(self).limits(),
            old(self).wf() ==> final(self).wf(),
    {
        broadcast use vstd::std_specs::hash::group_hash_axioms;

        let mut slot = self.get_or_create(identity, now);
        let limits = self.limits;
        let admitted = slot.check_and_increment(&limits, now);
        self.slots.insert(identity, slot);
        assert(self@ =~= slots_after(old(self).limits(), old(self)@, identity, now));
        admitted
    }

    /// Decides on one request of `identity` at the time the clock shows.
    ///
    /// The outcome is that of [`Self::admit_at`] at some reading of the clock.
    pub fn admit_now(&mut self, identity: u128, clock: &Clock) -> (admitted: bool)
        ensures
            exists|now: u128|
                {
                    &&& admitted == #[trigger] registry_admits(
                        old(self).limits(),
                        old(self)@,
                        identity,
                        now,
                    )
                    &&& final(self)@ == slots_after(old(self).limits(), old(self)@, identity, now)
                },
            final(self).limits() == old(self).limits(),
            old(self).wf() ==> final(self).wf(),
    {
        let now = clock.now_nanos();
        self.admit_at(identity, now)
    }
}

/// Through a series of its requests a client is served by one throttle: its
/// own if the registry knew it, a fresh one otherwise.
proof fn lemma_client_slot(
    limits: ThrottleLimits,
    slots: Map<u128, Throttle>,
    identity: u128,
    times: Seq<u128>,
)
    requires
        times.len() > 0,
    ensures
        slots_after_all(limits, slots, identity, times).contains_key(identity),
        slots_after_all(limits, slots, identity, times)[identity] == throttle_after_all(
            limits,
            slot_of(slots, identity, times[0]),
            times,
        ),
    decreases times.len(),
{
    let before = times.drop_last();
    let first = slot_of(slots, identity, times[0]);
    if before.len() == 0 {
        assert(throttle_after_all(limits, first, before) == first);
        assert(slots_after_all(limits, slots, identity, before) == slots);
    } else {
        assert(before[0] == times[0]);
        lemma_client_slot(limits, slots, identity, before);
    }
}

/// A request of one client leaves the throttle of every other client as it
/// was.
pub proof fn lemma_clients_are_independent(
    limits: ThrottleLimits,
    slots: Map<u128, Throttle>,
    identity: u128,
    other: u128,
    now: u128,
)
    requires
        identity != other,
    ensures
        slots_after(limits, slots, identity, now).contains_key(other) == slots.contains_key(other),
        slots_after(limits, slots, identity, now)[other] == slots[other],
{
}

/// The registry never forgets a client: whoever has a throttle keeps one
/// through every request, its own or another's.
pub proof fn lemma_registry_never_forgets(
    limits: ThrottleLimits,
    slots: Map<u128, Throttle>,
    identity: u128,
    now: u128,
    known: u128,
)
    requires
        slots.contains_key(known),
    ensures
        slots_after(limits, slots, identity, now).contains_key(known),
        slots_after(limits, slots, identity, now).contains_key(identity),
{
}

/// For every client: within one window exactly `max_requests` requests are
/// admitted.
///
/// Take any registry and any requests of one client at `times` such that
/// the first of them finds the client's count at zero (the client is new,
/// or its window is over), and none of them comes after the end of the
/// window that the first one finds open. Then each of the first
/// `max_requests` requests is admitted and every later one is denied.
pub proof fn lemma_registry_admits_exactly_max(
    limits: ThrottleLimits,
    slots: Map<u128, Throttle>,
    identity: u128,
    times: Seq<u128>,
    i: int,
)
    requires
        0 <= i < times.len(),
        throttle_at(limits, slot_of(slots, identity, times[0]), times[0]).count == 0,
        forall|j: int|
            0 <= j < times.len() ==> !window_expired(
                limits,
                throttle_at(limits, slot_of(slots, identity, times[0]), times[0]).last_reset,
                #[trigger] times[j],
            ),
    ensures
        registry_admits_nth(limits, slots, identity, times, i) <==> i < limits.max_requests,
{
    let first = slot_of(slots, identity, times[0]);
    let before = times.take(i);
    lemma_window_admits_exactly_max(limits, first, times, i);
    if i == 0 {
        assert(slots_after_all(limits, slots, identity, before) == slots);
        assert(throttle_after_all(limits, first, before) == first);
    } else {
        assert(before[0] == times[0]);
        lemma_client_slot(limits, slots, identity, before);
    }
}

/// Once a client's window is over, its next request starts a new one:
/// whatever its count was, the request is admitted (if the limits admit
/// any request at all), counts as the first of its window, and the window
/// opens at the time of that request.
pub proof fn lemma_registry_restarts_expired_window(
    limits: ThrottleLimits,
    slots: Map<u128, Throttle>,
    identity: u128,
    now: u128,
)
    requires
        slots.contains_key(identity),
        window_expired(limits, slots[identity].last_reset, now),
        limits.max_requests >= 1,
    ensures
        registry_admits(limits, slots, identity, now),
        slots_after(limits, slots, identity, now)[identity] == (Throttle {
            count: 1,
            last_reset: now,
        }),
{
}

/// A client that the registry has not seen finds its count at zero and its
/// window open from its first request on.
pub proof fn lemma_new_client_starts_at_zero(
    limits: ThrottleLimits,
    slots: Map<u128, Throttle>,
    identity: u128,
    now: u128,
)
    requires
        !slots.contains_key(identity),
    ensures
        throttle_at(limits, slot_of(slots, identity, now), now) == fresh_throttle(now),
{
}

} // verus!
