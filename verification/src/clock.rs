//! A monotonic clock that keeps, as ghost state, every reading it has given.
//!
//! Readings are nanoseconds elapsed since the clock's origin on the system's
//! monotonic clock (`std::time::Instant`). Each reading is no earlier than the
//! ones before it.

use crate::bw::{duration_as_nanos, instant_elapsed};
use std::time::Instant;
use vstd::prelude::*;

verus! {

/// A monotonic clock measuring nanoseconds from an origin.
pub struct MonotonicClock {
    origin: Instant,
    latest: u128,
    readings: Ghost<Seq<u128>>,
}

/// The readings are in the order they were taken, never going back.
pub open spec fn readings_in_order(readings: Seq<u128>) -> bool {
    forall|i: int, j: int| 0 <= i <= j < readings.len() ==> readings[i] <= readings[j]
}

impl MonotonicClock {
    /// The readings never go back, and none exceeds the latest one.
    #[verifier::type_invariant]
    spec fn inv(self) -> bool {
        &&& readings_in_order(self.readings@)
        &&& forall|i: int| 0 <= i < self.readings@.len() ==> self.readings@[i] <= self.latest
    }

    /// Every reading given so far, oldest first.
    pub closed spec fn readings(&self) -> Seq<u128> {
        self.readings@
    }

    /// A clock measuring from `origin` that has given no reading yet.
    pub fn new(origin: Instant) -> (c: Self)
        ensures
            c.readings() == Seq::<u128>::empty(),
    {
        MonotonicClock { origin, latest: 0, readings: Ghost(Seq::<u128>::empty()) }
    }

    /// Reads the clock: the nanoseconds elapsed since the origin, or the
    /// latest reading given when the system clock reports less. The reading
    /// is added to the readings given.
    pub fn read(&mut self) -> (t: u128)
        ensures
            final(self).readings() == old(self).readings().push(t),
            forall|i: int| 0 <= i < old(self).readings().len() ==> old(self).readings()[i] <= t,
            readings_in_order(final(self).readings()),
    {
        proof {
            use_type_invariant(&*self);
        }
        let since_origin = instant_elapsed(&self.origin);
        let elapsed = duration_as_nanos(&since_origin);
        let t = if elapsed < self.latest {
            self.latest
        } else {
            elapsed
        };
        let origin = self.origin;
        let ghost readings = self.readings@.push(t);
        *self = MonotonicClock { origin, latest: t, readings: Ghost(readings) };
        t
    }
}

} // verus!
