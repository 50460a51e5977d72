//! A remembered clock reading, to the whole second, that can be set to the
//! current time again.

use vstd::prelude::*;
use crate::time::{MAX_SECONDS, MIN_SECONDS, Timestamp, utc_now};

verus! {

/// A clock reading in whole seconds since the Unix epoch.
pub struct AtomicClock(i64);

impl AtomicClock {
    /// The seconds since the Unix epoch this clock holds.
    pub closed spec fn seconds(&self) -> i64 {
        self.0
    }

    /// The reading lies in `chrono`'s range.
    pub open spec fn valid(&self) -> bool {
        MIN_SECONDS <= self.seconds() <= MAX_SECONDS
    }

    /// A clock set to the current time. The time is read from the system
    /// clock, so nothing is promised of which second it holds beyond that it
    /// is a valid one.
    pub fn now() -> (r: AtomicClock)
        ensures
            r.valid(),
    {
        AtomicClock(utc_now().seconds)
    }

    /// The instant this clock holds, at the start of its second.
    pub fn read(&self) -> (r: Timestamp)
        requires
            self.valid(),
        ensures
            r == (Timestamp { seconds: self.seconds(), nanos: 0 }),
            r.valid(),
    {
        Timestamp { seconds: self.0, nanos: 0 }
    }

    /// Sets this clock to the current time; as for `now`, only that the
    /// second it holds is a valid one is promised.
    pub fn reset(&mut self)
        ensures
            final(self).valid(),
    {
        self.0 = utc_now().seconds;
    }
}

impl From<Timestamp> for AtomicClock {
    /// A clock holding the whole second of `value`.
    fn from(value: Timestamp) -> (r: AtomicClock)
        ensures
            r.seconds() == value.seconds,
    {
        AtomicClock(value.seconds)
    }
}

impl vstd::std_specs::convert::FromSpecImpl<Timestamp> for AtomicClock {
    open spec fn obeys_from_spec() -> bool {
        true
    }

    closed spec fn from_spec(v: Timestamp) -> AtomicClock {
        AtomicClock(v.seconds)
    }
}

} // verus!
