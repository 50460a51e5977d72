//! A ring of the most recent clock-offset samples taken against a server:
//! each sample is when it was taken and how far the local clock was ahead of
//! the server's, in milliseconds. Samples are written and read through
//! shared references, so a reader may see samples written while it reads.

use vstd::prelude::*;
use std::sync::atomic::{AtomicI64, AtomicUsize};
use crate::abs_difference_usize;
use crate::time::{Timestamp, utc_now};

verus! {

/// The last `N` clock-offset samples: the instant each was taken, in whole
/// seconds, and the local clock's lead over the remote clock, in
/// milliseconds; and the slot the next sample goes into.
pub struct Jitter<const N: usize> {
    index: AtomicUsize,
    buffer: Vec<(AtomicI64, AtomicI64)>,
}

/// Reads the samples of a jitter ring, starting at the slot that was next
/// to be written when reading began.
pub struct Iter<'a, const N: usize> {
    jitter: &'a Jitter<N>,
    current: usize,
    start: usize,
}

/// The whole milliseconds from `earlier` to `later`, truncated towards zero.
pub open spec fn millis_between(later: Timestamp, earlier: Timestamp) -> int {
    let delta = later.total_nanos() - earlier.total_nanos();
    if delta >= 0 {
        delta / 1_000_000
    } else {
        -((-delta) / 1_000_000)
    }
}

/// The sample taken at `now` against the remote clock reading `remote_time`:
/// the whole seconds of `now`, and the milliseconds from the remote reading
/// to `now`.
pub fn sample_of(now: Timestamp, remote_time: Timestamp) -> (r: (i64, i64))
    requires
        now.valid(),
        remote_time.valid(),
    ensures
        r == (now.seconds, millis_between(now, remote_time) as i64),
{
    let delta: i128 = (now.seconds as i128) * 1_000_000_000 + (now.nanos as i128) - ((remote_time.seconds as i128) * 1_000_000_000
        + (remote_time.nanos as i128));
    let millis: i64 = if delta >= 0 {
        (delta / 1_000_000) as i64
    } else {
        -(((-delta) / 1_000_000) as i64)
    };
    (now.seconds, millis)
}

/// The slot after slot `i` of a ring of `n` slots, wrapping around after
/// the last; slot 0 for a slot past the end.
pub open spec fn spec_slot_after(i: usize, n: usize) -> usize {
    if i + 1 < n {
        (i + 1) as usize
    } else {
        0
    }
}

/// The slot after slot `i` of a ring of `n` slots.
pub fn slot_after(i: usize, n: usize) -> (r: usize)
    ensures
        r == spec_slot_after(i, n),
        n > 0 ==> r < n,
{
    if n > 0 && i < n - 1 {
        i + 1
    } else {
        0
    }
}

/// The instant `stamp` milliseconds after the Unix epoch.
pub open spec fn instant_of_millis(stamp: i64) -> Timestamp {
    let seconds = stamp / 1000;
    let millis = stamp % 1000;
    Timestamp { seconds: seconds as i64, nanos: (millis * 1_000_000) as u32 }
}

/// The instant `stamp` milliseconds after the Unix epoch.
pub fn instant_from_millis(stamp: i64) -> (r: Timestamp)
    ensures
        r == instant_of_millis(stamp),
        r.nanos < 1_000_000_000,
{
    let (seconds, millis): (i64, i64) = if stamp >= 0 {
        (stamp / 1000, stamp % 1000)
    } else {
        let back: i64 = 0 - (stamp + 1);
        let q: i64 = back / 1000;
        let rem: i64 = back % 1000;
        assert(stamp / 1000 == -q - 1 && stamp % 1000 == 999 - rem) by (nonlinear_arith)
            requires
                back == -(stamp + 1),
                back >= 0,
                q == back / 1000,
                rem == back % 1000,
                0 <= rem < 1000,
                back == 1000 * q + rem,
        ;
        (0 - q - 1, 999 - rem)
    };
    Timestamp { seconds, nanos: (millis * 1_000_000) as u32 }
}

/// `AtomicUsize::fetch_update` with relaxed ordering, moving the slot held
/// by `index` to `slot_after` of it in a ring of `n` slots: the slot it held
/// before. The closure never declines, so the update always takes place.
/// Nothing is promised of the value, which other threads may change.
#[verifier::external_body]
fn advance_slot(index: &AtomicUsize, n: usize) -> (r: usize) {
    match index.fetch_update(
        std::sync::atomic::Ordering::Relaxed,
        std::sync::atomic::Ordering::Relaxed,
        |i| Some(slot_after(i, n)),
    ) {
        Ok(v) => v,
        Err(v) => v,
    }
}

impl<const N: usize> Jitter<N> {
    /// The ring holds `N` slots.
    #[verifier::type_invariant]
    closed spec fn inv(&self) -> bool {
        self.buffer@.len() == N
    }

    /// Stores the sample taken at `now` against the remote clock reading
    /// `remote_time`, `sample_of(now, remote_time)`, in the slot the ring
    /// holds as next, and moves that slot on by one, wrapping around after
    /// the last. Other threads may write at the same time, so nothing is
    /// promised of which slot it lands in; a slot past the end, which no
    /// write through this ring can leave, stores nothing.
    pub fn record(&self, now: Timestamp, remote_time: Timestamp)
        requires
            now.valid(),
            remote_time.valid(),
    {
        proof {
            use_type_invariant(self);
        }
        let (stamp, difference) = sample_of(now, remote_time);
        let index = advance_slot(&self.index, N);
        if index < self.buffer.len() {
            self.buffer[index].0.store(stamp, std::sync::atomic::Ordering::Relaxed);
            self.buffer[index].1.store(difference, std::sync::atomic::Ordering::Relaxed);
        }
    }

    /// Stores a sample taken now, read from the clock, against the remote
    /// clock reading `remote_time`, as `record` does.
    pub fn update(&self, remote_time: Timestamp)
        requires
            remote_time.valid(),
    {
        let now = utc_now();
        self.record(now, remote_time);
    }

    /// Reads the samples, starting at the slot that is next to be written.
    pub fn iter(&self) -> (r: Iter<'_, N>)
        ensures
            r.position() == 0,
            *r.ring() == *self,
    {
        let start = self.index.load(std::sync::atomic::Ordering::Relaxed);
        Iter { jitter: self, current: 0, start }
    }
}

impl<const N: usize> Default for Jitter<N> {
    /// A ring of `N` slots, each holding zeros, writing first to slot 0.
    fn default() -> (r: Jitter<N>) {
        let mut buffer: Vec<(AtomicI64, AtomicI64)> = Vec::new();
        while buffer.len() < N
            invariant
                buffer@.len() <= N,
            decreases N - buffer@.len(),
        {
            buffer.push((AtomicI64::new(0), AtomicI64::new(0)));
        }
        Jitter { index: AtomicUsize::new(0), buffer }
    }
}

impl<'a, const N: usize> Iter<'a, N> {
    /// How many samples have been read.
    pub closed spec fn position(&self) -> nat {
        self.current as nat
    }

    /// The ring being read.
    pub closed spec fn ring(&self) -> &'a Jitter<N> {
        self.jitter
    }

    /// The next sample: its instant, read from the stored stamp as
    /// milliseconds since the Unix epoch, and the clock offset in
    /// milliseconds. Reading stops once fewer than two slots remain, and
    /// while fewer than two samples have been written since reading began.
    /// Other threads may write while the ring is read, so which sample comes
    /// out is not promised.
    pub fn next(&mut self) -> (r: Option<(Timestamp, i64)>)
        ensures
            (N < 2 || old(self).position() + 2 > N) ==> r is None,
            final(self).ring() == old(self).ring(),
            match r {
                Some((t, _)) => final(self).position() == old(self).position() + 1 && exists|stamp: i64| t == instant_of_millis(stamp),
                None => final(self).position() == old(self).position(),
            },
    {
        proof {
            use_type_invariant(self.jitter);
        }
        if N < 2 || self.current > N - 2 {
            return None;
        }
        let index = self.jitter.index.load(std::sync::atomic::Ordering::Relaxed);
        if abs_difference_usize(self.start, index) < 2 {
            return None;
        }
        let first = self.start % N;
        let slot = if first < N - self.current {
            first + self.current
        } else {
            first - (N - self.current)
        };
        let stamp = self.jitter.buffer[slot].0.load(std::sync::atomic::Ordering::Relaxed);
        let difference = self.jitter.buffer[slot].1.load(std::sync::atomic::Ordering::Relaxed);
        self.current = self.current + 1;
        Some((instant_from_millis(stamp), difference))
    }
}

} // verus!
