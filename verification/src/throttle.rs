//! A minimum-interval timer that gates repeated actions.

use vstd::prelude::*;

verus! {

/// Remembers when an action last fired and how long it must wait before it
/// may fire again. Timestamps are milliseconds on a clock of the caller's
/// choosing.
#[derive(Clone, Copy, Debug, PartialEq, Eq, Structural)]
pub struct Throttle {
    pub last: u64,
    pub interval: u64,
}

impl Throttle {
    /// Time since the last firing; zero if `now` lies before it.
    pub open spec fn elapsed(self, now: u64) -> int {
        if now >= self.last {
            now - self.last
        } else {
            0
        }
    }

    /// Whether the action may fire at `now`.
    pub open spec fn due(self, now: u64) -> bool {
        self.elapsed(now) >= self.interval
    }

    /// The throttle after it was asked at `now`: rewound to `now` if it was
    /// due, untouched otherwise.
    pub open spec fn after(self, now: u64) -> Throttle {
        if self.due(now) {
            Throttle { last: now, interval: self.interval }
        } else {
            self
        }
    }

    /// A throttle that counts from `now`.
    pub fn new(interval: u64, now: u64) -> (t: Throttle)
        ensures
            t == (Throttle { last: now, interval }),
    {
        Throttle { last: now, interval }
    }

    /// Executable form of [`Throttle::due`].
    pub fn is_due(&self, now: u64) -> (d: bool)
        ensures
            d == self.due(now),
    {
        if now >= self.last {
            now - self.last >= self.interval
        } else {
            self.interval == 0
        }
    }

    /// Asks the throttle at `now`. Reports whether the action fires, and if
    /// it does, starts the next interval at `now`.
    pub fn fire(&mut self, now: u64) -> (fired: bool)
        ensures
            fired == old(self).due(now),
            *final(self) == old(self).after(now),
    {
        let fired = self.is_due(now);
        if fired {
            self.last = now;
        }
        fired
    }
}

/// Two firings of one throttle are never closer than its interval: once it
/// has fired at `first`, it stays silent at every later time that is less
/// than one interval away.
pub proof fn law_no_double_fire(t: Throttle, first: u64, second: u64)
    requires
        t.due(first),
        first <= second,
        second - first < t.interval,
    ensures
        !t.after(first).due(second),
        t.after(first).after(second) == t.after(first),
{
}

/// A throttle that has fired at `first` fires again exactly at the times
/// that lie a full interval or more after `first`.
pub proof fn law_fires_once_per_interval(t: Throttle, first: u64, second: u64)
    requires
        t.due(first),
        first <= second,
    ensures
        t.after(first).due(second) <==> second - first >= t.interval,
{
}

} // verus!
