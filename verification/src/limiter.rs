//! The rate limiter: remembers, per client address, the epoch-seconds
//! timestamp of its last admitted write attempt, and rejects a new attempt
//! that comes less than a configured window after it.

use vstd::prelude::*;
use crate::kvlist::KvList;

verus! {

/// The default minimum spacing, in seconds, between two write attempts
/// from one address.
pub const DEFAULT_RATE_LIMIT_WINDOW_SECS: u64 = 5;

pub struct RateLimiter {
    stamps: KvList<u64>,
    window: u64,
}

impl RateLimiter {
    pub closed spec fn inv(&self) -> bool {
        self.stamps.wf()
    }

    /// The minimum spacing, in seconds, between admitted attempts.
    pub closed spec fn spec_window(&self) -> u64 {
        self.window
    }

    /// An attempt from `addr` at `now` comes too soon after the last one.
    pub open spec fn spec_limited(&self, addr: Seq<char>, now: u64) -> bool {
        self@.contains_key(addr) && now - self@[addr] < self.spec_window()
    }

    pub fn new(window: u64) -> (r: Self)
        ensures
            r.inv(),
            r@ == Map::<Seq<char>, u64>::empty(),
            r.spec_window() == window,
    {
        RateLimiter { stamps: KvList::new(), window }
    }

    pub fn window(&self) -> (r: u64)
        ensures
            r == self.spec_window(),
    {
        self.window
    }

    /// Admits or rejects a write attempt from `addr` at `now`; an admitted
    /// attempt is recorded, a rejected one leaves the state as it was.
    pub fn allow(&mut self, addr: String, now: u64) -> (r: bool)
        requires
            old(self).inv(),
        ensures
            final(self).inv(),
            final(self).spec_window() == old(self).spec_window(),
            r == !old(self).spec_limited(addr@, now),
            r ==> final(self)@ == old(self)@.insert(addr@, now),
            !r ==> final(self)@ == old(self)@,
    {
        let limited = match self.stamps.get(&addr) {
            Some(last) => now < *last || now - *last < self.window,
            None => false,
        };
        if limited {
            false
        } else {
            self.stamps.insert(addr, now);
            true
        }
    }
}

impl View for RateLimiter {
    type V = Map<Seq<char>, u64>;

    closed spec fn view(&self) -> Map<Seq<char>, u64> {
        self.stamps@
    }
}

} // verus!
