//! Bounded fan-out for one tick's poll exchanges.
//!
//! A tick's exchanges run concurrently, but never more than a fixed limit at
//! once; an exchange beyond the limit waits for a slot.  The slot accounting
//! is decided here: the shell may only start an exchange when `try_start`
//! grants a slot, and returns it with `complete`.

use vstd::prelude::*;
use vstd::string::*;

verus! {

/// How many exchanges may be outstanding at once within one tick.
pub const DEFAULT_FANOUT_LIMIT: usize = 20;

/// How long one exchange waits for the sensor's reply, in milliseconds.
pub const POLL_TIMEOUT_MS: u64 = 500;

/// The trigger payload published on a sensor's poll topic.
pub fn poll_request_payload() -> (r: String)
    ensures
        r@ == "poll"@,
{
    String::from_str("poll")
}

/// The slot counter for one tick's exchanges.
pub struct FanOut {
    limit: usize,
    in_flight: usize,
}

impl FanOut {
    pub closed spec fn limit(&self) -> int {
        self.limit as int
    }

    pub closed spec fn in_flight(&self) -> int {
        self.in_flight as int
    }

    /// The counter's invariant: outstanding exchanges never exceed the
    /// limit.
    pub open spec fn wf(&self) -> bool {
        1 <= self.limit() && 0 <= self.in_flight() <= self.limit()
    }

    pub fn new(limit: usize) -> (r: FanOut)
        requires
            limit >= 1,
        ensures
            r.wf(),
            r.limit() == limit,
            r.in_flight() == 0,
    {
        FanOut { limit, in_flight: 0 }
    }

    /// Asks for a slot: granted exactly when a slot is free, and the grant
    /// occupies it.
    pub fn try_start(&mut self) -> (granted: bool)
        requires
            old(self).wf(),
        ensures
            final(self).wf(),
            final(self).limit() == old(self).limit(),
            granted <==> old(self).in_flight() < old(self).limit(),
            granted ==> final(self).in_flight() == old(self).in_flight() + 1,
            !granted ==> final(self).in_flight() == old(self).in_flight(),
    {
        if self.in_flight < self.limit {
            self.in_flight = self.in_flight + 1;
            true
        } else {
            false
        }
    }

    /// Returns a slot when an exchange finishes.
    pub fn complete(&mut self)
        requires
            old(self).wf(),
            old(self).in_flight() >= 1,
        ensures
            final(self).wf(),
            final(self).limit() == old(self).limit(),
            final(self).in_flight() == old(self).in_flight() - 1,
    {
        self.in_flight = self.in_flight - 1;
    }

    pub fn outstanding(&self) -> (n: usize)
        ensures
            n == self.in_flight(),
    {
        self.in_flight
    }
}

/// Bounded fan-out: however slots are taken and returned, the exchanges
/// outstanding at any instant never exceed the configured limit.
pub proof fn lemma_fanout_bounded(f: FanOut)
    requires
        f.wf(),
    ensures
        f.in_flight() <= f.limit(),
{
}

} // verus!
