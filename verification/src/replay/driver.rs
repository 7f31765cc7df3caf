//! Feeding recorded events into the market data queue.
use vstd::prelude::*;

use crate::data::data_source::DataSource;
use crate::queue::MarketEventQueue;
use crate::types::UnixNanos;

verus! {

/// Counts what it feeds and what the queue had no room for.
#[derive(Debug, Clone, Copy, PartialEq, Eq, Structural)]
pub struct ReplayDriver {
    pub events_pushed: u64,
    pub events_dropped: u64,
}

/// How many of `count` events still fit.
pub open spec fn fitting(used: nat, limit: nat, count: nat) -> nat {
    if used >= limit {
        0
    } else if count <= limit - used {
        count
    } else {
        (limit - used) as nat
    }
}

impl ReplayDriver {
    pub fn new() -> (r: Self)
        ensures
            r == (ReplayDriver { events_pushed: 0, events_dropped: 0 }),
    {
        ReplayDriver { events_pushed: 0, events_dropped: 0 }
    }

    /// Feeds every event of the source into the queue and moves the clock to the
    /// time of each. As nothing takes events out meanwhile, the first ones fill
    /// the queue and the rest is dropped.
    pub fn run<S: DataSource>(
        &mut self,
        source: &mut S,
        queue: &mut MarketEventQueue,
        clock: &mut UnixNanos,
    ) -> (r: u64)
        requires
            old(self).events_pushed + old(source).upcoming().len() <= u64::MAX,
            old(self).events_dropped + old(source).upcoming().len() <= u64::MAX,
        ensures
            ({
                let coming = old(source).upcoming();
                let fit = fitting(old(queue)@.len(), old(queue).limit(), coming.len());
                &&& final(queue)@ == old(queue)@ + coming.take(fit as int)
                &&& final(self).events_pushed == old(self).events_pushed + fit
                &&& final(self).events_dropped == old(self).events_dropped + (coming.len() - fit)
            }),
            r == final(self).events_pushed,
            *final(clock) == (if old(source).upcoming().len() == 0 {
                *old(clock)
            } else {
                old(source).upcoming().last().timestamp
            }),
            final(queue).limit() == old(queue).limit(),
            final(source).upcoming().len() == 0,
            final(source).recording() == old(source).recording(),
    {
        let ghost coming = source.upcoming();
        let ghost start = queue@;
        let ghost limit = queue.limit();
        let ghost mut seen: nat = 0;
        let mut exhausted = false;
        assert(coming.skip(0) =~= coming);
        assert(start + coming.take(0) =~= start);
        while !exhausted
            invariant
                seen <= coming.len(),
                source.recording() == old(source).recording(),
                source.upcoming() == coming.skip(seen as int),
                exhausted ==> seen == coming.len(),
                limit == queue.limit(),
                *clock == (if seen == 0 {
                    *old(clock)
                } else {
                    coming[seen - 1].timestamp
                }),
                old(self).events_pushed + coming.len() <= u64::MAX,
                old(self).events_dropped + coming.len() <= u64::MAX,
                queue@ == start + coming.take(fitting(start.len(), limit, seen) as int),
                self.events_pushed == old(self).events_pushed + fitting(start.len(), limit, seen),
                self.events_dropped == old(self).events_dropped + (seen - fitting(
                    start.len(),
                    limit,
                    seen,
                )),
            decreases coming.len() - seen, (if exhausted { 0int } else { 1int }),
        {
            let ghost fit = fitting(start.len(), limit, seen);
            match source.next_event() {
                Some(event) => {
                    proof {
                        assert(event == coming[seen as int]);
                        assert(coming.skip(seen as int).drop_first() =~= coming.skip(seen as int + 1));
                        assert(coming.take(fit as int).len() == fit);
                    }
                    *clock = event.timestamp;
                    if queue.try_push(event) {
                        self.events_pushed = self.events_pushed + 1;
                        proof {
                            assert(fit == seen);
                            assert(coming.take(seen as int).push(event) =~= coming.take(
                                seen as int + 1,
                            ));
                            assert(queue@ =~= start + coming.take(seen as int + 1));
                        }
                    } else {
                        self.events_dropped = self.events_dropped + 1;
                    }
                    proof {
                        seen = seen + 1;
                    }
                },
                None => {
                    exhausted = true;
                },
            }
        }
        self.events_pushed
    }

    pub fn events_pushed(&self) -> (r: u64)
        ensures
            r == self.events_pushed,
    {
        self.events_pushed
    }

    pub fn events_dropped(&self) -> (r: u64)
        ensures
            r == self.events_dropped,
    {
        self.events_dropped
    }
}

/// As many fit as there is room for, and no more than there are: either all of them
/// go in, or what goes in fills the rest.
pub proof fn as_many_fit_as_there_is_room(used: nat, limit: nat, count: nat)
    requires
        used <= limit,
    ensures
        fitting(used, limit, count) <= count,
        used + fitting(used, limit, count) <= limit,
        fitting(used, limit, count) == count || used + fitting(used, limit, count) == limit,
{
}

} // verus!
