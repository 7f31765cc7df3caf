//! Sources of market events for paper trading.
use vstd::prelude::*;

use crate::types::MarketEvent;

verus! {

/// A source of market events. A feed that has none right now may have some later.
pub trait MarketDataFeed {
    /// The events that come before the feed says that there is none.
    spec fn upcoming(&self) -> Seq<MarketEvent>;

    /// The next event, or nothing where none is available.
    fn next_event(&mut self) -> (r: Option<MarketEvent>)
        ensures
            r is Some <==> old(self).upcoming().len() > 0,
            r matches Some(event) ==> event == old(self).upcoming()[0] && final(self).upcoming()
                == old(self).upcoming().drop_first(),
    ;
}

/// A feed of given events, each handed out once.
pub struct VecMarketDataFeed {
    events: Vec<MarketEvent>,
    yielded: usize,
}

impl VecMarketDataFeed {
    /// How many events have been handed out.
    pub closed spec fn count(&self) -> nat {
        self.yielded as nat
    }

    pub fn new(events: Vec<MarketEvent>) -> (r: Self)
        ensures
            r.upcoming() == events@,
            r.count() == 0,
    {
        let r = VecMarketDataFeed { events, yielded: 0 };
        assert(r.upcoming() =~= events@);
        r
    }

    pub fn yielded(&self) -> (r: usize)
        ensures
            r == self.count(),
    {
        self.yielded
    }
}

impl MarketDataFeed for VecMarketDataFeed {
    closed spec fn upcoming(&self) -> Seq<MarketEvent> {
        if self.yielded <= self.events@.len() {
            self.events@.subrange(self.yielded as int, self.events@.len() as int)
        } else {
            Seq::empty()
        }
    }

    fn next_event(&mut self) -> (r: Option<MarketEvent>)
        ensures
            final(self).count() == old(self).count() + if r is Some {
                1nat
            } else {
                0
            },
            r is None ==> final(self).upcoming() == old(self).upcoming(),
    {
        if self.yielded < self.events.len() {
            let event = self.events[self.yielded];
            self.yielded = self.yielded + 1;
            assert(self.upcoming() =~= old(self).upcoming().drop_first());
            Some(event)
        } else {
            None
        }
    }
}

} // verus!
