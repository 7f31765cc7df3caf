//! Sources of recorded market events.
use vstd::prelude::*;

use crate::types::MarketEvent;

verus! {

/// A finite stream of market events that can be rewound.
pub trait DataSource {
    /// The events yet to come.
    spec fn upcoming(&self) -> Seq<MarketEvent>;

    /// All events of the source, from its beginning.
    spec fn recording(&self) -> Seq<MarketEvent>;

    /// Whether the source is in a state that it can be in: no more events are yet
    /// to come than it has.
    spec fn wf(&self) -> bool;

    /// The next event, or nothing once the source is exhausted.
    fn next_event(&mut self) -> (r: Option<MarketEvent>)
        ensures
            final(self).recording() == old(self).recording(),
            r is Some <==> old(self).upcoming().len() > 0,
            r matches Some(event) ==> event == old(self).upcoming()[0] && final(self).upcoming()
                == old(self).upcoming().drop_first(),
            r is None ==> final(self).upcoming() == old(self).upcoming(),
            old(self).wf() ==> final(self).wf(),
    ;

    /// Goes back to the beginning.
    fn reset(&mut self)
        ensures
            final(self).recording() == old(self).recording(),
            final(self).upcoming() == old(self).recording(),
            final(self).wf(),
    ;

    /// How many events have come since the beginning.
    fn event_count(&self) -> (r: usize)
        requires
            self.wf(),
        ensures
            r == self.recording().len() - self.upcoming().len(),
    ;
}

} // verus!
