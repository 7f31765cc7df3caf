//! Bars built from trades.
use vstd::prelude::*;

use crate::types::{Bar, FixedPrice, MarketEvent, MarketEventType, UnixNanos};

verus! {

/// A bar whose interval is not over.
#[derive(Debug, Clone, Copy, PartialEq, Eq, Structural)]
pub struct BarInProgress {
    /// Begin of the interval.
    pub bucket_start: u64,
    pub open: FixedPrice,
    pub high: FixedPrice,
    pub low: FixedPrice,
    pub close: FixedPrice,
    pub volume: u64,
    /// Time of the last trade.
    pub last_ts: UnixNanos,
}

impl BarInProgress {
    /// The bar of a single trade.
    pub open spec fn opened(bucket_start: u64, trade: MarketEvent) -> BarInProgress {
        BarInProgress {
            bucket_start,
            open: trade.price,
            high: trade.price,
            low: trade.price,
            close: trade.price,
            volume: trade.size as u64,
            last_ts: trade.timestamp,
        }
    }

    /// The bar with one more trade.
    pub open spec fn extended(self, trade: MarketEvent) -> BarInProgress {
        BarInProgress {
            high: if trade.price.quarter_ticks > self.high.quarter_ticks {
                trade.price
            } else {
                self.high
            },
            low: if trade.price.quarter_ticks < self.low.quarter_ticks {
                trade.price
            } else {
                self.low
            },
            close: trade.price,
            volume: if self.volume + trade.size > u64::MAX {
                u64::MAX
            } else {
                (self.volume + trade.size) as u64
            },
            last_ts: trade.timestamp,
            ..self
        }
    }

    /// The finished bar.
    pub open spec fn finished(self) -> Bar {
        Bar {
            open: self.open,
            high: self.high,
            low: self.low,
            close: self.close,
            volume: self.volume,
            timestamp: self.last_ts,
        }
    }

    fn finish(&self) -> (r: Bar)
        ensures
            r == self.finished(),
    {
        Bar {
            open: self.open,
            high: self.high,
            low: self.low,
            close: self.close,
            volume: self.volume,
            timestamp: self.last_ts,
        }
    }

    /// Open and close lie between low and high.
    pub open spec fn spans(self) -> bool {
        &&& self.low.quarter_ticks <= self.open.quarter_ticks <= self.high.quarter_ticks
        &&& self.low.quarter_ticks <= self.close.quarter_ticks <= self.high.quarter_ticks
    }
}

/// Cuts a stream of market events into bars. Only trades count.
#[derive(Debug, Clone, Copy, PartialEq, Eq, Structural)]
pub struct BarBuilder {
    /// Length of a bar; zero builds none.
    pub interval_nanos: u64,
    pub current: Option<BarInProgress>,
}

/// Begin of the interval that a time lies in.
pub open spec fn bucket_of(ts: u64, interval: u64) -> u64 {
    (ts - ts % interval) as u64
}

impl BarBuilder {
    pub fn new(interval_nanos: u64) -> (r: Self)
        ensures
            r == (BarBuilder { interval_nanos, current: None }),
    {
        BarBuilder { interval_nanos, current: None }
    }

    /// Whether the event matters to the bars.
    pub open spec fn counts(self, event: MarketEvent) -> bool {
        self.interval_nanos != 0 && event.event_type is Trade
    }

    /// The bar that an event closes.
    pub open spec fn closed_by(self, event: MarketEvent) -> Option<Bar> {
        match self.current {
            Some(bar) => if self.counts(event) && bar.bucket_start != bucket_of(
                event.timestamp.nanos,
                self.interval_nanos,
            ) {
                Some(bar.finished())
            } else {
                None
            },
            None => None,
        }
    }

    /// The builder after an event.
    pub open spec fn after(self, event: MarketEvent) -> BarBuilder {
        if !self.counts(event) {
            self
        } else {
            let bucket = bucket_of(event.timestamp.nanos, self.interval_nanos);
            BarBuilder {
                current: match self.current {
                    Some(bar) => if bar.bucket_start == bucket {
                        Some(bar.extended(event))
                    } else {
                        Some(BarInProgress::opened(bucket, event))
                    },
                    None => Some(BarInProgress::opened(bucket, event)),
                },
                ..self
            }
        }
    }

    /// Takes an event in, and hands out the bar before it where the event begins
    /// a new interval.
    pub fn consume(&mut self, event: &MarketEvent) -> (r: Option<Bar>)
        ensures
            r == old(self).closed_by(*event),
            *final(self) == old(self).after(*event),
    {
        if self.interval_nanos == 0 {
            return None;
        }
        if event.event_type != MarketEventType::Trade {
            return None;
        }
        let ts: u64 = event.timestamp.nanos;
        proof {
            vstd::arithmetic::div_mod::lemma_mod_decreases(ts as nat, self.interval_nanos as nat);
        }
        let bucket_start: u64 = ts - ts % self.interval_nanos;
        let fresh = BarInProgress {
            bucket_start,
            open: event.price,
            high: event.price,
            low: event.price,
            close: event.price,
            volume: event.size as u64,
            last_ts: event.timestamp,
        };
        match self.current {
            None => {
                self.current = Some(fresh);
                None
            },
            Some(bar) => {
                if bar.bucket_start == bucket_start {
                    let mut grown = bar;
                    if event.price.raw() > grown.high.raw() {
                        grown.high = event.price;
                    }
                    if event.price.raw() < grown.low.raw() {
                        grown.low = event.price;
                    }
                    grown.close = event.price;
                    grown.volume = grown.volume.saturating_add(event.size as u64);
                    grown.last_ts = event.timestamp;
                    self.current = Some(grown);
                    None
                } else {
                    self.current = Some(fresh);
                    Some(bar.finish())
                }
            },
        }
    }

    /// Hands out the unfinished bar, if there is one.
    pub fn flush(&mut self) -> (r: Option<Bar>)
        ensures
            r == (match old(self).current {
                Some(bar) => Some(bar.finished()),
                None => None,
            }),
            *final(self) == (BarBuilder { current: None, ..*old(self) }),
    {
        match self.current.take() {
            Some(bar) => Some(bar.finish()),
            None => None,
        }
    }
}

/// A bar always spans its own open and close, however many trades it takes in.
pub proof fn bars_span_their_prices(builder: BarBuilder, event: MarketEvent)
    requires
        builder.current matches Some(bar) ==> bar.spans(),
    ensures
        builder.after(event).current matches Some(bar) ==> bar.spans(),
{
}

/// Quotes and snapshots never touch a bar.
pub proof fn only_trades_count(builder: BarBuilder, event: MarketEvent)
    requires
        !(event.event_type is Trade),
    ensures
        builder.after(event) == builder,
        builder.closed_by(event) is None,
{
}

/// Time falls into intervals that begin at the multiples of their length: every
/// instant lies in one of them, at or after its begin and before its end.
pub proof fn instants_lie_in_their_interval(ts: u64, interval: u64)
    requires
        interval > 0,
    ensures
        bucket_of(ts, interval) <= ts < bucket_of(ts, interval) + interval,
        bucket_of(ts, interval) as int % interval as int == 0,
{
    vstd::arithmetic::div_mod::lemma_fundamental_div_mod(ts as int, interval as int);
    let whole = interval as int * (ts as int / interval as int);
    assert(ts - ts % interval == whole);
    vstd::arithmetic::div_mod::lemma_mod_multiples_basic(
        ts as int / interval as int,
        interval as int,
    );
    assert(interval as int * (ts as int / interval as int) == (ts as int / interval as int)
        * interval as int) by (nonlinear_arith);
}

/// A trade within the interval of the bar becomes its close; its price widens the
/// bar no further than to itself, its contracts are added to the volume, and the
/// open stays. Nothing is given out.
pub proof fn trades_build_the_bar(builder: BarBuilder, trade: MarketEvent)
    requires
        builder.interval_nanos > 0,
        trade.event_type == MarketEventType::Trade,
        builder.current is Some,
        builder.current->Some_0.bucket_start <= trade.timestamp.nanos
            < builder.current->Some_0.bucket_start + builder.interval_nanos,
        builder.current->Some_0.bucket_start as int % builder.interval_nanos as int == 0,
    ensures
        ({
            let was = builder.current->Some_0;
            let after = builder.after(trade);
            let bar = after.current->Some_0;
            let price = trade.price.quarter_ticks;
            &&& builder.closed_by(trade) is None
            &&& after.interval_nanos == builder.interval_nanos
            &&& after.current is Some
            &&& bar.bucket_start == was.bucket_start
            &&& bar.open == was.open
            &&& bar.close == trade.price
            &&& bar.last_ts == trade.timestamp
            &&& bar.high.quarter_ticks >= was.high.quarter_ticks
            &&& bar.high.quarter_ticks >= price
            &&& bar.high == was.high || bar.high == trade.price
            &&& bar.low.quarter_ticks <= was.low.quarter_ticks
            &&& bar.low.quarter_ticks <= price
            &&& bar.low == was.low || bar.low == trade.price
            &&& was.volume + trade.size <= u64::MAX ==> bar.volume == was.volume + trade.size
            &&& was.volume + trade.size > u64::MAX ==> bar.volume == u64::MAX
        }),
{
    lemma_same_interval(
        trade.timestamp.nanos as int,
        builder.current->Some_0.bucket_start as int,
        builder.interval_nanos as int,
    );
}

proof fn lemma_same_interval(ts: int, start: int, interval: int)
    requires
        interval > 0,
        0 <= start <= ts < start + interval,
        start % interval == 0,
    ensures
        ts - ts % interval == start,
{
    vstd::arithmetic::div_mod::lemma_fundamental_div_mod(start, interval);
    vstd::arithmetic::div_mod::lemma_mod_multiples_vanish(start / interval, ts - start, interval);
    vstd::arithmetic::div_mod::lemma_small_mod((ts - start) as nat, interval as nat);
    assert(interval * (start / interval) + (ts - start) == ts);
}

/// A trade of another interval closes the bar, which is given out as it stood, and
/// opens one of its own; the first trade of all opens one and closes none.
pub proof fn a_new_interval_closes_the_bar(builder: BarBuilder, trade: MarketEvent)
    requires
        builder.interval_nanos > 0,
        trade.event_type == MarketEventType::Trade,
        builder.current matches Some(bar) ==> !(bar.bucket_start <= trade.timestamp.nanos
            < bar.bucket_start + builder.interval_nanos),
    ensures
        ({
            let after = builder.after(trade);
            let bar = after.current->Some_0;
            &&& builder.closed_by(trade) is Some <==> builder.current is Some
            &&& builder.closed_by(trade) matches Some(done) ==> {
                let was = builder.current->Some_0;
                &&& done.open == was.open
                &&& done.high == was.high
                &&& done.low == was.low
                &&& done.close == was.close
                &&& done.volume == was.volume
                &&& done.timestamp == was.last_ts
            }
            &&& after.interval_nanos == builder.interval_nanos
            &&& after.current is Some
            &&& bar.bucket_start <= trade.timestamp.nanos < bar.bucket_start
                + builder.interval_nanos
            &&& bar.bucket_start as int % builder.interval_nanos as int == 0
            &&& bar.open == trade.price
            &&& bar.high == trade.price
            &&& bar.low == trade.price
            &&& bar.close == trade.price
            &&& bar.volume == trade.size
            &&& bar.last_ts == trade.timestamp
        }),
{
    instants_lie_in_their_interval(trade.timestamp.nanos, builder.interval_nanos);
}

} // verus!
