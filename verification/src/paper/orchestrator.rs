//! A paper trading session: live events through the usual queues, orders answered
//! by the same simulated fills as in a replay.
use vstd::prelude::*;

use super::data_feed::MarketDataFeed;
use crate::persistence::journal::{
    EngineEvent, EventModel, JournalLog, JournalSender, SystemEventRecord,
};
use crate::queue::MARKET_EVENT_QUEUE_CAPACITY;
use crate::replay::fill_sim::FillModel;
use crate::replay::orchestrator::ReplayModel;
use crate::replay::pipes::{
    every_waiting_order_is_answered, fed_events_are_not_lost, lemma_orders_filled_frame, PipesModel,
    SimulationPipes,
};
use crate::types::{FillEvent, MarketEvent, OrderBook, OrderEvent, TradeSource, UnixNanos};

verus! {

/// Settings of a paper trading session.
#[derive(Debug, Clone)]
pub struct PaperTradingConfig {
    pub fill_model: FillModel,
    pub market_event_capacity: Option<usize>,
    /// The symbols to subscribe to at startup.
    pub subscriptions: Vec<String>,
    /// Whether the start of the session is announced.
    pub emit_startup_banner: bool,
}

impl Default for PaperTradingConfig {
    fn default() -> (r: Self)
        ensures
            r.fill_model == FillModel::ImmediateAtMarket,
            r.market_event_capacity is None,
            r.subscriptions@.len() == 0,
            r.emit_startup_banner,
    {
        PaperTradingConfig {
            fill_model: FillModel::ImmediateAtMarket,
            market_event_capacity: None,
            subscriptions: Vec::new(),
            emit_startup_banner: true,
        }
    }
}

impl PaperTradingConfig {
    /// The same settings with other subscriptions.
    pub fn with_subscriptions(self, symbols: Vec<String>) -> (r: Self)
        ensures
            r == (PaperTradingConfig { subscriptions: symbols, ..self }),
    {
        PaperTradingConfig {
            fill_model: self.fill_model,
            market_event_capacity: self.market_event_capacity,
            subscriptions: symbols,
            emit_startup_banner: self.emit_startup_banner,
        }
    }

    /// The capacity of the market data queue.
    pub open spec fn market_capacity(self) -> usize {
        match self.market_event_capacity {
            Some(capacity) => capacity,
            None => MARKET_EVENT_QUEUE_CAPACITY,
        }
    }
}

/// Counts of a session.
#[derive(Debug, Clone, Copy, PartialEq, Eq, Structural)]
pub struct PaperTradingSummary {
    pub events_consumed: u64,
    pub orders_processed: u64,
    pub fills_emitted: u64,
    pub fills_consumed: u64,
}

/// A session as a mathematical value.
#[verifier::ext_equal]
pub struct PaperModel {
    pub config: PaperTradingConfig,
    pub pipes: PipesModel,
    pub last_ts: Option<UnixNanos>,
    pub fills_consumed: u64,
    pub log: Option<JournalLog>,
}

impl PaperModel {
    /// Whether the counters have room for so many more market events, and for the
    /// orders and fills that wait.
    pub open spec fn has_room(self, events: nat) -> bool {
        &&& self.pipes.has_room(events)
        &&& self.fills_consumed + self.pipes.fills.len() + self.pipes.orders.len() <= u64::MAX
    }

    /// Every queue drained: events into the book, orders into fills, fills
    /// counted.
    pub open spec fn pumped(self) -> PaperModel {
        let answered = self.pipes.market_drained().orders_drained();
        PaperModel {
            pipes: answered.fills_drained(),
            fills_consumed: (self.fills_consumed + answered.fills.len()) as u64,
            ..self
        }
    }

    /// The session after an event.
    pub open spec fn after_event(self, event: MarketEvent) -> PaperModel {
        let fed = PaperModel {
            last_ts: Some(event.timestamp),
            pipes: self.pipes.fed(event),
            ..self
        };
        if self.pipes.market_limit > 0 {
            fed.pumped()
        } else {
            fed
        }
    }

    /// The session after the events, in order.
    pub open spec fn after_events(self, events: Seq<MarketEvent>) -> PaperModel
        decreases events.len(),
    {
        if events.len() == 0 {
            self
        } else {
            self.after_events(events.drop_last()).after_event(events.last())
        }
    }

    /// The session after one round with these events yet to come.
    pub open spec fn after_tick(self, upcoming: Seq<MarketEvent>) -> PaperModel {
        if upcoming.len() > 0 {
            PaperModel {
                last_ts: Some(upcoming[0].timestamp),
                pipes: self.pipes.fed_at_once(upcoming[0]),
                ..self
            }.pumped()
        } else {
            self.pumped()
        }
    }

    pub open spec fn journaled(
        self,
        now: UnixNanos,
        category: Seq<char>,
        message: Seq<char>,
    ) -> PaperModel {
        PaperModel {
            log: match self.log {
                Some(log) => Some(
                    log.record(EventModel::System { timestamp: now, category, message }),
                ),
                None => None,
            },
            ..self
        }
    }

    pub open spec fn summary(self) -> PaperTradingSummary {
        PaperTradingSummary {
            events_consumed: self.pipes.events_consumed,
            orders_processed: self.pipes.orders_processed,
            fills_emitted: self.pipes.sim.fills_emitted,
            fills_consumed: self.fills_consumed,
        }
    }
}

/// An event leaves room in the counters for the rest.
proof fn lemma_event_keeps_room(model: PaperModel, event: MarketEvent, events: nat)
    requires
        events > 0,
        model.has_room(events),
    ensures
        model.after_event(event).has_room((events - 1) as nat),
        model.after_event(event).pipes.market_limit == model.pipes.market_limit,
{
    let drained = model.pipes.fed(event).market_drained();
    let cleared = PipesModel { orders: Seq::empty(), ..drained };
    lemma_orders_filled_frame(cleared, drained.orders);
}

proof fn lemma_pump_keeps_room(model: PaperModel, more: nat)
    requires
        model.has_room(more),
    ensures
        model.pumped().has_room(more),
{
    let drained = model.pipes.market_drained();
    let cleared = PipesModel { orders: Seq::empty(), ..drained };
    lemma_orders_filled_frame(cleared, drained.orders);
}

proof fn lemma_events_keep_room(model: PaperModel, events: Seq<MarketEvent>, more: nat)
    requires
        model.has_room(events.len() + more),
    ensures
        model.after_events(events).has_room(more),
    decreases events.len(),
{
    if events.len() > 0 {
        lemma_events_keep_room(model, events.drop_last(), more + 1);
        lemma_event_keeps_room(
            model.after_events(events.drop_last()),
            events.last(),
            more + 1,
        );
    }
}

/// A paper session and a replay that start with the same queues and the same book
/// do the same with the same events: the same book, the same fills, the same
/// counts.
pub proof fn paper_fills_as_replay_does(
    paper: PaperModel,
    replay: ReplayModel,
    events: Seq<MarketEvent>,
)
    requires
        paper.pipes == replay.pipes,
    ensures
        paper.after_events(events).pipes == replay.after_events(events).pipes,
        paper.after_events(events).pumped().pipes == replay.after_events(events).pumped().pipes,
    decreases events.len(),
{
    if events.len() > 0 {
        paper_fills_as_replay_does(paper, replay, events.drop_last());
    }
}

/// Drives a paper trading session.
pub struct PaperTradingOrchestrator<F: MarketDataFeed> {
    config: PaperTradingConfig,
    feed: F,
    pipes: SimulationPipes,
    last_event_ts: Option<UnixNanos>,
    fills_consumed: u64,
    journal: Option<JournalSender>,
}

impl<F: MarketDataFeed> View for PaperTradingOrchestrator<F> {
    type V = PaperModel;

    closed spec fn view(&self) -> PaperModel {
        PaperModel {
            config: self.config,
            pipes: self.pipes@,
            last_ts: self.last_event_ts,
            fills_consumed: self.fills_consumed,
            log: match self.journal {
                Some(journal) => Some(journal@),
                None => None,
            },
        }
    }
}

impl<F: MarketDataFeed> PaperTradingOrchestrator<F> {
    /// The events that the feed still holds.
    pub closed spec fn upcoming(&self) -> Seq<MarketEvent> {
        self.feed.upcoming()
    }

    pub fn new(config: PaperTradingConfig, feed: F) -> (r: Self)
        ensures
            r.upcoming() == feed.upcoming(),
            r@ == (PaperModel {
                config,
                pipes: SimulationPipes::fresh(config.fill_model, config.market_capacity()),
                last_ts: None,
                fills_consumed: 0,
                log: None,
            }),
    {
        let capacity: usize = match config.market_event_capacity {
            Some(capacity) => capacity,
            None => MARKET_EVENT_QUEUE_CAPACITY,
        };
        PaperTradingOrchestrator {
            pipes: SimulationPipes::new(config.fill_model, capacity),
            config,
            feed,
            last_event_ts: None,
            fills_consumed: 0,
            journal: None,
        }
    }

    /// Journals the session; its entries are tagged as paper.
    pub fn attach_journal(&mut self, journal: JournalSender)
        ensures
            final(self).upcoming() == old(self).upcoming(),
            final(self)@ == (PaperModel {
                log: Some(journal@.shared(Some(TradeSource::Paper))),
                ..old(self)@
            }),
    {
        self.journal = Some(journal.with_source(TradeSource::Paper));
    }

    /// A sender to the session's journal, tagged as the session's own.
    pub fn journal_sender(&self) -> (r: Option<JournalSender>)
        ensures
            r is Some <==> self@.log is Some,
            r matches Some(sender) ==> sender@ == self@.log->Some_0.shared(
                self@.log->Some_0.source,
            ),
    {
        match &self.journal {
            Some(journal) => Some(journal.clone()),
            None => None,
        }
    }

    fn journal_system_event(&mut self, now: UnixNanos, category: &str, message: String)
        ensures
            final(self).upcoming() == old(self).upcoming(),
            final(self)@ == old(self)@.journaled(now, category@, message@),
    {
        match self.journal.take() {
            Some(sender) => {
                let mut journal = sender;
                let _ = journal.send(
                    EngineEvent::SystemEvent(
                        SystemEventRecord {
                            timestamp: now,
                            category: category.to_owned(),
                            message,
                        },
                    ),
                );
                self.journal = Some(journal);
            },
            None => {},
        }
    }

    /// Journals the readiness report at the end of a session.
    pub fn emit_readiness_summary(&mut self, report_line: String, now: UnixNanos)
        ensures
            final(self).upcoming() == old(self).upcoming(),
            final(self)@ == old(self)@.journaled(now, "paper_readiness_summary"@, report_line@),
    {
        self.journal_system_event(now, "paper_readiness_summary", report_line);
    }

    /// Announces the session, unless its settings say not to. The result says
    /// whether it did.
    pub fn emit_startup_banner(&mut self, now: UnixNanos) -> (r: bool)
        ensures
            r == old(self)@.config.emit_startup_banner,
            final(self).upcoming() == old(self).upcoming(),
            final(self)@ == (if r {
                old(self)@.journaled(
                    now,
                    "paper_mode_start"@,
                    "paper trading mode active — orders routed to MockBrokerAdapter"@,
                )
            } else {
                old(self)@
            }),
    {
        if !self.config.emit_startup_banner {
            return false;
        }
        self.journal_system_event(
            now,
            "paper_mode_start",
            "paper trading mode active — orders routed to MockBrokerAdapter".to_owned(),
        );
        true
    }

    pub fn config(&self) -> (r: &PaperTradingConfig)
        ensures
            *r == self@.config,
    {
        &self.config
    }

    pub fn book(&self) -> (r: &OrderBook)
        ensures
            *r == self@.pipes.book,
    {
        self.pipes.book()
    }

    pub fn events_consumed(&self) -> (r: u64)
        ensures
            r == self@.pipes.events_consumed,
    {
        self.pipes.events_consumed()
    }

    pub fn orders_processed(&self) -> (r: u64)
        ensures
            r == self@.pipes.orders_processed,
    {
        self.pipes.orders_processed()
    }

    pub fn fills_emitted(&self) -> (r: u64)
        ensures
            r == self@.pipes.sim.fills_emitted,
    {
        self.pipes.fills_emitted()
    }

    pub fn fills_consumed(&self) -> (r: u64)
        ensures
            r == self@.fills_consumed,
    {
        self.fills_consumed
    }

    /// Puts an order on the order queue, if there is room.
    pub fn submit_order(&mut self, order: OrderEvent) -> (r: bool)
        ensures
            final(self).upcoming() == old(self).upcoming(),
            r == (old(self)@.pipes.orders.len() < old(self)@.pipes.orders_limit),
            final(self)@ == (PaperModel {
                pipes: PipesModel {
                    orders: if r {
                        old(self)@.pipes.orders.push(order)
                    } else {
                        old(self)@.pipes.orders
                    },
                    ..old(self)@.pipes
                },
                ..old(self)@
            }),
    {
        self.pipes.submit(order)
    }

    /// Takes the oldest fill out.
    pub fn take_fill(&mut self) -> (r: Option<FillEvent>)
        ensures
            final(self).upcoming() == old(self).upcoming(),
            r is Some <==> old(self)@.pipes.fills.len() > 0,
            r matches Some(fill) ==> fill == old(self)@.pipes.fills[0] && final(self)@ == (
            PaperModel {
                pipes: PipesModel {
                    fills: old(self)@.pipes.fills.subrange(
                        1,
                        old(self)@.pipes.fills.len() as int,
                    ),
                    ..old(self)@.pipes
                },
                ..old(self)@
            }),
            r is None ==> final(self)@ == old(self)@,
    {
        self.pipes.take_fill()
    }

    /// Answers every waiting order.
    pub fn drain_orders_and_simulate_fills(&mut self)
        requires
            old(self)@.pipes.has_room(0),
        ensures
            final(self).upcoming() == old(self).upcoming(),
            final(self)@ == (PaperModel { pipes: old(self)@.pipes.orders_drained(), ..old(self)@ }),
    {
        self.pipes.drain_orders();
    }

    /// Takes out and counts every waiting fill.
    fn drain_fills(&mut self)
        requires
            old(self)@.fills_consumed + old(self)@.pipes.fills.len() <= u64::MAX,
        ensures
            final(self).upcoming() == old(self).upcoming(),
            final(self)@ == (PaperModel {
                pipes: old(self)@.pipes.fills_drained(),
                fills_consumed: (old(self)@.fills_consumed + old(self)@.pipes.fills.len()) as u64,
                ..old(self)@
            }),
    {
        let ghost start = self@;
        let ghost fills = self@.pipes.fills;
        let total: usize = self.pipes.fill_count();
        let mut done: usize = 0;
        assert(fills.subrange(0, fills.len() as int) =~= fills);
        while done < total
            invariant
                done <= total,
                total == fills.len(),
                start.fills_consumed + fills.len() <= u64::MAX,
                self.upcoming() == old(self).upcoming(),
                self@ == (PaperModel {
                    pipes: PipesModel {
                        fills: fills.subrange(done as int, fills.len() as int),
                        ..start.pipes
                    },
                    fills_consumed: (start.fills_consumed + done) as u64,
                    ..start
                }),
            decreases total - done,
        {
            if self.pipes.take_fill().is_some() {
                assert(self@.pipes.fills =~= fills.subrange(done + 1, fills.len() as int));
                self.fills_consumed = self.fills_consumed + 1;
            }
            done += 1;
        }
        assert(self@.pipes.fills =~= Seq::<FillEvent>::empty());
    }

    /// Drains every queue.
    fn pump(&mut self)
        requires
            old(self)@.has_room(0),
        ensures
            final(self).upcoming() == old(self).upcoming(),
            final(self)@ == old(self)@.pumped(),
    {
        proof {
            let drained = self@.pipes.market_drained();
            let cleared = PipesModel { orders: Seq::empty(), ..drained };
            lemma_orders_filled_frame(cleared, drained.orders);
        }
        self.pipes.drain_market();
        self.pipes.drain_orders();
        self.drain_fills();
    }

    /// Takes events from the feed until it has none, then drains every queue.
    pub fn pump_until_idle(&mut self) -> (r: PaperTradingSummary)
        requires
            old(self)@.has_room(old(self).upcoming().len()),
        ensures
            final(self)@ == old(self)@.after_events(old(self).upcoming()).pumped(),
            r == final(self)@.summary(),
            forall|more: nat|
                old(self)@.has_room(old(self).upcoming().len() + more)
                    ==> #[trigger] final(self)@.has_room(more),
    {
        let ghost start = self@;
        let ghost coming = self.upcoming();
        let ghost mut seen: nat = 0;
        let mut idle = false;
        proof {
            assert(coming.skip(0) =~= coming);
            assert(coming.take(0) =~= Seq::<MarketEvent>::empty());
        }
        while !idle
            invariant
                seen <= coming.len(),
                !idle ==> self.upcoming() == coming.skip(seen as int),
                idle ==> seen == coming.len(),
                self@ == start.after_events(coming.take(seen as int)),
                self@.has_room((coming.len() - seen) as nat),
            decreases coming.len() - seen, (if idle { 0int } else { 1int }),
        {
            let ghost before = self@;
            match self.feed.next_event() {
                Some(event) => {
                    proof {
                        assert(event == coming[seen as int]);
                        assert(coming.skip(seen as int).drop_first() =~= coming.skip(
                            seen as int + 1,
                        ));
                        let next = coming.take(seen as int + 1);
                        assert(next.drop_last() =~= coming.take(seen as int));
                        assert(next.last() == event);
                        lemma_event_keeps_room(before, event, (coming.len() - seen) as nat);
                        seen = seen + 1;
                    }
                    self.last_event_ts = Some(event.timestamp);
                    if self.pipes.feed(event) {
                        self.pump();
                    }
                },
                None => {
                    idle = true;
                },
            }
        }
        proof {
            assert(coming.take(coming.len() as int) =~= coming);
            assert forall|more: nat| start.has_room(coming.len() + more) implies
                #[trigger] self@.pumped().has_room(more) by {
                lemma_events_keep_room(start, coming, more);
                lemma_pump_keeps_room(self@, more);
            }
        }
        self.pump();
        PaperTradingSummary {
            events_consumed: self.pipes.events_consumed(),
            orders_processed: self.pipes.orders_processed(),
            fills_emitted: self.pipes.fills_emitted(),
            fills_consumed: self.fills_consumed,
        }
    }

    /// One round: takes at most one event from the feed and drains every queue.
    pub fn tick(&mut self)
        requires
            old(self)@.has_room(1),
        ensures
            final(self)@ == old(self)@.after_tick(old(self).upcoming()),
            old(self).upcoming().len() > 0 ==> final(self).upcoming()
                == old(self).upcoming().drop_first(),
            forall|more: nat|
                old(self)@.has_room(1 + more) ==> #[trigger] final(self)@.has_room(more),
    {
        let ghost start = self@;
        if let Some(event) = self.feed.next_event() {
            self.last_event_ts = Some(event.timestamp);
            self.pipes.feed_at_once(event);
        }
        proof {
            assert forall|more: nat| start.has_room(1 + more) implies
                #[trigger] self@.pumped().has_room(more) by {
                lemma_pump_keeps_room(self@, more);
            }
        }
        self.pump();
    }
}

/// Pumping a session brings every waiting event into the book, answers every waiting
/// order, and counts every fill that comes out; nothing waits afterwards.
pub proof fn pumping_leaves_nothing_waiting(model: PaperModel)
    requires
        model.pipes.events_consumed + model.pipes.market.len() <= u64::MAX,
        model.pipes.orders_processed + model.pipes.orders.len() <= u64::MAX,
        model.fills_consumed + model.pipes.market_drained().orders_drained().fills.len()
            <= u64::MAX,
    ensures
        ({
            let after = model.pumped();
            let fills = model.pipes.market_drained().orders_drained().fills;
            &&& after.pipes.market.len() == 0
            &&& after.pipes.orders.len() == 0
            &&& after.pipes.fills.len() == 0
            &&& after.pipes.book == model.pipes.market_drained().book
            &&& after.pipes.events_consumed == model.pipes.events_consumed
                + model.pipes.market.len()
            &&& after.pipes.orders_processed == model.pipes.orders_processed
                + model.pipes.orders.len()
            &&& after.fills_consumed == model.fills_consumed + fills.len()
            &&& model.pipes.fills.is_prefix_of(fills)
            &&& after.last_ts == model.last_ts
            &&& after.log == model.log
            &&& after.config == model.config
        }),
{
    every_waiting_order_is_answered(model.pipes.market_drained());
}

/// Every event of a session reaches the book before the next one comes, is counted,
/// and is remembered as the last.
pub proof fn live_events_reach_the_book(model: PaperModel, event: MarketEvent)
    requires
        model.pipes.market_limit > 0,
        model.pipes.market.len() <= model.pipes.market_limit,
        model.pipes.events_pushed < u64::MAX,
        model.pipes.events_consumed + model.pipes.market.len() < u64::MAX,
        model.pipes.orders_processed + model.pipes.orders.len() <= u64::MAX,
    ensures
        ({
            let after = model.after_event(event);
            &&& after.pipes.market.len() == 0
            &&& after.pipes.book == crate::order_book::book_after_all(
                model.pipes.book,
                model.pipes.market.push(event),
            )
            &&& after.pipes.events_consumed == model.pipes.events_consumed
                + model.pipes.market.len() + 1
            &&& after.pipes.events_pushed == model.pipes.events_pushed + 1
            &&& after.last_ts == Some(event.timestamp)
            &&& after.log == model.log
        }),
{
    fed_events_are_not_lost(model.pipes, event);
    every_waiting_order_is_answered(model.pipes.fed(event).market_drained());
}

/// A tick takes the oldest event of the feed, if there is one, and no other, and
/// pumps in any case.
pub proof fn ticks_take_one_event(model: PaperModel, upcoming: Seq<MarketEvent>)
    ensures
        upcoming.len() == 0 ==> model.after_tick(upcoming) == model.pumped(),
        upcoming.len() > 0 ==> model.after_tick(upcoming).last_ts == Some(upcoming[0].timestamp),
        upcoming.len() > 0 ==> model.after_tick(upcoming) == model.after_tick(seq![upcoming[0]]),
        upcoming.len() > 0 && model.pipes.market.len() < model.pipes.market_limit
            ==> model.after_tick(upcoming) == model.after_event(upcoming[0]),
{
}

/// The summary of a session holds its counters.
pub proof fn session_summary_in_full(model: PaperModel)
    ensures
        model.summary().events_consumed == model.pipes.events_consumed,
        model.summary().orders_processed == model.pipes.orders_processed,
        model.summary().fills_emitted == model.pipes.sim.fills_emitted,
        model.summary().fills_consumed == model.fills_consumed,
{
}

/// What a session journals goes out once, under the time given; without a journal
/// nothing does. Events are fed one after the other.
pub proof fn sessions_journal_and_feed_in_order(
    model: PaperModel,
    now: UnixNanos,
    category: Seq<char>,
    message: Seq<char>,
    events: Seq<MarketEvent>,
    next: MarketEvent,
)
    ensures
        model.log is None ==> model.journaled(now, category, message).log is None,
        model.log matches Some(log) ==> model.journaled(now, category, message).log == Some(
            log.record(EventModel::System { timestamp: now, category, message }),
        ),
        model.journaled(now, category, message).pipes == model.pipes,
        model.journaled(now, category, message).fills_consumed == model.fills_consumed,
        model.after_events(Seq::empty()) == model,
        model.after_events(events.push(next)) == model.after_events(events).after_event(next),
{
    assert(events.push(next).drop_last() =~= events);
}

/// The market queue of a session holds what its settings say, and otherwise the usual
/// 131072 events.
pub proof fn sessions_have_the_usual_queue(config: PaperTradingConfig)
    ensures
        config.market_event_capacity is None ==> config.market_capacity() == 131_072,
        config.market_event_capacity matches Some(capacity) ==> config.market_capacity() == capacity,
{
}

} // verus!
