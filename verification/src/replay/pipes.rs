//! The queues of a simulated session: market data in, orders out, fills back.
//!
//! Market events go through a queue before they reach the book, orders are
//! answered by the fill simulator against that book, and fills wait on a queue of
//! their own, as in live trading.
use vstd::prelude::*;

use super::fill_sim::{simulated_fill, FillModel, MockFillSimulator};
use crate::order_book::{apply_market_event, book_after_all, events_apply_in_order};
use crate::queue::{FillQueue, MarketEventQueue, OrderQueue, ORDER_FILL_QUEUE_CAPACITY};
use crate::types::{FillEvent, FillType, MarketEvent, OrderBook, OrderEvent, Side};

verus! {

/// The queues and the book as a mathematical value.
#[verifier::ext_equal]
pub struct PipesModel {
    pub market: Seq<MarketEvent>,
    pub market_limit: nat,
    pub orders: Seq<OrderEvent>,
    pub orders_limit: nat,
    pub fills: Seq<FillEvent>,
    pub fills_limit: nat,
    pub sim: MockFillSimulator,
    pub book: OrderBook,
    pub events_pushed: u64,
    pub events_consumed: u64,
    pub orders_processed: u64,
}

impl PipesModel {
    /// Whether the counters have room for so many more market events, and for the
    /// orders that wait.
    pub open spec fn has_room(self, events: nat) -> bool {
        &&& self.events_pushed + events <= u64::MAX
        &&& self.events_consumed + self.market.len() + events <= u64::MAX
        &&& self.orders_processed + self.orders.len() <= u64::MAX
        &&& self.sim.has_room(self.orders.len())
    }

    /// Whether nothing waits on any queue.
    pub open spec fn is_idle(self) -> bool {
        self.market.len() == 0 && self.orders.len() == 0 && self.fills.len() == 0
    }

    /// Every waiting market event applied to the book.
    pub open spec fn market_drained(self) -> PipesModel {
        PipesModel {
            book: book_after_all(self.book, self.market),
            events_consumed: (self.events_consumed + self.market.len()) as u64,
            market: Seq::empty(),
            ..self
        }
    }

    /// One market event on its queue; a full queue is drained first. Where the
    /// queue holds nothing at all, the event is lost.
    pub open spec fn fed(self, event: MarketEvent) -> PipesModel {
        if self.market.len() < self.market_limit {
            PipesModel {
                market: self.market.push(event),
                events_pushed: (self.events_pushed + 1) as u64,
                ..self
            }
        } else if self.market_limit > 0 {
            PipesModel {
                market: seq![event],
                events_pushed: (self.events_pushed + 1) as u64,
                ..self.market_drained()
            }
        } else {
            self.market_drained()
        }
    }

    /// One market event on its queue, counted only where there was room at once.
    pub open spec fn fed_at_once(self, event: MarketEvent) -> PipesModel {
        if self.market.len() < self.market_limit {
            self.fed(event)
        } else {
            PipesModel {
                market: if self.market_limit > 0 {
                    seq![event]
                } else {
                    Seq::empty()
                },
                ..self.market_drained()
            }
        }
    }

    /// One order answered by the simulator.
    pub open spec fn order_filled(self, order: OrderEvent) -> PipesModel {
        let room = self.fills.len() < self.fills_limit;
        PipesModel {
            sim: self.sim.after_order(order, self.book, room),
            fills: if simulated_fill(order, self.book) is Some && room {
                self.fills.push(simulated_fill(order, self.book)->Some_0)
            } else {
                self.fills
            },
            orders_processed: (self.orders_processed + 1) as u64,
            ..self
        }
    }

    /// These orders answered in turn.
    pub open spec fn orders_filled(self, orders: Seq<OrderEvent>) -> PipesModel
        decreases orders.len(),
    {
        if orders.len() == 0 {
            self
        } else {
            self.orders_filled(orders.drop_last()).order_filled(orders.last())
        }
    }

    /// Every waiting order answered.
    pub open spec fn orders_drained(self) -> PipesModel {
        PipesModel { orders: Seq::empty(), ..self }.orders_filled(self.orders)
    }

    /// No fill waits any more.
    pub open spec fn fills_drained(self) -> PipesModel {
        PipesModel { fills: Seq::empty(), ..self }
    }
}

/// What answering orders leaves alone, and how far it moves the counters.
pub proof fn lemma_orders_filled_frame(model: PipesModel, orders: Seq<OrderEvent>)
    requires
        model.orders_processed + orders.len() <= u64::MAX,
        model.sim.has_room(orders.len()),
    ensures
        ({
            let after = model.orders_filled(orders);
            &&& after.market == model.market
            &&& after.market_limit == model.market_limit
            &&& after.orders == model.orders
            &&& after.orders_limit == model.orders_limit
            &&& after.fills_limit == model.fills_limit
            &&& after.book == model.book
            &&& after.events_pushed == model.events_pushed
            &&& after.events_consumed == model.events_consumed
            &&& after.orders_processed == model.orders_processed + orders.len()
            &&& after.sim.fills_emitted <= model.sim.fills_emitted + orders.len()
            &&& after.sim.fills_dropped <= model.sim.fills_dropped + orders.len()
            &&& after.fills.len() <= model.fills.len() + orders.len()
        }),
    decreases orders.len(),
{
    if orders.len() > 0 {
        lemma_orders_filled_frame(model, orders.drop_last());
    }
}

/// Answering orders puts nothing on the other queues.
pub proof fn lemma_orders_filled_queues(model: PipesModel, orders: Seq<OrderEvent>)
    ensures
        model.orders_filled(orders).market == model.market,
        model.orders_filled(orders).orders == model.orders,
    decreases orders.len(),
{
    if orders.len() > 0 {
        lemma_orders_filled_queues(model, orders.drop_last());
    }
}

/// The queues, the book and the fill simulator of a simulated session.
pub struct SimulationPipes {
    market: MarketEventQueue,
    orders: OrderQueue,
    fills: FillQueue,
    sim: MockFillSimulator,
    book: OrderBook,
    events_pushed: u64,
    events_consumed: u64,
    orders_processed: u64,
}

impl View for SimulationPipes {
    type V = PipesModel;

    closed spec fn view(&self) -> PipesModel {
        PipesModel {
            market: self.market@,
            market_limit: self.market.limit(),
            orders: self.orders@,
            orders_limit: self.orders.limit(),
            fills: self.fills@,
            fills_limit: self.fills.limit(),
            sim: self.sim,
            book: self.book,
            events_pushed: self.events_pushed,
            events_consumed: self.events_consumed,
            orders_processed: self.orders_processed,
        }
    }
}

impl SimulationPipes {
    /// Empty queues and an empty book.
    pub open spec fn fresh(model: FillModel, market_capacity: usize) -> PipesModel {
        PipesModel {
            market: Seq::empty(),
            market_limit: market_capacity as nat,
            orders: Seq::empty(),
            orders_limit: ORDER_FILL_QUEUE_CAPACITY as nat,
            fills: Seq::empty(),
            fills_limit: ORDER_FILL_QUEUE_CAPACITY as nat,
            sim: MockFillSimulator { model, next_fill_id: 1, fills_emitted: 0, fills_dropped: 0 },
            book: OrderBook::empty_book(),
            events_pushed: 0,
            events_consumed: 0,
            orders_processed: 0,
        }
    }

    pub fn new(model: FillModel, market_capacity: usize) -> (r: Self)
        ensures
            r@ == SimulationPipes::fresh(model, market_capacity),
    {
        SimulationPipes {
            market: MarketEventQueue::with_capacity(market_capacity),
            orders: OrderQueue::with_capacity(ORDER_FILL_QUEUE_CAPACITY),
            fills: FillQueue::with_capacity(ORDER_FILL_QUEUE_CAPACITY),
            sim: MockFillSimulator::new(model),
            book: OrderBook::empty(),
            events_pushed: 0,
            events_consumed: 0,
            orders_processed: 0,
        }
    }

    /// Whether the counters have room for one more market event, and for the
    /// orders that wait.
    pub fn can_feed(&self) -> (r: bool)
        ensures
            r == self@.has_room(1),
    {
        let most: u128 = u64::MAX as u128;
        let orders: u128 = self.orders.len() as u128;
        self.events_pushed as u128 + 1 <= most && self.events_consumed as u128
            + self.market.len() as u128 + 1 <= most && self.orders_processed as u128 + orders
            <= most && self.sim.fills_emitted as u128 + orders <= most
            && self.sim.fills_dropped as u128 + orders <= most
    }

    /// Puts a market event on its queue. The result says whether it got there.
    pub fn feed(&mut self, event: MarketEvent) -> (r: bool)
        requires
            old(self)@.has_room(1),
        ensures
            r == (old(self)@.market_limit > 0 || old(self)@.market.len()
                < old(self)@.market_limit),
            final(self)@ == old(self)@.fed(event),
    {
        if !self.market.try_push(event) {
            self.drain_market();
            if !self.market.try_push(event) {
                return false;
            }
            assert(self@.market =~= seq![event]);
        }
        self.events_pushed = self.events_pushed + 1;
        true
    }

    /// Puts a market event on its queue; where that was full, it is drained first
    /// and the event goes uncounted.
    pub fn feed_at_once(&mut self, event: MarketEvent)
        requires
            old(self)@.has_room(1),
        ensures
            final(self)@ == old(self)@.fed_at_once(event),
    {
        if self.market.try_push(event) {
            self.events_pushed = self.events_pushed + 1;
        } else {
            self.drain_market();
            let _ = self.market.try_push(event);
            assert(self@.market =~= old(self)@.fed_at_once(event).market);
        }
    }

    /// Applies every waiting market event to the book.
    pub fn drain_market(&mut self)
        requires
            old(self)@.events_consumed + old(self)@.market.len() <= u64::MAX,
        ensures
            final(self)@ == old(self)@.market_drained(),
    {
        let ghost start = self@;
        let ghost events = self.market@;
        let total: usize = self.market.len();
        let mut done: usize = 0;
        proof {
            assert(events.take(0) =~= Seq::<MarketEvent>::empty());
            assert(events.subrange(0, events.len() as int) =~= events);
        }
        while done < total
            invariant
                done <= total,
                total == events.len(),
                start.events_consumed + events.len() <= u64::MAX,
                self@ == (PipesModel {
                    market: events.subrange(done as int, events.len() as int),
                    book: book_after_all(start.book, events.take(done as int)),
                    events_consumed: (start.events_consumed + done) as u64,
                    ..start
                }),
            decreases total - done,
        {
            if let Some(event) = self.market.try_pop() {
                proof {
                    assert(event == events[done as int]);
                    assert(events.take(done + 1).drop_last() =~= events.take(done as int));
                    assert(events.take(done + 1).last() == event);
                    assert(self@.market =~= events.subrange(done + 1, events.len() as int));
                }
                apply_market_event(&mut self.book, &event);
                self.events_consumed = self.events_consumed + 1;
            }
            done += 1;
        }
        proof {
            assert(events.take(events.len() as int) =~= events);
            assert(self@.market =~= Seq::<MarketEvent>::empty());
        }
    }

    /// Answers every waiting order with a fill, as far as the book has a price
    /// for it.
    pub fn drain_orders(&mut self)
        requires
            old(self)@.orders_processed + old(self)@.orders.len() <= u64::MAX,
            old(self)@.sim.has_room(old(self)@.orders.len()),
        ensures
            final(self)@ == old(self)@.orders_drained(),
            final(self)@.orders == Seq::<OrderEvent>::empty(),
    {
        let ghost start = PipesModel { orders: Seq::empty(), ..self@ };
        let ghost orders = self.orders@;
        let total: usize = self.orders.len();
        let mut done: usize = 0;
        proof {
            assert(orders.take(0) =~= Seq::<OrderEvent>::empty());
            assert(orders.subrange(0, orders.len() as int) =~= orders);
        }
        while done < total
            invariant
                done <= total,
                total == orders.len(),
                start.orders.len() == 0,
                start.orders_processed + orders.len() <= u64::MAX,
                start.sim.has_room(orders.len()),
                self@ == (PipesModel {
                    orders: orders.subrange(done as int, orders.len() as int),
                    ..start.orders_filled(orders.take(done as int))
                }),
            decreases total - done,
        {
            let ghost so_far = start.orders_filled(orders.take(done as int));
            proof {
                lemma_orders_filled_frame(start, orders.take(done as int));
            }
            if let Some(order) = self.orders.try_pop() {
                proof {
                    assert(order == orders[done as int]);
                    assert(orders.take(done + 1).drop_last() =~= orders.take(done as int));
                    assert(orders.take(done + 1).last() == order);
                    assert(self@.orders =~= orders.subrange(done + 1, orders.len() as int));
                }
                self.orders_processed = self.orders_processed + 1;
                let _ = self.sim.simulate(&order, &self.book, &mut self.fills);
                assert(self@ == (PipesModel {
                    orders: orders.subrange(done + 1, orders.len() as int),
                    ..so_far.order_filled(order)
                }));
            }
            done += 1;
        }
        proof {
            assert(orders.take(orders.len() as int) =~= orders);
            lemma_orders_filled_frame(start, orders);
            assert(self@.orders =~= Seq::<OrderEvent>::empty());
            assert(start.orders =~= Seq::<OrderEvent>::empty());
        }
    }

    /// Takes the oldest fill out.
    pub fn take_fill(&mut self) -> (r: Option<FillEvent>)
        ensures
            r is Some <==> old(self)@.fills.len() > 0,
            r matches Some(fill) ==> fill == old(self)@.fills[0] && final(self)@ == (PipesModel {
                fills: old(self)@.fills.subrange(1, old(self)@.fills.len() as int),
                ..old(self)@
            }),
            r is None ==> final(self)@ == old(self)@,
    {
        self.fills.try_pop()
    }

    /// How many fills wait.
    pub fn fill_count(&self) -> (r: usize)
        ensures
            r == self@.fills.len(),
    {
        self.fills.len()
    }

    /// Puts an order on its queue, if there is room.
    pub fn submit(&mut self, order: OrderEvent) -> (r: bool)
        ensures
            r == (old(self)@.orders.len() < old(self)@.orders_limit),
            final(self)@ == (PipesModel {
                orders: if r {
                    old(self)@.orders.push(order)
                } else {
                    old(self)@.orders
                },
                ..old(self)@
            }),
    {
        self.orders.try_push(order)
    }

    /// Forgets the book and the event counters; queues and simulator stay.
    pub fn rewind(&mut self)
        ensures
            final(self)@ == (PipesModel {
                book: OrderBook::empty_book(),
                events_pushed: 0,
                events_consumed: 0,
                ..old(self)@
            }),
    {
        self.book = OrderBook::empty();
        self.events_pushed = 0;
        self.events_consumed = 0;
    }

    pub fn book(&self) -> (r: &OrderBook)
        ensures
            *r == self@.book,
    {
        &self.book
    }

    pub fn events_pushed(&self) -> (r: u64)
        ensures
            r == self@.events_pushed,
    {
        self.events_pushed
    }

    pub fn events_consumed(&self) -> (r: u64)
        ensures
            r == self@.events_consumed,
    {
        self.events_consumed
    }

    pub fn orders_processed(&self) -> (r: u64)
        ensures
            r == self@.orders_processed,
    {
        self.orders_processed
    }

    pub fn fills_emitted(&self) -> (r: u64)
        ensures
            r == self@.sim.fills_emitted,
    {
        self.sim.fills_emitted()
    }
}

/// Draining the market queue brings every waiting event into the book, in order, and
/// counts each. Orders, fills and limits are left alone.
pub proof fn drained_events_reach_the_book(pipes: PipesModel)
    requires
        pipes.events_consumed + pipes.market.len() <= u64::MAX,
    ensures
        ({
            let after = pipes.market_drained();
            &&& after.market.len() == 0
            &&& after.book == book_after_all(pipes.book, pipes.market)
            &&& after.events_consumed == pipes.events_consumed + pipes.market.len()
            &&& after.events_pushed == pipes.events_pushed
            &&& after.orders == pipes.orders
            &&& after.fills == pipes.fills
            &&& after.sim == pipes.sim
            &&& after.orders_processed == pipes.orders_processed
            &&& after.market_limit == pipes.market_limit
            &&& after.orders_limit == pipes.orders_limit
            &&& after.fills_limit == pipes.fills_limit
        }),
{
}

/// A market event that is fed goes in behind those that wait and is never lost where
/// the queue holds anything: once all is drained, the book is the one that the
/// waiting events and then this one leave, and each was counted once on its way in
/// and once on its way out. The queue never holds more than it may.
pub proof fn fed_events_are_not_lost(pipes: PipesModel, event: MarketEvent)
    requires
        pipes.market_limit > 0,
        pipes.market.len() <= pipes.market_limit,
        pipes.events_pushed < u64::MAX,
        pipes.events_consumed + pipes.market.len() < u64::MAX,
    ensures
        ({
            let after = pipes.fed(event);
            &&& after.market.len() > 0
            &&& after.market.last() == event
            &&& after.market.len() <= pipes.market_limit
            &&& after.events_pushed == pipes.events_pushed + 1
            &&& after.events_consumed + after.market.len() == pipes.events_consumed
                + pipes.market.len() + 1
            &&& after.market_drained().book == book_after_all(
                pipes.book,
                pipes.market.push(event),
            )
            &&& pipes.market.len() < pipes.market_limit ==> after.market == pipes.market.push(event)
                && after.book == pipes.book
            &&& after.orders == pipes.orders
            &&& after.fills == pipes.fills
            &&& after.sim == pipes.sim
            &&& after.orders_processed == pipes.orders_processed
            &&& after.market_limit == pipes.market_limit
        }),
{
    assert(pipes.market + seq![event] =~= pipes.market.push(event));
    events_apply_in_order(pipes.book, pipes.market, seq![event]);
}

/// Feeding an event without counting it anew, where the queue was full, leaves the
/// same book as feeding it.
pub proof fn events_fed_at_once_reach_the_book(pipes: PipesModel, event: MarketEvent)
    requires
        pipes.market_limit > 0,
        pipes.market.len() <= pipes.market_limit,
    ensures
        ({
            let after = pipes.fed_at_once(event);
            &&& after.market.len() > 0
            &&& after.market.last() == event
            &&& after.market_drained().book == book_after_all(
                pipes.book,
                pipes.market.push(event),
            )
            &&& pipes.market.len() < pipes.market_limit ==> after == pipes.fed(event)
            &&& pipes.market.len() == pipes.market_limit ==> after.events_pushed
                == pipes.events_pushed
            &&& after.orders == pipes.orders
            &&& after.fills == pipes.fills
        }),
{
    assert(pipes.market + seq![event] =~= pipes.market.push(event));
    events_apply_in_order(pipes.book, pipes.market, seq![event]);
}

/// An order is answered against the book as it stands, and counted. Where the book
/// has the side it needs and the fills have room, the answer is one fill of all of
/// it, behind those that wait; otherwise no fill comes. The book does not move.
pub proof fn orders_are_answered_against_the_book(pipes: PipesModel, order: OrderEvent)
    requires
        pipes.orders_processed < u64::MAX,
    ensures
        ({
            let after = pipes.order_filled(order);
            let quoted = match order.side {
                Side::Buy => pipes.book.ask_count > 0,
                Side::Sell => pipes.book.bid_count > 0,
            };
            let room = pipes.fills.len() < pipes.fills_limit;
            let fill = after.fills.last();
            &&& after.orders_processed == pipes.orders_processed + 1
            &&& after.book == pipes.book
            &&& after.market == pipes.market
            &&& after.orders == pipes.orders
            &&& after.events_consumed == pipes.events_consumed
            &&& !(quoted && room) ==> after.fills == pipes.fills
            &&& quoted && room ==> {
                &&& after.fills.len() == pipes.fills.len() + 1
                &&& after.fills.drop_last() == pipes.fills
                &&& fill.order_id == order.order_id
                &&& fill.decision_id == order.decision_id
                &&& fill.side == order.side
                &&& fill.fill_size == order.quantity
                &&& fill.timestamp == order.timestamp
                &&& fill.fill_type == FillType::Full
                &&& order.side == Side::Buy ==> fill.fill_price == pipes.book.ask.price
                &&& order.side == Side::Sell ==> fill.fill_price == pipes.book.bid.price
            }
        }),
{
    let after = pipes.order_filled(order);
    if after.fills.len() == pipes.fills.len() + 1 {
        assert(after.fills.drop_last() =~= pipes.fills);
    }
}

/// Orders are answered in their order, and answering those of one batch and then
/// those of the next is answering them all.
pub proof fn orders_are_answered_in_order(
    pipes: PipesModel,
    first: Seq<OrderEvent>,
    second: Seq<OrderEvent>,
)
    ensures
        pipes.orders_filled(first + second) == pipes.orders_filled(first).orders_filled(second),
        first.len() == 1 ==> pipes.orders_filled(first) == pipes.order_filled(first[0]),
        first.len() == 0 ==> pipes.orders_filled(first) == pipes,
    decreases second.len(),
{
    if second.len() == 0 {
        assert(first + second =~= first);
    } else {
        assert((first + second).drop_last() =~= first + second.drop_last());
        assert((first + second).last() == second.last());
        orders_are_answered_in_order(pipes, first, second.drop_last());
    }
    if first.len() == 1 {
        assert(pipes.orders_filled(first.drop_last()) == pipes);
    }
}

/// Draining answers every waiting order, each once, and counts it; the orders' queue
/// is empty afterwards and the book as it was.
pub proof fn every_waiting_order_is_answered(pipes: PipesModel)
    requires
        pipes.orders_processed + pipes.orders.len() <= u64::MAX,
    ensures
        ({
            let after = pipes.orders_drained();
            &&& after.orders.len() == 0
            &&& after.orders_processed == pipes.orders_processed + pipes.orders.len()
            &&& after.book == pipes.book
            &&& after.market == pipes.market
            &&& after.market_limit == pipes.market_limit
            &&& after.events_pushed == pipes.events_pushed
            &&& after.events_consumed == pipes.events_consumed
            &&& after.fills.len() >= pipes.fills.len()
            &&& pipes.fills.is_prefix_of(after.fills)
            &&& pipes.orders.len() == 0 ==> after == pipes
            &&& pipes.orders.len() == 1 ==> after == (PipesModel { orders: Seq::empty(), ..pipes })
                .order_filled(pipes.orders[0])
            &&& after.fills_drained().fills.len() == 0
            &&& after.fills_drained().book == after.book
        }),
{
    let emptied = PipesModel { orders: Seq::empty(), ..pipes };
    lemma_orders_counted(emptied, pipes.orders);
    orders_are_answered_in_order(emptied, pipes.orders, Seq::empty());
    if pipes.orders.len() == 0 {
        assert(pipes.orders =~= Seq::<OrderEvent>::empty());
        assert(emptied =~= pipes);
    }
}

proof fn lemma_orders_counted(pipes: PipesModel, orders: Seq<OrderEvent>)
    requires
        pipes.orders_processed + orders.len() <= u64::MAX,
    ensures
        ({
            let after = pipes.orders_filled(orders);
            &&& after.orders == pipes.orders
            &&& after.orders_processed == pipes.orders_processed + orders.len()
            &&& after.book == pipes.book
            &&& after.market == pipes.market
            &&& after.market_limit == pipes.market_limit
            &&& after.events_pushed == pipes.events_pushed
            &&& after.events_consumed == pipes.events_consumed
            &&& pipes.fills.is_prefix_of(after.fills)
        }),
    decreases orders.len(),
{
    if orders.len() > 0 {
        lemma_orders_counted(pipes, orders.drop_last());
    }
}

/// New pipes hold nothing and have counted nothing; orders and fills get queues of
/// 4096 places.
pub proof fn new_pipes_are_empty(model: FillModel, market_capacity: usize)
    ensures
        ({
            let pipes = SimulationPipes::fresh(model, market_capacity);
            &&& pipes.is_idle()
            &&& pipes.market_limit == market_capacity
            &&& pipes.orders_limit == 4096
            &&& pipes.fills_limit == 4096
            &&& pipes.sim.model == model
            &&& pipes.sim.next_fill_id == 1
            &&& pipes.sim.fills_emitted == 0
            &&& pipes.sim.fills_dropped == 0
            &&& pipes.book.bid_count == 0
            &&& pipes.book.ask_count == 0
            &&& pipes.events_pushed == 0
            &&& pipes.events_consumed == 0
            &&& pipes.orders_processed == 0
        }),
{
}

/// Nothing waits exactly when no event, no order and no fill does.
pub proof fn idle_pipes_hold_nothing(pipes: PipesModel)
    ensures
        pipes.is_idle() <==> pipes.market.len() + pipes.orders.len() + pipes.fills.len() == 0,
        pipes.fills_drained().fills.len() == 0,
        pipes.fills_drained().market == pipes.market,
        pipes.fills_drained().orders == pipes.orders,
        pipes.fills_drained().book == pipes.book,
{
}

} // verus!
