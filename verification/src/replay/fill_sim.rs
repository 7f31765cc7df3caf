//! Simulated fills: every order fills at once and in full at the best price of
//! the other side.
//!
//! Queue position, partial fills and market impact are not modelled.
use vstd::prelude::*;

use crate::queue::FillQueue;
use crate::types::{FillEvent, FillType, FixedPrice, OrderBook, OrderEvent, OrderType, Side};

verus! {

/// How fills are simulated.
#[derive(Debug, Clone, Copy, PartialEq, Eq, Structural)]
pub enum FillModel {
    /// At once, in full, at the best bid or ask.
    ImmediateAtMarket,
}

/// Answers orders with fills.
#[derive(Debug, Clone, Copy, PartialEq, Eq, Structural)]
pub struct MockFillSimulator {
    pub model: FillModel,
    pub next_fill_id: u64,
    pub fills_emitted: u64,
    /// Fills that the queue had no room for.
    pub fills_dropped: u64,
}

/// The price at which an order fills: buys lift the best ask, sells hit the best
/// bid, whatever their order type.
pub open spec fn touch_price(order: OrderEvent, book: OrderBook) -> Option<FixedPrice> {
    let level = match order.side {
        Side::Buy => book.best_ask_level(),
        Side::Sell => book.best_bid_level(),
    };
    match level {
        Some(level) => Some(level.price),
        None => None,
    }
}

/// The fill of an order at a price.
pub open spec fn full_fill(order: OrderEvent, price: FixedPrice) -> FillEvent {
    FillEvent {
        order_id: order.order_id,
        fill_price: price,
        fill_size: order.quantity,
        timestamp: order.timestamp,
        side: order.side,
        decision_id: order.decision_id,
        fill_type: FillType::Full,
    }
}

/// The fill of an order against a book, where the book has a price for it.
pub open spec fn simulated_fill(order: OrderEvent, book: OrderBook) -> Option<FillEvent> {
    match touch_price(order, book) {
        Some(price) => Some(full_fill(order, price)),
        None => None,
    }
}

impl MockFillSimulator {
    pub fn new(model: FillModel) -> (r: Self)
        ensures
            r == (MockFillSimulator { model, next_fill_id: 1, fills_emitted: 0, fills_dropped: 0 }),
    {
        MockFillSimulator { model, next_fill_id: 1, fills_emitted: 0, fills_dropped: 0 }
    }

    pub fn fills_emitted(&self) -> (r: u64)
        ensures
            r == self.fills_emitted,
    {
        self.fills_emitted
    }

    pub fn fills_dropped(&self) -> (r: u64)
        ensures
            r == self.fills_dropped,
    {
        self.fills_dropped
    }

    pub fn next_fill_id(&self) -> (r: u64)
        ensures
            r == self.next_fill_id,
    {
        self.next_fill_id
    }

    /// The simulator after one more fill number was given out.
    pub open spec fn id_taken(self) -> MockFillSimulator {
        MockFillSimulator {
            next_fill_id: if self.next_fill_id == u64::MAX {
                u64::MAX
            } else {
                (self.next_fill_id + 1) as u64
            },
            ..self
        }
    }

    /// Gives out the next fill number.
    pub fn allocate_fill_id(&mut self) -> (r: u64)
        ensures
            r == old(self).next_fill_id,
            *final(self) == old(self).id_taken(),
    {
        let id: u64 = self.next_fill_id;
        self.next_fill_id = self.next_fill_id.saturating_add(1);
        id
    }

    /// The fill of an order against the book; nothing where the book has no price
    /// on the other side.
    pub fn synth_fill(&mut self, order: &OrderEvent, book: &OrderBook) -> (r: Option<FillEvent>)
        ensures
            r == simulated_fill(*order, *book),
            r is Some <==> (if order.side is Buy {
                book.ask_count > 0
            } else {
                book.bid_count > 0
            }),
            r matches Some(fill) ==> {
                &&& fill.fill_price == (if order.side is Buy {
                    book.ask.price
                } else {
                    book.bid.price
                })
                &&& fill.fill_size == order.quantity
                &&& fill.side == order.side
                &&& fill.order_id == order.order_id
                &&& fill.decision_id == order.decision_id
                &&& fill.timestamp == order.timestamp
                &&& fill.fill_type is Full
            },
            *final(self) == (if r is Some {
                old(self).id_taken()
            } else {
                *old(self)
            }),
    {
        match self.model {
            FillModel::ImmediateAtMarket => {
                let price = match best_price_for(order, book) {
                    Some(price) => price,
                    None => {
                        return None;
                    },
                };
                let _ = self.allocate_fill_id();
                Some(
                    FillEvent {
                        order_id: order.order_id,
                        fill_price: price,
                        fill_size: order.quantity,
                        timestamp: order.timestamp,
                        side: order.side,
                        decision_id: order.decision_id,
                        fill_type: FillType::Full,
                    },
                )
            },
        }
    }

    /// Whether the counters have room for so many orders.
    pub open spec fn has_room(self, orders: nat) -> bool {
        self.fills_emitted + orders <= u64::MAX && self.fills_dropped + orders <= u64::MAX
    }

    /// The simulator after an order; `room` tells whether the queue takes a fill.
    pub open spec fn after_order(
        self,
        order: OrderEvent,
        book: OrderBook,
        room: bool,
    ) -> MockFillSimulator {
        if simulated_fill(order, book) is None {
            self
        } else if room {
            MockFillSimulator {
                fills_emitted: (self.fills_emitted + 1) as u64,
                ..self.id_taken()
            }
        } else {
            MockFillSimulator {
                fills_dropped: (self.fills_dropped + 1) as u64,
                ..self.id_taken()
            }
        }
    }

    /// Fills an order and puts the fill on the queue. The result says whether it
    /// got there.
    pub fn simulate(&mut self, order: &OrderEvent, book: &OrderBook, queue: &mut FillQueue) -> (r:
        bool)
        requires
            old(self).has_room(1),
        ensures
            r == (simulated_fill(*order, *book) is Some && old(queue)@.len()
                < old(queue).limit()),
            final(queue)@ == (if r {
                old(queue)@.push(simulated_fill(*order, *book)->Some_0)
            } else {
                old(queue)@
            }),
            final(queue).limit() == old(queue).limit(),
            *final(self) == old(self).after_order(
                *order,
                *book,
                old(queue)@.len() < old(queue).limit(),
            ),
    {
        let fill = match self.synth_fill(order, book) {
            Some(fill) => fill,
            None => {
                return false;
            },
        };
        if queue.try_push(fill) {
            self.fills_emitted = self.fills_emitted + 1;
            true
        } else {
            self.fills_dropped = self.fills_dropped + 1;
            false
        }
    }
}

/// The price at which an order fills.
pub fn best_price_for(order: &OrderEvent, book: &OrderBook) -> (r: Option<FixedPrice>)
    ensures
        r == touch_price(*order, *book),
        r == (if order.side is Buy && book.ask_count > 0 {
            Some(book.ask.price)
        } else if order.side is Sell && book.bid_count > 0 {
            Some(book.bid.price)
        } else {
            None
        }),
{
    let level = match order.side {
        Side::Buy => book.best_ask(),
        Side::Sell => book.best_bid(),
    };
    match level {
        Some(level) => Some(level.price),
        None => None,
    }
}

/// Fill numbers are given out in increasing order until they run out.
pub proof fn fill_ids_increase(sim: MockFillSimulator)
    requires
        sim.next_fill_id < u64::MAX,
    ensures
        sim.id_taken().next_fill_id == sim.next_fill_id + 1,
{
}

/// A buy fills at the ask and a sell at the bid, as long as the book has one, in
/// full and under the order's own number, decision and time.
pub proof fn orders_fill_at_the_touch(order: OrderEvent, book: OrderBook)
    ensures
        simulated_fill(order, book) is Some <==> (order.side is Buy && book.ask_count > 0) || (
        order.side is Sell && book.bid_count > 0),
        simulated_fill(order, book) matches Some(fill) ==> {
            &&& order.side is Buy ==> fill.fill_price == book.ask.price
            &&& order.side is Sell ==> fill.fill_price == book.bid.price
            &&& fill.fill_size == order.quantity
            &&& fill.side == order.side
            &&& fill.order_id == order.order_id
            &&& fill.decision_id == order.decision_id
            &&& fill.timestamp == order.timestamp
            &&& fill.fill_type is Full
        },
{
}

/// Orders that differ only in their type get the same fill: neither a limit nor a
/// trigger moves the price.
pub proof fn order_type_moves_no_price(order: OrderEvent, other: OrderType, book: OrderBook)
    ensures
        simulated_fill(OrderEvent { order_type: other, ..order }, book) == simulated_fill(
            order,
            book,
        ),
        touch_price(OrderEvent { order_type: other, ..order }, book) == touch_price(order, book),
{
}

/// Only the other side of the book matters to a fill.
pub proof fn own_side_moves_no_price(order: OrderEvent, book: OrderBook, other: OrderBook)
    requires
        order.side is Buy ==> other.ask == book.ask && other.ask_count == book.ask_count,
        order.side is Sell ==> other.bid == book.bid && other.bid_count == book.bid_count,
    ensures
        simulated_fill(order, book) == simulated_fill(order, other),
{
}

/// An order that the book has a price for uses up one fill number and is counted
/// once: as emitted where the queue has room, else as dropped. Any other order
/// leaves the simulator as it is.
pub proof fn every_fill_is_counted_once(
    sim: MockFillSimulator,
    order: OrderEvent,
    book: OrderBook,
    room: bool,
)
    requires
        sim.fills_emitted < u64::MAX,
        sim.fills_dropped < u64::MAX,
        sim.next_fill_id < u64::MAX,
    ensures
        ({
            let after = sim.after_order(order, book, room);
            let priced = if order.side is Buy {
                book.ask_count > 0
            } else {
                book.bid_count > 0
            };
            &&& !priced ==> after == sim
            &&& priced ==> after.next_fill_id == sim.next_fill_id + 1
            &&& priced && room ==> after.fills_emitted == sim.fills_emitted + 1
                && after.fills_dropped == sim.fills_dropped
            &&& priced && !room ==> after.fills_emitted == sim.fills_emitted
                && after.fills_dropped == sim.fills_dropped + 1
            &&& after.model == sim.model
        }),
{
}

} // verus!
