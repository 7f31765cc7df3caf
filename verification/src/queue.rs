//! Bounded first-in first-out queues between the stages of the engine.
use std::collections::VecDeque;
use vstd::prelude::*;

use crate::types::{FillEvent, MarketEvent, OrderEvent};

verus! {

/// A queue that refuses what does not fit. Its view is the sequence of waiting
/// items, oldest first.
pub struct BoundedQueue<T> {
    items: VecDeque<T>,
    limit: usize,
}

/// Usual capacity of the market data queue.
pub const MARKET_EVENT_QUEUE_CAPACITY: usize = 131_072;

/// Usual capacity of the order and the fill queue.
pub const ORDER_FILL_QUEUE_CAPACITY: usize = 4096;

/// Market data on its way to the event loop.
pub type MarketEventQueue = BoundedQueue<MarketEvent>;

/// Orders on their way to the broker.
pub type OrderQueue = BoundedQueue<OrderEvent>;

/// Fills on their way back from the broker.
pub type FillQueue = BoundedQueue<FillEvent>;

impl<T> View for BoundedQueue<T> {
    type V = Seq<T>;

    closed spec fn view(&self) -> Seq<T> {
        self.items@
    }
}

impl<T> BoundedQueue<T> {
    /// How many items fit.
    pub closed spec fn limit(&self) -> nat {
        self.limit as nat
    }

    /// No more items wait than fit.
    pub open spec fn wf(&self) -> bool {
        self@.len() <= self.limit()
    }

    pub fn with_capacity(limit: usize) -> (r: Self)
        ensures
            r@ == Seq::<T>::empty(),
            r.limit() == limit,
            r.wf(),
    {
        BoundedQueue { items: VecDeque::new(), limit }
    }

    /// Appends `item` where there is room; otherwise leaves the queue as it is.
    pub fn try_push(&mut self, item: T) -> (r: bool)
        ensures
            r == (old(self)@.len() < old(self).limit()),
            final(self)@ == (if r {
                old(self)@.push(item)
            } else {
                old(self)@
            }),
            final(self).limit() == old(self).limit(),
            old(self).wf() ==> final(self).wf(),
    {
        if self.items.len() < self.limit {
            self.items.push_back(item);
            true
        } else {
            false
        }
    }

    /// Takes the oldest item out.
    pub fn try_pop(&mut self) -> (r: Option<T>)
        ensures
            r is Some <==> old(self)@.len() > 0,
            r matches Some(item) ==> item == old(self)@[0] && final(self)@
                == old(self)@.subrange(1, old(self)@.len() as int),
            r is None ==> final(self)@ == old(self)@,
            final(self).limit() == old(self).limit(),
            old(self).wf() ==> final(self).wf(),
    {
        self.items.pop_front()
    }

    /// The oldest item.
    pub fn front(&self) -> (r: Option<&T>)
        ensures
            r is Some <==> self@.len() > 0,
            r matches Some(item) ==> *item == self@[0],
    {
        if self.items.len() == 0 {
            None
        } else {
            Some(&self.items[0])
        }
    }

    pub fn len(&self) -> (r: usize)
        ensures
            r == self@.len(),
    {
        self.items.len()
    }

    pub fn is_empty(&self) -> (r: bool)
        ensures
            r == (self@.len() == 0),
    {
        self.items.len() == 0
    }

    pub fn capacity(&self) -> (r: usize)
        ensures
            r == self.limit(),
    {
        self.limit
    }

    /// How many further items fit.
    pub fn available(&self) -> (r: usize)
        ensures
            self.wf() ==> r == self.limit() - self@.len(),
            !self.wf() ==> r == 0,
    {
        let used: usize = self.items.len();
        if used <= self.limit {
            self.limit - used
        } else {
            0
        }
    }
}

} // verus!
