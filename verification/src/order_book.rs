//! Market events applied to the book.
use vstd::prelude::*;

use crate::types::{Level, MarketEvent, MarketEventType, OrderBook, Side};

verus! {

/// The level that an event quotes.
pub open spec fn quoted_level(event: MarketEvent) -> Level {
    Level { price: event.price, size: event.size, order_count: 0 }
}

/// Whether the event sets the best bid.
pub open spec fn sets_bid(event: MarketEvent) -> bool {
    event.event_type is BidUpdate || (event.event_type is BookSnapshot && event.side == Some(
        Side::Buy,
    ))
}

/// Whether the event sets the best ask.
pub open spec fn sets_ask(event: MarketEvent) -> bool {
    event.event_type is AskUpdate || (event.event_type is BookSnapshot && event.side == Some(
        Side::Sell,
    ))
}

/// The book after an event: its time moves on, and a quote replaces the best
/// level of its side. Trades change no level.
pub open spec fn book_after(book: OrderBook, event: MarketEvent) -> OrderBook {
    let timed = OrderBook { timestamp: event.timestamp, ..book };
    if sets_bid(event) {
        OrderBook { bid_count: 1, bid: quoted_level(event), ..timed }
    } else if sets_ask(event) {
        OrderBook { ask_count: 1, ask: quoted_level(event), ..timed }
    } else {
        timed
    }
}

/// Applies a market event to the book.
pub fn apply_market_event(book: &mut OrderBook, event: &MarketEvent)
    ensures
        *final(book) == book_after(*old(book), *event),
{
    book.timestamp = event.timestamp;
    let level = Level { price: event.price, size: event.size, order_count: 0 };
    match event.event_type {
        MarketEventType::BidUpdate => {
            book.update_bid(level);
        },
        MarketEventType::AskUpdate => {
            book.update_ask(level);
        },
        MarketEventType::BookSnapshot => match event.side {
            Some(Side::Buy) => {
                book.update_bid(level);
            },
            Some(Side::Sell) => {
                book.update_ask(level);
            },
            None => {},
        },
        MarketEventType::Trade => {},
    }
}

/// The book after the events, applied in order.
pub open spec fn book_after_all(book: OrderBook, events: Seq<MarketEvent>) -> OrderBook
    decreases events.len(),
{
    if events.len() == 0 {
        book
    } else {
        book_after(book_after_all(book, events.drop_last()), events.last())
    }
}

/// A quote replaces the level of the side it is for and leaves the other side
/// alone; a trade, and a snapshot without a side, leave both. Every event brings
/// the book to its own time.
pub proof fn quotes_replace_their_side(book: OrderBook, event: MarketEvent)
    ensures
        ({
            let after = book_after(book, event);
            let for_bid = event.event_type == MarketEventType::BidUpdate || (event.event_type
                == MarketEventType::BookSnapshot && event.side == Some(Side::Buy));
            let for_ask = event.event_type == MarketEventType::AskUpdate || (event.event_type
                == MarketEventType::BookSnapshot && event.side == Some(Side::Sell));
            &&& after.timestamp == event.timestamp
            &&& for_bid ==> after.bid_count == 1 && after.bid.price == event.price
                && after.bid.size == event.size && after.bid.order_count == 0
            &&& for_ask ==> after.ask_count == 1 && after.ask.price == event.price
                && after.ask.size == event.size && after.ask.order_count == 0
            &&& !for_bid ==> after.bid == book.bid && after.bid_count == book.bid_count
            &&& !for_ask ==> after.ask == book.ask && after.ask_count == book.ask_count
        }),
{
}

/// After any number of events the book shows the last quote of each side, and what
/// it showed before where a side was not quoted.
pub proof fn the_last_quote_stands(book: OrderBook, events: Seq<MarketEvent>, last: int)
    requires
        0 <= last < events.len(),
    ensures
        book_after_all(book, events).timestamp == events.last().timestamp,
        events[last].event_type == MarketEventType::BidUpdate && (forall|i: int|
            last < i < events.len() ==> (#[trigger] events[i]).event_type
                == MarketEventType::AskUpdate || events[i].event_type == MarketEventType::Trade)
            ==> book_after_all(book, events).bid.price == events[last].price && book_after_all(
            book,
            events,
        ).bid.size == events[last].size && book_after_all(book, events).bid_count == 1,
        events[last].event_type == MarketEventType::AskUpdate && (forall|i: int|
            last < i < events.len() ==> (#[trigger] events[i]).event_type
                == MarketEventType::BidUpdate || events[i].event_type == MarketEventType::Trade)
            ==> book_after_all(book, events).ask.price == events[last].price && book_after_all(
            book,
            events,
        ).ask.size == events[last].size && book_after_all(book, events).ask_count == 1,
    decreases events.len(),
{
    if last < events.len() - 1 {
        let earlier = events.drop_last();
        the_last_quote_stands(book, earlier, last);
        assert(forall|i: int| 0 <= i < earlier.len() ==> earlier[i] == events[i]);
        assert(events[events.len() - 1] == events.last());
    }
}

/// Events that quote neither side leave both levels as they were.
pub proof fn trades_move_no_level(book: OrderBook, events: Seq<MarketEvent>)
    requires
        forall|i: int|
            0 <= i < events.len() ==> (#[trigger] events[i]).event_type == MarketEventType::Trade,
    ensures
        book_after_all(book, events).bid == book.bid,
        book_after_all(book, events).ask == book.ask,
        book_after_all(book, events).bid_count == book.bid_count,
        book_after_all(book, events).ask_count == book.ask_count,
        events.len() == 0 ==> book_after_all(book, events) == book,
    decreases events.len(),
{
    if events.len() > 0 {
        trades_move_no_level(book, events.drop_last());
    }
}

/// Events applied in two batches leave the book that they leave in one.
pub proof fn events_apply_in_order(
    book: OrderBook,
    first: Seq<MarketEvent>,
    second: Seq<MarketEvent>,
)
    ensures
        book_after_all(book, first + second) == book_after_all(book_after_all(book, first), second),
        first.len() == 1 ==> book_after_all(book, first) == book_after(book, first[0]),
        first.len() == 0 ==> book_after_all(book, first) == book,
    decreases second.len(),
{
    if second.len() == 0 {
        assert(first + second =~= first);
    } else {
        assert((first + second).drop_last() =~= first + second.drop_last());
        assert((first + second).last() == second.last());
        events_apply_in_order(book, first, second.drop_last());
    }
    if first.len() == 1 {
        assert(book_after_all(book, first.drop_last()) == book);
    }
}

} // verus!
