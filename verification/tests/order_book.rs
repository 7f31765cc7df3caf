use futures_bmad_engine::order_book::apply_market_event;
use futures_bmad_engine::types::{
    FixedPrice, MarketEvent, MarketEventType, OrderBook, Side, UnixNanos,
};

fn make_event(
    event_type: MarketEventType,
    price_raw: i64,
    size: u32,
    side: Option<Side>,
) -> MarketEvent {
    MarketEvent {
        timestamp: UnixNanos::new(1_000_000_000),
        symbol_id: 0,
        sequence: 0,
        event_type,
        price: FixedPrice::new(price_raw),
        size,
        side,
    }
}

#[test]
fn bid_update_sets_best_bid() {
    let mut book = OrderBook::empty();
    let event = make_event(MarketEventType::BidUpdate, 18000, 50, Some(Side::Buy));
    apply_market_event(&mut book, &event);
    assert_eq!(book.bid_count, 1);
    assert_eq!(book.best_bid().unwrap().price.raw(), 18000);
    assert_eq!(book.best_bid().unwrap().size, 50);
}

#[test]
fn ask_update_sets_best_ask() {
    let mut book = OrderBook::empty();
    let event = make_event(MarketEventType::AskUpdate, 18004, 30, Some(Side::Sell));
    apply_market_event(&mut book, &event);
    assert_eq!(book.ask_count, 1);
    assert_eq!(book.best_ask().unwrap().price.raw(), 18004);
    assert_eq!(book.best_ask().unwrap().size, 30);
}

#[test]
fn trade_does_not_change_book() {
    let mut book = OrderBook::empty();
    let event = make_event(MarketEventType::Trade, 18002, 10, Some(Side::Buy));
    apply_market_event(&mut book, &event);
    assert_eq!(book.bid_count, 0);
    assert_eq!(book.ask_count, 0);
}

#[test]
fn sequential_updates_overwrite_in_place() {
    let mut book = OrderBook::empty();
    apply_market_event(
        &mut book,
        &make_event(MarketEventType::BidUpdate, 18000, 50, Some(Side::Buy)),
    );
    assert_eq!(book.best_bid().unwrap().price.raw(), 18000);
    apply_market_event(
        &mut book,
        &make_event(MarketEventType::BidUpdate, 18004, 75, Some(Side::Buy)),
    );
    assert_eq!(book.best_bid().unwrap().price.raw(), 18004);
    assert_eq!(book.best_bid().unwrap().size, 75);
    assert_eq!(book.bid_count, 1);
}

#[test]
fn timestamp_updates_on_every_event() {
    let mut book = OrderBook::empty();
    let mut event = make_event(MarketEventType::Trade, 18000, 10, None);
    event.timestamp = UnixNanos::new(999);
    apply_market_event(&mut book, &event);
    assert_eq!(book.timestamp, UnixNanos::new(999));
}

#[test]
fn snapshot_goes_by_its_side() {
    let mut book = OrderBook::empty();
    apply_market_event(&mut book, &make_event(MarketEventType::BookSnapshot, 10, 1, None));
    assert!(book.best_bid().is_none() && book.best_ask().is_none());
    apply_market_event(
        &mut book,
        &make_event(MarketEventType::BookSnapshot, 10, 1, Some(Side::Buy)),
    );
    apply_market_event(
        &mut book,
        &make_event(MarketEventType::BookSnapshot, 12, 2, Some(Side::Sell)),
    );
    assert_eq!(book.best_bid().unwrap().price.raw(), 10);
    assert_eq!(book.best_ask().unwrap().price.raw(), 12);
}
