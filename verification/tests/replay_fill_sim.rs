use futures_bmad_engine::queue::FillQueue;
use futures_bmad_engine::replay::fill_sim::{best_price_for, FillModel, MockFillSimulator};
use futures_bmad_engine::types::{
    FillType, FixedPrice, Level, OrderBook, OrderEvent, OrderType, Side, UnixNanos,
};

fn book_with_quotes(bid: i64, ask: i64) -> OrderBook {
    let mut book = OrderBook::empty();
    book.update_bid(Level { price: FixedPrice::new(bid), size: 100, order_count: 0 });
    book.update_ask(Level { price: FixedPrice::new(ask), size: 100, order_count: 0 });
    book
}

fn buy_order(qty: u32) -> OrderEvent {
    OrderEvent {
        order_id: 1,
        symbol_id: 0,
        side: Side::Buy,
        quantity: qty,
        order_type: OrderType::Market,
        decision_id: 7,
        timestamp: UnixNanos::new(1_000_000),
    }
}

fn sell_order(qty: u32) -> OrderEvent {
    OrderEvent {
        order_id: 2,
        symbol_id: 0,
        side: Side::Sell,
        quantity: qty,
        order_type: OrderType::Market,
        decision_id: 8,
        timestamp: UnixNanos::new(1_000_001),
    }
}

#[test]
fn buy_fills_at_best_ask() {
    let book = book_with_quotes(18_000, 18_004);
    let mut sim = MockFillSimulator::new(FillModel::ImmediateAtMarket);
    let fill = sim.synth_fill(&buy_order(3), &book).unwrap();
    assert_eq!(fill.fill_price.raw(), 18_004);
    assert_eq!(fill.fill_size, 3);
    assert_eq!(fill.side, Side::Buy);
    assert!(matches!(fill.fill_type, FillType::Full));
    assert_eq!(fill.decision_id, 7);
}

#[test]
fn sell_fills_at_best_bid() {
    let book = book_with_quotes(18_000, 18_004);
    let mut sim = MockFillSimulator::new(FillModel::ImmediateAtMarket);
    let fill = sim.synth_fill(&sell_order(2), &book).unwrap();
    assert_eq!(fill.fill_price.raw(), 18_000);
    assert_eq!(fill.fill_size, 2);
    assert_eq!(fill.side, Side::Sell);
}

#[test]
fn fill_ids_are_unique_and_monotonic() {
    let book = book_with_quotes(18_000, 18_004);
    let mut sim = MockFillSimulator::new(FillModel::ImmediateAtMarket);
    let id1 = sim.allocate_fill_id();
    let id2 = sim.allocate_fill_id();
    let id3 = sim.allocate_fill_id();
    assert_eq!((id1, id2, id3), (1, 2, 3));
    let _ = sim.synth_fill(&buy_order(1), &book).unwrap();
    assert_eq!(sim.next_fill_id(), 5);
}

#[test]
fn simulate_pushes_fill_to_queue() {
    let mut fills = FillQueue::with_capacity(16);
    let book = book_with_quotes(18_000, 18_004);
    let mut sim = MockFillSimulator::new(FillModel::ImmediateAtMarket);
    let pushed = sim.simulate(&buy_order(1), &book, &mut fills);
    assert!(pushed);
    assert_eq!(sim.fills_emitted(), 1);
    let fill = fills.try_pop().unwrap();
    assert_eq!(fill.fill_price.raw(), 18_004);
}

#[test]
fn empty_book_yields_no_fill() {
    let book = OrderBook::empty();
    let mut sim = MockFillSimulator::new(FillModel::ImmediateAtMarket);
    assert!(sim.synth_fill(&buy_order(1), &book).is_none());
    assert!(sim.synth_fill(&sell_order(1), &book).is_none());
    assert_eq!(best_price_for(&buy_order(1), &book), None);
    assert_eq!(sim.next_fill_id(), 1);
}

#[test]
fn full_fill_queue_counts_a_drop() {
    let mut fills = FillQueue::with_capacity(0);
    let book = book_with_quotes(18_000, 18_004);
    let mut sim = MockFillSimulator::new(FillModel::ImmediateAtMarket);
    assert!(!sim.simulate(&buy_order(1), &book, &mut fills));
    assert_eq!((sim.fills_emitted(), sim.fills_dropped()), (0, 1));
}
