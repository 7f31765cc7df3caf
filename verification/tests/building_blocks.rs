use futures_bmad_engine::arith::{
    low_u32, saturating_add_i64, saturating_mul_i64, saturating_sub_i64, to_signed, to_unsigned,
};
use futures_bmad_engine::pairing::{OpenLeg, PairLedger};
use futures_bmad_engine::queue::BoundedQueue;
use futures_bmad_engine::replay::bars::BarBuilder;
use futures_bmad_engine::replay::stats::TradeStats;
use futures_bmad_engine::text::{push_bool, push_hex, push_i64, push_u64, str_eq};
use futures_bmad_engine::types::{
    FillEvent, FillType, FixedPrice, MarketEvent, MarketEventType, OrderState, RegimeState, Side,
    TradeSource, UnixNanos,
};

fn trade(ts: u64, price: i64, size: u32) -> MarketEvent {
    MarketEvent {
        timestamp: UnixNanos::new(ts),
        symbol_id: 0,
        sequence: 0,
        event_type: MarketEventType::Trade,
        price: FixedPrice::new(price),
        size,
        side: None,
    }
}

fn fill(side: Side, price: i64, size: u32, fill_type: FillType) -> FillEvent {
    FillEvent {
        order_id: 1,
        fill_price: FixedPrice::new(price),
        fill_size: size,
        timestamp: UnixNanos::new(1),
        side,
        decision_id: 1,
        fill_type,
    }
}

#[test]
fn arithmetic_saturates() {
    assert_eq!(saturating_add_i64(i64::MAX, 1), i64::MAX);
    assert_eq!(saturating_sub_i64(i64::MIN, 1), i64::MIN);
    assert_eq!(saturating_mul_i64(i64::MIN, -1), i64::MAX);
    assert_eq!(saturating_mul_i64(-3, 4), -12);
    assert_eq!(FixedPrice::new(i64::MAX).saturating_add(FixedPrice::new(1)).raw(), i64::MAX);
    assert_eq!(FixedPrice::new(5).saturating_sub(FixedPrice::new(7)).raw(), -2);
    assert_eq!(FixedPrice::new(5).saturating_mul(-3).raw(), -15);
    assert_eq!(UnixNanos::new(5).saturating_since(UnixNanos::new(9)), 0);
    assert_eq!(UnixNanos::new(9).saturating_since(UnixNanos::new(5)), 4);
}

#[test]
fn columns_keep_every_number() {
    for x in [0u64, 1, i64::MAX as u64, 1 << 63, u64::MAX] {
        assert_eq!(to_unsigned(to_signed(x)), x);
        assert_eq!(to_signed(x), x as i64);
    }
    assert_eq!(low_u32(-1), u32::MAX);
    assert_eq!(low_u32((7i64 << 32) + 3), 3);
}

#[test]
fn numbers_are_spelled_as_std_does() {
    for x in [0i64, 7, -7, 10, 1_000_001, i64::MAX, i64::MIN] {
        let mut text = String::from("x=");
        push_i64(&mut text, x);
        assert_eq!(text, format!("x={x}"));
    }
    let mut text = String::new();
    push_u64(&mut text, u64::MAX);
    push_bool(&mut text, true);
    push_bool(&mut text, false);
    assert_eq!(text, "18446744073709551615truefalse");
    let mut text = String::new();
    push_hex(&mut text, 0x1f_a0, 16);
    assert_eq!(text, format!("{:016x}", 0x1f_a0));
    assert!(str_eq("fill", "fill"));
    assert!(!str_eq("fill", "fil"));
    assert!(!str_eq("fill", "fist"));
}

#[test]
fn queue_is_first_in_first_out_and_bounded() {
    let mut queue = BoundedQueue::with_capacity(2);
    assert!(queue.is_empty());
    assert!(queue.try_push(1));
    assert!(queue.try_push(2));
    assert!(!queue.try_push(3));
    assert_eq!((queue.len(), queue.capacity(), queue.available()), (2, 2, 0));
    assert_eq!(queue.try_pop(), Some(1));
    assert!(queue.try_push(3));
    assert_eq!(queue.try_pop(), Some(2));
    assert_eq!(queue.try_pop(), Some(3));
    assert_eq!(queue.try_pop(), None);
}

#[test]
fn contracts_are_conserved_by_pairing() {
    let mut legs: Vec<OpenLeg> = Vec::new();
    let mut ledger = PairLedger::new();
    ledger.apply(&mut legs, Side::Buy, 100, 2);
    ledger.apply(&mut legs, Side::Buy, 104, 3);
    ledger.apply(&mut legs, Side::Sell, 110, 4);
    // Two at 100 and two at 104 were closed; one at 104 is open.
    assert_eq!(ledger.pnls(), vec![20, 12]);
    assert_eq!(legs.len(), 1);
    assert_eq!((legs[0].side, legs[0].price_qt, legs[0].qty), (Side::Buy, 104, 1));
    // More than is open turns the position round.
    ledger.apply(&mut legs, Side::Sell, 100, 3);
    assert_eq!(ledger.pnls(), vec![20, 12, -4]);
    assert_eq!((legs[0].side, legs[0].price_qt, legs[0].qty), (Side::Sell, 100, 2));
    assert_eq!((ledger.net_pnl(), ledger.wins(), ledger.losses()), (28, 2, 1));
    assert_eq!((ledger.max_drawdown(), ledger.pairs()), (4, 3));
    assert_eq!(ledger.into_pnls(), vec![20, 12, -4]);
}

#[test]
fn statistics_count_fills_only() {
    let mut stats = TradeStats::new();
    stats.apply_fill(&fill(Side::Buy, 100, 1, FillType::Full));
    stats.apply_fill(&fill(Side::Sell, 90, 1, FillType::Full));
    stats.apply_fill(&fill(Side::Sell, 100, 1, FillType::Full));
    stats.apply_fill(&fill(Side::Buy, 100, 1, FillType::Full));
    assert_eq!((stats.total_trades(), stats.net_pnl_qt()), (2, -10));
    assert_eq!((stats.wins(), stats.losses(), stats.max_drawdown_qt()), (0, 1, 10));
    assert_eq!(stats.pnls(), vec![-10, 0]);
}

#[test]
fn bars_close_with_the_next_interval() {
    let mut bars = BarBuilder::new(100);
    assert_eq!(bars.consume(&trade(10, 50, 1)), None);
    assert_eq!(bars.consume(&trade(20, 55, 2)), None);
    assert_eq!(bars.consume(&trade(99, 45, 3)), None);
    // Quotes do not count.
    let quote = MarketEvent { event_type: MarketEventType::BidUpdate, ..trade(500, 99, 1) };
    assert_eq!(bars.consume(&quote), None);
    let bar = bars.consume(&trade(150, 60, 1)).unwrap();
    let prices = [bar.open, bar.high, bar.low, bar.close].map(|p| p.raw());
    assert_eq!(prices, [50, 55, 45, 45]);
    assert_eq!(bar.volume, 6);
    let last = bars.flush().unwrap();
    assert_eq!((last.open.raw(), last.close.raw(), last.volume), (60, 60, 1));
    assert_eq!(bars.flush(), None);
}

#[test]
fn names_of_plain_values() {
    assert_eq!((Side::Buy.sign(), Side::Sell.sign()), (1, -1));
    assert_eq!((Side::Buy.opposite(), Side::Sell.opposite()), (Side::Sell, Side::Buy));
    assert_eq!((Side::Buy.as_str(), Side::Sell.as_str()), ("Buy", "Sell"));
    assert_eq!(OrderState::PendingRecon.as_str(), "PendingRecon");
    assert_eq!(RegimeState::Rotational.as_str(), "Rotational");
    for source in [TradeSource::Live, TradeSource::Paper, TradeSource::Replay] {
        assert_eq!(TradeSource::parse(source.as_str()), Some(source));
    }
    assert_eq!(TradeSource::default(), TradeSource::Live);
}
