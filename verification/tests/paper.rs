use futures_bmad_engine::paper::data_feed::{MarketDataFeed, VecMarketDataFeed};
use futures_bmad_engine::paper::orchestrator::{PaperTradingConfig, PaperTradingOrchestrator};
use futures_bmad_engine::persistence::journal::{EngineEvent, EventJournal, SystemEventRecord};
use futures_bmad_engine::types::{
    FillType, FixedPrice, MarketEvent, MarketEventType, OrderEvent, OrderType, Side, TradeSource,
    UnixNanos,
};

fn ev(ts: u64, price: i64) -> MarketEvent {
    MarketEvent {
        timestamp: UnixNanos::new(ts),
        symbol_id: 1,
        sequence: 0,
        event_type: MarketEventType::BidUpdate,
        price: FixedPrice::new(price),
        size: 10,
        side: Some(Side::Buy),
    }
}

fn bid(ts: u64, price: i64) -> MarketEvent {
    MarketEvent { symbol_id: 0, size: 100, ..ev(ts, price) }
}

fn ask(ts: u64, price: i64) -> MarketEvent {
    MarketEvent {
        event_type: MarketEventType::AskUpdate,
        side: Some(Side::Sell),
        ..bid(ts, price)
    }
}

fn buy_three() -> OrderEvent {
    OrderEvent {
        order_id: 42,
        symbol_id: 0,
        side: Side::Buy,
        quantity: 3,
        order_type: OrderType::Market,
        decision_id: 7,
        timestamp: UnixNanos::new(3),
    }
}

#[test]
fn vec_feed_yields_in_order_then_none() {
    let mut feed = VecMarketDataFeed::new(vec![ev(1, 100), ev(2, 101), ev(3, 102)]);
    assert_eq!(feed.next_event().unwrap().timestamp.as_nanos(), 1);
    assert_eq!(feed.next_event().unwrap().timestamp.as_nanos(), 2);
    assert_eq!(feed.next_event().unwrap().timestamp.as_nanos(), 3);
    assert!(feed.next_event().is_none());
    assert!(feed.next_event().is_none(), "exhausted feed stays None");
    assert_eq!(feed.yielded(), 3);
}

#[test]
fn vec_feed_empty_yields_none_immediately() {
    let mut feed = VecMarketDataFeed::new(Vec::new());
    assert!(feed.next_event().is_none());
    assert_eq!(feed.yielded(), 0);
}

#[test]
fn order_submitted_during_paper_pump_yields_fill() {
    let feed = VecMarketDataFeed::new(vec![bid(1, 18_000), ask(2, 18_004)]);
    let mut orch = PaperTradingOrchestrator::new(PaperTradingConfig::default(), feed);
    let _ = orch.pump_until_idle();
    assert_eq!(orch.book().best_bid().unwrap().price.raw(), 18_000);
    assert_eq!(orch.book().best_ask().unwrap().price.raw(), 18_004);

    assert!(orch.submit_order(buy_three()));
    orch.drain_orders_and_simulate_fills();

    let fill = orch.take_fill().unwrap();
    assert_eq!(fill.fill_price.raw(), 18_004, "buy lifts best ask");
    assert_eq!(fill.fill_size, 3);
    assert_eq!(fill.decision_id, 7, "decision_id propagates through fill");
    assert!(matches!(fill.fill_type, FillType::Full));
}

#[test]
fn startup_banner_journals_paper_mode_start() {
    let feed = VecMarketDataFeed::new(Vec::new());
    let mut orch = PaperTradingOrchestrator::new(PaperTradingConfig::default(), feed);
    let (sender, mut receiver) = EventJournal::channel();
    orch.attach_journal(sender);
    assert!(orch.emit_startup_banner(UnixNanos::new(1)));

    let mut found = false;
    for _ in 0..16 {
        match receiver.try_recv_for_test() {
            Some(EngineEvent::SystemEvent(rec)) if rec.category == "paper_mode_start" => {
                found = true;
                break;
            }
            Some(_) => continue,
            None => break,
        }
    }
    assert!(found, "expected paper_mode_start system event on banner");
}

#[test]
fn startup_banner_suppressed_when_disabled() {
    let cfg = PaperTradingConfig { emit_startup_banner: false, ..PaperTradingConfig::default() };
    let feed = VecMarketDataFeed::new(Vec::new());
    let mut orch = PaperTradingOrchestrator::new(cfg, feed);
    let (sender, mut receiver) = EventJournal::channel();
    orch.attach_journal(sender);
    orch.emit_startup_banner(UnixNanos::new(1));
    assert!(receiver.try_recv_for_test().is_none());
}

#[test]
fn pump_drains_full_feed() {
    let feed = VecMarketDataFeed::new(vec![
        bid(1, 100),
        ask(2, 105),
        bid(3, 101),
        ask(4, 106),
        bid(5, 102),
    ]);
    let mut orch = PaperTradingOrchestrator::new(PaperTradingConfig::default(), feed);
    let summary = orch.pump_until_idle();
    assert_eq!(summary.events_consumed, 5);
    assert_eq!(summary.orders_processed, 0);
    assert_eq!(summary.fills_emitted, 0);
}

#[test]
fn tick_takes_one_event_and_settles_orders() {
    let feed = VecMarketDataFeed::new(vec![bid(1, 18_000), ask(2, 18_004), bid(3, 18_001)]);
    let mut orch = PaperTradingOrchestrator::new(PaperTradingConfig::default(), feed);
    orch.tick();
    assert_eq!(orch.events_consumed(), 1);
    orch.tick();
    assert!(orch.submit_order(buy_three()));
    orch.tick();
    assert_eq!(orch.events_consumed(), 3);
    assert_eq!((orch.orders_processed(), orch.fills_emitted(), orch.fills_consumed()), (1, 1, 1));
    assert!(orch.take_fill().is_none());
}

#[test]
fn attached_journal_is_tagged_as_paper() {
    let feed = VecMarketDataFeed::new(Vec::new());
    let mut orch = PaperTradingOrchestrator::new(PaperTradingConfig::default(), feed);
    assert!(orch.journal_sender().is_none());
    let (sender, mut receiver) = EventJournal::channel();
    orch.attach_journal(sender);
    assert_eq!(
        orch.journal_sender().unwrap().source_override(),
        Some(TradeSource::Paper)
    );
    orch.emit_readiness_summary("trades=0".to_string(), UnixNanos::new(4));
    match receiver.try_recv_for_test() {
        Some(EngineEvent::SystemEvent(rec)) => {
            assert_eq!(rec.category, "paper_readiness_summary");
            assert_eq!(rec.message, "trades=0");
        }
        other => panic!("expected SystemEvent, got {other:?}"),
    }
}

#[test]
fn subscriptions_are_kept() {
    let cfg = PaperTradingConfig::default()
        .with_subscriptions(vec!["MES".to_string(), "MNQ".to_string()]);
    let orch = PaperTradingOrchestrator::new(cfg, VecMarketDataFeed::new(Vec::new()));
    assert_eq!(orch.config().subscriptions, vec!["MES".to_string(), "MNQ".to_string()]);
}

#[test]
fn records_arrive_in_the_attached_journal() {
    let (tx, mut rx) = EventJournal::channel();
    let mut orch =
        PaperTradingOrchestrator::new(PaperTradingConfig::default(), VecMarketDataFeed::new(Vec::new()));
    assert!(orch.journal_sender().is_none());
    orch.attach_journal(tx);
    let mut sender = orch.journal_sender().unwrap();
    assert_eq!(sender.source_override(), Some(TradeSource::Paper));
    assert!(sender.send(EngineEvent::SystemEvent(SystemEventRecord {
        timestamp: UnixNanos::new(9),
        category: "c".to_string(),
        message: String::new(),
    })));
    match rx.try_recv_for_test() {
        Some(EngineEvent::SystemEvent(record)) => assert_eq!(record.timestamp.as_nanos(), 9),
        other => panic!("expected SystemEvent, got {other:?}"),
    }
}
