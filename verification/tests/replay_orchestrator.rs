use futures_bmad_engine::data::multi_day_source::SourceStep;
use futures_bmad_engine::data::parquet_source::ParquetDataSource;
use futures_bmad_engine::persistence::journal::{EngineEvent, EventJournal};
use futures_bmad_engine::persistence::parquet_writer::MarketColumns;
use futures_bmad_engine::replay::data_source::ParquetReplaySource;
use futures_bmad_engine::replay::orchestrator::{ReplayConfig, ReplayOrchestrator};
use futures_bmad_engine::types::{
    FillType, FixedPrice, MarketEvent, MarketEventType, OrderEvent, OrderType, Side, UnixNanos,
};

const TS0: u64 = 1_776_470_400_000_000_000;

fn bid_event(ts: u64, price: i64) -> MarketEvent {
    MarketEvent {
        timestamp: UnixNanos::new(ts),
        symbol_id: 0,
        sequence: 0,
        event_type: MarketEventType::BidUpdate,
        price: FixedPrice::new(price),
        size: 100,
        side: Some(Side::Buy),
    }
}

fn ask_event(ts: u64, price: i64) -> MarketEvent {
    MarketEvent {
        timestamp: UnixNanos::new(ts),
        symbol_id: 0,
        sequence: 0,
        event_type: MarketEventType::AskUpdate,
        price: FixedPrice::new(price),
        size: 100,
        side: Some(Side::Sell),
    }
}

fn trade_event(ts: u64, price: i64) -> MarketEvent {
    MarketEvent { event_type: MarketEventType::Trade, size: 1, ..bid_event(ts, price) }
}

fn recording(events: &[MarketEvent]) -> ParquetDataSource {
    let mut source = ParquetDataSource::new();
    source.add_batch(Some(MarketColumns::encode(&events.to_vec())));
    source
}

fn orchestrator() -> ReplayOrchestrator {
    ReplayOrchestrator::new(ReplayConfig::new("2026-04-18.parquet".to_string()))
}

fn order(id: u64, side: Side, quantity: u32) -> OrderEvent {
    OrderEvent {
        order_id: id,
        symbol_id: 0,
        side,
        quantity,
        order_type: OrderType::Market,
        decision_id: 1,
        timestamp: UnixNanos::new(TS0 + 3),
    }
}

#[test]
fn run_advances_simclock_to_event_timestamps() {
    let mut source = recording(&[
        bid_event(TS0, 18_000),
        ask_event(TS0 + 1_000_000, 18_004),
        bid_event(TS0 + 2_000_000, 18_001),
    ]);
    let mut orch = orchestrator();
    assert_eq!(orch.clock().as_nanos(), 0);
    let summary = orch.run(&mut source);
    assert_eq!(orch.clock().as_nanos(), TS0 + 2_000_000);
    assert_eq!(summary.total_events, 3);
    assert_eq!(orch.book().best_bid().unwrap().price.raw(), 18_001);
    assert_eq!(orch.book().best_ask().unwrap().price.raw(), 18_004);
}

#[test]
fn non_monotonic_timestamp_does_not_advance_clock_backwards() {
    let mut source =
        recording(&[bid_event(TS0 + 1_000_000, 18_000), bid_event(TS0, 18_001)]);
    let mut orch = orchestrator();
    let _ = orch.run(&mut source);
    assert_eq!(orch.clock().as_nanos(), TS0 + 1_000_000);
}

#[test]
fn order_submitted_during_replay_yields_immediate_fill() {
    let mut source = recording(&[
        bid_event(TS0, 18_000),
        ask_event(TS0 + 1, 18_004),
        trade_event(TS0 + 2, 18_002),
    ]);
    let mut orch = orchestrator();
    let _ = orch.run(&mut source);
    assert!(orch.submit_order(order(1, Side::Buy, 2)));
    orch.drain_orders_and_simulate_fills();

    let fill = orch.take_fill().unwrap();
    assert_eq!(fill.fill_price.raw(), 18_004);
    assert_eq!(fill.fill_size, 2);
    assert!(matches!(fill.fill_type, FillType::Full));
}

#[test]
fn summary_includes_speed_and_event_counts() {
    let mut source = recording(&[
        bid_event(TS0, 18_000),
        ask_event(TS0 + 1_000_000_000, 18_004),
        bid_event(TS0 + 2_000_000_000, 18_001),
    ]);
    let mut orch = orchestrator();
    let summary = orch.run(&mut source);
    assert_eq!(summary.total_events, 3);
    assert_eq!(summary.total_trades, 0);
    assert_eq!(summary.net_pnl_qt, 0);
    assert_eq!(summary.recorded_duration_nanos, 2_000_000_000);
}

#[test]
fn multi_file_replay_chronological_order() {
    let ts2 = TS0 + 86_400_000_000_000;
    let mut source = recording(&[bid_event(TS0, 18_000)]);
    source.add_batch(Some(MarketColumns::encode(&vec![bid_event(ts2, 18_100)])));
    let mut orch = orchestrator();
    let summary = orch.run(&mut source);
    assert_eq!(summary.total_events, 2);
    assert_eq!(orch.clock().as_nanos(), ts2);
}

#[test]
fn round_trip_is_counted_in_the_summary() {
    let mut orch = orchestrator();
    assert!(orch.on_event(bid_event(TS0, 18_000)));
    assert!(orch.on_event(ask_event(TS0 + 1, 18_004)));
    assert!(orch.submit_order(order(1, Side::Buy, 2)));
    assert!(orch.on_event(bid_event(TS0 + 2, 18_010)));
    assert!(orch.submit_order(order(2, Side::Sell, 2)));
    assert!(orch.on_event(ask_event(TS0 + 3, 18_014)));
    let summary = orch.summary();
    assert_eq!(summary.total_trades, 1);
    assert_eq!(summary.net_pnl_qt, 12);
    assert_eq!((summary.wins, summary.losses, summary.max_drawdown_qt), (1, 0, 0));
    assert_eq!(orch.fills_emitted(), 2);
    assert_eq!((orch.events_pushed(), orch.events_consumed()), (4, 4));
}

#[test]
fn replay_start_is_journaled() {
    let (tx, mut rx) = EventJournal::channel();
    let mut orch = orchestrator();
    orch.attach_journal(tx);
    orch.run(&mut recording(&[]));
    match rx.try_recv_for_test() {
        Some(EngineEvent::SystemEvent(record)) => {
            assert_eq!(record.category, "replay_start");
            assert_eq!(record.message, "replay started: 2026-04-18.parquet");
        }
        other => panic!("expected SystemEvent, got {other:?}"),
    }
}

#[test]
fn captured_replays_repeat() {
    let mut events = Vec::new();
    for i in 0..50u64 {
        events.push(bid_event(TS0 + i * 10_000_000_000, 18_000 + i as i64));
        events.push(trade_event(TS0 + i * 10_000_000_000 + 1, 18_002 + (i as i64 % 7)));
    }
    let mut config = ReplayConfig::new("x".to_string());
    config.snapshot_interval = Some(10);
    let mut source = recording(&events);
    let mut orch = ReplayOrchestrator::new(config);
    let first = orch.run_with_capture(&mut source);
    let second = orch.run_with_capture(&mut source);
    assert_eq!(first.total_events, 100);
    assert_eq!(first.snapshot_events.len(), 10);
    assert_eq!(first.snapshot_events, second.snapshot_events);
    assert!(first.compare(&second).is_deterministic);
}

#[test]
fn capture_without_reset_keeps_the_book() {
    let events = [bid_event(TS0, 18_000), ask_event(TS0 + 1, 18_004)];
    let mut source = recording(&events);
    let mut orch = orchestrator();
    let first = orch.run_with_capture(&mut source);
    assert_eq!(first.total_events, 2);
    let again = orch.run_with_capture_no_reset(&mut source);
    assert_eq!(again.total_trades, 0);
    assert_eq!(orch.book().best_ask().unwrap().price.raw(), 18_004);
}

#[test]
fn summary_line() {
    let mut orch = orchestrator();
    let summary = orch.run(&mut recording(&[bid_event(TS0, 18_000)]));
    assert_eq!(
        summary.fmt_one_line("0.0", 5, "0.000", "0.0"),
        "events=1 trades=0 net_pnl_qt=0 win_rate=0.0% max_dd_qt=0 \
         wall_ms=5 recorded_s=0.000 speed=0.0x"
    );
}

#[test]
fn replay_is_journaled_from_start_to_completion() {
    let (tx, mut rx) = EventJournal::channel();
    let mut orch = orchestrator();
    orch.attach_journal(tx);
    let summary = orch.run(&mut recording(&[bid_event(TS0, 18_000)]));
    let line = summary.fmt_one_line("0.0", 5, "0.000", "0.0");
    orch.complete(line.clone());
    let mut seen = Vec::new();
    while let Some(event) = rx.try_recv_for_test() {
        match event {
            EngineEvent::SystemEvent(record) => {
                seen.push((record.timestamp.as_nanos(), record.category, record.message));
            }
            other => panic!("expected SystemEvent, got {other:?}"),
        }
    }
    assert_eq!(
        seen,
        vec![
            (
                0,
                "replay_start".to_string(),
                "replay started: 2026-04-18.parquet".to_string()
            ),
            (TS0, "replay_complete".to_string(), line),
        ]
    );
}

#[test]
fn replay_of_files_asks_for_each() {
    let mut source = ParquetReplaySource::open(2);
    let mut orch = orchestrator();
    orch.begin();
    assert_eq!(orch.step(&mut source), SourceStep::OpenFile(0));
    source.file_opened(recording(&[bid_event(TS0, 18_000)]));
    assert_eq!(orch.step(&mut source), SourceStep::Event(bid_event(TS0, 18_000)));
    assert_eq!(orch.step(&mut source), SourceStep::OpenFile(1));
    source.file_failed();
    assert_eq!(orch.step(&mut source), SourceStep::Done);
    assert_eq!(orch.finish().total_events, 1);
    assert_eq!(orch.clock().as_nanos(), TS0);
}

#[test]
fn capture_counts_agree_with_the_recording() {
    let events: Vec<MarketEvent> = (0..23u64).map(|i| bid_event(TS0 + i, 18_000)).collect();
    let mut config = ReplayConfig::new("x".to_string());
    config.snapshot_interval = Some(5);
    let mut orch = ReplayOrchestrator::new(config);
    let result = orch.run_with_capture(&mut recording(&events));
    assert_eq!(result.total_events, 23);
    assert_eq!(result.snapshot_events, vec![5, 10, 15, 20]);
    assert_eq!(result.total_trades as usize, result.trade_pnls_qt.len());
    assert_eq!(result.net_pnl_qt, 0);
    assert!(result.regime_states.is_empty());
}

#[test]
fn new_wires_components_from_config() {
    let orch = orchestrator();
    assert_eq!(orch.clock().as_nanos(), 0);
    assert_eq!(orch.fills_emitted(), 0);
    assert_eq!((orch.events_pushed(), orch.events_consumed()), (0, 0));
    assert_eq!(orch.config().parquet_path, "2026-04-18.parquet");
    assert!(orch.book().best_bid().is_none() && orch.book().best_ask().is_none());
}

#[test]
fn stepping_reaches_what_running_reaches() {
    let days = [
        vec![bid_event(TS0, 18_000), ask_event(TS0 + 1, 18_004)],
        Vec::new(),
        vec![trade_event(TS0 + 2, 18_002)],
    ];
    let mut stepped = orchestrator();
    let mut source = ParquetReplaySource::open(3);
    stepped.begin();
    loop {
        match stepped.step(&mut source) {
            SourceStep::Event(_) => {}
            SourceStep::OpenFile(index) => source.file_opened(recording(&days[index])),
            SourceStep::Done => break,
        }
    }
    let mut run = orchestrator();
    let in_one = run.run(&mut recording(&days.concat()));
    assert_eq!(stepped.finish().total_events, in_one.total_events);
    assert_eq!(stepped.book().best_ask().unwrap().price, run.book().best_ask().unwrap().price);
    assert_eq!(stepped.clock(), run.clock());
    assert_eq!(source.events_emitted(), 3);
}

#[test]
fn a_capture_over_files_steps_through_them() {
    let mut config = ReplayConfig::new("x".to_string());
    config.snapshot_interval = Some(2);
    let mut orch = ReplayOrchestrator::new(config);
    let mut source = ParquetReplaySource::open(2);
    orch.begin_capture(true);
    assert_eq!(orch.capture_step(&mut source), (SourceStep::OpenFile(0), None));
    source.file_opened(recording(&[bid_event(TS0, 18_000)]));
    assert_eq!(
        orch.capture_step(&mut source),
        (SourceStep::Event(bid_event(TS0, 18_000)), Some(false))
    );
    assert_eq!(orch.capture_step(&mut source), (SourceStep::OpenFile(1), None));
    source.file_opened(recording(&[ask_event(TS0 + 1, 18_004)]));
    assert_eq!(
        orch.capture_step(&mut source),
        (SourceStep::Event(ask_event(TS0 + 1, 18_004)), Some(true))
    );
    assert_eq!(orch.capture_step(&mut source), (SourceStep::Done, None));
    let result = orch.finish_capture();
    assert_eq!(result.total_events, 2);
    assert_eq!(result.snapshot_events, vec![2]);
    assert_eq!(result.clone(), result);
}

#[test]
fn a_finished_replay_leaves_nothing_waiting() {
    let events = [bid_event(TS0, 18_000), ask_event(TS0 + 1, 18_004)];
    let mut orch = orchestrator();
    assert!(orch.can_step());
    assert!(orch.submit_order(order(1, Side::Buy, 1)));
    orch.run(&mut recording(&events));
    assert!(orch.take_fill().is_none());
    // What waited before the replay no longer shows in the captures after it.
    let first = orch.run_with_capture(&mut recording(&events));
    let second = orch.run_with_capture(&mut recording(&events));
    assert!(first.compare(&second).is_deterministic);
    assert_eq!(first.total_events, 2);
    assert!(orch.take_fill().is_none());
}
