use futures_bmad_engine::buffer_monitor::BufferState;
use futures_bmad_engine::data_quality::GateState;
use futures_bmad_engine::event_loop::{
    flatten_request, position_snapshot, signed_position, AnomalyProducer, AnomalyRound,
    BufferOccupancy, DataQualityUpdate, EmptyExpectedPositions, EventLoop,
    ExpectedPositionSource, FlattenRequest, PositionCheck, Publication, STALE_CHECK_INTERVAL,
};
use futures_bmad_engine::order_manager::tracker::PositionTracker;
use futures_bmad_engine::persistence::journal::{EngineEvent, EventJournal};
use futures_bmad_engine::queue::MarketEventQueue;
use futures_bmad_engine::types::{
    FillEvent, FillType, FixedPrice, MarketEvent, MarketEventType, Position, Side, UnixNanos,
};
use tokio::sync::mpsc;

fn make_bid(price_raw: i64, size: u32, ts: u64) -> MarketEvent {
    MarketEvent {
        timestamp: UnixNanos::new(ts),
        symbol_id: 0,
        sequence: 0,
        event_type: MarketEventType::BidUpdate,
        price: FixedPrice::new(price_raw),
        size,
        side: Some(Side::Buy),
    }
}

fn make_ask(price_raw: i64, size: u32, ts: u64) -> MarketEvent {
    MarketEvent {
        timestamp: UnixNanos::new(ts),
        symbol_id: 0,
        sequence: 0,
        event_type: MarketEventType::AskUpdate,
        price: FixedPrice::new(price_raw),
        size,
        side: Some(Side::Sell),
    }
}

const NANOS_PER_SEC: u64 = 1_000_000_000;
const BASE_TS: u64 = 1_000_000_000_000;
const BASE: UnixNanos = UnixNanos { nanos: BASE_TS };

fn loop_of(capacity: usize) -> EventLoop {
    EventLoop::new(MarketEventQueue::with_capacity(capacity), 3 * NANOS_PER_SEC)
}

fn fill_buy(qty: u32) -> FillEvent {
    FillEvent {
        order_id: 1,
        fill_price: FixedPrice::new(18000),
        fill_size: qty,
        timestamp: UnixNanos::new(1),
        side: Side::Buy,
        decision_id: 1,
        fill_type: FillType::Full,
    }
}

/// Runs a pass in which every unexpected position is called anomalous.
fn run_round<S: ExpectedPositionSource>(
    tracker: &PositionTracker,
    source: &S,
    producer: &mut AnomalyProducer,
) -> Vec<Publication> {
    let mut round = AnomalyRound::begin(tracker, source, producer, BASE);
    let mut outcomes = Vec::new();
    while let Some(check) = round.question() {
        outcomes.push(round.answer(check.current != check.expected, producer));
    }
    outcomes
}

#[test]
fn event_loop_processes_events() {
    let mut event_loop = loop_of(16);
    assert!(event_loop.offer(make_bid(18000, 50, BASE_TS)));
    assert!(event_loop.offer(make_ask(18004, 30, BASE_TS)));

    event_loop.tick(BASE, true);
    event_loop.tick(BASE, true);

    assert_eq!(event_loop.events_processed(), 2);
    assert_eq!(event_loop.order_book().best_bid().unwrap().price.raw(), 18000);
    assert_eq!(event_loop.order_book().best_ask().unwrap().price.raw(), 18004);
    assert!(event_loop.is_idle());
}

#[test]
fn tick_returns_normal_when_buffer_low() {
    let mut event_loop = loop_of(16);
    let state = event_loop.tick(BASE, true).state;
    assert_eq!(state, BufferState::Normal);
}

#[test]
fn buffer_state_escalates_with_fill() {
    let mut event_loop = loop_of(16);
    for i in 0..13 {
        event_loop.offer(make_bid(18000 + i, 10, BASE_TS));
    }
    let state = event_loop.tick(BASE, true).state;
    assert_eq!(state, BufferState::TradingDisabled);
    assert_eq!(event_loop.buffer_state(), BufferState::TradingDisabled);
}

#[test]
fn handle_can_stop_loop() {
    let event_loop = loop_of(16);
    let handle = event_loop.handle();
    handle.start();
    assert!(event_loop.handle().is_running());
    handle.stop();
    assert!(!event_loop.handle().is_running());
}

#[test]
fn stale_data_gates_then_clears() {
    let mut event_loop = loop_of(16);
    event_loop.offer(make_bid(18000, 50, BASE_TS));
    event_loop.tick(BASE, true);
    assert!(event_loop.is_data_quality_ok());

    let late = UnixNanos::new(BASE_TS + 5 * NANOS_PER_SEC);
    for _ in 0..STALE_CHECK_INTERVAL {
        event_loop.tick(late, true);
    }
    assert!(!event_loop.is_data_quality_ok());
    assert_eq!(event_loop.gate_state(), GateState::Gated);

    let fresh_ts = BASE_TS + 6 * NANOS_PER_SEC;
    event_loop.offer(make_bid(18001, 50, fresh_ts));
    event_loop.tick(UnixNanos::new(fresh_ts), true);
    assert!(event_loop.is_data_quality_ok());
}

#[test]
fn stale_not_triggered_when_market_closed() {
    let mut event_loop = loop_of(16);
    event_loop.offer(make_bid(18000, 50, BASE_TS));
    event_loop.tick(BASE, false);
    let late = UnixNanos::new(BASE_TS + 10 * NANOS_PER_SEC);
    for _ in 0..STALE_CHECK_INTERVAL {
        event_loop.tick(late, false);
    }
    assert!(event_loop.is_data_quality_ok());
}

#[test]
fn sequence_gap_closes_and_next_event_opens() {
    let mut event_loop = loop_of(16);
    for sequence in [1u64, 2, 5, 6] {
        event_loop.offer(MarketEvent { sequence, ..make_bid(18000, 1, BASE_TS) });
    }
    event_loop.tick(BASE, true);
    event_loop.tick(BASE, true);
    assert!(event_loop.is_data_quality_ok());
    event_loop.tick(BASE, true);
    assert!(!event_loop.is_data_quality_ok());
    event_loop.tick(BASE, true);
    assert!(event_loop.is_data_quality_ok());
}

#[test]
fn attached_breakers_are_told() {
    let mut event_loop = loop_of(16);
    assert_eq!(event_loop.tick(BASE, true).occupancy, None);
    event_loop.attach_circuit_breakers(FixedPrice::new(4));
    for i in 0..13 {
        event_loop.offer(make_bid(18000 + i, 10, BASE_TS));
    }
    let report = event_loop.tick(BASE, true);
    assert_eq!(
        report.occupancy,
        Some(BufferOccupancy { used: 13, capacity: 16, timestamp: BASE })
    );
    assert_eq!(
        report.data_quality,
        Some(DataQualityUpdate {
            max_spread: FixedPrice::new(4),
            has_gap: false,
            is_stale: false,
            timestamp: BASE
        })
    );
    assert_eq!(report.silence, None);
}

#[test]
fn breakers_disabled_when_not_attached() {
    let mut event_loop = loop_of(16);
    for i in 0..13 {
        event_loop.offer(make_bid(18000 + i, 10, BASE_TS));
    }
    let report = event_loop.tick(BASE, true);
    assert!(report.occupancy.is_none());
    assert!(report.data_quality.is_none());
    assert!(report.silence.is_none());
}

#[test]
fn full_queue_refuses_events() {
    let mut event_loop = loop_of(1);
    assert!(event_loop.offer(make_bid(1, 1, 1)));
    assert!(!event_loop.offer(make_bid(2, 1, 1)));
}

#[test]
fn divergence_publishes_a_flatten_request() {
    let (jtx, _jrx) = EventJournal::channel();
    let mut tracker = PositionTracker::new(jtx.clone());
    tracker.apply_fill(&fill_buy(3), 1);
    let (flatten_tx, mut flatten_rx) = mpsc::channel::<FlattenRequest>(8);
    let mut producer = AnomalyProducer::new(flatten_tx, jtx);

    assert_eq!(
        run_round(&tracker, &EmptyExpectedPositions, &mut producer),
        vec![Publication::Sent]
    );

    let req = flatten_rx.try_recv().expect("flatten request must be on channel");
    assert_eq!(req.symbol_id, 1);
    assert_eq!(req.side, Side::Sell, "flatten side opposite of long");
    assert_eq!(req.quantity, 3);
    assert_eq!((req.order_id, req.decision_id, req.timestamp), (0, 0, BASE));
    assert!(producer.is_attached());
}

#[test]
fn flat_tracker_publishes_nothing() {
    let (jtx, _jrx) = EventJournal::channel();
    let tracker = PositionTracker::new(jtx.clone());
    let (flatten_tx, mut flatten_rx) = mpsc::channel::<FlattenRequest>(8);
    let mut producer = AnomalyProducer::new(flatten_tx, jtx);
    assert!(run_round(&tracker, &EmptyExpectedPositions, &mut producer).is_empty());
    assert!(flatten_rx.try_recv().is_err());
}

struct MatchingExpected;

impl ExpectedPositionSource for MatchingExpected {
    fn expected_position(&self, symbol_id: u32) -> i32 {
        if symbol_id == 1 {
            3
        } else {
            0
        }
    }
}

#[test]
fn claimed_position_publishes_nothing() {
    let (jtx, _jrx) = EventJournal::channel();
    let mut tracker = PositionTracker::new(jtx.clone());
    tracker.apply_fill(&fill_buy(3), 1);
    let (flatten_tx, mut flatten_rx) = mpsc::channel::<FlattenRequest>(8);
    let mut producer = AnomalyProducer::new(flatten_tx, jtx);
    assert_eq!(
        run_round(&tracker, &MatchingExpected, &mut producer),
        vec![Publication::Nothing]
    );
    assert!(flatten_rx.try_recv().is_err());
    assert!(!MatchingExpected.is_empty_default());
    assert!(EmptyExpectedPositions.is_empty_default());
}

#[test]
fn anomaly_full_channel_logs_and_journals_no_panic() {
    let (jtx, mut jrx) = EventJournal::channel();
    let mut tracker = PositionTracker::new(jtx.clone());
    tracker.apply_fill(&fill_buy(3), 1);

    let (flatten_tx, _flatten_rx) = mpsc::channel::<FlattenRequest>(1);
    flatten_tx
        .try_send(FlattenRequest {
            order_id: 0,
            symbol_id: 99,
            side: Side::Buy,
            quantity: 1,
            decision_id: 0,
            timestamp: UnixNanos::new(0),
        })
        .expect("priming send must succeed");
    let mut producer = AnomalyProducer::new(flatten_tx, jtx);
    let outcomes = run_round(&tracker, &EmptyExpectedPositions, &mut producer);
    assert_eq!(outcomes, vec![Publication::DroppedFull]);

    let mut found = false;
    for _ in 0..16 {
        match jrx.try_recv_for_test() {
            Some(EngineEvent::SystemEvent(rec)) if rec.category == "flatten_request_dropped" => {
                assert_eq!(
                    rec.message,
                    "anomaly detected on symbol 1 (current=3, expected=0) \
                     but flatten channel full — request dropped"
                );
                found = true;
                break;
            }
            Some(_) => continue,
            None => break,
        }
    }
    assert!(found, "expected SystemEventRecord with category=flatten_request_dropped");
    assert!(producer.is_attached());
}

#[test]
fn closed_channel_ends_the_pass() {
    let (jtx, mut jrx) = EventJournal::channel();
    let mut tracker = PositionTracker::new(jtx.clone());
    tracker.apply_fill(&fill_buy(3), 1);
    tracker.apply_fill(&fill_buy(2), 2);
    let (flatten_tx, flatten_rx) = mpsc::channel::<FlattenRequest>(8);
    drop(flatten_rx);
    let mut producer = AnomalyProducer::new(flatten_tx, jtx);
    let outcomes = run_round(&tracker, &EmptyExpectedPositions, &mut producer);
    assert_eq!(outcomes, vec![Publication::DroppedClosed]);
    assert!(!producer.is_attached());
    let mut dropped = 0;
    while let Some(event) = jrx.try_recv_for_test() {
        if let EngineEvent::SystemEvent(rec) = event {
            assert!(rec.message.ends_with("but flatten channel closed — request dropped"));
            dropped += 1;
        }
    }
    assert_eq!(dropped, 1);
    // Nothing is asked until a channel is attached again.
    assert!(run_round(&tracker, &EmptyExpectedPositions, &mut producer).is_empty());
    let check = PositionCheck { symbol_id: 1, current: 3, expected: 0 };
    assert_eq!(producer.publish(check, true, BASE), Publication::Nothing);
}

#[test]
fn signed_position_saturates_at_i32_max_for_corrupt_quantity() {
    let long = Position {
        symbol_id: 1,
        side: Some(Side::Buy),
        quantity: u32::MAX,
        avg_entry_price: FixedPrice::default(),
        unrealized_pnl: 0,
        realized_pnl: 0,
    };
    assert_eq!(
        signed_position(&long),
        i32::MAX,
        "long-side u32::MAX must saturate to i32::MAX, not negative wrap"
    );
    let short = Position { side: Some(Side::Sell), ..long };
    assert_eq!(
        signed_position(&short),
        -i32::MAX,
        "short-side u32::MAX must saturate to -i32::MAX, not positive wrap"
    );
}

#[test]
fn snapshot_lists_open_positions_once() {
    let (jtx, _jrx) = EventJournal::channel();
    let mut tracker = PositionTracker::new(jtx);
    tracker.apply_fill(&fill_buy(3), 1);
    tracker.apply_fill(&FillEvent { side: Side::Sell, ..fill_buy(2) }, 2);
    tracker.apply_fill(&fill_buy(1), 3);
    tracker.apply_fill(&FillEvent { side: Side::Sell, ..fill_buy(1) }, 3);
    let mut snapshot = position_snapshot(&tracker);
    snapshot.sort();
    assert_eq!(snapshot, vec![(1, 3), (2, -2)]);
}

#[test]
fn flatten_requests_oppose_the_position() {
    assert_eq!(flatten_request(1, 0, BASE), None);
    let short = flatten_request(1, i32::MIN, BASE).unwrap();
    assert_eq!((short.side, short.quantity), (Side::Buy, 1 << 31));
}

#[test]
fn a_loop_without_a_queue_cannot_tick() {
    assert!(!loop_of(0).can_tick());
    let mut event_loop = loop_of(16);
    assert!(event_loop.can_tick());
    let mut last = make_bid(18000, 50, BASE_TS);
    last.sequence = u64::MAX;
    event_loop.offer(last);
    assert!(event_loop.can_tick());
    event_loop.tick(BASE, true);
    assert!(event_loop.can_tick());
    // No number comes after the largest.
    event_loop.offer(make_bid(18000, 50, BASE_TS));
    assert!(!event_loop.can_tick());
}

#[test]
fn anomaly_unattached_no_op_path_preserved() {
    let mut event_loop = loop_of(16);
    event_loop.attach_circuit_breakers(FixedPrice::new(4));
    // Nobody watches the positions: the breakers hear of the queue alone.
    let report = event_loop.tick(BASE, true);
    assert_eq!(
        report.occupancy,
        Some(BufferOccupancy { used: 0, capacity: 16, timestamp: BASE })
    );
    assert_eq!(report.data_quality, None);
    assert_eq!(report.silence, None);
    assert_eq!(event_loop.events_processed(), 0);
}

#[test]
fn a_copied_handle_stops_the_same_loop() {
    let event_loop = loop_of(16);
    let handle = event_loop.handle();
    let copy = handle.clone();
    handle.start();
    assert!(copy.is_running());
    copy.stop();
    assert!(!handle.is_running());
}

#[test]
fn reports_of_the_channel_are_acted_on() {
    let (jtx, mut jrx) = EventJournal::channel();
    let (flatten_tx, mut flatten_rx) = mpsc::channel::<FlattenRequest>(8);
    let mut producer = AnomalyProducer::new(flatten_tx, jtx);
    let check = PositionCheck { symbol_id: 4, current: -2, expected: 1 };
    producer.settle(check, Publication::Nothing, BASE);
    producer.settle(check, Publication::Sent, BASE);
    assert!(jrx.try_recv_for_test().is_none());
    assert!(producer.is_attached());

    producer.settle(check, Publication::DroppedFull, BASE);
    assert!(producer.is_attached());
    producer.settle(check, Publication::DroppedClosed, BASE);
    assert!(!producer.is_attached());
    let mut messages = Vec::new();
    while let Some(event) = jrx.try_recv_for_test() {
        match event {
            EngineEvent::SystemEvent(rec) => {
                assert_eq!((rec.category.as_str(), rec.timestamp), ("flatten_request_dropped", BASE));
                messages.push(rec.message);
            }
            other => panic!("expected SystemEvent, got {other:?}"),
        }
    }
    assert_eq!(
        messages,
        vec![
            "anomaly detected on symbol 4 (current=-2, expected=1) \
             but flatten channel full — request dropped",
            "anomaly detected on symbol 4 (current=-2, expected=1) \
             but flatten channel closed — request dropped",
        ]
    );
    // Acting on a report hands nothing over.
    assert!(flatten_rx.try_recv().is_err());
}

#[test]
fn a_full_channel_is_tried_again() {
    let (jtx, _jrx) = EventJournal::channel();
    let (flatten_tx, mut flatten_rx) = mpsc::channel::<FlattenRequest>(1);
    let mut producer = AnomalyProducer::new(flatten_tx, jtx);
    let check = PositionCheck { symbol_id: 1, current: 3, expected: 0 };
    assert_eq!(producer.publish(check, true, BASE), Publication::Sent);
    assert_eq!(producer.publish(check, true, BASE), Publication::DroppedFull);
    assert_eq!(flatten_rx.try_recv().unwrap().quantity, 3);
    assert_eq!(producer.publish(check, true, BASE), Publication::Sent);
    assert_eq!(producer.publish(check, false, BASE), Publication::Nothing);
    assert_eq!(flatten_rx.try_recv().unwrap().side, Side::Sell);
    assert!(flatten_rx.try_recv().is_err());
}
