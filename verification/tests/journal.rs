use futures_bmad_engine::persistence::journal::{
    apply_source_override, column_exists, journal_row, migrate_add_source_column, Arrival,
    BatchPlan, CircuitBreakerEventRecord, EngineEvent, EventBatch, EventJournal, JournalReceiver,
    JournalRow, JournalSender, OrderStateChangeRecord, RegimeTransitionRecord, SystemEventRecord,
    TradeEventRecord, BATCH_INTERVAL_NANOS, BATCH_SIZE, CHECKPOINT_INTERVAL_NANOS,
    JOURNAL_CHANNEL_CAPACITY,
};
use futures_bmad_engine::types::{FixedPrice, Side, TradeSource, UnixNanos};

fn sample_trade(decision_id: Option<u64>) -> EngineEvent {
    EngineEvent::TradeEvent(TradeEventRecord {
        timestamp: UnixNanos::new(1_700_000_000_000_000_000),
        decision_id,
        order_id: Some(42),
        symbol_id: 1,
        side: Side::Buy,
        price: FixedPrice::new(17929),
        size: 1,
        kind: "submit".to_string(),
        source: TradeSource::Live,
    })
}

fn sample_order_state() -> EngineEvent {
    EngineEvent::OrderStateChange(OrderStateChangeRecord {
        timestamp: UnixNanos::new(1_700_000_000_000_000_001),
        order_id: 42,
        decision_id: Some(7),
        from_state: "Idle".to_string(),
        to_state: "Submitted".to_string(),
        source: TradeSource::Live,
    })
}

fn sample_breaker() -> EngineEvent {
    EngineEvent::CircuitBreakerEvent(CircuitBreakerEventRecord {
        timestamp: UnixNanos::new(1_700_000_000_000_000_002),
        breaker_type: "DailyLossLimit".to_string(),
        triggered: true,
        reason: "max daily loss exceeded".to_string(),
    })
}

fn sample_regime() -> EngineEvent {
    EngineEvent::RegimeTransition(RegimeTransitionRecord {
        timestamp: UnixNanos::new(1_700_000_000_000_000_003),
        from_regime: "Unknown".to_string(),
        to_regime: "Trending".to_string(),
    })
}

fn sample_system() -> EngineEvent {
    EngineEvent::SystemEvent(SystemEventRecord {
        timestamp: UnixNanos::new(1_700_000_000_000_000_004),
        category: "startup".to_string(),
        message: "engine online".to_string(),
    })
}

fn system(at: u64, category: &str, message: String) -> EngineEvent {
    EngineEvent::SystemEvent(SystemEventRecord {
        timestamp: UnixNanos::new(at),
        category: category.to_string(),
        message,
    })
}

/// Runs the batching worker until every sender is gone; the written rows.
fn run_worker(receiver: &mut JournalReceiver) -> Vec<JournalRow> {
    let mut rows = Vec::new();
    let mut batch = EventBatch::new();
    let mut since_flush = 0;
    for _ in 0..10_000 {
        let first = receiver.try_recv();
        batch.absorb(first, receiver);
        let plan = batch.plan(since_flush, 0);
        if plan.flush {
            rows.extend(batch.take().iter().map(journal_row));
        }
        since_flush = if plan.restart_window { 0 } else { since_flush + BATCH_INTERVAL_NANOS };
        if plan.stop {
            return rows;
        }
    }
    panic!("the worker did not stop");
}

#[test]
fn event_routing_per_variant() {
    assert!(matches!(journal_row(&sample_trade(Some(11))), JournalRow::TradeEvents(_)));
    assert!(matches!(journal_row(&sample_order_state()), JournalRow::OrderStates(_)));
    assert!(matches!(journal_row(&sample_breaker()), JournalRow::CircuitBreakerEvents(_)));
    assert!(matches!(journal_row(&sample_regime()), JournalRow::RegimeTransitions(_)));
    assert!(matches!(journal_row(&sample_system()), JournalRow::SystemEvents(_)));
}

#[test]
fn channel_backpressure_drops_when_full() {
    let (mut sender, mut rx) = EventJournal::channel_with_capacity(2, None);
    assert!(sender.send(sample_system()));
    assert!(sender.send(sample_system()));
    let accepted = sender.send(sample_system());
    assert!(!accepted, "third send should be dropped");
    assert_eq!(sender.len(), 2);
    let _ = rx.try_recv();
    assert!(sender.send(sample_system()));
}

#[test]
fn integer_storage_for_timestamps_and_prices() {
    let ts = UnixNanos::new(1_700_000_000_123_456_789);
    let px = FixedPrice::new(17929);
    let row = journal_row(&EngineEvent::TradeEvent(TradeEventRecord {
        timestamp: ts,
        decision_id: Some(1),
        order_id: Some(1),
        symbol_id: 1,
        side: Side::Sell,
        price: px,
        size: 3,
        kind: "fill".to_string(),
        source: TradeSource::Live,
    }));
    match row {
        JournalRow::TradeEvents(row) => {
            assert_eq!(row.timestamp as u64, ts.as_nanos());
            assert_eq!(row.price, px.raw());
            assert_eq!((row.side, row.size), (1, 3));
        }
        other => panic!("expected a trade row, got {other:?}"),
    }
}

#[test]
fn trade_event_without_decision_id_is_logged_but_persisted() {
    match journal_row(&sample_trade(None)) {
        JournalRow::TradeEvents(row) => assert_eq!(row.decision_id, 0),
        other => panic!("expected a trade row, got {other:?}"),
    }
}

#[test]
fn trade_event_decision_id_round_trip() {
    match journal_row(&sample_trade(Some(99))) {
        JournalRow::TradeEvents(row) => assert_eq!(row.decision_id, 99),
        other => panic!("expected a trade row, got {other:?}"),
    }
}

#[test]
fn channel_run_loop_persists_events() {
    let (mut sender, mut receiver) = EventJournal::channel();
    for i in 0..20 {
        sender.send(system(2_000 + i, "loop", format!("e{i}")));
    }
    drop(sender);
    let rows = run_worker(&mut receiver);
    assert_eq!(rows.len(), 20);
    for (i, row) in rows.iter().enumerate() {
        match row {
            JournalRow::SystemEvents(row) => {
                assert_eq!(row.timestamp, 2_000 + i as i64);
                assert_eq!(row.message, format!("e{i}"));
            }
            other => panic!("expected a system row, got {other:?}"),
        }
    }
}

#[test]
fn journal_sender_is_send_and_clone() {
    fn assert_send_clone<T: Send + Clone>() {}
    assert_send_clone::<JournalSender>();
}

#[test]
fn run_loop_survives_transient_empty_and_persists_all_events() {
    let (mut sender, mut receiver) = EventJournal::channel();
    let mut batch = EventBatch::new();
    let mut written = 0;
    for i in 0..8 {
        sender.send(system(3_000 + i, "gap", format!("g{i}")));
        let first = receiver.try_recv();
        batch.absorb(first, &mut receiver);
        // Several windows pass without an event.
        for _ in 0..3 {
            let plan = batch.plan(BATCH_INTERVAL_NANOS, 0);
            assert!(!plan.stop);
            if plan.flush {
                written += batch.take().len();
            }
            let first = receiver.try_recv();
            assert!(matches!(first, Arrival::Nothing));
            batch.absorb(first, &mut receiver);
        }
    }
    drop(sender);
    written += run_worker(&mut receiver).len();
    assert_eq!(written, 8, "every event must be persisted even when the channel briefly empties");
}

#[test]
fn migration_adds_source_column_to_pre_story_7_4_journal() {
    let old: Vec<String> =
        ["id", "timestamp", "decision_id", "order_id", "symbol_id", "side", "price", "size", "kind"]
            .iter()
            .map(|c| c.to_string())
            .collect();
    assert!(!column_exists(&old, "source"));
    assert_eq!(
        migrate_add_source_column("trade_events", &old),
        Some("ALTER TABLE trade_events ADD COLUMN source TEXT NOT NULL DEFAULT 'live'".to_string())
    );
    let mut new = old.clone();
    new.push("source".to_string());
    assert!(column_exists(&new, "source"));
    assert_eq!(migrate_add_source_column("trade_events", &new), None);
}

#[test]
fn sender_override_stamps_trade_and_order_records_only() {
    let (mut paper_sender, mut paper_rx) = EventJournal::channel_with_source(TradeSource::Paper);
    let trade = EngineEvent::TradeEvent(TradeEventRecord {
        timestamp: UnixNanos::new(1),
        decision_id: Some(1),
        order_id: Some(1),
        symbol_id: 1,
        side: Side::Buy,
        price: FixedPrice::new(100),
        size: 1,
        kind: "fill".into(),
        source: TradeSource::Live,
    });
    let order = EngineEvent::OrderStateChange(OrderStateChangeRecord {
        timestamp: UnixNanos::new(2),
        order_id: 1,
        decision_id: Some(1),
        from_state: "Idle".into(),
        to_state: "Submitted".into(),
        source: TradeSource::Live,
    });
    assert!(paper_sender.send(trade));
    assert!(paper_sender.send(order));
    assert!(paper_sender.send(system(3, "test", "msg".to_string())));

    let mut saw_trade_paper = false;
    let mut saw_order_paper = false;
    let mut saw_system = false;
    for _ in 0..8 {
        match paper_rx.try_recv_for_test() {
            Some(EngineEvent::TradeEvent(r)) => {
                assert_eq!(r.source, TradeSource::Paper);
                saw_trade_paper = true;
            }
            Some(EngineEvent::OrderStateChange(r)) => {
                assert_eq!(r.source, TradeSource::Paper);
                saw_order_paper = true;
            }
            Some(EngineEvent::SystemEvent(_)) => saw_system = true,
            Some(_) => {}
            None => break,
        }
    }
    assert!(saw_trade_paper);
    assert!(saw_order_paper);
    assert!(saw_system);
}

#[test]
fn the_last_tag_counts() {
    let mut event = sample_trade(Some(1));
    apply_source_override(&mut event, TradeSource::Paper);
    apply_source_override(&mut event, TradeSource::Replay);
    match event {
        EngineEvent::TradeEvent(r) => assert_eq!(r.source, TradeSource::Replay),
        other => panic!("unexpected {other:?}"),
    }
}

#[test]
fn events_arrive_in_order() {
    let (mut sender, mut receiver) = EventJournal::channel();
    for i in 0..5 {
        assert!(sender.send(system(i, "c", "m".to_string())));
    }
    for i in 0..5 {
        match receiver.try_recv() {
            Arrival::Event(event) => assert_eq!(event.timestamp(), UnixNanos::new(i)),
            _ => panic!("an event was lost"),
        }
    }
    assert!(matches!(receiver.try_recv(), Arrival::Nothing));
    drop(sender);
    assert!(matches!(receiver.try_recv(), Arrival::Disconnected));
    assert!(receiver.try_recv_for_test().is_none());
}

#[test]
fn channel_depth_is_reported() {
    let (mut sender, receiver) = EventJournal::channel();
    assert!(sender.is_empty());
    sender.send(sample_system());
    assert_eq!(sender.len(), 1);
    assert!(!sender.is_empty());
    assert_eq!(receiver.as_channel().capacity(), Some(JOURNAL_CHANNEL_CAPACITY));
    drop(receiver);
    assert!(!sender.send(sample_system()));
}

#[test]
fn handles_share_one_channel() {
    let (mut sender, mut receiver) = EventJournal::channel();
    assert_eq!(sender.source_override(), None);
    let mut copy = sender.clone();
    let mut paper = sender.with_source(TradeSource::Paper);
    assert_eq!(paper.source_override(), Some(TradeSource::Paper));
    assert!(sender.send(sample_trade(Some(1))));
    assert!(copy.send(sample_trade(Some(2))));
    assert!(paper.send(sample_trade(Some(3))));
    let mut seen = Vec::new();
    while let Some(event) = receiver.try_recv_for_test() {
        if let EngineEvent::TradeEvent(r) = event {
            seen.push((r.decision_id, r.source));
        }
    }
    assert_eq!(
        seen,
        vec![
            (Some(1), TradeSource::Live),
            (Some(2), TradeSource::Live),
            (Some(3), TradeSource::Paper)
        ]
    );
}

#[test]
fn event_accessors() {
    assert_eq!(sample_trade(Some(5)).decision_id(), Some(5));
    assert_eq!(sample_order_state().decision_id(), Some(7));
    assert_eq!(sample_breaker().decision_id(), None);
    assert_eq!(sample_regime().decision_id(), None);
    assert_eq!(sample_system().decision_id(), None);
    assert_eq!(sample_breaker().timestamp(), UnixNanos::new(1_700_000_000_000_000_002));
    assert_eq!(sample_regime().timestamp(), UnixNanos::new(1_700_000_000_000_000_003));
}

#[test]
fn breaker_rows_hold_zero_or_one() {
    match journal_row(&sample_breaker()) {
        JournalRow::CircuitBreakerEvents(row) => {
            assert_eq!(row.triggered, 1);
            assert_eq!(row.breaker_type, "DailyLossLimit");
            assert_eq!(row.reason, "max daily loss exceeded");
        }
        other => panic!("unexpected {other:?}"),
    }
}

#[test]
fn batches_flush_on_size_age_and_close() {
    let (mut sender, mut receiver) = EventJournal::channel();
    let mut batch = EventBatch::new();
    assert_eq!(
        batch.plan(0, 0),
        BatchPlan { flush: false, restart_window: false, checkpoint: false, stop: false }
    );
    for i in 0..(BATCH_SIZE as u64 + 5) {
        assert!(sender.send(system(i, "c", String::new())));
    }
    let first = receiver.try_recv();
    batch.absorb(first, &mut receiver);
    assert!(batch.plan(0, 0).flush);
    assert_eq!(batch.take().len(), BATCH_SIZE);
    let first = receiver.try_recv();
    batch.absorb(first, &mut receiver);
    assert!(!batch.plan(BATCH_INTERVAL_NANOS - 1, 0).flush);
    assert!(batch.plan(BATCH_INTERVAL_NANOS, 0).flush);
    assert!(batch.plan(0, CHECKPOINT_INTERVAL_NANOS).checkpoint);
    assert!(!batch.plan(0, CHECKPOINT_INTERVAL_NANOS - 1).checkpoint);
    drop(sender);
    let first = receiver.try_recv();
    batch.absorb(first, &mut receiver);
    let plan = batch.plan(0, 0);
    assert!(plan.flush && plan.stop);
    assert_eq!(batch.take().len(), 5);
}

#[test]
fn waiting_ends_with_the_window() {
    assert_eq!(EventBatch::wait_nanos(0), BATCH_INTERVAL_NANOS);
    assert_eq!(EventBatch::wait_nanos(BATCH_INTERVAL_NANOS - 1), 1);
    assert_eq!(EventBatch::wait_nanos(BATCH_INTERVAL_NANOS), 0);
    assert_eq!(EventBatch::wait_nanos(u64::MAX), 0);
}

#[test]
fn rounds_of_batching_lose_nothing() {
    let (mut sender, mut receiver) = EventJournal::channel();
    let mut batch = EventBatch::new();
    let mut seen = Vec::new();
    for round in 0..7u64 {
        for i in 0..(round * 3) {
            assert!(sender.send(system(round * 100 + i, "c", String::new())));
        }
        let first = receiver.try_recv();
        batch.absorb(first, &mut receiver);
        assert!(matches!(receiver.try_recv(), Arrival::Nothing));
        if round % 2 == 0 {
            seen.extend(batch.take());
        }
    }
    seen.extend(batch.take());
    let times: Vec<u64> = seen
        .iter()
        .map(|event| match event {
            EngineEvent::SystemEvent(record) => record.timestamp.as_nanos(),
            other => panic!("expected SystemEvent, got {other:?}"),
        })
        .collect();
    let sent: Vec<u64> =
        (0..7u64).flat_map(|round| (0..round * 3).map(move |i| round * 100 + i)).collect();
    assert_eq!(times, sent);
}

#[test]
fn a_writer_that_stops_has_written_everything() {
    let (mut sender, mut receiver) = EventJournal::channel();
    for i in 0..(2 * BATCH_SIZE as u64 + 3) {
        assert!(sender.send(system(i, "c", String::new())));
    }
    drop(sender);
    let mut batch = EventBatch::new();
    let mut written = 0;
    loop {
        let first = receiver.try_recv();
        batch.absorb(first, &mut receiver);
        let plan = batch.plan(0, 0);
        if plan.flush {
            written += batch.take().len();
        }
        if plan.stop {
            break;
        }
    }
    assert_eq!(written, 2 * BATCH_SIZE + 3);
}

#[test]
fn every_sender_feeds_the_matching_receiver() {
    let (mut first, mut first_end) = EventJournal::channel();
    let (mut second, mut second_end) = EventJournal::channel_with_source(TradeSource::Paper);
    let mut tagged = first.with_source(TradeSource::Replay);
    let mut copy = second.clone();
    assert!(first.send(system(1, "c", String::new())));
    assert!(second.send(system(2, "c", String::new())));
    assert!(tagged.send(system(3, "c", String::new())));
    assert!(copy.send(system(4, "c", String::new())));
    let times = |end: &mut JournalReceiver| {
        let mut times = Vec::new();
        while let Some(event) = end.try_recv_for_test() {
            times.push(event.timestamp().as_nanos());
        }
        times
    };
    assert_eq!(times(&mut first_end), vec![1, 3]);
    assert_eq!(times(&mut second_end), vec![2, 4]);
}
