use futures_bmad_engine::data::data_source::DataSource;
use futures_bmad_engine::data::parquet_source::ParquetDataSource;
use futures_bmad_engine::persistence::parquet_writer::MarketColumns;
use futures_bmad_engine::queue::MarketEventQueue;
use futures_bmad_engine::replay::driver::ReplayDriver;
use futures_bmad_engine::types::{FixedPrice, MarketEvent, MarketEventType, Side, UnixNanos};

fn make_event(ts: u64, price: i64) -> MarketEvent {
    MarketEvent {
        timestamp: UnixNanos::new(ts),
        symbol_id: 0,
        sequence: 0,
        event_type: MarketEventType::Trade,
        price: FixedPrice::new(price),
        size: 10,
        side: Some(Side::Buy),
    }
}

fn source_of(events: Vec<MarketEvent>) -> ParquetDataSource {
    let mut source = ParquetDataSource::new();
    source.add_batch(Some(MarketColumns::encode(&events)));
    source
}

#[test]
fn replay_pushes_all_events() {
    let mut queue = MarketEventQueue::with_capacity(64);
    let mut source = source_of(vec![
        make_event(1_000_000_000_000, 18000),
        make_event(1_000_000_001_000, 18001),
        make_event(1_000_000_002_000, 18002),
    ]);
    let mut driver = ReplayDriver::new();
    let mut clock = UnixNanos::new(1_000_000_000_000);
    let pushed = driver.run(&mut source, &mut queue, &mut clock);

    assert_eq!(pushed, 3);
    assert_eq!(driver.events_dropped(), 0);
    let e1 = queue.try_pop().unwrap();
    assert_eq!(e1.price.raw(), 18000);
    let e2 = queue.try_pop().unwrap();
    assert_eq!(e2.price.raw(), 18001);
    let e3 = queue.try_pop().unwrap();
    assert_eq!(e3.price.raw(), 18002);
    assert!(queue.try_pop().is_none());
    assert_eq!(source.event_count(), 3);
    assert_eq!(clock.as_nanos(), 1_000_000_002_000);
}

#[test]
fn replay_drops_on_full_buffer() {
    let mut queue = MarketEventQueue::with_capacity(4);
    let mut source =
        source_of((0..10).map(|i| make_event(1_000_000_000_000 + i, 18000)).collect());
    let mut driver = ReplayDriver::new();
    let mut clock = UnixNanos::new(1_000_000_000_000);
    driver.run(&mut source, &mut queue, &mut clock);
    assert_eq!(driver.events_pushed(), 4);
    assert_eq!(driver.events_dropped(), 6);
}

#[test]
fn nothing_to_replay_leaves_the_clock() {
    let mut queue = MarketEventQueue::with_capacity(4);
    let mut clock = UnixNanos::new(7);
    let mut driver = ReplayDriver::new();
    assert_eq!(driver.run(&mut source_of(Vec::new()), &mut queue, &mut clock), 0);
    assert_eq!(clock.as_nanos(), 7);
}

#[test]
fn dropped_events_move_the_clock_too() {
    let mut queue = MarketEventQueue::with_capacity(1);
    let mut clock = UnixNanos::new(0);
    let mut source = source_of(vec![make_event(5, 1), make_event(9, 2), make_event(8, 3)]);
    ReplayDriver::new().run(&mut source, &mut queue, &mut clock);
    assert_eq!(clock.as_nanos(), 8);
}
