use futures_bmad_engine::data::data_source::DataSource;
use futures_bmad_engine::data::multi_day_source::{MultiDayDataSource, SourceStep};
use futures_bmad_engine::data::parquet_source::ParquetDataSource;
use futures_bmad_engine::persistence::parquet_writer::{recording_paths, Date, MarketColumns};
use futures_bmad_engine::replay::data_source::{
    validate_schema, ColumnInfo, ColumnType, ParquetReplaySource, SchemaError,
};
use futures_bmad_engine::replay::recordings::{
    comes_before, is_recording_name, recordings_in_order,
};
use futures_bmad_engine::types::{FixedPrice, MarketEvent, MarketEventType, Side, UnixNanos};

const TS0: u64 = 1_776_470_400_000_000_000;
const DAY: u64 = 86_400_000_000_000;

fn make_event(ts: u64, price: i64, size: u32) -> MarketEvent {
    MarketEvent {
        timestamp: UnixNanos::new(ts),
        symbol_id: 0,
        sequence: 0,
        event_type: MarketEventType::Trade,
        price: FixedPrice::new(price),
        size,
        side: Some(Side::Buy),
    }
}

fn file_of(events: &[MarketEvent]) -> ParquetDataSource {
    let mut source = ParquetDataSource::new();
    source.add_batch(Some(MarketColumns::encode(&events.to_vec())));
    source
}

/// The next event of a sequence of files; a missing file cannot be opened.
fn next_of_days(
    source: &mut MultiDayDataSource,
    files: &[Option<Vec<MarketEvent>>],
) -> Option<MarketEvent> {
    loop {
        match source.next_step() {
            SourceStep::Event(event) => return Some(event),
            SourceStep::OpenFile(index) => match &files[index] {
                Some(events) => source.file_opened(file_of(events)),
                None => source.file_failed(),
            },
            SourceStep::Done => return None,
        }
    }
}

fn next_of_replay(
    source: &mut ParquetReplaySource,
    files: &[Vec<MarketEvent>],
) -> Option<MarketEvent> {
    loop {
        match source.next_step() {
            SourceStep::Event(event) => return Some(event),
            SourceStep::OpenFile(index) => source.file_opened(file_of(&files[index])),
            SourceStep::Done => return None,
        }
    }
}

fn column(name: &str, data_type: ColumnType) -> ColumnInfo {
    ColumnInfo { name: name.to_string(), data_type }
}

#[test]
fn read_own_format_roundtrip() {
    let events: Vec<MarketEvent> = (0..10)
        .map(|i| make_event(TS0 + i * 1_000_000, 18000 + i as i64, 10 + i as u32))
        .collect();
    let mut source = file_of(&events);
    for (i, expected) in events.iter().enumerate() {
        let actual = source.next_event().expect(&format!("event {i}"));
        assert_eq!(actual.timestamp, expected.timestamp);
        assert_eq!(actual.price.raw(), expected.price.raw());
        assert_eq!(actual.size, expected.size);
    }
    assert!(source.next_event().is_none());
    assert_eq!(source.event_count(), 10);
}

#[test]
fn reset_replays_from_start() {
    let mut source = file_of(&[make_event(TS0, 18000, 10)]);
    assert!(source.next_event().is_some());
    assert!(source.next_event().is_none());
    source.reset();
    assert!(source.next_event().is_some());
}

#[test]
fn unreadable_batches_are_skipped() {
    let mut source = file_of(&[make_event(TS0, 1, 1)]);
    source.add_batch(None);
    source.add_batch(Some(MarketColumns::encode(&vec![make_event(TS0, 2, 1)])));
    assert_eq!(source.skipped(), 1);
    assert_eq!(source.next_event().unwrap().price.raw(), 1);
    assert_eq!(source.next_event().unwrap().price.raw(), 2);
    assert!(source.next_event().is_none());
}

#[test]
fn multi_day_iterates_chronologically() {
    let files = [
        Some(vec![make_event(TS0, 18000, 10), make_event(TS0 + 1_000_000, 18001, 10)]),
        Some(vec![make_event(TS0 + DAY, 18100, 10)]),
    ];
    let mut source = MultiDayDataSource::new(2);
    let e1 = next_of_days(&mut source, &files).unwrap();
    assert_eq!(e1.price.raw(), 18000);
    let e2 = next_of_days(&mut source, &files).unwrap();
    assert_eq!(e2.price.raw(), 18001);
    let e3 = next_of_days(&mut source, &files).unwrap();
    assert_eq!(e3.price.raw(), 18100);
    assert!(next_of_days(&mut source, &files).is_none());
    assert_eq!(source.event_count(), 3);
    assert_eq!(source.files_processed(), 2);
}

#[test]
fn skips_missing_dates() {
    let files = [None, Some(vec![make_event(TS0 + DAY, 18100, 10)])];
    let mut source = MultiDayDataSource::new(2);
    let e = next_of_days(&mut source, &files).unwrap();
    assert_eq!(e.price.raw(), 18100);
    assert!(next_of_days(&mut source, &files).is_none());
    assert_eq!(source.files_processed(), 1);
    assert_eq!((source.files_skipped(), source.file_count()), (1, 2));
    source.reset();
    assert_eq!(source.event_count(), 0);
    assert!(next_of_days(&mut source, &files).is_some());
}

#[test]
fn single_file_iterates_in_order() {
    let files = [(0..5u64)
        .map(|i| make_event(TS0 + i * 1_000_000, 18_000 + i as i64, 10))
        .collect::<Vec<_>>()];
    let mut src = ParquetReplaySource::open(1);
    for i in 0..5 {
        let ev = next_of_replay(&mut src, &files).unwrap();
        assert_eq!(ev.price.raw(), 18_000 + i as i64);
    }
    assert!(next_of_replay(&mut src, &files).is_none());
    assert_eq!(src.events_emitted(), 5);
    assert_eq!(src.file_count(), 1);
}

#[test]
fn directory_iterates_files_chronologically() {
    let files = [
        vec![make_event(TS0, 18_000, 10), make_event(TS0 + 1_000_000, 18_001, 10)],
        vec![make_event(TS0 + DAY, 18_100, 10)],
    ];
    let mut src = ParquetReplaySource::open(2);
    assert_eq!(src.file_count(), 2);
    let e1 = next_of_replay(&mut src, &files).unwrap();
    assert_eq!(e1.price.raw(), 18_000);
    let e2 = next_of_replay(&mut src, &files).unwrap();
    assert_eq!(e2.price.raw(), 18_001);
    let e3 = next_of_replay(&mut src, &files).unwrap();
    assert_eq!(e3.price.raw(), 18_100);
    assert!(next_of_replay(&mut src, &files).is_none());
}

#[test]
fn open_rejects_file_with_wrong_schema() {
    let err = validate_schema(&vec![column("timestamp", ColumnType::Int64)]).unwrap_err();
    assert!(
        matches!(err, SchemaError::MissingColumn(ref c) if c == "price"),
        "unexpected error: {err:?}"
    );
}

#[test]
fn open_rejects_file_with_wrong_column_type() {
    let mut columns = vec![
        column("timestamp", ColumnType::Int64),
        column("price", ColumnType::Other),
        column("size", ColumnType::UInt32),
        column("side", ColumnType::Int8),
        column("event_type", ColumnType::Int8),
        column("symbol_id", ColumnType::UInt32),
    ];
    let err = validate_schema(&columns).unwrap_err();
    assert!(
        matches!(err, SchemaError::WrongColumnType(ref c, _, _) if c == "price"),
        "unexpected error: {err:?}"
    );
    columns[1].data_type = ColumnType::Int64;
    columns.reverse();
    columns.push(column("extra", ColumnType::Other));
    assert!(validate_schema(&columns).is_ok());
}

#[test]
fn reset_rewinds_iteration() {
    let files = [vec![make_event(TS0, 18_000, 10)]];
    let mut src = ParquetReplaySource::open(1);
    assert!(next_of_replay(&mut src, &files).is_some());
    assert!(next_of_replay(&mut src, &files).is_none());
    src.reset();
    assert_eq!(src.events_emitted(), 0);
    assert!(next_of_replay(&mut src, &files).is_some());
}

#[test]
fn recordings_are_replayed_in_the_order_of_their_names() {
    let names = [
        "2026-04-19.parquet",
        "notes.txt",
        "2025-12-31.parquet",
        ".parquet",
        "2026-04-18.parquet",
        "2026-04-18.parquet.tmp",
    ];
    let ordered = recordings_in_order(names.iter().map(|n| n.to_string()).collect());
    assert_eq!(
        ordered,
        vec!["2025-12-31.parquet", "2026-04-18.parquet", "2026-04-19.parquet"]
    );
    assert!(recordings_in_order(Vec::new()).is_empty());
}

#[test]
fn dictionary_order() {
    for (a, b) in [("", "a"), ("a", "b"), ("a", "aa"), ("Z", "a"), ("ab", "b"), ("é", "ü")] {
        assert!(comes_before(a, b) && !comes_before(b, a), "{a} {b}");
        assert!(a < b);
    }
    assert!(!comes_before("same", "same"));
    assert!(is_recording_name("x.parquet"));
    assert!(!is_recording_name("xparquet"));
}

#[test]
fn recordings_of_a_range_of_days() {
    assert_eq!(
        recording_paths("/data/", "MES", Date::new(2026, 2, 28), Date::new(2026, 3, 1)),
        vec!["/data/market/MES/2026-02-28.parquet", "/data/market/MES/2026-03-01.parquet"]
    );
}

#[test]
fn events_are_counted_from_the_start() {
    let mut source = file_of(&[make_event(TS0, 1, 1), make_event(TS0 + 1, 2, 1)]);
    assert_eq!(source.event_count(), 0);
    source.next_event();
    assert_eq!(source.event_count(), 1);
    source.reset();
    assert_eq!(source.event_count(), 0);
}
