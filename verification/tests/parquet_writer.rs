use futures_bmad_engine::persistence::calendar::{FIRST_YEAR, LAST_YEAR};
use futures_bmad_engine::persistence::parquet_writer::{
    days_between, event_type_to_i8, file_path_for, i8_to_event_type, i8_to_side, nanos_to_date,
    resolve_day, side_to_i8, Date, DateTracker, MarketColumns, MarketDataWriter,
    ParquetWriteError, NANOS_PER_DAY, ROW_GROUP_SIZE,
};
use futures_bmad_engine::types::{FixedPrice, MarketEvent, MarketEventType, Side, UnixNanos};

const TS: u64 = 1_776_470_400_000_000_000;

fn make_event(ts_nanos: u64, price_raw: i64, size: u32) -> MarketEvent {
    MarketEvent {
        timestamp: UnixNanos::new(ts_nanos),
        symbol_id: 0,
        sequence: 0,
        event_type: MarketEventType::Trade,
        price: FixedPrice::new(price_raw),
        size,
        side: Some(Side::Buy),
    }
}

/// Takes an event in as the recorder does: the rows of a finished day, and of a
/// full row group, are written out and noted in `files`.
fn record(
    writer: &mut MarketDataWriter,
    event: &MarketEvent,
    files: &mut Vec<(String, MarketColumns)>,
) {
    if writer.rollover_due(event) {
        flush(writer, files);
    }
    if writer.write_event(event) {
        flush(writer, files);
    }
}

fn flush(writer: &mut MarketDataWriter, files: &mut Vec<(String, MarketColumns)>) {
    if let Some(columns) = writer.pending() {
        let date = writer.file_date().unwrap();
        files.push((file_path_for("/tmp/data", "MES", date), columns));
        writer.mark_written();
    }
}

#[test]
fn file_path_generation() {
    let path = file_path_for("/tmp/data", "MES", Date::new(2026, 4, 17));
    assert_eq!(path, "/tmp/data/market/MES/2026-04-17.parquet");
}

#[test]
fn date_tracker_detects_rollover() {
    let mut tracker = DateTracker::new();
    let d1 = Date::new(2026, 4, 17);
    let d2 = Date::new(2026, 4, 18);
    assert_eq!(tracker.check_rollover(d1), Some(d1));
    assert_eq!(tracker.check_rollover(d1), None);
    assert_eq!(tracker.check_rollover(d2), Some(d2));
    assert_eq!(tracker.current_date(), Some(d2));
}

#[test]
fn write_and_read_parquet() {
    let mut writer = MarketDataWriter::new();
    let mut files = Vec::new();
    for i in 0..10 {
        record(
            &mut writer,
            &make_event(TS + i * 1_000_000, 18000 + i as i64, 10 + i as u32),
            &mut files,
        );
    }
    flush(&mut writer, &mut files);
    assert_eq!(files.len(), 1);
    assert_eq!(files[0].0, "/tmp/data/market/MES/2026-04-18.parquet");
    let rows = files[0].1.decode();
    assert_eq!(rows.len(), 10);
    assert_eq!(rows[3], make_event(TS + 3_000_000, 18003, 13));
    assert_eq!(writer.events_written(), 10);
}

#[test]
fn buffer_flushes_at_threshold() {
    let mut writer = MarketDataWriter::new();
    let mut files = Vec::new();
    for i in 0..ROW_GROUP_SIZE {
        record(&mut writer, &make_event(TS + i as u64 * 1_000_000, 18000, 10), &mut files);
    }
    assert_eq!(writer.events_written(), ROW_GROUP_SIZE as u64);
    flush(&mut writer, &mut files);
    assert_eq!(files.len(), 1);
}

#[test]
fn date_rollover_creates_new_file() {
    let mut writer = MarketDataWriter::new();
    let mut files = Vec::new();
    record(&mut writer, &make_event(TS, 18000, 10), &mut files);
    record(&mut writer, &make_event(TS + 86_400_000_000_000, 18100, 20), &mut files);
    flush(&mut writer, &mut files);
    let paths: Vec<&str> = files.iter().map(|(path, _)| path.as_str()).collect();
    assert_eq!(
        paths,
        vec![
            "/tmp/data/market/MES/2026-04-18.parquet",
            "/tmp/data/market/MES/2026-04-19.parquet"
        ]
    );
}

#[test]
fn graceful_flush_writes_remaining() {
    let mut writer = MarketDataWriter::new();
    let mut files = Vec::new();
    for i in 0..5 {
        record(&mut writer, &make_event(TS + i * 1_000_000, 18000, 10), &mut files);
    }
    assert_eq!(writer.events_written(), 0);
    flush(&mut writer, &mut files);
    assert_eq!(writer.events_written(), 5);
}

#[test]
fn writer_without_events_has_no_day() {
    let writer = MarketDataWriter::new();
    assert!(writer.pending().is_none());
    assert!(matches!(writer.file_date(), Err(ParquetWriteError::NoDate)));
}

#[test]
fn days_follow_the_calendar() {
    assert_eq!(nanos_to_date(0), Date::new(1970, 1, 1));
    assert_eq!(nanos_to_date(TS), Date::new(2026, 4, 18));
    assert_eq!(nanos_to_date(TS - 1), Date::new(2026, 4, 17));
    assert_eq!(nanos_to_date(u64::MAX), Date::new(2554, 7, 21));
    assert_eq!(resolve_day(None), Date::new(2000, 1, 1));
    assert_eq!(Date::new(2024, 2, 28).successor(), Some(Date::new(2024, 2, 29)));
    assert_eq!(Date::new(2025, 12, 31).successor(), Some(Date::new(2026, 1, 1)));
    assert_eq!(Date::new(2025, 2, 30).successor(), None);
    assert_eq!(Date::new(1900, 2, 28).successor(), Some(Date::new(1900, 3, 1)));
    assert_eq!(Date::new(2000, 2, 28).successor(), Some(Date::new(2000, 2, 29)));
    assert_eq!(Date::new(-1, 12, 31).successor(), Some(Date::new(0, 1, 1)));
    assert_eq!(Date::new(0, 2, 28).successor(), Some(Date::new(0, 2, 29)));
    assert_eq!(Date::new(LAST_YEAR, 12, 31).successor(), None);
    assert_eq!(Date::new(LAST_YEAR + 1, 1, 1).successor(), None);
    assert_eq!(
        Date::new(FIRST_YEAR, 1, 1).successor(),
        Some(Date::new(FIRST_YEAR, 1, 2))
    );
    assert_eq!(Date::new(FIRST_YEAR - 1, 12, 31).successor(), None);
    for (month, day) in [(0, 1), (13, 1), (1, 0), (1, 32), (4, 31)] {
        assert_eq!(Date::new(2025, month, day).successor(), None);
    }
    assert_eq!(
        days_between(Date::new(2026, 2, 27), Date::new(2026, 3, 1)),
        vec![Date::new(2026, 2, 27), Date::new(2026, 2, 28), Date::new(2026, 3, 1)]
    );
    assert!(days_between(Date::new(2026, 3, 1), Date::new(2026, 2, 27)).is_empty());
}

#[test]
fn codes_are_read_back() {
    for kind in [
        MarketEventType::Trade,
        MarketEventType::BidUpdate,
        MarketEventType::AskUpdate,
        MarketEventType::BookSnapshot,
    ] {
        assert_eq!(i8_to_event_type(event_type_to_i8(kind)), kind);
    }
    for side in [None, Some(Side::Buy), Some(Side::Sell)] {
        assert_eq!(i8_to_side(side_to_i8(side)), side);
    }
    assert_eq!(side_to_i8(None), -1);
    assert_eq!(i8_to_side(7), None);
}

#[test]
fn recorded_rows_lose_the_sequence_number_only() {
    let mut event = make_event(u64::MAX, i64::MIN, u32::MAX);
    event.sequence = 99;
    event.symbol_id = 5;
    event.side = None;
    let read = MarketColumns::encode(&vec![event]).decode();
    assert_eq!(read, vec![MarketEvent { sequence: 0, ..event }]);
}

#[test]
fn years_out_of_the_ordinary_are_signed() {
    let name = |year: i32| file_path_for("d", "MES", Date::new(year, 1, 2));
    assert_eq!(name(7), "d/market/MES/0007-01-02.parquet");
    assert_eq!(name(10_000), "d/market/MES/+10000-01-02.parquet");
    assert_eq!(name(-1), "d/market/MES/-0001-01-02.parquet");
    assert_eq!(name(-262_143), "d/market/MES/-262143-01-02.parquet");
}

#[test]
fn a_day_has_86400_seconds() {
    for number in [0u64, 1, 58, 59, 364, 365, 789, 11_016, 20_561, 213_502] {
        let first = nanos_to_date(number * NANOS_PER_DAY);
        assert_eq!(nanos_to_date((number + 1) * NANOS_PER_DAY - 1), first);
        assert_eq!(Some(nanos_to_date((number + 1) * NANOS_PER_DAY)), first.successor());
    }
    assert_eq!(nanos_to_date(789 * NANOS_PER_DAY), Date::new(1972, 2, 29));
    assert_eq!(nanos_to_date(11_016 * NANOS_PER_DAY), Date::new(2000, 2, 29));
}

#[test]
fn a_year_of_days() {
    let days = days_between(Date::new(2024, 1, 1), Date::new(2024, 12, 31));
    assert_eq!(days.len(), 366);
    assert_eq!(days[59], Date::new(2024, 2, 29));
    assert_eq!(days.last(), Some(&Date::new(2024, 12, 31)));
}
