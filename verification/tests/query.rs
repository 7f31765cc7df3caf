use futures_bmad_engine::persistence::journal::{
    journal_row, EngineEvent, EventJournal, JournalRow, OrderStateChangeRecord, TradeEventRecord,
};
use futures_bmad_engine::persistence::query::{
    compute_pnl_summary, compute_readiness_report, is_fill_kind, pair_trades_pnl, row_count,
    row_to_order_state_record, row_to_trade_record, side_from_i64, DecisionTrace,
    OrderStateRecord, PnlSummary, ReadinessReport, TradeRecord,
};
use futures_bmad_engine::types::{FixedPrice, Side, TradeSource, UnixNanos};

fn fill(
    ts: u64,
    decision_id: Option<u64>,
    order_id: Option<u64>,
    side: Side,
    price_qt: i64,
    size: u32,
    source: TradeSource,
    kind: &str,
) -> TradeEventRecord {
    TradeEventRecord {
        timestamp: UnixNanos::new(ts),
        decision_id,
        order_id,
        symbol_id: 1,
        side,
        price: FixedPrice::new(price_qt),
        size,
        kind: kind.to_string(),
        source,
    }
}

/// What a read gives back of a written trade.
fn stored_trade(record: TradeEventRecord) -> TradeRecord {
    match journal_row(&EngineEvent::TradeEvent(record)) {
        JournalRow::TradeEvents(row) => row_to_trade_record(row),
        other => panic!("expected a trade row, got {other:?}"),
    }
}

/// What a read gives back of a written order state.
fn stored_state(record: OrderStateChangeRecord) -> OrderStateRecord {
    match journal_row(&EngineEvent::OrderStateChange(record)) {
        JournalRow::OrderStates(row) => row_to_order_state_record(row),
        other => panic!("expected an order state row, got {other:?}"),
    }
}

fn paper_fill(ts: u64, id: u64, side: Side, price_qt: i64) -> TradeRecord {
    stored_trade(fill(ts, Some(id), Some(id), side, price_qt, 1, TradeSource::Paper, "fill"))
}

#[test]
fn pnl_summary_known_dataset() {
    let trades = vec![
        paper_fill(1, 1, Side::Buy, 100),
        paper_fill(2, 1, Side::Sell, 110),
        paper_fill(3, 2, Side::Sell, 95),
        paper_fill(4, 2, Side::Buy, 100),
        paper_fill(5, 3, Side::Buy, 100),
        paper_fill(6, 3, Side::Sell, 99),
    ];
    let s = compute_pnl_summary(&trades);
    assert_eq!(s.trade_count, 3);
    assert_eq!(s.win_count, 1);
    assert_eq!(s.loss_count, 2);
    assert_eq!(s.net_pnl.raw(), 4);
    assert_eq!(s.max_drawdown.raw(), 6);
    let win_rate = s.win_count as f64 / s.trade_count as f64;
    assert!((win_rate - 1.0 / 3.0).abs() < 1e-12);
}

#[test]
fn pnl_summary_empty_when_no_trades() {
    assert_eq!(compute_pnl_summary(&Vec::new()), PnlSummary::empty());
}

#[test]
fn a_trace_counts_trades_and_order_states() {
    let state = |ts: u64, from: &str, to: &str| {
        stored_state(OrderStateChangeRecord {
            timestamp: UnixNanos::new(ts),
            order_id: 1,
            decision_id: Some(7),
            from_state: from.into(),
            to_state: to.into(),
            source: TradeSource::Paper,
        })
    };
    let trace = DecisionTrace {
        decision_id: 7,
        trades: vec![paper_fill(1, 7, Side::Buy, 100), paper_fill(2, 7, Side::Sell, 110)],
        order_states: vec![state(0, "Idle", "Submitted"), state(1, "Submitted", "Filled")],
    };
    assert_eq!(trace.decision_id, 7);
    assert_eq!(trace.trades.len(), 2);
    assert_eq!(trace.order_states.len(), 2);
    assert_eq!(trace.total_rows(), 4);
    let empty = DecisionTrace { decision_id: 999, ..DecisionTrace::default() };
    assert_eq!(empty.total_rows(), 0);
}

#[test]
fn paper_readiness_report_known_dataset() {
    let trades = vec![
        paper_fill(1, 1, Side::Buy, 100),
        paper_fill(2, 1, Side::Sell, 110),
        paper_fill(3, 2, Side::Buy, 100),
        paper_fill(4, 2, Side::Sell, 95),
        paper_fill(5, 3, Side::Buy, 100),
        paper_fill(6, 3, Side::Sell, 97),
        paper_fill(7, 4, Side::Buy, 100),
        paper_fill(8, 4, Side::Sell, 102),
    ];
    let (r, pnls) = compute_readiness_report(&trades);
    assert_eq!(r.total_trades, 4);
    assert_eq!(r.net_pnl.raw(), 4);
    assert!(r.positive_expectancy);
    let win_rate = r.win_count as f64 / (r.win_count + r.loss_count) as f64;
    assert!((win_rate - 0.5).abs() < 1e-12);
    let profit_factor = r.gross_profit as f64 / -r.gross_loss as f64;
    assert!((profit_factor - 1.5).abs() < 1e-12);
    assert_eq!(r.max_drawdown.raw(), 8);
    assert_eq!(r.consecutive_loss_max, 2);
    assert_eq!(pnls, vec![10, -5, -3, 2]);
}

#[test]
fn readiness_minimum_threshold_predicate() {
    let r = ReadinessReport { total_trades: 500, ..ReadinessReport::empty() };
    assert!(r.meets_minimum_threshold(500));
    assert!(r.meets_minimum_threshold(100));
    assert!(!r.meets_minimum_threshold(501));
    let zero = ReadinessReport::empty();
    assert!(!zero.meets_minimum_threshold(1));
}

#[test]
fn readiness_500_trades_completes_with_finite_values() {
    let mut trades = Vec::new();
    for i in 0..500u64 {
        let exit_price: i64 = if i % 2 == 0 { 101 } else { 99 };
        trades.push(paper_fill(i * 10, i + 1, Side::Buy, 100));
        trades.push(paper_fill(i * 10 + 1, i + 1, Side::Sell, exit_price));
    }
    let (r, _) = compute_readiness_report(&trades);
    assert_eq!(r.total_trades, 500);
    assert!(r.meets_minimum_threshold(500));
    assert_eq!(r.net_pnl.raw(), 0);
    assert!(!r.positive_expectancy);
    assert_eq!((r.gross_profit, r.gross_loss), (250, -250));
}

#[test]
fn trade_record_round_trips_all_fields() {
    let t = stored_trade(fill(
        1_700_000_000_123_456_789,
        Some(42),
        Some(7),
        Side::Sell,
        i64::from(17929),
        3,
        TradeSource::Paper,
        "tp_fill",
    ));
    assert_eq!(t.timestamp.as_nanos(), 1_700_000_000_123_456_789);
    assert_eq!(t.decision_id, Some(42));
    assert_eq!(t.order_id, Some(7));
    assert_eq!(t.symbol_id, 1);
    assert_eq!(t.side, Side::Sell);
    assert_eq!(t.price.raw(), 17929);
    assert_eq!(t.size, 3);
    assert_eq!(t.kind, "tp_fill");
    assert_eq!(t.source, TradeSource::Paper);
}

#[test]
fn sender_source_override_rewrites_records() {
    let (mut paper_sender, mut paper_receiver) =
        EventJournal::channel_with_source(TradeSource::Paper);
    let (mut live_sender, mut live_receiver) = EventJournal::channel();
    let (mut replay_sender, mut replay_receiver) =
        EventJournal::channel_with_source(TradeSource::Replay);
    let r = || {
        EngineEvent::TradeEvent(fill(
            1,
            Some(1),
            Some(1),
            Side::Buy,
            100,
            1,
            TradeSource::Live,
            "fill",
        ))
    };
    assert!(paper_sender.send(r()));
    assert!(live_sender.send(r()));
    assert!(replay_sender.send(r()));

    let mut sources = Vec::new();
    for rx in [&mut paper_receiver, &mut live_receiver, &mut replay_receiver] {
        let ev = rx.try_recv_for_test().unwrap();
        match journal_row(&ev) {
            JournalRow::TradeEvents(row) => sources.push(row_to_trade_record(row).source),
            other => panic!("expected a trade row, got {other:?}"),
        }
    }
    assert_eq!(sources, vec![TradeSource::Paper, TradeSource::Live, TradeSource::Replay]);
}

#[test]
fn missing_decision_reads_as_none() {
    let t =
        stored_trade(fill(1, None, None, Side::Buy, -5, 1, TradeSource::Replay, "submit"));
    assert_eq!(t.decision_id, None);
    assert_eq!(t.order_id, None);
    assert_eq!(t.price.raw(), -5);
    assert_eq!(t.source, TradeSource::Replay);
}

#[test]
fn unknown_codes_fall_back() {
    assert_eq!(side_from_i64(0), Side::Buy);
    assert_eq!(side_from_i64(1), Side::Sell);
    assert_eq!(side_from_i64(9), Side::Sell);
    assert_eq!(TradeSource::parse("paper"), Some(TradeSource::Paper));
    assert_eq!(TradeSource::parse("Paper"), None);
    assert_eq!(row_count(-3), 0);
    assert_eq!(row_count(12), 12);
}

#[test]
fn only_fills_are_paired() {
    for kind in ["fill", "partial_fill", "tp_fill", "sl_fill", "entry_fill"] {
        assert!(is_fill_kind(kind));
    }
    assert!(!is_fill_kind("submit"));
    let mut trades = vec![paper_fill(1, 1, Side::Buy, 100), paper_fill(2, 1, Side::Sell, 110)];
    trades[1].kind = "submit".to_string();
    let (net, wins, losses, drawdown, pnls) = pair_trades_pnl(&trades);
    assert_eq!((net, wins, losses, drawdown), (0, 0, 0, 0));
    assert!(pnls.is_empty());
}

#[test]
fn legs_are_closed_first_in_first_out() {
    let sized = |ts: u64, side: Side, price: i64, size: u32| {
        stored_trade(fill(ts, Some(1), Some(1), side, price, size, TradeSource::Paper, "fill"))
    };
    let trades = vec![
        sized(1, Side::Buy, 100, 2),
        sized(2, Side::Buy, 110, 1),
        sized(3, Side::Sell, 120, 3),
    ];
    let (net, wins, losses, drawdown, pnls) = pair_trades_pnl(&trades);
    assert_eq!(pnls, vec![40, 10]);
    assert_eq!((net, wins, losses, drawdown), (50, 2, 0, 0));
}

#[test]
fn readiness_line() {
    let (r, _) = compute_readiness_report(&vec![
        paper_fill(1, 1, Side::Buy, 100),
        paper_fill(2, 1, Side::Sell, 110),
    ]);
    assert_eq!(
        r.fmt_one_line("1.000", "inf", "0.000"),
        "trades=1 net_pnl_qt=10 positive_expectancy=true win_rate=1.000 profit_factor=inf \
         max_dd_qt=0 sharpe_estimate=0.000 consecutive_loss_max=0"
    );
}

#[test]
fn order_state_rows_are_read_back() {
    let read = stored_state(OrderStateChangeRecord {
        timestamp: UnixNanos::new(1_700_000_000_000_000_000),
        order_id: 42,
        decision_id: None,
        from_state: "Submitted".into(),
        to_state: "Uncertain".into(),
        source: TradeSource::Replay,
    });
    assert_eq!(read.timestamp.as_nanos(), 1_700_000_000_000_000_000);
    assert_eq!((read.order_id, read.decision_id), (42, None));
    assert_eq!((read.from_state.as_str(), read.to_state.as_str()), ("Submitted", "Uncertain"));
    assert_eq!(read.source, TradeSource::Replay);
}

#[test]
fn a_round_trip_that_breaks_even_counts() {
    let (r, pnls) = compute_readiness_report(&vec![
        paper_fill(1, 1, Side::Buy, 100),
        paper_fill(2, 1, Side::Sell, 100),
    ]);
    assert_eq!(pnls, vec![0]);
    assert_eq!(r.total_trades, 1);
    assert_eq!(r.net_pnl.raw(), 0);
    assert!(!r.positive_expectancy);
    assert_eq!((r.win_count, r.loss_count), (0, 0));
    // Without a round trip the report is empty.
    let (r, pnls) = compute_readiness_report(&vec![paper_fill(1, 1, Side::Buy, 100)]);
    assert_eq!(r, ReadinessReport::empty());
    assert!(pnls.is_empty());
}

#[test]
fn symbols_are_paired_apart_and_other_rows_left_out() {
    let of = |ts: u64, symbol_id: u32, side: Side, price: i64| {
        let mut trade = paper_fill(ts, ts, side, price);
        trade.symbol_id = symbol_id;
        trade
    };
    let mut note = of(3, 1, Side::Sell, 500);
    note.kind = "submit".to_string();
    let mut nothing = of(4, 1, Side::Sell, 500);
    nothing.size = 0;
    let all = vec![
        of(1, 1, Side::Buy, 100),
        of(2, 2, Side::Sell, 300),
        note,
        nothing,
        of(5, 1, Side::Sell, 107),
        of(6, 2, Side::Buy, 302),
    ];
    let first = vec![of(1, 1, Side::Buy, 100), of(5, 1, Side::Sell, 107)];
    let second = vec![of(2, 2, Side::Sell, 300), of(6, 2, Side::Buy, 302)];
    let (net, wins, losses, _, pnls) = pair_trades_pnl(&all);
    assert_eq!(pnls, vec![7, -2]);
    assert_eq!((net, wins, losses), (5, 1, 1));
    assert_eq!(net, pair_trades_pnl(&first).0 + pair_trades_pnl(&second).0);
}
