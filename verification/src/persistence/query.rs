//! Reading the journal back: typed rows, round-trip profits and the statistics
//! over them.
//!
//! Fills are paired first in, first out, symbol by symbol: a fill closes the
//! oldest open legs on the other side, and what is left of it opens a leg.
use std::collections::HashMap;
use vstd::prelude::*;
use vstd::string::StringExecFns;

use super::journal::{row_of, EventModel, JournalRow, OrderStateRow, TradeRow};
use crate::arith::{
    fitting_sums_are_exact, plain_sum, plain_sum_splits, saturating_add_i64, saturating_sum,
    signed_column_round_trip, sums_fit, to_unsigned, unsigned_reading,
};
use crate::pairing::{
    close_legs, decided_pairs_are_pairs, deepest_drawdown, gross, ints, legs_after,
    drawdown_is_the_deepest_fall, figures_fit, fall, gross_adds_up_one_side, leg_pnl, leg_profit_is_exact,
    longest_losing_run, longest_losing_run_is_a_longest_block, loss_total, losing_tail,
    only_losses, one_sided, open_contracts, pairing_conserves_contracts, win_total,
    wins_and_losses_are_counted, OpenLeg, PairLedger,
};
use crate::text::{
    bool_text, dec_int, dec_nat, push_bool, push_i64, push_u64, str_eq,
};
use crate::types::{FixedPrice, Side, TradeSource, UnixNanos};

verus! {

/// A row of `trade_events`.
#[derive(Debug, Clone, PartialEq, Eq)]
pub struct TradeRecord {
    pub timestamp: UnixNanos,
    pub decision_id: Option<u64>,
    pub order_id: Option<u64>,
    pub symbol_id: u32,
    pub side: Side,
    pub price: FixedPrice,
    pub size: u32,
    pub kind: String,
    pub source: TradeSource,
}

/// A row of `order_states`.
#[derive(Debug, Clone, PartialEq, Eq)]
pub struct OrderStateRecord {
    pub timestamp: UnixNanos,
    pub order_id: u64,
    pub decision_id: Option<u64>,
    pub from_state: String,
    pub to_state: String,
    pub source: TradeSource,
}

/// Everything that the journal holds about one decision, oldest first.
#[derive(Debug, Clone)]
pub struct DecisionTrace {
    pub decision_id: u64,
    pub trades: Vec<TradeRecord>,
    pub order_states: Vec<OrderStateRecord>,
}

impl Default for DecisionTrace {
    fn default() -> (r: Self)
        ensures
            r.decision_id == 0,
            r.trades@.len() == 0,
            r.order_states@.len() == 0,
    {
        DecisionTrace { decision_id: 0, trades: Vec::new(), order_states: Vec::new() }
    }
}

impl DecisionTrace {
    /// How many rows the trace has.
    pub fn total_rows(&self) -> (r: usize)
        requires
            self.trades@.len() + self.order_states@.len() <= usize::MAX,
        ensures
            r == self.trades@.len() + self.order_states@.len(),
    {
        self.trades.len() + self.order_states.len()
    }
}

// ---------------------------------------------------------------------------
// Rows
// ---------------------------------------------------------------------------

/// The side that a number stands for.
pub open spec fn coded_side(code: int) -> Side {
    if code == 0 {
        Side::Buy
    } else {
        Side::Sell
    }
}

pub fn side_from_i64(s: i64) -> (r: Side)
    ensures
        r == coded_side(s as int),
{
    match s {
        0 => Side::Buy,
        _ => Side::Sell,
    }
}

/// A column that cannot be negative.
pub open spec fn at_least_zero(y: int) -> int {
    if y < 0 {
        0
    } else {
        y
    }
}

fn nonnegative(y: i64) -> (r: u64)
    ensures
        r == at_least_zero(y as int),
{
    if y < 0 {
        0
    } else {
        y as u64
    }
}

fn nonnegative_u32(y: i64) -> (r: u32)
    ensures
        r == at_least_zero(y as int) % 0x1_0000_0000,
{
    (nonnegative(y) % 0x1_0000_0000) as u32
}

fn nullable_number(column: Option<i64>) -> (r: Option<u64>)
    ensures
        r == (match column {
            Some(y) => Some(unsigned_reading(y as int) as u64),
            None => None,
        }),
{
    match column {
        Some(y) => Some(to_unsigned(y)),
        None => None,
    }
}

/// The source that a text names; an unknown one counts as live.
pub open spec fn source_or_live(text: Seq<char>) -> TradeSource {
    match TradeSource::named(text) {
        Some(source) => source,
        None => TradeSource::Live,
    }
}

fn read_source(text: &str) -> (r: TradeSource)
    ensures
        r == source_or_live(text@),
{
    match TradeSource::parse(text) {
        Some(source) => source,
        None => TradeSource::Live,
    }
}

/// Whether the record is what a row of `trade_events` says.
pub open spec fn trade_record_of(record: TradeRecord, row: TradeRow) -> bool {
    &&& record.timestamp.nanos == at_least_zero(row.timestamp as int)
    &&& record.decision_id == (if row.decision_id == 0 {
        None
    } else {
        Some(unsigned_reading(row.decision_id as int) as u64)
    })
    &&& record.order_id == (match row.order_id {
        Some(y) => Some(unsigned_reading(y as int) as u64),
        None => None,
    })
    &&& record.symbol_id == at_least_zero(row.symbol_id as int) % 0x1_0000_0000
    &&& record.side == coded_side(row.side as int)
    &&& record.price.quarter_ticks == row.price
    &&& record.size == at_least_zero(row.size as int) % 0x1_0000_0000
    &&& record.kind@ == row.kind@
    &&& record.source == source_or_live(row.source@)
}

/// Reads a row of `trade_events`.
pub fn row_to_trade_record(row: TradeRow) -> (r: TradeRecord)
    ensures
        trade_record_of(r, row),
{
    TradeRecord {
        timestamp: UnixNanos::new(nonnegative(row.timestamp)),
        decision_id: if row.decision_id == 0 {
            None
        } else {
            Some(to_unsigned(row.decision_id))
        },
        order_id: nullable_number(row.order_id),
        symbol_id: nonnegative_u32(row.symbol_id),
        side: side_from_i64(row.side),
        price: FixedPrice::new(row.price),
        size: nonnegative_u32(row.size),
        source: read_source(row.source.as_str()),
        kind: row.kind,
    }
}

/// Whether the record is what a row of `order_states` says.
pub open spec fn order_state_record_of(record: OrderStateRecord, row: OrderStateRow) -> bool {
    &&& record.timestamp.nanos == at_least_zero(row.timestamp as int)
    &&& record.order_id == at_least_zero(row.order_id as int)
    &&& record.decision_id == (match row.decision_id {
        Some(y) => Some(unsigned_reading(y as int) as u64),
        None => None,
    })
    &&& record.from_state@ == row.from_state@
    &&& record.to_state@ == row.to_state@
    &&& record.source == source_or_live(row.source@)
}

/// Reads a row of `order_states`.
pub fn row_to_order_state_record(row: OrderStateRow) -> (r: OrderStateRecord)
    ensures
        order_state_record_of(r, row),
{
    OrderStateRecord {
        timestamp: UnixNanos::new(nonnegative(row.timestamp)),
        order_id: nonnegative(row.order_id),
        decision_id: nullable_number(row.decision_id),
        source: read_source(row.source.as_str()),
        from_state: row.from_state,
        to_state: row.to_state,
    }
}

/// The count that the journal reports, as a count of rows.
pub fn row_count(count: i64) -> (r: u32)
    ensures
        r == at_least_zero(count as int) % 0x1_0000_0000,
{
    nonnegative_u32(count)
}

/// A trade that was written is read back as it was, as long as its time fits a
/// signed column; a decision number of zero is read back as none.
pub proof fn trade_row_round_trip(
    timestamp: UnixNanos,
    decision_id: Option<u64>,
    order: Option<u64>,
    symbol_id: u32,
    side: Side,
    price: FixedPrice,
    size: u32,
    kind: Seq<char>,
    source: TradeSource,
    row: TradeRow,
    record: TradeRecord,
)
    requires
        timestamp.nanos <= i64::MAX,
        row_of(
            JournalRow::TradeEvents(row),
            EventModel::Trade {
                timestamp,
                decision_id,
                order,
                symbol_id,
                side,
                price,
                size,
                kind,
                source,
            },
        ),
        trade_record_of(record, row),
    ensures
        record.timestamp == timestamp,
        record.decision_id == (if decision_id == Some(0u64) {
            None
        } else {
            decision_id
        }),
        record.order_id == order,
        record.symbol_id == symbol_id,
        record.side == side,
        record.price == price,
        record.size == size,
        record.kind@ == kind,
        record.source == source,
{
    source.parse_inverts_name();
    if decision_id is Some {
        signed_column_round_trip(decision_id->Some_0);
    }
    if order is Some {
        signed_column_round_trip(order->Some_0);
    }
}

/// An order state change that was written is read back as it was, as long as its
/// time and order number fit a signed column.
pub proof fn order_state_row_round_trip(
    timestamp: UnixNanos,
    order_id: u64,
    decision_id: Option<u64>,
    from_state: Seq<char>,
    to_state: Seq<char>,
    source: TradeSource,
    row: OrderStateRow,
    record: OrderStateRecord,
)
    requires
        timestamp.nanos <= i64::MAX,
        order_id <= i64::MAX,
        row_of(
            JournalRow::OrderStates(row),
            EventModel::OrderState {
                timestamp,
                order_id,
                decision_id,
                from_state,
                to_state,
                source,
            },
        ),
        order_state_record_of(record, row),
    ensures
        record.timestamp == timestamp,
        record.order_id == order_id,
        record.decision_id == decision_id,
        record.from_state@ == from_state,
        record.to_state@ == to_state,
        record.source == source,
{
    source.parse_inverts_name();
    if decision_id is Some {
        signed_column_round_trip(decision_id->Some_0);
    }
}

// ---------------------------------------------------------------------------
// Pairing
// ---------------------------------------------------------------------------

/// Whether rows of this kind are fills.
pub open spec fn fill_kind(kind: Seq<char>) -> bool {
    kind == "fill"@ || kind == "partial_fill"@ || kind == "tp_fill"@ || kind == "sl_fill"@ || kind
        == "entry_fill"@
}

pub fn is_fill_kind(kind: &str) -> (r: bool)
    ensures
        r == fill_kind(kind@),
{
    str_eq(kind, "fill") || str_eq(kind, "partial_fill") || str_eq(kind, "tp_fill") || str_eq(
        kind,
        "sl_fill",
    ) || str_eq(kind, "entry_fill")
}

/// The open legs of every symbol and the profits of every closed pair, in the
/// order in which they were closed.
pub struct Pairing {
    pub legs: Map<u32, Seq<OpenLeg>>,
    pub pnls: Seq<int>,
}

impl Pairing {
    pub open spec fn legs_of(self, symbol_id: u32) -> Seq<OpenLeg> {
        if self.legs.contains_key(symbol_id) {
            self.legs[symbol_id]
        } else {
            Seq::empty()
        }
    }

    /// The pairing after one more trade. Rows that are no fills, and empty
    /// fills, do not count.
    pub open spec fn after(self, trade: TradeRecord) -> Pairing {
        if !fill_kind(trade.kind@) || trade.size == 0 {
            self
        } else {
            let legs = self.legs_of(trade.symbol_id);
            let price = trade.price.quarter_ticks;
            Pairing {
                legs: self.legs.insert(
                    trade.symbol_id,
                    legs_after(legs, trade.side, price, trade.size),
                ),
                pnls: self.pnls + close_legs(
                    legs,
                    trade.side,
                    price as int,
                    trade.size as int,
                ).pnls,
            }
        }
    }
}

/// The pairing of the trades, taken in order.
pub open spec fn pairing(trades: Seq<TradeRecord>) -> Pairing
    decreases trades.len(),
{
    if trades.len() == 0 {
        Pairing { legs: Map::empty(), pnls: Seq::empty() }
    } else {
        pairing(trades.drop_last()).after(trades.last())
    }
}

/// The profits of the closed pairs.
pub open spec fn paired_pnls(trades: Seq<TradeRecord>) -> Seq<int> {
    pairing(trades).pnls
}

/// Pairs the fills into round trips and adds up their results: the net profit,
/// how many pairs won and lost, the deepest drawdown, and the profit of each
/// pair.
pub fn pair_trades_pnl(trades: &Vec<TradeRecord>) -> (r: (i64, u64, u64, i64, Vec<i64>))
    ensures
        ints(r.4@) == paired_pnls(trades@),
        r.0 == saturating_sum(paired_pnls(trades@)),
        r.1 == win_total(paired_pnls(trades@)),
        r.2 == loss_total(paired_pnls(trades@)),
        r.1 + r.2 <= r.4@.len(),
        r.3 == deepest_drawdown(paired_pnls(trades@)),
{
    broadcast use vstd::std_specs::hash::group_hash_axioms;

    let mut legs: HashMap<u32, Vec<OpenLeg>> = HashMap::new();
    let mut ledger = PairLedger::new();
    let mut i: usize = 0;
    assert(trades@.take(0) =~= Seq::<TradeRecord>::empty());
    while i < trades.len()
        invariant
            i <= trades@.len(),
            ledger.sound(),
            ledger@ == pairing(trades@.take(i as int)).pnls,
            forall|s: u32|
                #![trigger legs@.contains_key(s)]
                #![trigger pairing(trades@.take(i as int)).legs_of(s)]
                pairing(trades@.take(i as int)).legs_of(s) == (if legs@.contains_key(s) {
                    legs@[s]@
                } else {
                    Seq::empty()
                }),
        decreases trades@.len() - i,
    {
        broadcast use vstd::std_specs::hash::group_hash_axioms;

        let trade = &trades[i];
        let ghost before = pairing(trades@.take(i as int));
        proof {
            assert(trades@.take(i + 1).drop_last() =~= trades@.take(i as int));
            assert(trades@.take(i + 1).last() == *trade);
        }
        if is_fill_kind(trade.kind.as_str()) && trade.size != 0 {
            let ghost start = before.legs_of(trade.symbol_id);
            let mut queue: Vec<OpenLeg> = match legs.remove(&trade.symbol_id) {
                Some(queue) => queue,
                None => Vec::new(),
            };
            assert(queue@ =~= start);
            ledger.apply(&mut queue, trade.side, trade.price.raw(), trade.size);
            legs.insert(trade.symbol_id, queue);
            assert forall|s: u32| pairing(trades@.take(i + 1)).legs_of(s) == (
            if legs@.contains_key(s) {
                legs@[s]@
            } else {
                Seq::empty()
            }) by {
                let known = before.legs_of(s);
            }
        }
        i += 1;
    }
    assert(trades@.take(trades@.len() as int) =~= trades@);
    proof {
        decided_pairs_are_pairs(ledger@);
    }
    let net: i64 = ledger.net_pnl();
    let wins: u64 = ledger.wins();
    let losses: u64 = ledger.losses();
    let drawdown: i64 = ledger.max_drawdown();
    (net, wins, losses, drawdown, ledger.into_pnls())
}

// ---------------------------------------------------------------------------
// Summaries
// ---------------------------------------------------------------------------

/// Result of the trades of one source. Profits are in quarter-ticks.
#[derive(Debug, Clone, Copy, PartialEq, Eq, Structural)]
pub struct PnlSummary {
    pub net_pnl: FixedPrice,
    pub win_count: u32,
    pub loss_count: u32,
    pub max_drawdown: FixedPrice,
    /// Decided trades: wins and losses.
    pub trade_count: u32,
}

impl PnlSummary {
    /// The summary of no trades.
    pub fn empty() -> (r: Self)
        ensures
            r == PnlSummary::of(Seq::<int>::empty()),
    {
        PnlSummary {
            net_pnl: FixedPrice::new(0),
            win_count: 0,
            loss_count: 0,
            max_drawdown: FixedPrice::new(0),
            trade_count: 0,
        }
    }

    /// The summary of these pair profits.
    pub open spec fn of(pnls: Seq<int>) -> PnlSummary {
        PnlSummary {
            net_pnl: FixedPrice { quarter_ticks: saturating_sum(pnls) as i64 },
            win_count: (win_total(pnls) % 0x1_0000_0000) as u32,
            loss_count: (loss_total(pnls) % 0x1_0000_0000) as u32,
            max_drawdown: FixedPrice { quarter_ticks: deepest_drawdown(pnls) as i64 },
            trade_count: ((win_total(pnls) + loss_total(pnls)) % 0x1_0000_0000) as u32,
        }
    }
}

fn low_half(x: u64) -> (r: u32)
    ensures
        r == x % 0x1_0000_0000,
{
    (x % 0x1_0000_0000) as u32
}

/// Pairs the trades and sums them up.
pub fn compute_pnl_summary(trades: &Vec<TradeRecord>) -> (r: PnlSummary)
    ensures
        r == PnlSummary::of(paired_pnls(trades@)),
{
    let (net, wins, losses, drawdown, per_trade) = pair_trades_pnl(trades);
    assert(wins + losses <= per_trade.len());
    PnlSummary {
        net_pnl: FixedPrice::new(net),
        win_count: low_half(wins),
        loss_count: low_half(losses),
        max_drawdown: FixedPrice::new(drawdown),
        trade_count: low_half(wins + losses),
    }
}

/// What the paper trades so far say about going live. Profits are in
/// quarter-ticks.
#[derive(Debug, Clone, Copy, PartialEq, Eq, Structural)]
pub struct ReadinessReport {
    /// Round trips, those that broke even included.
    pub total_trades: u32,
    /// Whether the trades earned anything.
    pub positive_expectancy: bool,
    pub win_count: u64,
    pub loss_count: u64,
    /// Sum of the winning profits.
    pub gross_profit: i64,
    /// Sum of the losing profits; not positive.
    pub gross_loss: i64,
    pub max_drawdown: FixedPrice,
    /// The longest row of losses.
    pub consecutive_loss_max: u32,
    pub net_pnl: FixedPrice,
}

/// At most the largest `u32`.
pub open spec fn clamp_u32(x: nat) -> int {
    if x > u32::MAX {
        u32::MAX as int
    } else {
        x as int
    }
}

impl ReadinessReport {
    /// The report on no round trips.
    pub fn empty() -> (r: Self)
        ensures
            r == ReadinessReport::of(Seq::<int>::empty()),
            r == (ReadinessReport {
                total_trades: 0,
                positive_expectancy: false,
                win_count: 0,
                loss_count: 0,
                gross_profit: 0,
                gross_loss: 0,
                max_drawdown: FixedPrice { quarter_ticks: 0 },
                consecutive_loss_max: 0,
                net_pnl: FixedPrice { quarter_ticks: 0 },
            }),
    {
        ReadinessReport {
            total_trades: 0,
            positive_expectancy: false,
            win_count: 0,
            loss_count: 0,
            gross_profit: 0,
            gross_loss: 0,
            max_drawdown: FixedPrice::new(0),
            consecutive_loss_max: 0,
            net_pnl: FixedPrice::new(0),
        }
    }

    /// The report in one line. The ratios are handed in as they are to be shown.
    pub fn fmt_one_line(&self, win_rate: &str, profit_factor: &str, sharpe_estimate: &str) -> (r:
        String)
        ensures
            r@ == "trades="@ + dec_nat(self.total_trades as nat) + " net_pnl_qt="@ + dec_int(
                self.net_pnl.quarter_ticks as int,
            ) + " positive_expectancy="@ + bool_text(self.positive_expectancy) + " win_rate="@
                + win_rate@ + " profit_factor="@ + profit_factor@ + " max_dd_qt="@ + dec_int(
                self.max_drawdown.quarter_ticks as int,
            ) + " sharpe_estimate="@ + sharpe_estimate@ + " consecutive_loss_max="@ + dec_nat(
                self.consecutive_loss_max as nat,
            ),
    {
        let mut out = "trades=".to_owned();
        push_u64(&mut out, self.total_trades as u64);
        out.append(" net_pnl_qt=");
        push_i64(&mut out, self.net_pnl.raw());
        out.append(" positive_expectancy=");
        push_bool(&mut out, self.positive_expectancy);
        out.append(" win_rate=");
        out.append(win_rate);
        out.append(" profit_factor=");
        out.append(profit_factor);
        out.append(" max_dd_qt=");
        push_i64(&mut out, self.max_drawdown.raw());
        out.append(" sharpe_estimate=");
        out.append(sharpe_estimate);
        out.append(" consecutive_loss_max=");
        push_u64(&mut out, self.consecutive_loss_max as u64);
        out
    }

    /// Whether enough trades were seen.
    pub fn meets_minimum_threshold(&self, min_trades: u32) -> (r: bool)
        ensures
            r == (self.total_trades >= min_trades),
    {
        self.total_trades >= min_trades
    }

    /// The report on these pair profits.
    pub open spec fn of(pnls: Seq<int>) -> ReadinessReport {
        ReadinessReport {
            total_trades: (pnls.len() % 0x1_0000_0000) as u32,
            positive_expectancy: saturating_sum(pnls) > 0,
            win_count: win_total(pnls) as u64,
            loss_count: loss_total(pnls) as u64,
            gross_profit: gross(pnls, true) as i64,
            gross_loss: gross(pnls, false) as i64,
            max_drawdown: FixedPrice { quarter_ticks: deepest_drawdown(pnls) as i64 },
            consecutive_loss_max: clamp_u32(longest_losing_run(pnls)) as u32,
            net_pnl: FixedPrice { quarter_ticks: saturating_sum(pnls) as i64 },
        }
    }
}

fn gross_pnl(per_trade: &Vec<i64>, winning: bool) -> (r: i64)
    ensures
        r == gross(ints(per_trade@), winning),
{
    let ghost pnls = ints(per_trade@);
    let mut total: i64 = 0;
    let mut i: usize = 0;
    while i < per_trade.len()
        invariant
            i <= per_trade@.len(),
            pnls == ints(per_trade@),
            total == gross(pnls.take(i as int), winning),
        decreases per_trade@.len() - i,
    {
        let pnl: i64 = per_trade[i];
        proof {
            assert(pnls.take(i + 1).drop_last() =~= pnls.take(i as int));
            assert(pnls.take(i + 1).last() == pnl);
        }
        if (winning && pnl > 0) || (!winning && pnl < 0) {
            total = saturating_add_i64(total, pnl);
        }
        i += 1;
    }
    assert(pnls.take(pnls.len() as int) =~= pnls);
    total
}

proof fn lemma_clamped_maximum(a: nat, b: nat)
    ensures
        clamp_u32(if a > b {
            a
        } else {
            b
        }) == (if clamp_u32(a) > clamp_u32(b) {
            clamp_u32(a)
        } else {
            clamp_u32(b)
        }),
{
}

fn longest_loss_run(per_trade: &Vec<i64>) -> (r: u32)
    ensures
        r == clamp_u32(longest_losing_run(ints(per_trade@))),
{
    let ghost pnls = ints(per_trade@);
    let mut max_run: u32 = 0;
    let mut cur_run: u32 = 0;
    let mut i: usize = 0;
    while i < per_trade.len()
        invariant
            i <= per_trade@.len(),
            pnls == ints(per_trade@),
            cur_run == clamp_u32(losing_tail(pnls.take(i as int))),
            max_run == clamp_u32(longest_losing_run(pnls.take(i as int))),
        decreases per_trade@.len() - i,
    {
        let pnl: i64 = per_trade[i];
        proof {
            assert(pnls.take(i + 1).drop_last() =~= pnls.take(i as int));
            assert(pnls.take(i + 1).last() == pnl);
            lemma_clamped_maximum(
                losing_tail(pnls.take(i + 1)),
                longest_losing_run(pnls.take(i as int)),
            );
        }
        if pnl < 0 {
            cur_run = cur_run.saturating_add(1);
            if cur_run > max_run {
                max_run = cur_run;
            }
        } else {
            cur_run = 0;
        }
        i += 1;
    }
    assert(pnls.take(pnls.len() as int) =~= pnls);
    max_run
}

/// Pairs the trades and reports on them; the profit of each pair comes along.
pub fn compute_readiness_report(trades: &Vec<TradeRecord>) -> (r: (ReadinessReport, Vec<i64>))
    ensures
        r.0 == ReadinessReport::of(paired_pnls(trades@)),
        ints(r.1@) == paired_pnls(trades@),
{
    let (net, wins, losses, drawdown, per_trade) = pair_trades_pnl(trades);
    if per_trade.len() == 0 {
        assert(ints(per_trade@) =~= Seq::<int>::empty());
        return (ReadinessReport::empty(), per_trade);
    }
    let report = ReadinessReport {
        total_trades: low_half(per_trade.len() as u64),
        positive_expectancy: net > 0,
        win_count: wins,
        loss_count: losses,
        gross_profit: gross_pnl(&per_trade, true),
        gross_loss: gross_pnl(&per_trade, false),
        max_drawdown: FixedPrice::new(drawdown),
        consecutive_loss_max: longest_loss_run(&per_trade),
        net_pnl: FixedPrice::new(net),
    };
    (report, per_trade)
}

// ---------------------------------------------------------------------------
// Laws
// ---------------------------------------------------------------------------

/// The signed number of contracts that the trades moved in a symbol.
pub open spec fn traded_contracts(trades: Seq<TradeRecord>, symbol_id: u32) -> int
    decreases trades.len(),
{
    if trades.len() == 0 {
        0
    } else {
        let last = trades.last();
        traded_contracts(trades.drop_last(), symbol_id) + if fill_kind(last.kind@)
            && last.symbol_id == symbol_id {
            last.side.direction() * last.size
        } else {
            0
        }
    }
}

/// After any trades, the open legs of a symbol hold exactly what was traded in
/// that symbol; trades of other symbols do not touch them.
pub proof fn open_legs_match_trades(trades: Seq<TradeRecord>, symbol_id: u32)
    ensures
        one_sided(pairing(trades).legs_of(symbol_id)),
        open_contracts(pairing(trades).legs_of(symbol_id)) == traded_contracts(trades, symbol_id),
    decreases trades.len(),
{
    if trades.len() > 0 {
        open_legs_match_trades(trades.drop_last(), symbol_id);
        let last = trades.last();
        let earlier = pairing(trades.drop_last());
        if fill_kind(last.kind@) && last.size > 0 && last.symbol_id == symbol_id {
            pairing_conserves_contracts(
                earlier.legs_of(symbol_id),
                last.side,
                last.price.quarter_ticks,
                last.size,
            );
        }
    }
}

/// Whether a row is a fill of something.
pub open spec fn counts(trade: TradeRecord) -> bool {
    fill_kind(trade.kind@) && trade.size != 0
}

/// The rows that are fills of something.
pub open spec fn counted_rows(trades: Seq<TradeRecord>) -> Seq<TradeRecord>
    decreases trades.len(),
{
    if trades.len() == 0 {
        Seq::empty()
    } else if counts(trades.last()) {
        counted_rows(trades.drop_last()).push(trades.last())
    } else {
        counted_rows(trades.drop_last())
    }
}

/// Rows that are no fills, and empty fills, may be left out: the pairing is the
/// same without them.
pub proof fn other_rows_do_not_matter(trades: Seq<TradeRecord>)
    ensures
        pairing(counted_rows(trades)) == pairing(trades),
        paired_pnls(counted_rows(trades)) == paired_pnls(trades),
    decreases trades.len(),
{
    if trades.len() > 0 {
        let earlier = trades.drop_last();
        other_rows_do_not_matter(earlier);
        if counts(trades.last()) {
            assert(counted_rows(earlier).push(trades.last()).drop_last() =~= counted_rows(earlier));
        }
    }
}

/// The rows of one symbol.
pub open spec fn rows_of(trades: Seq<TradeRecord>, symbol_id: u32) -> Seq<TradeRecord>
    decreases trades.len(),
{
    if trades.len() == 0 {
        Seq::empty()
    } else if trades.last().symbol_id == symbol_id {
        rows_of(trades.drop_last(), symbol_id).push(trades.last())
    } else {
        rows_of(trades.drop_last(), symbol_id)
    }
}

/// The legs of a symbol come from its own trades alone.
pub proof fn legs_depend_on_own_rows(trades: Seq<TradeRecord>, symbol_id: u32)
    ensures
        pairing(trades).legs_of(symbol_id) == pairing(rows_of(trades, symbol_id)).legs_of(
            symbol_id,
        ),
    decreases trades.len(),
{
    if trades.len() > 0 {
        let earlier = trades.drop_last();
        legs_depend_on_own_rows(earlier, symbol_id);
        if trades.last().symbol_id == symbol_id {
            let own = rows_of(earlier, symbol_id);
            assert(own.push(trades.last()).drop_last() =~= own);
        }
    }
}

/// The nets of these symbols, each from its own trades alone, added up.
pub open spec fn net_by_symbol(trades: Seq<TradeRecord>, symbols: Seq<u32>) -> int
    decreases symbols.len(),
{
    if symbols.len() == 0 {
        0
    } else {
        net_by_symbol(trades, symbols.drop_last()) + saturating_sum(
            paired_pnls(rows_of(trades, symbols.last())),
        )
    }
}

/// The same without clamping.
spec fn plain_by_symbol(trades: Seq<TradeRecord>, symbols: Seq<u32>) -> int
    decreases symbols.len(),
{
    if symbols.len() == 0 {
        0
    } else {
        plain_by_symbol(trades, symbols.drop_last()) + plain_sum(
            paired_pnls(rows_of(trades, symbols.last())),
        )
    }
}

/// What the last trade adds to the profits.
spec fn last_gain(trades: Seq<TradeRecord>) -> int {
    plain_sum(paired_pnls(trades)) - plain_sum(paired_pnls(trades.drop_last()))
}

proof fn lemma_gain_of_symbol(trades: Seq<TradeRecord>, symbol_id: u32)
    requires
        trades.len() > 0,
    ensures
        plain_sum(paired_pnls(rows_of(trades, symbol_id))) == plain_sum(
            paired_pnls(rows_of(trades.drop_last(), symbol_id)),
        ) + if trades.last().symbol_id == symbol_id {
            last_gain(trades)
        } else {
            0
        },
{
    let earlier = trades.drop_last();
    let last = trades.last();
    if last.symbol_id == symbol_id {
        let own = rows_of(earlier, symbol_id);
        assert(own.push(last).drop_last() =~= own);
        if counts(last) {
            legs_depend_on_own_rows(earlier, symbol_id);
            let gained = close_legs(
                pairing(earlier).legs_of(symbol_id),
                last.side,
                last.price.quarter_ticks as int,
                last.size as int,
            ).pnls;
            plain_sum_splits(paired_pnls(earlier), gained);
            plain_sum_splits(paired_pnls(own), gained);
        }
    }
}

proof fn lemma_gain_by_symbol(trades: Seq<TradeRecord>, symbols: Seq<u32>)
    requires
        trades.len() > 0,
        symbols.no_duplicates(),
    ensures
        plain_by_symbol(trades, symbols) == plain_by_symbol(trades.drop_last(), symbols)
            + if symbols.contains(trades.last().symbol_id) {
            last_gain(trades)
        } else {
            0
        },
    decreases symbols.len(),
{
    if symbols.len() > 0 {
        let fewer = symbols.drop_last();
        let traded = trades.last().symbol_id;
        assert(fewer.no_duplicates());
        lemma_gain_by_symbol(trades, fewer);
        lemma_gain_of_symbol(trades, symbols.last());
        if fewer.contains(traded) {
            let k = choose|k: int| 0 <= k < fewer.len() && fewer[k] == traded;
            assert(symbols[k] == traded);
            assert(symbols[symbols.len() - 1] != symbols[k]);
        } else if symbols.contains(traded) {
            let k = choose|k: int| 0 <= k < symbols.len() && symbols[k] == traded;
            assert(k == symbols.len() - 1) by {
                if k < symbols.len() - 1 {
                    assert(fewer[k] == traded);
                }
            }
        } else {
            assert(symbols[symbols.len() - 1] != traded);
        }
    }
}

proof fn lemma_plain_by_symbol(trades: Seq<TradeRecord>, symbols: Seq<u32>)
    requires
        symbols.no_duplicates(),
        forall|i: int| 0 <= i < trades.len() ==> symbols.contains((#[trigger] trades[i]).symbol_id),
    ensures
        plain_sum(paired_pnls(trades)) == plain_by_symbol(trades, symbols),
    decreases trades.len(),
{
    if trades.len() == 0 {
        lemma_nothing_by_symbol(trades, symbols);
    } else {
        let earlier = trades.drop_last();
        assert forall|i: int| 0 <= i < earlier.len() implies symbols.contains(
            (#[trigger] earlier[i]).symbol_id,
        ) by {
            assert(earlier[i] == trades[i]);
        }
        lemma_plain_by_symbol(earlier, symbols);
        lemma_gain_by_symbol(trades, symbols);
        assert(trades[trades.len() - 1] == trades.last());
    }
}

proof fn lemma_nothing_by_symbol(trades: Seq<TradeRecord>, symbols: Seq<u32>)
    requires
        trades.len() == 0,
    ensures
        plain_by_symbol(trades, symbols) == 0,
    decreases symbols.len(),
{
    if symbols.len() > 0 {
        lemma_nothing_by_symbol(trades, symbols.drop_last());
    }
}

proof fn lemma_unclamped_by_symbol(trades: Seq<TradeRecord>, symbols: Seq<u32>)
    requires
        forall|i: int|
            0 <= i < symbols.len() ==> sums_fit(
                paired_pnls(rows_of(trades, #[trigger] symbols[i])),
            ),
    ensures
        net_by_symbol(trades, symbols) == plain_by_symbol(trades, symbols),
    decreases symbols.len(),
{
    if symbols.len() > 0 {
        let fewer = symbols.drop_last();
        assert forall|i: int| 0 <= i < fewer.len() implies sums_fit(
            paired_pnls(rows_of(trades, #[trigger] fewer[i])),
        ) by {
            assert(fewer[i] == symbols[i]);
        }
        lemma_unclamped_by_symbol(trades, fewer);
        assert(symbols[symbols.len() - 1] == symbols.last());
        fitting_sums_are_exact(paired_pnls(rows_of(trades, symbols.last())));
    }
}

/// Symbols are never paired with each other: the net of all trades is the sum of
/// the nets of the symbols, each from its own trades alone. `symbols` lists every
/// traded symbol once; no sum is clamped on the way.
pub proof fn net_is_the_sum_over_symbols(trades: Seq<TradeRecord>, symbols: Seq<u32>)
    requires
        symbols.no_duplicates(),
        forall|i: int| 0 <= i < trades.len() ==> symbols.contains((#[trigger] trades[i]).symbol_id),
        sums_fit(paired_pnls(trades)),
        forall|i: int|
            0 <= i < symbols.len() ==> sums_fit(
                paired_pnls(rows_of(trades, #[trigger] symbols[i])),
            ),
    ensures
        saturating_sum(paired_pnls(trades)) == net_by_symbol(trades, symbols),
        saturating_sum(paired_pnls(trades)) == plain_sum(paired_pnls(trades)),
{
    lemma_plain_by_symbol(trades, symbols);
    lemma_unclamped_by_symbol(trades, symbols);
    fitting_sums_are_exact(paired_pnls(trades));
}

/// Which rows are fills: those of these five kinds.
pub proof fn fills_are_of_five_kinds(kind: Seq<char>)
    ensures
        fill_kind(kind) <==> seq![
            "fill"@,
            "partial_fill"@,
            "tp_fill"@,
            "sl_fill"@,
            "entry_fill"@,
        ].contains(kind),
{
    let kinds = seq!["fill"@, "partial_fill"@, "tp_fill"@, "sl_fill"@, "entry_fill"@];
    assert(kinds[0] == "fill"@ && kinds[1] == "partial_fill"@ && kinds[2] == "tp_fill"@ && kinds[3]
        == "sl_fill"@ && kinds[4] == "entry_fill"@);
}

/// The readiness report in full. Every round trip is counted, as a win above zero
/// and as a loss below; each side is added up for itself; the longest row of
/// losses is that of a block of adjacent losses, and no such block is longer; the
/// drawdown is the deepest fall; and the trades earned something where their net
/// is above zero.
pub proof fn readiness_report_in_full(pnls: Seq<int>)
    requires
        pnls.len() <= u32::MAX,
    ensures
        ({
            let report = ReadinessReport::of(pnls);
            let run = report.consecutive_loss_max as int;
            &&& report.total_trades == pnls.len()
            &&& report.win_count == pnls.filter(|p: int| p > 0).len()
            &&& report.loss_count == pnls.filter(|p: int| p < 0).len()
            &&& report.net_pnl.quarter_ticks == saturating_sum(pnls)
            &&& report.positive_expectancy <==> report.net_pnl.quarter_ticks > 0
            &&& report.gross_profit == saturating_sum(pnls.filter(|p: int| p > 0))
            &&& report.gross_loss == saturating_sum(pnls.filter(|p: int| p < 0))
            &&& exists|from: int|
                0 <= from && from + run <= pnls.len() && #[trigger] only_losses(
                    pnls,
                    from,
                    from + run,
                )
            &&& forall|from: int, to: int|
                0 <= from <= to <= pnls.len() && #[trigger] only_losses(pnls, from, to) ==> to
                    - from <= run
            &&& forall|i: int, j: int|
                0 <= i <= j <= pnls.len() ==> #[trigger] fall(pnls, i, j)
                    <= report.max_drawdown.quarter_ticks
            &&& exists|i: int, j: int|
                0 <= i <= j <= pnls.len() && #[trigger] fall(pnls, i, j)
                    == report.max_drawdown.quarter_ticks
        }),
{
    figures_fit(pnls);
    wins_and_losses_are_counted(pnls);
    gross_adds_up_one_side(pnls);
    longest_losing_run_is_a_longest_block(pnls);
    drawdown_is_the_deepest_fall(pnls);
    decided_pairs_are_pairs(pnls);
    let run = longest_losing_run(pnls) as int;
    let from = choose|from: int|
        0 <= from && from + longest_losing_run(pnls) <= pnls.len() && #[trigger] only_losses(
            pnls,
            from,
            from + longest_losing_run(pnls),
        );
    let report = ReadinessReport::of(pnls);
    assert(report.consecutive_loss_max == run);
    assert(only_losses(pnls, from, from + report.consecutive_loss_max as int));
    assert(report.max_drawdown.quarter_ticks == deepest_drawdown(pnls));
    let (i, j) = choose|i: int, j: int|
        0 <= i <= j <= pnls.len() && #[trigger] fall(pnls, i, j) == deepest_drawdown(pnls);
    assert(fall(pnls, i, j) == report.max_drawdown.quarter_ticks);
}

/// The profit summary in full: the same figures as far as it holds them, with
/// every decided round trip counted as a trade.
pub proof fn pnl_summary_in_full(pnls: Seq<int>)
    requires
        pnls.len() <= u32::MAX,
    ensures
        ({
            let summary = PnlSummary::of(pnls);
            &&& summary.net_pnl.quarter_ticks == saturating_sum(pnls)
            &&& summary.win_count == pnls.filter(|p: int| p > 0).len()
            &&& summary.loss_count == pnls.filter(|p: int| p < 0).len()
            &&& summary.trade_count == summary.win_count + summary.loss_count
            &&& forall|i: int, j: int|
                0 <= i <= j <= pnls.len() ==> #[trigger] fall(pnls, i, j)
                    <= summary.max_drawdown.quarter_ticks
            &&& exists|i: int, j: int|
                0 <= i <= j <= pnls.len() && #[trigger] fall(pnls, i, j)
                    == summary.max_drawdown.quarter_ticks
        }),
{
    figures_fit(pnls);
    wins_and_losses_are_counted(pnls);
    drawdown_is_the_deepest_fall(pnls);
    decided_pairs_are_pairs(pnls);
}

/// A round trip brings the way from its entry to its exit for each contract: up
/// where it was bought first, down where it was sold first. Nothing is open in
/// the symbol before it, and nothing after.
pub proof fn a_round_trip_brings_its_way(
    trades: Seq<TradeRecord>,
    entry: TradeRecord,
    exit: TradeRecord,
)
    requires
        pairing(trades).legs_of(entry.symbol_id).len() == 0,
        fill_kind(entry.kind@),
        fill_kind(exit.kind@),
        entry.symbol_id == exit.symbol_id,
        entry.side != exit.side,
        entry.size == exit.size,
        entry.size > 0,
        ({
            let way = exit.price.quarter_ticks - entry.price.quarter_ticks;
            i64::MIN < way <= i64::MAX && i64::MIN < way * entry.size <= i64::MAX
        }),
    ensures
        ({
            let way = exit.price.quarter_ticks - entry.price.quarter_ticks;
            let after = pairing(trades.push(entry).push(exit));
            &&& after.legs_of(entry.symbol_id).len() == 0
            &&& entry.side is Buy ==> after.pnls == pairing(trades).pnls.push(way * entry.size)
            &&& entry.side is Sell ==> after.pnls == pairing(trades).pnls.push(
                -(way * entry.size),
            )
        }),
{
    let before = pairing(trades);
    let opened = trades.push(entry);
    let closed = opened.push(exit);
    assert(opened.drop_last() =~= trades);
    assert(closed.drop_last() =~= opened);
    let leg = OpenLeg {
        side: entry.side,
        qty: entry.size,
        price_qt: entry.price.quarter_ticks,
    };
    let none = before.legs_of(entry.symbol_id);
    assert(none =~= Seq::<OpenLeg>::empty());
    let first = close_legs(
        none,
        entry.side,
        entry.price.quarter_ticks as int,
        entry.size as int,
    );
    assert(first.legs == none && first.pnls =~= Seq::<int>::empty());
    assert(pairing(opened).pnls =~= before.pnls);
    assert(pairing(opened).legs_of(entry.symbol_id) =~= seq![leg]);
    let legs = seq![leg];
    let price = exit.price.quarter_ticks as int;
    assert(legs.drop_first() =~= Seq::<OpenLeg>::empty());
    let inner = close_legs(legs.drop_first(), exit.side, price, exit.size - leg.qty);
    assert(inner.pnls =~= Seq::<int>::empty() && inner.legs.len() == 0);
    let second = close_legs(legs, exit.side, price, exit.size as int);
    assert(second.pnls =~= seq![leg_pnl(leg, price, leg.qty as int)]);
    let way = exit.price.quarter_ticks - entry.price.quarter_ticks;
    assert((entry.price.quarter_ticks - exit.price.quarter_ticks) * entry.size == -(way
        * entry.size)) by (nonlinear_arith)
        requires
            way == exit.price.quarter_ticks - entry.price.quarter_ticks,
    ;
    leg_profit_is_exact(leg, exit.price.quarter_ticks, exit.size);
    assert(pairing(closed).pnls =~= before.pnls.push(leg_pnl(leg, price, leg.qty as int)));
}

/// A row of trades is read as it stands: its numbers are those of the record, a side
/// of 0 is a purchase and any other a sale, a decision of 0 is none, and a source
/// that is not known counts as live.
pub proof fn trade_rows_are_read_as_they_stand(record: TradeRecord, row: TradeRow)
    requires
        trade_record_of(record, row),
    ensures
        row.timestamp >= 0 ==> record.timestamp.nanos == row.timestamp,
        row.timestamp < 0 ==> record.timestamp.nanos == 0,
        record.decision_id is None <==> row.decision_id == 0,
        row.decision_id > 0 ==> record.decision_id == Some(row.decision_id as u64),
        record.order_id is None <==> row.order_id is None,
        row.order_id matches Some(id) ==> (id >= 0 ==> record.order_id == Some(id as u64)),
        0 <= row.symbol_id <= u32::MAX ==> record.symbol_id == row.symbol_id,
        record.side == Side::Buy <==> row.side == 0,
        record.side == Side::Sell <==> row.side != 0,
        record.price.quarter_ticks == row.price,
        0 <= row.size <= u32::MAX ==> record.size == row.size,
        row.size < 0 ==> record.size == 0,
        record.kind@ == row.kind@,
        record.source == TradeSource::Paper <==> row.source@ == "paper"@,
        record.source == TradeSource::Replay <==> row.source@ == "replay"@,
        record.source == TradeSource::Live <==> row.source@ != "paper"@ && row.source@ != "replay"@,
{
    crate::types::sources_are_told_apart(TradeSource::Live, row.source@);
    crate::types::sources_are_told_apart(TradeSource::Paper, row.source@);
    crate::types::sources_are_told_apart(TradeSource::Replay, row.source@);
}

/// A row of order states is read as it stands.
pub proof fn order_state_rows_are_read_as_they_stand(record: OrderStateRecord, row: OrderStateRow)
    requires
        order_state_record_of(record, row),
    ensures
        row.timestamp >= 0 ==> record.timestamp.nanos == row.timestamp,
        row.order_id >= 0 ==> record.order_id == row.order_id,
        record.decision_id is None <==> row.decision_id is None,
        row.decision_id matches Some(id) ==> (id >= 0 ==> record.decision_id == Some(id as u64)),
        record.from_state@ == row.from_state@,
        record.to_state@ == row.to_state@,
        record.source == TradeSource::Paper <==> row.source@ == "paper"@,
        record.source == TradeSource::Replay <==> row.source@ == "replay"@,
        record.source == TradeSource::Live <==> row.source@ != "paper"@ && row.source@ != "replay"@,
{
    crate::types::sources_are_told_apart(TradeSource::Live, row.source@);
    crate::types::sources_are_told_apart(TradeSource::Paper, row.source@);
    crate::types::sources_are_told_apart(TradeSource::Replay, row.source@);
}

} // verus!
