//! A replay: recorded events through the same queues as live ones, orders
//! answered by simulated fills, and the results at the end.
//!
//! The clock follows the events and never runs backwards. A replay can be
//! captured, so that two runs over one recording can be compared.
use vstd::prelude::*;
use vstd::string::StringExecFns;

use super::bars::BarBuilder;
use super::data_source::ParquetReplaySource;
use super::determinism::{agree, no_mismatch_means_agreement, tier1_of, tier3_of};
use super::fill_sim::FillModel;
use super::pipes::{
    every_waiting_order_is_answered, fed_events_are_not_lost, lemma_orders_filled_frame,
    lemma_orders_filled_queues, PipesModel, SimulationPipes,
};
use super::stats::{StatsModel, TradeStats};
use crate::arith::{fitting_sums_are_exact, plain_sum, saturating_sum, sums_fit};
use crate::data::data_source::DataSource;
use crate::data::multi_day_source::{events_of, every_file_is_played, MultiDayModel, SourceStep};
use crate::pairing::{
    decided_pairs_are_pairs, deepest_drawdown, drawdown_is_the_deepest_fall, fall, figures_fit,
    ints, loss_total, win_total, wins_and_losses_are_counted,
};
use crate::persistence::journal::{
    EngineEvent, EventModel, JournalLog, JournalSender, SystemEventRecord,
};
use crate::queue::MARKET_EVENT_QUEUE_CAPACITY;
use crate::regime::threshold::{
    DetectorModel, Ratio, ThresholdRegimeConfig, ThresholdRegimeDetector,
};
use crate::text::{dec_int, dec_nat, push_i64, push_u64};
use crate::types::{
    FillEvent, MarketEvent, OrderBook, OrderEvent, RegimeState, TradeSource, UnixNanos,
};

verus! {

/// Parameters of the signals that accompany a captured replay.
#[derive(Debug, Clone, Copy, PartialEq, Eq, Structural)]
pub struct SignalInstrumentationConfig {
    pub obi_warmup: u64,
    pub max_spread_qt: i64,
    pub vpin_bucket_size: u64,
    pub vpin_num_buckets: usize,
}

impl Default for SignalInstrumentationConfig {
    fn default() -> (r: Self)
        ensures
            r == (SignalInstrumentationConfig {
                obi_warmup: 10,
                max_spread_qt: 16,
                vpin_bucket_size: 100,
                vpin_num_buckets: 10,
            }),
    {
        SignalInstrumentationConfig {
            obi_warmup: 10,
            max_spread_qt: 16,
            vpin_bucket_size: 100,
            vpin_num_buckets: 10,
        }
    }
}

/// The regime detector of a captured replay and the length of its bars.
#[derive(Debug, Clone, Copy, PartialEq, Eq, Structural)]
pub struct RegimeInstrumentationConfig {
    pub detector: ThresholdRegimeConfig,
    pub bar_interval_nanos: u64,
}

impl Default for RegimeInstrumentationConfig {
    fn default() -> (r: Self)
        ensures
            r.bar_interval_nanos == 60_000_000_000,
            r.detector == (ThresholdRegimeConfig {
                warmup_period: 30,
                bar_interval_minutes: 1,
                atr_period: 14,
                atr_trending_threshold: Ratio { numerator: 4, denominator: 1 },
                atr_volatile_threshold: Ratio { numerator: 16, denominator: 1 },
                directional_persistence_threshold: Ratio { numerator: 7, denominator: 10 },
                range_body_ratio_threshold: Ratio { numerator: 3, denominator: 1 },
                unknown_blocks_trading: true,
            }),
    {
        RegimeInstrumentationConfig {
            detector: ThresholdRegimeConfig::default(),
            bar_interval_nanos: 60_000_000_000,
        }
    }
}

/// Settings of a replay.
#[derive(Debug, Clone)]
pub struct ReplayConfig {
    /// Where the recording is.
    pub parquet_path: String,
    pub fill_model: FillModel,
    /// Whether the summary is to be logged.
    pub summary_output: bool,
    pub market_event_capacity: Option<usize>,
    /// A captured replay notes every so many events.
    pub snapshot_interval: Option<u64>,
    pub signal_instrumentation: SignalInstrumentationConfig,
    pub regime_instrumentation: Option<RegimeInstrumentationConfig>,
}

impl ReplayConfig {
    pub fn new(parquet_path: String) -> (r: Self)
        ensures
            r == (ReplayConfig {
                parquet_path,
                fill_model: FillModel::ImmediateAtMarket,
                summary_output: true,
                market_event_capacity: None,
                snapshot_interval: None,
                signal_instrumentation: SignalInstrumentationConfig {
                    obi_warmup: 10,
                    max_spread_qt: 16,
                    vpin_bucket_size: 100,
                    vpin_num_buckets: 10,
                },
                regime_instrumentation: None,
            }),
    {
        ReplayConfig {
            parquet_path,
            fill_model: FillModel::ImmediateAtMarket,
            summary_output: true,
            market_event_capacity: None,
            snapshot_interval: None,
            signal_instrumentation: SignalInstrumentationConfig::default(),
            regime_instrumentation: None,
        }
    }

    /// The capacity of the market data queue.
    pub open spec fn market_capacity(self) -> usize {
        match self.market_event_capacity {
            Some(capacity) => capacity,
            None => MARKET_EVENT_QUEUE_CAPACITY,
        }
    }
}

/// Results of a replay. Profits are in quarter-ticks.
#[derive(Debug, Clone, Copy, PartialEq, Eq, Structural)]
pub struct ReplaySummary {
    pub total_events: u64,
    pub total_trades: u64,
    pub net_pnl_qt: i64,
    pub wins: u64,
    pub losses: u64,
    pub max_drawdown_qt: i64,
    /// From the first to the last recorded time.
    pub recorded_duration_nanos: u64,
}

impl ReplaySummary {
    /// The summary in one line. What is no whole number is handed in as it is to
    /// be shown.
    pub fn fmt_one_line(
        &self,
        win_rate_pct: &str,
        wall_ms: u64,
        recorded_secs: &str,
        speed_multiple: &str,
    ) -> (r: String)
        ensures
            r@ == "events="@ + dec_nat(self.total_events as nat) + " trades="@ + dec_nat(
                self.total_trades as nat,
            ) + " net_pnl_qt="@ + dec_int(self.net_pnl_qt as int) + " win_rate="@ + win_rate_pct@
                + "% max_dd_qt="@ + dec_int(self.max_drawdown_qt as int) + " wall_ms="@ + dec_nat(
                wall_ms as nat,
            ) + " recorded_s="@ + recorded_secs@ + " speed="@ + speed_multiple@ + "x"@,
    {
        let mut out = "events=".to_owned();
        push_u64(&mut out, self.total_events);
        out.append(" trades=");
        push_u64(&mut out, self.total_trades);
        out.append(" net_pnl_qt=");
        push_i64(&mut out, self.net_pnl_qt);
        out.append(" win_rate=");
        out.append(win_rate_pct);
        out.append("% max_dd_qt=");
        push_i64(&mut out, self.max_drawdown_qt);
        out.append(" wall_ms=");
        push_u64(&mut out, wall_ms);
        out.append(" recorded_s=");
        out.append(recorded_secs);
        out.append(" speed=");
        out.append(speed_multiple);
        out.append("x");
        out
    }
}

/// What a captured replay brought, as far as it is counted in whole numbers.
#[derive(Debug, Clone, PartialEq)]
pub struct ReplayResult {
    pub total_events: u64,
    pub total_trades: u64,
    pub net_pnl_qt: i64,
    pub trade_pnls_qt: Vec<i64>,
    /// The regime after each bar.
    pub regime_states: Vec<RegimeState>,
    /// The numbers of the events at which a snapshot was due.
    pub snapshot_events: Vec<u64>,
}

// ---------------------------------------------------------------------------
// Model
// ---------------------------------------------------------------------------

/// A replay as a mathematical value.
#[verifier::ext_equal]
pub struct ReplayModel {
    pub config: ReplayConfig,
    pub pipes: PipesModel,
    pub stats: StatsModel,
    pub clock: UnixNanos,
    pub first_ts: Option<UnixNanos>,
    pub last_ts: Option<UnixNanos>,
    pub log: Option<JournalLog>,
    pub bars: BarBuilder,
    pub detector: Option<DetectorModel>,
    pub regimes: Seq<RegimeState>,
    pub event_index: u64,
    pub snapshots: Seq<u64>,
}

impl ReplayModel {
    /// The clock after an event: it moves to the event's time unless that lies
    /// before the last one.
    pub open spec fn clocked(self, event: MarketEvent) -> ReplayModel {
        if self.last_ts matches Some(last) && event.timestamp.nanos < last.nanos {
            self
        } else {
            ReplayModel {
                clock: event.timestamp,
                last_ts: Some(event.timestamp),
                first_ts: if self.first_ts is None {
                    Some(event.timestamp)
                } else {
                    self.first_ts
                },
                ..self
            }
        }
    }

    /// Every queue drained: events into the book, orders into fills, fills into
    /// the results.
    pub open spec fn pumped(self) -> ReplayModel {
        let answered = self.pipes.market_drained().orders_drained();
        ReplayModel {
            pipes: answered.fills_drained(),
            stats: self.stats.after_fills(answered.fills),
            ..self
        }
    }

    /// The replay after an event.
    pub open spec fn after_event(self, event: MarketEvent) -> ReplayModel {
        let clocked = self.clocked(event);
        let fed = ReplayModel { pipes: clocked.pipes.fed(event), ..clocked };
        if self.pipes.market_limit > 0 {
            fed.pumped()
        } else {
            fed
        }
    }

    /// The replay after the events, in order.
    pub open spec fn after_events(self, events: Seq<MarketEvent>) -> ReplayModel
        decreases events.len(),
    {
        if events.len() == 0 {
            self
        } else {
            self.after_events(events.drop_last()).after_event(events.last())
        }
    }

    /// The replay once a source of files was stepped to its end and told of each
    /// file that it asked for.
    pub open spec fn stepped(
        self,
        source: MultiDayModel,
        files: Seq<Option<Seq<MarketEvent>>>,
    ) -> ReplayModel
        decreases source.file_count - source.file_index, source.current.len(),
    {
        match source.step() {
            SourceStep::Event(event) => self.after_event(event).stepped(
                source.after_step(),
                files,
            ),
            SourceStep::OpenFile(index) => self.stepped(
                source.after_step().answered(files[index as int]),
                files,
            ),
            SourceStep::Done => self,
        }
    }

    /// The same for a captured replay.
    pub open spec fn stepped_captured(
        self,
        source: MultiDayModel,
        files: Seq<Option<Seq<MarketEvent>>>,
    ) -> ReplayModel
        decreases source.file_count - source.file_index, source.current.len(),
    {
        match source.step() {
            SourceStep::Event(event) => self.after_captured(event).stepped_captured(
                source.after_step(),
                files,
            ),
            SourceStep::OpenFile(index) => self.stepped_captured(
                source.after_step().answered(files[index as int]),
                files,
            ),
            SourceStep::Done => self,
        }
    }

    /// The replay with a system event journaled.
    pub open spec fn journaled(self, category: Seq<char>, message: Seq<char>) -> ReplayModel {
        ReplayModel {
            log: match self.log {
                Some(log) => Some(
                    log.record(EventModel::System { timestamp: self.clock, category, message }),
                ),
                None => None,
            },
            ..self
        }
    }

    /// The replay with its start journaled.
    pub open spec fn begun(self) -> ReplayModel {
        self.journaled("replay_start"@, "replay started: "@ + self.config.parquet_path@)
    }

    /// The whole replay of these events, up to the record of its completion.
    pub open spec fn replayed(self, events: Seq<MarketEvent>) -> ReplayModel {
        self.begun().after_events(events).pumped()
    }

    pub open spec fn summary(self) -> ReplaySummary {
        ReplaySummary {
            total_events: self.pipes.events_consumed,
            total_trades: self.stats.pnls.len() as u64,
            net_pnl_qt: saturating_sum(self.stats.pnls) as i64,
            wins: win_total(self.stats.pnls) as u64,
            losses: loss_total(self.stats.pnls) as u64,
            max_drawdown_qt: deepest_drawdown(self.stats.pnls) as i64,
            recorded_duration_nanos: match (self.first_ts, self.last_ts) {
                (Some(first), Some(last)) => last.since(first) as u64,
                _ => 0,
            },
        }
    }

    /// The replay set back for a captured run. The detector starts anew where it
    /// is to be reset or there is none yet.
    pub open spec fn rewound(self, reset: bool) -> ReplayModel {
        ReplayModel {
            pipes: PipesModel {
                book: OrderBook::empty_book(),
                events_pushed: 0,
                events_consumed: 0,
                ..self.pipes
            },
            stats: StatsModel::empty(),
            clock: UnixNanos { nanos: 0 },
            first_ts: None,
            last_ts: None,
            bars: BarBuilder {
                interval_nanos: match self.config.regime_instrumentation {
                    Some(regime) => regime.bar_interval_nanos,
                    None => 0,
                },
                current: None,
            },
            detector: if reset || self.detector is None {
                match self.config.regime_instrumentation {
                    Some(regime) => Some(
                        DetectorModel {
                            config: regime.detector,
                            current: RegimeState::Unknown,
                            bars: Seq::empty(),
                            bars_processed: 0,
                            samples: Seq::empty(),
                        },
                    ),
                    None => None,
                }
            } else {
                self.detector
            },
            regimes: Seq::empty(),
            event_index: 0,
            snapshots: Seq::empty(),
            ..self
        }
    }

    /// The regime noted where the event closes a bar.
    pub open spec fn bar_noted(self, event: MarketEvent) -> ReplayModel {
        match self.detector {
            None => self,
            Some(detector) => {
                let moved = ReplayModel { bars: self.bars.after(event), ..self };
                match self.bars.closed_by(event) {
                    None => moved,
                    Some(bar) => ReplayModel {
                        detector: Some(detector.after(bar)),
                        regimes: self.regimes.push(detector.after(bar).current),
                        ..moved
                    },
                }
            },
        }
    }

    /// Whether a snapshot is due at the event with this number.
    pub open spec fn snapshot_due(self, index: int) -> bool {
        self.config.snapshot_interval matches Some(interval) && interval > 0 && index % (
        interval as int) == 0
    }

    /// The captured replay after an event.
    pub open spec fn after_captured(self, event: MarketEvent) -> ReplayModel {
        let after = self.after_event(event);
        if self.pipes.market_limit > 0 {
            let noted = after.bar_noted(event);
            let index = (self.event_index + 1) as u64;
            ReplayModel {
                event_index: index,
                snapshots: if self.snapshot_due(index as int) {
                    self.snapshots.push(index)
                } else {
                    self.snapshots
                },
                ..noted
            }
        } else {
            after
        }
    }

    /// The captured replay after the events, in order.
    pub open spec fn after_all_captured(self, events: Seq<MarketEvent>) -> ReplayModel
        decreases events.len(),
    {
        if events.len() == 0 {
            self
        } else {
            self.after_all_captured(events.drop_last()).after_captured(events.last())
        }
    }

    /// The captured replay at its end: queues drained, the last bar noted.
    pub open spec fn capture_closed(self) -> ReplayModel {
        let drained = self.pumped();
        let flushed = ReplayModel { bars: BarBuilder { current: None, ..self.bars }, ..drained };
        match (self.detector, self.bars.current) {
            (Some(detector), Some(bar)) => ReplayModel {
                detector: Some(detector.after(bar.finished())),
                regimes: self.regimes.push(detector.after(bar.finished()).current),
                ..flushed
            },
            _ => flushed,
        }
    }

    /// The whole captured replay of a recording.
    pub open spec fn captured(self, reset: bool, recording: Seq<MarketEvent>) -> ReplayModel {
        self.rewound(reset).after_all_captured(recording).capture_closed()
    }

    /// Whether the result is what the replay at its end holds.
    pub open spec fn yields(self, result: ReplayResult) -> bool {
        &&& result.total_events == self.pipes.events_consumed
        &&& result.total_trades == self.stats.pnls.len()
        &&& result.net_pnl_qt == saturating_sum(self.stats.pnls)
        &&& ints(result.trade_pnls_qt@) == self.stats.pnls
        &&& result.regime_states@ == self.regimes
        &&& result.snapshot_events@ == self.snapshots
    }
}

/// An event leaves room in the counters for the rest, and the queues' limits as
/// they are.
proof fn lemma_event_keeps_room(model: ReplayModel, event: MarketEvent, events: nat)
    requires
        events > 0,
        model.pipes.has_room(events),
    ensures
        model.after_event(event).pipes.has_room((events - 1) as nat),
        model.after_event(event).pipes.market_limit == model.pipes.market_limit,
        model.after_event(event).config == model.config,
        model.after_event(event).event_index == model.event_index,
{
    let fed = model.clocked(event).pipes.fed(event);
    let drained = fed.market_drained();
    let cleared = PipesModel { orders: Seq::empty(), ..drained };
    lemma_orders_filled_frame(cleared, drained.orders);
}

proof fn lemma_pump_keeps_room(model: ReplayModel, more: nat)
    requires
        model.pipes.has_room(more),
    ensures
        model.pumped().pipes.has_room(more),
{
    let drained = model.pipes.market_drained();
    let cleared = PipesModel { orders: Seq::empty(), ..drained };
    lemma_orders_filled_frame(cleared, drained.orders);
}

proof fn lemma_events_keep_room(model: ReplayModel, events: Seq<MarketEvent>, more: nat)
    requires
        model.pipes.has_room(events.len() + more),
    ensures
        model.after_events(events).pipes.has_room(more),
    decreases events.len(),
{
    if events.len() > 0 {
        lemma_events_keep_room(model, events.drop_last(), more + 1);
        lemma_event_keeps_room(
            model.after_events(events.drop_last()),
            events.last(),
            more + 1,
        );
    }
}

proof fn lemma_captured_events_keep_room(model: ReplayModel, events: Seq<MarketEvent>, more: nat)
    requires
        model.pipes.has_room(events.len() + more),
    ensures
        model.after_all_captured(events).pipes.has_room(more),
    decreases events.len(),
{
    if events.len() > 0 {
        lemma_captured_events_keep_room(model, events.drop_last(), more + 1);
        lemma_event_keeps_room(
            model.after_all_captured(events.drop_last()),
            events.last(),
            more + 1,
        );
    }
}

/// The clock of a replay never runs backwards.
pub proof fn clock_is_monotonic(model: ReplayModel, event: MarketEvent)
    requires
        model.last_ts matches Some(last) ==> last == model.clock,
        model.last_ts is None ==> model.clock.nanos == 0,
    ensures
        model.after_event(event).clock.nanos >= model.clock.nanos,
        model.after_event(event).last_ts matches Some(last) ==> last
            == model.after_event(event).clock,
{
}

/// Whether two replays hold the same, apart from their journals and the counters
/// of the order side, and no order or fill waits in either.
pub open spec fn alike(a: ReplayModel, b: ReplayModel) -> bool {
    &&& a.config == b.config
    &&& a.pipes.market == b.pipes.market
    &&& a.pipes.market_limit == b.pipes.market_limit
    &&& a.pipes.orders.len() == 0 && b.pipes.orders.len() == 0
    &&& a.pipes.fills.len() == 0 && b.pipes.fills.len() == 0
    &&& a.pipes.book == b.pipes.book
    &&& a.pipes.events_pushed == b.pipes.events_pushed
    &&& a.pipes.events_consumed == b.pipes.events_consumed
    &&& a.stats == b.stats
    &&& a.clock == b.clock
    &&& a.first_ts == b.first_ts
    &&& a.last_ts == b.last_ts
    &&& a.bars == b.bars
    &&& a.detector == b.detector
    &&& a.regimes == b.regimes
    &&& a.event_index == b.event_index
    &&& a.snapshots == b.snapshots
}

proof fn lemma_quiet_pump(model: ReplayModel)
    requires
        model.pipes.orders.len() == 0,
        model.pipes.fills.len() == 0,
    ensures
        model.pumped() == (ReplayModel { pipes: model.pipes.market_drained(), ..model }),
{
    let drained = model.pipes.market_drained();
    let cleared = PipesModel { orders: Seq::empty(), ..drained };
    assert(drained.orders =~= Seq::<OrderEvent>::empty());
    assert(drained.fills =~= Seq::<FillEvent>::empty());
    assert(cleared == drained);
    assert(drained.orders_drained() == drained);
    assert(drained.fills_drained() == drained);
    assert(model.stats.after_fills(drained.fills) == model.stats);
}

proof fn lemma_alike_events(a: ReplayModel, b: ReplayModel, events: Seq<MarketEvent>)
    requires
        alike(a, b),
    ensures
        alike(a.after_all_captured(events), b.after_all_captured(events)),
        events.len() > 0 && a.pipes.market_limit > 0 ==> a.after_all_captured(
            events,
        ).pipes.market.len() == 0,
        a.after_all_captured(events).pipes.market_limit == a.pipes.market_limit,
        a.after_all_captured(events).config == a.config,
    decreases events.len(),
{
    if events.len() > 0 {
        lemma_alike_events(a, b, events.drop_last());
        let event = events.last();
        let x = a.after_all_captured(events.drop_last());
        let y = b.after_all_captured(events.drop_last());
        let cx = x.clocked(event);
        let cy = y.clocked(event);
        lemma_quiet_pump(ReplayModel { pipes: cx.pipes.fed(event), ..cx });
        lemma_quiet_pump(ReplayModel { pipes: cy.pipes.fed(event), ..cy });
    }
}

/// Pumping leaves nothing on any queue.
proof fn lemma_pump_empties(model: ReplayModel)
    ensures
        model.pumped().pipes.is_idle(),
{
    let drained = model.pipes.market_drained();
    lemma_orders_filled_queues(PipesModel { orders: Seq::empty(), ..drained }, drained.orders);
}

/// A replay or a captured replay that has come to its end leaves no market event,
/// no order and no fill waiting.
pub proof fn finished_replays_leave_nothing_waiting(
    model: ReplayModel,
    reset: bool,
    events: Seq<MarketEvent>,
)
    ensures
        model.replayed(events).pipes.is_idle(),
        model.captured(reset, events).pipes.is_idle(),
{
    lemma_pump_empties(model.begun().after_events(events));
    lemma_pump_empties(model.rewound(reset).after_all_captured(events));
}

/// A captured replay depends on the recording and the settings alone: two
/// replays with the same settings, whose queues are empty, capture the same,
/// whatever either of them did before.
pub proof fn captured_replay_is_deterministic(
    a: ReplayModel,
    b: ReplayModel,
    recording: Seq<MarketEvent>,
)
    requires
        a.config == b.config,
        a.pipes.market_limit == b.pipes.market_limit,
        a.pipes.is_idle(),
        b.pipes.is_idle(),
    ensures
        alike(a.captured(true, recording), b.captured(true, recording)),
        a.captured(true, recording).pipes.market.len() == 0,
        forall|result: ReplayResult| #[trigger]
            a.captured(true, recording).yields(result) <==> b.captured(true, recording).yields(
                result,
            ),
{
    assert(a.pipes.market =~= b.pipes.market);
    let x = a.rewound(true);
    let y = b.rewound(true);
    assert(alike(x, y));
    lemma_alike_events(x, y, recording);
    lemma_quiet_pump(x.after_all_captured(recording));
    lemma_quiet_pump(y.after_all_captured(recording));
}

/// Capturing one recording twice on the same orchestrator gives the same result
/// both times: held against each other, the two have no mismatch.
pub proof fn second_capture_repeats_the_first(
    model: ReplayModel,
    recording: Seq<MarketEvent>,
    first: ReplayResult,
    second: ReplayResult,
)
    requires
        model.pipes.is_idle(),
        model.captured(true, recording).yields(first),
        model.captured(true, recording).captured(true, recording).yields(second),
    ensures
        agree(first, second),
        tier1_of(first, second).len() == 0,
        tier3_of(first, second).len() == 0,
        first.total_events == second.total_events,
        first.snapshot_events@ == second.snapshot_events@,
{
    let once = model.captured(true, recording);
    captured_replay_is_deterministic(model, model, recording);
    lemma_alike_events(model.rewound(true), model.rewound(true), recording);
    captured_replay_is_deterministic(once, model, recording);
    assert(ints(first.trade_pnls_qt@) == ints(second.trade_pnls_qt@));
    assert forall|i: int| 0 <= i < first.trade_pnls_qt@.len() implies first.trade_pnls_qt@[i]
        == second.trade_pnls_qt@[i] by {
        assert(ints(first.trade_pnls_qt@)[i] == first.trade_pnls_qt@[i]);
        assert(ints(second.trade_pnls_qt@)[i] == second.trade_pnls_qt@[i]);
    }
    assert(ints(first.trade_pnls_qt@).len() == first.trade_pnls_qt@.len());
    assert(ints(second.trade_pnls_qt@).len() == second.trade_pnls_qt@.len());
    assert(first.trade_pnls_qt@ =~= second.trade_pnls_qt@);
    no_mismatch_means_agreement(first, second);
}

/// Once a replay or a captured replay has come to its end, whatever waited before
/// it, every two captures of one recording that follow agree.
pub proof fn captures_repeat_after_a_finished_replay(
    model: ReplayModel,
    reset: bool,
    earlier: Seq<MarketEvent>,
    done: ReplayModel,
    recording: Seq<MarketEvent>,
    first: ReplayResult,
    second: ReplayResult,
)
    requires
        done == model.replayed(earlier) || done == model.captured(reset, earlier),
        done.captured(true, recording).yields(first),
        done.captured(true, recording).captured(true, recording).yields(second),
    ensures
        agree(first, second),
        tier1_of(first, second).len() == 0,
        tier3_of(first, second).len() == 0,
        first.total_events == second.total_events,
        first.snapshot_events@ == second.snapshot_events@,
{
    finished_replays_leave_nothing_waiting(model, reset, earlier);
    second_capture_repeats_the_first(done, recording, first, second);
}

proof fn lemma_first_event_first(
    model: ReplayModel,
    event: MarketEvent,
    rest: Seq<MarketEvent>,
)
    ensures
        model.after_events(seq![event] + rest) == model.after_event(event).after_events(rest),
        model.after_all_captured(seq![event] + rest) == model.after_captured(
            event,
        ).after_all_captured(rest),
    decreases rest.len(),
{
    let all = seq![event] + rest;
    if rest.len() == 0 {
        assert(all.drop_last() =~= Seq::<MarketEvent>::empty());
        assert(all.last() == event);
        assert(model.after_events(all.drop_last()) == model);
        assert(model.after_all_captured(all.drop_last()) == model);
    } else {
        assert(all.drop_last() =~= seq![event] + rest.drop_last());
        assert(all.last() == rest.last());
        lemma_first_event_first(model, event, rest.drop_last());
    }
}

proof fn lemma_steps_are_events(
    model: ReplayModel,
    source: MultiDayModel,
    files: Seq<Option<Seq<MarketEvent>>>,
)
    ensures
        model.stepped(source, files) == model.after_events(source.played(files)),
        model.stepped_captured(source, files) == model.after_all_captured(source.played(files)),
    decreases source.file_count - source.file_index, source.current.len(),
{
    match source.step() {
        SourceStep::Event(event) => {
            let next = source.after_step();
            lemma_steps_are_events(model.after_event(event), next, files);
            lemma_steps_are_events(model.after_captured(event), next, files);
            lemma_first_event_first(model, event, next.played(files));
        },
        SourceStep::OpenFile(index) => {
            lemma_steps_are_events(
                model,
                source.after_step().answered(files[index as int]),
                files,
            );
        },
        SourceStep::Done => {},
    }
}

/// Replaying files step by step, from the beginning of the first to the end of the
/// last, comes to the same as replaying the events of all files that could be
/// opened, in their order; and so does capturing them.
pub proof fn stepping_replays_every_file(
    model: ReplayModel,
    source: MultiDayModel,
    files: Seq<Option<Seq<MarketEvent>>>,
    reset: bool,
)
    requires
        files.len() == source.file_count,
        source.file_index == 0,
        source.current.len() == 0,
    ensures
        model.begun().stepped(source, files).pumped() == model.replayed(events_of(files)),
        model.rewound(reset).stepped_captured(source, files).capture_closed() == model.captured(
            reset,
            events_of(files),
        ),
{
    every_file_is_played(source, files);
    assert(files.skip(0) =~= files);
    assert(source.current + events_of(files) =~= events_of(files));
    lemma_steps_are_events(model.begun(), source, files);
    lemma_steps_are_events(model.rewound(reset), source, files);
}

proof fn lemma_events_keep_log(model: ReplayModel, events: Seq<MarketEvent>)
    ensures
        model.after_events(events).log == model.log,
    decreases events.len(),
{
    if events.len() > 0 {
        lemma_events_keep_log(model, events.drop_last());
    }
}

/// A completed replay adds two records to its journal: one at the start, with the
/// time before the first event, and one at the end, with the time then.
pub proof fn replay_is_journaled_at_both_ends(
    model: ReplayModel,
    events: Seq<MarketEvent>,
    summary_line: Seq<char>,
)
    ensures
        model.log matches Some(log) ==> model.replayed(events).journaled(
            "replay_complete"@,
            summary_line,
        ).log == Some(
            log.record(
                EventModel::System {
                    timestamp: model.clock,
                    category: "replay_start"@,
                    message: "replay started: "@ + model.config.parquet_path@,
                },
            ).record(
                EventModel::System {
                    timestamp: model.replayed(events).clock,
                    category: "replay_complete"@,
                    message: summary_line,
                },
            ),
        ),
        model.log is None ==> model.replayed(events).journaled(
            "replay_complete"@,
            summary_line,
        ).log is None,
{
    lemma_events_keep_log(model.begun(), events);
}

/// The numbers at which a snapshot is due, up to `count`.
pub open spec fn due_numbers(interval: nat, count: nat) -> Seq<u64> {
    Seq::new(count / interval, |i: int| ((i + 1) * interval) as u64)
}

/// The snapshots that a capture of `count` events takes.
pub open spec fn due_snapshots(config: ReplayConfig, count: nat) -> Seq<u64> {
    match config.snapshot_interval {
        Some(interval) => if interval > 0 {
            due_numbers(interval as nat, count)
        } else {
            Seq::empty()
        },
        None => Seq::empty(),
    }
}

proof fn lemma_one_more_due(interval: nat, count: nat)
    requires
        interval > 0,
    ensures
        due_numbers(interval, count + 1) == (if (count + 1) % interval == 0 {
            due_numbers(interval, count).push((count + 1) as u64)
        } else {
            due_numbers(interval, count)
        }),
{
    let q = count / interval;
    let p = (count + 1) / interval;
    if (count + 1) % interval == 0 {
        assert(p == q + 1 && p * interval == count + 1) by (nonlinear_arith)
            requires
                interval > 0,
                q == count / interval,
                p == (count + 1) / interval,
                (count + 1) % interval == 0,
        ;
        assert(due_numbers(interval, count + 1) =~= due_numbers(interval, count).push(
            (count + 1) as u64,
        ));
    } else {
        assert(p == q) by (nonlinear_arith)
            requires
                interval > 0,
                q == count / interval,
                p == (count + 1) / interval,
                (count + 1) % interval != 0,
        ;
        assert(due_numbers(interval, count + 1) =~= due_numbers(interval, count));
    }
}

proof fn lemma_captured_counts(model: ReplayModel, events: Seq<MarketEvent>)
    requires
        model.pipes.market.len() == 0,
        model.pipes.market_limit > 0,
        model.pipes.has_room(events.len()),
        model.pipes.events_consumed == 0,
        model.event_index == 0,
        model.snapshots == Seq::<u64>::empty(),
    ensures
        ({
            let after = model.after_all_captured(events);
            &&& after.pipes.market.len() == 0
            &&& after.pipes.market_limit == model.pipes.market_limit
            &&& after.pipes.events_consumed == events.len()
            &&& after.event_index == events.len()
            &&& after.config == model.config
            &&& after.snapshots == due_snapshots(model.config, events.len())
            &&& model.detector is None ==> after.detector is None && after.regimes
                == model.regimes
        }),
    decreases events.len(),
{
    if events.len() == 0 {
        assert(due_snapshots(model.config, 0) =~= Seq::<u64>::empty());
    } else {
        let fewer = events.drop_last();
        let before = model.after_all_captured(fewer);
        lemma_captured_events_keep_room(model, fewer, 1);
        lemma_captured_counts(model, fewer);
        let fed = before.clocked(events.last()).pipes.fed(events.last());
        let drained = fed.market_drained();
        lemma_orders_filled_frame(PipesModel { orders: Seq::empty(), ..drained }, drained.orders);
        if let Some(interval) = model.config.snapshot_interval {
            if interval > 0 {
                lemma_one_more_due(interval as nat, fewer.len());
            }
        }
    }
}

/// The numbers of a captured replay agree with its recording and with each other:
/// every recorded event is counted, every closed pair has its profit and the net
/// is their sum, snapshots are taken at every multiple of the interval, and
/// without a regime detector no regime is noted.
pub proof fn capture_counts_its_recording(
    model: ReplayModel,
    reset: bool,
    recording: Seq<MarketEvent>,
    result: ReplayResult,
)
    requires
        model.pipes.market.len() == 0,
        model.pipes.market_limit > 0,
        model.rewound(reset).pipes.has_room(recording.len()),
        model.captured(reset, recording).yields(result),
    ensures
        result.total_events == recording.len(),
        result.total_trades == result.trade_pnls_qt@.len(),
        result.net_pnl_qt == saturating_sum(ints(result.trade_pnls_qt@)),
        sums_fit(ints(result.trade_pnls_qt@)) ==> result.net_pnl_qt == plain_sum(
            ints(result.trade_pnls_qt@),
        ),
        result.snapshot_events@ == due_snapshots(model.config, recording.len()),
        result.snapshot_events@.len() == (match model.config.snapshot_interval {
            Some(interval) => if interval > 0 {
                recording.len() / (interval as nat)
            } else {
                0
            },
            None => 0,
        }),
        model.config.regime_instrumentation is None && (reset || model.detector is None)
            ==> result.regime_states@.len() == 0,
{
    let start = model.rewound(reset);
    let end = start.after_all_captured(recording);
    lemma_captured_counts(start, recording);
    lemma_captured_events_keep_room(start, recording, 0);
    let drained = end.pipes.market_drained();
    lemma_orders_filled_frame(PipesModel { orders: Seq::empty(), ..drained }, drained.orders);
    assert(ints(result.trade_pnls_qt@).len() == result.trade_pnls_qt@.len());
    if sums_fit(ints(result.trade_pnls_qt@)) {
        fitting_sums_are_exact(ints(result.trade_pnls_qt@));
    }
}

// ---------------------------------------------------------------------------
// Orchestrator
// ---------------------------------------------------------------------------

/// Drives a replay.
pub struct ReplayOrchestrator {
    config: ReplayConfig,
    pipes: SimulationPipes,
    stats: TradeStats,
    clock: UnixNanos,
    first_event_ts: Option<UnixNanos>,
    last_event_ts: Option<UnixNanos>,
    journal: Option<JournalSender>,
    bar_builder: BarBuilder,
    regime_detector: Option<ThresholdRegimeDetector>,
    regime_states: Vec<RegimeState>,
    event_index: u64,
    snapshot_events: Vec<u64>,
}

impl View for ReplayOrchestrator {
    type V = ReplayModel;

    closed spec fn view(&self) -> ReplayModel {
        ReplayModel {
            config: self.config,
            pipes: self.pipes@,
            stats: self.stats@,
            clock: self.clock,
            first_ts: self.first_event_ts,
            last_ts: self.last_event_ts,
            log: match self.journal {
                Some(journal) => Some(journal@),
                None => None,
            },
            bars: self.bar_builder,
            detector: match self.regime_detector {
                Some(detector) => Some(detector@),
                None => None,
            },
            regimes: self.regime_states@,
            event_index: self.event_index,
            snapshots: self.snapshot_events@,
        }
    }
}

impl ReplayOrchestrator {
    pub closed spec fn wf(&self) -> bool {
        self.stats.wf()
    }

    /// A replay that has not begun.
    pub fn new(config: ReplayConfig) -> (r: Self)
        ensures
            r.wf(),
            r@ == (ReplayModel {
                config,
                pipes: SimulationPipes::fresh(config.fill_model, config.market_capacity()),
                stats: StatsModel::empty(),
                clock: UnixNanos { nanos: 0 },
                first_ts: None,
                last_ts: None,
                log: None,
                bars: BarBuilder { interval_nanos: 0, current: None },
                detector: None,
                regimes: Seq::empty(),
                event_index: 0,
                snapshots: Seq::empty(),
            }),
    {
        let capacity: usize = match config.market_event_capacity {
            Some(capacity) => capacity,
            None => MARKET_EVENT_QUEUE_CAPACITY,
        };
        ReplayOrchestrator {
            pipes: SimulationPipes::new(config.fill_model, capacity),
            config,
            stats: TradeStats::new(),
            clock: UnixNanos::new(0),
            first_event_ts: None,
            last_event_ts: None,
            journal: None,
            bar_builder: BarBuilder::new(0),
            regime_detector: None,
            regime_states: Vec::new(),
            event_index: 0,
            snapshot_events: Vec::new(),
        }
    }

    /// Journals the replay; its entries are tagged as replay.
    pub fn attach_journal(&mut self, journal: JournalSender)
        requires
            old(self).wf(),
        ensures
            final(self).wf(),
            final(self)@ == (ReplayModel {
                log: Some(journal@.shared(Some(TradeSource::Replay))),
                ..old(self)@
            }),
    {
        self.journal = Some(journal.with_source(TradeSource::Replay));
    }

    /// The time of the replay.
    pub fn clock(&self) -> (r: UnixNanos)
        ensures
            r == self@.clock,
    {
        self.clock
    }

    pub fn config(&self) -> (r: &ReplayConfig)
        ensures
            *r == self@.config,
    {
        &self.config
    }

    pub fn book(&self) -> (r: &OrderBook)
        ensures
            *r == self@.pipes.book,
    {
        self.pipes.book()
    }

    pub fn events_pushed(&self) -> (r: u64)
        ensures
            r == self@.pipes.events_pushed,
    {
        self.pipes.events_pushed()
    }

    pub fn events_consumed(&self) -> (r: u64)
        ensures
            r == self@.pipes.events_consumed,
    {
        self.pipes.events_consumed()
    }

    pub fn fills_emitted(&self) -> (r: u64)
        ensures
            r == self@.pipes.sim.fills_emitted,
    {
        self.pipes.fills_emitted()
    }

    /// Puts an order on the order queue, if there is room.
    pub fn submit_order(&mut self, order: OrderEvent) -> (r: bool)
        requires
            old(self).wf(),
        ensures
            final(self).wf(),
            r == (old(self)@.pipes.orders.len() < old(self)@.pipes.orders_limit),
            final(self)@ == (ReplayModel {
                pipes: PipesModel {
                    orders: if r {
                        old(self)@.pipes.orders.push(order)
                    } else {
                        old(self)@.pipes.orders
                    },
                    ..old(self)@.pipes
                },
                ..old(self)@
            }),
    {
        self.pipes.submit(order)
    }

    /// Answers every waiting order.
    pub fn drain_orders_and_simulate_fills(&mut self)
        requires
            old(self).wf(),
            old(self)@.pipes.has_room(0),
        ensures
            final(self).wf(),
            final(self)@ == (ReplayModel { pipes: old(self)@.pipes.orders_drained(), ..old(self)@ }),
    {
        self.pipes.drain_orders();
    }

    /// Takes the oldest fill out.
    pub fn take_fill(&mut self) -> (r: Option<FillEvent>)
        requires
            old(self).wf(),
        ensures
            final(self).wf(),
            r is Some <==> old(self)@.pipes.fills.len() > 0,
            r matches Some(fill) ==> fill == old(self)@.pipes.fills[0] && final(self)@ == (
            ReplayModel {
                pipes: PipesModel {
                    fills: old(self)@.pipes.fills.subrange(
                        1,
                        old(self)@.pipes.fills.len() as int,
                    ),
                    ..old(self)@.pipes
                },
                ..old(self)@
            }),
            r is None ==> final(self)@ == old(self)@,
    {
        self.pipes.take_fill()
    }

    /// Books every waiting fill.
    fn drain_fills(&mut self)
        requires
            old(self).wf(),
        ensures
            final(self).wf(),
            final(self)@ == (ReplayModel {
                pipes: old(self)@.pipes.fills_drained(),
                stats: old(self)@.stats.after_fills(old(self)@.pipes.fills),
                ..old(self)@
            }),
    {
        let ghost start = self@;
        let ghost fills = self@.pipes.fills;
        let total: usize = self.pipes.fill_count();
        let mut done: usize = 0;
        proof {
            assert(fills.take(0) =~= Seq::<FillEvent>::empty());
            assert(fills.subrange(0, fills.len() as int) =~= fills);
        }
        while done < total
            invariant
                self.wf(),
                done <= total,
                total == fills.len(),
                self@ == (ReplayModel {
                    pipes: PipesModel {
                        fills: fills.subrange(done as int, fills.len() as int),
                        ..start.pipes
                    },
                    stats: start.stats.after_fills(fills.take(done as int)),
                    ..start
                }),
            decreases total - done,
        {
            if let Some(fill) = self.pipes.take_fill() {
                proof {
                    assert(fill == fills[done as int]);
                    assert(fills.take(done + 1).drop_last() =~= fills.take(done as int));
                    assert(fills.take(done + 1).last() == fill);
                    assert(self@.pipes.fills =~= fills.subrange(done + 1, fills.len() as int));
                }
                self.stats.apply_fill(&fill);
            }
            done += 1;
        }
        proof {
            assert(fills.take(fills.len() as int) =~= fills);
            assert(self@.pipes.fills =~= Seq::<FillEvent>::empty());
        }
    }

    /// Drains every queue.
    fn pump(&mut self)
        requires
            old(self).wf(),
            old(self)@.pipes.has_room(0),
        ensures
            final(self).wf(),
            final(self)@ == old(self)@.pumped(),
    {
        self.pipes.drain_market();
        self.pipes.drain_orders();
        self.drain_fills();
    }

    /// Takes one recorded event through the whole chain. The result says whether
    /// the market data queue took it.
    pub fn on_event(&mut self, event: MarketEvent) -> (r: bool)
        requires
            old(self).wf(),
            old(self)@.pipes.has_room(1),
        ensures
            final(self).wf(),
            r == (old(self)@.pipes.market_limit > 0),
            final(self)@ == old(self)@.after_event(event),
            forall|more: nat|
                old(self)@.pipes.has_room(1 + more) ==> #[trigger] final(self)@.pipes.has_room(more),
    {
        let ghost start = self@;
        proof {
            assert forall|more: nat| start.pipes.has_room(1 + more) implies
                #[trigger] start.after_event(event).pipes.has_room(more) by {
                lemma_event_keeps_room(start, event, 1 + more);
            }
            lemma_event_keeps_room(start, event, 1);
        }
        let backwards = match self.last_event_ts {
            Some(last) => event.timestamp.nanos < last.nanos,
            None => false,
        };
        if !backwards {
            self.clock = event.timestamp;
            self.last_event_ts = Some(event.timestamp);
            if self.first_event_ts.is_none() {
                self.first_event_ts = Some(event.timestamp);
            }
        }
        assert(self@ == start.clocked(event));
        if !self.pipes.feed(event) {
            return false;
        }
        self.pump();
        true
    }

    /// Journals a system event at the time of the replay, if there is a journal.
    pub fn journal_system_event(&mut self, category: &str, message: String)
        requires
            old(self).wf(),
        ensures
            final(self).wf(),
            final(self)@ == old(self)@.journaled(category@, message@),
    {
        match self.journal.take() {
            Some(sender) => {
                let mut journal = sender;
                let _ = journal.send(
                    EngineEvent::SystemEvent(
                        SystemEventRecord {
                            timestamp: self.clock,
                            category: category.to_owned(),
                            message,
                        },
                    ),
                );
                self.journal = Some(journal);
            },
            None => {},
        }
    }

    /// Begins a replay: journals its start.
    pub fn begin(&mut self)
        requires
            old(self).wf(),
        ensures
            final(self).wf(),
            final(self)@ == old(self)@.begun(),
    {
        let mut message = "replay started: ".to_owned();
        message.append(self.config.parquet_path.as_str());
        self.journal_system_event("replay_start", message);
    }

    /// Whether the counters have room for one more event.
    pub fn can_step(&self) -> (r: bool)
        ensures
            r == (self@.pipes.has_room(1) && self@.event_index < u64::MAX),
    {
        self.pipes.can_feed() && self.event_index < u64::MAX
    }

    /// Takes one step of a source of files: replays an event, or says which file
    /// has to be opened, or that the source is exhausted.
    pub fn step(&mut self, source: &mut ParquetReplaySource) -> (r: SourceStep)
        requires
            old(self).wf(),
            old(self)@.pipes.has_room(1),
            old(source)@.can_poll(),
        ensures
            final(self).wf(),
            r == old(source)@.step(),
            final(source)@ == old(source)@.after_step(),
            final(self)@ == (match r {
                SourceStep::Event(event) => old(self)@.after_event(event),
                _ => old(self)@,
            }),
    {
        let step = source.next_step();
        if let SourceStep::Event(event) = step {
            let _ = self.on_event(event);
        }
        step
    }

    /// Ends a replay: drains the queues and sums the results up.
    pub fn finish(&mut self) -> (r: ReplaySummary)
        requires
            old(self).wf(),
            old(self)@.pipes.has_room(0),
        ensures
            final(self).wf(),
            final(self)@ == old(self)@.pumped(),
            final(self)@.pipes.is_idle(),
            r == final(self)@.summary(),
    {
        proof {
            lemma_pump_empties(self@);
        }
        self.pump();
        self.summary()
    }

    /// Journals that the replay is complete, with its summary in one line.
    pub fn complete(&mut self, summary_line: String)
        requires
            old(self).wf(),
        ensures
            final(self).wf(),
            final(self)@ == old(self)@.journaled("replay_complete"@, summary_line@),
    {
        self.journal_system_event("replay_complete", summary_line);
    }

    /// Replays everything that the source still holds. The summary holds what is
    /// counted in whole numbers; once its line is written, `complete` journals it.
    pub fn run<S: DataSource>(&mut self, source: &mut S) -> (r: ReplaySummary)
        requires
            old(self).wf(),
            old(self)@.pipes.has_room(old(source).upcoming().len()),
        ensures
            final(self).wf(),
            final(self)@ == old(self)@.replayed(old(source).upcoming()),
            final(self)@.pipes.is_idle(),
            r == final(self)@.summary(),
            final(source).upcoming().len() == 0,
            final(source).recording() == old(source).recording(),
            forall|more: nat|
                old(self)@.pipes.has_room(old(source).upcoming().len() + more)
                    ==> #[trigger] final(self)@.pipes.has_room(more),
    {
        self.begin();
        let ghost start = self@;
        let ghost coming = source.upcoming();
        let ghost mut seen: nat = 0;
        let mut exhausted = false;
        proof {
            assert(coming.skip(0) =~= coming);
            assert(coming.take(0) =~= Seq::<MarketEvent>::empty());
        }
        while !exhausted
            invariant
                self.wf(),
                seen <= coming.len(),
                source.recording() == old(source).recording(),
                source.upcoming() == coming.skip(seen as int),
                exhausted ==> seen == coming.len(),
                self@ == start.after_events(coming.take(seen as int)),
                self@.pipes.has_room((coming.len() - seen) as nat),
            decreases coming.len() - seen, (if exhausted { 0int } else { 1int }),
        {
            match source.next_event() {
                Some(event) => {
                    proof {
                        assert(event == coming[seen as int]);
                        assert(coming.skip(seen as int).drop_first() =~= coming.skip(
                            seen as int + 1,
                        ));
                        let next = coming.take(seen as int + 1);
                        assert(next.drop_last() =~= coming.take(seen as int));
                        assert(next.last() == event);
                        lemma_event_keeps_room(self@, event, (coming.len() - seen) as nat);
                        seen = seen + 1;
                    }
                    let _ = self.on_event(event);
                },
                None => {
                    exhausted = true;
                },
            }
        }
        proof {
            assert(coming.take(coming.len() as int) =~= coming);
            assert forall|more: nat| start.pipes.has_room(coming.len() + more) implies
                #[trigger] self@.pumped().pipes.has_room(more) by {
                lemma_events_keep_room(start, coming, more);
                lemma_pump_keeps_room(self@, more);
            }
        }
        self.finish()
    }

    /// The results so far.
    pub fn summary(&self) -> (r: ReplaySummary)
        requires
            self.wf(),
        ensures
            r == self@.summary(),
    {
        ReplaySummary {
            total_events: self.pipes.events_consumed(),
            total_trades: self.stats.total_trades(),
            net_pnl_qt: self.stats.net_pnl_qt(),
            wins: self.stats.wins(),
            losses: self.stats.losses(),
            max_drawdown_qt: self.stats.max_drawdown_qt(),
            recorded_duration_nanos: match (self.first_event_ts, self.last_event_ts) {
                (Some(first), Some(last)) => last.saturating_since(first),
                _ => 0,
            },
        }
    }

    /// Sets the replay back for a captured run.
    pub fn begin_capture(&mut self, reset: bool)
        requires
            old(self).wf(),
        ensures
            final(self).wf(),
            final(self)@ == old(self)@.rewound(reset),
    {
        self.pipes.rewind();
        self.stats = TradeStats::new();
        self.clock = UnixNanos::new(0);
        self.first_event_ts = None;
        self.last_event_ts = None;
        if reset || self.regime_detector.is_none() {
            self.regime_detector = match self.config.regime_instrumentation {
                Some(regime) => Some(ThresholdRegimeDetector::new(regime.detector)),
                None => None,
            };
        }
        let interval: u64 = match self.config.regime_instrumentation {
            Some(regime) => regime.bar_interval_nanos,
            None => 0,
        };
        self.bar_builder = BarBuilder::new(interval);
        self.regime_states = Vec::new();
        self.event_index = 0;
        self.snapshot_events = Vec::new();
    }

    /// Takes one event of a captured run through the chain. The result says
    /// whether it got through, and if so, whether a snapshot of the signals is
    /// due.
    pub fn capture_event(&mut self, event: MarketEvent) -> (r: Option<bool>)
        requires
            old(self).wf(),
            old(self)@.pipes.has_room(1),
            old(self)@.event_index < u64::MAX,
        ensures
            final(self).wf(),
            r is Some <==> old(self)@.pipes.market_limit > 0,
            r matches Some(due) ==> due == old(self)@.snapshot_due(old(self)@.event_index + 1),
            final(self)@ == old(self)@.after_captured(event),
            forall|more: nat|
                old(self)@.pipes.has_room(1 + more) ==> #[trigger] final(self)@.pipes.has_room(more),
    {
        let ghost start = self@;
        if !self.on_event(event) {
            return None;
        }
        let ghost after = self@;
        match self.regime_detector.take() {
            Some(found) => {
                let mut detector = found;
                if let Some(bar) = self.bar_builder.consume(&event) {
                    let state = detector.update(&bar);
                    self.regime_states.push(state);
                }
                self.regime_detector = Some(detector);
            },
            None => {},
        }
        assert(self@ == after.bar_noted(event));
        self.event_index = self.event_index + 1;
        let due = match self.config.snapshot_interval {
            Some(interval) => interval > 0 && self.event_index % interval == 0,
            None => false,
        };
        if due {
            self.snapshot_events.push(self.event_index);
        }
        Some(due)
    }

    /// Takes one step of a source of files in a captured run: takes an event
    /// through the chain, or says which file has to be opened, or that the source
    /// is exhausted. With an event comes whether it got through, and if so,
    /// whether a snapshot of the signals is due.
    pub fn capture_step(&mut self, source: &mut ParquetReplaySource) -> (r: (
        SourceStep,
        Option<bool>,
    ))
        requires
            old(self).wf(),
            old(self)@.pipes.has_room(1),
            old(self)@.event_index < u64::MAX,
            old(source)@.can_poll(),
        ensures
            final(self).wf(),
            r.0 == old(source)@.step(),
            final(source)@ == old(source)@.after_step(),
            final(self)@ == (match r.0 {
                SourceStep::Event(event) => old(self)@.after_captured(event),
                _ => old(self)@,
            }),
            r.1 is Some <==> r.0 is Event && old(self)@.pipes.market_limit > 0,
            r.1 matches Some(due) ==> due == old(self)@.snapshot_due(old(self)@.event_index + 1),
    {
        let step = source.next_step();
        let due = match step {
            SourceStep::Event(event) => self.capture_event(event),
            _ => None,
        };
        (step, due)
    }

    /// Ends a captured run and hands out its result.
    pub fn finish_capture(&mut self) -> (r: ReplayResult)
        requires
            old(self).wf(),
            old(self)@.pipes.has_room(0),
        ensures
            final(self).wf(),
            final(self)@ == old(self)@.capture_closed(),
            final(self)@.pipes.is_idle(),
            final(self)@.yields(r),
            forall|more: nat|
                old(self)@.pipes.has_room(more) ==> #[trigger] final(self)@.pipes.has_room(more),
    {
        proof {
            lemma_pump_empties(self@);
            assert forall|more: nat| self@.pipes.has_room(more) implies
                #[trigger] self@.pumped().pipes.has_room(more) by {
                lemma_pump_keeps_room(self@, more);
            }
        }
        self.pump();
        let last_bar = self.bar_builder.flush();
        match self.regime_detector.take() {
            Some(found) => {
                let mut detector = found;
                if let Some(bar) = last_bar {
                    let state = detector.update(&bar);
                    self.regime_states.push(state);
                }
                self.regime_detector = Some(detector);
            },
            None => {},
        }
        ReplayResult {
            total_events: self.pipes.events_consumed(),
            total_trades: self.stats.total_trades(),
            net_pnl_qt: self.stats.net_pnl_qt(),
            trade_pnls_qt: self.stats.pnls(),
            regime_states: copy_states(&self.regime_states),
            snapshot_events: copy_numbers(&self.snapshot_events),
        }
    }

    /// Replays the whole recording from its beginning and captures it.
    pub fn run_with_capture<S: DataSource>(&mut self, source: &mut S) -> (r: ReplayResult)
        requires
            old(self).wf(),
            old(self)@.rewound(true).pipes.has_room(old(source).recording().len()),
        ensures
            final(self).wf(),
            final(self)@ == old(self)@.captured(true, old(source).recording()),
            final(self)@.pipes.is_idle(),
            final(self)@.yields(r),
            final(source).upcoming().len() == 0,
            final(source).recording() == old(source).recording(),
            forall|more: nat|
                old(self)@.rewound(true).pipes.has_room(old(source).recording().len() + more)
                    ==> #[trigger] final(self)@.pipes.has_room(more),
    {
        self.run_with_capture_internal(source, true)
    }

    /// The same, with a regime detector that keeps what it learned before.
    pub fn run_with_capture_no_reset<S: DataSource>(&mut self, source: &mut S) -> (r: ReplayResult)
        requires
            old(self).wf(),
            old(self)@.rewound(false).pipes.has_room(old(source).recording().len()),
        ensures
            final(self).wf(),
            final(self)@ == old(self)@.captured(false, old(source).recording()),
            final(self)@.pipes.is_idle(),
            final(self)@.yields(r),
            final(source).upcoming().len() == 0,
            final(source).recording() == old(source).recording(),
            forall|more: nat|
                old(self)@.rewound(false).pipes.has_room(old(source).recording().len() + more)
                    ==> #[trigger] final(self)@.pipes.has_room(more),
    {
        self.run_with_capture_internal(source, false)
    }

    fn run_with_capture_internal<S: DataSource>(&mut self, source: &mut S, reset: bool) -> (r:
        ReplayResult)
        requires
            old(self).wf(),
            old(self)@.rewound(reset).pipes.has_room(old(source).recording().len()),
        ensures
            final(self).wf(),
            final(self)@ == old(self)@.captured(reset, old(source).recording()),
            final(self)@.pipes.is_idle(),
            final(self)@.yields(r),
            final(source).upcoming().len() == 0,
            final(source).recording() == old(source).recording(),
            forall|more: nat|
                old(self)@.rewound(reset).pipes.has_room(old(source).recording().len() + more)
                    ==> #[trigger] final(self)@.pipes.has_room(more),
    {
        source.reset();
        self.begin_capture(reset);
        let ghost start = self@;
        let ghost coming = source.upcoming();
        let ghost mut seen: nat = 0;
        let mut exhausted = false;
        proof {
            assert(coming.skip(0) =~= coming);
            assert(coming.take(0) =~= Seq::<MarketEvent>::empty());
        }
        while !exhausted
            invariant
                self.wf(),
                seen <= coming.len(),
                coming.len() <= u64::MAX,
                source.recording() == old(source).recording(),
                source.upcoming() == coming.skip(seen as int),
                exhausted ==> seen == coming.len(),
                self@ == start.after_all_captured(coming.take(seen as int)),
                self@.event_index <= seen,
                self@.pipes.has_room((coming.len() - seen) as nat),
            decreases coming.len() - seen, (if exhausted { 0int } else { 1int }),
        {
            match source.next_event() {
                Some(event) => {
                    proof {
                        assert(event == coming[seen as int]);
                        assert(coming.skip(seen as int).drop_first() =~= coming.skip(
                            seen as int + 1,
                        ));
                        let next = coming.take(seen as int + 1);
                        assert(next.drop_last() =~= coming.take(seen as int));
                        assert(next.last() == event);
                        lemma_event_keeps_room(self@, event, (coming.len() - seen) as nat);
                        seen = seen + 1;
                    }
                    let _ = self.capture_event(event);
                },
                None => {
                    exhausted = true;
                },
            }
        }
        proof {
            assert(coming.take(coming.len() as int) =~= coming);
            assert forall|more: nat| start.pipes.has_room(coming.len() + more) implies
                #[trigger] self@.pipes.has_room(more) by {
                lemma_captured_events_keep_room(start, coming, more);
            }
        }
        self.finish_capture()
    }
}

fn copy_states(states: &Vec<RegimeState>) -> (r: Vec<RegimeState>)
    ensures
        r@ == states@,
{
    let mut out: Vec<RegimeState> = Vec::new();
    let mut i: usize = 0;
    while i < states.len()
        invariant
            i <= states@.len(),
            out@ == states@.take(i as int),
        decreases states@.len() - i,
    {
        out.push(states[i]);
        assert(out@ =~= states@.take(i + 1));
        i += 1;
    }
    assert(out@ =~= states@);
    out
}

fn copy_numbers(numbers: &Vec<u64>) -> (r: Vec<u64>)
    ensures
        r@ == numbers@,
{
    let mut out: Vec<u64> = Vec::new();
    let mut i: usize = 0;
    while i < numbers.len()
        invariant
            i <= numbers@.len(),
            out@ == numbers@.take(i as int),
        decreases numbers@.len() - i,
    {
        out.push(numbers[i]);
        assert(out@ =~= numbers@.take(i + 1));
        i += 1;
    }
    assert(out@ =~= numbers@);
    out
}

/// The clock of a replay goes to every event that is not earlier than the last; an
/// earlier one leaves it alone. The first event of all begins the replay's time.
pub proof fn the_clock_follows_the_events(model: ReplayModel, event: MarketEvent)
    ensures
        ({
            let after = model.clocked(event);
            let late = model.last_ts is Some && event.timestamp.nanos
                < model.last_ts->Some_0.nanos;
            &&& late ==> after == model
            &&& !late ==> after.clock == event.timestamp && after.last_ts == Some(event.timestamp)
            &&& !late && model.first_ts is None ==> after.first_ts == Some(event.timestamp)
            &&& model.first_ts is Some ==> after.first_ts == model.first_ts
            &&& after.pipes == model.pipes
            &&& after.stats == model.stats
            &&& after.log == model.log
        }),
{
}

/// Pumping a replay brings every waiting event into the book, answers every waiting
/// order, and books every fill; nothing waits afterwards.
pub proof fn pumping_leaves_nothing_waiting(model: ReplayModel)
    requires
        model.pipes.events_consumed + model.pipes.market.len() <= u64::MAX,
        model.pipes.orders_processed + model.pipes.orders.len() <= u64::MAX,
    ensures
        ({
            let after = model.pumped();
            let fills = model.pipes.market_drained().orders_drained().fills;
            &&& after.pipes.market.len() == 0
            &&& after.pipes.orders.len() == 0
            &&& after.pipes.fills.len() == 0
            &&& after.pipes.book == model.pipes.market_drained().book
            &&& after.pipes.events_consumed == model.pipes.events_consumed
                + model.pipes.market.len()
            &&& after.pipes.orders_processed == model.pipes.orders_processed
                + model.pipes.orders.len()
            &&& after.stats == model.stats.after_fills(fills)
            &&& after.clock == model.clock
            &&& after.first_ts == model.first_ts
            &&& after.last_ts == model.last_ts
            &&& after.log == model.log
        }),
{
    let drained = model.pipes.market_drained();
    every_waiting_order_is_answered(drained);
}

/// Every event of a replay reaches the book before the next one comes, and is
/// counted.
pub proof fn replayed_events_reach_the_book(model: ReplayModel, event: MarketEvent)
    requires
        model.pipes.market_limit > 0,
        model.pipes.market.len() <= model.pipes.market_limit,
        model.pipes.events_pushed < u64::MAX,
        model.pipes.events_consumed + model.pipes.market.len() < u64::MAX,
        model.pipes.orders_processed + model.pipes.orders.len() <= u64::MAX,
    ensures
        ({
            let after = model.after_event(event);
            &&& after.pipes.market.len() == 0
            &&& after.pipes.book == crate::order_book::book_after_all(
                model.pipes.book,
                model.pipes.market.push(event),
            )
            &&& after.pipes.events_consumed == model.pipes.events_consumed
                + model.pipes.market.len() + 1
            &&& after.pipes.events_pushed == model.pipes.events_pushed + 1
            &&& after.clock == model.clocked(event).clock
        }),
{
    fed_events_are_not_lost(model.pipes, event);
    let clocked = model.clocked(event);
    let fed = ReplayModel { pipes: clocked.pipes.fed(event), ..clocked };
    pumping_leaves_nothing_waiting(fed);
    every_waiting_order_is_answered(fed.pipes.market_drained());
}

/// The summary of a replay in full: events that reached the book, closed round trips
/// with those above zero as wins and those below as losses, their net and deepest
/// fall, and the time from the first event to the last.
pub proof fn replay_summary_in_full(model: ReplayModel)
    requires
        model.stats.pnls.len() <= u64::MAX,
    ensures
        ({
            let summary = model.summary();
            let pnls = model.stats.pnls;
            &&& summary.total_events == model.pipes.events_consumed
            &&& summary.total_trades == pnls.len()
            &&& summary.net_pnl_qt == saturating_sum(pnls)
            &&& summary.wins == pnls.filter(|p: int| p > 0).len()
            &&& summary.losses == pnls.filter(|p: int| p < 0).len()
            &&& forall|i: int, j: int|
                0 <= i <= j <= pnls.len() ==> #[trigger] fall(pnls, i, j)
                    <= summary.max_drawdown_qt
            &&& exists|i: int, j: int|
                0 <= i <= j <= pnls.len() && #[trigger] fall(pnls, i, j) == summary.max_drawdown_qt
            &&& model.first_ts is None || model.last_ts is None ==> summary.recorded_duration_nanos
                == 0
            &&& model.first_ts is Some && model.last_ts is Some && model.first_ts->Some_0.nanos
                <= model.last_ts->Some_0.nanos ==> model.first_ts->Some_0.nanos
                + summary.recorded_duration_nanos == model.last_ts->Some_0.nanos
        }),
{
    let pnls = model.stats.pnls;
    figures_fit(pnls);
    wins_and_losses_are_counted(pnls);
    drawdown_is_the_deepest_fall(pnls);
    decided_pairs_are_pairs(pnls);
    let (i, j) = choose|i: int, j: int|
        0 <= i <= j <= pnls.len() && #[trigger] fall(pnls, i, j) == deepest_drawdown(pnls);
    assert(fall(pnls, i, j) == model.summary().max_drawdown_qt);
}

/// What a replay journals goes out once, under the replay's own time; without a
/// journal nothing does.
pub proof fn replays_journal_under_their_clock(
    model: ReplayModel,
    category: Seq<char>,
    message: Seq<char>,
)
    ensures
        ({
            let after = model.journaled(category, message);
            &&& model.log is None ==> after.log is None
            &&& model.log matches Some(log) ==> after.log == Some(
                log.record(EventModel::System { timestamp: model.clock, category, message }),
            )
            &&& after.pipes == model.pipes
            &&& after.stats == model.stats
            &&& after.clock == model.clock
        }),
{
}

/// A replay that is captured anew starts over: nothing counted, nothing booked, an
/// empty book and no bar. What its detector knew it keeps only where that is asked
/// for. Queues and journal stay.
pub proof fn captures_start_over(model: ReplayModel, reset: bool)
    ensures
        ({
            let after = model.rewound(reset);
            &&& after.pipes.book.bid_count == 0
            &&& after.pipes.book.ask_count == 0
            &&& after.pipes.events_pushed == 0
            &&& after.pipes.events_consumed == 0
            &&& after.pipes.market == model.pipes.market
            &&& after.pipes.orders == model.pipes.orders
            &&& after.pipes.fills == model.pipes.fills
            &&& after.stats.legs.len() == 0
            &&& after.stats.pnls.len() == 0
            &&& after.clock.nanos == 0
            &&& after.first_ts is None
            &&& after.last_ts is None
            &&& after.bars.current is None
            &&& after.regimes.len() == 0
            &&& after.snapshots.len() == 0
            &&& after.event_index == 0
            &&& after.log == model.log
            &&& after.config == model.config
            &&& !reset && model.detector is Some ==> after.detector == model.detector
            &&& model.config.regime_instrumentation matches Some(regime) ==> {
                &&& after.bars.interval_nanos == regime.bar_interval_nanos
                &&& reset || model.detector is None ==> after.detector is Some
                    && after.detector->Some_0.config == regime.detector
                    && after.detector->Some_0.current == RegimeState::Unknown
                    && after.detector->Some_0.bars.len() == 0
                    && after.detector->Some_0.bars_processed == 0
                    && after.detector->Some_0.samples.len() == 0
            }
            &&& model.config.regime_instrumentation is None ==> after.bars.interval_nanos == 0
        }),
{
}

/// A captured replay hands every bar that closes to the detector and notes the regime
/// that the detector then names; no other event adds a regime.
pub proof fn closed_bars_name_a_regime(model: ReplayModel, event: MarketEvent)
    ensures
        ({
            let after = model.bar_noted(event);
            let closed = model.bars.closed_by(event);
            &&& model.detector is None ==> after == model
            &&& model.detector is Some ==> after.bars == model.bars.after(event)
            &&& model.detector is Some && closed is None ==> after.regimes == model.regimes
                && after.detector == model.detector
            &&& model.detector is Some && closed is Some ==> {
                &&& after.detector == Some(model.detector->Some_0.after(closed->Some_0))
                &&& after.regimes.len() == model.regimes.len() + 1
                &&& after.regimes.drop_last() == model.regimes
                &&& after.regimes.last() == after.detector->Some_0.current
            }
            &&& after.pipes == model.pipes
            &&& after.stats == model.stats
            &&& after.clock == model.clock
        }),
{
    let after = model.bar_noted(event);
    if after.regimes.len() == model.regimes.len() + 1 {
        assert(after.regimes.drop_last() =~= model.regimes);
    }
}

/// At its end a capture closes the bar in progress, which names one regime more, and
/// leaves none.
pub proof fn the_last_bar_is_closed(model: ReplayModel)
    ensures
        ({
            let after = model.capture_closed();
            let last = model.detector is Some && model.bars.current is Some;
            &&& after.bars.current is None
            &&& after.bars.interval_nanos == model.bars.interval_nanos
            &&& !last ==> after.regimes == model.regimes && after.detector == model.detector
            &&& last ==> {
                &&& after.regimes.len() == model.regimes.len() + 1
                &&& after.regimes.drop_last() == model.regimes
                &&& after.detector == Some(
                    model.detector->Some_0.after(model.bars.current->Some_0.finished()),
                )
                &&& after.regimes.last() == after.detector->Some_0.current
            }
            &&& after.stats == model.pumped().stats
            &&& after.pipes == model.pumped().pipes
        }),
{
    let after = model.capture_closed();
    if after.regimes.len() == model.regimes.len() + 1 {
        assert(after.regimes.drop_last() =~= model.regimes);
    }
}

/// A captured event is replayed like any other, numbered after the one before it, and
/// noted where its number is a multiple of the interval.
pub proof fn captured_events_are_numbered(model: ReplayModel, event: MarketEvent)
    requires
        model.pipes.market_limit > 0,
        model.event_index < u64::MAX,
    ensures
        ({
            let after = model.after_captured(event);
            let number = model.event_index + 1;
            let interval = model.config.snapshot_interval->Some_0;
            let due = model.config.snapshot_interval is Some && interval > 0 && number
                % interval as int == 0;
            &&& after.event_index == number
            &&& !due ==> after.snapshots == model.snapshots
            &&& due ==> after.snapshots == model.snapshots.push(number as u64)
            &&& after.pipes == model.after_event(event).pipes
            &&& after.stats == model.after_event(event).stats
            &&& after.clock == model.after_event(event).clock
            &&& after.regimes == model.after_event(event).bar_noted(event).regimes
            &&& after.bars == model.after_event(event).bar_noted(event).bars
        }),
{
}

/// The result of a capture holds what it came to.
pub proof fn results_hold_what_a_capture_came_to(model: ReplayModel, result: ReplayResult)
    requires
        model.yields(result),
    ensures
        result.total_events == model.pipes.events_consumed,
        result.total_trades == result.trade_pnls_qt@.len(),
        result.net_pnl_qt == saturating_sum(ints(result.trade_pnls_qt@)),
        result.trade_pnls_qt@.len() == model.stats.pnls.len(),
        forall|i: int|
            0 <= i < model.stats.pnls.len() ==> #[trigger] result.trade_pnls_qt@[i]
                == model.stats.pnls[i],
        result.regime_states@ == model.regimes,
        result.snapshot_events@ == model.snapshots,
{
    assert(ints(result.trade_pnls_qt@).len() == result.trade_pnls_qt@.len());
    assert forall|i: int| 0 <= i < model.stats.pnls.len() implies #[trigger]
        result.trade_pnls_qt@[i] == model.stats.pnls[i] by {
        assert(ints(result.trade_pnls_qt@)[i] == result.trade_pnls_qt@[i]);
    }
}

/// The market queue of a replay holds what its settings say, and otherwise the usual
/// 131072 events.
pub proof fn replays_have_the_usual_queue(config: ReplayConfig)
    ensures
        config.market_event_capacity is None ==> config.market_capacity() == 131_072,
        config.market_event_capacity matches Some(capacity) ==> config.market_capacity() == capacity,
{
}

/// Snapshots are due at the multiples of their interval, each once and in order, and
/// at no other number.
pub proof fn snapshots_are_due_at_multiples(interval: nat, count: nat, i: int)
    requires
        0 < interval,
        count <= u64::MAX,
        0 <= i < due_numbers(interval, count).len(),
    ensures
        due_numbers(interval, count)[i] == (i + 1) * interval,
        due_numbers(interval, count)[i] <= count,
        due_numbers(interval, count).len() * interval <= count < (due_numbers(interval, count).len()
            + 1) * interval,
{
    let times = count / interval;
    vstd::arithmetic::div_mod::lemma_fundamental_div_mod(count as int, interval as int);
    assert(interval * times == times * interval) by (nonlinear_arith);
    assert((times + 1) * interval == times * interval + interval) by (nonlinear_arith);
    assert((i + 1) * interval <= times * interval) by (nonlinear_arith)
        requires
            i + 1 <= times,
            0 < interval,
    ;
    assert((i + 1) * interval >= 0) by (nonlinear_arith)
        requires
            i >= 0,
    ;
}

} // verus!
