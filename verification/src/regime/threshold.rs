//! A regime detector with fixed thresholds.
//!
//! Over the most recent bars it compares the average true range with a limit for
//! volatile markets, and the share of bars that closed in the same direction with
//! a limit for trends. Thresholds are exact ratios, and prices are counted in
//! quarter-ticks, so that every comparison is one of whole numbers.
use std::collections::VecDeque;
use vstd::prelude::*;

use crate::arith::{plain_sum, plain_sum_splits};
use crate::types::{Bar, RegimeState};

verus! {

/// An exact non-negative fraction.
#[derive(Debug, Clone, Copy, PartialEq, Eq, Structural)]
pub struct Ratio {
    pub numerator: u64,
    pub denominator: u32,
}

/// Settings of the detector.
#[derive(Debug, Clone, Copy, PartialEq, Eq, Structural)]
pub struct ThresholdRegimeConfig {
    /// So many bars have to be seen before a regime is named.
    pub warmup_period: usize,
    /// Length of a bar; the detector does not look at it.
    pub bar_interval_minutes: u64,
    /// How many bars are looked back on.
    pub atr_period: usize,
    /// Average true range of a calm market, in quarter-ticks. Informational.
    pub atr_trending_threshold: Ratio,
    /// A market is volatile at or above this average true range, in quarter-ticks.
    pub atr_volatile_threshold: Ratio,
    /// Share of bars in one direction that makes a trend.
    pub directional_persistence_threshold: Ratio,
    /// Ratio of range to body of an undecided market. Informational.
    pub range_body_ratio_threshold: Ratio,
    /// Whether an unknown regime blocks trading.
    pub unknown_blocks_trading: bool,
}

impl Default for ThresholdRegimeConfig {
    fn default() -> (r: Self)
        ensures
            r == (ThresholdRegimeConfig {
                warmup_period: 30,
                bar_interval_minutes: 1,
                atr_period: 14,
                atr_trending_threshold: Ratio { numerator: 4, denominator: 1 },
                atr_volatile_threshold: Ratio { numerator: 16, denominator: 1 },
                directional_persistence_threshold: Ratio { numerator: 7, denominator: 10 },
                range_body_ratio_threshold: Ratio { numerator: 3, denominator: 1 },
                unknown_blocks_trading: true,
            }),
    {
        ThresholdRegimeConfig {
            warmup_period: 30,
            bar_interval_minutes: 1,
            atr_period: 14,
            atr_trending_threshold: Ratio { numerator: 4, denominator: 1 },
            atr_volatile_threshold: Ratio { numerator: 16, denominator: 1 },
            directional_persistence_threshold: Ratio { numerator: 7, denominator: 10 },
            range_body_ratio_threshold: Ratio { numerator: 3, denominator: 1 },
            unknown_blocks_trading: true,
        }
    }
}

/// Distance of two numbers.
pub open spec fn distance(a: int, b: int) -> int {
    if a >= b {
        a - b
    } else {
        b - a
    }
}

pub open spec fn larger(a: int, b: int) -> int {
    if a >= b {
        a
    } else {
        b
    }
}

/// The true range of a bar: the largest of its own span and its distances from
/// the close before it.
pub open spec fn true_range(prev: Bar, bar: Bar) -> int {
    let high = bar.high.quarter_ticks as int;
    let low = bar.low.quarter_ticks as int;
    let close = prev.close.quarter_ticks as int;
    larger(larger(distance(high, low), distance(high, close)), distance(low, close))
}

/// Sum of the true ranges of the last `pairs` bars, each with the bar before it.
pub open spec fn range_sum(bars: Seq<Bar>, pairs: nat) -> int
    decreases pairs,
{
    if pairs == 0 || bars.len() <= pairs {
        0
    } else {
        true_range(bars[bars.len() - pairs - 1], bars[bars.len() - pairs]) + range_sum(
            bars,
            (pairs - 1) as nat,
        )
    }
}

/// How many bars have a bar before them, up to the period.
pub open spec fn pair_count(bars: Seq<Bar>, period: nat) -> nat {
    if bars.len() < 2 {
        0
    } else if bars.len() - 1 < period {
        (bars.len() - 1) as nat
    } else {
        period
    }
}

/// How many bars are looked back on: the period as far as there are bars, and at
/// least one.
pub open spec fn lookback(bars: Seq<Bar>, period: nat) -> nat {
    if bars.len() < period {
        if bars.len() == 0 {
            1
        } else {
            bars.len()
        }
    } else if period == 0 {
        1
    } else {
        period
    }
}

/// How many of the last `count` bars closed above their open.
pub open spec fn rising(bars: Seq<Bar>, count: nat) -> nat
    decreases count,
{
    if count == 0 || bars.len() < count {
        0
    } else {
        let bar = bars[bars.len() - count];
        rising(bars, (count - 1) as nat) + if bar.close.quarter_ticks > bar.open.quarter_ticks {
            1nat
        } else {
            0
        }
    }
}

/// How many of the last `count` bars closed below their open.
pub open spec fn falling(bars: Seq<Bar>, count: nat) -> nat
    decreases count,
{
    if count == 0 || bars.len() < count {
        0
    } else {
        let bar = bars[bars.len() - count];
        falling(bars, (count - 1) as nat) + if bar.close.quarter_ticks < bar.open.quarter_ticks {
            1nat
        } else {
            0
        }
    }
}

/// Whether the average true range is at least the limit for volatile markets.
/// The average of no ranges is zero.
pub open spec fn is_volatile(bars: Seq<Bar>, config: ThresholdRegimeConfig) -> bool {
    let pairs = pair_count(bars, config.atr_period as nat);
    range_sum(bars, pairs) * config.atr_volatile_threshold.denominator
        >= config.atr_volatile_threshold.numerator * larger(pairs as int, 1)
}

/// Whether the share of bars in the dominant direction makes a trend.
pub open spec fn is_persistent(bars: Seq<Bar>, config: ThresholdRegimeConfig) -> bool {
    let count = lookback(bars, config.atr_period as nat);
    larger(rising(bars, count) as int, falling(bars, count) as int)
        * config.directional_persistence_threshold.denominator
        >= config.directional_persistence_threshold.numerator * count
}

/// The regime of the bars once the detector is warm.
pub open spec fn regime_of(bars: Seq<Bar>, config: ThresholdRegimeConfig) -> RegimeState {
    if is_volatile(bars, config) && !is_persistent(bars, config) {
        RegimeState::Volatile
    } else if is_persistent(bars, config) && !is_volatile(bars, config) {
        RegimeState::Trending
    } else {
        RegimeState::Rotational
    }
}

/// A sum of true ranges together with the number of bars in it: their quotient is
/// the average true range.
#[derive(Debug, Clone, Copy, PartialEq, Eq, Structural)]
pub struct AtrSample {
    pub range_sum: u128,
    pub pairs: usize,
}

/// The detector as a mathematical value.
#[verifier::ext_equal]
pub struct DetectorModel {
    pub config: ThresholdRegimeConfig,
    pub current: RegimeState,
    /// The bars that are kept, oldest first.
    pub bars: Seq<Bar>,
    pub bars_processed: usize,
    pub samples: Seq<AtrSample>,
}

/// How many bars are kept: one more than are looked back on, as far as that can
/// be counted, or as many as the warm-up takes.
pub open spec fn bars_kept(config: ThresholdRegimeConfig) -> int {
    let by_period = if config.atr_period == usize::MAX {
        usize::MAX as int
    } else {
        config.atr_period + 1
    };
    larger(larger(by_period, config.warmup_period as int), 1)
}

/// The sequence with one more item, shortened at the front to `limit`.
pub open spec fn pushed<T>(items: Seq<T>, item: T, limit: int) -> Seq<T> {
    if items.len() >= limit {
        items.drop_first().push(item)
    } else {
        items.push(item)
    }
}

impl DetectorModel {
    /// The detector after one more bar.
    pub open spec fn after(self, bar: Bar) -> DetectorModel {
        let bars = pushed(self.bars, bar, bars_kept(self.config));
        let processed = if self.bars_processed == usize::MAX {
            usize::MAX
        } else {
            (self.bars_processed + 1) as usize
        };
        let pairs = pair_count(bars, self.config.atr_period as nat);
        DetectorModel {
            bars,
            bars_processed: processed,
            samples: if bars.len() >= 2 {
                pushed(
                    self.samples,
                    AtrSample { range_sum: range_sum(bars, pairs) as u128, pairs: pairs as usize },
                    larger(self.config.atr_period as int, 1),
                )
            } else {
                self.samples
            },
            current: if processed < self.config.warmup_period {
                RegimeState::Unknown
            } else {
                regime_of(bars, self.config)
            },
            ..self
        }
    }
}

/// Names the regime of a stream of bars.
pub struct ThresholdRegimeDetector {
    config: ThresholdRegimeConfig,
    current_state: RegimeState,
    bar_buffer: VecDeque<Bar>,
    bars_processed: usize,
    atr_values: VecDeque<AtrSample>,
}

impl View for ThresholdRegimeDetector {
    type V = DetectorModel;

    closed spec fn view(&self) -> DetectorModel {
        DetectorModel {
            config: self.config,
            current: self.current_state,
            bars: self.bar_buffer@,
            bars_processed: self.bars_processed,
            samples: self.atr_values@,
        }
    }
}

fn distance_of(a: i64, b: i64) -> (r: u64)
    ensures
        r == distance(a as int, b as int),
{
    let wide: i128 = if a >= b {
        a as i128 - b as i128
    } else {
        b as i128 - a as i128
    };
    wide as u64
}

fn larger_of(a: u64, b: u64) -> (r: u64)
    ensures
        r == larger(a as int, b as int),
{
    if a >= b {
        a
    } else {
        b
    }
}

proof fn lemma_product_fits(a: int, b: int, a_max: int, b_max: int)
    requires
        0 <= a <= a_max,
        0 <= b <= b_max,
    ensures
        0 <= a * b <= a_max * b_max,
{
    assert(0 <= a * b <= a_max * b_max) by (nonlinear_arith)
        requires
            0 <= a <= a_max,
            0 <= b <= b_max,
    ;
}

impl ThresholdRegimeDetector {
    /// A detector that has seen no bar.
    pub fn new(config: ThresholdRegimeConfig) -> (r: Self)
        ensures
            r@ == (DetectorModel {
                config,
                current: RegimeState::Unknown,
                bars: Seq::empty(),
                bars_processed: 0,
                samples: Seq::empty(),
            }),
    {
        ThresholdRegimeDetector {
            config,
            current_state: RegimeState::Unknown,
            bar_buffer: VecDeque::new(),
            bars_processed: 0,
            atr_values: VecDeque::new(),
        }
    }

    pub fn config(&self) -> (r: &ThresholdRegimeConfig)
        ensures
            *r == self@.config,
    {
        &self.config
    }

    pub fn bars_processed(&self) -> (r: usize)
        ensures
            r == self@.bars_processed,
    {
        self.bars_processed
    }

    /// How many bars are kept at present.
    pub fn buffered(&self) -> (r: usize)
        ensures
            r == self@.bars.len(),
    {
        self.bar_buffer.len()
    }

    /// The true ranges over the lookback, as a sum and a count.
    pub fn compute_atr(&self) -> (r: AtrSample)
        ensures
            r.pairs == pair_count(self@.bars, self@.config.atr_period as nat),
            r.range_sum == range_sum(
                self@.bars,
                pair_count(self@.bars, self@.config.atr_period as nat),
            ),
            r.range_sum <= r.pairs * u64::MAX,
    {
        let n_bars: usize = self.bar_buffer.len();
        if n_bars < 2 {
            return AtrSample { range_sum: 0, pairs: 0 };
        }
        let pairs: usize = if n_bars - 1 < self.config.atr_period {
            n_bars - 1
        } else {
            self.config.atr_period
        };
        let ghost bars = self.bar_buffer@;
        let mut sum: u128 = 0;
        let mut done: usize = 0;
        while done < pairs
            invariant
                done <= pairs,
                bars == self.bar_buffer@,
                n_bars == bars.len(),
                pairs < n_bars,
                sum == range_sum(bars, done as nat),
                sum <= done * 0xffff_ffff_ffff_ffff,
            decreases pairs - done,
        {
            let prev = self.bar_buffer[n_bars - done - 2];
            let bar = self.bar_buffer[n_bars - done - 1];
            let span: u64 = distance_of(bar.high.raw(), bar.low.raw());
            let above: u64 = distance_of(bar.high.raw(), prev.close.raw());
            let below: u64 = distance_of(bar.low.raw(), prev.close.raw());
            let range: u64 = larger_of(larger_of(span, above), below);
            assert(range == true_range(prev, bar));
            sum = sum + range as u128;
            done = done + 1;
        }
        AtrSample { range_sum: sum, pairs }
    }

    /// How many of the bars looked back on closed in the dominant direction, and
    /// how many bars those were.
    pub fn compute_directional_persistence(&self) -> (r: (usize, usize))
        ensures
            r.1 == lookback(self@.bars, self@.config.atr_period as nat),
            r.0 == larger(
                rising(self@.bars, lookback(self@.bars, self@.config.atr_period as nat)) as int,
                falling(self@.bars, lookback(self@.bars, self@.config.atr_period as nat)) as int,
            ),
            r.0 <= r.1,
    {
        let n_bars: usize = self.bar_buffer.len();
        if n_bars == 0 {
            return (0, 1);
        }
        let count: usize = if n_bars < self.config.atr_period {
            n_bars
        } else if self.config.atr_period == 0 {
            1
        } else {
            self.config.atr_period
        };
        let ghost bars = self.bar_buffer@;
        let mut up: usize = 0;
        let mut down: usize = 0;
        let mut done: usize = 0;
        while done < count
            invariant
                done <= count,
                count <= n_bars,
                bars == self.bar_buffer@,
                n_bars == bars.len(),
                up == rising(bars, done as nat),
                down == falling(bars, done as nat),
                up + down <= done,
            decreases count - done,
        {
            let bar = self.bar_buffer[n_bars - done - 1];
            if bar.close.raw() > bar.open.raw() {
                up = up + 1;
            } else if bar.close.raw() < bar.open.raw() {
                down = down + 1;
            }
            done = done + 1;
        }
        if up >= down {
            (up, count)
        } else {
            (down, count)
        }
    }

    fn classify(&self) -> (r: RegimeState)
        ensures
            r == (if self@.bars_processed < self@.config.warmup_period {
                RegimeState::Unknown
            } else {
                regime_of(self@.bars, self@.config)
            }),
    {
        if self.bars_processed < self.config.warmup_period {
            return RegimeState::Unknown;
        }
        let atr = self.compute_atr();
        let (dominant, count) = self.compute_directional_persistence();
        let range_limit = self.config.atr_volatile_threshold;
        let trend_limit = self.config.directional_persistence_threshold;
        let pairs: usize = if atr.pairs == 0 {
            1
        } else {
            atr.pairs
        };
        proof {
            lemma_product_fits(
                range_limit.numerator as int,
                pairs as int,
                0xffff_ffff_ffff_ffff,
                0xffff_ffff_ffff_ffff,
            );
            lemma_product_fits(
                dominant as int,
                trend_limit.denominator as int,
                0xffff_ffff_ffff_ffff,
                0xffff_ffff,
            );
            lemma_product_fits(
                trend_limit.numerator as int,
                count as int,
                0xffff_ffff_ffff_ffff,
                0xffff_ffff_ffff_ffff,
            );
        }
        // A product too large to be held is larger than any that stands against it.
        let limit: u128 = range_limit.numerator as u128 * pairs as u128;
        let volatile = match atr.range_sum.checked_mul(range_limit.denominator as u128) {
            Some(total) => total >= limit,
            None => true,
        };
        let strong_persistence = dominant as u128 * trend_limit.denominator as u128
            >= trend_limit.numerator as u128 * count as u128;
        if volatile && !strong_persistence {
            RegimeState::Volatile
        } else if strong_persistence && !volatile {
            RegimeState::Trending
        } else {
            RegimeState::Rotational
        }
    }

    /// Keeps a bar, and forgets the oldest one where there are too many.
    pub fn push_bar(&mut self, bar: Bar)
        ensures
            final(self)@ == (DetectorModel {
                bars: pushed(old(self)@.bars, bar, bars_kept(old(self)@.config)),
                ..old(self)@
            }),
    {
        let by_period: usize = self.config.atr_period.saturating_add(1);
        let len: usize = self.bar_buffer.len();
        if len >= by_period && len >= self.config.warmup_period && len >= 1 {
            let _ = self.bar_buffer.pop_front();
        }
        self.bar_buffer.push_back(bar);
        assert(self@.bars =~= pushed(old(self)@.bars, bar, bars_kept(old(self)@.config)));
    }

    fn record_atr_sample(&mut self, sample: AtrSample)
        ensures
            final(self)@ == (DetectorModel {
                samples: pushed(
                    old(self)@.samples,
                    sample,
                    larger(old(self)@.config.atr_period as int, 1),
                ),
                ..old(self)@
            }),
    {
        let len: usize = self.atr_values.len();
        if len >= self.config.atr_period && len >= 1 {
            let _ = self.atr_values.pop_front();
        }
        self.atr_values.push_back(sample);
        assert(self@.samples =~= pushed(
            old(self)@.samples,
            sample,
            larger(old(self)@.config.atr_period as int, 1),
        ));
    }

    /// Takes a bar in and names the regime.
    pub fn update(&mut self, bar: &Bar) -> (r: RegimeState)
        ensures
            final(self)@ == old(self)@.after(*bar),
            r == final(self)@.current,
    {
        self.push_bar(*bar);
        self.bars_processed = self.bars_processed.saturating_add(1);
        if self.bar_buffer.len() >= 2 {
            let atr = self.compute_atr();
            self.record_atr_sample(atr);
        }
        self.current_state = self.classify();
        self.current_state
    }

    pub fn current(&self) -> (r: RegimeState)
        ensures
            r == self@.current,
    {
        self.current_state
    }
}

/// Before the warm-up is over, no regime is named; afterwards one always is.
pub proof fn warmup_is_unknown(model: DetectorModel, bar: Bar)
    ensures
        model.after(bar).current is Unknown <==> model.after(bar).bars_processed
            < model.config.warmup_period,
{
}

/// The detector never keeps more bars than it needs.
pub proof fn buffer_is_bounded(model: DetectorModel, bar: Bar)
    requires
        model.bars.len() <= bars_kept(model.config),
    ensures
        model.after(bar).bars.len() <= bars_kept(model.config),
{
}

/// The true range reaches as far as the bar's own span and as its ends lie from
/// the close before it, and no further.
pub proof fn true_range_reaches_the_farthest(prev: Bar, bar: Bar)
    ensures
        ({
            let high = bar.high.quarter_ticks;
            let low = bar.low.quarter_ticks;
            let close = prev.close.quarter_ticks;
            let range = true_range(prev, bar);
            &&& range >= high - low && range >= low - high
            &&& range >= high - close && range >= close - high
            &&& range >= low - close && range >= close - low
            &&& range == high - low || range == low - high || range == high - close || range
                == close - high || range == low - close || range == close - low
        }),
{
}

/// The range sum adds the true ranges of the last `pairs` bars up, each taken with
/// the bar right before it.
pub proof fn range_sum_adds_true_ranges(bars: Seq<Bar>, pairs: nat)
    requires
        pairs < bars.len(),
    ensures
        range_sum(bars, pairs) == plain_sum(
            Seq::new(
                pairs,
                |i: int|
                    true_range(bars[bars.len() - pairs - 1 + i], bars[bars.len() - pairs + i]),
            ),
        ),
    decreases pairs,
{
    let n = bars.len() as int;
    let ranges = Seq::new(pairs, |i: int| true_range(bars[n - pairs - 1 + i], bars[n - pairs + i]));
    if pairs > 0 {
        let fewer = (pairs - 1) as nat;
        range_sum_adds_true_ranges(bars, fewer);
        let later = Seq::new(
            fewer,
            |i: int| true_range(bars[n - fewer - 1 + i], bars[n - fewer + i]),
        );
        let first = seq![true_range(bars[n - pairs - 1], bars[n - pairs])];
        assert(ranges =~= first + later);
        plain_sum_splits(first, later);
        assert(first.drop_last() =~= Seq::<int>::empty());
        assert(plain_sum(first.drop_last()) == 0);
        assert(plain_sum(first) == first.last());
    }
}

/// As many true ranges are averaged as the period asks for and the bars allow.
pub proof fn pairs_are_as_many_as_there_are(bars: Seq<Bar>, period: nat)
    ensures
        pair_count(bars, period) <= period,
        bars.len() > 0 ==> pair_count(bars, period) <= bars.len() - 1,
        bars.len() == 0 ==> pair_count(bars, period) == 0,
        pair_count(bars, period) == period || bars.len() == 0 || pair_count(bars, period)
            == bars.len() - 1,
{
}

/// As many bars are looked back on as the period asks for and there are, but at
/// least one.
pub proof fn lookback_is_as_long_as_there_are_bars(bars: Seq<Bar>, period: nat)
    ensures
        lookback(bars, period) >= 1,
        bars.len() >= 1 ==> lookback(bars, period) <= bars.len(),
        period >= 1 ==> lookback(bars, period) <= period,
        lookback(bars, period) == period || lookback(bars, period) == bars.len() || lookback(
            bars,
            period,
        ) == 1,
        1 <= period <= bars.len() ==> lookback(bars, period) == period,
        1 <= bars.len() <= period ==> lookback(bars, period) == bars.len(),
{
}

proof fn lemma_one_bar(bar: Bar, pred: spec_fn(Bar) -> bool)
    ensures
        seq![bar].filter(pred).len() == if pred(bar) {
            1nat
        } else {
            0
        },
{
    reveal(Seq::filter);
    assert(seq![bar].drop_last() =~= Seq::<Bar>::empty());
    assert(seq![bar].drop_last().filter(pred) =~= Seq::<Bar>::empty());
}

/// The rising bars are those of the last `count` that close above their open, and
/// the falling ones those that close below it.
pub proof fn rising_and_falling_bars_are_counted(bars: Seq<Bar>, count: nat)
    requires
        count <= bars.len(),
    ensures
        rising(bars, count) == bars.skip(bars.len() - count).filter(
            |bar: Bar| bar.close.quarter_ticks > bar.open.quarter_ticks,
        ).len(),
        falling(bars, count) == bars.skip(bars.len() - count).filter(
            |bar: Bar| bar.close.quarter_ticks < bar.open.quarter_ticks,
        ).len(),
    decreases count,
{
    let up = |bar: Bar| bar.close.quarter_ticks > bar.open.quarter_ticks;
    let down = |bar: Bar| bar.close.quarter_ticks < bar.open.quarter_ticks;
    let last = bars.skip(bars.len() - count);
    if count == 0 {
        reveal(Seq::filter);
        assert(last =~= Seq::<Bar>::empty());
    } else {
        let fewer = (count - 1) as nat;
        let first = seq![bars[bars.len() - count]];
        let later = bars.skip(bars.len() - fewer);
        rising_and_falling_bars_are_counted(bars, fewer);
        assert(last =~= first + later);
        Seq::filter_distributes_over_add(first, later, up);
        Seq::filter_distributes_over_add(first, later, down);
        lemma_one_bar(first[0], up);
        lemma_one_bar(first[0], down);
    }
}

proof fn lemma_all_counted(bars: Seq<Bar>, count: nat)
    requires
        count <= bars.len(),
    ensures
        (forall|i: int|
            bars.len() - count <= i < bars.len() ==> (#[trigger] bars[i]).close.quarter_ticks
                < bars[i].open.quarter_ticks) ==> falling(bars, count) == count && rising(
            bars,
            count,
        ) == 0,
        (forall|i: int|
            bars.len() - count <= i < bars.len() ==> (#[trigger] bars[i]).close.quarter_ticks
                > bars[i].open.quarter_ticks) ==> rising(bars, count) == count && falling(
            bars,
            count,
        ) == 0,
        rising(bars, count) + falling(bars, count) <= count,
    decreases count,
{
    if count > 0 {
        lemma_all_counted(bars, (count - 1) as nat);
    }
}

/// A market that only falls trends as one that only rises does: where every bar
/// looked back on closes on the same side of its open, all of them count, and a
/// calm market is trending.
pub proof fn one_way_markets_trend(bars: Seq<Bar>, config: ThresholdRegimeConfig)
    requires
        bars.len() > 0,
        ({
            let count = lookback(bars, config.atr_period as nat);
            ||| forall|i: int|
                bars.len() - count <= i < bars.len() ==> (#[trigger] bars[i]).close.quarter_ticks
                    < bars[i].open.quarter_ticks
            ||| forall|i: int|
                bars.len() - count <= i < bars.len() ==> (#[trigger] bars[i]).close.quarter_ticks
                    > bars[i].open.quarter_ticks
        }),
        config.directional_persistence_threshold.numerator
            <= config.directional_persistence_threshold.denominator,
    ensures
        ({
            let count = lookback(bars, config.atr_period as nat);
            larger(rising(bars, count) as int, falling(bars, count) as int) == count
        }),
        is_persistent(bars, config),
        !is_volatile(bars, config) ==> regime_of(bars, config) is Trending,
        is_volatile(bars, config) ==> regime_of(bars, config) is Rotational,
{
    let count = lookback(bars, config.atr_period as nat);
    lemma_all_counted(bars, count);
    let limit = config.directional_persistence_threshold;
    assert(count * limit.denominator >= limit.numerator * count) by (nonlinear_arith)
        requires
            limit.numerator <= limit.denominator,
            0 <= count,
    ;
}

proof fn lemma_mirrored_counts(bars: Seq<Bar>, mirrored: Seq<Bar>, count: nat)
    requires
        bars.len() == mirrored.len(),
        count <= bars.len(),
        forall|i: int|
            0 <= i < bars.len() ==> (#[trigger] bars[i]).close.quarter_ticks
                - bars[i].open.quarter_ticks == mirrored[i].open.quarter_ticks
                - mirrored[i].close.quarter_ticks,
    ensures
        rising(bars, count) == falling(mirrored, count),
        falling(bars, count) == rising(mirrored, count),
    decreases count,
{
    if count > 0 {
        lemma_mirrored_counts(bars, mirrored, (count - 1) as nat);
        let bar = bars[bars.len() - count];
    }
}

/// Up and down are treated alike: bars that move by as much the other way are as
/// persistent.
pub proof fn directions_are_treated_alike(
    bars: Seq<Bar>,
    mirrored: Seq<Bar>,
    config: ThresholdRegimeConfig,
)
    requires
        bars.len() == mirrored.len(),
        bars.len() > 0,
        forall|i: int|
            0 <= i < bars.len() ==> (#[trigger] bars[i]).close.quarter_ticks
                - bars[i].open.quarter_ticks == mirrored[i].open.quarter_ticks
                - mirrored[i].close.quarter_ticks,
    ensures
        is_persistent(bars, config) == is_persistent(mirrored, config),
{
    lemma_mirrored_counts(bars, mirrored, lookback(bars, config.atr_period as nat));
}

/// The regime in full. A market is volatile where its average true range is at
/// least the limit, and persistent where the share of the bars on its stronger
/// side is. Volatile alone is volatile, persistent alone trends, and both or
/// neither rotates.
pub proof fn regimes_in_full(bars: Seq<Bar>, config: ThresholdRegimeConfig)
    requires
        bars.len() > 0,
    ensures
        ({
            let period = config.atr_period as int;
            let n = bars.len() as int;
            let pairs = if period < n - 1 {
                period
            } else {
                n - 1
            };
            let count = if period == 0 {
                1
            } else if period < n {
                period
            } else {
                n
            };
            let averaged = if pairs == 0 {
                1
            } else {
                pairs
            };
            let ranges = Seq::new(
                pairs as nat,
                |i: int| true_range(bars[n - pairs - 1 + i], bars[n - pairs + i]),
            );
            let last = bars.skip(n - count);
            let ups = last.filter(
                |bar: Bar| bar.close.quarter_ticks > bar.open.quarter_ticks,
            ).len();
            let downs = last.filter(
                |bar: Bar| bar.close.quarter_ticks < bar.open.quarter_ticks,
            ).len();
            let range_limit = config.atr_volatile_threshold;
            let trend_limit = config.directional_persistence_threshold;
            let volatile = plain_sum(ranges) * range_limit.denominator >= range_limit.numerator
                * averaged;
            let persistent = ups * trend_limit.denominator >= trend_limit.numerator * count || downs
                * trend_limit.denominator >= trend_limit.numerator * count;
            &&& regime_of(bars, config) is Volatile <==> volatile && !persistent
            &&& regime_of(bars, config) is Trending <==> persistent && !volatile
            &&& regime_of(bars, config) is Rotational <==> volatile == persistent
        }),
{
    let period = config.atr_period as nat;
    let pairs = pair_count(bars, period);
    let count = lookback(bars, period);
    range_sum_adds_true_ranges(bars, pairs);
    rising_and_falling_bars_are_counted(bars, count);
    let d = config.directional_persistence_threshold.denominator as int;
    let ups = rising(bars, count) as int;
    let downs = falling(bars, count) as int;
    assert(ups >= downs ==> ups * d >= downs * d) by (nonlinear_arith)
        requires
            0 <= d,
    ;
    assert(downs >= ups ==> downs * d >= ups * d) by (nonlinear_arith)
        requires
            0 <= d,
    ;
}

/// A detector keeps the latest bars, as many as it needs, in the order in which
/// they came, and forgets only the oldest.
pub proof fn the_latest_bars_are_kept(model: DetectorModel, bar: Bar)
    requires
        model.config.atr_period < usize::MAX,
    ensures
        ({
            let after = model.after(bar);
            let all = model.bars.push(bar);
            let room = model.bars.len() < model.config.atr_period + 1 || model.bars.len()
                < model.config.warmup_period;
            &&& room ==> after.bars == all
            &&& !room ==> after.bars == all.skip(1)
            &&& after.config == model.config
            &&& model.bars_processed < usize::MAX ==> after.bars_processed
                == model.bars_processed + 1
        }),
{
    let all = model.bars.push(bar);
    if model.bars.len() > 0 {
        assert(model.bars.drop_first().push(bar) =~= all.skip(1));
    }
}

/// Every bar from the second on leaves a sample: the true ranges over the period
/// up to that bar.
pub proof fn every_bar_leaves_its_sample(model: DetectorModel, bar: Bar)
    requires
        model.bars.len() < usize::MAX,
    ensures
        ({
            let after = model.after(bar);
            let pairs = pair_count(after.bars, model.config.atr_period as nat);
            &&& after.bars.len() < 2 ==> after.samples == model.samples
            &&& after.bars.len() >= 2 ==> after.samples.len() > 0 && after.samples.last().pairs
                == pairs
            &&& after.bars.len() >= 2 && range_sum(after.bars, pairs) <= u128::MAX
                ==> after.samples.last().range_sum == range_sum(after.bars, pairs)
            &&& after.samples.len() <= model.samples.len() + 1
        }),
{
    let after = model.after(bar);
    lemma_range_sum_is_nonnegative(
        after.bars,
        pair_count(after.bars, model.config.atr_period as nat),
    );
}

proof fn lemma_range_sum_is_nonnegative(bars: Seq<Bar>, pairs: nat)
    ensures
        range_sum(bars, pairs) >= 0,
    decreases pairs,
{
    if pairs > 0 {
        lemma_range_sum_is_nonnegative(bars, (pairs - 1) as nat);
    }
}

/// Once warm, a detector names the regime of the bars that it keeps; before, none.
pub proof fn a_warm_detector_names_the_regime_of_its_bars(model: DetectorModel, bar: Bar)
    ensures
        ({
            let after = model.after(bar);
            &&& after.bars_processed >= model.config.warmup_period ==> after.current == regime_of(
                after.bars,
                model.config,
            )
            &&& after.bars_processed < model.config.warmup_period ==> after.current is Unknown
            &&& after.bars.last() == bar
        }),
{
}

} // verus!
