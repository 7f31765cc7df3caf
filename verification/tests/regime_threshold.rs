use futures_bmad_engine::regime::threshold::{
    AtrSample, Ratio, ThresholdRegimeConfig, ThresholdRegimeDetector,
};
use futures_bmad_engine::types::{Bar, FixedPrice, RegimeState, UnixNanos};

fn price(value: f64) -> FixedPrice {
    FixedPrice::new((value * 4.0).round() as i64)
}

fn mk_bar(open: f64, high: f64, low: f64, close: f64, ts_nanos: u64) -> Bar {
    Bar {
        open: price(open),
        high: price(high),
        low: price(low),
        close: price(close),
        volume: 100,
        timestamp: UnixNanos::new(ts_nanos),
    }
}

/// Thresholds on ranges are in quarter-ticks, four to the point.
fn fast_warmup_config() -> ThresholdRegimeConfig {
    ThresholdRegimeConfig {
        warmup_period: 5,
        bar_interval_minutes: 1,
        atr_period: 5,
        atr_trending_threshold: Ratio { numerator: 4, denominator: 1 },
        atr_volatile_threshold: Ratio { numerator: 20, denominator: 1 },
        directional_persistence_threshold: Ratio { numerator: 7, denominator: 10 },
        range_body_ratio_threshold: Ratio { numerator: 3, denominator: 1 },
        unknown_blocks_trading: true,
    }
}

#[test]
fn defaults_block_trading_on_unknown() {
    let cfg = ThresholdRegimeConfig::default();
    assert!(cfg.unknown_blocks_trading);
    assert_eq!(cfg.bar_interval_minutes, 1);
    assert_eq!(cfg.warmup_period, 30);
}

#[test]
fn unknown_blocks_trading_flag_is_accessible() {
    let mut cfg = ThresholdRegimeConfig::default();
    assert!(cfg.unknown_blocks_trading);
    cfg.unknown_blocks_trading = false;
    let detector = ThresholdRegimeDetector::new(cfg);
    assert!(!detector.config().unknown_blocks_trading);
}

#[test]
fn accepts_one_minute_and_five_minute_intervals() {
    for interval in [1u64, 5u64] {
        let cfg = ThresholdRegimeConfig {
            bar_interval_minutes: interval,
            ..ThresholdRegimeConfig::default()
        };
        let detector = ThresholdRegimeDetector::new(cfg);
        assert_eq!(detector.config().bar_interval_minutes, interval);
    }
}

#[test]
fn fewer_bars_than_warmup_returns_unknown() {
    let mut detector = ThresholdRegimeDetector::new(fast_warmup_config());
    let mut price = 100.0_f64;
    for i in 0..3 {
        let bar = mk_bar(price, price + 0.5, price - 0.25, price + 0.25, i * 60);
        detector.update(&bar);
        price += 0.25;
    }
    assert_eq!(detector.current(), RegimeState::Unknown);
}

#[test]
fn transitions_from_unknown_after_warmup() {
    let cfg = fast_warmup_config();
    let warmup = cfg.warmup_period;
    let mut detector = ThresholdRegimeDetector::new(cfg);
    let mut price = 100.0_f64;
    for i in 0..(warmup - 1) {
        let bar = mk_bar(price, price + 0.5, price - 0.25, price + 0.25, i as u64 * 60);
        let state = detector.update(&bar);
        assert_eq!(state, RegimeState::Unknown);
        price += 0.25;
    }
    let bar = mk_bar(price, price + 0.5, price - 0.25, price + 0.25, 999);
    let state = detector.update(&bar);
    assert_ne!(state, RegimeState::Unknown);
    assert_eq!(detector.current(), state);
}

#[test]
fn trending_sequence_classifies_as_trending() {
    let mut detector = ThresholdRegimeDetector::new(fast_warmup_config());
    let mut price = 100.0_f64;
    let step = 0.5_f64;
    for i in 0..20 {
        let open = price;
        let close = price + step;
        let high = close + 0.25;
        let low = open - 0.25;
        let bar = mk_bar(open, high, low, close, i as u64 * 60);
        detector.update(&bar);
        price = close;
    }
    assert_eq!(detector.current(), RegimeState::Trending);
}

#[test]
fn choppy_sideways_sequence_classifies_as_rotational() {
    let mut detector = ThresholdRegimeDetector::new(fast_warmup_config());
    let center = 100.0_f64;
    for i in 0..20 {
        let (open, close) =
            if i % 2 == 0 { (center, center + 0.25) } else { (center + 0.25, center) };
        let high = open.max(close) + 0.5;
        let low = open.min(close) - 0.5;
        let bar = mk_bar(open, high, low, close, i as u64 * 60);
        detector.update(&bar);
    }
    assert_eq!(detector.current(), RegimeState::Rotational);
}

#[test]
fn volatile_sequence_classifies_as_volatile() {
    let mut detector = ThresholdRegimeDetector::new(fast_warmup_config());
    let center = 100.0_f64;
    for i in 0..20 {
        let (open, close) = if i % 2 == 0 {
            (center - 0.5, center + 0.25)
        } else {
            (center + 0.5, center - 0.25)
        };
        let high = center + 6.0;
        let low = center - 6.0;
        let bar = mk_bar(open, high, low, close, i as u64 * 60);
        detector.update(&bar);
    }
    assert_eq!(detector.current(), RegimeState::Volatile);
}

#[test]
fn ring_buffer_does_not_grow_unbounded() {
    let cfg = fast_warmup_config();
    let cap_hint = cfg.atr_period.saturating_add(1).max(cfg.warmup_period);
    let mut detector = ThresholdRegimeDetector::new(cfg);
    for i in 0..1_000 {
        let p = 100.0 + (i as f64) * 0.01;
        let bar = mk_bar(p, p + 0.25, p - 0.25, p, i as u64 * 60);
        detector.update(&bar);
    }
    assert!(detector.buffered() <= cap_hint);
    assert_eq!(detector.bars_processed(), 1_000);
}

#[test]
fn compute_atr_handles_malformed_bar_with_low_above_high() {
    let cfg = ThresholdRegimeConfig { atr_period: 1, ..fast_warmup_config() };
    let mut detector = ThresholdRegimeDetector::new(cfg);
    detector.push_bar(mk_bar(99.0, 99.5, 98.5, 99.0, 0));
    detector.push_bar(mk_bar(98.0, 95.0, 100.0, 97.0, 60));
    let sample = detector.compute_atr();
    assert_eq!(sample, AtrSample { range_sum: 20, pairs: 1 });
    let atr = sample.range_sum as f64 / 4.0 / sample.pairs as f64;
    assert!((atr - 5.0).abs() < f64::EPSILON, "expected TR=5.0, got {atr}");
}

#[test]
fn current_returns_last_classification_without_update() {
    let mut detector = ThresholdRegimeDetector::new(fast_warmup_config());
    assert_eq!(detector.current(), RegimeState::Unknown);
    let mut price = 100.0_f64;
    for i in 0..15 {
        let open = price;
        let close = price + 0.5;
        let bar = mk_bar(open, close + 0.25, open - 0.25, close, i as u64 * 60);
        detector.update(&bar);
        price = close;
    }
    let last = detector.current();
    assert_ne!(last, RegimeState::Unknown);
    assert_eq!(detector.current(), last);
}

#[test]
fn persistence_counts_the_larger_side() {
    let mut detector = ThresholdRegimeDetector::new(fast_warmup_config());
    for (i, close) in [101.0, 102.0, 99.0, 100.0].into_iter().enumerate() {
        detector.push_bar(mk_bar(100.0, 103.0, 98.0, close, i as u64));
    }
    // Two bars up, one down, one unchanged.
    assert_eq!(detector.compute_directional_persistence(), (2, 4));
}

#[test]
fn a_range_at_the_threshold_is_volatile() {
    let config = ThresholdRegimeConfig {
        warmup_period: 2,
        atr_period: 1,
        ..fast_warmup_config()
    };
    let mut detector = ThresholdRegimeDetector::new(config);
    detector.update(&mk_bar(100.0, 100.0, 100.0, 100.0, 1));
    let r = detector.update(&mk_bar(100.0, 105.0, 100.0, 100.0, 2));
    assert_eq!(r, RegimeState::Volatile);
    assert_eq!(detector.current(), r);
    // A quarter-tick less is not.
    let mut detector = ThresholdRegimeDetector::new(config);
    detector.update(&mk_bar(100.0, 100.0, 100.0, 100.0, 1));
    let r = detector.update(&mk_bar(100.0, 104.75, 100.0, 100.0, 2));
    assert_eq!(r, RegimeState::Rotational);
}

#[test]
fn without_bars_nothing_persists() {
    let detector = ThresholdRegimeDetector::new(fast_warmup_config());
    assert_eq!(detector.compute_directional_persistence(), (0, 1));
}

#[test]
fn the_longest_period_looks_back_on_every_bar() {
    let config = ThresholdRegimeConfig {
        warmup_period: 0,
        atr_period: usize::MAX,
        atr_volatile_threshold: Ratio { numerator: u64::MAX, denominator: u32::MAX },
        ..fast_warmup_config()
    };
    let mut detector = ThresholdRegimeDetector::new(config);
    for i in 0..4u64 {
        detector.update(&mk_bar(100.0, 101.0, 99.0, 100.0, i));
    }
    assert_eq!(detector.buffered(), 4);
    assert_eq!(detector.compute_atr(), AtrSample { range_sum: 24, pairs: 3 });
    assert_eq!(detector.compute_directional_persistence(), (0, 4));
    assert_eq!(detector.current(), RegimeState::Rotational);
}
