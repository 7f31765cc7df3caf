use futures_bmad_engine::buffer_monitor::{BufferMonitor, BufferState};

#[test]
fn starts_normal() {
    let monitor = BufferMonitor::new();
    assert_eq!(monitor.state(), BufferState::Normal);
    assert_eq!(BufferMonitor::default().state(), BufferState::Normal);
}

#[test]
fn escalates_through_thresholds() {
    let mut monitor = BufferMonitor::new();
    assert_eq!(monitor.update(10, 100), BufferState::Normal);
    assert_eq!(monitor.update(50, 100), BufferState::Warning);
    assert_eq!(monitor.update(80, 100), BufferState::TradingDisabled);
    assert_eq!(monitor.update(95, 100), BufferState::CircuitBreak);
}

#[test]
fn hysteresis_prevents_flapping() {
    let mut monitor = BufferMonitor::new();
    assert_eq!(monitor.update(55, 100), BufferState::Warning);
    assert_eq!(monitor.update(48, 100), BufferState::Warning);
    assert_eq!(monitor.update(44, 100), BufferState::Normal);
}

#[test]
fn hysteresis_on_trading_disabled() {
    let mut monitor = BufferMonitor::new();
    assert_eq!(monitor.update(85, 100), BufferState::TradingDisabled);
    assert_eq!(monitor.update(76, 100), BufferState::TradingDisabled);
    assert_eq!(monitor.update(74, 100), BufferState::Warning);
}

#[test]
fn circuit_break_deescalation() {
    let mut monitor = BufferMonitor::new();
    assert_eq!(monitor.update(96, 100), BufferState::CircuitBreak);
    assert_eq!(monitor.update(91, 100), BufferState::CircuitBreak);
    assert_eq!(monitor.update(85, 100), BufferState::TradingDisabled);
}

#[test]
fn jump_from_normal_to_circuit_break() {
    let mut monitor = BufferMonitor::new();
    assert_eq!(monitor.update(96, 100), BufferState::CircuitBreak);
}

#[test]
fn thresholds_are_exact() {
    let mut monitor = BufferMonitor::new();
    assert_eq!(monitor.update(499, 1000), BufferState::Normal);
    assert_eq!(monitor.update(500, 1000), BufferState::Warning);
    assert_eq!(monitor.update(450, 1000), BufferState::Warning);
    assert_eq!(monitor.update(449, 1000), BufferState::Normal);
    assert_eq!(monitor.update(950, 1000), BufferState::CircuitBreak);
    assert_eq!(monitor.update(900, 1000), BufferState::CircuitBreak);
    // Coming from the top, the 80 percent level holds down to 75 percent.
    assert_eq!(monitor.update(780, 1000), BufferState::TradingDisabled);
    assert_eq!(monitor.update(750, 1000), BufferState::TradingDisabled);
    assert_eq!(monitor.update(749, 1000), BufferState::Warning);
    assert_eq!(monitor.update(960, 1000), BufferState::CircuitBreak);
    assert_eq!(monitor.update(780, 1000), BufferState::TradingDisabled);
    assert_eq!(monitor.update(960, 1000), BufferState::CircuitBreak);
    assert_eq!(monitor.update(449, 1000), BufferState::Normal);
}

#[test]
fn the_same_reading_twice_changes_nothing() {
    let mut monitor = BufferMonitor::new();
    for used in [10usize, 47, 55, 76, 85, 91, 96, 79, 46, 44] {
        let first = monitor.update(used, 100);
        assert_eq!(monitor.update(used, 100), first);
    }
}

#[test]
fn a_fuller_buffer_is_not_judged_milder() {
    let severity = |state: BufferState| match state {
        BufferState::Normal => 0,
        BufferState::Warning => 1,
        BufferState::TradingDisabled => 2,
        BufferState::CircuitBreak => 3,
    };
    for start in [0usize, 60, 85, 97] {
        let mut last = 0;
        for used in 0..=100usize {
            let mut monitor = BufferMonitor::new();
            monitor.update(start, 100);
            let level = severity(monitor.update(used, 100));
            assert!(level >= last, "from {start}: {used}");
            last = level;
        }
    }
}

#[test]
fn every_level_is_entered_at_its_share() {
    for (used, level) in [
        (49, BufferState::Normal),
        (50, BufferState::Warning),
        (79, BufferState::Warning),
        (80, BufferState::TradingDisabled),
        (94, BufferState::TradingDisabled),
        (95, BufferState::CircuitBreak),
        (100, BufferState::CircuitBreak),
    ] {
        let mut monitor = BufferMonitor::new();
        assert_eq!(monitor.update(used, 100), level);
        assert_eq!(monitor.update(used, 100), level);
    }
}
