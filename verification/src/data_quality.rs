//! Checks on incoming market data: stale feeds, missing sequence numbers, and
//! the data-quality gate that they close.
use std::collections::HashMap;
use vstd::prelude::*;

verus! {

/// Nanoseconds in a second.
pub const NANOS_PER_SEC: u64 = 1_000_000_000;

/// Why the data-quality gate was closed.
#[derive(Debug, Clone, Copy, PartialEq, Eq, Structural)]
pub enum GateReason {
    StaleData { gap_nanos: u64 },
    SequenceGap { symbol_id: u32, expected: u64, received: u64 },
}

/// Whether trades may be evaluated.
#[derive(Debug, Clone, Copy, PartialEq, Eq, Structural)]
pub enum GateState {
    Open,
    Gated,
}

/// Notices when no tick has come for too long while the market is open.
#[derive(Debug, Clone, Copy, PartialEq, Eq, Structural)]
pub struct StaleDataDetector {
    /// When the last tick came; zero before the first.
    pub last_tick_nanos: u64,
    pub threshold_nanos: u64,
}

impl StaleDataDetector {
    pub fn new(threshold_nanos: u64) -> (r: Self)
        ensures
            r == (StaleDataDetector { last_tick_nanos: 0, threshold_nanos }),
    {
        StaleDataDetector { last_tick_nanos: 0, threshold_nanos }
    }

    /// Notes a tick.
    pub fn on_tick(&mut self, now_nanos: u64)
        ensures
            *final(self) == (StaleDataDetector { last_tick_nanos: now_nanos, ..*old(self) }),
    {
        self.last_tick_nanos = now_nanos;
    }

    /// How long the feed has been silent, where that is too long.
    pub open spec fn silence(self, now_nanos: u64, market_open: bool) -> Option<u64> {
        if market_open && self.last_tick_nanos != 0 && now_nanos - self.last_tick_nanos
            > self.threshold_nanos {
            Some((now_nanos - self.last_tick_nanos) as u64)
        } else {
            None
        }
    }

    /// Tells the length of the silence where the market is open, a tick has come
    /// before, and the last one is longer ago than the threshold.
    pub fn check_stale(&self, now_nanos: u64, market_open: bool) -> (r: Option<u64>)
        ensures
            r == self.silence(now_nanos, market_open),
    {
        if !market_open {
            return None;
        }
        if self.last_tick_nanos == 0 {
            return None;
        }
        let elapsed: u64 = now_nanos.saturating_sub(self.last_tick_nanos);
        if elapsed > self.threshold_nanos {
            Some(elapsed)
        } else {
            None
        }
    }

    pub fn threshold_nanos(&self) -> (r: u64)
        ensures
            r == self.threshold_nanos,
    {
        self.threshold_nanos
    }
}

/// Notices missing sequence numbers, symbol by symbol.
pub struct SequenceGapDetector {
    last_seq: HashMap<u32, u64>,
}

impl View for SequenceGapDetector {
    type V = Map<u32, u64>;

    closed spec fn view(&self) -> Map<u32, u64> {
        self.last_seq@
    }
}

/// The numbers missing before `seq`: the one expected and the one that came.
pub open spec fn sequence_gap(last: Map<u32, u64>, symbol_id: u32, seq: u64) -> Option<(u64, u64)> {
    if last.contains_key(symbol_id) && seq > last[symbol_id] + 1 {
        Some(((last[symbol_id] + 1) as u64, seq))
    } else {
        None
    }
}

impl SequenceGapDetector {
    pub fn new() -> (r: Self)
        ensures
            r@ == Map::<u32, u64>::empty(),
    {
        broadcast use vstd::std_specs::hash::group_hash_axioms;

        SequenceGapDetector { last_seq: HashMap::new() }
    }

    /// The last number noted of a symbol.
    pub fn last_sequence(&self, symbol_id: u32) -> (r: Option<u64>)
        ensures
            r == (if self@.contains_key(symbol_id) {
                Some(self@[symbol_id])
            } else {
                None
            }),
    {
        broadcast use vstd::std_specs::hash::group_hash_axioms;

        match self.last_seq.get(&symbol_id) {
            Some(last) => Some(*last),
            None => None,
        }
    }

    /// Notes a sequence number and tells the gap before it, if there is one. The
    /// first number of a symbol has no gap before it.
    pub fn check_sequence(&mut self, symbol_id: u32, seq: u64) -> (r: Option<(u64, u64)>)
        requires
            old(self)@.contains_key(symbol_id) ==> old(self)@[symbol_id] < u64::MAX,
        ensures
            r == sequence_gap(old(self)@, symbol_id, seq),
            final(self)@ == old(self)@.insert(symbol_id, seq),
    {
        broadcast use vstd::std_specs::hash::group_hash_axioms;

        let known = self.last_sequence(symbol_id);
        self.last_seq.insert(symbol_id, seq);
        match known {
            Some(last) => {
                let expected: u64 = last + 1;
                if seq > expected {
                    Some((expected, seq))
                } else {
                    None
                }
            },
            None => None,
        }
    }
}

/// Symbols do not disturb each other: a number of one symbol changes nothing
/// about the gaps of another.
pub proof fn symbols_are_independent(
    last: Map<u32, u64>,
    symbol_id: u32,
    seq: u64,
    other: u32,
    other_seq: u64,
)
    requires
        symbol_id != other,
    ensures
        sequence_gap(last.insert(symbol_id, seq), other, other_seq) == sequence_gap(
            last,
            other,
            other_seq,
        ),
{
}

/// Consecutive numbers have no gap between them.
pub proof fn consecutive_numbers_have_no_gap(last: Map<u32, u64>, symbol_id: u32, seq: u64)
    requires
        seq < u64::MAX,
    ensures
        sequence_gap(last.insert(symbol_id, seq), symbol_id, (seq + 1) as u64) is None,
{
}

/// Blocks trading while the data is suspect, and opens again when fresh data
/// comes.
#[derive(Debug, Clone, Copy, PartialEq, Eq, Structural)]
pub struct DataQualityGate {
    pub state: GateState,
    /// When the data-quality gate last went from open to closed.
    pub gated_since_nanos: u64,
}

impl DataQualityGate {
    pub fn new() -> (r: Self)
        ensures
            r == (DataQualityGate { state: GateState::Open, gated_since_nanos: 0 }),
    {
        DataQualityGate { state: GateState::Open, gated_since_nanos: 0 }
    }

    pub fn is_open(&self) -> (r: bool)
        ensures
            r == (self.state is Open),
    {
        self.state == GateState::Open
    }

    pub fn state(&self) -> (r: GateState)
        ensures
            r == self.state,
    {
        self.state
    }

    /// Closes the data-quality gate. A gate that is closed already keeps the time at which it
    /// was closed. The reason is for the caller's log.
    pub fn activate(&mut self, reason: &GateReason, now_nanos: u64)
        ensures
            *final(self) == old(self).activated(now_nanos),
    {
        if self.state == GateState::Open {
            self.gated_since_nanos = now_nanos;
        }
        self.state = GateState::Gated;
    }

    pub open spec fn activated(self, now_nanos: u64) -> DataQualityGate {
        DataQualityGate {
            state: GateState::Gated,
            gated_since_nanos: if self.state is Open {
                now_nanos
            } else {
                self.gated_since_nanos
            },
        }
    }

    /// Opens the data-quality gate, and tells how many milliseconds it had been closed.
    pub fn clear(&mut self, now_nanos: u64) -> (r: Option<u64>)
        ensures
            *final(self) == (DataQualityGate { state: GateState::Open, ..*old(self) }),
            r == (if old(self).state is Gated {
                Some(
                    (if now_nanos >= old(self).gated_since_nanos {
                        (now_nanos - old(self).gated_since_nanos) / 1_000_000
                    } else {
                        0
                    }) as u64,
                )
            } else {
                None
            }),
    {
        if self.state == GateState::Gated {
            let gap_nanos: u64 = now_nanos.saturating_sub(self.gated_since_nanos);
            self.state = GateState::Open;
            Some(gap_nanos / 1_000_000)
        } else {
            None
        }
    }
}

/// Closing a closed gate changes nothing.
pub proof fn gate_does_not_flap(gate: DataQualityGate, first: u64, second: u64)
    ensures
        gate.activated(first).activated(second) == gate.activated(first),
{
}

/// A feed is silent exactly when the market is open, a tick has come before, and
/// more than the threshold has passed since; what is told is how long it has been.
pub proof fn silence_is_measured_from_the_last_tick(
    detector: StaleDataDetector,
    now: u64,
    market_open: bool,
)
    ensures
        detector.silence(now, market_open) is Some <==> market_open && detector.last_tick_nanos > 0
            && now > detector.last_tick_nanos + detector.threshold_nanos,
        detector.silence(now, market_open) matches Some(elapsed) ==> detector.last_tick_nanos
            + elapsed == now,
{
}

/// A gap is told exactly when a number came that is more than one above the last of
/// its symbol: the number after the last was expected, and the one that came is
/// told with it. Numbers that repeat or go back leave no gap.
pub proof fn gaps_are_numbers_left_out(last: Map<u32, u64>, symbol_id: u32, seq: u64)
    ensures
        sequence_gap(last, symbol_id, seq) is Some <==> last.contains_key(symbol_id) && seq
            - last[symbol_id] >= 2,
        sequence_gap(last, symbol_id, seq) matches Some(gap) ==> gap.0 == last[symbol_id] + 1
            && gap.1 == seq,
{
}

/// Closing the data-quality gate closes it; the time is that of the first closing.
pub proof fn closing_keeps_the_first_time(gate: DataQualityGate, now: u64)
    ensures
        gate.activated(now).state == GateState::Gated,
        gate.state == GateState::Open ==> gate.activated(now).gated_since_nanos == now,
        gate.state == GateState::Gated ==> gate.activated(now) == gate,
{
}

} // verus!
