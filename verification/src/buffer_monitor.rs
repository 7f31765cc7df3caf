//! How full the market data queue is, with hysteresis.
//!
//! A level is entered when the queue reaches its threshold and left only when
//! the queue falls more than five percent below it.
use vstd::prelude::*;

verus! {

/// Load level of a queue, mildest first.
#[derive(Debug, Clone, Copy, PartialEq, Eq, Structural)]
pub enum BufferState {
    Normal,
    /// At least half full.
    Warning,
    /// At least 80 percent full: no trade is to be evaluated.
    TradingDisabled,
    /// At least 95 percent full.
    CircuitBreak,
}

/// Percentage at which the warning level begins.
pub const THRESHOLD_WARNING: u128 = 50;

/// Percentage at which trading is disabled.
pub const THRESHOLD_TRADING_DISABLED: u128 = 80;

/// Percentage at which the circuit breaks.
pub const THRESHOLD_CIRCUIT_BREAK: u128 = 95;

/// How many percent below its threshold a level still holds.
pub const HYSTERESIS_MARGIN: u128 = 5;

/// Whether `used` out of `capacity` is at least so many percent.
pub open spec fn at_least_percent(used: nat, capacity: nat, percent: int) -> bool {
    used * 100 >= percent * capacity
}

fn reaches_percent(used: usize, capacity: usize, percent: u128) -> (r: bool)
    requires
        percent <= 100,
    ensures
        r == at_least_percent(used as nat, capacity as nat, percent as int),
{
    assert(0 <= percent * capacity <= 100 * capacity) by (nonlinear_arith)
        requires
            0 <= percent <= 100,
            0 <= capacity,
    ;
    used as u128 * 100 >= percent * capacity as u128
}

impl BufferState {
    pub open spec fn rank(self) -> int {
        match self {
            BufferState::Normal => 0,
            BufferState::Warning => 1,
            BufferState::TradingDisabled => 2,
            BufferState::CircuitBreak => 3,
        }
    }

    /// The percentage at which the level begins.
    pub open spec fn threshold(self) -> int {
        match self {
            BufferState::Normal => 0,
            BufferState::Warning => THRESHOLD_WARNING as int,
            BufferState::TradingDisabled => THRESHOLD_TRADING_DISABLED as int,
            BufferState::CircuitBreak => THRESHOLD_CIRCUIT_BREAK as int,
        }
    }

    /// The highest level whose threshold is reached.
    pub open spec fn reached(used: nat, capacity: nat) -> BufferState {
        if at_least_percent(used, capacity, THRESHOLD_CIRCUIT_BREAK as int) {
            BufferState::CircuitBreak
        } else if at_least_percent(used, capacity, THRESHOLD_TRADING_DISABLED as int) {
            BufferState::TradingDisabled
        } else if at_least_percent(used, capacity, THRESHOLD_WARNING as int) {
            BufferState::Warning
        } else {
            BufferState::Normal
        }
    }

    /// Whether the load is still within the margin below the level's threshold.
    pub open spec fn holds_at(self, used: nat, capacity: nat) -> bool {
        !(self is Normal) && at_least_percent(
            used,
            capacity,
            self.threshold() - HYSTERESIS_MARGIN as int,
        )
    }

    /// The highest level, of those up to the present one, that still holds.
    pub open spec fn held(self, used: nat, capacity: nat) -> BufferState {
        if self.rank() >= 3 && BufferState::CircuitBreak.holds_at(used, capacity) {
            BufferState::CircuitBreak
        } else if self.rank() >= 2 && BufferState::TradingDisabled.holds_at(used, capacity) {
            BufferState::TradingDisabled
        } else if self.rank() >= 1 && BufferState::Warning.holds_at(used, capacity) {
            BufferState::Warning
        } else {
            BufferState::Normal
        }
    }

    /// The level after a new reading: the higher one of the level reached and the
    /// level that still holds.
    pub open spec fn next(self, used: nat, capacity: nat) -> BufferState {
        let reached = BufferState::reached(used, capacity);
        let held = self.held(used, capacity);
        if held.rank() > reached.rank() {
            held
        } else {
            reached
        }
    }
}

/// Follows the load of a queue.
pub struct BufferMonitor {
    state: BufferState,
}

impl View for BufferMonitor {
    type V = BufferState;

    closed spec fn view(&self) -> BufferState {
        self.state
    }
}

impl Default for BufferMonitor {
    fn default() -> (r: Self)
        ensures
            r@ == BufferState::Normal,
    {
        BufferMonitor::new()
    }
}

impl BufferMonitor {
    pub fn new() -> (r: Self)
        ensures
            r@ == BufferState::Normal,
    {
        BufferMonitor { state: BufferState::Normal }
    }

    /// Takes a reading: `used` of `capacity` places are taken.
    pub fn update(&mut self, used: usize, capacity: usize) -> (r: BufferState)
        requires
            capacity > 0,
        ensures
            r == old(self)@.next(used as nat, capacity as nat),
            final(self)@ == r,
    {
        let new_state = self.compute_state(used, capacity);
        self.state = new_state;
        self.state
    }

    pub fn state(&self) -> (r: BufferState)
        ensures
            r == self@,
    {
        self.state
    }

    fn compute_state(&self, used: usize, capacity: usize) -> (r: BufferState)
        requires
            capacity > 0,
        ensures
            r == self@.next(used as nat, capacity as nat),
    {
        match self.state {
            BufferState::Normal => {
                if reaches_percent(used, capacity, THRESHOLD_CIRCUIT_BREAK) {
                    BufferState::CircuitBreak
                } else if reaches_percent(used, capacity, THRESHOLD_TRADING_DISABLED) {
                    BufferState::TradingDisabled
                } else if reaches_percent(used, capacity, THRESHOLD_WARNING) {
                    BufferState::Warning
                } else {
                    BufferState::Normal
                }
            },
            BufferState::Warning => {
                if reaches_percent(used, capacity, THRESHOLD_CIRCUIT_BREAK) {
                    BufferState::CircuitBreak
                } else if reaches_percent(used, capacity, THRESHOLD_TRADING_DISABLED) {
                    BufferState::TradingDisabled
                } else if !reaches_percent(
                    used,
                    capacity,
                    THRESHOLD_WARNING - HYSTERESIS_MARGIN,
                ) {
                    BufferState::Normal
                } else {
                    BufferState::Warning
                }
            },
            BufferState::TradingDisabled => {
                if reaches_percent(used, capacity, THRESHOLD_CIRCUIT_BREAK) {
                    BufferState::CircuitBreak
                } else if !reaches_percent(
                    used,
                    capacity,
                    THRESHOLD_TRADING_DISABLED - HYSTERESIS_MARGIN,
                ) {
                    if !reaches_percent(used, capacity, THRESHOLD_WARNING - HYSTERESIS_MARGIN) {
                        BufferState::Normal
                    } else {
                        BufferState::Warning
                    }
                } else {
                    BufferState::TradingDisabled
                }
            },
            BufferState::CircuitBreak => {
                if reaches_percent(used, capacity, THRESHOLD_CIRCUIT_BREAK - HYSTERESIS_MARGIN) {
                    BufferState::CircuitBreak
                } else if reaches_percent(
                    used,
                    capacity,
                    THRESHOLD_TRADING_DISABLED - HYSTERESIS_MARGIN,
                ) {
                    BufferState::TradingDisabled
                } else if reaches_percent(used, capacity, THRESHOLD_WARNING - HYSTERESIS_MARGIN) {
                    BufferState::Warning
                } else {
                    BufferState::Normal
                }
            },
        }
    }
}

/// The same reading twice changes nothing more.
pub proof fn reading_twice_changes_nothing(state: BufferState, used: nat, capacity: nat)
    ensures
        state.next(used, capacity).next(used, capacity) == state.next(used, capacity),
{
}

/// Every level up to the present one is kept while the load stays within the
/// margin below its threshold.
pub proof fn levels_do_not_flap(
    state: BufferState,
    level: BufferState,
    used: nat,
    capacity: nat,
)
    requires
        level.rank() <= state.rank(),
        level.holds_at(used, capacity),
    ensures
        state.next(used, capacity).rank() >= level.rank(),
{
}

/// A level is given only where its threshold is reached, or where it does not
/// exceed the present one and the load is within the margin below its threshold.
pub proof fn levels_are_earned(state: BufferState, used: nat, capacity: nat)
    ensures
        ({
            let next = state.next(used, capacity);
            ||| next is Normal
            ||| at_least_percent(used, capacity, next.threshold())
            ||| next.rank() <= state.rank() && next.holds_at(used, capacity)
        }),
{
}

/// When each level is given: the highest where its threshold is reached, or was
/// before and still holds; none where even the warning does not hold, or was not
/// reached before and is not now; and coming from the mildest level, the one
/// reached.
pub proof fn levels_in_full(state: BufferState, used: nat, capacity: nat)
    ensures
        ({
            let next = state.next(used, capacity);
            let reached = BufferState::reached(used, capacity);
            &&& next.rank() >= reached.rank()
            &&& next is CircuitBreak <==> at_least_percent(
                used,
                capacity,
                THRESHOLD_CIRCUIT_BREAK as int,
            ) || (state is CircuitBreak && at_least_percent(
                used,
                capacity,
                THRESHOLD_CIRCUIT_BREAK - HYSTERESIS_MARGIN,
            ))
            &&& next is Normal <==> !at_least_percent(
                used,
                capacity,
                THRESHOLD_WARNING - HYSTERESIS_MARGIN,
            ) || (state is Normal && !at_least_percent(
                used,
                capacity,
                THRESHOLD_WARNING as int,
            ))
            &&& state is Normal ==> next == reached
        }),
{
    lemma_lower_is_reached_too(used, capacity, 50, 45);
    lemma_lower_is_reached_too(used, capacity, 75, 45);
    lemma_lower_is_reached_too(used, capacity, 80, 45);
    lemma_lower_is_reached_too(used, capacity, 90, 45);
    lemma_lower_is_reached_too(used, capacity, 95, 45);
}

proof fn lemma_lower_is_reached_too(used: nat, capacity: nat, higher: int, lower: int)
    requires
        lower <= higher,
    ensures
        at_least_percent(used, capacity, higher) ==> at_least_percent(used, capacity, lower),
{
    assert(lower * capacity <= higher * capacity) by (nonlinear_arith)
        requires
            lower <= higher,
            0 <= capacity,
    ;
}

/// A fuller queue never gives a milder level.
pub proof fn fuller_is_not_milder(state: BufferState, less: nat, more: nat, capacity: nat)
    requires
        less <= more,
    ensures
        state.next(less, capacity).rank() <= state.next(more, capacity).rank(),
{
}

/// From the quiet state each level is reached with its own share of the buffer:
/// warning with half of it in use, no more trading with eighty percent, and the
/// break with ninety-five. A level once reached lasts until five percent less are
/// in use.
pub proof fn levels_go_by_their_shares(state: BufferState, used: nat, capacity: nat)
    ensures
        ({
            let next = state.next(used, capacity);
            let share = used * 100;
            &&& share >= 95 * capacity ==> next == BufferState::CircuitBreak
            &&& share < 90 * capacity ==> next != BufferState::CircuitBreak
            &&& share < 95 * capacity && state != BufferState::CircuitBreak ==> next
                != BufferState::CircuitBreak
            &&& share >= 90 * capacity && state == BufferState::CircuitBreak ==> next
                == BufferState::CircuitBreak
            &&& 80 * capacity <= share < 90 * capacity ==> next == BufferState::TradingDisabled
            &&& share < 75 * capacity ==> next != BufferState::TradingDisabled
            &&& 75 * capacity <= share < 80 * capacity ==> (next == BufferState::TradingDisabled
                <==> state == BufferState::TradingDisabled || state == BufferState::CircuitBreak)
            &&& 50 * capacity <= share < 75 * capacity ==> next == BufferState::Warning
            &&& 45 * capacity <= share < 50 * capacity ==> (next == BufferState::Normal <==> state
                == BufferState::Normal)
            &&& 45 * capacity <= share < 50 * capacity && state != BufferState::Normal ==> next
                == BufferState::Warning
            &&& share < 45 * capacity ==> next == BufferState::Normal
        }),
{
    lemma_lower_is_reached_too(used, capacity, 95, 90);
    lemma_lower_is_reached_too(used, capacity, 90, 80);
    lemma_lower_is_reached_too(used, capacity, 80, 75);
    lemma_lower_is_reached_too(used, capacity, 75, 50);
    lemma_lower_is_reached_too(used, capacity, 50, 45);
}

} // verus!
