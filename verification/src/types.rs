//! Value types shared by every part of the engine.
use vstd::prelude::*;

use crate::arith::{clamp_i64, saturating_add_i64, saturating_mul_i64, saturating_sub_i64};
use crate::text::str_eq;

verus! {

/// Nanoseconds since the Unix epoch.
#[derive(Debug, Clone, Copy, PartialEq, Eq, PartialOrd, Ord, Hash, Structural)]
pub struct UnixNanos {
    pub nanos: u64,
}

impl UnixNanos {
    pub fn new(nanos: u64) -> (r: Self)
        ensures
            r.nanos == nanos,
    {
        UnixNanos { nanos }
    }

    pub fn as_nanos(&self) -> (r: u64)
        ensures
            r == self.nanos,
    {
        self.nanos
    }

    /// Nanoseconds from `earlier` to `self`; zero where the clock ran backwards.
    pub open spec fn since(self, earlier: UnixNanos) -> int {
        if self.nanos >= earlier.nanos {
            self.nanos - earlier.nanos
        } else {
            0
        }
    }

    pub fn saturating_since(&self, earlier: UnixNanos) -> (r: u64)
        ensures
            r == self.since(earlier),
    {
        self.nanos.saturating_sub(earlier.nanos)
    }
}

impl Default for UnixNanos {
    fn default() -> (r: Self)
        ensures
            r.nanos == 0,
    {
        UnixNanos { nanos: 0 }
    }
}

/// A price as a whole number of quarter-ticks.
#[derive(Debug, Clone, Copy, PartialEq, Eq, PartialOrd, Ord, Hash, Structural)]
pub struct FixedPrice {
    pub quarter_ticks: i64,
}

impl FixedPrice {
    pub fn new(quarter_ticks: i64) -> (r: Self)
        ensures
            r.quarter_ticks == quarter_ticks,
    {
        FixedPrice { quarter_ticks }
    }

    pub fn raw(&self) -> (r: i64)
        ensures
            r == self.quarter_ticks,
    {
        self.quarter_ticks
    }

    pub fn saturating_add(&self, other: FixedPrice) -> (r: FixedPrice)
        ensures
            r.quarter_ticks == clamp_i64(self.quarter_ticks + other.quarter_ticks),
    {
        FixedPrice { quarter_ticks: saturating_add_i64(self.quarter_ticks, other.quarter_ticks) }
    }

    pub fn saturating_sub(&self, other: FixedPrice) -> (r: FixedPrice)
        ensures
            r.quarter_ticks == clamp_i64(self.quarter_ticks - other.quarter_ticks),
    {
        FixedPrice { quarter_ticks: saturating_sub_i64(self.quarter_ticks, other.quarter_ticks) }
    }

    pub fn saturating_mul(&self, factor: i64) -> (r: FixedPrice)
        ensures
            r.quarter_ticks == clamp_i64(self.quarter_ticks * factor),
    {
        FixedPrice { quarter_ticks: saturating_mul_i64(self.quarter_ticks, factor) }
    }
}

impl Default for FixedPrice {
    fn default() -> (r: Self)
        ensures
            r.quarter_ticks == 0,
    {
        FixedPrice { quarter_ticks: 0 }
    }
}

/// Side of an order, a fill or a position.
#[derive(Debug, Clone, Copy, PartialEq, Eq, Hash, Structural)]
pub enum Side {
    Buy,
    Sell,
}

impl Side {
    /// `1` for a long position, `-1` for a short one.
    pub open spec fn direction(self) -> int {
        match self {
            Side::Buy => 1,
            Side::Sell => -1,
        }
    }

    pub fn sign(self) -> (r: i64)
        ensures
            r == self.direction(),
    {
        match self {
            Side::Buy => 1,
            Side::Sell => -1,
        }
    }

    /// The other side.
    pub open spec fn flipped(self) -> Side {
        match self {
            Side::Buy => Side::Sell,
            Side::Sell => Side::Buy,
        }
    }

    pub fn opposite(self) -> (r: Side)
        ensures
            r == self.flipped(),
    {
        match self {
            Side::Buy => Side::Sell,
            Side::Sell => Side::Buy,
        }
    }

    pub open spec fn name(self) -> Seq<char> {
        match self {
            Side::Buy => "Buy"@,
            Side::Sell => "Sell"@,
        }
    }

    pub fn as_str(self) -> (r: &'static str)
        ensures
            r@ == self.name(),
    {
        match self {
            Side::Buy => "Buy",
            Side::Sell => "Sell",
        }
    }
}

/// Kind of a market data event.
#[derive(Debug, Clone, Copy, PartialEq, Eq, Structural)]
pub enum MarketEventType {
    Trade,
    BidUpdate,
    AskUpdate,
    BookSnapshot,
}

/// One normalised market data event.
#[derive(Debug, Clone, Copy, PartialEq, Eq, Structural)]
pub struct MarketEvent {
    pub timestamp: UnixNanos,
    pub symbol_id: u32,
    pub sequence: u64,
    pub event_type: MarketEventType,
    pub price: FixedPrice,
    pub size: u32,
    pub side: Option<Side>,
}

/// One price level of an order book.
#[derive(Debug, Clone, Copy, PartialEq, Eq, Structural)]
pub struct Level {
    pub price: FixedPrice,
    pub size: u32,
    pub order_count: u16,
}

/// Top of the book: at most one level on each side.
///
/// `bid_count` and `ask_count` tell how many levels a side holds.
#[derive(Debug, Clone, Copy, PartialEq, Eq, Structural)]
pub struct OrderBook {
    pub timestamp: UnixNanos,
    pub bid_count: u8,
    pub ask_count: u8,
    pub bid: Level,
    pub ask: Level,
}

impl OrderBook {
    /// Best bid as the level or nothing.
    pub open spec fn best_bid_level(self) -> Option<Level> {
        if self.bid_count > 0 {
            Some(self.bid)
        } else {
            None
        }
    }

    /// Best ask as the level or nothing.
    pub open spec fn best_ask_level(self) -> Option<Level> {
        if self.ask_count > 0 {
            Some(self.ask)
        } else {
            None
        }
    }

    pub fn empty() -> (r: Self)
        ensures
            r.timestamp.nanos == 0,
            r.bid_count == 0,
            r.ask_count == 0,
            r == OrderBook::empty_book(),
    {
        let blank = Level { price: FixedPrice::new(0), size: 0, order_count: 0 };
        OrderBook {
            timestamp: UnixNanos::new(0),
            bid_count: 0,
            ask_count: 0,
            bid: blank,
            ask: blank,
        }
    }

    /// The book before the first update.
    pub open spec fn empty_book() -> OrderBook {
        let blank = Level { price: FixedPrice { quarter_ticks: 0 }, size: 0, order_count: 0 };
        OrderBook {
            timestamp: UnixNanos { nanos: 0 },
            bid_count: 0,
            ask_count: 0,
            bid: blank,
            ask: blank,
        }
    }

    pub fn best_bid(&self) -> (r: Option<Level>)
        ensures
            r == self.best_bid_level(),
    {
        if self.bid_count > 0 {
            Some(self.bid)
        } else {
            None
        }
    }

    pub fn best_ask(&self) -> (r: Option<Level>)
        ensures
            r == self.best_ask_level(),
    {
        if self.ask_count > 0 {
            Some(self.ask)
        } else {
            None
        }
    }

    pub fn update_bid(&mut self, level: Level)
        ensures
            *final(self) == (OrderBook { bid_count: 1, bid: level, ..*old(self) }),
    {
        self.bid_count = 1;
        self.bid = level;
    }

    pub fn update_ask(&mut self, level: Level)
        ensures
            *final(self) == (OrderBook { ask_count: 1, ask: level, ..*old(self) }),
    {
        self.ask_count = 1;
        self.ask = level;
    }
}

/// Order type as routed to the broker.
#[derive(Debug, Clone, Copy, PartialEq, Eq, Structural)]
pub enum OrderType {
    Market,
    Limit { price: FixedPrice },
    Stop { trigger: FixedPrice },
}

/// Order type of a bracket leg, before its price is bound.
#[derive(Debug, Clone, Copy, PartialEq, Eq, Structural)]
pub enum OrderKind {
    Market,
    Limit,
    Stop,
}

/// Parameters of one bracket leg.
#[derive(Debug, Clone, Copy, PartialEq, Eq, Structural)]
pub struct OrderParams {
    pub symbol_id: u32,
    pub side: Side,
    pub quantity: u32,
    pub order_type: OrderKind,
    pub price: Option<FixedPrice>,
}

/// An order on its way to the broker.
#[derive(Debug, Clone, Copy, PartialEq, Eq, Structural)]
pub struct OrderEvent {
    pub order_id: u64,
    pub symbol_id: u32,
    pub side: Side,
    pub quantity: u32,
    pub order_type: OrderType,
    pub decision_id: u64,
    pub timestamp: UnixNanos,
}

/// Why an order was rejected.
#[derive(Debug, Clone, Copy, PartialEq, Eq, Structural)]
pub enum RejectReason {
    InsufficientMargin,
    ExchangeReject,
}

impl RejectReason {
    pub open spec fn name(self) -> Seq<char> {
        match self {
            RejectReason::InsufficientMargin => "InsufficientMargin"@,
            RejectReason::ExchangeReject => "ExchangeReject"@,
        }
    }

    pub fn as_str(self) -> (r: &'static str)
        ensures
            r@ == self.name(),
    {
        match self {
            RejectReason::InsufficientMargin => "InsufficientMargin",
            RejectReason::ExchangeReject => "ExchangeReject",
        }
    }
}

/// What a fill message reports.
#[derive(Debug, Clone, Copy, PartialEq, Eq, Structural)]
pub enum FillType {
    Full,
    Partial { remaining: u32 },
    Rejected { reason: RejectReason },
}

/// A fill message from the broker.
#[derive(Debug, Clone, Copy, PartialEq, Eq, Structural)]
pub struct FillEvent {
    pub order_id: u64,
    pub fill_price: FixedPrice,
    pub fill_size: u32,
    pub timestamp: UnixNanos,
    pub side: Side,
    pub decision_id: u64,
    pub fill_type: FillType,
}

/// Life-cycle state of an order.
#[derive(Debug, Clone, Copy, PartialEq, Eq, Hash, Structural)]
pub enum OrderState {
    Idle,
    Submitted,
    Confirmed,
    PartialFill,
    Filled,
    Rejected,
    Cancelled,
    PendingCancel,
    Uncertain,
    PendingRecon,
    Resolved,
}

impl OrderState {
    /// States that no order leaves.
    pub open spec fn terminal(self) -> bool {
        self is Filled || self is Rejected || self is Resolved || self is Cancelled
    }

    pub fn is_terminal(&self) -> (r: bool)
        ensures
            r == self.terminal(),
    {
        match *self {
            OrderState::Filled | OrderState::Rejected | OrderState::Resolved
            | OrderState::Cancelled => true,
            _ => false,
        }
    }

    pub open spec fn name(self) -> Seq<char> {
        match self {
            OrderState::Idle => "Idle"@,
            OrderState::Submitted => "Submitted"@,
            OrderState::Confirmed => "Confirmed"@,
            OrderState::PartialFill => "PartialFill"@,
            OrderState::Filled => "Filled"@,
            OrderState::Rejected => "Rejected"@,
            OrderState::Cancelled => "Cancelled"@,
            OrderState::PendingCancel => "PendingCancel"@,
            OrderState::Uncertain => "Uncertain"@,
            OrderState::PendingRecon => "PendingRecon"@,
            OrderState::Resolved => "Resolved"@,
        }
    }

    pub fn as_str(self) -> (r: &'static str)
        ensures
            r@ == self.name(),
    {
        match self {
            OrderState::Idle => "Idle",
            OrderState::Submitted => "Submitted",
            OrderState::Confirmed => "Confirmed",
            OrderState::PartialFill => "PartialFill",
            OrderState::Filled => "Filled",
            OrderState::Rejected => "Rejected",
            OrderState::Cancelled => "Cancelled",
            OrderState::PendingCancel => "PendingCancel",
            OrderState::Uncertain => "Uncertain",
            OrderState::PendingRecon => "PendingRecon",
            OrderState::Resolved => "Resolved",
        }
    }
}

/// Origin of a journal entry.
#[derive(Debug, Clone, Copy, PartialEq, Eq, Structural)]
pub enum TradeSource {
    Live,
    Paper,
    Replay,
}

impl TradeSource {
    pub open spec fn name(self) -> Seq<char> {
        match self {
            TradeSource::Live => "live"@,
            TradeSource::Paper => "paper"@,
            TradeSource::Replay => "replay"@,
        }
    }

    pub fn as_str(self) -> (r: &'static str)
        ensures
            r@ == self.name(),
    {
        match self {
            TradeSource::Live => "live",
            TradeSource::Paper => "paper",
            TradeSource::Replay => "replay",
        }
    }

    /// The source whose name is `text`.
    pub open spec fn named(text: Seq<char>) -> Option<TradeSource> {
        if text == "live"@ {
            Some(TradeSource::Live)
        } else if text == "paper"@ {
            Some(TradeSource::Paper)
        } else if text == "replay"@ {
            Some(TradeSource::Replay)
        } else {
            None
        }
    }

    pub fn parse(text: &str) -> (r: Option<TradeSource>)
        ensures
            r == TradeSource::named(text@),
    {
        if str_eq(text, "live") {
            Some(TradeSource::Live)
        } else if str_eq(text, "paper") {
            Some(TradeSource::Paper)
        } else if str_eq(text, "replay") {
            Some(TradeSource::Replay)
        } else {
            None
        }
    }

    /// A source is found again under its own name.
    pub proof fn parse_inverts_name(self)
        ensures
            TradeSource::named(self.name()) == Some(self),
    {
        reveal_strlit("live");
        reveal_strlit("paper");
        reveal_strlit("replay");
        assert("live"@.len() == 4);
        assert("paper"@.len() == 5);
        assert("replay"@.len() == 6);
    }
}

impl Default for TradeSource {
    fn default() -> (r: Self)
        ensures
            r == TradeSource::Live,
    {
        TradeSource::Live
    }
}

/// Protection state of a bracket.
#[derive(Debug, Clone, Copy, PartialEq, Eq, Structural)]
pub enum BracketState {
    NoBracket,
    EntryOnly,
    EntryAndStop,
    Full,
    Flattening,
}

/// A refused bracket transition.
#[derive(Debug, Clone, Copy, PartialEq, Eq, Structural)]
pub struct BracketStateError {
    pub from: BracketState,
    pub to: BracketState,
}

impl BracketState {
    /// The protection steps in order; every live state may give way to
    /// `Flattening`, which is left for no other state.
    pub open spec fn may_become(self, to: BracketState) -> bool {
        match to {
            BracketState::NoBracket => false,
            BracketState::EntryOnly => self is NoBracket,
            BracketState::EntryAndStop => self is EntryOnly,
            BracketState::Full => self is EntryAndStop,
            BracketState::Flattening => !(self is Flattening),
        }
    }
}

/// Entry, take-profit and stop-loss of one position.
#[derive(Debug, Clone, Copy, PartialEq, Eq, Structural)]
pub struct BracketOrder {
    pub bracket_id: u64,
    pub decision_id: u64,
    pub entry: OrderParams,
    pub take_profit: OrderParams,
    pub stop_loss: OrderParams,
    pub state: BracketState,
}

impl BracketOrder {
    pub fn transition(&mut self, to: BracketState) -> (r: Result<(), BracketStateError>)
        ensures
            r == (if old(self).state.may_become(to) {
                Ok::<(), BracketStateError>(())
            } else {
                Err(BracketStateError { from: old(self).state, to })
            }),
            *final(self) == (if old(self).state.may_become(to) {
                BracketOrder { state: to, ..*old(self) }
            } else {
                *old(self)
            }),
    {
        let allowed = match to {
            BracketState::NoBracket => false,
            BracketState::EntryOnly => self.state == BracketState::NoBracket,
            BracketState::EntryAndStop => self.state == BracketState::EntryOnly,
            BracketState::Full => self.state == BracketState::EntryAndStop,
            BracketState::Flattening => self.state != BracketState::Flattening,
        };
        if allowed {
            self.state = to;
            Ok(())
        } else {
            Err(BracketStateError { from: self.state, to })
        }
    }
}

/// The engine's own view of a position.
#[derive(Debug, Clone, Copy, PartialEq, Eq, Structural)]
pub struct Position {
    pub symbol_id: u32,
    pub side: Option<Side>,
    pub quantity: u32,
    pub avg_entry_price: FixedPrice,
    pub unrealized_pnl: i64,
    pub realized_pnl: i64,
}

/// `(exit - entry) * quantity`, counted for the given side and clamped at each
/// step.
pub open spec fn side_pnl(side: Side, entry: int, exit: int, quantity: int) -> int {
    clamp_i64(clamp_i64(clamp_i64(exit - entry) * quantity) * side.direction())
}

/// Profit of moving `quantity` contracts from `entry` to `exit` on `side`.
pub fn compute_side_pnl(side: Side, entry: FixedPrice, exit: FixedPrice, quantity: u32) -> (r: i64)
    ensures
        r == side_pnl(
            side,
            entry.quarter_ticks as int,
            exit.quarter_ticks as int,
            quantity as int,
        ),
{
    exit.saturating_sub(entry).saturating_mul(quantity as i64).saturating_mul(side.sign()).raw()
}

/// Average of two prices weighted by their quantities, rounded towards zero.
pub open spec fn weighted_average(p1: int, q1: int, p2: int, q2: int) -> int {
    crate::arith::trunc_div(p1 * q1 + p2 * q2, q1 + q2)
}

proof fn lemma_weighted_sum_bounds(p1: int, q1: int, p2: int, q2: int)
    requires
        i64::MIN <= p1 <= i64::MAX,
        i64::MIN <= p2 <= i64::MAX,
        0 <= q1 <= u32::MAX,
        0 < q2 <= u32::MAX,
    ensures
        -0x8000_0000_0000_0000 * (q1 + q2) <= p1 * q1 + p2 * q2 <= 0x7fff_ffff_ffff_ffff * (q1
            + q2),
        -0x8000_0000_0000_0000_0000_0000 <= p1 * q1 <= 0x8000_0000_0000_0000_0000_0000,
        -0x8000_0000_0000_0000_0000_0000 <= p2 * q2 <= 0x8000_0000_0000_0000_0000_0000,
{
    assert(-0x8000_0000_0000_0000 * q1 <= p1 * q1 <= 0x7fff_ffff_ffff_ffff * q1)
        by (nonlinear_arith)
        requires
            -0x8000_0000_0000_0000 <= p1 <= 0x7fff_ffff_ffff_ffff,
            0 <= q1,
    ;
    assert(-0x8000_0000_0000_0000 * q2 <= p2 * q2 <= 0x7fff_ffff_ffff_ffff * q2)
        by (nonlinear_arith)
        requires
            -0x8000_0000_0000_0000 <= p2 <= 0x7fff_ffff_ffff_ffff,
            0 <= q2,
    ;
    assert(-0x8000_0000_0000_0000 * (q1 + q2) == -0x8000_0000_0000_0000 * q1
        + -0x8000_0000_0000_0000 * q2);
    assert(0x7fff_ffff_ffff_ffff * (q1 + q2) == 0x7fff_ffff_ffff_ffff * q1 + 0x7fff_ffff_ffff_ffff
        * q2);
}

proof fn lemma_quotient_bound(n: int, d: int, limit: int)
    requires
        0 <= n <= limit * d,
        0 < d,
    ensures
        0 <= n / d <= limit,
{
    vstd::arithmetic::div_mod::lemma_div_is_ordered(n, limit * d, d);
    vstd::arithmetic::div_mod::lemma_div_multiples_vanish(limit, d);
    vstd::arithmetic::div_mod::lemma_div_pos_is_pos(n, d);
    assert(limit * d == d * limit) by (nonlinear_arith);
}

/// The average of two prices weighted by their quantities.
pub fn compute_weighted_average(p1: FixedPrice, q1: u32, p2: FixedPrice, q2: u32) -> (r: FixedPrice)
    requires
        q2 > 0,
    ensures
        r.quarter_ticks == weighted_average(
            p1.quarter_ticks as int,
            q1 as int,
            p2.quarter_ticks as int,
            q2 as int,
        ),
{
    proof {
        lemma_weighted_sum_bounds(
            p1.quarter_ticks as int,
            q1 as int,
            p2.quarter_ticks as int,
            q2 as int,
        );
    }
    let total: i128 = p1.quarter_ticks as i128 * q1 as i128 + p2.quarter_ticks as i128
        * q2 as i128;
    let count: u128 = q1 as u128 + q2 as u128;
    if total >= 0 {
        proof {
            lemma_quotient_bound(total as int, count as int, 0x7fff_ffff_ffff_ffff);
        }
        FixedPrice::new((total as u128 / count) as i64)
    } else {
        proof {
            lemma_quotient_bound(-total as int, count as int, 0x8000_0000_0000_0000);
        }
        let magnitude: i128 = ((-total) as u128 / count) as i128;
        FixedPrice::new((-magnitude) as i64)
    }
}

impl Position {
    /// No position in this symbol.
    pub open spec fn flat_in(symbol_id: u32) -> Position {
        Position {
            symbol_id,
            side: None,
            quantity: 0,
            avg_entry_price: FixedPrice { quarter_ticks: 0 },
            unrealized_pnl: 0,
            realized_pnl: 0,
        }
    }

    pub fn flat(symbol_id: u32) -> (r: Self)
        ensures
            r == Position::flat_in(symbol_id),
    {
        Position {
            symbol_id,
            side: None,
            quantity: 0,
            avg_entry_price: FixedPrice::new(0),
            unrealized_pnl: 0,
            realized_pnl: 0,
        }
    }

    pub open spec fn holds_nothing(self) -> bool {
        self.quantity == 0 || self.side is None
    }

    pub fn is_flat(&self) -> (r: bool)
        ensures
            r == self.holds_nothing(),
    {
        self.quantity == 0 || self.side.is_none()
    }

    /// Whether the fill adds to the position.
    pub open spec fn extended_by(self, fill: FillEvent) -> bool {
        !self.holds_nothing() && self.side == Some(fill.side)
    }

    /// The position after a fill. A fill on the same side moves the average entry
    /// price; one on the other side realises the profit of what it closes, and
    /// what it holds beyond that opens a position at its own price. A rejection
    /// moves nothing.
    pub open spec fn after_fill(self, fill: FillEvent) -> Position {
        if fill.fill_type is Rejected || fill.fill_size == 0 {
            self
        } else if self.holds_nothing() {
            Position {
                side: Some(fill.side),
                quantity: fill.fill_size,
                avg_entry_price: fill.fill_price,
                unrealized_pnl: 0,
                ..self
            }
        } else if self.extended_by(fill) {
            Position {
                quantity: (self.quantity + fill.fill_size) as u32,
                avg_entry_price: FixedPrice {
                    quarter_ticks: weighted_average(
                        self.avg_entry_price.quarter_ticks as int,
                        self.quantity as int,
                        fill.fill_price.quarter_ticks as int,
                        fill.fill_size as int,
                    ) as i64,
                },
                ..self
            }
        } else {
            let closed = if fill.fill_size < self.quantity {
                fill.fill_size
            } else {
                self.quantity
            };
            let banked = Position {
                realized_pnl: clamp_i64(
                    self.realized_pnl + side_pnl(
                        self.side->Some_0,
                        self.avg_entry_price.quarter_ticks as int,
                        fill.fill_price.quarter_ticks as int,
                        closed as int,
                    ),
                ) as i64,
                ..self
            };
            if fill.fill_size < self.quantity {
                Position { quantity: (self.quantity - fill.fill_size) as u32, ..banked }
            } else if fill.fill_size == self.quantity {
                Position {
                    side: None,
                    quantity: 0,
                    avg_entry_price: FixedPrice { quarter_ticks: 0 },
                    unrealized_pnl: 0,
                    ..banked
                }
            } else {
                Position {
                    side: Some(fill.side),
                    quantity: (fill.fill_size - self.quantity) as u32,
                    avg_entry_price: fill.fill_price,
                    unrealized_pnl: 0,
                    ..banked
                }
            }
        }
    }

    pub fn apply_fill(&mut self, fill: &FillEvent)
        requires
            old(self).extended_by(*fill) ==> old(self).quantity + fill.fill_size <= u32::MAX,
        ensures
            *final(self) == old(self).after_fill(*fill),
    {
        match fill.fill_type {
            FillType::Rejected { .. } => {
                return ;
            },
            _ => {},
        }
        if fill.fill_size == 0 {
            return ;
        }
        let held = match self.side {
            Some(side) => if self.quantity == 0 {
                None
            } else {
                Some(side)
            },
            None => None,
        };
        match held {
            None => {
                self.side = Some(fill.side);
                self.quantity = fill.fill_size;
                self.avg_entry_price = fill.fill_price;
                self.unrealized_pnl = 0;
            },
            Some(side) => {
                if side == fill.side {
                    self.avg_entry_price = compute_weighted_average(
                        self.avg_entry_price,
                        self.quantity,
                        fill.fill_price,
                        fill.fill_size,
                    );
                    self.quantity = self.quantity + fill.fill_size;
                } else {
                    let closed: u32 = if fill.fill_size < self.quantity {
                        fill.fill_size
                    } else {
                        self.quantity
                    };
                    let gain: i64 = compute_side_pnl(
                        side,
                        self.avg_entry_price,
                        fill.fill_price,
                        closed,
                    );
                    self.realized_pnl = saturating_add_i64(self.realized_pnl, gain);
                    if fill.fill_size < self.quantity {
                        self.quantity = self.quantity - fill.fill_size;
                    } else if fill.fill_size == self.quantity {
                        self.side = None;
                        self.quantity = 0;
                        self.avg_entry_price = FixedPrice::new(0);
                        self.unrealized_pnl = 0;
                    } else {
                        self.side = Some(fill.side);
                        self.quantity = fill.fill_size - self.quantity;
                        self.avg_entry_price = fill.fill_price;
                        self.unrealized_pnl = 0;
                    }
                }
            },
        }
    }

    /// The position valued at a price.
    pub open spec fn valued_at(self, price: FixedPrice) -> Position {
        Position {
            unrealized_pnl: if self.holds_nothing() {
                0
            } else {
                side_pnl(
                    self.side->Some_0,
                    self.avg_entry_price.quarter_ticks as int,
                    price.quarter_ticks as int,
                    self.quantity as int,
                ) as i64
            },
            ..self
        }
    }

    pub fn update_unrealized_pnl(&mut self, price: FixedPrice)
        ensures
            *final(self) == old(self).valued_at(price),
    {
        self.unrealized_pnl = match self.side {
            Some(side) => if self.quantity == 0 {
                0
            } else {
                compute_side_pnl(side, self.avg_entry_price, price, self.quantity)
            },
            None => 0,
        };
    }
}

/// The broker's view of a position.
#[derive(Debug, Clone, Copy, PartialEq, Eq, Structural)]
pub struct BrokerPosition {
    pub symbol_id: u32,
    pub side: Option<Side>,
    pub quantity: u32,
    pub avg_entry_price: FixedPrice,
}

impl BrokerPosition {
    pub fn flat(symbol_id: u32) -> (r: Self)
        ensures
            r == (BrokerPosition {
                symbol_id,
                side: None,
                quantity: 0,
                avg_entry_price: FixedPrice { quarter_ticks: 0 },
            }),
    {
        BrokerPosition {
            symbol_id,
            side: None,
            quantity: 0,
            avg_entry_price: FixedPrice::new(0),
        }
    }

    pub open spec fn holds_nothing(self) -> bool {
        self.quantity == 0 || self.side is None
    }

    pub fn is_flat(&self) -> (r: bool)
        ensures
            r == self.holds_nothing(),
    {
        self.quantity == 0 || self.side.is_none()
    }
}

/// What kind of market it is.
#[derive(Debug, Clone, Copy, PartialEq, Eq, Hash, Structural)]
pub enum RegimeState {
    Trending,
    Rotational,
    Volatile,
    Unknown,
}

impl RegimeState {
    pub open spec fn name(self) -> Seq<char> {
        match self {
            RegimeState::Trending => "Trending"@,
            RegimeState::Rotational => "Rotational"@,
            RegimeState::Volatile => "Volatile"@,
            RegimeState::Unknown => "Unknown"@,
        }
    }

    pub fn as_str(self) -> (r: &'static str)
        ensures
            r@ == self.name(),
    {
        match self {
            RegimeState::Trending => "Trending",
            RegimeState::Rotational => "Rotational",
            RegimeState::Volatile => "Volatile",
            RegimeState::Unknown => "Unknown",
        }
    }
}

/// A change of regime.
#[derive(Debug, Clone, Copy, PartialEq, Eq, Structural)]
pub struct RegimeTransition {
    pub from: RegimeState,
    pub to: RegimeState,
    pub timestamp: UnixNanos,
}

/// Prices and volume of one interval.
#[derive(Debug, Clone, Copy, PartialEq, Eq, Structural)]
pub struct Bar {
    pub open: FixedPrice,
    pub high: FixedPrice,
    pub low: FixedPrice,
    pub close: FixedPrice,
    pub volume: u64,
    pub timestamp: UnixNanos,
}

/// There are two sides and each opposes the other: what one adds the other takes
/// away, contract for contract.
pub proof fn sides_oppose(side: Side)
    ensures
        side.flipped() != side,
        side.flipped().flipped() == side,
        side.direction() + side.flipped().direction() == 0,
        side.direction() == 1 <==> side is Buy,
        side.direction() == -1 <==> side is Sell,
{
}

/// Time passed is what is to be added to the earlier instant; a clock that ran
/// backwards has passed none.
pub proof fn time_passed_is_the_difference(now: UnixNanos, earlier: UnixNanos)
    ensures
        now.since(earlier) >= 0,
        now.nanos >= earlier.nanos ==> earlier.nanos + now.since(earlier) == now.nanos,
        now.nanos <= earlier.nanos ==> now.since(earlier) == 0,
{
}

/// A side of the book has a best level exactly when levels are counted on it, and
/// that level is its own side's, never the other's.
pub proof fn best_levels_are_of_their_side(book: OrderBook, other: OrderBook)
    ensures
        book.best_bid_level() is Some <==> book.bid_count != 0,
        book.best_ask_level() is Some <==> book.ask_count != 0,
        forall|level: Level| book.best_bid_level() == Some(level) ==> level == book.bid,
        forall|level: Level| book.best_ask_level() == Some(level) ==> level == book.ask,
        book.bid == other.bid && book.bid_count == other.bid_count ==> book.best_bid_level()
            == other.best_bid_level(),
        book.ask == other.ask && book.ask_count == other.ask_count ==> book.best_ask_level()
            == other.best_ask_level(),
        OrderBook::empty_book().best_bid_level() is None,
        OrderBook::empty_book().best_ask_level() is None,
        OrderBook::empty_book().timestamp.nanos == 0,
{
}

/// An order is at rest once it is filled, refused, cancelled or resolved, and in no
/// other state.
pub proof fn orders_rest_in_four_states(state: OrderState)
    ensures
        state.terminal() <==> (state == OrderState::Filled || state == OrderState::Rejected || state
            == OrderState::Cancelled || state == OrderState::Resolved),
{
}

/// A bracket climbs one rung at a time: nothing, the entry, the entry and its stop,
/// and then in full. It may start to flatten from every rung, and from there it
/// goes nowhere.
pub proof fn brackets_climb_one_rung(from: BracketState, to: BracketState)
    ensures
        from.may_become(to) ==> from != to,
        from == BracketState::Flattening ==> !from.may_become(to),
        to == BracketState::Flattening && from != to ==> from.may_become(to),
        from.may_become(to) && to != BracketState::Flattening ==> {
            ||| from == BracketState::NoBracket && to == BracketState::EntryOnly
            ||| from == BracketState::EntryOnly && to == BracketState::EntryAndStop
            ||| from == BracketState::EntryAndStop && to == BracketState::Full
        },
        BracketState::NoBracket.may_become(BracketState::EntryOnly),
        BracketState::EntryOnly.may_become(BracketState::EntryAndStop),
        BracketState::EntryAndStop.may_become(BracketState::Full),
{
}

/// What a holding gained from one price to the other: a long holding gains what the
/// price rose for every contract, a short one what it fell. Where that does not fit
/// the books, it is booked at their end.
pub proof fn profit_follows_the_price(side: Side, entry: i64, exit: i64, quantity: u32)
    ensures
        ({
            let rise = (exit - entry) * quantity;
            let booked = side_pnl(side, entry as int, exit as int, quantity as int);
            &&& i64::MIN <= booked <= i64::MAX
            &&& side == Side::Buy && i64::MIN <= rise <= i64::MAX ==> booked == rise
            &&& side == Side::Buy && rise > i64::MAX ==> booked == i64::MAX
            &&& side == Side::Buy && rise < i64::MIN ==> booked == i64::MIN
            &&& side == Side::Sell && -i64::MAX <= rise <= i64::MAX ==> booked == -rise
            &&& side == Side::Sell && rise > i64::MAX ==> booked == -i64::MAX
            &&& side == Side::Sell && rise < -i64::MAX ==> booked == i64::MAX
        }),
{
    let d = exit - entry;
    let q = quantity as int;
    let c = clamp_i64(d);
    assert(q == 0 ==> d * q == 0 && c * q == 0) by (nonlinear_arith);
    assert(q >= 1 && d >= 0 ==> d * q >= d && c * q >= c) by (nonlinear_arith)
        requires
            d >= 0 ==> c >= 0,
    ;
    assert(q >= 1 && d <= 0 ==> d * q <= d && c * q <= c) by (nonlinear_arith)
        requires
            d <= 0 ==> c <= 0,
    ;
}

/// The average of two prices lies between them, is off by less than one
/// quarter-tick, towards zero, and does not ask which of the two came first.
pub proof fn averages_balance(p1: int, q1: int, p2: int, q2: int)
    requires
        q1 >= 0,
        q2 > 0,
    ensures
        ({
            let average = weighted_average(p1, q1, p2, q2);
            let total = p1 * q1 + p2 * q2;
            &&& total >= 0 ==> average >= 0 && average * (q1 + q2) <= total < (average + 1) * (q1
                + q2)
            &&& total <= 0 ==> average <= 0 && (average - 1) * (q1 + q2) < total <= average * (q1
                + q2)
            &&& p1 == p2 ==> average == p1
            &&& q1 == 0 ==> average == p2
            &&& q1 > 0 ==> weighted_average(p2, q2, p1, q1) == average
        }),
{
    let total = p1 * q1 + p2 * q2;
    let count = q1 + q2;
    let average = weighted_average(p1, q1, p2, q2);
    crate::arith::division_rounds_towards_zero(total, count);
    let magnitude = if total >= 0 {
        total
    } else {
        -total
    };
    vstd::arithmetic::div_mod::lemma_fundamental_div_mod(magnitude, count);
    vstd::arithmetic::div_mod::lemma_div_pos_is_pos(magnitude, count);
    let quotient = magnitude / count;
    assert(quotient * count == count * quotient && (quotient + 1) * count == count * quotient
        + count) by (nonlinear_arith);
    assert((-quotient) * count == -(count * quotient) && (-quotient - 1) * count == -(count
        * quotient) - count) by (nonlinear_arith);
    assert(p1 * q1 + p1 * q2 == p1 * count) by (nonlinear_arith)
        requires
            count == q1 + q2,
    ;
    assert(q1 == 0 ==> p1 * q1 == 0 && count == q2) by (nonlinear_arith)
        requires
            count == q1 + q2,
    ;
    if p1 == p2 || q1 == 0 {
        lemma_whole_quotient(p2, count);
    }
}

proof fn lemma_whole_quotient(p: int, count: int)
    requires
        count > 0,
    ensures
        crate::arith::trunc_div(p * count, count) == p,
{
    assert(p >= 0 ==> p * count >= 0) by (nonlinear_arith)
        requires
            count > 0,
    ;
    assert(p < 0 ==> p * count < 0) by (nonlinear_arith)
        requires
            count > 0,
    ;
    assert(-(p * count) == (-p) * count) by (nonlinear_arith);
    vstd::arithmetic::div_mod::lemma_div_multiples_vanish(p, count);
    vstd::arithmetic::div_mod::lemma_div_multiples_vanish(-p, count);
    assert(p * count == count * p && (-p) * count == count * (-p)) by (nonlinear_arith);
}

/// Contracts held, counted negative where the position is short.
pub open spec fn signed_holding(position: Position) -> int {
    match position.side {
        None => 0,
        Some(Side::Buy) => position.quantity as int,
        Some(Side::Sell) => -position.quantity,
    }
}

/// Every fill moves the holding by its own contracts, up where it bought and down
/// where it sold, whatever was held. A rejection and an empty fill move nothing at
/// all.
pub proof fn fills_move_the_holding(position: Position, fill: FillEvent)
    requires
        position.extended_by(fill) ==> position.quantity + fill.fill_size <= u32::MAX,
    ensures
        ({
            let after = position.after_fill(fill);
            &&& after.symbol_id == position.symbol_id
            &&& fill.fill_type is Rejected || fill.fill_size == 0 ==> after == position
            &&& !(fill.fill_type is Rejected) && fill.side == Side::Buy ==> signed_holding(after)
                == signed_holding(position) + fill.fill_size
            &&& !(fill.fill_type is Rejected) && fill.side == Side::Sell ==> signed_holding(after)
                == signed_holding(position) - fill.fill_size
        }),
{
}

/// Contracts are carried at what was paid for them. A holding opened or turned
/// round is carried at the price of the fill, one added to at the average of all
/// its contracts, and one that is only reduced keeps its price. One that is closed
/// is carried at nothing.
pub proof fn holdings_are_carried_at_cost(position: Position, fill: FillEvent)
    requires
        !(fill.fill_type is Rejected),
        fill.fill_size > 0,
        position.quantity + fill.fill_size <= u32::MAX,
    ensures
        ({
            let after = position.after_fill(fill);
            let was = signed_holding(position);
            let is = signed_holding(after);
            let paid = position.avg_entry_price.quarter_ticks;
            let price = fill.fill_price.quarter_ticks;
            let carried = after.avg_entry_price.quarter_ticks;
            let total = paid * position.quantity + price * fill.fill_size;
            let count = position.quantity + fill.fill_size;
            &&& was == 0 || (was > 0 && is < 0) || (was < 0 && is > 0) ==> carried == price
            &&& (0 < was < is || is < was < 0) && total >= 0 ==> carried * count <= total < (
            carried + 1) * count
            &&& (0 < was < is || is < was < 0) && total <= 0 ==> (carried - 1) * count < total
                <= carried * count
            &&& 0 < is < was || was < is < 0 ==> carried == paid
            &&& is == 0 ==> carried == 0 && after.side is None && after.quantity == 0
        }),
{
    let p1 = position.avg_entry_price.quarter_ticks as int;
    let p2 = fill.fill_price.quarter_ticks as int;
    let (q1, q2) = (position.quantity as int, fill.fill_size as int);
    averages_balance(p1, q1, p2, q2);
    lemma_weighted_sum_bounds(p1, q1, p2, q2);
    let total = p1 * q1 + p2 * q2;
    if total >= 0 {
        lemma_quotient_bound(total, q1 + q2, 0x7fff_ffff_ffff_ffff);
    } else {
        lemma_quotient_bound(-total, q1 + q2, 0x8000_0000_0000_0000);
    }
}

/// Profit is taken only on contracts that are given up: as many as the fill and the
/// holding share, each for what the price moved in the holding's favour. Opening
/// and adding take none.
pub proof fn closing_takes_the_profit(position: Position, fill: FillEvent)
    requires
        !(fill.fill_type is Rejected),
        position.extended_by(fill) ==> position.quantity + fill.fill_size <= u32::MAX,
    ensures
        ({
            let after = position.after_fill(fill);
            let was = signed_holding(position);
            let closed = if fill.fill_size < position.quantity {
                fill.fill_size as int
            } else {
                position.quantity as int
            };
            let rise = (fill.fill_price.quarter_ticks - position.avg_entry_price.quarter_ticks)
                * closed;
            let booked = after.realized_pnl - position.realized_pnl;
            &&& was == 0 || (was > 0 && fill.side == Side::Buy) || (was < 0 && fill.side
                == Side::Sell) ==> booked == 0
            &&& was > 0 && fill.side == Side::Sell && -i64::MAX <= rise <= i64::MAX && i64::MIN
                <= position.realized_pnl + rise <= i64::MAX ==> booked == rise
            &&& was < 0 && fill.side == Side::Buy && -i64::MAX <= rise <= i64::MAX && i64::MIN
                <= position.realized_pnl - rise <= i64::MAX ==> booked == -rise
        }),
{
    let closed = if fill.fill_size < position.quantity {
        fill.fill_size
    } else {
        position.quantity
    };
    if position.side is Some {
        profit_follows_the_price(
            position.side->Some_0,
            position.avg_entry_price.quarter_ticks,
            fill.fill_price.quarter_ticks,
            closed,
        );
    }
    let moved = fill.fill_price.quarter_ticks - position.avg_entry_price.quarter_ticks;
    assert(closed == 0 ==> moved * closed == 0) by (nonlinear_arith);
}

/// Valuing a position moves nothing but its open profit, which is what the price
/// moved in its favour since it was entered, and nothing where none is held.
pub proof fn valuing_moves_only_the_open_profit(position: Position, price: FixedPrice)
    ensures
        ({
            let valued = position.valued_at(price);
            let held = signed_holding(position);
            let profit = (price.quarter_ticks - position.avg_entry_price.quarter_ticks) * held;
            &&& valued.symbol_id == position.symbol_id
            &&& valued.side == position.side
            &&& valued.quantity == position.quantity
            &&& valued.avg_entry_price == position.avg_entry_price
            &&& valued.realized_pnl == position.realized_pnl
            &&& -i64::MAX <= profit <= i64::MAX ==> valued.unrealized_pnl == profit
        }),
{
    let moved = price.quarter_ticks - position.avg_entry_price.quarter_ticks;
    let held = signed_holding(position);
    if position.side is Some {
        profit_follows_the_price(
            position.side->Some_0,
            position.avg_entry_price.quarter_ticks,
            price.quarter_ticks,
            position.quantity,
        );
    }
    assert(moved * (-position.quantity) == -(moved * position.quantity)) by (nonlinear_arith);
    assert(held == 0 ==> moved * held == 0) by (nonlinear_arith);
}

/// A position holds something exactly when it has a side and contracts on it.
pub proof fn holding_takes_a_side_and_contracts(position: Position, broker: BrokerPosition)
    ensures
        position.holds_nothing() <==> signed_holding(position) == 0,
        !broker.holds_nothing() <==> broker.quantity != 0 && broker.side is Some,
        Position::flat_in(position.symbol_id).holds_nothing(),
        Position::flat_in(position.symbol_id).symbol_id == position.symbol_id,
        Position::flat_in(position.symbol_id).realized_pnl == 0,
        Position::flat_in(position.symbol_id).unrealized_pnl == 0,
{
}

/// The names in which sides and refusals are kept on file.
pub proof fn sides_and_refusals_are_told_apart(side: Side, reason: RejectReason)
    ensures
        side.name() == "Buy"@ <==> side == Side::Buy,
        side.name() == "Sell"@ <==> side == Side::Sell,
        reason.name() == "InsufficientMargin"@ <==> reason == RejectReason::InsufficientMargin,
        reason.name() == "ExchangeReject"@ <==> reason == RejectReason::ExchangeReject,
{
    reveal_strlit("Buy");
    assert("Buy"@.len() == 3);
    reveal_strlit("Sell");
    assert("Sell"@.len() == 4);
    reveal_strlit("InsufficientMargin");
    assert("InsufficientMargin"@.len() == 18);
    reveal_strlit("ExchangeReject");
    assert("ExchangeReject"@.len() == 14);
}

/// The names in which regimes are reported.
pub proof fn regimes_are_told_apart(regime: RegimeState)
    ensures
        regime.name() == "Trending"@ <==> regime == RegimeState::Trending,
        regime.name() == "Rotational"@ <==> regime == RegimeState::Rotational,
        regime.name() == "Volatile"@ <==> regime == RegimeState::Volatile,
        regime.name() == "Unknown"@ <==> regime == RegimeState::Unknown,
{
    reveal_strlit("Trending");
    assert("Trending"@.len() == 8);
    reveal_strlit("Rotational");
    assert("Rotational"@.len() == 10);
    reveal_strlit("Volatile");
    assert("Volatile"@.len() == 8);
    reveal_strlit("Unknown");
    assert("Unknown"@.len() == 7);
    assert("Trending"@[0] == 'T');
    assert("Rotational"@[0] == 'R');
    assert("Volatile"@[0] == 'V');
    assert("Unknown"@[0] == 'U');
}

/// The names in which the sources of trades are kept on file: each is read back as
/// the source it names, and no other text is a source.
pub proof fn sources_are_told_apart(source: TradeSource, text: Seq<char>)
    ensures
        source.name() == "live"@ <==> source == TradeSource::Live,
        source.name() == "paper"@ <==> source == TradeSource::Paper,
        source.name() == "replay"@ <==> source == TradeSource::Replay,
        TradeSource::named(text) == Some(source) <==> text == source.name(),
{
    reveal_strlit("live");
    assert("live"@.len() == 4);
    reveal_strlit("paper");
    assert("paper"@.len() == 5);
    reveal_strlit("replay");
    assert("replay"@.len() == 6);
}

/// The names in which the states of orders are kept on file: no two states share
/// one.
pub proof fn order_states_are_told_apart(state: OrderState, other: OrderState)
    ensures
        state.name() == other.name() ==> state == other,
        OrderState::Idle.name() == "Idle"@,
        OrderState::Submitted.name() == "Submitted"@,
        OrderState::Confirmed.name() == "Confirmed"@,
        OrderState::PartialFill.name() == "PartialFill"@,
        OrderState::Filled.name() == "Filled"@,
        OrderState::Rejected.name() == "Rejected"@,
        OrderState::Cancelled.name() == "Cancelled"@,
        OrderState::PendingCancel.name() == "PendingCancel"@,
        OrderState::Uncertain.name() == "Uncertain"@,
        OrderState::PendingRecon.name() == "PendingRecon"@,
        OrderState::Resolved.name() == "Resolved"@,
{
    reveal_strlit("Idle");
    assert("Idle"@.len() == 4);
    reveal_strlit("Submitted");
    assert("Submitted"@.len() == 9);
    reveal_strlit("Confirmed");
    assert("Confirmed"@.len() == 9);
    reveal_strlit("PartialFill");
    assert("PartialFill"@.len() == 11);
    reveal_strlit("Filled");
    assert("Filled"@.len() == 6);
    reveal_strlit("Rejected");
    assert("Rejected"@.len() == 8);
    reveal_strlit("Cancelled");
    assert("Cancelled"@.len() == 9);
    reveal_strlit("PendingCancel");
    assert("PendingCancel"@.len() == 13);
    reveal_strlit("Uncertain");
    assert("Uncertain"@.len() == 9);
    reveal_strlit("PendingRecon");
    assert("PendingRecon"@.len() == 12);
    reveal_strlit("Resolved");
    assert("Resolved"@.len() == 8);
    assert("Submitted"@[0] == 'S' && "Submitted"@[1] == 'u');
    assert("Confirmed"@[0] == 'C' && "Confirmed"@[1] == 'o');
    assert("Cancelled"@[0] == 'C' && "Cancelled"@[1] == 'a');
    assert("Uncertain"@[0] == 'U' && "Uncertain"@[1] == 'n');
    assert("Rejected"@[0] == 'R' && "Rejected"@[2] == 'j');
    assert("Resolved"@[0] == 'R' && "Resolved"@[2] == 's');
    assert("PendingCancel"@[7] == 'C');
    assert("PendingRecon"@[7] == 'R');
}

} // verus!
