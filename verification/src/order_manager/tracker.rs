//! Positions as the engine sees them, and their reconciliation with the broker.
//!
//! A disagreement with the broker halts trading and tells the circuit breaker
//! once. It never changes the engine's own positions: that is left to a human.
use std::collections::HashMap;
use vstd::prelude::*;
use vstd::string::StringExecFns;

use super::state_machine::{InvalidTransition, OrderTransition};
use crate::arith::{saturating_add_i64, saturating_sum};
use crate::keys::{keys_u32, lists_exactly};
use crate::persistence::journal::{
    EngineEvent, EventModel, JournalLog, JournalSender, SystemEventRecord,
};
use crate::text::{dec_int, dec_nat, push_i64, push_u64};
use crate::types::{
    BrokerPosition, FillEvent, FixedPrice, OrderState, Position, Side, UnixNanos,
};

verus! {

/// How the two views of a symbol disagree.
#[derive(Debug, Clone, Copy, PartialEq, Eq, Structural)]
pub enum MismatchKind {
    /// The engine holds a position that the broker does not know.
    PhantomLocal,
    /// The broker holds a position that the engine does not know.
    MissedFill,
    /// Both hold a position, with another side, quantity or entry price.
    SideOrQuantity,
}

impl MismatchKind {
    pub open spec fn name(self) -> Seq<char> {
        match self {
            MismatchKind::PhantomLocal => "PhantomLocal"@,
            MismatchKind::MissedFill => "MissedFill"@,
            MismatchKind::SideOrQuantity => "SideOrQuantity"@,
        }
    }

    pub fn as_str(self) -> (r: &'static str)
        ensures
            r@ == self.name(),
    {
        match self {
            MismatchKind::PhantomLocal => "PhantomLocal",
            MismatchKind::MissedFill => "MissedFill",
            MismatchKind::SideOrQuantity => "SideOrQuantity",
        }
    }
}

/// One symbol on which the two views disagree.
#[derive(Debug, Clone, Copy, PartialEq, Eq, Structural)]
pub struct PositionMismatch {
    pub symbol_id: u32,
    pub kind: MismatchKind,
    pub local: Option<LocalSnapshot>,
    pub broker: Option<BrokerSnapshot>,
}

/// What the engine holds of a symbol.
#[derive(Debug, Clone, Copy, PartialEq, Eq, Structural)]
pub struct LocalSnapshot {
    pub side: Option<Side>,
    pub quantity: u32,
    pub avg_entry_price: FixedPrice,
}

/// What the broker holds of a symbol.
#[derive(Debug, Clone, Copy, PartialEq, Eq, Structural)]
pub struct BrokerSnapshot {
    pub side: Option<Side>,
    pub quantity: u32,
    pub avg_entry_price: FixedPrice,
}

impl<'a> From<&'a Position> for LocalSnapshot {
    fn from(p: &'a Position) -> (r: Self) {
        LocalSnapshot { side: p.side, quantity: p.quantity, avg_entry_price: p.avg_entry_price }
    }
}

impl<'a> vstd::std_specs::convert::FromSpecImpl<&'a Position> for LocalSnapshot {
    open spec fn obeys_from_spec() -> bool {
        true
    }

    open spec fn from_spec(p: &'a Position) -> Self {
        LocalSnapshot { side: p.side, quantity: p.quantity, avg_entry_price: p.avg_entry_price }
    }
}

impl<'a> From<&'a BrokerPosition> for BrokerSnapshot {
    fn from(p: &'a BrokerPosition) -> (r: Self) {
        BrokerSnapshot { side: p.side, quantity: p.quantity, avg_entry_price: p.avg_entry_price }
    }
}

impl<'a> vstd::std_specs::convert::FromSpecImpl<&'a BrokerPosition> for BrokerSnapshot {
    open spec fn obeys_from_spec() -> bool {
        true
    }

    open spec fn from_spec(p: &'a BrokerPosition) -> Self {
        BrokerSnapshot { side: p.side, quantity: p.quantity, avg_entry_price: p.avg_entry_price }
    }
}

/// Outcome of one reconciliation.
#[derive(Debug, Clone, PartialEq, Eq)]
pub enum ReconciliationResult {
    /// The two views agree on every symbol.
    Consistent,
    /// The symbols on which they do not.
    Mismatch(Vec<PositionMismatch>),
}

impl ReconciliationResult {
    pub fn is_consistent(&self) -> (r: bool)
        ensures
            r == (self is Consistent),
    {
        match self {
            ReconciliationResult::Consistent => true,
            ReconciliationResult::Mismatch(_) => false,
        }
    }
}

/// What started a reconciliation.
#[derive(Debug, Clone, Copy, PartialEq, Eq, Structural)]
pub enum ReconciliationTrigger {
    Startup,
    Reconnection,
    Periodic,
}

impl ReconciliationTrigger {
    pub open spec fn name(self) -> Seq<char> {
        match self {
            ReconciliationTrigger::Startup => "startup"@,
            ReconciliationTrigger::Reconnection => "reconnection"@,
            ReconciliationTrigger::Periodic => "periodic"@,
        }
    }

    pub fn as_str(self) -> (r: &'static str)
        ensures
            r@ == self.name(),
    {
        match self {
            ReconciliationTrigger::Startup => "startup",
            ReconciliationTrigger::Reconnection => "reconnection",
            ReconciliationTrigger::Periodic => "periodic",
        }
    }
}

// ---------------------------------------------------------------------------
// Model
// ---------------------------------------------------------------------------

/// The tracker as a mathematical value.
#[verifier::ext_equal]
pub struct TrackerModel {
    pub positions: Map<u32, Position>,
    /// The last price seen of each symbol.
    pub mids: Map<u32, FixedPrice>,
    pub log: JournalLog,
    pub armed: bool,
    pub halted: bool,
    pub trips: Seq<InvalidTransition>,
}

/// The broker's view of a symbol. Where it names one twice, the later counts.
pub open spec fn broker_at(view: Seq<BrokerPosition>, symbol_id: u32) -> Option<BrokerPosition>
    decreases view.len(),
{
    if view.len() == 0 {
        None
    } else if view.last().symbol_id == symbol_id {
        Some(view.last())
    } else {
        broker_at(view.drop_last(), symbol_id)
    }
}

/// The disagreement between two views of a symbol, if there is one.
pub open spec fn disagreement(
    symbol_id: u32,
    local: Option<Position>,
    broker: Option<BrokerPosition>,
) -> Option<PositionMismatch> {
    let local_active = local matches Some(p) && !p.holds_nothing();
    let broker_active = broker matches Some(p) && !p.holds_nothing();
    let local_shot = match local {
        Some(p) => Some(LocalSnapshot { side: p.side, quantity: p.quantity, avg_entry_price: p.avg_entry_price }),
        None => None,
    };
    let broker_shot = match broker {
        Some(p) => Some(BrokerSnapshot { side: p.side, quantity: p.quantity, avg_entry_price: p.avg_entry_price }),
        None => None,
    };
    if local_active && !broker_active {
        Some(
            PositionMismatch {
                symbol_id,
                kind: MismatchKind::PhantomLocal,
                local: local_shot,
                broker: broker_shot,
            },
        )
    } else if !local_active && broker_active {
        Some(
            PositionMismatch {
                symbol_id,
                kind: MismatchKind::MissedFill,
                local: local_shot,
                broker: broker_shot,
            },
        )
    } else if local_active && broker_active && !(local->Some_0.side == broker->Some_0.side
        && local->Some_0.quantity == broker->Some_0.quantity && local->Some_0.avg_entry_price
        == broker->Some_0.avg_entry_price) {
        Some(
            PositionMismatch {
                symbol_id,
                kind: MismatchKind::SideOrQuantity,
                local: local_shot,
                broker: broker_shot,
            },
        )
    } else {
        None
    }
}

/// How a side is written.
pub open spec fn side_text(side: Option<Side>) -> Seq<char> {
    match side {
        None => "None"@,
        Some(Side::Buy) => "Some(Buy)"@,
        Some(Side::Sell) => "Some(Sell)"@,
    }
}

/// `side=.. qty=.. avg=..`
pub open spec fn holding_text(side: Option<Side>, quantity: u32, avg: FixedPrice) -> Seq<char> {
    "side="@ + side_text(side) + " qty="@ + dec_nat(quantity as nat) + " avg="@ + dec_int(
        avg.quarter_ticks as int,
    )
}

/// The line of one mismatch.
pub open spec fn mismatch_line(m: PositionMismatch) -> Seq<char> {
    "\n  symbol="@ + dec_nat(m.symbol_id as nat) + " kind="@ + m.kind.name() + " local="@ + (
    match m.local {
        Some(l) => holding_text(l.side, l.quantity, l.avg_entry_price),
        None => "flat"@,
    }) + " broker="@ + (match m.broker {
        Some(b) => holding_text(b.side, b.quantity, b.avg_entry_price),
        None => "flat"@,
    })
}

/// The lines of the mismatches, in order.
pub open spec fn mismatch_lines(list: Seq<PositionMismatch>) -> Seq<char>
    decreases list.len(),
{
    if list.len() == 0 {
        Seq::empty()
    } else {
        mismatch_lines(list.drop_last()) + mismatch_line(list.last())
    }
}

/// The journal text of a failed reconciliation.
pub open spec fn mismatch_text(
    trigger: ReconciliationTrigger,
    list: Seq<PositionMismatch>,
) -> Seq<char> {
    "reconciliation MISMATCH ("@ + trigger.name() + "); count="@ + dec_nat(list.len())
        + "; trading halted (NFR16)"@ + mismatch_lines(list)
}

impl TrackerModel {
    pub open spec fn position(self, symbol_id: u32) -> Position {
        if self.positions.contains_key(symbol_id) {
            self.positions[symbol_id]
        } else {
            Position::flat_in(symbol_id)
        }
    }

    pub open spec fn known_position(self, symbol_id: u32) -> Option<Position> {
        if self.positions.contains_key(symbol_id) {
            Some(self.positions[symbol_id])
        } else {
            None
        }
    }

    /// The tracker after a fill. The position is revalued at the last price, and
    /// one that is flat and left no profit or loss is forgotten.
    pub open spec fn after_fill(self, fill: FillEvent, symbol_id: u32) -> TrackerModel {
        let filled = self.position(symbol_id).after_fill(fill);
        let valued = if self.mids.contains_key(symbol_id) {
            filled.valued_at(self.mids[symbol_id])
        } else {
            filled
        };
        TrackerModel {
            positions: if valued.holds_nothing() && valued.realized_pnl == 0
                && valued.unrealized_pnl == 0 {
                self.positions.remove(symbol_id)
            } else {
                self.positions.insert(symbol_id, valued)
            },
            ..self
        }
    }

    /// The tracker with the position of a symbol revalued.
    pub open spec fn revalued(self, symbol_id: u32, price: FixedPrice) -> TrackerModel {
        TrackerModel {
            mids: self.mids.insert(symbol_id, price),
            positions: if self.positions.contains_key(symbol_id) {
                self.positions.insert(symbol_id, self.positions[symbol_id].valued_at(price))
            } else {
                self.positions
            },
            ..self
        }
    }

    /// Flat positions are remembered only for what they realized.
    pub open spec fn pruned(self) -> bool {
        forall|s: u32| #[trigger]
            self.positions.contains_key(s) && self.positions[s].holds_nothing()
                ==> self.positions[s].realized_pnl != 0 && self.positions[s].unrealized_pnl == 0
    }

    /// The symbols with an open position.
    pub open spec fn open_symbols(self) -> Set<u32> {
        self.positions.dom().filter(|s: u32| !self.positions[s].holds_nothing())
    }

    /// How the engine's and the broker's view of a symbol disagree.
    pub open spec fn mismatch(self, view: Seq<BrokerPosition>, symbol_id: u32) -> Option<
        PositionMismatch,
    > {
        disagreement(symbol_id, self.known_position(symbol_id), broker_at(view, symbol_id))
    }

    /// Whether the list holds every mismatch with the broker once, and nothing
    /// else.
    pub open spec fn lists_mismatches(
        self,
        view: Seq<BrokerPosition>,
        list: Seq<PositionMismatch>,
    ) -> bool {
        &&& forall|i: int|
            0 <= i < list.len() ==> self.mismatch(view, (#[trigger] list[i]).symbol_id) == Some(
                list[i],
            )
        &&& forall|i: int, j: int|
            0 <= i < j < list.len() ==> (#[trigger] list[i]).symbol_id != (
            #[trigger] list[j]).symbol_id
        &&& forall|s: u32| #[trigger]
            self.mismatch(view, s) is Some ==> list.contains(self.mismatch(view, s)->Some_0)
    }

    /// The tracker after a reconciliation.
    pub open spec fn after_reconciliation(
        self,
        result: ReconciliationResult,
        trigger: ReconciliationTrigger,
        now: UnixNanos,
    ) -> TrackerModel {
        match result {
            ReconciliationResult::Consistent => TrackerModel {
                log: self.log.record(
                    EventModel::System {
                        timestamp: now,
                        category: "reconciliation"@,
                        message: "reconciliation passed ("@ + trigger.name() + "); open_positions="@
                            + dec_nat(self.open_symbols().len()),
                    },
                ),
                ..self
            },
            ReconciliationResult::Mismatch(list) => TrackerModel {
                log: self.log.record(
                    EventModel::System {
                        timestamp: now,
                        category: "reconciliation"@,
                        message: mismatch_text(trigger, list@),
                    },
                ),
                halted: true,
                trips: if self.armed && !self.halted {
                    self.trips.push(
                        InvalidTransition {
                            from: OrderState::Idle,
                            trigger: OrderTransition::Reject,
                        },
                    )
                } else {
                    self.trips
                },
                ..self
            },
        }
    }
}

// ---------------------------------------------------------------------------
// Text
// ---------------------------------------------------------------------------

fn push_holding(out: &mut String, side: Option<Side>, quantity: u32, avg: FixedPrice)
    ensures
        final(out)@ == old(out)@ + holding_text(side, quantity, avg),
{
    out.append("side=");
    match side {
        None => {
            out.append("None");
        },
        Some(Side::Buy) => {
            out.append("Some(Buy)");
        },
        Some(Side::Sell) => {
            out.append("Some(Sell)");
        },
    }
    out.append(" qty=");
    push_u64(out, quantity as u64);
    out.append(" avg=");
    push_i64(out, avg.raw());
    assert(out@ =~= old(out)@ + holding_text(side, quantity, avg));
}

fn push_mismatch_line(out: &mut String, m: &PositionMismatch)
    ensures
        final(out)@ == old(out)@ + mismatch_line(*m),
{
    out.append("\n  symbol=");
    push_u64(out, m.symbol_id as u64);
    out.append(" kind=");
    out.append(m.kind.as_str());
    out.append(" local=");
    match m.local {
        Some(l) => {
            push_holding(out, l.side, l.quantity, l.avg_entry_price);
        },
        None => {
            out.append("flat");
        },
    }
    out.append(" broker=");
    match m.broker {
        Some(b) => {
            push_holding(out, b.side, b.quantity, b.avg_entry_price);
        },
        None => {
            out.append("flat");
        },
    }
    assert(out@ =~= old(out)@ + mismatch_line(*m));
}

/// The journal text of a failed reconciliation.
pub fn format_mismatch_journal_message(
    trigger: ReconciliationTrigger,
    mismatches: &Vec<PositionMismatch>,
) -> (r: String)
    ensures
        r@ == mismatch_text(trigger, mismatches@),
{
    let mut out = "reconciliation MISMATCH (".to_owned();
    out.append(trigger.as_str());
    out.append("); count=");
    push_u64(&mut out, mismatches.len() as u64);
    out.append("; trading halted (NFR16)");
    let ghost head = out@;
    let mut i: usize = 0;
    proof {
        assert(mismatches@.take(0) =~= Seq::<PositionMismatch>::empty());
        assert(out@ =~= head + mismatch_lines(mismatches@.take(0)));
    }
    while i < mismatches.len()
        invariant
            i <= mismatches@.len(),
            out@ == head + mismatch_lines(mismatches@.take(i as int)),
        decreases mismatches@.len() - i,
    {
        push_mismatch_line(&mut out, &mismatches[i]);
        proof {
            assert(mismatches@.take(i + 1).drop_last() =~= mismatches@.take(i as int));
            assert(mismatches@.take(i + 1).last() == mismatches@[i as int]);
            assert(out@ =~= head + mismatch_lines(mismatches@.take(i + 1)));
        }
        i += 1;
    }
    assert(mismatches@.take(mismatches@.len() as int) =~= mismatches@);
    out
}

// ---------------------------------------------------------------------------
// Tracker
// ---------------------------------------------------------------------------

/// Keeps one position per symbol and compares them with the broker's.
pub struct PositionTracker {
    positions: HashMap<u32, Position>,
    last_mid_prices: HashMap<u32, FixedPrice>,
    journal: JournalSender,
    breaker_armed: bool,
    trading_halted: bool,
    trips: Vec<InvalidTransition>,
}

impl View for PositionTracker {
    type V = TrackerModel;

    closed spec fn view(&self) -> TrackerModel {
        TrackerModel {
            positions: self.positions@,
            mids: self.last_mid_prices@,
            log: self.journal@,
            armed: self.breaker_armed,
            halted: self.trading_halted,
            trips: self.trips@,
        }
    }
}

impl PositionTracker {
    pub fn new(journal: JournalSender) -> (r: Self)
        ensures
            r@ == (TrackerModel {
                positions: Map::empty(),
                mids: Map::empty(),
                log: journal@,
                armed: false,
                halted: false,
                trips: Seq::empty(),
            }),
            r@.pruned(),
    {
        broadcast use vstd::std_specs::hash::group_hash_axioms;

        PositionTracker {
            positions: HashMap::new(),
            last_mid_prices: HashMap::new(),
            journal,
            breaker_armed: false,
            trading_halted: false,
            trips: Vec::new(),
        }
    }

    /// Passes the first mismatch on to a breaker.
    pub fn with_circuit_breaker(self) -> (r: Self)
        ensures
            r@ == (TrackerModel { armed: true, ..self@ }),
    {
        let mut tracker = self;
        tracker.breaker_armed = true;
        tracker
    }

    /// Whether new orders have to be refused.
    pub fn trading_halted(&self) -> (r: bool)
        ensures
            r == self@.halted,
    {
        self.trading_halted
    }

    pub fn local_position(&self, symbol_id: u32) -> (r: Option<&Position>)
        ensures
            r is Some <==> self@.positions.contains_key(symbol_id),
            r matches Some(p) ==> *p == self@.positions[symbol_id],
    {
        broadcast use vstd::std_specs::hash::group_hash_axioms;

        self.positions.get(&symbol_id)
    }

    /// Every position that the tracker remembers, each once, in no particular
    /// order. A flat position is remembered only for what it realized.
    pub fn iter(&self) -> (r: Vec<(u32, Position)>)
        ensures
            lists_exactly(r@.map_values(|e: (u32, Position)| e.0), self@.positions.dom()),
            forall|i: int|
                0 <= i < r@.len() ==> (#[trigger] r@[i]).1 == self@.positions[r@[i].0],
    {
        broadcast use vstd::std_specs::hash::group_hash_axioms;

        let symbols: Vec<u32> = keys_u32(&self.positions);
        let mut out: Vec<(u32, Position)> = Vec::new();
        let mut i: usize = 0;
        while i < symbols.len()
            invariant
                i <= symbols@.len(),
                lists_exactly(symbols@, self@.positions.dom()),
                out@.len() == i,
                forall|j: int|
                    0 <= j < i ==> (#[trigger] out@[j]).0 == symbols@[j] && out@[j].1
                        == self@.positions[symbols@[j]],
            decreases symbols@.len() - i,
        {
            let symbol_id: u32 = symbols[i];
            assert(symbols@.to_set().contains(symbol_id));
            if let Some(p) = self.positions.get(&symbol_id) {
                out.push((symbol_id, *p));
            }
            i += 1;
        }
        assert(out@.map_values(|e: (u32, Position)| e.0) =~= symbols@);
        out
    }

    /// How many symbols have an open position.
    pub fn open_count(&self) -> (r: usize)
        ensures
            r == self@.open_symbols().len(),
    {
        broadcast use vstd::std_specs::hash::group_hash_axioms;

        let symbols: Vec<u32> = keys_u32(&self.positions);
        let ghost mut seen: Set<u32> = Set::empty();
        let mut count: usize = 0;
        let mut i: usize = 0;
        while i < symbols.len()
            invariant
                i <= symbols@.len(),
                count <= i,
                lists_exactly(symbols@, self@.positions.dom()),
                seen.finite(),
                seen.len() == count,
                forall|s: u32| #[trigger]
                    seen.contains(s) <==> self@.open_symbols().contains(s) && symbols@.take(
                        i as int,
                    ).contains(s),
            decreases symbols@.len() - i,
        {
            let symbol_id: u32 = symbols[i];
            let ghost before = seen;
            proof {
                assert(symbols@.to_set().contains(symbol_id));
                assert(symbols@.take(i + 1) =~= symbols@.take(i as int).push(symbol_id));
                assert(!symbols@.take(i as int).contains(symbol_id));
            }
            if let Some(p) = self.positions.get(&symbol_id) {
                if !p.is_flat() {
                    count += 1;
                    proof {
                        seen = seen.insert(symbol_id);
                    }
                }
            }
            proof {
                assert forall|s: u32| #[trigger] seen.contains(s) <==> self@.open_symbols().contains(
                    s,
                ) && symbols@.take(i + 1).contains(s) by {
                    if symbols@.take(i as int).contains(s) {
                        let at = symbols@.take(i as int).index_of(s);
                        assert(symbols@.take(i + 1)[at] == s);
                    }
                    assert(symbols@.take(i + 1)[i as int] == symbol_id);
                }
            }
            i += 1;
        }
        proof {
            assert(symbols@.take(symbols@.len() as int) =~= symbols@);
            assert forall|s: u32| seen.contains(s) == self@.open_symbols().contains(s) by {
                if self@.open_symbols().contains(s) {
                    assert(symbols@.to_set().contains(s));
                }
            }
            assert(seen =~= self@.open_symbols());
        }
        count
    }

    /// Applies a fill to the position of a symbol.
    pub fn apply_fill(&mut self, fill: &FillEvent, symbol_id: u32)
        requires
            old(self)@.position(symbol_id).extended_by(*fill) ==> old(self)@.position(
                symbol_id,
            ).quantity + fill.fill_size <= u32::MAX,
        ensures
            final(self)@ == old(self)@.after_fill(*fill, symbol_id),
    {
        broadcast use vstd::std_specs::hash::group_hash_axioms;

        let mut position = match self.positions.get(&symbol_id) {
            Some(p) => *p,
            None => Position::flat(symbol_id),
        };
        position.apply_fill(fill);
        if let Some(mid) = self.last_mid_prices.get(&symbol_id) {
            position.update_unrealized_pnl(*mid);
        }
        if position.is_flat() && position.realized_pnl == 0 && position.unrealized_pnl == 0 {
            self.positions.remove(&symbol_id);
        } else {
            self.positions.insert(symbol_id, position);
        }
    }

    /// Revalues the position of a symbol at its current price.
    pub fn update_unrealized_pnl_for_symbol(&mut self, symbol_id: u32, current_price: FixedPrice)
        ensures
            final(self)@ == old(self)@.revalued(symbol_id, current_price),
    {
        broadcast use vstd::std_specs::hash::group_hash_axioms;

        self.last_mid_prices.insert(symbol_id, current_price);
        let found = match self.positions.get(&symbol_id) {
            Some(p) => Some(*p),
            None => None,
        };
        if let Some(p) = found {
            let mut position = p;
            position.update_unrealized_pnl(current_price);
            self.positions.insert(symbol_id, position);
        }
    }

    /// What all symbols together have realised. The positions are added up in no
    /// particular order, which matters only where the sum leaves the range of
    /// `i64` on the way.
    pub fn total_realized_pnl_quarter_ticks(&self) -> (r: i64)
        ensures
            exists|symbols: Seq<u32>| #[trigger]
                lists_exactly(symbols, self@.positions.dom()) && r == saturating_sum(
                    symbols.map_values(|s: u32| self@.positions[s].realized_pnl as int),
                ),
    {
        broadcast use vstd::std_specs::hash::group_hash_axioms;

        let symbols: Vec<u32> = keys_u32(&self.positions);
        let ghost values = symbols@.map_values(|s: u32| self@.positions[s].realized_pnl as int);
        let mut total: i64 = 0;
        let mut i: usize = 0;
        while i < symbols.len()
            invariant
                i <= symbols@.len(),
                lists_exactly(symbols@, self@.positions.dom()),
                values == symbols@.map_values(|s: u32| self@.positions[s].realized_pnl as int),
                total == saturating_sum(values.take(i as int)),
            decreases symbols@.len() - i,
        {
            let symbol_id: u32 = symbols[i];
            proof {
                assert(symbols@.to_set().contains(symbol_id));
                assert(values.take(i + 1).drop_last() =~= values.take(i as int));
                assert(values.take(i + 1).last() == self@.positions[symbol_id].realized_pnl);
            }
            if let Some(p) = self.positions.get(&symbol_id) {
                total = saturating_add_i64(total, p.realized_pnl);
            }
            i += 1;
        }
        assert(values.take(values.len() as int) =~= values);
        total
    }

    /// Compares the engine's positions with the broker's. Every symbol that
    /// either of them names is looked at.
    pub fn reconcile(&self, broker_view: &[BrokerPosition]) -> (r: ReconciliationResult)
        ensures
            r is Consistent <==> forall|s: u32| #[trigger] self@.mismatch(broker_view@, s) is None,
            r matches ReconciliationResult::Mismatch(list) ==> list@.len() > 0
                && self@.lists_mismatches(broker_view@, list@),
    {
        broadcast use vstd::std_specs::hash::group_hash_axioms;

        let ghost view = broker_view@;
        let mut broker_by_symbol: HashMap<u32, BrokerPosition> = HashMap::new();
        let mut i: usize = 0;
        while i < broker_view.len()
            invariant
                i <= broker_view@.len(),
                view == broker_view@,
                forall|s: u32|
                    (#[trigger] broker_at(view.take(i as int), s)) == (
                    if broker_by_symbol@.contains_key(s) {
                        Some(broker_by_symbol@[s])
                    } else {
                        None
                    }),
            decreases broker_view@.len() - i,
        {
            broadcast use vstd::std_specs::hash::group_hash_axioms;

            let p = broker_view[i];
            broker_by_symbol.insert(p.symbol_id, p);
            proof {
                assert(view.take(i + 1).drop_last() =~= view.take(i as int));
                assert(view.take(i + 1).last() == p);
                assert forall|s: u32| (#[trigger] broker_at(view.take(i + 1), s)) == (
                if broker_by_symbol@.contains_key(s) {
                    Some(broker_by_symbol@[s])
                } else {
                    None
                }) by {
                    let earlier = broker_at(view.take(i as int), s);
                }
            }
            i += 1;
        }
        assert(view.take(view.len() as int) =~= view);

        let mut symbols: Vec<u32> = keys_u32(&self.positions);
        let ghost own = symbols@;
        let broker_symbols: Vec<u32> = keys_u32(&broker_by_symbol);
        let mut k: usize = 0;
        while k < broker_symbols.len()
            invariant
                k <= broker_symbols@.len(),
                lists_exactly(broker_symbols@, broker_by_symbol@.dom()),
                lists_exactly(own, self@.positions.dom()),
                symbols@.no_duplicates(),
                forall|s: u32| #[trigger] self@.positions.contains_key(s) ==> symbols@.contains(s),
                forall|s: u32| #[trigger]
                    symbols@.contains(s) ==> self@.positions.contains_key(s)
                        || broker_symbols@.take(k as int).contains(s),
                forall|j: int| 0 <= j < k ==> symbols@.contains(#[trigger] broker_symbols@[j]),
            decreases broker_symbols@.len() - k,
        {
            broadcast use vstd::std_specs::hash::group_hash_axioms;

            let symbol_id: u32 = broker_symbols[k];
            let ghost before = symbols@;
            proof {
                assert(broker_symbols@.take(k + 1) =~= broker_symbols@.take(k as int).push(
                    symbol_id,
                ));
                assert(!broker_symbols@.take(k as int).contains(symbol_id));
            }
            if !self.positions.contains_key(&symbol_id) {
                assert(!before.contains(symbol_id));
                symbols.push(symbol_id);
                proof {
                    assert(symbols@[before.len() as int] == symbol_id);
                    assert forall|s: u32| before.contains(s) implies symbols@.contains(s) by {
                        let at = before.index_of(s);
                        assert(symbols@[at] == s);
                    }
                }
            }
            proof {
                assert forall|s: u32| #[trigger] symbols@.contains(s) implies
                    self@.positions.contains_key(s) || broker_symbols@.take(k + 1).contains(s) by {
                    if before.contains(s) {
                        if broker_symbols@.take(k as int).contains(s) {
                            let at = broker_symbols@.take(k as int).index_of(s);
                            assert(broker_symbols@.take(k + 1)[at] == s);
                        }
                    } else {
                        assert(s == symbol_id);
                        assert(broker_symbols@.take(k + 1)[k as int] == s);
                    }
                }
            }
            k += 1;
        }
        proof {
            assert forall|s: u32| #[trigger] broker_by_symbol@.contains_key(s) implies
                symbols@.contains(s) by {
                assert(broker_symbols@.to_set().contains(s));
                let at = broker_symbols@.index_of(s);
                assert(broker_symbols@[at] == s);
            }
        }

        let mut mismatches: Vec<PositionMismatch> = Vec::new();
        let mut n: usize = 0;
        while n < symbols.len()
            invariant
                n <= symbols@.len(),
                view == broker_view@,
                symbols@.no_duplicates(),
                forall|s: u32|
                    (#[trigger] broker_at(view, s)) == (if broker_by_symbol@.contains_key(s) {
                        Some(broker_by_symbol@[s])
                    } else {
                        None
                    }),
                forall|m: int|
                    0 <= m < mismatches@.len() ==> self@.mismatch(
                        view,
                        (#[trigger] mismatches@[m]).symbol_id,
                    ) == Some(mismatches@[m]) && symbols@.take(n as int).contains(
                        mismatches@[m].symbol_id,
                    ),
                forall|a: int, b: int|
                    0 <= a < b < mismatches@.len() ==> (#[trigger] mismatches@[a]).symbol_id != (
                    #[trigger] mismatches@[b]).symbol_id,
                forall|j: int|
                    0 <= j < n && self@.mismatch(view, #[trigger] symbols@[j]) is Some
                        ==> mismatches@.contains(self@.mismatch(view, symbols@[j])->Some_0),
            decreases symbols@.len() - n,
        {
            broadcast use vstd::std_specs::hash::group_hash_axioms;

            let symbol_id: u32 = symbols[n];
            let ghost before = mismatches@;
            let local = self.positions.get(&symbol_id);
            let broker = broker_by_symbol.get(&symbol_id);
            let ghost known = broker_at(view, symbol_id);
            assert(!symbols@.take(n as int).contains(symbol_id));
            let local_active = match local {
                Some(p) => !p.is_flat(),
                None => false,
            };
            let broker_active = match broker {
                Some(p) => !p.is_flat(),
                None => false,
            };
            let differs = match (local, broker) {
                (Some(l), Some(b)) => l.side != b.side || l.quantity != b.quantity
                    || l.avg_entry_price != b.avg_entry_price,
                _ => false,
            };
            let kind = if local_active && !broker_active {
                Some(MismatchKind::PhantomLocal)
            } else if !local_active && broker_active {
                Some(MismatchKind::MissedFill)
            } else if local_active && broker_active && differs {
                Some(MismatchKind::SideOrQuantity)
            } else {
                None
            };
            if let Some(kind) = kind {
                let mismatch = PositionMismatch {
                    symbol_id,
                    kind,
                    local: match local {
                        Some(p) => Some(LocalSnapshot::from(p)),
                        None => None,
                    },
                    broker: match broker {
                        Some(p) => Some(BrokerSnapshot::from(p)),
                        None => None,
                    },
                };
                mismatches.push(mismatch);
                assert(self@.mismatch(view, symbol_id) == Some(mismatch));
            } else {
                assert(self@.mismatch(view, symbol_id) is None);
            }
            proof {
                assert(symbols@.take(n + 1) =~= symbols@.take(n as int).push(symbol_id));
                assert forall|m: int| 0 <= m < mismatches@.len() implies symbols@.take(
                    n + 1,
                ).contains((#[trigger] mismatches@[m]).symbol_id) by {
                    if m < before.len() {
                        assert(mismatches@[m] == before[m]);
                        let at = symbols@.take(n as int).index_of(before[m].symbol_id);
                        assert(symbols@.take(n + 1)[at] == before[m].symbol_id);
                    } else {
                        assert(symbols@.take(n + 1)[n as int] == symbol_id);
                    }
                }
                assert forall|j: int| 0 <= j < n + 1 && self@.mismatch(
                    view,
                    #[trigger] symbols@[j],
                ) is Some implies mismatches@.contains(
                    self@.mismatch(view, symbols@[j])->Some_0,
                ) by {
                    if j < n {
                        let wanted = self@.mismatch(view, symbols@[j])->Some_0;
                        assert(before.contains(wanted));
                        let at = before.index_of(wanted);
                        assert(mismatches@[at] == wanted);
                    } else {
                        assert(mismatches@[before.len() as int]
                            == self@.mismatch(view, symbol_id)->Some_0);
                    }
                }
            }
            n += 1;
        }
        proof {
            assert forall|s: u32| #[trigger] self@.mismatch(view, s) is Some implies
                mismatches@.contains(self@.mismatch(view, s)->Some_0) by {
                let known = broker_at(view, s);
                assert(self@.positions.contains_key(s) || broker_by_symbol@.contains_key(s));
                assert(symbols@.contains(s));
                let at = symbols@.index_of(s);
                assert(symbols@[at] == s);
            }
        }
        if mismatches.len() == 0 {
            ReconciliationResult::Consistent
        } else {
            assert(self@.mismatch(view, mismatches@[0].symbol_id) is Some);
            ReconciliationResult::Mismatch(mismatches)
        }
    }

    /// Journals the outcome of a reconciliation. A mismatch halts trading and
    /// tells the circuit breaker the first time; the positions stay as they are.
    pub fn handle_reconciliation_result(
        &mut self,
        result: &ReconciliationResult,
        trigger: ReconciliationTrigger,
        now: UnixNanos,
    )
        ensures
            final(self)@ == old(self)@.after_reconciliation(*result, trigger, now),
    {
        match result {
            ReconciliationResult::Consistent => {
                let mut message = "reconciliation passed (".to_owned();
                message.append(trigger.as_str());
                message.append("); open_positions=");
                push_u64(&mut message, self.open_count() as u64);
                self.journal_note(now, message);
            },
            ReconciliationResult::Mismatch(mismatches) => {
                let message = format_mismatch_journal_message(trigger, mismatches);
                self.journal_note(now, message);
                let already_halted = self.trading_halted;
                self.trading_halted = true;
                if !already_halted && self.breaker_armed {
                    self.trips.push(
                        InvalidTransition {
                            from: OrderState::Idle,
                            trigger: OrderTransition::Reject,
                        },
                    );
                }
            },
        }
    }

    fn journal_note(&mut self, now: UnixNanos, message: String)
        ensures
            final(self)@ == (TrackerModel {
                log: old(self)@.log.record(
                    EventModel::System {
                        timestamp: now,
                        category: "reconciliation"@,
                        message: message@,
                    },
                ),
                ..old(self)@
            }),
    {
        let _ = self.journal.send(
            EngineEvent::SystemEvent(
                SystemEventRecord {
                    timestamp: now,
                    category: "reconciliation".to_owned(),
                    message,
                },
            ),
        );
    }

    /// Compares with the broker and acts on the outcome.
    pub fn reconcile_and_handle(
        &mut self,
        broker_view: &[BrokerPosition],
        trigger: ReconciliationTrigger,
        now: UnixNanos,
    ) -> (r: ReconciliationResult)
        ensures
            r is Consistent <==> forall|s: u32| #[trigger]
                old(self)@.mismatch(broker_view@, s) is None,
            r matches ReconciliationResult::Mismatch(list) ==> list@.len() > 0
                && old(self)@.lists_mismatches(broker_view@, list@),
            final(self)@ == old(self)@.after_reconciliation(r, trigger, now),
    {
        let result = self.reconcile(broker_view);
        self.handle_reconciliation_result(&result, trigger, now);
        result
    }

    /// Hands over the signals for the circuit breaker, oldest first.
    pub fn take_trips(&mut self) -> (r: Vec<InvalidTransition>)
        ensures
            r@ == old(self)@.trips,
            final(self)@ == (TrackerModel { trips: Seq::empty(), ..old(self)@ }),
    {
        let mut taken: Vec<InvalidTransition> = Vec::new();
        taken.append(&mut self.trips);
        assert(taken@ =~= old(self)@.trips);
        taken
    }
}

/// Whatever fills and prices come in, a flat position is listed only where it
/// realized something.
pub proof fn flat_positions_are_pruned(
    model: TrackerModel,
    fill: FillEvent,
    symbol_id: u32,
    price: FixedPrice,
)
    requires
        model.pruned(),
        model.position(symbol_id).extended_by(fill) ==> model.position(symbol_id).quantity
            + fill.fill_size <= u32::MAX,
    ensures
        model.after_fill(fill, symbol_id).pruned(),
        model.revalued(symbol_id, price).pruned(),
{
    let filled = model.after_fill(fill, symbol_id);
    assert forall|s: u32| #[trigger]
        filled.positions.contains_key(s) && filled.positions[s].holds_nothing() implies
        filled.positions[s].realized_pnl != 0 && filled.positions[s].unrealized_pnl == 0 by {
        if s != symbol_id {
            assert(model.positions.contains_key(s));
        }
    }
    let valued = model.revalued(symbol_id, price);
    assert forall|s: u32| #[trigger]
        valued.positions.contains_key(s) && valued.positions[s].holds_nothing() implies
        valued.positions[s].realized_pnl != 0 && valued.positions[s].unrealized_pnl == 0 by {
        assert(model.positions.contains_key(s));
    }
}

/// A reconciliation never touches the positions, and once halted, trading stays
/// halted and the breaker hears nothing more.
pub proof fn reconciliation_corrects_nothing(
    model: TrackerModel,
    result: ReconciliationResult,
    trigger: ReconciliationTrigger,
    now: UnixNanos,
)
    ensures
        model.after_reconciliation(result, trigger, now).positions == model.positions,
        model.halted ==> model.after_reconciliation(result, trigger, now).halted
            && model.after_reconciliation(result, trigger, now).trips == model.trips,
        model.after_reconciliation(result, trigger, now).halted == (model.halted
            || !(result is Consistent)),
{
}

/// The broker's word on a symbol is the last it said: the entry after which the
/// symbol is not named again. A symbol it never names it does not know.
pub proof fn the_last_word_counts(view: Seq<BrokerPosition>, symbol_id: u32, at: int)
    ensures
        broker_at(view, symbol_id) is None <==> forall|i: int|
            0 <= i < view.len() ==> (#[trigger] view[i]).symbol_id != symbol_id,
        0 <= at < view.len() && view[at].symbol_id == symbol_id && (forall|i: int|
            at < i < view.len() ==> (#[trigger] view[i]).symbol_id != symbol_id) ==> broker_at(
            view,
            symbol_id,
        ) == Some(view[at]),
    decreases view.len(),
{
    if view.len() > 0 {
        let rest = view.drop_last();
        the_last_word_counts(rest, symbol_id, at);
        assert(view[view.len() - 1] == view.last());
        assert(forall|i: int| 0 <= i < rest.len() ==> rest[i] == view[i]);
        if view.last().symbol_id != symbol_id {
            assert(broker_at(view, symbol_id) == broker_at(rest, symbol_id));
            if broker_at(view, symbol_id) is None {
                assert forall|i: int| 0 <= i < view.len() implies (#[trigger] view[i]).symbol_id
                    != symbol_id by {
                    if i < rest.len() {
                        assert(rest[i].symbol_id != symbol_id);
                    }
                }
            }
        }
    }
}

/// The engine and the broker disagree on a symbol where only one of them holds
/// something, or where both do and side, quantity or entry price differ. What
/// neither holds is no disagreement, whatever else the two say of it. A
/// disagreement shows what each of them said.
pub proof fn disagreements_in_full(
    symbol_id: u32,
    local: Option<Position>,
    broker: Option<BrokerPosition>,
)
    ensures
        ({
            let found = disagreement(symbol_id, local, broker);
            let ours = local is Some && local->Some_0.quantity > 0 && local->Some_0.side is Some;
            let theirs = broker is Some && broker->Some_0.quantity > 0 && broker->Some_0.side
                is Some;
            let alike = local->Some_0.side == broker->Some_0.side && local->Some_0.quantity
                == broker->Some_0.quantity && local->Some_0.avg_entry_price.quarter_ticks
                == broker->Some_0.avg_entry_price.quarter_ticks;
            &&& found is None <==> (!ours && !theirs) || (ours && theirs && alike)
            &&& found matches Some(m) ==> {
                &&& m.symbol_id == symbol_id
                &&& m.kind == MismatchKind::PhantomLocal <==> ours && !theirs
                &&& m.kind == MismatchKind::MissedFill <==> !ours && theirs
                &&& m.kind == MismatchKind::SideOrQuantity <==> ours && theirs
                &&& m.local is Some <==> local is Some
                &&& m.broker is Some <==> broker is Some
                &&& m.local matches Some(shown) ==> shown.side == local->Some_0.side
                    && shown.quantity == local->Some_0.quantity && shown.avg_entry_price
                    == local->Some_0.avg_entry_price
                &&& m.broker matches Some(shown) ==> shown.side == broker->Some_0.side
                    && shown.quantity == broker->Some_0.quantity && shown.avg_entry_price
                    == broker->Some_0.avg_entry_price
            }
        }),
{
}

/// The tracker compares what it remembers of a symbol with the broker's word on it,
/// and a position it does not remember is one it does not hold.
pub proof fn views_are_compared_symbol_by_symbol(
    model: TrackerModel,
    view: Seq<BrokerPosition>,
    symbol_id: u32,
)
    ensures
        !model.positions.contains_key(symbol_id) ==> model.position(symbol_id).quantity == 0
            && model.position(symbol_id).realized_pnl == 0 && model.known_position(symbol_id)
            is None,
        model.positions.contains_key(symbol_id) ==> model.position(symbol_id)
            == model.positions[symbol_id] && model.known_position(symbol_id) == Some(
            model.positions[symbol_id],
        ),
        model.mismatch(view, symbol_id) is None && model.positions.contains_key(symbol_id)
            && model.positions[symbol_id].quantity > 0 && model.positions[symbol_id].side is Some
            ==> exists|i: int|
            0 <= i < view.len() && (#[trigger] view[i]).symbol_id == symbol_id && view[i].side
                == model.positions[symbol_id].side && view[i].quantity
                == model.positions[symbol_id].quantity && view[i].avg_entry_price
                == model.positions[symbol_id].avg_entry_price,
        !model.positions.contains_key(symbol_id) && (forall|i: int|
            0 <= i < view.len() ==> (#[trigger] view[i]).symbol_id != symbol_id) ==> model.mismatch(
            view,
            symbol_id,
        ) is None,
{
    the_last_word_counts(view, symbol_id, 0);
    lemma_broker_entry(view, symbol_id);
}

proof fn lemma_broker_entry(view: Seq<BrokerPosition>, symbol_id: u32)
    ensures
        broker_at(view, symbol_id) matches Some(entry) ==> exists|i: int|
            0 <= i < view.len() && (#[trigger] view[i]) == entry && entry.symbol_id == symbol_id,
    decreases view.len(),
{
    if view.len() > 0 {
        let rest = view.drop_last();
        lemma_broker_entry(rest, symbol_id);
        if view.last().symbol_id == symbol_id {
            assert(view[view.len() - 1] == view.last());
        } else if broker_at(rest, symbol_id) is Some {
            let i = choose|i: int|
                0 <= i < rest.len() && (#[trigger] rest[i]) == broker_at(rest, symbol_id)->Some_0;
            assert(view[i] == rest[i]);
        }
    }
}

/// A fill moves the holding of its own symbol by its own contracts and no other
/// symbol at all; what it leaves is valued at the last price seen. Prices, halt and
/// journal stay as they were.
pub proof fn fills_move_their_own_symbol(
    model: TrackerModel,
    fill: FillEvent,
    symbol_id: u32,
    other: u32,
)
    requires
        model.position(symbol_id).extended_by(fill) ==> model.position(symbol_id).quantity
            + fill.fill_size <= u32::MAX,
        other != symbol_id,
    ensures
        ({
            let after = model.after_fill(fill, symbol_id);
            let was = crate::types::signed_holding(model.position(symbol_id));
            let is = crate::types::signed_holding(after.position(symbol_id));
            &&& fill.fill_type is Rejected ==> is == was
            &&& !(fill.fill_type is Rejected) && fill.side == Side::Buy ==> is == was
                + fill.fill_size
            &&& !(fill.fill_type is Rejected) && fill.side == Side::Sell ==> is == was
                - fill.fill_size
            &&& after.position(symbol_id).realized_pnl == model.position(symbol_id).after_fill(
                fill,
            ).realized_pnl
            &&& is != 0 ==> after.position(symbol_id).avg_entry_price == model.position(
                symbol_id,
            ).after_fill(fill).avg_entry_price
            &&& is != 0 && model.mids.contains_key(symbol_id) ==> after.position(symbol_id)
                == after.position(symbol_id).valued_at(model.mids[symbol_id])
            &&& after.positions.contains_key(other) == model.positions.contains_key(other)
            &&& after.position(other) == model.position(other)
            &&& after.mids == model.mids
            &&& after.log == model.log
            &&& after.armed == model.armed
            &&& after.halted == model.halted
            &&& after.trips == model.trips
        }),
{
    crate::types::fills_move_the_holding(model.position(symbol_id), fill);
}

/// A price is remembered for its own symbol and moves the open profit of what is
/// held of it; no holding, no booked profit and no other symbol moves.
pub proof fn prices_move_only_the_open_profit(
    model: TrackerModel,
    symbol_id: u32,
    price: FixedPrice,
    other: u32,
)
    requires
        other != symbol_id,
    ensures
        ({
            let after = model.revalued(symbol_id, price);
            let was = model.position(symbol_id);
            let is = after.position(symbol_id);
            &&& after.mids.contains_key(symbol_id) && after.mids[symbol_id] == price
            &&& after.mids.contains_key(other) == model.mids.contains_key(other)
            &&& model.mids.contains_key(other) ==> after.mids[other] == model.mids[other]
            &&& after.positions.dom() == model.positions.dom()
            &&& after.position(other) == model.position(other)
            &&& is.side == was.side
            &&& is.quantity == was.quantity
            &&& is.avg_entry_price == was.avg_entry_price
            &&& is.realized_pnl == was.realized_pnl
            &&& model.positions.contains_key(symbol_id) ==> is == was.valued_at(price)
            &&& after.log == model.log
            &&& after.halted == model.halted
            &&& after.trips == model.trips
        }),
{
    assert(model.revalued(symbol_id, price).positions.dom() =~= model.positions.dom());
}

/// A reconciliation is journaled once, under its time. Only one that failed halts
/// trading, and the breaker hears of the first such alone.
pub proof fn reconciliations_are_journaled(
    model: TrackerModel,
    result: ReconciliationResult,
    trigger: ReconciliationTrigger,
    now: UnixNanos,
)
    ensures
        ({
            let after = model.after_reconciliation(result, trigger, now);
            let n = model.log.offered.len() as int;
            let entry = after.log.offered[n];
            let failed = result is Mismatch;
            &&& after.log.offered.len() == n + 1
            &&& entry is System
            &&& entry->System_timestamp == now
            &&& entry->category == "reconciliation"@
            &&& !failed ==> entry->message == "reconciliation passed ("@ + trigger.name()
                + "); open_positions="@ + dec_nat(model.open_symbols().len())
            &&& after.positions == model.positions
            &&& after.mids == model.mids
            &&& after.halted == (model.halted || failed)
            &&& !(failed && model.armed && !model.halted) ==> after.trips == model.trips
            &&& failed && model.armed && !model.halted ==> {
                &&& after.trips.len() == model.trips.len() + 1
                &&& after.trips.drop_last() == model.trips
                &&& after.trips.last().from == OrderState::Idle
                &&& after.trips.last().trigger == OrderTransition::Reject
            }
        }),
{
    let after = model.after_reconciliation(result, trigger, now);
    if after.trips.len() == model.trips.len() + 1 {
        assert(after.trips.drop_last() =~= model.trips);
    }
}

/// The symbols with an open position are those of which contracts are held.
pub proof fn open_symbols_hold_contracts(model: TrackerModel, symbol_id: u32)
    ensures
        model.open_symbols().contains(symbol_id) <==> model.positions.contains_key(symbol_id)
            && crate::types::signed_holding(model.positions[symbol_id]) != 0,
{
}

/// The names of triggers and disagreements in the journal.
pub proof fn triggers_and_kinds_are_told_apart(trigger: ReconciliationTrigger, kind: MismatchKind)
    ensures
        trigger.name() == "startup"@ <==> trigger == ReconciliationTrigger::Startup,
        trigger.name() == "reconnection"@ <==> trigger == ReconciliationTrigger::Reconnection,
        trigger.name() == "periodic"@ <==> trigger == ReconciliationTrigger::Periodic,
        kind.name() == "PhantomLocal"@ <==> kind == MismatchKind::PhantomLocal,
        kind.name() == "MissedFill"@ <==> kind == MismatchKind::MissedFill,
        kind.name() == "SideOrQuantity"@ <==> kind == MismatchKind::SideOrQuantity,
{
    reveal_strlit("startup");
    reveal_strlit("reconnection");
    reveal_strlit("periodic");
    reveal_strlit("PhantomLocal");
    reveal_strlit("MissedFill");
    reveal_strlit("SideOrQuantity");
    assert("startup"@.len() == 7);
    assert("reconnection"@.len() == 12);
    assert("periodic"@.len() == 8);
    assert("PhantomLocal"@.len() == 12);
    assert("MissedFill"@.len() == 10);
    assert("SideOrQuantity"@.len() == 14);
}

/// The journal text of a failed reconciliation counts its disagreements and gives
/// each a line, in their order.
pub proof fn every_mismatch_has_its_line(list: Seq<PositionMismatch>, next: PositionMismatch)
    ensures
        mismatch_lines(Seq::<PositionMismatch>::empty()).len() == 0,
        mismatch_lines(list.push(next)) == mismatch_lines(list) + mismatch_line(next),
        mismatch_line(next).len() > 0,
{
    assert(list.push(next).drop_last() =~= list);
    reveal_strlit("\n  symbol=");
    assert("\n  symbol="@.len() == 10);
}

/// A list of disagreements names every symbol on which the two views differ, each
/// once, with what the two say of it.
pub proof fn lists_name_every_symbol_once(
    model: TrackerModel,
    view: Seq<BrokerPosition>,
    list: Seq<PositionMismatch>,
    symbol_id: u32,
)
    requires
        model.lists_mismatches(view, list),
    ensures
        model.mismatch(view, symbol_id) is Some <==> exists|i: int|
            0 <= i < list.len() && (#[trigger] list[i]).symbol_id == symbol_id,
        forall|i: int, j: int|
            0 <= i < j < list.len() ==> (#[trigger] list[i]).symbol_id != (
            #[trigger] list[j]).symbol_id,
{
    if model.mismatch(view, symbol_id) is Some {
        let found = model.mismatch(view, symbol_id)->Some_0;
        disagreements_in_full(
            symbol_id,
            model.known_position(symbol_id),
            broker_at(view, symbol_id),
        );
        let i = list.index_of(found);
        assert(list[i].symbol_id == symbol_id);
    }
}

/// A disagreement is told with its symbol and kind, and with side, quantity and price
/// of what each of the two holds; a view that does not know the symbol is flat.
pub proof fn disagreements_are_told_in_full(m: PositionMismatch)
    ensures
        ({
            let ours = match m.local {
                None => "flat"@,
                Some(held) => "side="@ + (match held.side {
                    None => "None"@,
                    Some(Side::Buy) => "Some(Buy)"@,
                    Some(Side::Sell) => "Some(Sell)"@,
                }) + " qty="@ + dec_nat(held.quantity as nat) + " avg="@ + dec_int(
                    held.avg_entry_price.quarter_ticks as int,
                ),
            };
            let theirs = match m.broker {
                None => "flat"@,
                Some(held) => "side="@ + (match held.side {
                    None => "None"@,
                    Some(Side::Buy) => "Some(Buy)"@,
                    Some(Side::Sell) => "Some(Sell)"@,
                }) + " qty="@ + dec_nat(held.quantity as nat) + " avg="@ + dec_int(
                    held.avg_entry_price.quarter_ticks as int,
                ),
            };
            mismatch_line(m) == "\n  symbol="@ + dec_nat(m.symbol_id as nat) + " kind="@
                + m.kind.name() + " local="@ + ours + " broker="@ + theirs
        }),
{
}

} // verus!
