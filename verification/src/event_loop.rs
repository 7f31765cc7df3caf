//! The event loop: one market event per tick, checks on the queue and on the
//! data, and the search for positions that no strategy asked for.
//!
//! The loop reads no clock and drives no breaker itself. A tick is told the time
//! and answers with what the circuit breakers have to hear.
use std::sync::atomic::{AtomicBool, Ordering};
use std::sync::Arc;
use tokio::sync::mpsc::error::TrySendError;
use tokio::sync::mpsc::Sender;
use vstd::prelude::*;
use vstd::string::StringExecFns;

use crate::buffer_monitor::{BufferMonitor, BufferState};
use crate::data_quality::{
    sequence_gap, DataQualityGate, GateReason, GateState, SequenceGapDetector, StaleDataDetector,
};
use crate::order_book::{apply_market_event, book_after};
use crate::order_manager::tracker::PositionTracker;
use crate::persistence::journal::{
    EngineEvent, EventModel, JournalLog, JournalSender, SystemEventRecord,
};
use crate::queue::MarketEventQueue;
use crate::text::{dec_int, dec_nat, push_i64, push_u64};
use crate::types::{FixedPrice, MarketEvent, OrderBook, Position, Side, UnixNanos};

verus! {

/// Silence of the feed is looked for once in so many ticks.
pub const STALE_CHECK_INTERVAL: u64 = 1000;

// ---------------------------------------------------------------------------
// Ticks
// ---------------------------------------------------------------------------

/// How full the market data queue was at a tick.
#[derive(Debug, Clone, Copy, PartialEq, Eq, Structural)]
pub struct BufferOccupancy {
    pub used: usize,
    pub capacity: usize,
    pub timestamp: UnixNanos,
}

/// A fresh judgement of the market data, for the data-quality breaker. Whether
/// the book can be traded is to be read off the book, with this spread limit.
#[derive(Debug, Clone, Copy, PartialEq, Eq, Structural)]
pub struct DataQualityUpdate {
    pub max_spread: FixedPrice,
    pub has_gap: bool,
    pub is_stale: bool,
    pub timestamp: UnixNanos,
}

/// What a tick found. The breaker updates are there only where circuit breakers
/// are attached.
#[derive(Debug, Clone, Copy, PartialEq, Eq, Structural)]
pub struct TickReport {
    pub state: BufferState,
    pub occupancy: Option<BufferOccupancy>,
    /// After a market event.
    pub data_quality: Option<DataQualityUpdate>,
    /// After the periodic search for silence found one.
    pub silence: Option<DataQualityUpdate>,
}

/// The loop as a mathematical value.
#[verifier::ext_equal]
pub struct LoopModel {
    pub queue: Seq<MarketEvent>,
    pub limit: nat,
    pub book: OrderBook,
    pub buffer: BufferState,
    pub stale: StaleDataDetector,
    pub last_seq: Map<u32, u64>,
    pub gate: DataQualityGate,
    pub events_processed: u64,
    pub tick_count: u64,
    /// The spread limit, where circuit breakers are attached.
    pub max_spread: Option<FixedPrice>,
}

impl LoopModel {
    /// Whether the queue can hold anything, and the counters and the next event's
    /// sequence number have room for another tick.
    pub open spec fn can_tick(self) -> bool {
        &&& self.limit > 0
        &&& self.tick_count < u64::MAX
        &&& self.queue.len() > 0 ==> self.events_processed < u64::MAX
        &&& self.queue.len() > 0 && self.last_seq.contains_key(self.queue[0].symbol_id)
            ==> self.last_seq[self.queue[0].symbol_id] < u64::MAX
    }

    /// The gap before the next event.
    pub open spec fn next_gap(self) -> Option<(u64, u64)> {
        if self.queue.len() > 0 {
            sequence_gap(self.last_seq, self.queue[0].symbol_id, self.queue[0].sequence)
        } else {
            None
        }
    }

    /// The loop once the next event, if there is one, was taken in. A gap closes
    /// the data-quality gate; an event without one opens it.
    pub open spec fn after_event(self, now: UnixNanos) -> LoopModel {
        if self.queue.len() == 0 {
            self
        } else {
            let event = self.queue[0];
            LoopModel {
                queue: self.queue.subrange(1, self.queue.len() as int),
                book: book_after(self.book, event),
                events_processed: (self.events_processed + 1) as u64,
                stale: StaleDataDetector { last_tick_nanos: now.nanos, ..self.stale },
                last_seq: self.last_seq.insert(event.symbol_id, event.sequence),
                gate: if self.next_gap() is Some {
                    self.gate.activated(now.nanos)
                } else {
                    DataQualityGate { state: GateState::Open, ..self.gate }
                },
                ..self
            }
        }
    }

    /// How long the feed has been silent, looked for at every thousandth tick.
    pub open spec fn periodic_silence(self, now: UnixNanos, market_open: bool) -> Option<u64> {
        if self.tick_count % STALE_CHECK_INTERVAL == 0 {
            self.stale.silence(now.nanos, market_open)
        } else {
            None
        }
    }

    /// The loop after the periodic search for silence.
    pub open spec fn after_silence_check(self, now: UnixNanos, market_open: bool) -> LoopModel {
        if self.periodic_silence(now, market_open) is Some {
            LoopModel { gate: self.gate.activated(now.nanos), ..self }
        } else {
            self
        }
    }

    /// The loop after the reading of the queue at the start of a tick.
    pub open spec fn after_reading(self) -> LoopModel {
        LoopModel {
            tick_count: (self.tick_count + 1) as u64,
            buffer: self.buffer.next(self.queue.len(), self.limit),
            ..self
        }
    }

    /// The loop after a tick.
    pub open spec fn after_tick(self, now: UnixNanos, market_open: bool) -> LoopModel {
        self.after_reading().after_event(now).after_silence_check(now, market_open)
    }

    /// What a tick reports.
    pub open spec fn tick_report(self, now: UnixNanos, market_open: bool) -> TickReport {
        let taken = self.after_reading().after_event(now);
        TickReport {
            state: self.buffer.next(self.queue.len(), self.limit),
            occupancy: if self.max_spread is Some {
                Some(
                    BufferOccupancy {
                        used: self.queue.len() as usize,
                        capacity: self.limit as usize,
                        timestamp: now,
                    },
                )
            } else {
                None
            },
            data_quality: match self.max_spread {
                Some(max_spread) => if self.queue.len() > 0 {
                    Some(
                        DataQualityUpdate {
                            max_spread,
                            has_gap: self.next_gap() is Some,
                            is_stale: taken.stale.silence(now.nanos, market_open) is Some,
                            timestamp: now,
                        },
                    )
                } else {
                    None
                },
                None => None,
            },
            silence: match self.max_spread {
                Some(max_spread) => if taken.periodic_silence(now, market_open) is Some {
                    Some(
                        DataQualityUpdate {
                            max_spread,
                            has_gap: false,
                            is_stale: true,
                            timestamp: now,
                        },
                    )
                } else {
                    None
                },
                None => None,
            },
        }
    }
}

/// Consumes market events and keeps book, gate and queue level up to date.
pub struct EventLoop {
    queue: MarketEventQueue,
    book: OrderBook,
    monitor: BufferMonitor,
    stale_detector: StaleDataDetector,
    seq_detector: SequenceGapDetector,
    gate: DataQualityGate,
    events_processed: u64,
    tick_count: u64,
    max_spread: Option<FixedPrice>,
    running: Arc<AtomicBool>,
}

impl View for EventLoop {
    type V = LoopModel;

    closed spec fn view(&self) -> LoopModel {
        LoopModel {
            queue: self.queue@,
            limit: self.queue.limit(),
            book: self.book,
            buffer: self.monitor@,
            stale: self.stale_detector,
            last_seq: self.seq_detector@,
            gate: self.gate,
            events_processed: self.events_processed,
            tick_count: self.tick_count,
            max_spread: self.max_spread,
        }
    }
}

/// `Arc::clone`: a second pointer to the same flag. What the flag holds is not
/// stated, for it changes under every holder.
#[verifier::external_body]
fn share_flag(flag: &Arc<AtomicBool>) -> (r: Arc<AtomicBool>)
    ensures
        r == *flag,
{
    flag.clone()
}

/// Stops an event loop from another thread.
pub struct EventLoopHandle {
    running: Arc<AtomicBool>,
}

impl EventLoopHandle {
    /// The flag that the handle sets and reads: which one it is, not what it
    /// holds.
    pub closed spec fn flag(&self) -> Arc<AtomicBool> {
        self.running
    }

    /// Asks the loop to stop after its current tick.
    pub fn stop(&self) {
        self.running.store(false, Ordering::Release);
    }

    /// Lets the loop run.
    pub fn start(&self) {
        self.running.store(true, Ordering::Release);
    }

    /// Whether the loop may go on.
    pub fn is_running(&self) -> bool {
        self.running.load(Ordering::Acquire)
    }
}

impl Clone for EventLoopHandle {
    /// A second handle on the same loop.
    fn clone(&self) -> (r: Self)
        ensures
            r.flag() == self.flag(),
    {
        EventLoopHandle { running: share_flag(&self.running) }
    }
}

impl EventLoop {
    /// The flag that says whether the loop may go on: which one it is, not what
    /// it holds.
    pub closed spec fn flag(&self) -> Arc<AtomicBool> {
        self.running
    }

    /// A loop over a queue, with nothing processed yet. The feed counts as stale
    /// after `stale_threshold_nanos` without an event.
    pub fn new(queue: MarketEventQueue, stale_threshold_nanos: u64) -> (r: Self)
        ensures
            r@ == (LoopModel {
                queue: queue@,
                limit: queue.limit(),
                book: OrderBook::empty_book(),
                buffer: BufferState::Normal,
                stale: StaleDataDetector {
                    last_tick_nanos: 0,
                    threshold_nanos: stale_threshold_nanos,
                },
                last_seq: Map::empty(),
                gate: DataQualityGate { state: GateState::Open, gated_since_nanos: 0 },
                events_processed: 0,
                tick_count: 0,
                max_spread: None,
            }),
    {
        EventLoop {
            queue,
            book: OrderBook::empty(),
            monitor: BufferMonitor::new(),
            stale_detector: StaleDataDetector::new(stale_threshold_nanos),
            seq_detector: SequenceGapDetector::new(),
            gate: DataQualityGate::new(),
            events_processed: 0,
            tick_count: 0,
            max_spread: None,
            running: Arc::new(AtomicBool::new(false)),
        }
    }

    /// Makes every tick report to the circuit breakers.
    pub fn attach_circuit_breakers(&mut self, max_spread: FixedPrice)
        ensures
            final(self)@ == (LoopModel { max_spread: Some(max_spread), ..old(self)@ }),
            final(self).flag() == old(self).flag(),
    {
        self.max_spread = Some(max_spread);
    }

    /// A handle for stopping this loop: it sets and reads the loop's own flag.
    pub fn handle(&self) -> (r: EventLoopHandle)
        ensures
            r.flag() == self.flag(),
    {
        EventLoopHandle { running: share_flag(&self.running) }
    }

    /// Puts a market event on the loop's queue, if it has room.
    pub fn offer(&mut self, event: MarketEvent) -> (r: bool)
        ensures
            r == (old(self)@.queue.len() < old(self)@.limit),
            final(self)@ == (LoopModel {
                queue: if r {
                    old(self)@.queue.push(event)
                } else {
                    old(self)@.queue
                },
                ..old(self)@
            }),
            final(self).flag() == old(self).flag(),
    {
        self.queue.try_push(event)
    }

    /// Whether no market event waits.
    pub fn is_idle(&self) -> (r: bool)
        ensures
            r == (self@.queue.len() == 0),
    {
        self.queue.is_empty()
    }

    /// Whether another tick is possible.
    pub fn can_tick(&self) -> (r: bool)
        ensures
            r == self@.can_tick(),
    {
        if self.queue.capacity() == 0 || self.tick_count == u64::MAX {
            return false;
        }
        match self.queue.front() {
            None => true,
            Some(event) => self.events_processed < u64::MAX
                && match self.seq_detector.last_sequence(event.symbol_id) {
                Some(last) => last < u64::MAX,
                None => true,
            },
        }
    }

    /// One round: reads the queue level, takes one event in, and looks for gaps
    /// and silence in the data.
    pub fn tick(&mut self, now: UnixNanos, market_open: bool) -> (r: TickReport)
        requires
            old(self)@.can_tick(),
        ensures
            r == old(self)@.tick_report(now, market_open),
            final(self)@ == old(self)@.after_tick(now, market_open),
            final(self).flag() == old(self).flag(),
    {
        let ghost start = self@;
        self.tick_count = self.tick_count + 1;
        let used: usize = self.queue.len();
        let capacity: usize = self.queue.capacity();
        let state = self.monitor.update(used, capacity);
        let occupancy = match self.max_spread {
            Some(_) => Some(BufferOccupancy { used, capacity, timestamp: now }),
            None => None,
        };
        let ghost read = self@;
        assert(read == start.after_reading());

        let mut data_quality: Option<DataQualityUpdate> = None;
        if let Some(event) = self.queue.try_pop() {
            apply_market_event(&mut self.book, &event);
            self.events_processed = self.events_processed + 1;
            self.stale_detector.on_tick(now.nanos);
            let gap = self.seq_detector.check_sequence(event.symbol_id, event.sequence);
            if let Some((expected, received)) = gap {
                self.gate.activate(
                    &GateReason::SequenceGap { symbol_id: event.symbol_id, expected, received },
                    now.nanos,
                );
            }
            if !self.gate.is_open() && gap.is_none() {
                if self.stale_detector.check_stale(now.nanos, market_open).is_none() {
                    let _ = self.gate.clear(now.nanos);
                }
            }
            if let Some(max_spread) = self.max_spread {
                data_quality = Some(
                    DataQualityUpdate {
                        max_spread,
                        has_gap: gap.is_some(),
                        is_stale: self.stale_detector.check_stale(
                            now.nanos,
                            market_open,
                        ).is_some(),
                        timestamp: now,
                    },
                );
            }
        }
        assert(self@ == read.after_event(now));

        let mut silence: Option<DataQualityUpdate> = None;
        if self.tick_count % STALE_CHECK_INTERVAL == 0 {
            if let Some(gap_nanos) = self.stale_detector.check_stale(now.nanos, market_open) {
                self.gate.activate(&GateReason::StaleData { gap_nanos }, now.nanos);
                if let Some(max_spread) = self.max_spread {
                    silence = Some(
                        DataQualityUpdate {
                            max_spread,
                            has_gap: false,
                            is_stale: true,
                            timestamp: now,
                        },
                    );
                }
            }
        }
        TickReport { state, occupancy, data_quality, silence }
    }

    pub fn order_book(&self) -> (r: &OrderBook)
        ensures
            *r == self@.book,
    {
        &self.book
    }

    pub fn buffer_state(&self) -> (r: BufferState)
        ensures
            r == self@.buffer,
    {
        self.monitor.state()
    }

    pub fn gate_state(&self) -> (r: GateState)
        ensures
            r == self@.gate.state,
    {
        self.gate.state()
    }

    /// Whether the data is good enough to trade on.
    pub fn is_data_quality_ok(&self) -> (r: bool)
        ensures
            r == (self@.gate.state is Open),
    {
        self.gate.is_open()
    }

    pub fn events_processed(&self) -> (r: u64)
        ensures
            r == self@.events_processed,
    {
        self.events_processed
    }
}

/// While the market is closed, silence closes no gate.
pub proof fn closed_market_is_never_stale(model: LoopModel, now: UnixNanos)
    ensures
        model.after_silence_check(now, false) == model,
        model.after_tick(now, false) == model.after_reading().after_event(now),
{
}

/// A fresh event without a gap opens the data-quality gate, whatever closed it.
pub proof fn fresh_data_opens_the_gate(model: LoopModel, now: UnixNanos)
    requires
        model.queue.len() > 0,
        model.next_gap() is None,
    ensures
        model.after_event(now).gate.state is Open,
{
}

// ---------------------------------------------------------------------------
// Anomalous positions
// ---------------------------------------------------------------------------

/// What the strategies together want to hold.
pub trait ExpectedPositionSource {
    /// The position that the strategies want in a symbol; zero where none does.
    fn expected_position(&self, symbol_id: u32) -> i32;

    /// Whether this source knows of no strategy at all.
    fn is_empty_default(&self) -> (r: bool)
        default_ensures
            !r,
    {
        false
    }
}

/// A source that wants nothing, so that every open position is unexpected.
pub struct EmptyExpectedPositions;

impl ExpectedPositionSource for EmptyExpectedPositions {
    fn expected_position(&self, symbol_id: u32) -> (r: i32)
        ensures
            r == 0,
    {
        0
    }

    fn is_empty_default(&self) -> (r: bool)
        ensures
            r,
    {
        true
    }
}

/// The position as a signed number, clamped to the range of `i32`.
pub open spec fn signed_quantity(p: Position) -> int {
    let quantity = if p.quantity > i32::MAX {
        i32::MAX as int
    } else {
        p.quantity as int
    };
    match p.side {
        Some(side) => side.direction() * quantity,
        None => 0,
    }
}

/// The position as a signed number: long is positive, short negative.
pub fn signed_position(p: &Position) -> (r: i32)
    ensures
        r == signed_quantity(*p),
{
    let quantity: i32 = if p.quantity > 0x7fff_ffff {
        0x7fff_ffff
    } else {
        p.quantity as i32
    };
    match p.side {
        Some(Side::Buy) => quantity,
        Some(Side::Sell) => -quantity,
        None => 0,
    }
}

/// The open positions of the tracker as signed numbers, each symbol once, in no
/// particular order.
pub fn position_snapshot(tracker: &PositionTracker) -> (r: Vec<(u32, i32)>)
    ensures
        forall|i: int|
            0 <= i < r@.len() ==> tracker@.positions.contains_key((#[trigger] r@[i]).0)
                && signed_quantity(tracker@.positions[r@[i].0]) == r@[i].1 && r@[i].1 != 0,
        forall|i: int, j: int|
            0 <= i < j < r@.len() ==> (#[trigger] r@[i]).0 != (#[trigger] r@[j]).0,
        forall|s: u32| #[trigger]
            tracker@.positions.contains_key(s) && signed_quantity(tracker@.positions[s]) != 0
                ==> r@.contains((s, signed_quantity(tracker@.positions[s]) as i32)),
{
    let entries = tracker.iter();
    let ghost symbols = entries@.map_values(|e: (u32, Position)| e.0);
    let mut out: Vec<(u32, i32)> = Vec::new();
    let mut i: usize = 0;
    while i < entries.len()
        invariant
            i <= entries@.len(),
            symbols == entries@.map_values(|e: (u32, Position)| e.0),
            symbols.no_duplicates(),
            symbols.to_set() == tracker@.positions.dom(),
            forall|j: int|
                0 <= j < entries@.len() ==> (#[trigger] entries@[j]).1
                    == tracker@.positions[entries@[j].0],
            forall|k: int|
                0 <= k < out@.len() ==> tracker@.positions.contains_key((#[trigger] out@[k]).0)
                    && signed_quantity(tracker@.positions[out@[k].0]) == out@[k].1 && out@[k].1
                    != 0 && symbols.take(i as int).contains(out@[k].0),
            forall|a: int, b: int|
                0 <= a < b < out@.len() ==> (#[trigger] out@[a]).0 != (#[trigger] out@[b]).0,
            forall|j: int|
                0 <= j < i && signed_quantity((#[trigger] entries@[j]).1) != 0 ==> out@.contains(
                    (entries@[j].0, signed_quantity(entries@[j].1) as i32),
                ),
        decreases entries@.len() - i,
    {
        let (symbol_id, position) = entries[i];
        let ghost before = out@;
        proof {
            assert(symbols[i as int] == symbol_id);
            assert(symbols.to_set().contains(symbol_id));
            assert(!symbols.take(i as int).contains(symbol_id));
            assert(symbols.take(i + 1) =~= symbols.take(i as int).push(symbol_id));
        }
        let signed: i32 = signed_position(&position);
        if signed != 0 {
            out.push((symbol_id, signed));
        }
        proof {
            assert forall|k: int| 0 <= k < out@.len() implies symbols.take(i + 1).contains(
                (#[trigger] out@[k]).0,
            ) by {
                if k < before.len() {
                    assert(out@[k] == before[k]);
                    let at = symbols.take(i as int).index_of(before[k].0);
                    assert(symbols.take(i + 1)[at] == before[k].0);
                } else {
                    assert(symbols.take(i + 1)[i as int] == symbol_id);
                }
            }
            assert forall|j: int| 0 <= j < i + 1 && signed_quantity(
                (#[trigger] entries@[j]).1,
            ) != 0 implies out@.contains(
                (entries@[j].0, signed_quantity(entries@[j].1) as i32),
            ) by {
                if j < i {
                    let wanted = (entries@[j].0, signed_quantity(entries@[j].1) as i32);
                    assert(before.contains(wanted));
                    let at = before.index_of(wanted);
                    assert(out@[at] == wanted);
                } else {
                    assert(out@[before.len() as int] == (symbol_id, signed));
                }
            }
        }
        i += 1;
    }
    proof {
        assert forall|s: u32| #[trigger] tracker@.positions.contains_key(s) && signed_quantity(
            tracker@.positions[s],
        ) != 0 implies out@.contains((s, signed_quantity(tracker@.positions[s]) as i32)) by {
            assert(symbols.to_set().contains(s));
            let at = symbols.index_of(s);
            assert(symbols[at] == s);
            assert(entries@[at].0 == s);
        }
    }
    out
}

/// A held position beside the one that the strategies want.
#[derive(Debug, Clone, Copy, PartialEq, Eq, Structural)]
pub struct PositionCheck {
    pub symbol_id: u32,
    pub current: i32,
    pub expected: i32,
}

/// An order to get rid of a position. The consumer gives it its order number.
#[derive(Debug, Clone, Copy, PartialEq, Eq, Structural)]
pub struct FlattenRequest {
    pub order_id: u64,
    pub symbol_id: u32,
    pub side: Side,
    pub quantity: u32,
    pub decision_id: u64,
    pub timestamp: UnixNanos,
}

/// The request that flattens a signed position.
pub open spec fn flattening(symbol_id: u32, position: i32, now: UnixNanos) -> FlattenRequest {
    FlattenRequest {
        order_id: 0,
        symbol_id,
        side: if position > 0 {
            Side::Sell
        } else {
            Side::Buy
        },
        quantity: if position >= 0 {
            position as u32
        } else {
            (-position) as u32
        },
        decision_id: 0,
        timestamp: now,
    }
}

/// The request that flattens a signed position, unless it is flat already.
pub fn flatten_request(symbol_id: u32, position: i32, now: UnixNanos) -> (r: Option<FlattenRequest>)
    ensures
        r == (if position == 0 {
            None
        } else {
            Some(flattening(symbol_id, position, now))
        }),
{
    if position == 0 {
        return None;
    }
    let magnitude: i64 = if position >= 0 {
        position as i64
    } else {
        -(position as i64)
    };
    Some(
        FlattenRequest {
            order_id: 0,
            symbol_id,
            side: if position > 0 {
                Side::Sell
            } else {
                Side::Buy
            },
            quantity: magnitude as u32,
            decision_id: 0,
            timestamp: now,
        },
    )
}

/// The sending half of a tokio channel.
#[verifier::external_type_specification]
#[verifier::external_body]
#[verifier::reject_recursive_types(T)]
pub struct ExFlattenSender<T>(Sender<T>);

/// The channel that this sending handle belongs to.
pub uninterp spec fn request_channel(tx: Sender<FlattenRequest>) -> int;

/// The requests handed to this sending handle so far, oldest first.
pub uninterp spec fn offered_requests(tx: Sender<FlattenRequest>) -> Seq<FlattenRequest>;

/// Those of the offered requests that the channel took.
pub uninterp spec fn accepted_requests(tx: Sender<FlattenRequest>) -> Seq<FlattenRequest>;

/// How often `try_send` has reported through this handle that nobody receives any
/// more.
pub uninterp spec fn closed_refusals(tx: Sender<FlattenRequest>) -> nat;

/// What became of a request.
#[derive(Debug, Clone, Copy, PartialEq, Eq, Structural)]
pub enum Publication {
    /// There was nothing to send.
    Nothing,
    /// The channel took the request.
    Sent,
    /// The channel was full; the request is lost.
    DroppedFull,
    /// Nobody receives any more; the request is lost.
    DroppedClosed,
}

/// `tokio::sync::mpsc::Sender::try_send`: never waits, and reports whether the
/// handle's channel, which stays the same, took the request, was full, or has lost its receiver. Which of the
/// three comes depends on the receiver and is not stated.
#[verifier::external_body]
fn offer_request(tx: &mut Sender<FlattenRequest>, request: FlattenRequest) -> (r: Publication)
    ensures
        offered_requests(*final(tx)) == offered_requests(*old(tx)).push(request),
        accepted_requests(*final(tx)) == (if r is Sent {
            accepted_requests(*old(tx)).push(request)
        } else {
            accepted_requests(*old(tx))
        }),
        closed_refusals(*final(tx)) == closed_refusals(*old(tx)) + if r is DroppedClosed {
            1nat
        } else {
            0
        },
        !(r is Nothing),
        request_channel(*final(tx)) == request_channel(*old(tx)),
{
    match tx.try_send(request) {
        Ok(()) => Publication::Sent,
        Err(TrySendError::Full(_)) => Publication::DroppedFull,
        Err(TrySendError::Closed(_)) => Publication::DroppedClosed,
    }
}

/// The journal entry of a lost request.
pub open spec fn drop_record(check: PositionCheck, tail: Seq<char>, now: UnixNanos) -> EventModel {
    EventModel::System {
        timestamp: now,
        category: "flatten_request_dropped"@,
        message: "anomaly detected on symbol "@ + dec_nat(check.symbol_id as nat) + " (current="@
            + dec_int(check.current as int) + ", expected="@ + dec_int(check.expected as int)
            + ") but flatten channel "@ + tail + " — request dropped"@,
    }
}

/// Sends flatten requests for unexpected positions and journals those that are
/// lost.
pub struct AnomalyProducer {
    channel: Sender<FlattenRequest>,
    /// Whether anybody may still receive.
    open: bool,
    journal: JournalSender,
}

/// The producer as a mathematical value.
#[verifier::ext_equal]
pub struct ProducerModel {
    /// The channel that requests are handed to.
    pub channel: int,
    /// Whether anybody may still receive.
    pub attached: bool,
    pub log: JournalLog,
}

impl ProducerModel {
    /// The producer once the channel's report on a request was acted on: a lost
    /// request is journaled, and a channel without a receiver is given up.
    pub open spec fn settled(
        self,
        check: PositionCheck,
        report: Publication,
        now: UnixNanos,
    ) -> ProducerModel {
        match report {
            Publication::Nothing | Publication::Sent => self,
            Publication::DroppedFull => ProducerModel {
                log: self.log.record(drop_record(check, "full"@, now)),
                ..self
            },
            Publication::DroppedClosed => ProducerModel {
                attached: false,
                log: self.log.record(drop_record(check, "closed"@, now)),
                ..self
            },
        }
    }
}

impl View for AnomalyProducer {
    type V = ProducerModel;

    closed spec fn view(&self) -> ProducerModel {
        ProducerModel {
            channel: request_channel(self.channel),
            attached: self.open,
            log: self.journal@,
        }
    }
}

impl AnomalyProducer {
    /// The requests handed to the channel.
    pub closed spec fn offered(&self) -> Seq<FlattenRequest> {
        offered_requests(self.channel)
    }

    /// The requests that the channel took.
    pub closed spec fn accepted(&self) -> Seq<FlattenRequest> {
        accepted_requests(self.channel)
    }

    /// How often the channel reported that nobody receives any more.
    pub closed spec fn times_closed(&self) -> nat {
        closed_refusals(self.channel)
    }

    pub fn new(channel: Sender<FlattenRequest>, journal: JournalSender) -> (r: Self)
        ensures
            r@ == (ProducerModel {
                channel: request_channel(channel),
                attached: true,
                log: journal@,
            }),
            r.offered() == offered_requests(channel),
            r.accepted() == accepted_requests(channel),
            r.times_closed() == closed_refusals(channel),
    {
        AnomalyProducer { channel, open: true, journal }
    }

    pub fn is_attached(&self) -> (r: bool)
        ensures
            r == self@.attached,
    {
        self.open
    }

    /// What acting on a verdict does to the producer and its channel. There is
    /// nothing to send if and only if the channel was given up, the verdict is
    /// harmless or the position is flat; in every other case the request was
    /// handed to the channel, and the outcome is what the channel reported of it.
    pub open spec fn published(
        before: AnomalyProducer,
        after: AnomalyProducer,
        check: PositionCheck,
        anomalous: bool,
        now: UnixNanos,
        outcome: Publication,
    ) -> bool {
        let request = flattening(check.symbol_id, check.current, now);
        &&& outcome is Nothing <==> !before@.attached || !anomalous || check.current == 0
        &&& after@ == before@.settled(check, outcome, now)
        &&& after.offered() == (if outcome is Nothing {
            before.offered()
        } else {
            before.offered().push(request)
        })
        &&& after.accepted() == (if outcome is Sent {
            before.accepted().push(request)
        } else {
            before.accepted()
        })
        &&& after.times_closed() == before.times_closed() + if outcome is DroppedClosed {
            1nat
        } else {
            0
        }
    }

    /// Acts on the verdict about one position: an anomalous one is to be
    /// flattened, so its request is handed to the channel, and the channel's
    /// report is acted on.
    pub fn publish(&mut self, check: PositionCheck, anomalous: bool, now: UnixNanos) -> (r:
        Publication)
        ensures
            AnomalyProducer::published(*old(self), *final(self), check, anomalous, now, r),
    {
        if !self.open || !anomalous {
            return Publication::Nothing;
        }
        let request = match flatten_request(check.symbol_id, check.current, now) {
            Some(request) => request,
            None => {
                return Publication::Nothing;
            },
        };
        let report = offer_request(&mut self.channel, request);
        self.settle(check, report, now);
        report
    }

    /// Acts on the channel's report on a request: one that the channel did not
    /// take is journaled, and a channel without a receiver is given up.
    pub fn settle(&mut self, check: PositionCheck, report: Publication, now: UnixNanos)
        ensures
            final(self)@ == old(self)@.settled(check, report, now),
            final(self).offered() == old(self).offered(),
            final(self).accepted() == old(self).accepted(),
            final(self).times_closed() == old(self).times_closed(),
    {
        match report {
            Publication::DroppedFull => {
                self.journal_drop(check, "full", now);
            },
            Publication::DroppedClosed => {
                self.journal_drop(check, "closed", now);
                self.open = false;
            },
            _ => {},
        }
    }

    fn journal_drop(&mut self, check: PositionCheck, tail: &str, now: UnixNanos)
        ensures
            final(self)@ == (ProducerModel {
                log: old(self)@.log.record(drop_record(check, tail@, now)),
                ..old(self)@
            }),
            final(self).channel == old(self).channel,
    {
        let mut message = "anomaly detected on symbol ".to_owned();
        push_u64(&mut message, check.symbol_id as u64);
        message.append(" (current=");
        push_i64(&mut message, check.current as i64);
        message.append(", expected=");
        push_i64(&mut message, check.expected as i64);
        message.append(") but flatten channel ");
        message.append(tail);
        message.append(" — request dropped");
        let _ = self.journal.send(
            EngineEvent::SystemEvent(
                SystemEventRecord {
                    timestamp: now,
                    category: "flatten_request_dropped".to_owned(),
                    message,
                },
            ),
        );
    }
}

/// Whether `checks` lists the open positions of a tracker, each once and beside
/// the position that the source gave as wanted.
pub open spec fn lists_open_positions<S: ExpectedPositionSource>(
    checks: Seq<PositionCheck>,
    positions: Map<u32, Position>,
    source: &S,
) -> bool {
    &&& forall|i: int|
        0 <= i < checks.len() ==> positions.contains_key((#[trigger] checks[i]).symbol_id)
            && checks[i].current == signed_quantity(positions[checks[i].symbol_id])
            && checks[i].current != 0 && call_ensures(
            S::expected_position,
            (source, checks[i].symbol_id),
            checks[i].expected,
        )
    &&& forall|i: int, j: int|
        0 <= i < j < checks.len() ==> (#[trigger] checks[i]).symbol_id != (
        #[trigger] checks[j]).symbol_id
    &&& forall|s: u32| #[trigger]
        positions.contains_key(s) && signed_quantity(positions[s]) != 0 ==> exists|i: int|
            0 <= i < checks.len() && (#[trigger] checks[i]).symbol_id == s
}

/// One pass over the open positions: each is put to the circuit breakers, and
/// their verdict is acted on before the next one is put to them.
pub struct AnomalyRound {
    checks: Vec<PositionCheck>,
    next: usize,
    now: UnixNanos,
}

/// The round as a mathematical value.
#[verifier::ext_equal]
pub struct RoundModel {
    /// The positions that are still to be put to the breakers.
    pub open: Seq<PositionCheck>,
    pub now: UnixNanos,
}

impl View for AnomalyRound {
    type V = RoundModel;

    closed spec fn view(&self) -> RoundModel {
        RoundModel { open: self.checks@.skip(self.next as int), now: self.now }
    }
}

impl AnomalyRound {
    #[verifier::type_invariant]
    spec fn in_bounds(self) -> bool {
        self.next <= self.checks@.len()
    }

    /// Starts a pass. Without a channel to send on there is nothing to ask.
    pub fn begin<S: ExpectedPositionSource>(
        tracker: &PositionTracker,
        source: &S,
        producer: &AnomalyProducer,
        now: UnixNanos,
    ) -> (r: Self)
        ensures
            r@.now == now,
            !producer@.attached ==> r@.open == Seq::<PositionCheck>::empty(),
            producer@.attached ==> lists_open_positions(r@.open, tracker@.positions, source),
    {
        let mut checks: Vec<PositionCheck> = Vec::new();
        if producer.is_attached() {
            let snapshot = position_snapshot(tracker);
            let mut i: usize = 0;
            while i < snapshot.len()
                invariant
                    i <= snapshot@.len(),
                    checks@.len() == i,
                    forall|k: int|
                        0 <= k < i ==> (#[trigger] checks@[k]).symbol_id == snapshot@[k].0
                            && checks@[k].current == snapshot@[k].1 && call_ensures(
                            S::expected_position,
                            (source, checks@[k].symbol_id),
                            checks@[k].expected,
                        ),
                decreases snapshot@.len() - i,
            {
                let (symbol_id, current) = snapshot[i];
                let expected: i32 = source.expected_position(symbol_id);
                checks.push(PositionCheck { symbol_id, current, expected });
                i += 1;
            }
            proof {
                let positions = tracker@.positions;
                assert forall|s: u32| #[trigger]
                    positions.contains_key(s) && signed_quantity(positions[s]) != 0 implies exists|
                    i: int,
                | 0 <= i < checks@.len() && (#[trigger] checks@[i]).symbol_id == s by {
                    let entry = (s, signed_quantity(positions[s]) as i32);
                    let at = snapshot@.index_of(entry);
                    assert(snapshot@[at] == entry);
                    assert(checks@[at].symbol_id == s);
                }
            }
        }
        assert(checks@.skip(0) =~= checks@);
        AnomalyRound { checks, next: 0, now }
    }

    /// The position to put to the breakers next.
    pub fn question(&self) -> (r: Option<PositionCheck>)
        ensures
            r == (if self@.open.len() == 0 {
                None
            } else {
                Some(self@.open[0])
            }),
    {
        proof {
            use_type_invariant(self);
        }
        if self.next < self.checks.len() {
            Some(self.checks[self.next])
        } else {
            None
        }
    }

    /// Acts on the breakers' verdict about that position. Once nobody receives
    /// any more, the rest of the pass is given up.
    pub fn answer(&mut self, anomalous: bool, producer: &mut AnomalyProducer) -> (r: Publication)
        requires
            old(self)@.open.len() > 0,
        ensures
            AnomalyProducer::published(
                *old(producer),
                *final(producer),
                old(self)@.open[0],
                anomalous,
                old(self)@.now,
                r,
            ),
            final(self)@ == (RoundModel {
                open: if r is DroppedClosed {
                    Seq::empty()
                } else {
                    old(self)@.open.drop_first()
                },
                ..old(self)@
            }),
    {
        proof {
            use_type_invariant(&*self);
        }
        let ghost open = self@.open;
        let next: usize = self.next;
        assert(next < self.checks.len());
        let outcome = producer.publish(self.checks[next], anomalous, self.now);
        let resume: usize = match outcome {
            Publication::DroppedClosed => self.checks.len(),
            _ => next + 1,
        };
        self.next = resume;
        proof {
            if outcome is DroppedClosed {
                assert(self@.open =~= Seq::empty());
            } else {
                assert(self@.open =~= open.drop_first());
            }
        }
        outcome
    }
}

/// A full channel costs the request and nothing else: it is journaled, what the
/// channel holds is as it was, and the producer stays attached.
pub proof fn full_channel_only_journals(
    before: AnomalyProducer,
    after: AnomalyProducer,
    check: PositionCheck,
    anomalous: bool,
    now: UnixNanos,
)
    requires
        AnomalyProducer::published(
            before,
            after,
            check,
            anomalous,
            now,
            Publication::DroppedFull,
        ),
    ensures
        after.accepted() == before.accepted(),
        after.times_closed() == before.times_closed(),
        after@.attached,
        after@.log == before@.log.record(drop_record(check, "full"@, now)),
{
}

/// Whether one verdict of several was acted on.
pub open spec fn step_acted_on(
    states: Seq<AnomalyProducer>,
    checks: Seq<PositionCheck>,
    verdicts: Seq<bool>,
    outcomes: Seq<Publication>,
    now: UnixNanos,
    i: int,
) -> bool {
    AnomalyProducer::published(
        states[i],
        states[i + 1],
        checks[i],
        verdicts[i],
        now,
        outcomes[i],
    )
}

/// Whether the verdicts were acted on one after the other, which took the producer
/// from each state to the next.
pub open spec fn acted_on(
    states: Seq<AnomalyProducer>,
    checks: Seq<PositionCheck>,
    verdicts: Seq<bool>,
    outcomes: Seq<Publication>,
    now: UnixNanos,
) -> bool {
    &&& states.len() == checks.len() + 1
    &&& verdicts.len() == checks.len()
    &&& outcomes.len() == checks.len()
    &&& forall|i: int|
        0 <= i < checks.len() ==> #[trigger] step_acted_on(
            states,
            checks,
            verdicts,
            outcomes,
            now,
            i,
        )
}

proof fn lemma_fewer_acted_on(
    states: Seq<AnomalyProducer>,
    checks: Seq<PositionCheck>,
    verdicts: Seq<bool>,
    outcomes: Seq<Publication>,
    now: UnixNanos,
)
    requires
        acted_on(states, checks, verdicts, outcomes, now),
        checks.len() > 0,
    ensures
        acted_on(
            states.drop_last(),
            checks.drop_last(),
            verdicts.drop_last(),
            outcomes.drop_last(),
            now,
        ),
{
    assert forall|i: int| 0 <= i < checks.len() - 1 implies #[trigger] step_acted_on(
        states.drop_last(),
        checks.drop_last(),
        verdicts.drop_last(),
        outcomes.drop_last(),
        now,
        i,
    ) by {
        assert(step_acted_on(states, checks, verdicts, outcomes, now, i));
    }
}

/// The requests that the verdicts call for, in order.
pub open spec fn requests_due(
    checks: Seq<PositionCheck>,
    verdicts: Seq<bool>,
    now: UnixNanos,
) -> Seq<FlattenRequest>
    decreases checks.len(),
{
    if checks.len() == 0 {
        Seq::empty()
    } else {
        let earlier = requests_due(checks.drop_last(), verdicts.drop_last(), now);
        if verdicts.last() && checks.last().current != 0 {
            earlier.push(flattening(checks.last().symbol_id, checks.last().current, now))
        } else {
            earlier
        }
    }
}

/// As long as somebody may receive, every anomalous position leads to its request:
/// the channel is handed exactly those, in order, and takes all of them unless it
/// is full.
pub proof fn anomalies_are_handed_over(
    states: Seq<AnomalyProducer>,
    checks: Seq<PositionCheck>,
    verdicts: Seq<bool>,
    outcomes: Seq<Publication>,
    now: UnixNanos,
)
    requires
        acted_on(states, checks, verdicts, outcomes, now),
        states[0]@.attached,
        forall|i: int| 0 <= i < outcomes.len() ==> !((#[trigger] outcomes[i]) is DroppedClosed),
    ensures
        states.last()@.attached,
        states.last().offered() == states[0].offered() + requests_due(checks, verdicts, now),
        (forall|i: int| 0 <= i < outcomes.len() ==> !((#[trigger] outcomes[i]) is DroppedFull))
            ==> states.last().accepted() == states[0].accepted() + requests_due(
            checks,
            verdicts,
            now,
        ) && states.last()@ == states[0]@,
    decreases checks.len(),
{
    if checks.len() == 0 {
        assert(states.last() == states[0]);
        assert(states[0].offered() + Seq::<FlattenRequest>::empty() =~= states[0].offered());
        assert(states[0].accepted() + Seq::<FlattenRequest>::empty() =~= states[0].accepted());
    } else {
        let n = checks.len() as int;
        let fewer = outcomes.drop_last();
        lemma_fewer_acted_on(states, checks, verdicts, outcomes, now);
        assert forall|i: int| 0 <= i < fewer.len() implies !((#[trigger] fewer[i])
            is DroppedClosed) by {
            assert(fewer[i] == outcomes[i]);
        }
        anomalies_are_handed_over(
            states.drop_last(),
            checks.drop_last(),
            verdicts.drop_last(),
            fewer,
            now,
        );
        assert(step_acted_on(states, checks, verdicts, outcomes, now, n - 1));
        assert(!(outcomes[n - 1] is DroppedClosed));
        assert(states.drop_last().last() == states[n - 1]);
        assert(states.drop_last()[0] == states[0]);
        let due = requests_due(checks.drop_last(), verdicts.drop_last(), now);
        let request = flattening(checks.last().symbol_id, checks.last().current, now);
        assert((states[0].offered() + due).push(request) =~= states[0].offered() + due.push(
            request,
        ));
        assert((states[0].accepted() + due).push(request) =~= states[0].accepted() + due.push(
            request,
        ));
        if forall|i: int| 0 <= i < outcomes.len() ==> !((#[trigger] outcomes[i]) is DroppedFull) {
            assert forall|i: int| 0 <= i < fewer.len() implies !((#[trigger] fewer[i])
                is DroppedFull) by {
                assert(fewer[i] == outcomes[i]);
            }
            assert(!(outcomes[n - 1] is DroppedFull));
        }
    }
}

/// A channel without a receiver is journaled once: whatever verdicts come later,
/// nothing more is handed to it or journaled.
pub proof fn closed_channel_falls_silent(
    states: Seq<AnomalyProducer>,
    checks: Seq<PositionCheck>,
    verdicts: Seq<bool>,
    outcomes: Seq<Publication>,
    now: UnixNanos,
)
    requires
        acted_on(states, checks, verdicts, outcomes, now),
        checks.len() > 0,
        outcomes[0] is DroppedClosed,
    ensures
        states[1]@.log == states[0]@.log.record(drop_record(checks[0], "closed"@, now)),
        states.last()@ == states[1]@,
        states.last().offered() == states[0].offered().push(
            flattening(checks[0].symbol_id, checks[0].current, now),
        ),
        states.last().accepted() == states[0].accepted(),
        states.last().times_closed() == states[0].times_closed() + 1,
        forall|i: int| 1 <= i < outcomes.len() ==> (#[trigger] outcomes[i]) is Nothing,
    decreases checks.len(),
{
    assert(step_acted_on(states, checks, verdicts, outcomes, now, 0));
    if checks.len() > 1 {
        let n = checks.len() as int;
        lemma_fewer_acted_on(states, checks, verdicts, outcomes, now);
        closed_channel_falls_silent(
            states.drop_last(),
            checks.drop_last(),
            verdicts.drop_last(),
            outcomes.drop_last(),
            now,
        );
        assert(step_acted_on(states, checks, verdicts, outcomes, now, n - 1));
        assert(states.drop_last().last() == states[n - 1]);
        assert forall|i: int| 1 <= i < outcomes.len() implies (#[trigger] outcomes[i])
            is Nothing by {
            if i < n - 1 {
                assert(outcomes.drop_last()[i] == outcomes[i]);
            }
        }
    }
}

/// A tick takes the oldest event off the queue and no other, brings it into the
/// book, and counts it; a tick on an empty queue takes none. Every tick is counted.
pub proof fn ticks_take_the_oldest_event(model: LoopModel, now: UnixNanos, market_open: bool)
    requires
        model.can_tick(),
    ensures
        ({
            let after = model.after_tick(now, market_open);
            let event = model.queue[0];
            let some = model.queue.len() > 0;
            &&& after.tick_count == model.tick_count + 1
            &&& after.limit == model.limit
            &&& after.max_spread == model.max_spread
            &&& after.stale.threshold_nanos == model.stale.threshold_nanos
            &&& !some ==> after.queue == model.queue && after.book == model.book
                && after.events_processed == model.events_processed && after.last_seq
                == model.last_seq && after.stale == model.stale
            &&& some ==> {
                &&& seq![event] + after.queue == model.queue
                &&& after.events_processed == model.events_processed + 1
                &&& after.last_seq.contains_key(event.symbol_id)
                &&& after.last_seq[event.symbol_id] == event.sequence
                &&& after.last_seq.remove(event.symbol_id) == model.last_seq.remove(event.symbol_id)
                &&& after.stale.last_tick_nanos == now.nanos
                &&& after.book == book_after(model.book, event)
            }
            &&& after.buffer == model.buffer.next(model.queue.len(), model.limit)
        }),
{
    if model.queue.len() > 0 {
        let after = model.after_tick(now, market_open);
        assert(seq![model.queue[0]] + after.queue =~= model.queue);
        assert(after.last_seq.remove(model.queue[0].symbol_id) =~= model.last_seq.remove(
            model.queue[0].symbol_id,
        ));
    }
}

/// The data-quality gate closes on an event with a gap before it and opens on one
/// without. Without an event it only closes, and that at every thousandth tick that
/// finds the feed silent.
pub proof fn the_data_quality_gate_follows_the_feed(
    model: LoopModel,
    now: UnixNanos,
    market_open: bool,
)
    requires
        model.can_tick(),
    ensures
        ({
            let after = model.after_tick(now, market_open);
            let event = model.queue[0];
            let some = model.queue.len() > 0;
            let gap = some && model.last_seq.contains_key(event.symbol_id) && event.sequence
                > model.last_seq[event.symbol_id] + 1;
            let silent = market_open && model.stale.last_tick_nanos > 0 && now.nanos
                > model.stale.last_tick_nanos + model.stale.threshold_nanos;
            let looks = (model.tick_count + 1) % 1000 == 0;
            &&& gap ==> after.gate.state == GateState::Gated
            &&& some && !gap ==> after.gate.state == GateState::Open
            &&& !some && looks && silent ==> after.gate.state == GateState::Gated
            &&& !some && !(looks && silent) ==> after.gate == model.gate
            &&& after.gate.state == GateState::Gated && model.gate.state == GateState::Open
                ==> after.gate.gated_since_nanos == now.nanos
            &&& after.gate.state == GateState::Gated && model.gate.state == GateState::Gated
                ==> after.gate.gated_since_nanos == model.gate.gated_since_nanos
        }),
{
}

/// A tick reports how full the queue was when it began. Only where breakers are
/// attached does it say so to them, and what it found of the data: a gap before the
/// event it took, or a silence.
pub proof fn ticks_report_what_they_found(model: LoopModel, now: UnixNanos, market_open: bool)
    requires
        model.can_tick(),
        model.queue.len() <= usize::MAX,
        model.limit <= usize::MAX,
    ensures
        ({
            let report = model.tick_report(now, market_open);
            let event = model.queue[0];
            let some = model.queue.len() > 0;
            let attached = model.max_spread is Some;
            let gap = some && model.last_seq.contains_key(event.symbol_id) && event.sequence
                > model.last_seq[event.symbol_id] + 1;
            let silent = market_open && model.stale.last_tick_nanos > 0 && now.nanos
                > model.stale.last_tick_nanos + model.stale.threshold_nanos;
            let looks = (model.tick_count + 1) % 1000 == 0;
            &&& report.state == model.after_tick(now, market_open).buffer
            &&& report.occupancy is Some <==> attached
            &&& report.occupancy matches Some(told) ==> told.used == model.queue.len()
                && told.capacity == model.limit && told.timestamp == now
            &&& report.data_quality is Some <==> attached && some
            &&& report.data_quality matches Some(told) ==> told.has_gap == gap && !told.is_stale
                && told.max_spread == model.max_spread->Some_0 && told.timestamp == now
            &&& report.silence is Some <==> attached && !some && looks && silent
            &&& report.silence matches Some(told) ==> !told.has_gap && told.is_stale
                && told.max_spread == model.max_spread->Some_0 && told.timestamp == now
        }),
{
}

/// What is held counts up where it was bought and down where it was sold, as far as
/// the number reaches.
pub proof fn held_contracts_are_signed(p: Position)
    ensures
        p.side is None ==> signed_quantity(p) == 0,
        p.quantity <= i32::MAX && p.side == Some(Side::Buy) ==> signed_quantity(p) == p.quantity,
        p.quantity <= i32::MAX && p.side == Some(Side::Sell) ==> signed_quantity(p) == -p.quantity,
        p.quantity > i32::MAX && p.side == Some(Side::Buy) ==> signed_quantity(p) == i32::MAX,
        p.quantity > i32::MAX && p.side == Some(Side::Sell) ==> signed_quantity(p) == -i32::MAX,
{
}

/// Flattening a position leaves nothing of it: what is to be bought counts up, what
/// is to be sold counts down, and together with what is held that is nothing.
pub proof fn flattening_leaves_nothing(symbol_id: u32, position: i32, now: UnixNanos)
    requires
        position != 0,
    ensures
        ({
            let request = flattening(symbol_id, position, now);
            &&& request.side == Side::Buy ==> position + request.quantity == 0
            &&& request.side == Side::Sell ==> position - request.quantity == 0
            &&& request.symbol_id == symbol_id
            &&& request.timestamp == now
            &&& request.order_id == 0
            &&& request.decision_id == 0
        }),
{
}

/// A request that found no room is journaled and the channel kept; one that found
/// the channel closed is journaled and the channel given up. A request that went out
/// leaves no entry.
pub proof fn lost_requests_are_journaled(
    producer: ProducerModel,
    check: PositionCheck,
    report: Publication,
    now: UnixNanos,
)
    ensures
        ({
            let after = producer.settled(check, report, now);
            let n = producer.log.offered.len() as int;
            let lost = report is DroppedFull || report is DroppedClosed;
            let entry = after.log.offered[n];
            &&& !lost ==> after == producer
            &&& after.attached == (producer.attached && !(report is DroppedClosed))
            &&& after.channel == producer.channel
            &&& lost ==> after.log.offered.len() == n + 1
            &&& lost ==> entry is System && entry->System_timestamp == now && entry->category
                == "flatten_request_dropped"@
            &&& lost ==> entry->message == "anomaly detected on symbol "@ + dec_nat(
                check.symbol_id as nat,
            ) + " (current="@ + dec_int(check.current as int) + ", expected="@ + dec_int(
                check.expected as int,
            ) + ") but flatten channel "@ + (if report is DroppedFull {
                "full"@
            } else {
                "closed"@
            }) + " — request dropped"@
        }),
{
}

/// A round looks at every symbol of which something is held, each once, with what is
/// held of it, and at no other.
pub proof fn rounds_look_at_every_holding<S: ExpectedPositionSource>(
    checks: Seq<PositionCheck>,
    positions: Map<u32, Position>,
    source: &S,
    symbol_id: u32,
)
    requires
        lists_open_positions(checks, positions, source),
    ensures
        (exists|i: int| 0 <= i < checks.len() && (#[trigger] checks[i]).symbol_id == symbol_id)
            <==> positions.contains_key(symbol_id) && positions[symbol_id].quantity > 0
            && positions[symbol_id].side is Some,
        forall|i: int, j: int|
            0 <= i < j < checks.len() ==> (#[trigger] checks[i]).symbol_id != (
            #[trigger] checks[j]).symbol_id,
        forall|i: int|
            0 <= i < checks.len() && positions[(#[trigger] checks[i]).symbol_id].quantity
                <= i32::MAX ==> checks[i].current == (match positions[checks[i].symbol_id].side {
                Some(Side::Buy) => positions[checks[i].symbol_id].quantity as int,
                Some(Side::Sell) => -positions[checks[i].symbol_id].quantity,
                None => 0,
            }),
{
    if positions.contains_key(symbol_id) {
        held_contracts_are_signed(positions[symbol_id]);
        let p = positions[symbol_id];
        assert(p.quantity > 0 && p.side is Some ==> signed_quantity(p) != 0);
        assert(p.quantity == 0 ==> signed_quantity(p) == 0);
    }
    assert forall|i: int|
        0 <= i < checks.len() && positions[(#[trigger] checks[i]).symbol_id].quantity
            <= i32::MAX implies checks[i].current == (match positions[checks[i].symbol_id].side {
        Some(Side::Buy) => positions[checks[i].symbol_id].quantity as int,
        Some(Side::Sell) => -positions[checks[i].symbol_id].quantity,
        None => 0,
    }) by {
        held_contracts_are_signed(positions[checks[i].symbol_id]);
    }
}

/// A loop whose queue can hold something can tick until its counters are full; only
/// the next event, if there is one, can hinder it besides: by being one more than can
/// be counted, or by following the last sequence number of all.
pub proof fn loops_tick_until_their_counters_are_full(model: LoopModel)
    ensures
        model.queue.len() == 0 ==> (model.can_tick() <==> model.limit > 0 && model.tick_count
            < u64::MAX),
        model.queue.len() > 0 ==> (model.can_tick() <==> model.limit > 0 && model.tick_count
            < u64::MAX && model.events_processed < u64::MAX && !(model.last_seq.contains_key(
            model.queue[0].symbol_id,
        ) && model.last_seq[model.queue[0].symbol_id] == u64::MAX)),
        model.queue.len() == 0 ==> model.next_gap() is None,
{
}

} // verus!
