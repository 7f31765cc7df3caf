//! The event journal: records, the channel to its writer, batching and the
//! column values of every table.
//!
//! Producers hand events to a bounded channel without ever waiting. The writer
//! drains the channel in batches of up to [`BATCH_SIZE`] events or
//! [`BATCH_INTERVAL_NANOS`] and writes each batch in one transaction.
use crossbeam_channel::{Receiver, Sender, TryRecvError, TrySendError};
use vstd::prelude::*;
use vstd::string::StringExecFns;

use crate::arith::{signed_reading, to_signed};
use crate::text::str_eq;
use crate::types::{FixedPrice, Side, TradeSource, UnixNanos};

verus! {

/// Capacity of the channel to the journal writer.
pub const JOURNAL_CHANNEL_CAPACITY: usize = 8192;

/// A batch of this many events is written at once.
pub const BATCH_SIZE: usize = 64;

/// Longest time that a partial batch waits.
pub const BATCH_INTERVAL_NANOS: u64 = 100_000_000;

/// Time between two passive checkpoints.
pub const CHECKPOINT_INTERVAL_NANOS: u64 = 60_000_000_000;

// ---------------------------------------------------------------------------
// Records
// ---------------------------------------------------------------------------

/// A row of `trade_events` before it is written.
#[derive(Debug, Clone)]
pub struct TradeEventRecord {
    pub timestamp: UnixNanos,
    /// The decision that led to the trade.
    pub decision_id: Option<u64>,
    pub order_id: Option<u64>,
    pub symbol_id: u32,
    pub side: Side,
    pub price: FixedPrice,
    pub size: u32,
    /// `submit`, `fill`, `partial_fill`, `cancel` and the like.
    pub kind: String,
    pub source: TradeSource,
}

/// A row of `order_states` before it is written.
#[derive(Debug, Clone)]
pub struct OrderStateChangeRecord {
    pub timestamp: UnixNanos,
    pub order_id: u64,
    pub decision_id: Option<u64>,
    pub from_state: String,
    pub to_state: String,
    pub source: TradeSource,
}

/// A row of `circuit_breaker_events` before it is written.
#[derive(Debug, Clone)]
pub struct CircuitBreakerEventRecord {
    pub timestamp: UnixNanos,
    pub breaker_type: String,
    pub triggered: bool,
    pub reason: String,
}

/// A row of `regime_transitions` before it is written.
#[derive(Debug, Clone)]
pub struct RegimeTransitionRecord {
    pub timestamp: UnixNanos,
    pub from_regime: String,
    pub to_regime: String,
}

/// A row of `system_events` before it is written.
#[derive(Debug, Clone)]
pub struct SystemEventRecord {
    pub timestamp: UnixNanos,
    pub category: String,
    pub message: String,
}

/// A journal entry; the variant names the table.
#[derive(Debug, Clone)]
pub enum EngineEvent {
    TradeEvent(TradeEventRecord),
    OrderStateChange(OrderStateChangeRecord),
    CircuitBreakerEvent(CircuitBreakerEventRecord),
    RegimeTransition(RegimeTransitionRecord),
    SystemEvent(SystemEventRecord),
}

/// A journal entry as a mathematical value: strings are their characters.
pub enum EventModel {
    Trade {
        timestamp: UnixNanos,
        decision_id: Option<u64>,
        order: Option<u64>,
        symbol_id: u32,
        side: Side,
        price: FixedPrice,
        size: u32,
        kind: Seq<char>,
        source: TradeSource,
    },
    OrderState {
        timestamp: UnixNanos,
        order_id: u64,
        decision_id: Option<u64>,
        from_state: Seq<char>,
        to_state: Seq<char>,
        source: TradeSource,
    },
    Breaker { timestamp: UnixNanos, breaker_type: Seq<char>, triggered: bool, reason: Seq<char> },
    Regime { timestamp: UnixNanos, from_regime: Seq<char>, to_regime: Seq<char> },
    System { timestamp: UnixNanos, category: Seq<char>, message: Seq<char> },
}

impl EventModel {
    /// The entry as it stands after the sender's source tag was put on it. Only
    /// trades and order state changes carry a source.
    pub open spec fn stamped(self, source: Option<TradeSource>) -> EventModel {
        match source {
            None => self,
            Some(tag) => match self {
                EventModel::Trade {
                    timestamp,
                    decision_id,
                    order,
                    symbol_id,
                    side,
                    price,
                    size,
                    kind,
                    source: _,
                } => EventModel::Trade {
                    timestamp,
                    decision_id,
                    order,
                    symbol_id,
                    side,
                    price,
                    size,
                    kind,
                    source: tag,
                },
                EventModel::OrderState {
                    timestamp,
                    order_id,
                    decision_id,
                    from_state,
                    to_state,
                    source: _,
                } => EventModel::OrderState {
                    timestamp,
                    order_id,
                    decision_id,
                    from_state,
                    to_state,
                    source: tag,
                },
                _ => self,
            },
        }
    }
}

impl EngineEvent {
    pub open spec fn model(&self) -> EventModel {
        match self {
            EngineEvent::TradeEvent(r) => EventModel::Trade {
                timestamp: r.timestamp,
                decision_id: r.decision_id,
                order: r.order_id,
                symbol_id: r.symbol_id,
                side: r.side,
                price: r.price,
                size: r.size,
                kind: r.kind@,
                source: r.source,
            },
            EngineEvent::OrderStateChange(r) => EventModel::OrderState {
                timestamp: r.timestamp,
                order_id: r.order_id,
                decision_id: r.decision_id,
                from_state: r.from_state@,
                to_state: r.to_state@,
                source: r.source,
            },
            EngineEvent::CircuitBreakerEvent(r) => EventModel::Breaker {
                timestamp: r.timestamp,
                breaker_type: r.breaker_type@,
                triggered: r.triggered,
                reason: r.reason@,
            },
            EngineEvent::RegimeTransition(r) => EventModel::Regime {
                timestamp: r.timestamp,
                from_regime: r.from_regime@,
                to_regime: r.to_regime@,
            },
            EngineEvent::SystemEvent(r) => EventModel::System {
                timestamp: r.timestamp,
                category: r.category@,
                message: r.message@,
            },
        }
    }

    /// When the event happened.
    pub fn timestamp(&self) -> (r: UnixNanos)
        ensures
            r == match self.model() {
                EventModel::Trade { timestamp, .. } => timestamp,
                EventModel::OrderState { timestamp, .. } => timestamp,
                EventModel::Breaker { timestamp, .. } => timestamp,
                EventModel::Regime { timestamp, .. } => timestamp,
                EventModel::System { timestamp, .. } => timestamp,
            },
    {
        match self {
            EngineEvent::TradeEvent(r) => r.timestamp,
            EngineEvent::OrderStateChange(r) => r.timestamp,
            EngineEvent::CircuitBreakerEvent(r) => r.timestamp,
            EngineEvent::RegimeTransition(r) => r.timestamp,
            EngineEvent::SystemEvent(r) => r.timestamp,
        }
    }

    /// The decision behind the event, where the entry names one.
    pub fn decision_id(&self) -> (r: Option<u64>)
        ensures
            r == match self.model() {
                EventModel::Trade { decision_id, .. } => decision_id,
                EventModel::OrderState { decision_id, .. } => decision_id,
                _ => None,
            },
    {
        match self {
            EngineEvent::TradeEvent(r) => r.decision_id,
            EngineEvent::OrderStateChange(r) => r.decision_id,
            _ => None,
        }
    }
}

/// Puts `source` on a trade or an order state change; leaves other entries alone.
pub fn apply_source_override(event: &mut EngineEvent, source: TradeSource)
    ensures
        final(event).model() == old(event).model().stamped(Some(source)),
{
    match event {
        EngineEvent::TradeEvent(r) => {
            r.source = source;
        },
        EngineEvent::OrderStateChange(r) => {
            r.source = source;
        },
        _ => {},
    }
}

// ---------------------------------------------------------------------------
// Channel
// ---------------------------------------------------------------------------

/// The sending half of a crossbeam channel.
#[verifier::external_type_specification]
#[verifier::external_body]
#[verifier::reject_recursive_types(T)]
pub struct ExSender<T>(Sender<T>);

/// The receiving half of a crossbeam channel.
#[verifier::external_type_specification]
#[verifier::external_body]
#[verifier::reject_recursive_types(T)]
pub struct ExReceiver<T>(Receiver<T>);

/// The channel that this sending handle belongs to.
pub uninterp spec fn sender_channel(tx: Sender<EngineEvent>) -> int;

/// The channel that this receiving handle belongs to.
pub uninterp spec fn receiver_channel(rx: Receiver<EngineEvent>) -> int;

/// The events handed to this sending handle so far, oldest first, whether or
/// not the channel had room for them.
pub uninterp spec fn offered_events(tx: Sender<EngineEvent>) -> Seq<EventModel>;

/// Those of the offered events that the channel took.
pub uninterp spec fn accepted_events(tx: Sender<EngineEvent>) -> Seq<EventModel>;

/// How many events the channel of this sender was made to hold.
pub uninterp spec fn channel_limit(tx: Sender<EngineEvent>) -> nat;

/// The events that `try_recv` has given out through this handle, oldest first.
pub uninterp spec fn received_events(rx: Receiver<EngineEvent>) -> Seq<EventModel>;

/// How often `try_recv` has reported through this handle that no sender is left.
pub uninterp spec fn closed_reports(rx: Receiver<EngineEvent>) -> nat;

/// How often `try_recv` has reported through this handle that no event waits.
pub uninterp spec fn empty_reports(rx: Receiver<EngineEvent>) -> nat;

/// What became of an event handed to the channel.
#[derive(Debug, Clone, Copy, PartialEq, Eq, Structural)]
pub enum Delivery {
    Accepted,
    Full,
    Disconnected,
}

/// What a receive found.
pub enum Arrival {
    Event(EngineEvent),
    Nothing,
    Disconnected,
}

/// `crossbeam_channel::bounded`: the two ends of one new channel that holds
/// `capacity` events, with nothing sent and nothing received. It panics on a capacity so large that
/// its index arithmetic overflows, which the bound leaves out.
#[verifier::external_body]
fn open_channel(capacity: usize) -> (r: (Sender<EngineEvent>, Receiver<EngineEvent>))
    requires
        0 < capacity <= 0x1_0000,
    ensures
        sender_channel(r.0) == receiver_channel(r.1),
        offered_events(r.0) == Seq::<EventModel>::empty(),
        accepted_events(r.0) == Seq::<EventModel>::empty(),
        channel_limit(r.0) == capacity,
        received_events(r.1) == Seq::<EventModel>::empty(),
        closed_reports(r.1) == 0,
        empty_reports(r.1) == 0,
{
    crossbeam_channel::bounded(capacity)
}

/// `Sender::try_send`: never waits, and reports whether the handle's channel,
/// which stays the same, took the event, was full, or has no receiver left. Which of the three comes depends on
/// the other handles of the channel and is not stated.
#[verifier::external_body]
fn offer(tx: &mut Sender<EngineEvent>, event: EngineEvent) -> (r: Delivery)
    ensures
        offered_events(*final(tx)) == offered_events(*old(tx)).push(event.model()),
        accepted_events(*final(tx)) == (if r is Accepted {
            accepted_events(*old(tx)).push(event.model())
        } else {
            accepted_events(*old(tx))
        }),
        channel_limit(*final(tx)) == channel_limit(*old(tx)),
        sender_channel(*final(tx)) == sender_channel(*old(tx)),
{
    match tx.try_send(event) {
        Ok(()) => Delivery::Accepted,
        Err(TrySendError::Full(_)) => Delivery::Full,
        Err(TrySendError::Disconnected(_)) => Delivery::Disconnected,
    }
}

/// `Sender::clone`: a second handle to the same channel, through which nothing
/// has been sent yet.
#[verifier::external_body]
fn share(tx: &Sender<EngineEvent>) -> (r: Sender<EngineEvent>)
    ensures
        offered_events(r) == Seq::<EventModel>::empty(),
        accepted_events(r) == Seq::<EventModel>::empty(),
        channel_limit(r) == channel_limit(*tx),
        sender_channel(r) == sender_channel(*tx),
{
    tx.clone()
}

/// `Sender::len`: how many events wait in the channel at this moment, which is
/// never more than it holds.
#[verifier::external_body]
fn depth(tx: &Sender<EngineEvent>) -> (r: usize)
    ensures
        r <= channel_limit(*tx),
{
    tx.len()
}

/// `Sender::is_empty`: whether no event waits in the channel at this moment.
/// The answer depends on the other handles of the channel; nothing is stated.
#[verifier::external_body]
fn depth_is_zero(tx: &Sender<EngineEvent>) -> bool {
    tx.is_empty()
}

/// `Receiver::try_recv`: gives out the oldest waiting event of the handle's
/// channel, which stays the same, without waiting for one, and otherwise tells an empty channel from one without senders. Which of
/// them comes depends on the senders and is not stated.
#[verifier::external_body]
fn poll(rx: &mut Receiver<EngineEvent>) -> (r: Arrival)
    ensures
        received_events(*final(rx)) == (match r {
            Arrival::Event(event) => received_events(*old(rx)).push(event.model()),
            _ => received_events(*old(rx)),
        }),
        closed_reports(*final(rx)) == closed_reports(*old(rx)) + if r is Disconnected {
            1nat
        } else {
            0
        },
        empty_reports(*final(rx)) == empty_reports(*old(rx)) + if r is Nothing {
            1nat
        } else {
            0
        },
        receiver_channel(*final(rx)) == receiver_channel(*old(rx)),
{
    match rx.try_recv() {
        Ok(event) => Arrival::Event(event),
        Err(TryRecvError::Empty) => Arrival::Nothing,
        Err(TryRecvError::Disconnected) => Arrival::Disconnected,
    }
}

/// Everything that a sender has been given, the tag that it puts on it, and the
/// channel on which it goes out.
#[verifier::ext_equal]
pub struct JournalLog {
    pub channel: int,
    pub offered: Seq<EventModel>,
    pub source: Option<TradeSource>,
}

impl JournalLog {
    /// The log after one more event.
    pub open spec fn record(self, event: EventModel) -> JournalLog {
        JournalLog { offered: self.offered.push(event.stamped(self.source)), ..self }
    }

    /// The log of another sender on the same channel, which has been given
    /// nothing yet.
    pub open spec fn shared(self, source: Option<TradeSource>) -> JournalLog {
        JournalLog { offered: Seq::empty(), source, ..self }
    }
}

/// Sending half of the journal channel. Several may feed one journal.
///
/// A sender with a source tag puts it on every trade and order state change, so
/// that paper and replay sessions mark their entries without their callers
/// knowing.
pub struct JournalSender {
    inner: Sender<EngineEvent>,
    source_override: Option<TradeSource>,
}

impl View for JournalSender {
    type V = JournalLog;

    closed spec fn view(&self) -> JournalLog {
        JournalLog {
            channel: sender_channel(self.inner),
            offered: offered_events(self.inner),
            source: self.source_override,
        }
    }
}

impl JournalSender {
    /// The events that reached the channel through this sender.
    pub closed spec fn accepted(&self) -> Seq<EventModel> {
        accepted_events(self.inner)
    }

    /// How many events the channel holds.
    pub closed spec fn channel_capacity(&self) -> nat {
        channel_limit(self.inner)
    }

    /// Hands an event to the journal without waiting. The result says whether
    /// the channel took it; where it was full or closed, the event is dropped.
    pub fn send(&mut self, event: EngineEvent) -> (r: bool)
        ensures
            final(self)@ == old(self)@.record(event.model()),
            final(self).accepted() == (if r {
                old(self).accepted().push(event.model().stamped(old(self)@.source))
            } else {
                old(self).accepted()
            }),
            final(self).channel_capacity() == old(self).channel_capacity(),
    {
        let mut tagged = event;
        if let Some(source) = self.source_override {
            apply_source_override(&mut tagged, source);
        }
        match offer(&mut self.inner, tagged) {
            Delivery::Accepted => true,
            Delivery::Full => false,
            Delivery::Disconnected => false,
        }
    }

    /// A sender to the same journal that tags its entries with `source`.
    pub fn with_source(&self, source: TradeSource) -> (r: Self)
        ensures
            r@ == self@.shared(Some(source)),
            r.accepted() == Seq::<EventModel>::empty(),
            r.channel_capacity() == self.channel_capacity(),
    {
        JournalSender { inner: share(&self.inner), source_override: Some(source) }
    }

    pub fn source_override(&self) -> (r: Option<TradeSource>)
        ensures
            r == self@.source,
    {
        self.source_override
    }

    /// How many events wait in the channel at this moment.
    pub fn len(&self) -> (r: usize)
        ensures
            r <= self.channel_capacity(),
    {
        depth(&self.inner)
    }

    /// Whether no event waits in the channel at this moment.
    pub fn is_empty(&self) -> bool {
        depth_is_zero(&self.inner)
    }
}

impl Clone for JournalSender {
    /// A second sender to the same journal with the same tag.
    fn clone(&self) -> (r: Self)
        ensures
            r@ == self@.shared(self@.source),
            r.accepted() == Seq::<EventModel>::empty(),
            r.channel_capacity() == self.channel_capacity(),
    {
        JournalSender { inner: share(&self.inner), source_override: self.source_override }
    }
}

/// Receiving half of the journal channel, owned by the writer.
pub struct JournalReceiver {
    inner: Receiver<EngineEvent>,
}

impl View for JournalReceiver {
    type V = Seq<EventModel>;

    closed spec fn view(&self) -> Seq<EventModel> {
        received_events(self.inner)
    }
}

impl JournalReceiver {
    /// The channel that the events come from.
    pub closed spec fn channel(&self) -> int {
        receiver_channel(self.inner)
    }

    /// How often a receive found no sender left.
    pub closed spec fn times_closed(&self) -> nat {
        closed_reports(self.inner)
    }

    /// How often a receive found no event waiting.
    pub closed spec fn times_empty(&self) -> nat {
        empty_reports(self.inner)
    }

    /// The channel end itself, for a writer that waits on it.
    pub fn as_channel(&self) -> (r: &Receiver<EngineEvent>)
        ensures
            receiver_channel(*r) == self.channel(),
            received_events(*r) == self@,
            closed_reports(*r) == self.times_closed(),
            empty_reports(*r) == self.times_empty(),
    {
        &self.inner
    }

    /// Takes the next event if one waits. The answer is what the channel
    /// reported: an event counts as received, and either of the others is counted
    /// as such.
    pub fn try_recv(&mut self) -> (r: Arrival)
        ensures
            final(self)@ == (match r {
                Arrival::Event(event) => old(self)@.push(event.model()),
                _ => old(self)@,
            }),
            final(self).times_closed() == old(self).times_closed() + if r is Disconnected {
                1nat
            } else {
                0
            },
            final(self).times_empty() == old(self).times_empty() + if r is Nothing {
                1nat
            } else {
                0
            },
            final(self).channel() == old(self).channel(),
    {
        poll(&mut self.inner)
    }

    /// Takes the next event if one waits, without telling an empty channel from
    /// a closed one: the answer is nothing exactly where the channel reported one
    /// of the two.
    pub fn try_recv_for_test(&mut self) -> (r: Option<EngineEvent>)
        ensures
            final(self)@ == (match r {
                Some(event) => old(self)@.push(event.model()),
                None => old(self)@,
            }),
            final(self).times_empty() >= old(self).times_empty(),
            final(self).times_closed() >= old(self).times_closed(),
            final(self).times_empty() + final(self).times_closed() == old(self).times_empty()
                + old(self).times_closed() + if r is None {
                1nat
            } else {
                0
            },
            final(self).channel() == old(self).channel(),
    {
        match poll(&mut self.inner) {
            Arrival::Event(event) => Some(event),
            _ => None,
        }
    }
}

/// Entry points of the journal channel.
pub struct EventJournal {}

impl EventJournal {
    /// A channel that holds so many events, whose sender puts `source` on every
    /// entry, or leaves it as it is.
    pub fn channel_with_capacity(capacity: usize, source: Option<TradeSource>) -> (r: (
        JournalSender,
        JournalReceiver,
    ))
        requires
            0 < capacity <= 0x1_0000,
        ensures
            r.0@ == (JournalLog { channel: r.1.channel(), offered: Seq::empty(), source }),
            r.0.accepted() == Seq::<EventModel>::empty(),
            r.0.channel_capacity() == capacity,
            r.1@ == Seq::<EventModel>::empty(),
            r.1.times_closed() == 0,
            r.1.times_empty() == 0,
    {
        let (tx, rx) = open_channel(capacity);
        (JournalSender { inner: tx, source_override: source }, JournalReceiver { inner: rx })
    }

    /// A channel whose sender leaves the entries' source as it is.
    pub fn channel() -> (r: (JournalSender, JournalReceiver))
        ensures
            r.0@ == (JournalLog { channel: r.1.channel(), offered: Seq::empty(), source: None }),
            r.0.accepted() == Seq::<EventModel>::empty(),
            r.0.channel_capacity() == JOURNAL_CHANNEL_CAPACITY,
            r.1@ == Seq::<EventModel>::empty(),
            r.1.times_closed() == 0,
            r.1.times_empty() == 0,
    {
        EventJournal::channel_with_capacity(JOURNAL_CHANNEL_CAPACITY, None)
    }

    /// A channel whose sender tags every entry with `source`.
    pub fn channel_with_source(source: TradeSource) -> (r: (JournalSender, JournalReceiver))
        ensures
            r.0@ == (JournalLog {
                channel: r.1.channel(),
                offered: Seq::empty(),
                source: Some(source),
            }),
            r.0.accepted() == Seq::<EventModel>::empty(),
            r.0.channel_capacity() == JOURNAL_CHANNEL_CAPACITY,
            r.1@ == Seq::<EventModel>::empty(),
            r.1.times_closed() == 0,
            r.1.times_empty() == 0,
    {
        EventJournal::channel_with_capacity(JOURNAL_CHANNEL_CAPACITY, Some(source))
    }
}

// ---------------------------------------------------------------------------
// Batching
// ---------------------------------------------------------------------------

/// What the journal writer does next.
#[derive(Debug, Clone, Copy, PartialEq, Eq, Structural)]
pub struct BatchPlan {
    /// Write the batch in one transaction.
    pub flush: bool,
    /// Start a new batch window.
    pub restart_window: bool,
    /// Run a passive checkpoint.
    pub checkpoint: bool,
    /// No sender is left: stop once the rest of the plan is carried out.
    pub stop: bool,
}

/// The plan for a batch with so many events waiting: it is written when it is
/// full, when its window has passed or when no sender is left, unless there is
/// nothing to write; and the writer stops only once no sender is left.
pub open spec fn batch_plan(
    waiting: nat,
    closed: bool,
    since_flush: u64,
    since_checkpoint: u64,
) -> BatchPlan {
    let flush = waiting > 0 && (waiting >= BATCH_SIZE || since_flush >= BATCH_INTERVAL_NANOS
        || closed);
    BatchPlan {
        flush,
        restart_window: flush || (waiting == 0 && since_flush >= BATCH_INTERVAL_NANOS),
        checkpoint: since_checkpoint >= CHECKPOINT_INTERVAL_NANOS,
        stop: closed,
    }
}

/// The events that wait to be written, oldest first.
pub struct EventBatch {
    events: Vec<EngineEvent>,
    disconnected: bool,
}

/// The events as mathematical values.
pub open spec fn models(events: Seq<EngineEvent>) -> Seq<EventModel> {
    events.map_values(|event: EngineEvent| event.model())
}

/// The event that a receive brought, if it brought one.
pub open spec fn arrived(first: Arrival) -> Seq<EventModel> {
    match first {
        Arrival::Event(event) => seq![event.model()],
        _ => Seq::empty(),
    }
}

/// What a round of the writer takes in: what a first receive brought, and all
/// that the receiver, which had given out `before`, then gave out up to `after`.
pub open spec fn taken_in(
    first: Arrival,
    before: Seq<EventModel>,
    after: Seq<EventModel>,
) -> Seq<EventModel> {
    arrived(first) + after.skip(before.len() as int)
}

impl View for EventBatch {
    type V = Seq<EventModel>;

    closed spec fn view(&self) -> Seq<EventModel> {
        models(self.events@)
    }
}

impl EventBatch {
    /// Whether the last receive found no sender left.
    pub closed spec fn closed(&self) -> bool {
        self.disconnected
    }

    pub fn new() -> (r: Self)
        ensures
            r@ == Seq::<EventModel>::empty(),
            !r.closed(),
    {
        let r = EventBatch { events: Vec::new(), disconnected: false };
        assert(r@ =~= Seq::<EventModel>::empty());
        r
    }

    /// How long to wait for the next event, given the time since the last flush.
    pub fn wait_nanos(since_flush: u64) -> (r: u64)
        ensures
            r == (if since_flush >= BATCH_INTERVAL_NANOS {
                0
            } else {
                BATCH_INTERVAL_NANOS - since_flush
            }),
    {
        BATCH_INTERVAL_NANOS.saturating_sub(since_flush)
    }

    fn add(&mut self, event: EngineEvent)
        ensures
            final(self)@ == old(self)@.push(event.model()),
            final(self).closed() == old(self).closed(),
    {
        self.events.push(event);
        assert(self@ =~= old(self)@.push(event.model()));
    }

    /// Takes in what a receive found and, after an event, everything else that
    /// waits, until the batch is full or the channel reports that it is empty or
    /// closed. Nothing received is dropped.
    pub fn absorb(&mut self, first: Arrival, receiver: &mut JournalReceiver)
        ensures
            final(self)@ == old(self)@ + taken_in(first, old(receiver)@, final(receiver)@),
            first is Event ==> final(self)@.len() >= BATCH_SIZE || final(receiver).times_empty()
                > old(receiver).times_empty() || final(receiver).times_closed()
                > old(receiver).times_closed(),
            old(receiver)@.is_prefix_of(final(receiver)@),
            final(receiver).channel() == old(receiver).channel(),
            final(self)@.len() <= BATCH_SIZE || final(self)@.len() <= old(self)@.len() + 1,
            !(first is Event) ==> *final(receiver) == *old(receiver),
            final(self).closed() == (old(self).closed() || first is Disconnected
                || final(receiver).times_closed() > old(receiver).times_closed()),
    {
        let ghost start = self@;
        let ghost received = receiver@;
        match first {
            Arrival::Event(event) => {
                let ghost head = event.model();
                self.add(event);
                assert(self@ =~= start + seq![head] + receiver@.skip(received.len() as int));
                let mut drained = false;
                while !drained && self.events.len() < BATCH_SIZE
                    invariant
                        received.is_prefix_of(receiver@),
                        receiver.channel() == old(receiver).channel(),
                        self@ == start + seq![head] + receiver@.skip(received.len() as int),
                        self@.len() <= BATCH_SIZE || self@.len() <= start.len() + 1,
                        self.closed() == (old(self).closed() || receiver.times_closed()
                            > old(receiver).times_closed()),
                        receiver.times_closed() >= old(receiver).times_closed(),
                        receiver.times_empty() >= old(receiver).times_empty(),
                        drained ==> receiver.times_empty() > old(receiver).times_empty()
                            || receiver.times_closed() > old(receiver).times_closed(),
                        self@.len() == self.events@.len(),
                    decreases BATCH_SIZE - self@.len(), (if drained { 0int } else { 1int }),
                {
                    let ghost before = receiver@;
                    match receiver.try_recv() {
                        Arrival::Event(more) => {
                            let ghost model = more.model();
                            self.add(more);
                            proof {
                                assert(receiver@.skip(received.len() as int) =~= before.skip(
                                    received.len() as int,
                                ).push(model));
                                assert(self@ =~= start + seq![head] + receiver@.skip(
                                    received.len() as int,
                                ));
                            }
                        },
                        Arrival::Nothing => {
                            drained = true;
                        },
                        Arrival::Disconnected => {
                            self.disconnected = true;
                            drained = true;
                        },
                    }
                }
                assert(self@ =~= start + taken_in(first, received, receiver@));
            },
            Arrival::Nothing => {
                assert(self@ =~= start + taken_in(first, received, receiver@));
            },
            Arrival::Disconnected => {
                self.disconnected = true;
                assert(self@ =~= start + taken_in(first, received, receiver@));
            },
        }
    }

    /// What to do with the batch, given the times since the last flush and since
    /// the last checkpoint.
    pub fn plan(&self, since_flush: u64, since_checkpoint: u64) -> (r: BatchPlan)
        ensures
            r == batch_plan(self@.len(), self.closed(), since_flush, since_checkpoint),
    {
        let interval_elapsed = since_flush >= BATCH_INTERVAL_NANOS;
        let count: usize = self.events.len();
        let flush = count > 0 && (count >= BATCH_SIZE || interval_elapsed || self.disconnected);
        BatchPlan {
            flush,
            restart_window: flush || (count == 0 && interval_elapsed),
            checkpoint: since_checkpoint >= CHECKPOINT_INTERVAL_NANOS,
            stop: self.disconnected,
        }
    }

    /// Hands the whole batch over to be written.
    pub fn take(&mut self) -> (r: Vec<EngineEvent>)
        ensures
            models(r@) == old(self)@,
            final(self)@ == Seq::<EventModel>::empty(),
            final(self).closed() == old(self).closed(),
    {
        let mut taken: Vec<EngineEvent> = Vec::new();
        taken.append(&mut self.events);
        proof {
            assert(taken@ =~= old(self).events@);
            assert(self@ =~= Seq::<EventModel>::empty());
        }
        taken
    }
}

// ---------------------------------------------------------------------------
// Rows
// ---------------------------------------------------------------------------

/// Column values of `trade_events`.
#[derive(Debug, Clone)]
pub struct TradeRow {
    pub timestamp: i64,
    /// Zero where the trade names no decision.
    pub decision_id: i64,
    pub order_id: Option<i64>,
    pub symbol_id: i64,
    pub side: i64,
    pub price: i64,
    pub size: i64,
    pub kind: String,
    pub source: String,
}

/// Column values of `order_states`.
#[derive(Debug, Clone)]
pub struct OrderStateRow {
    pub timestamp: i64,
    pub order_id: i64,
    pub decision_id: Option<i64>,
    pub from_state: String,
    pub to_state: String,
    pub source: String,
}

/// Column values of `circuit_breaker_events`.
#[derive(Debug, Clone)]
pub struct BreakerRow {
    pub timestamp: i64,
    pub breaker_type: String,
    pub triggered: i64,
    pub reason: String,
}

/// Column values of `regime_transitions`.
#[derive(Debug, Clone)]
pub struct RegimeRow {
    pub timestamp: i64,
    pub from_regime: String,
    pub to_regime: String,
}

/// Column values of `system_events`.
#[derive(Debug, Clone)]
pub struct SystemRow {
    pub timestamp: i64,
    pub category: String,
    pub message: String,
}

/// A row together with its table.
#[derive(Debug, Clone)]
pub enum JournalRow {
    TradeEvents(TradeRow),
    OrderStates(OrderStateRow),
    CircuitBreakerEvents(BreakerRow),
    RegimeTransitions(RegimeRow),
    SystemEvents(SystemRow),
}

/// The number that stands for a side.
pub open spec fn side_code(side: Side) -> int {
    match side {
        Side::Buy => 0,
        Side::Sell => 1,
    }
}

pub fn side_to_i64(side: Side) -> (r: i64)
    ensures
        r == side_code(side),
{
    match side {
        Side::Buy => 0,
        Side::Sell => 1,
    }
}

/// Whether a nullable column holds a nullable number.
pub open spec fn column_holds(column: Option<i64>, value: Option<u64>) -> bool {
    match value {
        Some(v) => column is Some && column->Some_0 == signed_reading(v as int),
        None => column is None,
    }
}

/// Whether the row is the one of the entry.
pub open spec fn row_of(row: JournalRow, event: EventModel) -> bool {
    match event {
        EventModel::Trade {
            timestamp,
            decision_id,
            order,
            symbol_id,
            side,
            price,
            size,
            kind,
            source,
        } => {
            &&& row is TradeEvents
            &&& row->TradeEvents_0.timestamp == signed_reading(timestamp.nanos as int)
            &&& row->TradeEvents_0.decision_id == (match decision_id {
                Some(id) => signed_reading(id as int),
                None => 0,
            })
            &&& column_holds(row->TradeEvents_0.order_id, order)
            &&& row->TradeEvents_0.symbol_id == symbol_id
            &&& row->TradeEvents_0.side == side_code(side)
            &&& row->TradeEvents_0.price == price.quarter_ticks
            &&& row->TradeEvents_0.size == size
            &&& row->TradeEvents_0.kind@ == kind
            &&& row->TradeEvents_0.source@ == source.name()
        },
        EventModel::OrderState {
            timestamp,
            order_id,
            decision_id,
            from_state,
            to_state,
            source,
        } => {
            &&& row is OrderStates
            &&& row->OrderStates_0.timestamp == signed_reading(timestamp.nanos as int)
            &&& row->OrderStates_0.order_id == signed_reading(order_id as int)
            &&& column_holds(row->OrderStates_0.decision_id, decision_id)
            &&& row->OrderStates_0.from_state@ == from_state
            &&& row->OrderStates_0.to_state@ == to_state
            &&& row->OrderStates_0.source@ == source.name()
        },
        EventModel::Breaker { timestamp, breaker_type, triggered, reason } => {
            &&& row is CircuitBreakerEvents
            &&& row->CircuitBreakerEvents_0.timestamp == signed_reading(timestamp.nanos as int)
            &&& row->CircuitBreakerEvents_0.breaker_type@ == breaker_type
            &&& row->CircuitBreakerEvents_0.triggered == if triggered {
                1int
            } else {
                0
            }
            &&& row->CircuitBreakerEvents_0.reason@ == reason
        },
        EventModel::Regime { timestamp, from_regime, to_regime } => {
            &&& row is RegimeTransitions
            &&& row->RegimeTransitions_0.timestamp == signed_reading(timestamp.nanos as int)
            &&& row->RegimeTransitions_0.from_regime@ == from_regime
            &&& row->RegimeTransitions_0.to_regime@ == to_regime
        },
        EventModel::System { timestamp, category, message } => {
            &&& row is SystemEvents
            &&& row->SystemEvents_0.timestamp == signed_reading(timestamp.nanos as int)
            &&& row->SystemEvents_0.category@ == category
            &&& row->SystemEvents_0.message@ == message
        },
    }
}

fn nullable_column(value: Option<u64>) -> (r: Option<i64>)
    ensures
        column_holds(r, value),
{
    match value {
        Some(v) => Some(to_signed(v)),
        None => None,
    }
}

/// The row that is written for an entry.
pub fn journal_row(event: &EngineEvent) -> (r: JournalRow)
    ensures
        row_of(r, event.model()),
{
    match event {
        EngineEvent::TradeEvent(e) => JournalRow::TradeEvents(
            TradeRow {
                timestamp: to_signed(e.timestamp.nanos),
                decision_id: match e.decision_id {
                    Some(id) => to_signed(id),
                    None => 0,
                },
                order_id: nullable_column(e.order_id),
                symbol_id: e.symbol_id as i64,
                side: side_to_i64(e.side),
                price: e.price.raw(),
                size: e.size as i64,
                kind: e.kind.clone(),
                source: e.source.as_str().to_owned(),
            },
        ),
        EngineEvent::OrderStateChange(e) => JournalRow::OrderStates(
            OrderStateRow {
                timestamp: to_signed(e.timestamp.nanos),
                order_id: to_signed(e.order_id),
                decision_id: nullable_column(e.decision_id),
                from_state: e.from_state.clone(),
                to_state: e.to_state.clone(),
                source: e.source.as_str().to_owned(),
            },
        ),
        EngineEvent::CircuitBreakerEvent(e) => JournalRow::CircuitBreakerEvents(
            BreakerRow {
                timestamp: to_signed(e.timestamp.nanos),
                breaker_type: e.breaker_type.clone(),
                triggered: if e.triggered {
                    1
                } else {
                    0
                },
                reason: e.reason.clone(),
            },
        ),
        EngineEvent::RegimeTransition(e) => JournalRow::RegimeTransitions(
            RegimeRow {
                timestamp: to_signed(e.timestamp.nanos),
                from_regime: e.from_regime.clone(),
                to_regime: e.to_regime.clone(),
            },
        ),
        EngineEvent::SystemEvent(e) => JournalRow::SystemEvents(
            SystemRow {
                timestamp: to_signed(e.timestamp.nanos),
                category: e.category.clone(),
                message: e.message.clone(),
            },
        ),
    }
}

// ---------------------------------------------------------------------------
// Migration
// ---------------------------------------------------------------------------

/// The names of the columns of a table.
pub open spec fn column_names(columns: Seq<String>) -> Seq<Seq<char>> {
    columns.map_values(|c: String| c@)
}

/// Whether a table has a column of this name.
pub fn column_exists(columns: &Vec<String>, column: &str) -> (r: bool)
    ensures
        r == column_names(columns@).contains(column@),
{
    let ghost names = column_names(columns@);
    let mut i: usize = 0;
    while i < columns.len()
        invariant
            i <= columns@.len(),
            names == column_names(columns@),
            forall|j: int| 0 <= j < i ==> #[trigger] names[j] != column@,
        decreases columns@.len() - i,
    {
        if str_eq(columns[i].as_str(), column) {
            assert(names[i as int] == column@);
            return true;
        }
        i += 1;
    }
    false
}

/// The statement that gives a table its source column, where it lacks one. Old
/// rows count as live.
pub fn migrate_add_source_column(table: &str, columns: &Vec<String>) -> (r: Option<String>)
    ensures
        r is Some <==> !column_names(columns@).contains("source"@),
        r matches Some(sql) ==> sql@ == "ALTER TABLE "@ + table@
            + " ADD COLUMN source TEXT NOT NULL DEFAULT 'live'"@,
{
    if column_exists(columns, "source") {
        None
    } else {
        let mut sql = "ALTER TABLE ".to_owned();
        sql.append(table);
        sql.append(" ADD COLUMN source TEXT NOT NULL DEFAULT 'live'");
        Some(sql)
    }
}

// ---------------------------------------------------------------------------
// Laws
// ---------------------------------------------------------------------------

/// Tagging changes nothing but the source of a trade or an order state change,
/// and the last tag counts.
pub proof fn last_tag_counts(event: EventModel, first: TradeSource, second: TradeSource)
    ensures
        event.stamped(Some(first)).stamped(Some(second)) == event.stamped(Some(second)),
        event.stamped(None) == event,
        !(event is Trade) && !(event is OrderState) ==> event.stamped(Some(first)) == event,
        event matches EventModel::Trade { source, .. } ==> (source == first ==> event.stamped(
            Some(first),
        ) == event),
{
}

/// Whatever a sender is given, and whatever senders are made from it, all of it
/// goes out on the channel that it was opened on.
pub proof fn senders_keep_their_channel(
    log: JournalLog,
    event: EventModel,
    source: Option<TradeSource>,
)
    ensures
        log.record(event).channel == log.channel,
        log.shared(source).channel == log.channel,
        log.shared(source).record(event).channel == log.channel,
        log.shared(source).offered.len() == 0,
        log.shared(source).record(event).offered == seq![event.stamped(source)],
{
    assert(log.shared(source).record(event).offered =~= seq![event.stamped(source)]);
}

/// One round of the journal writer: what a first receive brought, what the
/// receiver had given out before and after the rest was taken in, and whether the
/// batch was then taken out to be written.
pub struct WriterRound {
    pub first: Arrival,
    pub before: Seq<EventModel>,
    pub after: Seq<EventModel>,
    pub taken: bool,
}

/// What was taken out to be written so far, and what waits in the batch.
#[verifier::ext_equal]
pub struct WriterProgress {
    pub written: Seq<EventModel>,
    pub waiting: Seq<EventModel>,
}

impl WriterProgress {
    /// Everything taken in so far, oldest first.
    pub open spec fn all(self) -> Seq<EventModel> {
        self.written + self.waiting
    }

    /// The progress after a round, as `absorb` and `take` make it.
    pub open spec fn after_round(self, round: WriterRound) -> WriterProgress {
        let waiting = self.waiting + taken_in(round.first, round.before, round.after);
        if round.taken {
            WriterProgress { written: self.written + waiting, waiting: Seq::empty() }
        } else {
            WriterProgress { waiting, ..self }
        }
    }

    /// The progress after the rounds, in order.
    pub open spec fn after_rounds(self, rounds: Seq<WriterRound>) -> WriterProgress
        decreases rounds.len(),
    {
        if rounds.len() == 0 {
            self
        } else {
            self.after_rounds(rounds.drop_last()).after_round(rounds.last())
        }
    }
}

/// What a receiver has given out after the rounds, if it had given out `start`
/// before them.
pub open spec fn given_out(rounds: Seq<WriterRound>, start: Seq<EventModel>) -> Seq<EventModel> {
    if rounds.len() == 0 {
        start
    } else {
        rounds.last().after
    }
}

/// Whether all rounds are rounds on one receiver, one after the other, the first
/// receive of each included.
pub open spec fn on_one_receiver(rounds: Seq<WriterRound>, start: Seq<EventModel>) -> bool
    decreases rounds.len(),
{
    rounds.len() == 0 || {
        let last = rounds.last();
        &&& on_one_receiver(rounds.drop_last(), start)
        &&& last.before == given_out(rounds.drop_last(), start) + arrived(last.first)
        &&& last.before.is_prefix_of(last.after)
    }
}

/// Over any rounds, what was taken out to be written and what still waits is
/// together what was received: everything, in order, once.
pub proof fn nothing_received_is_lost(
    progress: WriterProgress,
    rounds: Seq<WriterRound>,
    start: Seq<EventModel>,
)
    requires
        on_one_receiver(rounds, start),
    ensures
        start.is_prefix_of(given_out(rounds, start)),
        progress.after_rounds(rounds).all() == progress.all() + given_out(rounds, start).skip(
            start.len() as int,
        ),
    decreases rounds.len(),
{
    if rounds.len() == 0 {
        assert(start.skip(start.len() as int) =~= Seq::<EventModel>::empty());
        assert(progress.all() + Seq::<EventModel>::empty() =~= progress.all());
    } else {
        let fewer = rounds.drop_last();
        let last = rounds.last();
        nothing_received_is_lost(progress, fewer, start);
        let then = progress.after_rounds(fewer);
        let mid = given_out(fewer, start);
        let gained = taken_in(last.first, last.before, last.after);
        assert forall|i: int| 0 <= i < last.before.len() implies last.before[i]
            == last.after[i] by {
            assert(last.after.subrange(0, last.before.len() as int)[i] == last.after[i]);
        }
        assert(last.after =~= last.before + last.after.skip(last.before.len() as int));
        assert(last.after =~= mid + gained);
        assert(then.after_round(last).all() =~= then.all() + gained);
        assert((mid + gained).skip(start.len() as int) =~= mid.skip(start.len() as int) + gained);
        assert(progress.after_rounds(rounds).all() =~= progress.all() + last.after.skip(
            start.len() as int,
        ));
    }
}

/// A writer that stops has written everything that was received: with the batch
/// taken out as planned in its last round, nothing waits.
pub proof fn stopped_writer_wrote_everything(
    progress: WriterProgress,
    rounds: Seq<WriterRound>,
    start: Seq<EventModel>,
    closed: bool,
    since_flush: u64,
    since_checkpoint: u64,
)
    requires
        on_one_receiver(rounds, start),
        rounds.len() > 0,
        ({
            let last = rounds.last();
            let waiting = progress.after_rounds(rounds.drop_last()).waiting + taken_in(
                last.first,
                last.before,
                last.after,
            );
            let plan = batch_plan(waiting.len(), closed, since_flush, since_checkpoint);
            plan.stop && last.taken == plan.flush
        }),
    ensures
        closed,
        progress.after_rounds(rounds).waiting == Seq::<EventModel>::empty(),
        progress.after_rounds(rounds).written == progress.all() + given_out(rounds, start).skip(
            start.len() as int,
        ),
{
    nothing_received_is_lost(progress, rounds, start);
    let end = progress.after_rounds(rounds);
    assert(end.waiting =~= Seq::<EventModel>::empty());
    assert(end.all() =~= end.written);
}

/// A sender's tag marks the source of trades and of changes of order states, and
/// moves nothing else in them. Every other entry goes out as it was given, and so
/// does every entry of a sender without a tag.
pub proof fn tags_mark_only_the_source(event: EventModel, tag: TradeSource)
    ensures
        ({
            let tagged = event.stamped(Some(tag));
            &&& event.stamped(None) == event
            &&& tagged is Trade <==> event is Trade
            &&& tagged is OrderState <==> event is OrderState
            &&& event is Trade ==> {
                &&& tagged->Trade_source == tag
                &&& tagged->Trade_timestamp == event->Trade_timestamp
                &&& tagged->Trade_decision_id == event->Trade_decision_id
                &&& tagged->order == event->order
                &&& tagged->symbol_id == event->symbol_id
                &&& tagged->side == event->side
                &&& tagged->price == event->price
                &&& tagged->size == event->size
                &&& tagged->kind == event->kind
            }
            &&& event is OrderState ==> {
                &&& tagged->OrderState_source == tag
                &&& tagged->OrderState_timestamp == event->OrderState_timestamp
                &&& tagged->OrderState_decision_id == event->OrderState_decision_id
                &&& tagged->order_id == event->order_id
                &&& tagged->from_state == event->from_state
                &&& tagged->to_state == event->to_state
            }
            &&& !(event is Trade) && !(event is OrderState) ==> tagged == event
        }),
{
}

/// What a sender is given it passes on once, after everything it was given before,
/// under its own tag.
pub proof fn senders_pass_on_what_they_are_given(log: JournalLog, event: EventModel)
    ensures
        log.record(event).offered.len() == log.offered.len() + 1,
        log.record(event).offered.drop_last() == log.offered,
        log.source is None ==> log.record(event).offered.last() == event,
        log.record(event).offered.last() == event.stamped(log.source),
        log.record(event).source == log.source,
        log.record(event).channel == log.channel,
{
    assert(log.record(event).offered.drop_last() =~= log.offered);
}

/// A batch is written when it holds sixty-four events, when a tenth of a second has
/// passed since the last one, or when no sender is left, and never while it is
/// empty. A checkpoint is due every minute.
pub proof fn batches_are_written_in_time(
    waiting: nat,
    closed: bool,
    since_flush: u64,
    since_checkpoint: u64,
)
    ensures
        ({
            let plan = batch_plan(waiting, closed, since_flush, since_checkpoint);
            &&& plan.flush ==> waiting > 0
            &&& waiting >= 64 ==> plan.flush
            &&& waiting > 0 && since_flush >= 100_000_000 ==> plan.flush
            &&& waiting > 0 && closed ==> plan.flush
            &&& waiting < 64 && since_flush < 100_000_000 && !closed ==> !plan.flush
            &&& plan.restart_window <==> plan.flush || (waiting == 0 && since_flush >= 100_000_000)
            &&& plan.checkpoint <==> since_checkpoint >= 60_000_000_000
            &&& plan.stop <==> closed
        }),
{
}

/// The row of a trade holds the trade: its numbers as they are, its side as 0 for a
/// purchase and 1 for a sale, its source by name.
pub proof fn trade_rows_hold_the_trade(row: TradeRow, event: EventModel)
    requires
        event is Trade,
        row_of(JournalRow::TradeEvents(row), event),
    ensures
        event->Trade_timestamp.nanos <= i64::MAX ==> row.timestamp == event->Trade_timestamp.nanos,
        event->Trade_decision_id is None ==> row.decision_id == 0,
        event->Trade_decision_id matches Some(id) ==> (id <= i64::MAX ==> row.decision_id == id),
        event->order is None <==> row.order_id is None,
        event->order matches Some(id) ==> (id <= i64::MAX ==> row.order_id->Some_0 == id),
        row.symbol_id == event->symbol_id,
        row.side == 0 <==> event->side == Side::Buy,
        row.side == 1 <==> event->side == Side::Sell,
        row.price == event->price.quarter_ticks,
        row.size == event->size,
        row.kind@ == event->kind,
        row.source@ == "live"@ <==> event->Trade_source == TradeSource::Live,
        row.source@ == "paper"@ <==> event->Trade_source == TradeSource::Paper,
        row.source@ == "replay"@ <==> event->Trade_source == TradeSource::Replay,
{
    crate::types::sources_are_told_apart(event->Trade_source, row.source@);
}

/// Every entry is written to the table of its kind, with its own time and texts.
pub proof fn entries_go_to_their_tables(row: JournalRow, event: EventModel)
    requires
        row_of(row, event),
    ensures
        row is TradeEvents <==> event is Trade,
        row is OrderStates <==> event is OrderState,
        row is CircuitBreakerEvents <==> event is Breaker,
        row is RegimeTransitions <==> event is Regime,
        row is SystemEvents <==> event is System,
        row matches JournalRow::OrderStates(line) ==> {
            &&& event->OrderState_timestamp.nanos <= i64::MAX ==> line.timestamp
                == event->OrderState_timestamp.nanos
            &&& event->order_id <= i64::MAX ==> line.order_id == event->order_id
            &&& line.decision_id is None <==> event->OrderState_decision_id is None
            &&& event->OrderState_decision_id matches Some(id) ==> (id <= i64::MAX
                ==> line.decision_id->Some_0 == id)
            &&& line.from_state@ == event->from_state
            &&& line.to_state@ == event->to_state
            &&& line.source@ == event->OrderState_source.name()
        },
        row matches JournalRow::CircuitBreakerEvents(line) ==> {
            &&& event->Breaker_timestamp.nanos <= i64::MAX ==> line.timestamp
                == event->Breaker_timestamp.nanos
            &&& line.breaker_type@ == event->breaker_type
            &&& line.triggered == 1 <==> event->triggered
            &&& line.triggered == 0 <==> !event->triggered
            &&& line.reason@ == event->reason
        },
        row matches JournalRow::RegimeTransitions(line) ==> {
            &&& event->Regime_timestamp.nanos <= i64::MAX ==> line.timestamp
                == event->Regime_timestamp.nanos
            &&& line.from_regime@ == event->from_regime
            &&& line.to_regime@ == event->to_regime
        },
        row matches JournalRow::SystemEvents(line) ==> {
            &&& event->System_timestamp.nanos <= i64::MAX ==> line.timestamp
                == event->System_timestamp.nanos
            &&& line.category@ == event->category
            &&& line.message@ == event->message
        },
{
}

/// A round takes in the event that the first receive brought, if it brought one, and
/// then what the receiver gave out since, in order.
pub proof fn rounds_take_in_what_came(first: Arrival, before: Seq<EventModel>, later: Seq<EventModel>)
    ensures
        first matches Arrival::Event(event) ==> taken_in(first, before, before + later) == seq![
            event.model(),
        ] + later,
        !(first is Event) ==> taken_in(first, before, before + later) == later,
{
    assert((before + later).skip(before.len() as int) =~= later);
    assert(Seq::<EventModel>::empty() + later =~= later);
}

} // verus!
