//! Which strategies may open new positions in the present market regime.
//!
//! A change of regime takes effect unless it follows the last one that did too
//! soon. Within that cooldown the strategies stay as they are, except that a
//! cautious configuration falls back to a more conservative regime at once.
//! Existing orders and positions are out of reach from here.
use vstd::prelude::*;

use crate::persistence::journal::{
    EngineEvent, EventModel, JournalLog, JournalSender, RegimeTransitionRecord,
};
use crate::text::str_eq;
use crate::types::{RegimeState, RegimeTransition, UnixNanos};

verus! {

/// Nanoseconds in a second.
pub const NANOS_PER_SECOND: u64 = 1_000_000_000;

/// The names in a list of strategies.
pub open spec fn strategy_names(list: Seq<String>) -> Seq<Seq<char>> {
    list.map_values(|s: String| s@)
}

/// The strategies of each regime, and how to treat quick changes.
pub struct RegimeOrchestrationConfig {
    pub trending: Vec<String>,
    pub rotational: Vec<String>,
    pub volatile: Vec<String>,
    pub unknown: Vec<String>,
    pub cooldown_period_secs: u64,
    pub conservative_on_oscillation: bool,
}

impl RegimeOrchestrationConfig {
    /// The strategies that may trade in a regime.
    pub open spec fn allowed(self, regime: RegimeState) -> Set<Seq<char>> {
        strategy_names(
            (match regime {
                RegimeState::Trending => self.trending,
                RegimeState::Rotational => self.rotational,
                RegimeState::Volatile => self.volatile,
                RegimeState::Unknown => self.unknown,
            })@,
        ).to_set()
    }

    pub fn strategies(&self, regime: RegimeState) -> (r: &Vec<String>)
        ensures
            strategy_names(r@).to_set() == self.allowed(regime),
            regime is Trending ==> *r == self.trending,
            regime is Rotational ==> *r == self.rotational,
            regime is Volatile ==> *r == self.volatile,
            regime is Unknown ==> *r == self.unknown,
    {
        match regime {
            RegimeState::Trending => &self.trending,
            RegimeState::Rotational => &self.rotational,
            RegimeState::Volatile => &self.volatile,
            RegimeState::Unknown => &self.unknown,
        }
    }

    /// The cooldown in nanoseconds, as far as those can be counted.
    pub open spec fn cooldown_nanos(self) -> int {
        if self.cooldown_period_secs * NANOS_PER_SECOND > u64::MAX {
            u64::MAX as int
        } else {
            self.cooldown_period_secs * NANOS_PER_SECOND
        }
    }
}

/// How conservative a regime is; more is safer.
pub open spec fn caution(state: RegimeState) -> int {
    match state {
        RegimeState::Unknown => 4,
        RegimeState::Volatile => 3,
        RegimeState::Rotational => 2,
        RegimeState::Trending => 1,
    }
}

pub fn conservative_rank(state: RegimeState) -> (r: u8)
    ensures
        r == caution(state),
{
    match state {
        RegimeState::Unknown => 4,
        RegimeState::Volatile => 3,
        RegimeState::Rotational => 2,
        RegimeState::Trending => 1,
    }
}

/// The orchestrator as a mathematical value.
#[verifier::ext_equal]
pub struct RegimeModel {
    pub config: RegimeOrchestrationConfig,
    pub current: RegimeState,
    /// When a change last took effect.
    pub last_change: Option<UnixNanos>,
    /// The changes that the cooldown held back.
    pub pending: Seq<RegimeTransition>,
    pub enabled: Set<Seq<char>>,
    pub log: Option<JournalLog>,
}

impl RegimeModel {
    /// Whether a change at this time comes too soon after the last one. A time
    /// that is not after the last one counts as too soon.
    pub open spec fn cooling_down(self, now: UnixNanos) -> bool {
        &&& self.config.cooldown_nanos() > 0
        &&& self.last_change matches Some(last) && (now.nanos <= last.nanos || now.nanos
            - last.nanos < self.config.cooldown_nanos())
    }

    pub open spec fn change_to(self, regime: RegimeState, timestamp: UnixNanos) -> RegimeTransition {
        RegimeTransition { from: self.current, to: regime, timestamp }
    }

    pub open spec fn journaled(self, change: RegimeTransition) -> Option<JournalLog> {
        match self.log {
            Some(log) => Some(
                log.record(
                    EventModel::Regime {
                        timestamp: change.timestamp,
                        from_regime: change.from.name(),
                        to_regime: change.to.name(),
                    },
                ),
            ),
            None => None,
        }
    }

    /// The orchestrator with another regime in force.
    pub open spec fn governed_by(self, regime: RegimeState) -> RegimeModel {
        RegimeModel { current: regime, enabled: self.config.allowed(regime), ..self }
    }

    /// Once a change took effect, exactly the strategies of the regime in force
    /// are enabled. Before, no regime is known and no strategy is enabled.
    pub open spec fn governed(self) -> bool {
        if self.last_change is Some {
            self.enabled == self.config.allowed(self.current)
        } else {
            self.current is Unknown && self.enabled == Set::<Seq<char>>::empty()
        }
    }

    /// The orchestrator after these reports, in order.
    pub open spec fn after_updates(self, reports: Seq<(RegimeState, UnixNanos)>) -> RegimeModel
        decreases reports.len(),
    {
        if reports.len() == 0 {
            self
        } else {
            self.after_updates(reports.drop_last()).after_update(
                reports.last().0,
                reports.last().1,
            )
        }
    }

    /// The orchestrator after the detector reported a regime.
    pub open spec fn after_update(self, regime: RegimeState, timestamp: UnixNanos) -> RegimeModel {
        if regime == self.current {
            self
        } else {
            let change = self.change_to(regime, timestamp);
            let noted = RegimeModel { log: self.journaled(change), ..self };
            if self.cooling_down(timestamp) {
                let held = RegimeModel { pending: self.pending.push(change), ..noted };
                if self.config.conservative_on_oscillation && caution(regime) > caution(
                    self.current,
                ) {
                    held.governed_by(regime)
                } else {
                    held
                }
            } else {
                RegimeModel { last_change: Some(timestamp), ..noted.governed_by(regime) }
            }
        }
    }
}

/// Names of strategies, each once.
pub struct StrategySet {
    names: Vec<String>,
}

impl View for StrategySet {
    type V = Set<Seq<char>>;

    closed spec fn view(&self) -> Set<Seq<char>> {
        strategy_names(self.names@).to_set()
    }
}

impl StrategySet {
    #[verifier::type_invariant]
    spec fn distinct(self) -> bool {
        strategy_names(self.names@).no_duplicates()
    }

    fn empty() -> (r: Self)
        ensures
            r@ == Set::<Seq<char>>::empty(),
    {
        let r = StrategySet { names: Vec::new() };
        assert(r@ =~= Set::<Seq<char>>::empty());
        r
    }

    /// The names of the list.
    fn of(list: &Vec<String>) -> (r: Self)
        ensures
            r@ == strategy_names(list@).to_set(),
    {
        StrategySet { names: distinct_names(list) }
    }

    /// The names, each once.
    pub fn names(&self) -> (r: &Vec<String>)
        ensures
            strategy_names(r@).to_set() == self@,
            strategy_names(r@).no_duplicates(),
    {
        proof {
            use_type_invariant(self);
        }
        &self.names
    }
}

/// Decides which strategies may open new positions.
pub struct RegimeOrchestrator {
    config: RegimeOrchestrationConfig,
    current_regime: RegimeState,
    last_transition_time: Option<UnixNanos>,
    pending_transitions: Vec<RegimeTransition>,
    enabled_strategies: StrategySet,
    journal: Option<JournalSender>,
}

impl View for RegimeOrchestrator {
    type V = RegimeModel;

    closed spec fn view(&self) -> RegimeModel {
        RegimeModel {
            config: self.config,
            current: self.current_regime,
            last_change: self.last_transition_time,
            pending: self.pending_transitions@,
            enabled: self.enabled_strategies@,
            log: match self.journal {
                Some(journal) => Some(journal@),
                None => None,
            },
        }
    }
}

/// The journal entry of a change of regime.
pub fn transition_record(change: &RegimeTransition) -> (r: RegimeTransitionRecord)
    ensures
        r.timestamp == change.timestamp,
        r.from_regime@ == change.from.name(),
        r.to_regime@ == change.to.name(),
{
    RegimeTransitionRecord {
        timestamp: change.timestamp,
        from_regime: change.from.as_str().to_owned(),
        to_regime: change.to.as_str().to_owned(),
    }
}

fn holds_name(list: &Vec<String>, name: &str) -> (r: bool)
    ensures
        r == strategy_names(list@).to_set().contains(name@),
{
    let ghost names = strategy_names(list@);
    let mut i: usize = 0;
    while i < list.len()
        invariant
            i <= list@.len(),
            names == strategy_names(list@),
            forall|j: int| 0 <= j < i ==> #[trigger] names[j] != name@,
        decreases list@.len() - i,
    {
        if str_eq(list[i].as_str(), name) {
            assert(names[i as int] == name@);
            return true;
        }
        i += 1;
    }
    false
}

/// The names of the list, each once.
fn distinct_names(list: &Vec<String>) -> (r: Vec<String>)
    ensures
        strategy_names(r@).no_duplicates(),
        strategy_names(r@).to_set() == strategy_names(list@).to_set(),
{
    let ghost wanted = strategy_names(list@);
    let mut out: Vec<String> = Vec::new();
    let mut i: usize = 0;
    assert(strategy_names(out@) =~= Seq::<Seq<char>>::empty());
    while i < list.len()
        invariant
            i <= list@.len(),
            wanted == strategy_names(list@),
            strategy_names(out@).no_duplicates(),
            forall|n: Seq<char>| #[trigger]
                strategy_names(out@).contains(n) ==> wanted.contains(n),
            forall|j: int| 0 <= j < i ==> strategy_names(out@).contains(#[trigger] wanted[j]),
        decreases list@.len() - i,
    {
        let ghost before = strategy_names(out@);
        let ghost next = list@[i as int]@;
        assert(wanted[i as int] == next);
        if !holds_name(&out, list[i].as_str()) {
            out.push(list[i].clone());
            proof {
                assert(strategy_names(out@) =~= before.push(next));
                assert(!before.contains(next));
                assert(strategy_names(out@)[before.len() as int] == next);
                assert forall|n: Seq<char>| before.contains(n) implies strategy_names(
                    out@,
                ).contains(n) by {
                    let at = before.index_of(n);
                    assert(strategy_names(out@)[at] == n);
                }
            }
        }
        proof {
            assert(strategy_names(out@).contains(next));
            assert forall|n: Seq<char>| #[trigger] strategy_names(out@).contains(n) implies
                wanted.contains(n) by {
                if n != next {
                    let at = strategy_names(out@).index_of(n);
                    assert(before[at] == n);
                    assert(before.contains(n));
                }
            }
        }
        i += 1;
    }
    proof {
        let got = strategy_names(out@);
        assert forall|n: Seq<char>| wanted.contains(n) implies got.contains(n) by {
            let at = wanted.index_of(n);
            assert(wanted[at] == n);
        }
        assert(got.to_set() =~= wanted.to_set());
    }
    out
}

impl RegimeOrchestrator {
    /// An orchestrator that knows no regime yet and lets no strategy trade.
    pub fn new(config: RegimeOrchestrationConfig) -> (r: Self)
        ensures
            r@ == (RegimeModel {
                config,
                current: RegimeState::Unknown,
                last_change: None,
                pending: Seq::empty(),
                enabled: Set::empty(),
                log: None,
            }),
            r@.governed(),
    {
        RegimeOrchestrator {
            config,
            current_regime: RegimeState::Unknown,
            last_transition_time: None,
            pending_transitions: Vec::new(),
            enabled_strategies: StrategySet::empty(),
            journal: None,
        }
    }

    /// The same, with every change of regime journaled.
    pub fn with_journal(config: RegimeOrchestrationConfig, journal: JournalSender) -> (r: Self)
        ensures
            r@ == (RegimeModel {
                config,
                current: RegimeState::Unknown,
                last_change: None,
                pending: Seq::empty(),
                enabled: Set::empty(),
                log: Some(journal@),
            }),
            r@.governed(),
    {
        let mut r = RegimeOrchestrator::new(config);
        r.journal = Some(journal);
        r
    }

    pub fn config(&self) -> (r: &RegimeOrchestrationConfig)
        ensures
            *r == self@.config,
    {
        &self.config
    }

    pub fn current_regime(&self) -> (r: RegimeState)
        ensures
            r == self@.current,
    {
        self.current_regime
    }

    /// The strategies that may open new positions, each once.
    pub fn enabled_strategies(&self) -> (r: &Vec<String>)
        ensures
            strategy_names(r@).to_set() == self@.enabled,
            strategy_names(r@).no_duplicates(),
    {
        self.enabled_strategies.names()
    }

    /// Whether a strategy may open new positions.
    pub fn is_strategy_enabled(&self, strategy_name: &str) -> (r: bool)
        ensures
            r == self@.enabled.contains(strategy_name@),
    {
        holds_name(self.enabled_strategies.names(), strategy_name)
    }

    /// The changes that the cooldown held back, oldest first.
    pub fn pending_transitions(&self) -> (r: &Vec<RegimeTransition>)
        ensures
            r@ == self@.pending,
    {
        &self.pending_transitions
    }

    /// Takes the detector's report. Any report of another regime than the
    /// present one is returned and journaled, also where the cooldown holds it
    /// back.
    pub fn on_regime_update(&mut self, new_regime: RegimeState, timestamp: UnixNanos) -> (r: Option<
        RegimeTransition,
    >)
        ensures
            r == (if new_regime == old(self)@.current {
                None
            } else {
                Some(old(self)@.change_to(new_regime, timestamp))
            }),
            final(self)@ == old(self)@.after_update(new_regime, timestamp),
            old(self)@.governed() ==> final(self)@.governed(),
            r is Some <==> new_regime != old(self)@.current,
            r matches Some(change) ==> change.from == old(self)@.current && change.to == new_regime
                && change.timestamp == timestamp,
            final(self)@.config == old(self)@.config,
    {
        if new_regime == self.current_regime {
            return None;
        }
        let transition = RegimeTransition { from: self.current_regime, to: new_regime, timestamp };
        if self.is_in_cooldown(timestamp) {
            self.pending_transitions.push(transition);
            self.forward_to_journal(&transition);
            if self.config.conservative_on_oscillation {
                let safer = RegimeOrchestrator::is_more_conservative(
                    self.current_regime,
                    new_regime,
                );
                if safer != self.current_regime {
                    self.current_regime = safer;
                    self.apply_strategy_permissions(safer);
                }
            }
            return Some(transition);
        }
        self.current_regime = new_regime;
        self.last_transition_time = Some(timestamp);
        self.apply_strategy_permissions(new_regime);
        self.forward_to_journal(&transition);
        Some(transition)
    }

    /// The more conservative of two regimes; the first where they are equally so.
    pub fn is_more_conservative(a: RegimeState, b: RegimeState) -> (r: RegimeState)
        ensures
            r == (if caution(a) >= caution(b) {
                a
            } else {
                b
            }),
    {
        if conservative_rank(a) >= conservative_rank(b) {
            a
        } else {
            b
        }
    }

    fn apply_strategy_permissions(&mut self, regime: RegimeState)
        ensures
            final(self)@ == (RegimeModel {
                enabled: old(self)@.config.allowed(regime),
                ..old(self)@
            }),
    {
        self.enabled_strategies = StrategySet::of(self.config.strategies(regime));
    }

    fn is_in_cooldown(&self, now: UnixNanos) -> (r: bool)
        ensures
            r == self@.cooling_down(now),
    {
        let last = match self.last_transition_time {
            Some(last) => last,
            None => {
                return false;
            },
        };
        assert(self.config.cooldown_period_secs * NANOS_PER_SECOND <= u64::MAX * NANOS_PER_SECOND)
            by (nonlinear_arith)
            requires
                self.config.cooldown_period_secs <= u64::MAX,
        ;
        let wide: u128 = self.config.cooldown_period_secs as u128 * NANOS_PER_SECOND as u128;
        let cooldown_nanos: u64 = if wide > 0xffff_ffff_ffff_ffff {
            0xffff_ffff_ffff_ffff
        } else {
            wide as u64
        };
        if cooldown_nanos == 0 {
            return false;
        }
        if now.nanos <= last.nanos {
            return true;
        }
        now.nanos - last.nanos < cooldown_nanos
    }

    fn forward_to_journal(&mut self, transition: &RegimeTransition)
        ensures
            final(self)@ == (RegimeModel {
                log: old(self)@.journaled(*transition),
                ..old(self)@
            }),
    {
        match self.journal.take() {
            Some(sender) => {
                let mut journal = sender;
                let _ = journal.send(EngineEvent::RegimeTransition(transition_record(transition)));
                self.journal = Some(journal);
            },
            None => {},
        }
    }
}

/// Within the cooldown the regime in force never becomes less conservative, and
/// the strategies change only together with it.
pub proof fn cooldown_never_loosens(model: RegimeModel, regime: RegimeState, timestamp: UnixNanos)
    requires
        model.cooling_down(timestamp),
    ensures
        ({
            let after = model.after_update(regime, timestamp);
            &&& caution(after.current) >= caution(model.current)
            &&& after.current == model.current ==> after.enabled == model.enabled
            &&& after.last_change == model.last_change
            &&& !model.config.conservative_on_oscillation ==> after.current == model.current
        }),
{
}

/// Whatever the detector reports, and whether or not the cooldown holds it back:
/// once a change took effect, exactly the strategies of the regime in force are
/// enabled.
pub proof fn permissions_follow_the_regime(
    model: RegimeModel,
    reports: Seq<(RegimeState, UnixNanos)>,
)
    requires
        model.governed(),
    ensures
        ({
            let after = model.after_updates(reports);
            &&& after.governed()
            &&& after.config == model.config
            &&& model.last_change is Some ==> after.last_change is Some
            &&& after.last_change is Some ==> after.enabled == model.config.allowed(after.current)
        }),
    decreases reports.len(),
{
    if reports.len() > 0 {
        permissions_follow_the_regime(model, reports.drop_last());
    }
}

/// Outside the cooldown the reported regime takes effect.
pub proof fn change_takes_effect(model: RegimeModel, regime: RegimeState, timestamp: UnixNanos)
    requires
        !model.cooling_down(timestamp),
        regime != model.current,
    ensures
        model.after_update(regime, timestamp).current == regime,
        model.after_update(regime, timestamp).enabled == model.config.allowed(regime),
{
}

/// The caution of regimes tells them all apart.
pub proof fn caution_is_a_ranking(a: RegimeState, b: RegimeState)
    ensures
        caution(a) == caution(b) ==> a == b,
{
}

/// Whether the list names the strategy.
pub open spec fn listed(list: Seq<String>, name: Seq<char>) -> bool {
    exists|i: int| 0 <= i < list.len() && (#[trigger] list[i])@ == name
}

/// Each regime allows the strategies of its own list and no others.
pub proof fn each_regime_allows_its_own_list(config: RegimeOrchestrationConfig, name: Seq<char>)
    ensures
        config.allowed(RegimeState::Trending).contains(name) == listed(config.trending@, name),
        config.allowed(RegimeState::Rotational).contains(name) == listed(config.rotational@, name),
        config.allowed(RegimeState::Volatile).contains(name) == listed(config.volatile@, name),
        config.allowed(RegimeState::Unknown).contains(name) == listed(config.unknown@, name),
{
    lemma_listed(config.trending@, name);
    lemma_listed(config.rotational@, name);
    lemma_listed(config.volatile@, name);
    lemma_listed(config.unknown@, name);
}

proof fn lemma_listed(list: Seq<String>, name: Seq<char>)
    ensures
        strategy_names(list).to_set().contains(name) == listed(list, name),
{
    let names = strategy_names(list);
    if names.contains(name) {
        let i = names.index_of(name);
        assert(list[i]@ == name);
    }
    if listed(list, name) {
        let i = choose|i: int| 0 <= i < list.len() && (#[trigger] list[i])@ == name;
        assert(names[i] == name);
    }
}

/// A change that takes effect enables exactly the strategies that the settings
/// list for the new regime.
pub proof fn a_change_enables_the_list_of_its_regime(
    model: RegimeModel,
    regime: RegimeState,
    timestamp: UnixNanos,
    name: Seq<char>,
)
    requires
        regime != model.current,
        model.after_update(regime, timestamp).current == regime,
    ensures
        ({
            let enabled = model.after_update(regime, timestamp).enabled.contains(name);
            match regime {
                RegimeState::Trending => enabled == listed(model.config.trending@, name),
                RegimeState::Rotational => enabled == listed(model.config.rotational@, name),
                RegimeState::Volatile => enabled == listed(model.config.volatile@, name),
                RegimeState::Unknown => enabled == listed(model.config.unknown@, name),
            }
        }),
{
    each_regime_allows_its_own_list(model.config, name);
}

/// The cooldown lasts for the configured seconds after the last change that took
/// effect, or for as long as can be counted; without one there is none.
pub proof fn cooldown_lasts_for_its_seconds(model: RegimeModel, now: UnixNanos)
    ensures
        model.last_change is None || model.config.cooldown_period_secs == 0
            ==> !model.cooling_down(now),
        model.last_change matches Some(last) ==> {
            let end = last.nanos + model.config.cooldown_period_secs * 1_000_000_000;
            &&& model.config.cooldown_period_secs > 0 && now.nanos <= last.nanos
                ==> model.cooling_down(now)
            &&& model.config.cooldown_period_secs > 0 && now.nanos < end && now.nanos - last.nanos
                < u64::MAX ==> model.cooling_down(now)
            &&& now.nanos > last.nanos && now.nanos >= end ==> !model.cooling_down(now)
        },
{
}

/// Least is allowed where least is known: an unknown regime is the most cautious,
/// then a volatile one, then a rotational one, and a trend the least.
pub proof fn caution_grows_with_doubt(a: RegimeState, b: RegimeState)
    ensures
        a is Unknown && !(b is Unknown) ==> caution(a) > caution(b),
        a is Volatile && (b is Rotational || b is Trending) ==> caution(a) > caution(b),
        a is Rotational && b is Trending ==> caution(a) > caution(b),
        caution(a) == caution(b) <==> a == b,
        1 <= caution(a) <= 4,
{
}

/// What a report does, in full. The present regime again changes nothing. Another
/// one is journaled; outside the cooldown it takes effect, and within it is only
/// noted, unless the settings are cautious and it is the safer one: an unknown
/// regime before a volatile one before a rotational one before a trend.
pub proof fn reports_in_full(model: RegimeModel, regime: RegimeState, timestamp: UnixNanos)
    ensures
        ({
            let after = model.after_update(regime, timestamp);
            let safer = match regime {
                RegimeState::Unknown => true,
                RegimeState::Volatile => model.current is Rotational || model.current is Trending,
                RegimeState::Rotational => model.current is Trending,
                RegimeState::Trending => false,
            };
            let other = regime != model.current;
            let held = model.cooling_down(timestamp);
            &&& after.config == model.config
            &&& !other ==> after == model
            &&& other && !held ==> after.current == regime && after.last_change == Some(timestamp)
                && after.pending == model.pending
            &&& other && held ==> {
                &&& after.last_change == model.last_change
                &&& after.pending.len() == model.pending.len() + 1
                &&& after.pending.drop_last() == model.pending
                &&& after.pending.last().from == model.current
                &&& after.pending.last().to == regime
                &&& after.pending.last().timestamp == timestamp
                &&& after.current == (if model.config.conservative_on_oscillation && safer {
                    regime
                } else {
                    model.current
                })
                &&& after.current == model.current ==> after.enabled == model.enabled
            }
            &&& other && model.log is Some ==> {
                &&& after.log is Some
                &&& after.log->Some_0.channel == model.log->Some_0.channel
                &&& after.log->Some_0.offered == model.log->Some_0.offered.push(
                    EventModel::Regime {
                        timestamp,
                        from_regime: model.current.name(),
                        to_regime: regime.name(),
                    },
                )
            }
            &&& model.log is None ==> after.log is None
        }),
{
    let after = model.after_update(regime, timestamp);
    if regime != model.current && model.cooling_down(timestamp) {
        assert(after.pending.drop_last() =~= model.pending);
    }
}

} // verus!
