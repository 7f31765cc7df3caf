//! Comparing two captured replays.
//!
//! Prices and profits are whole numbers and have to agree exactly, and so do the
//! regimes. Signals are compared elsewhere, within a tolerance; their verdicts
//! join the report here.
use vstd::prelude::*;
use vstd::string::StringExecFns;

use super::orchestrator::ReplayResult;
use crate::arith::{
    clamp_i64, saturating_sub_i64, signed_reading, to_signed, to_unsigned, unsigned_reading,
};
use crate::text::{
    bool_text, dec_int, dec_nat, hex_text, push_bool, push_hex, push_i64, push_u64, str_eq,
};
use crate::types::{FixedPrice, RegimeState};

verus! {

/// So many mismatches of a kind are shown.
pub const SHOW_FIRST_N: usize = 5;

/// How two prices differ, in words.
pub open spec fn price_difference_text(a: int, b: int) -> Seq<char> {
    "Tier 1 mismatch: FixedPrice values differ\n  a.raw = "@ + dec_int(a) + " (0x"@ + hex_text(
        unsigned_reading(a) as nat,
        16,
    ) + ")\n  b.raw = "@ + dec_int(b) + " (0x"@ + hex_text(unsigned_reading(b) as nat, 16)
        + ")\n  diff  = "@ + dec_int(clamp_i64(a - b)) + " qt"@
}

/// Whether two prices are the same; if not, how they differ.
pub fn assert_fixed_price_identical(a: FixedPrice, b: FixedPrice) -> (r: Result<(), String>)
    ensures
        r is Ok <==> a == b,
        r matches Err(text) ==> text@ == price_difference_text(
            a.quarter_ticks as int,
            b.quarter_ticks as int,
        ),
{
    if a.raw() == b.raw() {
        return Ok(());
    }
    let mut out = "Tier 1 mismatch: FixedPrice values differ\n  a.raw = ".to_owned();
    push_i64(&mut out, a.raw());
    out.append(" (0x");
    push_hex(&mut out, to_unsigned(a.raw()), 16);
    out.append(")\n  b.raw = ");
    push_i64(&mut out, b.raw());
    out.append(" (0x");
    push_hex(&mut out, to_unsigned(b.raw()), 16);
    out.append(")\n  diff  = ");
    push_i64(&mut out, saturating_sub_i64(a.raw(), b.raw()));
    out.append(" qt");
    Err(out)
}

/// Whether two regimes are the same; if not, how they differ.
pub fn assert_regime_identical(a: &RegimeState, b: &RegimeState) -> (r: Result<(), String>)
    ensures
        r is Ok <==> *a == *b,
        r matches Err(text) ==> text@ == "Tier 3 mismatch: RegimeState differs\n  a = "@ + a.name()
            + "\n  b = "@ + b.name(),
{
    if *a == *b {
        return Ok(());
    }
    let mut out = "Tier 3 mismatch: RegimeState differs\n  a = ".to_owned();
    out.append(a.as_str());
    out.append("\n  b = ");
    out.append(b.as_str());
    Err(out)
}

/// Two numbers that should be the same.
#[derive(Debug, Clone, Copy, PartialEq, Eq, Structural)]
pub struct FixedPriceMismatch {
    /// Which of the compared numbers. The largest index stands for a count: the
    /// number of trades, of listed profits or of regimes. The one below it stands
    /// for the net profit.
    pub index: usize,
    pub expected_raw: i64,
    pub actual_raw: i64,
}

impl FixedPriceMismatch {
    pub fn diff_qt(&self) -> (r: i64)
        ensures
            r == clamp_i64(self.expected_raw - self.actual_raw),
    {
        saturating_sub_i64(self.expected_raw, self.actual_raw)
    }
}

/// Two regimes that should be the same.
#[derive(Debug, Clone, Copy, PartialEq, Eq, Structural)]
pub struct RegimeMismatch {
    pub index: usize,
    pub expected: RegimeState,
    pub actual: RegimeState,
}

/// A field of a signal snapshot that differs.
#[derive(Debug, Clone)]
pub struct SnapshotMismatch {
    pub snapshot_index: usize,
    pub signal: String,
    /// `name`, `valid`, `timestamp`, `value` or, of all snapshots, `count`.
    pub field: String,
    pub detail: String,
}

/// A snapshot mismatch as a mathematical value.
#[verifier::ext_equal]
pub struct SnapshotMismatchModel {
    pub snapshot_index: usize,
    pub signal: Seq<char>,
    pub field: Seq<char>,
    pub detail: Seq<char>,
}

impl View for SnapshotMismatch {
    type V = SnapshotMismatchModel;

    open spec fn view(&self) -> SnapshotMismatchModel {
        SnapshotMismatchModel {
            snapshot_index: self.snapshot_index,
            signal: self.signal@,
            field: self.field@,
            detail: self.detail@,
        }
    }
}

/// The mismatches as mathematical values.
pub open spec fn snapshot_models(list: Seq<SnapshotMismatch>) -> Seq<SnapshotMismatchModel> {
    list.map_values(|m: SnapshotMismatch| m@)
}

/// What a signal reported, apart from its value.
#[derive(Debug, Clone, PartialEq)]
pub struct SignalSnapshotSerde {
    pub name: String,
    pub valid: bool,
    pub timestamp_nanos: u64,
}

/// The three signals at one moment.
#[derive(Debug, Clone, PartialEq)]
pub struct PipelineSnapshotSerde {
    pub obi: SignalSnapshotSerde,
    pub vpin: SignalSnapshotSerde,
    pub microprice: SignalSnapshotSerde,
}

/// The mismatches between two reports of one signal. `value_detail` tells how the
/// values differ, where they do; signals of different names are not compared
/// further.
pub open spec fn signal_mismatches(
    a: SignalSnapshotSerde,
    b: SignalSnapshotSerde,
    snapshot_index: usize,
    value_detail: Option<Seq<char>>,
) -> Seq<SnapshotMismatchModel> {
    let found = |field: Seq<char>, detail: Seq<char>|
        seq![SnapshotMismatchModel { snapshot_index, signal: a.name@, field, detail }];
    if a.name@ != b.name@ {
        found("name"@, "a="@ + a.name@ + " vs b="@ + b.name@)
    } else {
        (if a.valid != b.valid {
            found("valid"@, "a="@ + bool_text(a.valid) + " vs b="@ + bool_text(b.valid))
        } else {
            Seq::empty()
        }) + (if a.timestamp_nanos != b.timestamp_nanos {
            found(
                "timestamp"@,
                "a="@ + dec_nat(a.timestamp_nanos as nat) + " vs b="@ + dec_nat(
                    b.timestamp_nanos as nat,
                ),
            )
        } else {
            Seq::empty()
        }) + (match value_detail {
            Some(detail) => found("value"@, detail),
            None => Seq::empty(),
        })
    }
}

/// The text of an optional detail.
pub open spec fn detail_text(detail: Option<String>) -> Option<Seq<char>> {
    match detail {
        Some(text) => Some(text@),
        None => None,
    }
}

fn add_snapshot_mismatch(
    out: &mut Vec<SnapshotMismatch>,
    snapshot_index: usize,
    signal: &String,
    field: &str,
    detail: String,
)
    ensures
        snapshot_models(final(out)@) == snapshot_models(old(out)@) + seq![SnapshotMismatchModel {
            snapshot_index,
            signal: signal@,
            field: field@,
            detail: detail@,
        }],
{
    out.push(
        SnapshotMismatch {
            snapshot_index,
            signal: signal.clone(),
            field: field.to_owned(),
            detail,
        },
    );
    assert(snapshot_models(out@) =~= snapshot_models(old(out)@) + seq![SnapshotMismatchModel {
        snapshot_index,
        signal: signal@,
        field: field@,
        detail: detail@,
    }]);
}

/// Compares two reports of one signal.
pub fn compare_signal(
    a: &SignalSnapshotSerde,
    b: &SignalSnapshotSerde,
    snapshot_index: usize,
    value_detail: Option<String>,
    out: &mut Vec<SnapshotMismatch>,
)
    ensures
        snapshot_models(final(out)@) == snapshot_models(old(out)@) + signal_mismatches(
            *a,
            *b,
            snapshot_index,
            detail_text(value_detail),
        ),
{
    let ghost start = snapshot_models(out@);
    let ghost target = start + signal_mismatches(
        *a,
        *b,
        snapshot_index,
        detail_text(value_detail),
    );
    if !str_eq(a.name.as_str(), b.name.as_str()) {
        let mut detail = "a=".to_owned();
        detail.append(a.name.as_str());
        detail.append(" vs b=");
        detail.append(b.name.as_str());
        add_snapshot_mismatch(out, snapshot_index, &a.name, "name", detail);
        assert(snapshot_models(out@) =~= target);
        return ;
    }
    if a.valid != b.valid {
        let mut detail = "a=".to_owned();
        push_bool(&mut detail, a.valid);
        detail.append(" vs b=");
        push_bool(&mut detail, b.valid);
        add_snapshot_mismatch(out, snapshot_index, &a.name, "valid", detail);
    }
    if a.timestamp_nanos != b.timestamp_nanos {
        let mut detail = "a=".to_owned();
        push_u64(&mut detail, a.timestamp_nanos);
        detail.append(" vs b=");
        push_u64(&mut detail, b.timestamp_nanos);
        add_snapshot_mismatch(out, snapshot_index, &a.name, "timestamp", detail);
    }
    if let Some(detail) = value_detail {
        add_snapshot_mismatch(out, snapshot_index, &a.name, "value", detail);
    }
    assert(snapshot_models(out@) =~= target);
}

/// Compares two snapshots signal by signal. The details tell how the values of
/// the signals differ, where they do.
pub fn compare_snapshot(
    a: &PipelineSnapshotSerde,
    b: &PipelineSnapshotSerde,
    snapshot_index: usize,
    obi_detail: Option<String>,
    vpin_detail: Option<String>,
    microprice_detail: Option<String>,
    out: &mut Vec<SnapshotMismatch>,
)
    ensures
        snapshot_models(final(out)@) == snapshot_models(old(out)@) + signal_mismatches(
            a.obi,
            b.obi,
            snapshot_index,
            detail_text(obi_detail),
        ) + signal_mismatches(a.vpin, b.vpin, snapshot_index, detail_text(vpin_detail))
            + signal_mismatches(
            a.microprice,
            b.microprice,
            snapshot_index,
            detail_text(microprice_detail),
        ),
{
    compare_signal(&a.obi, &b.obi, snapshot_index, obi_detail, out);
    compare_signal(&a.vpin, &b.vpin, snapshot_index, vpin_detail, out);
    compare_signal(&a.microprice, &b.microprice, snapshot_index, microprice_detail, out);
}

/// Holds the numbers of snapshots of two replays against each other, where both
/// have any.
pub fn compare_snapshot_counts(a: usize, b: usize, out: &mut Vec<SnapshotMismatch>)
    ensures
        snapshot_models(final(out)@) == snapshot_models(old(out)@) + (if a != b && a > 0 && b > 0 {
            seq![SnapshotMismatchModel {
                snapshot_index: usize::MAX,
                signal: "snapshots"@,
                field: "count"@,
                detail: "a="@ + dec_nat(a as nat) + " vs b="@ + dec_nat(b as nat),
            }]
        } else {
            Seq::empty()
        }),
{
    if a != b && a > 0 && b > 0 {
        let mut detail = "a=".to_owned();
        push_u64(&mut detail, a as u64);
        detail.append(" vs b=");
        push_u64(&mut detail, b as u64);
        let signal = "snapshots".to_owned();
        add_snapshot_mismatch(out, usize::MAX, &signal, "count", detail);
    } else {
        assert(snapshot_models(out@) =~= snapshot_models(old(out)@) + Seq::empty());
    }
}

/// Everything in which two captured replays differ.
#[derive(Debug, Clone)]
pub struct DeterminismReport {
    /// Prices and profits.
    pub tier1_mismatches: Vec<FixedPriceMismatch>,
    /// How many signal values.
    pub tier2_count: usize,
    /// Regimes.
    pub tier3_mismatches: Vec<RegimeMismatch>,
    pub snapshot_mismatches: Vec<SnapshotMismatch>,
    pub is_deterministic: bool,
}

impl Default for DeterminismReport {
    fn default() -> (r: Self)
        ensures
            r.total() == 0,
            !r.is_deterministic,
    {
        DeterminismReport::new()
    }
}

impl DeterminismReport {
    /// An empty report that has not been judged.
    pub fn new() -> (r: Self)
        ensures
            r.tier1_mismatches@.len() == 0,
            r.tier2_count == 0,
            r.tier3_mismatches@.len() == 0,
            r.snapshot_mismatches@.len() == 0,
            !r.is_deterministic,
    {
        DeterminismReport {
            tier1_mismatches: Vec::new(),
            tier2_count: 0,
            tier3_mismatches: Vec::new(),
            snapshot_mismatches: Vec::new(),
            is_deterministic: false,
        }
    }

    pub open spec fn total(&self) -> nat {
        (self.tier1_mismatches@.len() + self.tier2_count + self.tier3_mismatches@.len()
            + self.snapshot_mismatches@.len()) as nat
    }

    /// How many mismatches there are.
    pub fn total_mismatches(&self) -> (r: usize)
        requires
            self.total() <= usize::MAX,
        ensures
            r == self.total(),
    {
        self.tier1_mismatches.len() + self.tier2_count + self.tier3_mismatches.len()
            + self.snapshot_mismatches.len()
    }

    /// Judges the report: deterministic where it holds no mismatch.
    pub fn finalize(&mut self)
        requires
            old(self).total() <= usize::MAX,
        ensures
            *final(self) == (DeterminismReport {
                is_deterministic: old(self).total() == 0,
                ..*old(self)
            }),
    {
        self.is_deterministic = self.total_mismatches() == 0;
    }
}

// ---------------------------------------------------------------------------
// Comparison
// ---------------------------------------------------------------------------

/// The mismatches among the first `n` pairs of profits.
pub open spec fn pnl_mismatches(a: Seq<i64>, b: Seq<i64>, n: nat) -> Seq<FixedPriceMismatch>
    decreases n,
{
    if n == 0 {
        Seq::empty()
    } else {
        let earlier = pnl_mismatches(a, b, (n - 1) as nat);
        if a[n - 1] != b[n - 1] {
            earlier.push(
                FixedPriceMismatch {
                    index: (n - 1) as usize,
                    expected_raw: a[n - 1],
                    actual_raw: b[n - 1],
                },
            )
        } else {
            earlier
        }
    }
}

/// The mismatches among the first `n` pairs of regimes.
pub open spec fn regime_mismatches(a: Seq<RegimeState>, b: Seq<RegimeState>, n: nat) -> Seq<
    RegimeMismatch,
>
    decreases n,
{
    if n == 0 {
        Seq::empty()
    } else {
        let earlier = regime_mismatches(a, b, (n - 1) as nat);
        if a[n - 1] != b[n - 1] {
            earlier.push(
                RegimeMismatch { index: (n - 1) as usize, expected: a[n - 1], actual: b[n - 1] },
            )
        } else {
            earlier
        }
    }
}

pub open spec fn shorter(a: nat, b: nat) -> nat {
    if a < b {
        a
    } else {
        b
    }
}

/// The mismatch between two counts, if they differ.
pub open spec fn count_mismatch(a: nat, b: nat) -> Seq<FixedPriceMismatch> {
    if a != b {
        seq![FixedPriceMismatch {
            index: usize::MAX,
            expected_raw: signed_reading(a as int) as i64,
            actual_raw: signed_reading(b as int) as i64,
        }]
    } else {
        Seq::empty()
    }
}

/// The differing totals and lengths of two replays. Where the numbers of trades
/// differ, the numbers of listed profits are not held against each other too.
pub open spec fn total_mismatches_of(a: ReplayResult, b: ReplayResult) -> Seq<FixedPriceMismatch> {
    (if a.total_trades != b.total_trades {
        count_mismatch(a.total_trades as nat, b.total_trades as nat)
    } else {
        count_mismatch(a.trade_pnls_qt@.len(), b.trade_pnls_qt@.len())
    }) + count_mismatch(a.regime_states@.len(), b.regime_states@.len()) + (if a.net_pnl_qt != b.net_pnl_qt {
        seq![FixedPriceMismatch {
            index: (usize::MAX - 1) as usize,
            expected_raw: a.net_pnl_qt,
            actual_raw: b.net_pnl_qt,
        }]
    } else {
        Seq::empty()
    })
}

/// All differing whole numbers of two replays: the totals and lengths, then the
/// profits of the pairs as far as both have them.
pub open spec fn tier1_of(a: ReplayResult, b: ReplayResult) -> Seq<FixedPriceMismatch> {
    total_mismatches_of(a, b) + pnl_mismatches(
        a.trade_pnls_qt@,
        b.trade_pnls_qt@,
        shorter(a.trade_pnls_qt@.len(), b.trade_pnls_qt@.len()),
    )
}

/// All differing regimes of two replays, as far as both have them.
pub open spec fn tier3_of(a: ReplayResult, b: ReplayResult) -> Seq<RegimeMismatch> {
    regime_mismatches(
        a.regime_states@,
        b.regime_states@,
        shorter(a.regime_states@.len(), b.regime_states@.len()),
    )
}

fn compare_counts(a: u64, b: u64, out: &mut Vec<FixedPriceMismatch>)
    ensures
        final(out)@ == old(out)@ + count_mismatch(a as nat, b as nat),
{
    if a != b {
        out.push(
            FixedPriceMismatch {
                index: usize::MAX,
                expected_raw: to_signed(a),
                actual_raw: to_signed(b),
            },
        );
    }
    assert(out@ =~= old(out)@ + count_mismatch(a as nat, b as nat));
}

fn compare_numbers(a: &ReplayResult, b: &ReplayResult) -> (r: Vec<FixedPriceMismatch>)
    ensures
        r@ == tier1_of(*a, *b),
{
    let mut out: Vec<FixedPriceMismatch> = Vec::new();
    if a.total_trades != b.total_trades {
        compare_counts(a.total_trades, b.total_trades, &mut out);
    } else {
        compare_counts(a.trade_pnls_qt.len() as u64, b.trade_pnls_qt.len() as u64, &mut out);
    }
    compare_counts(a.regime_states.len() as u64, b.regime_states.len() as u64, &mut out);
    if a.net_pnl_qt != b.net_pnl_qt {
        out.push(
            FixedPriceMismatch {
                index: usize::MAX - 1,
                expected_raw: a.net_pnl_qt,
                actual_raw: b.net_pnl_qt,
            },
        );
    }
    let ghost totals = total_mismatches_of(*a, *b);
    assert(out@ =~= totals);
    let n: usize = if a.trade_pnls_qt.len() < b.trade_pnls_qt.len() {
        a.trade_pnls_qt.len()
    } else {
        b.trade_pnls_qt.len()
    };
    let mut i: usize = 0;
    assert(out@ =~= totals + pnl_mismatches(a.trade_pnls_qt@, b.trade_pnls_qt@, 0));
    while i < n
        invariant
            i <= n,
            n == shorter(a.trade_pnls_qt@.len(), b.trade_pnls_qt@.len()),
            out@ == totals + pnl_mismatches(a.trade_pnls_qt@, b.trade_pnls_qt@, i as nat),
        decreases n - i,
    {
        if a.trade_pnls_qt[i] != b.trade_pnls_qt[i] {
            out.push(
                FixedPriceMismatch {
                    index: i,
                    expected_raw: a.trade_pnls_qt[i],
                    actual_raw: b.trade_pnls_qt[i],
                },
            );
        }
        assert(out@ =~= totals + pnl_mismatches(a.trade_pnls_qt@, b.trade_pnls_qt@, (i + 1) as nat));
        i += 1;
    }
    out
}

fn compare_regimes(a: &ReplayResult, b: &ReplayResult) -> (r: Vec<RegimeMismatch>)
    ensures
        r@ == tier3_of(*a, *b),
{
    let mut out: Vec<RegimeMismatch> = Vec::new();
    let n: usize = if a.regime_states.len() < b.regime_states.len() {
        a.regime_states.len()
    } else {
        b.regime_states.len()
    };
    let mut i: usize = 0;
    while i < n
        invariant
            i <= n,
            n == shorter(a.regime_states@.len(), b.regime_states@.len()),
            out@ == regime_mismatches(a.regime_states@, b.regime_states@, i as nat),
        decreases n - i,
    {
        if a.regime_states[i] != b.regime_states[i] {
            out.push(
                RegimeMismatch {
                    index: i,
                    expected: a.regime_states[i],
                    actual: b.regime_states[i],
                },
            );
        }
        i += 1;
    }
    out
}

proof fn lemma_mismatch_counts(a: ReplayResult, b: ReplayResult, n: nat)
    ensures
        pnl_mismatches(a.trade_pnls_qt@, b.trade_pnls_qt@, n).len() <= n,
        regime_mismatches(a.regime_states@, b.regime_states@, n).len() <= n,
    decreases n,
{
    if n > 0 {
        lemma_mismatch_counts(a, b, (n - 1) as nat);
    }
}

impl ReplayResult {
    /// Compares two captured replays. The verdicts on the signals are handed in:
    /// how many of their values differ, and in which fields their snapshots do.
    pub fn compare_with_signals(
        &self,
        other: &ReplayResult,
        tier2_count: usize,
        snapshot_mismatches: Vec<SnapshotMismatch>,
    ) -> (r: DeterminismReport)
        requires
            self.trade_pnls_qt@.len() + self.regime_states@.len() + tier2_count
                + snapshot_mismatches@.len() + 3 <= usize::MAX,
        ensures
            r.tier1_mismatches@ == tier1_of(*self, *other),
            r.tier2_count == tier2_count,
            r.tier3_mismatches@ == tier3_of(*self, *other),
            r.snapshot_mismatches == snapshot_mismatches,
            r.is_deterministic == (r.total() == 0),
            r.is_deterministic <==> agree(*self, *other) && tier2_count == 0
                && snapshot_mismatches@.len() == 0,
    {
        proof {
            no_mismatch_means_agreement(*self, *other);
            lemma_mismatch_counts(
                *self,
                *other,
                shorter(self.trade_pnls_qt@.len(), other.trade_pnls_qt@.len()),
            );
            lemma_mismatch_counts(
                *self,
                *other,
                shorter(self.regime_states@.len(), other.regime_states@.len()),
            );
        }
        let mut report = DeterminismReport {
            tier1_mismatches: compare_numbers(self, other),
            tier2_count,
            tier3_mismatches: compare_regimes(self, other),
            snapshot_mismatches,
            is_deterministic: false,
        };
        report.finalize();
        report
    }

    /// Compares the whole numbers and the regimes of two captured replays. They
    /// are deterministic exactly where they agree.
    pub fn compare(&self, other: &ReplayResult) -> (r: DeterminismReport)
        requires
            self.trade_pnls_qt@.len() + self.regime_states@.len() + 3 <= usize::MAX,
        ensures
            r.tier1_mismatches@ == tier1_of(*self, *other),
            r.tier2_count == 0,
            r.tier3_mismatches@ == tier3_of(*self, *other),
            r.snapshot_mismatches@.len() == 0,
            r.is_deterministic == (r.total() == 0),
            r.is_deterministic <==> agree(*self, *other),
    {
        self.compare_with_signals(other, 0, Vec::new())
    }
}

/// Two replays with the same totals, the same profits and the same regimes.
pub open spec fn agree(a: ReplayResult, b: ReplayResult) -> bool {
    &&& a.total_trades == b.total_trades
    &&& a.net_pnl_qt == b.net_pnl_qt
    &&& a.trade_pnls_qt@ == b.trade_pnls_qt@
    &&& a.regime_states@ == b.regime_states@
}

/// Two replays have no mismatch exactly where they agree on their totals, on all
/// profits and on all regimes; one profit or regime more is a mismatch.
pub proof fn no_mismatch_means_agreement(a: ReplayResult, b: ReplayResult)
    ensures
        tier1_of(a, b).len() == 0 && tier3_of(a, b).len() == 0 <==> agree(a, b),
{
    lemma_agreement(
        a,
        b,
        shorter(a.trade_pnls_qt@.len(), b.trade_pnls_qt@.len()),
        shorter(a.regime_states@.len(), b.regime_states@.len()),
    );
    if tier1_of(a, b).len() == 0 && tier3_of(a, b).len() == 0 {
        assert(a.trade_pnls_qt@ =~= b.trade_pnls_qt@);
        assert(a.regime_states@ =~= b.regime_states@);
    }
}

proof fn lemma_agreement(a: ReplayResult, b: ReplayResult, n: nat, m: nat)
    ensures
        pnl_mismatches(a.trade_pnls_qt@, b.trade_pnls_qt@, n).len() == 0 <==> (forall|i: int|
            0 <= i < n ==> #[trigger] a.trade_pnls_qt@[i] == b.trade_pnls_qt@[i]),
        regime_mismatches(a.regime_states@, b.regime_states@, m).len() == 0 <==> (forall|i: int|
            0 <= i < m ==> #[trigger] a.regime_states@[i] == b.regime_states@[i]),
    decreases n + m,
{
    if n > 0 {
        lemma_agreement(a, b, (n - 1) as nat, m);
    } else if m > 0 {
        lemma_agreement(a, b, n, (m - 1) as nat);
    }
}

/// A replay agrees with itself.
pub proof fn replay_agrees_with_itself(a: ReplayResult)
    ensures
        tier1_of(a, a).len() == 0,
        tier3_of(a, a).len() == 0,
{
    no_mismatch_means_agreement(a, a);
}

// ---------------------------------------------------------------------------
// Text
// ---------------------------------------------------------------------------

/// The head of a section, its lines and how many more there are.
pub open spec fn section_text(title: Seq<char>, count: nat, lines: Seq<char>) -> Seq<char> {
    title + dec_nat(count) + "\n"@ + lines + (if count > SHOW_FIRST_N {
        "    ... +"@ + dec_nat((count - SHOW_FIRST_N) as nat) + " more\n"@
    } else {
        Seq::empty()
    })
}

pub open spec fn number_line(m: FixedPriceMismatch) -> Seq<char> {
    "    ["@ + dec_nat(m.index as nat) + "] expected="@ + dec_int(m.expected_raw as int)
        + " actual="@ + dec_int(m.actual_raw as int) + " (diff="@ + dec_int(
        clamp_i64(m.expected_raw - m.actual_raw),
    ) + " qt)\n"@
}

pub open spec fn number_lines(list: Seq<FixedPriceMismatch>) -> Seq<char>
    decreases list.len(),
{
    if list.len() == 0 {
        Seq::empty()
    } else {
        number_lines(list.drop_last()) + number_line(list.last())
    }
}

pub open spec fn given_lines(list: Seq<String>) -> Seq<char>
    decreases list.len(),
{
    if list.len() == 0 {
        Seq::empty()
    } else {
        given_lines(list.drop_last()) + ("    "@ + list.last()@ + "\n"@)
    }
}

pub open spec fn regime_line(m: RegimeMismatch) -> Seq<char> {
    "    ["@ + dec_nat(m.index as nat) + "] expected="@ + m.expected.name() + " actual="@
        + m.actual.name() + "\n"@
}

pub open spec fn regime_lines(list: Seq<RegimeMismatch>) -> Seq<char>
    decreases list.len(),
{
    if list.len() == 0 {
        Seq::empty()
    } else {
        regime_lines(list.drop_last()) + regime_line(list.last())
    }
}

pub open spec fn snapshot_line(m: SnapshotMismatchModel) -> Seq<char> {
    "    ["@ + dec_nat(m.snapshot_index as nat) + "] "@ + m.signal + "."@ + m.field + ": "@
        + m.detail + "\n"@
}

pub open spec fn snapshot_lines(list: Seq<SnapshotMismatch>) -> Seq<char>
    decreases list.len(),
{
    if list.len() == 0 {
        Seq::empty()
    } else {
        snapshot_lines(list.drop_last()) + snapshot_line(list.last()@)
    }
}

/// The first few of a list.
pub open spec fn first_few<T>(list: Seq<T>) -> Seq<T> {
    list.take(shorter(list.len(), SHOW_FIRST_N as nat) as int)
}

/// The report in words.
pub open spec fn report_text(report: DeterminismReport, tier2_lines: Seq<String>) -> Seq<char> {
    if report.is_deterministic {
        "DeterminismReport: deterministic ✓ (no mismatches)"@
    } else {
        "DeterminismReport: non-deterministic ("@ + dec_nat(report.total()) + " mismatches)\n"@
            + section_text(
            "  Tier 1 (fixed-point):   "@,
            report.tier1_mismatches@.len(),
            number_lines(first_few(report.tier1_mismatches@)),
        ) + section_text(
            "  Tier 2 (signals @ ε):    "@,
            report.tier2_count as nat,
            given_lines(first_few(tier2_lines)),
        ) + section_text(
            "  Tier 3 (regime):         "@,
            report.tier3_mismatches@.len(),
            regime_lines(first_few(report.tier3_mismatches@)),
        ) + section_text(
            "  Snapshots (signals):    "@,
            report.snapshot_mismatches@.len(),
            snapshot_lines(first_few(report.snapshot_mismatches@)),
        )
    }
}

fn shown(count: usize) -> (r: usize)
    ensures
        r == shorter(count as nat, SHOW_FIRST_N as nat),
{
    if count < SHOW_FIRST_N {
        count
    } else {
        SHOW_FIRST_N
    }
}

fn push_more(out: &mut String, count: usize)
    ensures
        final(out)@ == old(out)@ + (if count > SHOW_FIRST_N {
            "    ... +"@ + dec_nat((count - SHOW_FIRST_N) as nat) + " more\n"@
        } else {
            Seq::empty()
        }),
{
    if count > SHOW_FIRST_N {
        out.append("    ... +");
        push_u64(out, (count - SHOW_FIRST_N) as u64);
        out.append(" more\n");
        assert(out@ =~= old(out)@ + ("    ... +"@ + dec_nat((count - SHOW_FIRST_N) as nat)
            + " more\n"@));
    } else {
        assert(out@ =~= old(out)@ + Seq::<char>::empty());
    }
}

fn push_number_line(out: &mut String, m: &FixedPriceMismatch)
    ensures
        final(out)@ == old(out)@ + number_line(*m),
{
    out.append("    [");
    push_u64(out, m.index as u64);
    out.append("] expected=");
    push_i64(out, m.expected_raw);
    out.append(" actual=");
    push_i64(out, m.actual_raw);
    out.append(" (diff=");
    push_i64(out, m.diff_qt());
    out.append(" qt)\n");
    assert(out@ =~= old(out)@ + number_line(*m));
}

fn push_numbers(out: &mut String, list: &Vec<FixedPriceMismatch>)
    ensures
        final(out)@ == old(out)@ + section_text(
            "  Tier 1 (fixed-point):   "@,
            list@.len(),
            number_lines(first_few(list@)),
        ),
{
    out.append("  Tier 1 (fixed-point):   ");
    push_u64(out, list.len() as u64);
    out.append("\n");
    let ghost head = out@;
    let n: usize = shown(list.len());
    let mut i: usize = 0;
    proof {
        assert(list@.take(0) =~= Seq::<FixedPriceMismatch>::empty());
        assert(out@ =~= head + number_lines(list@.take(0)));
    }
    while i < n
        invariant
            i <= n <= list@.len(),
            out@ == head + number_lines(list@.take(i as int)),
        decreases n - i,
    {
        push_number_line(out, &list[i]);
        proof {
            assert(list@.take(i + 1).drop_last() =~= list@.take(i as int));
            assert(list@.take(i + 1).last() == list@[i as int]);
            assert(out@ =~= head + number_lines(list@.take(i + 1)));
        }
        i += 1;
    }
    push_more(out, list.len());
    assert(out@ =~= old(out)@ + section_text(
        "  Tier 1 (fixed-point):   "@,
        list@.len(),
        number_lines(first_few(list@)),
    ));
}

fn push_given(out: &mut String, count: usize, list: &Vec<String>)
    ensures
        final(out)@ == old(out)@ + section_text(
            "  Tier 2 (signals @ ε):    "@,
            count as nat,
            given_lines(first_few(list@)),
        ),
{
    out.append("  Tier 2 (signals @ ε):    ");
    push_u64(out, count as u64);
    out.append("\n");
    let ghost head = out@;
    let n: usize = shown(list.len());
    let mut i: usize = 0;
    proof {
        assert(list@.take(0) =~= Seq::<String>::empty());
        assert(out@ =~= head + given_lines(list@.take(0)));
    }
    while i < n
        invariant
            i <= n <= list@.len(),
            out@ == head + given_lines(list@.take(i as int)),
        decreases n - i,
    {
        out.append("    ");
        out.append(list[i].as_str());
        out.append("\n");
        proof {
            assert(list@.take(i + 1).drop_last() =~= list@.take(i as int));
            assert(list@.take(i + 1).last() == list@[i as int]);
            assert(out@ =~= head + given_lines(list@.take(i + 1)));
        }
        i += 1;
    }
    push_more(out, count);
    assert(out@ =~= old(out)@ + section_text(
        "  Tier 2 (signals @ ε):    "@,
        count as nat,
        given_lines(first_few(list@)),
    ));
}

fn push_regime_line(out: &mut String, m: &RegimeMismatch)
    ensures
        final(out)@ == old(out)@ + regime_line(*m),
{
    out.append("    [");
    push_u64(out, m.index as u64);
    out.append("] expected=");
    out.append(m.expected.as_str());
    out.append(" actual=");
    out.append(m.actual.as_str());
    out.append("\n");
    assert(out@ =~= old(out)@ + regime_line(*m));
}

fn push_regimes(out: &mut String, list: &Vec<RegimeMismatch>)
    ensures
        final(out)@ == old(out)@ + section_text(
            "  Tier 3 (regime):         "@,
            list@.len(),
            regime_lines(first_few(list@)),
        ),
{
    out.append("  Tier 3 (regime):         ");
    push_u64(out, list.len() as u64);
    out.append("\n");
    let ghost head = out@;
    let n: usize = shown(list.len());
    let mut i: usize = 0;
    proof {
        assert(list@.take(0) =~= Seq::<RegimeMismatch>::empty());
        assert(out@ =~= head + regime_lines(list@.take(0)));
    }
    while i < n
        invariant
            i <= n <= list@.len(),
            out@ == head + regime_lines(list@.take(i as int)),
        decreases n - i,
    {
        push_regime_line(out, &list[i]);
        proof {
            assert(list@.take(i + 1).drop_last() =~= list@.take(i as int));
            assert(list@.take(i + 1).last() == list@[i as int]);
            assert(out@ =~= head + regime_lines(list@.take(i + 1)));
        }
        i += 1;
    }
    push_more(out, list.len());
    assert(out@ =~= old(out)@ + section_text(
        "  Tier 3 (regime):         "@,
        list@.len(),
        regime_lines(first_few(list@)),
    ));
}

fn push_snapshot_line(out: &mut String, m: &SnapshotMismatch)
    ensures
        final(out)@ == old(out)@ + snapshot_line(m@),
{
    out.append("    [");
    push_u64(out, m.snapshot_index as u64);
    out.append("] ");
    out.append(m.signal.as_str());
    out.append(".");
    out.append(m.field.as_str());
    out.append(": ");
    out.append(m.detail.as_str());
    out.append("\n");
    assert(out@ =~= old(out)@ + snapshot_line(m@));
}

fn push_snapshots(out: &mut String, list: &Vec<SnapshotMismatch>)
    ensures
        final(out)@ == old(out)@ + section_text(
            "  Snapshots (signals):    "@,
            list@.len(),
            snapshot_lines(first_few(list@)),
        ),
{
    out.append("  Snapshots (signals):    ");
    push_u64(out, list.len() as u64);
    out.append("\n");
    let ghost head = out@;
    let n: usize = shown(list.len());
    let mut i: usize = 0;
    proof {
        assert(list@.take(0) =~= Seq::<SnapshotMismatch>::empty());
        assert(out@ =~= head + snapshot_lines(list@.take(0)));
    }
    while i < n
        invariant
            i <= n <= list@.len(),
            out@ == head + snapshot_lines(list@.take(i as int)),
        decreases n - i,
    {
        push_snapshot_line(out, &list[i]);
        proof {
            assert(list@.take(i + 1).drop_last() =~= list@.take(i as int));
            assert(list@.take(i + 1).last() == list@[i as int]);
            assert(out@ =~= head + snapshot_lines(list@.take(i + 1)));
        }
        i += 1;
    }
    push_more(out, list.len());
    assert(out@ =~= old(out)@ + section_text(
        "  Snapshots (signals):    "@,
        list@.len(),
        snapshot_lines(first_few(list@)),
    ));
}

impl DeterminismReport {
    /// The report in words, with the first few mismatches of each kind. The lines
    /// on signal values are handed in.
    pub fn describe(&self, tier2_lines: &Vec<String>) -> (r: String)
        requires
            self.total() <= usize::MAX,
        ensures
            r@ == report_text(*self, tier2_lines@),
    {
        if self.is_deterministic {
            return "DeterminismReport: deterministic ✓ (no mismatches)".to_owned();
        }
        let mut out = "DeterminismReport: non-deterministic (".to_owned();
        push_u64(&mut out, self.total_mismatches() as u64);
        out.append(" mismatches)\n");
        push_numbers(&mut out, &self.tier1_mismatches);
        push_given(&mut out, self.tier2_count, tier2_lines);
        push_regimes(&mut out, &self.tier3_mismatches);
        push_snapshots(&mut out, &self.snapshot_mismatches);
        out
    }
}

/// Whether a list names a place.
pub open spec fn lists_profit(list: Seq<FixedPriceMismatch>, place: int) -> bool {
    exists|k: int| 0 <= k < list.len() && (#[trigger] list[k]).index == place
}

/// The listed profits are exactly those that differ: each once, in order, under its
/// own place, with the profit of the first replay as what was expected.
pub proof fn differing_profits_are_listed(a: Seq<i64>, b: Seq<i64>, n: nat)
    requires
        n <= a.len(),
        n <= b.len(),
        n <= usize::MAX,
    ensures
        ({
            let list = pnl_mismatches(a, b, n);
            &&& forall|k: int|
                0 <= k < list.len() ==> (#[trigger] list[k]).index < n && a[list[k].index as int]
                    != b[list[k].index as int] && list[k].expected_raw == a[list[k].index as int]
                    && list[k].actual_raw == b[list[k].index as int]
            &&& forall|j: int, k: int|
                0 <= j < k < list.len() ==> (#[trigger] list[j]).index < (#[trigger] list[k]).index
            &&& forall|i: int|
                0 <= i < n && a[i] != b[i] ==> #[trigger] lists_profit(list, i)
        }),
    decreases n,
{
    if n > 0 {
        let m = (n - 1) as nat;
        differing_profits_are_listed(a, b, m);
        let earlier = pnl_mismatches(a, b, m);
        let list = pnl_mismatches(a, b, n);
        assert forall|i: int| 0 <= i < n && a[i] != b[i] implies #[trigger] lists_profit(list, i) by {
            if i < m {
                assert(lists_profit(earlier, i));
                let k = choose|k: int| 0 <= k < earlier.len() && (#[trigger] earlier[k]).index == i;
                assert(list[k] == earlier[k]);
            } else {
                assert(list[list.len() - 1].index == i);
            }
        }
    }
}

/// Whether a list names a place.
pub open spec fn lists_regime(list: Seq<RegimeMismatch>, place: int) -> bool {
    exists|k: int| 0 <= k < list.len() && (#[trigger] list[k]).index == place
}

/// The listed regimes are exactly those that differ: each once, in order, under its
/// own place, with the regime of the first replay as what was expected.
pub proof fn differing_regimes_are_listed(a: Seq<RegimeState>, b: Seq<RegimeState>, n: nat)
    requires
        n <= a.len(),
        n <= b.len(),
        n <= usize::MAX,
    ensures
        ({
            let list = regime_mismatches(a, b, n);
            &&& forall|k: int|
                0 <= k < list.len() ==> (#[trigger] list[k]).index < n && a[list[k].index as int]
                    != b[list[k].index as int] && list[k].expected == a[list[k].index as int]
                    && list[k].actual == b[list[k].index as int]
            &&& forall|j: int, k: int|
                0 <= j < k < list.len() ==> (#[trigger] list[j]).index < (#[trigger] list[k]).index
            &&& forall|i: int|
                0 <= i < n && a[i] != b[i] ==> #[trigger] lists_regime(list, i)
        }),
    decreases n,
{
    if n > 0 {
        let m = (n - 1) as nat;
        differing_regimes_are_listed(a, b, m);
        let earlier = regime_mismatches(a, b, m);
        let list = regime_mismatches(a, b, n);
        assert forall|i: int| 0 <= i < n && a[i] != b[i] implies #[trigger] lists_regime(list, i) by {
            if i < m {
                assert(lists_regime(earlier, i));
                let k = choose|k: int| 0 <= k < earlier.len() && (#[trigger] earlier[k]).index == i;
                assert(list[k] == earlier[k]);
            } else {
                assert(list[list.len() - 1].index == i);
            }
        }
    }
}

/// Two counts that differ are listed once, under the last place there is, as they
/// are; equal ones are not.
pub proof fn differing_counts_are_listed(a: nat, b: nat)
    ensures
        a == b ==> count_mismatch(a, b).len() == 0,
        a != b ==> count_mismatch(a, b).len() == 1 && count_mismatch(a, b)[0].index == usize::MAX,
        a != b && a <= i64::MAX && b <= i64::MAX ==> count_mismatch(a, b)[0].expected_raw == a
            && count_mismatch(a, b)[0].actual_raw == b,
{
}

/// The totals of two replays are compared before their lists: the number of trades,
/// or where that agrees the number of listed profits; the number of regimes; and the
/// net, under the place before the last.
pub proof fn totals_are_compared_first(a: ReplayResult, b: ReplayResult)
    ensures
        ({
            let found = total_mismatches_of(a, b);
            let trades = a.total_trades != b.total_trades || a.trade_pnls_qt@.len()
                != b.trade_pnls_qt@.len();
            let regimes = a.regime_states@.len() != b.regime_states@.len();
            let net = a.net_pnl_qt != b.net_pnl_qt;
            let places = (if trades {
                1int
            } else {
                0
            }) + (if regimes {
                1int
            } else {
                0
            }) + (if net {
                1int
            } else {
                0
            });
            &&& found.len() == places
            &&& trades ==> found[0].index == usize::MAX
            &&& a.total_trades != b.total_trades && a.total_trades <= i64::MAX && b.total_trades
                <= i64::MAX ==> found[0].expected_raw == a.total_trades && found[0].actual_raw
                == b.total_trades
            &&& net ==> found.last().index == usize::MAX - 1 && found.last().expected_raw
                == a.net_pnl_qt && found.last().actual_raw == b.net_pnl_qt
            &&& found.len() <= tier1_of(a, b).len()
            &&& tier1_of(a, b).take(found.len() as int) == found
        }),
{
    let found = total_mismatches_of(a, b);
    assert(tier1_of(a, b).take(found.len() as int) =~= found);
}

/// Of two lists the shorter decides how far they are compared.
pub proof fn the_shorter_list_decides(a: nat, b: nat)
    ensures
        shorter(a, b) <= a,
        shorter(a, b) <= b,
        shorter(a, b) == a || shorter(a, b) == b,
{
}

/// Two reports of a signal under different names differ in the name alone; under one
/// name they differ in each of validity, time and value that is not the same, and
/// each such field is listed once, under the signal and the snapshot.
pub proof fn differing_signals_are_listed(
    a: SignalSnapshotSerde,
    b: SignalSnapshotSerde,
    snapshot_index: usize,
    value_detail: Option<Seq<char>>,
)
    ensures
        ({
            let list = signal_mismatches(a, b, snapshot_index, value_detail);
            let same = a.name@ == b.name@;
            let valid: int = if a.valid != b.valid {
                1
            } else {
                0
            };
            let time: int = if a.timestamp_nanos != b.timestamp_nanos {
                1
            } else {
                0
            };
            let value: int = if value_detail is Some {
                1
            } else {
                0
            };
            &&& !same ==> list.len() == 1 && list[0].field == "name"@
            &&& same ==> list.len() == valid + time + value
            &&& same && a.valid != b.valid ==> list[0].field == "valid"@
            &&& same && a.timestamp_nanos != b.timestamp_nanos ==> list[valid].field
                == "timestamp"@
            &&& same && value_detail is Some ==> list[valid + time].field == "value"@ && list[valid
                + time].detail == value_detail->Some_0
            &&& forall|k: int|
                0 <= k < list.len() ==> (#[trigger] list[k]).snapshot_index == snapshot_index
                    && list[k].signal == a.name@
        }),
{
}

/// Of every list the first five are shown.
pub proof fn five_are_shown<T>(list: Seq<T>)
    ensures
        list.len() <= 5 ==> first_few(list) == list,
        list.len() > 5 ==> first_few(list).len() == 5,
        forall|i: int| 0 <= i < first_few(list).len() ==> first_few(list)[i] == list[i],
{
    if list.len() <= 5 {
        assert(first_few(list) =~= list);
    }
}

/// The mismatches of a report are those of its four lists.
pub proof fn reports_count_four_lists(report: DeterminismReport)
    ensures
        report.total() == report.tier1_mismatches@.len() + report.tier2_count
            + report.tier3_mismatches@.len() + report.snapshot_mismatches@.len(),
{
}

/// A number that differs is shown with its place, both values, and by how much the
/// expected one is above the other.
pub proof fn numbers_are_shown_with_their_difference(m: FixedPriceMismatch)
    requires
        i64::MIN <= m.expected_raw - m.actual_raw <= i64::MAX,
    ensures
        number_line(m) == "    ["@ + dec_nat(m.index as nat) + "] expected="@ + dec_int(
            m.expected_raw as int,
        ) + " actual="@ + dec_int(m.actual_raw as int) + " (diff="@ + dec_int(
            m.expected_raw - m.actual_raw,
        ) + " qt)\n"@,
{
}

/// A regime that differs is shown with its place and both names.
pub proof fn regimes_are_shown_by_name(m: RegimeMismatch)
    ensures
        regime_line(m) == "    ["@ + dec_nat(m.index as nat) + "] expected="@ + m.expected.name()
            + " actual="@ + m.actual.name() + "\n"@,
{
}

/// Every mismatch that is shown has a line of its own, in their order.
pub proof fn mismatches_have_their_lines(
    numbers: Seq<FixedPriceMismatch>,
    number: FixedPriceMismatch,
    regimes: Seq<RegimeMismatch>,
    regime: RegimeMismatch,
    signals: Seq<String>,
    signal: String,
    snapshots: Seq<SnapshotMismatch>,
    snapshot: SnapshotMismatch,
)
    ensures
        number_lines(Seq::empty()).len() == 0,
        number_lines(numbers.push(number)) == number_lines(numbers) + number_line(number),
        regime_lines(Seq::empty()).len() == 0,
        regime_lines(regimes.push(regime)) == regime_lines(regimes) + regime_line(regime),
        given_lines(Seq::empty()).len() == 0,
        given_lines(signals.push(signal)) == given_lines(signals) + ("    "@ + signal@ + "\n"@),
        snapshot_lines(Seq::empty()).len() == 0,
        snapshot_lines(snapshots.push(snapshot)) == snapshot_lines(snapshots) + (("    ["@
            + dec_nat(snapshot.snapshot_index as nat) + "] "@ + snapshot.signal@ + "."@
            + snapshot.field@ + ": "@ + snapshot.detail@) + "\n"@),
{
    assert(numbers.push(number).drop_last() =~= numbers);
    assert(regimes.push(regime).drop_last() =~= regimes);
    assert(signals.push(signal).drop_last() =~= signals);
    assert(snapshots.push(snapshot).drop_last() =~= snapshots);
}

/// A section of a report gives the number of its mismatches, then the lines shown,
/// and says how many more there are where not all are shown.
pub proof fn sections_say_what_they_leave_out(title: Seq<char>, count: nat, lines: Seq<char>)
    ensures
        count <= 5 ==> section_text(title, count, lines) == title + dec_nat(count) + "\n"@ + lines,
        count > 5 ==> section_text(title, count, lines) == title + dec_nat(count) + "\n"@ + lines + (
        "    ... +"@ + dec_nat((count - 5) as nat) + " more\n"@),
{
    if count <= 5 {
        assert(section_text(title, count, lines) =~= title + dec_nat(count) + "\n"@ + lines);
    }
}

} // verus!
