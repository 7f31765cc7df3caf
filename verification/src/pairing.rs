//! First-in first-out pairing of fills into round trips, and the statistics over
//! their profits.
//!
//! A fill closes the oldest open legs on the other side, and what is left of it
//! opens a leg of its own.
use vstd::prelude::*;

use crate::arith::{
    clamp_i64, saturating_add_i64, saturating_mul_i64, saturating_sub_i64, saturating_sum,
};
use crate::types::Side;

verus! {

/// What is left of a fill that opened a position.
#[derive(Debug, Clone, Copy, PartialEq, Eq, Structural)]
pub struct OpenLeg {
    pub side: Side,
    pub qty: u32,
    pub price_qt: i64,
}

/// The profit of closing `qty` of a leg at a price.
pub open spec fn leg_pnl(leg: OpenLeg, exit: int, qty: int) -> int {
    match leg.side {
        Side::Buy => clamp_i64(clamp_i64(exit - leg.price_qt) * qty),
        Side::Sell => clamp_i64(clamp_i64(leg.price_qt - exit) * qty),
    }
}

/// Open legs, what is left of the closing fill, and the profits made.
pub struct Closing {
    pub legs: Seq<OpenLeg>,
    pub rest: int,
    pub pnls: Seq<int>,
}

/// Closes the oldest legs on the other side against `rest` contracts.
pub open spec fn close_legs(legs: Seq<OpenLeg>, side: Side, price: int, rest: int) -> Closing
    decreases legs.len(),
{
    if rest <= 0 || legs.len() == 0 || legs[0].side == side {
        Closing { legs, rest, pnls: Seq::empty() }
    } else if legs[0].qty <= rest {
        let after = close_legs(legs.drop_first(), side, price, rest - legs[0].qty);
        Closing {
            pnls: seq![leg_pnl(legs[0], price, legs[0].qty as int)] + after.pnls,
            ..after
        }
    } else {
        Closing {
            legs: legs.update(0, OpenLeg { qty: (legs[0].qty - rest) as u32, ..legs[0] }),
            rest: 0,
            pnls: seq![leg_pnl(legs[0], price, rest)],
        }
    }
}

/// The legs after a fill of `size` contracts.
pub open spec fn legs_after(legs: Seq<OpenLeg>, side: Side, price: i64, size: u32) -> Seq<OpenLeg> {
    let closing = close_legs(legs, side, price as int, size as int);
    if closing.rest > 0 {
        closing.legs.push(OpenLeg { side, qty: closing.rest as u32, price_qt: price })
    } else {
        closing.legs
    }
}

/// How many profits are positive.
pub open spec fn win_total(pnls: Seq<int>) -> nat
    decreases pnls.len(),
{
    if pnls.len() == 0 {
        0
    } else {
        win_total(pnls.drop_last()) + if pnls.last() > 0 {
            1nat
        } else {
            0
        }
    }
}

/// How many profits are negative.
pub open spec fn loss_total(pnls: Seq<int>) -> nat
    decreases pnls.len(),
{
    if pnls.len() == 0 {
        0
    } else {
        loss_total(pnls.drop_last()) + if pnls.last() < 0 {
            1nat
        } else {
            0
        }
    }
}

/// The highest point, from zero on, that the running profit reached.
pub open spec fn equity_peak(pnls: Seq<int>) -> int
    decreases pnls.len(),
{
    if pnls.len() == 0 {
        0
    } else {
        let earlier = equity_peak(pnls.drop_last());
        if saturating_sum(pnls) > earlier {
            saturating_sum(pnls)
        } else {
            earlier
        }
    }
}

/// The deepest fall of the running profit below its highest point so far.
pub open spec fn deepest_drawdown(pnls: Seq<int>) -> int
    decreases pnls.len(),
{
    if pnls.len() == 0 {
        0
    } else {
        let earlier = deepest_drawdown(pnls.drop_last());
        let now = clamp_i64(equity_peak(pnls) - saturating_sum(pnls));
        if now > earlier {
            now
        } else {
            earlier
        }
    }
}

/// How many losses in a row stand at the end.
pub open spec fn losing_tail(pnls: Seq<int>) -> nat
    decreases pnls.len(),
{
    if pnls.len() == 0 || pnls.last() >= 0 {
        0
    } else {
        losing_tail(pnls.drop_last()) + 1
    }
}

/// The longest row of losses.
pub open spec fn longest_losing_run(pnls: Seq<int>) -> nat
    decreases pnls.len(),
{
    if pnls.len() == 0 {
        0
    } else {
        let earlier = longest_losing_run(pnls.drop_last());
        if losing_tail(pnls) > earlier {
            losing_tail(pnls)
        } else {
            earlier
        }
    }
}

/// The sum of the profits on one side of zero.
pub open spec fn gross(pnls: Seq<int>, winning: bool) -> int
    decreases pnls.len(),
{
    if pnls.len() == 0 {
        0
    } else {
        let earlier = gross(pnls.drop_last(), winning);
        if (winning && pnls.last() > 0) || (!winning && pnls.last() < 0) {
            clamp_i64(earlier + pnls.last())
        } else {
            earlier
        }
    }
}

/// The numbers as integers of any size.
pub open spec fn ints(values: Seq<i64>) -> Seq<int> {
    values.map_values(|v: i64| v as int)
}

proof fn lemma_stats_push(pnls: Seq<int>, next: int)
    ensures
        saturating_sum(pnls.push(next)) == clamp_i64(saturating_sum(pnls) + next),
        win_total(pnls.push(next)) == win_total(pnls) + if next > 0 {
            1nat
        } else {
            0
        },
        loss_total(pnls.push(next)) == loss_total(pnls) + if next < 0 {
            1nat
        } else {
            0
        },
        win_total(pnls.push(next)) + loss_total(pnls.push(next)) <= win_total(pnls) + loss_total(
            pnls,
        ) + 1,
{
    assert(pnls.push(next).drop_last() =~= pnls);
}

/// Running totals over the pairs closed so far.
pub struct PairLedger {
    cum_pnl: i64,
    peak: i64,
    max_dd: i64,
    wins: u64,
    losses: u64,
    per_trade: Vec<i64>,
}

impl View for PairLedger {
    type V = Seq<int>;

    /// The profits of the pairs, in the order in which they were closed.
    closed spec fn view(&self) -> Seq<int> {
        ints(self.per_trade@)
    }
}

impl PairLedger {
    /// The totals are those of the profits.
    pub closed spec fn sound(&self) -> bool {
        &&& self.cum_pnl == saturating_sum(self@)
        &&& self.peak == equity_peak(self@)
        &&& self.max_dd == deepest_drawdown(self@)
        &&& self.wins == win_total(self@)
        &&& self.losses == loss_total(self@)
        &&& self.wins + self.losses <= self.per_trade@.len()
    }

    pub fn new() -> (r: Self)
        ensures
            r.sound(),
            r@ == Seq::<int>::empty(),
    {
        let r = PairLedger {
            cum_pnl: 0,
            peak: 0,
            max_dd: 0,
            wins: 0,
            losses: 0,
            per_trade: Vec::new(),
        };
        assert(r@ =~= Seq::<int>::empty());
        r
    }

    fn add_pair(&mut self, pnl: i64)
        requires
            old(self).sound(),
        ensures
            final(self).sound(),
            final(self)@ == old(self)@.push(pnl as int),
    {
        self.per_trade.push(pnl);
        proof {
            assert(self@ =~= old(self)@.push(pnl as int));
            lemma_stats_push(old(self)@, pnl as int);
            assert(self@.drop_last() =~= old(self)@);
        }
        let count: usize = self.per_trade.len();
        self.cum_pnl = saturating_add_i64(self.cum_pnl, pnl);
        if pnl > 0 {
            self.wins = self.wins + 1;
        } else if pnl < 0 {
            self.losses = self.losses + 1;
        }
        if self.cum_pnl > self.peak {
            self.peak = self.cum_pnl;
        }
        let drawdown: i64 = saturating_sub_i64(self.peak, self.cum_pnl);
        if drawdown > self.max_dd {
            self.max_dd = drawdown;
        }
    }

    /// Applies a fill to the open legs of its symbol and books the pairs that it
    /// closes.
    pub fn apply(&mut self, legs: &mut Vec<OpenLeg>, side: Side, price: i64, size: u32)
        requires
            old(self).sound(),
        ensures
            final(self).sound(),
            final(legs)@ == legs_after(old(legs)@, side, price, size),
            final(self)@ == old(self)@ + close_legs(
                old(legs)@,
                side,
                price as int,
                size as int,
            ).pnls,
    {
        let ghost start = legs@;
        let ghost before = self@;
        let ghost whole = close_legs(start, side, price as int, size as int);
        let mut remaining: u32 = size;
        while remaining > 0 && legs.len() > 0 && legs[0].side != side
            invariant
                self.sound(),
                ({
                    let rest = close_legs(legs@, side, price as int, remaining as int);
                    &&& whole.legs == rest.legs
                    &&& whole.rest == rest.rest
                    &&& before + whole.pnls == self@ + rest.pnls
                }),
            decreases legs@.len(), remaining,
        {
            let ghost legs_before = legs@;
            let ghost rest_before = close_legs(legs@, side, price as int, remaining as int);
            let ghost pnls_before = self@;
            let leg = legs[0];
            let close_qty: u32 = if remaining < leg.qty {
                remaining
            } else {
                leg.qty
            };
            let per_contract: i64 = match leg.side {
                Side::Buy => saturating_sub_i64(price, leg.price_qt),
                Side::Sell => saturating_sub_i64(leg.price_qt, price),
            };
            let pnl: i64 = saturating_mul_i64(per_contract, close_qty as i64);
            assert(pnl == leg_pnl(leg, price as int, close_qty as int));
            self.add_pair(pnl);
            remaining = remaining - close_qty;
            if leg.qty == close_qty {
                let _ = legs.remove(0);
                proof {
                    assert(legs@ =~= legs_before.drop_first());
                    let rest = close_legs(legs@, side, price as int, remaining as int);
                    assert(rest_before.pnls =~= seq![pnl as int] + rest.pnls);
                    assert(pnls_before + rest_before.pnls =~= self@ + rest.pnls);
                }
            } else {
                legs.set(
                    0,
                    OpenLeg { side: leg.side, qty: leg.qty - close_qty, price_qt: leg.price_qt },
                );
                proof {
                    let rest = close_legs(legs@, side, price as int, remaining as int);
                    assert(rest_before.pnls =~= seq![pnl as int]);
                    assert(rest.pnls =~= Seq::<int>::empty());
                    assert(pnls_before + rest_before.pnls =~= self@ + rest.pnls);
                    assert(legs@ =~= rest_before.legs);
                }
            }
        }
        proof {
            let rest = close_legs(legs@, side, price as int, remaining as int);
            assert(rest.pnls =~= Seq::<int>::empty());
            assert(self@ + rest.pnls =~= self@);
        }
        if remaining > 0 {
            legs.push(OpenLeg { side, qty: remaining, price_qt: price });
        }
    }

    pub fn net_pnl(&self) -> (r: i64)
        requires
            self.sound(),
        ensures
            r == saturating_sum(self@),
    {
        self.cum_pnl
    }

    pub fn wins(&self) -> (r: u64)
        requires
            self.sound(),
        ensures
            r == win_total(self@),
    {
        self.wins
    }

    pub fn losses(&self) -> (r: u64)
        requires
            self.sound(),
        ensures
            r == loss_total(self@),
    {
        self.losses
    }

    pub fn max_drawdown(&self) -> (r: i64)
        requires
            self.sound(),
        ensures
            r == deepest_drawdown(self@),
    {
        self.max_dd
    }

    /// How many pairs were closed.
    pub fn pairs(&self) -> (r: usize)
        ensures
            r == self@.len(),
    {
        self.per_trade.len()
    }

    /// A copy of the profit of each pair.
    pub fn pnls(&self) -> (r: Vec<i64>)
        ensures
            ints(r@) == self@,
    {
        let mut out: Vec<i64> = Vec::new();
        let mut i: usize = 0;
        while i < self.per_trade.len()
            invariant
                i <= self.per_trade@.len(),
                out@ == self.per_trade@.take(i as int),
            decreases self.per_trade@.len() - i,
        {
            out.push(self.per_trade[i]);
            assert(out@ =~= self.per_trade@.take(i + 1));
            i += 1;
        }
        assert(out@ =~= self.per_trade@);
        out
    }

    /// The profit of each pair.
    pub fn into_pnls(self) -> (r: Vec<i64>)
        ensures
            ints(r@) == self@,
    {
        self.per_trade
    }
}

/// The signed number of contracts that the legs hold.
pub open spec fn open_contracts(legs: Seq<OpenLeg>) -> int
    decreases legs.len(),
{
    if legs.len() == 0 {
        0
    } else {
        open_contracts(legs.drop_first()) + legs[0].side.direction() * legs[0].qty
    }
}

/// All legs stand on one side and none is empty.
pub open spec fn one_sided(legs: Seq<OpenLeg>) -> bool {
    &&& forall|i: int| 0 <= i < legs.len() ==> (#[trigger] legs[i]).qty > 0
    &&& forall|i: int, j: int|
        0 <= i < legs.len() && 0 <= j < legs.len() ==> (#[trigger] legs[i]).side == (
        #[trigger] legs[j]).side
}

proof fn lemma_open_contracts_push(legs: Seq<OpenLeg>, leg: OpenLeg)
    ensures
        open_contracts(legs.push(leg)) == open_contracts(legs) + leg.side.direction() * leg.qty,
    decreases legs.len(),
{
    if legs.len() > 0 {
        assert(legs.push(leg).drop_first() =~= legs.drop_first().push(leg));
        lemma_open_contracts_push(legs.drop_first(), leg);
    } else {
        assert(legs.push(leg).drop_first() =~= legs);
    }
}

proof fn lemma_close_conserves(legs: Seq<OpenLeg>, side: Side, price: int, rest: int)
    requires
        one_sided(legs),
        0 <= rest,
    ensures
        ({
            let closing = close_legs(legs, side, price, rest);
            &&& one_sided(closing.legs)
            &&& 0 <= closing.rest <= rest
            &&& closing.rest > 0 ==> closing.legs.len() == 0 || closing.legs[0].side == side
            &&& open_contracts(closing.legs) + side.direction() * closing.rest == open_contracts(
                legs,
            ) + side.direction() * rest
        }),
    decreases legs.len(),
{
    if rest > 0 && legs.len() > 0 && legs[0].side != side {
        let d = side.direction();
        let q = legs[0].qty as int;
        assert(legs[0].side.direction() == -d);
        assert(d * (rest - q) == d * rest - d * q && -d * q == -(d * q) && -d * (q - rest) == d
            * rest - d * q && d * 0 == 0) by (nonlinear_arith);
        if legs[0].qty <= rest {
            lemma_close_conserves(legs.drop_first(), side, price, rest - legs[0].qty);
        } else {
            let cut = legs.update(0, OpenLeg { qty: (legs[0].qty - rest) as u32, ..legs[0] });
            assert(cut.drop_first() =~= legs.drop_first());
        }
    }
}

/// Pairing loses no contract: after a fill, the open legs hold as many as before
/// plus those of the fill, counted by side; and they all stand on one side.
pub proof fn pairing_conserves_contracts(
    legs: Seq<OpenLeg>,
    side: Side,
    price: i64,
    size: u32,
)
    requires
        one_sided(legs),
    ensures
        one_sided(legs_after(legs, side, price, size)),
        open_contracts(legs_after(legs, side, price, size)) == open_contracts(legs)
            + side.direction() * size,
{
    lemma_close_conserves(legs, side, price as int, size as int);
    let closing = close_legs(legs, side, price as int, size as int);
    if closing.rest > 0 {
        lemma_open_contracts_push(
            closing.legs,
            OpenLeg { side, qty: closing.rest as u32, price_qt: price },
        );
    }
}

/// A drawdown is never negative, and the peak is never below the running profit
/// nor below zero.
pub proof fn drawdown_is_nonnegative(pnls: Seq<int>)
    ensures
        deepest_drawdown(pnls) >= 0,
        equity_peak(pnls) >= 0,
        equity_peak(pnls) >= saturating_sum(pnls),
        pnls.len() > 0 ==> deepest_drawdown(pnls) >= clamp_i64(
            equity_peak(pnls) - saturating_sum(pnls),
        ),
    decreases pnls.len(),
{
    if pnls.len() > 0 {
        drawdown_is_nonnegative(pnls.drop_last());
    }
}

/// Wins, losses and break-even pairs together are all pairs; the longest losing
/// run is no longer than the number of losses.
pub proof fn decided_pairs_are_pairs(pnls: Seq<int>)
    ensures
        win_total(pnls) + loss_total(pnls) <= pnls.len(),
        losing_tail(pnls) <= loss_total(pnls),
        longest_losing_run(pnls) <= loss_total(pnls),
        gross(pnls, false) <= 0 <= gross(pnls, true),
    decreases pnls.len(),
{
    if pnls.len() > 0 {
        decided_pairs_are_pairs(pnls.drop_last());
    }
}

/// Whether every profit from `from` up to, not including, `to` is a loss.
pub open spec fn only_losses(pnls: Seq<int>, from: int, to: int) -> bool {
    forall|k: int| from <= k < to ==> #[trigger] pnls[k] < 0
}

proof fn lemma_losing_tail(pnls: Seq<int>)
    ensures
        losing_tail(pnls) <= pnls.len(),
        only_losses(pnls, pnls.len() - losing_tail(pnls), pnls.len() as int),
        losing_tail(pnls) < pnls.len() ==> pnls[pnls.len() - losing_tail(pnls) - 1] >= 0,
    decreases pnls.len(),
{
    if pnls.len() > 0 && pnls.last() < 0 {
        let fewer = pnls.drop_last();
        lemma_losing_tail(fewer);
        assert forall|k: int| pnls.len() - losing_tail(pnls) <= k < pnls.len() implies
            #[trigger] pnls[k] < 0 by {
            if k < pnls.len() - 1 {
                assert(fewer[k] == pnls[k]);
            }
        }
    }
}

/// The losses in a row at the end are all the losses after the last profit that is
/// none: a win or a break-even ends the row.
pub proof fn losing_tail_ends_at_a_win(pnls: Seq<int>)
    ensures
        losing_tail(pnls) <= pnls.len(),
        only_losses(pnls, pnls.len() - losing_tail(pnls), pnls.len() as int),
        losing_tail(pnls) < pnls.len() ==> pnls[pnls.len() - losing_tail(pnls) - 1] >= 0,
        pnls.len() > 0 && pnls.last() >= 0 ==> losing_tail(pnls) == 0,
{
    lemma_losing_tail(pnls);
}

/// The longest row of losses is the length of a block of adjacent losses, and no
/// block of adjacent losses is longer.
pub proof fn longest_losing_run_is_a_longest_block(pnls: Seq<int>)
    ensures
        exists|from: int|
            0 <= from && from + longest_losing_run(pnls) <= pnls.len() && #[trigger] only_losses(
                pnls,
                from,
                from + longest_losing_run(pnls),
            ),
        forall|from: int, to: int|
            0 <= from <= to <= pnls.len() && #[trigger] only_losses(pnls, from, to) ==> to - from
                <= longest_losing_run(pnls),
    decreases pnls.len(),
{
    lemma_losing_tail(pnls);
    if pnls.len() == 0 {
        assert(only_losses(pnls, 0, 0int + longest_losing_run(pnls)));
    } else {
        let fewer = pnls.drop_last();
        longest_losing_run_is_a_longest_block(fewer);
        let n = longest_losing_run(pnls) as int;
        if losing_tail(pnls) == n {
            let from = pnls.len() - n;
            assert(only_losses(pnls, from, from + longest_losing_run(pnls)));
        } else {
            let from = choose|from: int|
                0 <= from && from + longest_losing_run(fewer) <= fewer.len()
                    && #[trigger] only_losses(fewer, from, from + longest_losing_run(fewer));
            assert forall|k: int| from <= k < from + n implies #[trigger] pnls[k] < 0 by {
                assert(fewer[k] == pnls[k]);
            }
            assert(only_losses(pnls, from, from + longest_losing_run(pnls)));
        }
        assert forall|from: int, to: int|
            0 <= from <= to <= pnls.len() && #[trigger] only_losses(pnls, from, to) implies to
            - from <= n by {
            if to < pnls.len() {
                assert forall|k: int| from <= k < to implies #[trigger] fewer[k] < 0 by {
                    assert(fewer[k] == pnls[k]);
                }
                assert(only_losses(fewer, from, to));
            } else if from < to {
                let tail = losing_tail(pnls) as int;
                if from < pnls.len() - tail {
                    assert(pnls[pnls.len() - tail - 1] < 0);
                }
            }
        }
    }
}

/// Wins are the profits above zero and losses those below, each counted once.
pub proof fn wins_and_losses_are_counted(pnls: Seq<int>)
    ensures
        win_total(pnls) == pnls.filter(|p: int| p > 0).len(),
        loss_total(pnls) == pnls.filter(|p: int| p < 0).len(),
        pnls.len() == win_total(pnls) + loss_total(pnls) + pnls.filter(|p: int| p == 0).len(),
    decreases pnls.len(),
{
    reveal(Seq::filter);
    if pnls.len() > 0 {
        wins_and_losses_are_counted(pnls.drop_last());
    }
}

/// The gross profit adds up the wins and nothing else, the gross loss the losses
/// and nothing else.
pub proof fn gross_adds_up_one_side(pnls: Seq<int>)
    ensures
        gross(pnls, true) == saturating_sum(pnls.filter(|p: int| p > 0)),
        gross(pnls, false) == saturating_sum(pnls.filter(|p: int| p < 0)),
    decreases pnls.len(),
{
    reveal(Seq::filter);
    if pnls.len() > 0 {
        let fewer = pnls.drop_last();
        gross_adds_up_one_side(fewer);
        let last = pnls.last();
        let wins = fewer.filter(|p: int| p > 0);
        let losses = fewer.filter(|p: int| p < 0);
        assert(wins.push(last).drop_last() =~= wins);
        assert(losses.push(last).drop_last() =~= losses);
    }
}

proof fn lemma_peak(pnls: Seq<int>)
    ensures
        equity_peak(pnls) >= 0,
        equity_peak(pnls) == 0 || exists|i: int|
            0 <= i <= pnls.len() && equity_peak(pnls) == #[trigger] saturating_sum(pnls.take(i)),
        forall|i: int|
            0 <= i <= pnls.len() ==> #[trigger] saturating_sum(pnls.take(i)) <= equity_peak(pnls),
    decreases pnls.len(),
{
    assert(pnls.take(pnls.len() as int) =~= pnls);
    if pnls.len() > 0 {
        let fewer = pnls.drop_last();
        lemma_peak(fewer);
        assert forall|i: int| 0 <= i <= pnls.len() implies #[trigger] saturating_sum(pnls.take(i))
            <= equity_peak(pnls) by {
            if i < pnls.len() {
                assert(pnls.take(i) =~= fewer.take(i));
            }
        }
        if equity_peak(pnls) == saturating_sum(pnls) {
            assert(equity_peak(pnls) == saturating_sum(pnls.take(pnls.len() as int)));
        } else if equity_peak(fewer) != 0 {
            let i = choose|i: int|
                0 <= i <= fewer.len() && equity_peak(fewer) == #[trigger] saturating_sum(
                    fewer.take(i),
                );
            assert(pnls.take(i) =~= fewer.take(i));
            assert(equity_peak(pnls) == saturating_sum(pnls.take(i)));
        }
    } else {
        assert forall|i: int| 0 <= i <= pnls.len() implies #[trigger] saturating_sum(pnls.take(i))
            <= equity_peak(pnls) by {
            assert(pnls.take(i) =~= pnls);
        }
    }
}

/// The fall of the running profit from after `i` pairs to after `j` pairs, as far
/// as that can be held.
pub open spec fn fall(pnls: Seq<int>, i: int, j: int) -> int {
    let way = saturating_sum(pnls.take(i)) - saturating_sum(pnls.take(j));
    if way > i64::MAX {
        i64::MAX as int
    } else {
        way
    }
}

/// The drawdown is the deepest fall of the running profit from any earlier point,
/// the start included, to any later one: no fall is deeper, and one is as deep.
pub proof fn drawdown_is_the_deepest_fall(pnls: Seq<int>)
    ensures
        forall|i: int, j: int|
            0 <= i <= j <= pnls.len() ==> #[trigger] fall(pnls, i, j) <= deepest_drawdown(pnls),
        exists|i: int, j: int|
            0 <= i <= j <= pnls.len() && #[trigger] fall(pnls, i, j) == deepest_drawdown(pnls),
    decreases pnls.len(),
{
    lemma_peak(pnls);
    lemma_sums_are_small(pnls);
    let n = pnls.len() as int;
    assert(pnls.take(n) =~= pnls);
    assert(pnls.take(0) =~= Seq::<int>::empty());
    if n == 0 {
        assert(fall(pnls, 0, 0) == deepest_drawdown(pnls));
    } else {
        let fewer = pnls.drop_last();
        drawdown_is_the_deepest_fall(fewer);
        assert forall|i: int, j: int| 0 <= i <= j < n implies fall(pnls, i, j) == #[trigger] fall(
            fewer,
            i,
            j,
        ) by {
            assert(pnls.take(i) =~= fewer.take(i));
            assert(pnls.take(j) =~= fewer.take(j));
        }
        assert forall|i: int, j: int| 0 <= i <= j <= n implies #[trigger] fall(pnls, i, j)
            <= deepest_drawdown(pnls) by {
            if j < n {
                assert(fall(fewer, i, j) <= deepest_drawdown(fewer));
            } else {
                assert(saturating_sum(pnls.take(i)) <= equity_peak(pnls));
            }
        }
        let now = clamp_i64(equity_peak(pnls) - saturating_sum(pnls));
        if deepest_drawdown(pnls) == now {
            if equity_peak(pnls) == 0 {
                assert(saturating_sum(pnls.take(0)) == 0);
                assert(fall(pnls, 0, n) == now);
            } else {
                let i = choose|i: int|
                    0 <= i <= n && equity_peak(pnls) == #[trigger] saturating_sum(pnls.take(i));
                assert(fall(pnls, i, n) == now);
            }
        } else {
            let (i, j) = choose|i: int, j: int|
                0 <= i <= j <= fewer.len() && #[trigger] fall(fewer, i, j) == deepest_drawdown(
                    fewer,
                );
            assert(fall(pnls, i, j) == fall(fewer, i, j));
        }
    }
}

proof fn lemma_sums_are_small(pnls: Seq<int>)
    ensures
        i64::MIN <= saturating_sum(pnls) <= i64::MAX,
{
}

/// A closed contract brings the way from its opening to its closing price, counted
/// up for a bought leg and down for a sold one, as long as nothing is clamped.
pub proof fn leg_profit_is_exact(leg: OpenLeg, exit: i64, qty: u32)
    requires
        i64::MIN <= exit - leg.price_qt <= i64::MAX,
        i64::MIN <= leg.price_qt - exit <= i64::MAX,
        i64::MIN <= (exit - leg.price_qt) * qty <= i64::MAX,
        i64::MIN <= (leg.price_qt - exit) * qty <= i64::MAX,
    ensures
        leg.side is Buy ==> leg_pnl(leg, exit as int, qty as int) == (exit - leg.price_qt) * qty,
        leg.side is Sell ==> leg_pnl(leg, exit as int, qty as int) == (leg.price_qt - exit) * qty,
{
}

/// The oldest legs on the other side are closed first. Every profit belongs to the
/// leg in its place, closed in full but for the last one; what is left of the legs
/// are the later ones as they were, the first of them perhaps smaller.
pub proof fn oldest_legs_are_closed_first(legs: Seq<OpenLeg>, side: Side, price: i64, size: u32)
    requires
        one_sided(legs),
    ensures
        ({
            let closing = close_legs(legs, side, price as int, size as int);
            let n = closing.pnls.len() as int;
            let gone = legs.len() - closing.legs.len();
            &&& legs.len() > 0 && legs[0].side != side && size > 0 ==> n > 0
            &&& legs.len() == 0 || legs[0].side == side ==> n == 0 && closing.legs == legs
                && closing.rest == size
            &&& 0 <= gone <= n <= gone + 1
            &&& n <= legs.len()
            &&& forall|i: int|
                0 <= i < gone ==> #[trigger] closing.pnls[i] == leg_pnl(
                    legs[i],
                    price as int,
                    legs[i].qty as int,
                )
            &&& forall|i: int|
                0 <= i < closing.legs.len() ==> (#[trigger] closing.legs[i]).side == legs[gone
                    + i].side && closing.legs[i].price_qt == legs[gone + i].price_qt && (i > 0
                    || n == gone ==> closing.legs[i] == legs[gone + i])
            &&& n == gone + 1 ==> closing.rest == 0 && closing.legs.len() > 0
                && closing.legs[0].qty < legs[gone].qty && closing.pnls[n - 1] == leg_pnl(
                legs[gone],
                price as int,
                legs[gone].qty - closing.legs[0].qty,
            )
        }),
{
    lemma_oldest_first(legs, side, price as int, size as int);
}

proof fn lemma_oldest_first(legs: Seq<OpenLeg>, side: Side, price: int, rest: int)
    requires
        one_sided(legs),
        0 <= rest,
    ensures
        ({
            let closing = close_legs(legs, side, price, rest);
            let n = closing.pnls.len() as int;
            let gone = legs.len() - closing.legs.len();
            &&& legs.len() > 0 && legs[0].side != side && rest > 0 ==> n > 0
            &&& legs.len() == 0 || legs[0].side == side ==> n == 0 && closing.legs == legs
                && closing.rest == rest
            &&& 0 <= gone <= n <= gone + 1
            &&& n <= legs.len()
            &&& forall|i: int|
                0 <= i < gone ==> #[trigger] closing.pnls[i] == leg_pnl(
                    legs[i],
                    price,
                    legs[i].qty as int,
                )
            &&& forall|i: int|
                0 <= i < closing.legs.len() ==> (#[trigger] closing.legs[i]).side == legs[gone
                    + i].side && closing.legs[i].price_qt == legs[gone + i].price_qt && (i > 0
                    || n == gone ==> closing.legs[i] == legs[gone + i])
            &&& n == gone + 1 ==> closing.rest == 0 && closing.legs.len() > 0
                && closing.legs[0].qty < legs[gone].qty && closing.pnls[n - 1] == leg_pnl(
                legs[gone],
                price,
                legs[gone].qty - closing.legs[0].qty,
            )
        }),
    decreases legs.len(),
{
    if rest > 0 && legs.len() > 0 && legs[0].side != side && legs[0].qty <= rest {
        let later = legs.drop_first();
        let left = rest - legs[0].qty;
        lemma_oldest_first(later, side, price, left);
        let inner = close_legs(later, side, price, left);
        let closing = close_legs(legs, side, price, rest);
        let gone = legs.len() - closing.legs.len();
        assert(closing.legs == inner.legs);
        assert forall|i: int| 0 <= i < gone implies #[trigger] closing.pnls[i] == leg_pnl(
            legs[i],
            price,
            legs[i].qty as int,
        ) by {
            if i > 0 {
                assert(closing.pnls[i] == inner.pnls[i - 1]);
                assert(later[i - 1] == legs[i]);
            }
        }
        if inner.pnls.len() > 0 {
            assert(closing.pnls[closing.pnls.len() - 1] == inner.pnls[inner.pnls.len() - 1]);
        }
    }
}

/// What a fill does not close opens a leg at its own side and price, behind those
/// that are left.
pub proof fn the_rest_of_a_fill_opens_a_leg(
    legs: Seq<OpenLeg>,
    side: Side,
    price: i64,
    size: u32,
)
    requires
        one_sided(legs),
        open_contracts(legs) == 0 || (legs.len() > 0 && legs[0].side == side),
        size > 0,
    ensures
        legs_after(legs, side, price, size) == legs.push(
            OpenLeg { side, qty: size, price_qt: price },
        ),
{
    if legs.len() > 0 && legs[0].side != side {
        lemma_contracts_of_one_side(legs);
    }
}

proof fn lemma_contracts_of_one_side(legs: Seq<OpenLeg>)
    requires
        one_sided(legs),
        legs.len() > 0,
    ensures
        legs[0].side is Buy ==> open_contracts(legs) > 0,
        legs[0].side is Sell ==> open_contracts(legs) < 0,
    decreases legs.len(),
{
    let later = legs.drop_first();
    let q = legs[0].qty as int;
    assert(1 * q == q && -1 * q == -q);
    match legs[0].side {
        Side::Buy => {
            assert(legs[0].side.direction() == 1);
        },
        Side::Sell => {
            assert(legs[0].side.direction() == -1);
        },
    }
    if later.len() > 0 {
        assert(later[0] == legs[1]);
        lemma_contracts_of_one_side(later);
    } else {
        assert(open_contracts(later) == 0);
    }
}

/// The figures drawn from profits fit the books, whatever the profits are.
pub proof fn figures_fit(pnls: Seq<int>)
    ensures
        i64::MIN <= saturating_sum(pnls) <= i64::MAX,
        i64::MIN <= gross(pnls, true) <= i64::MAX,
        i64::MIN <= gross(pnls, false) <= i64::MAX,
        0 <= deepest_drawdown(pnls) <= i64::MAX,
    decreases pnls.len(),
{
    if pnls.len() > 0 {
        figures_fit(pnls.drop_last());
    }
}

} // verus!
