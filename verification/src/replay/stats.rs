//! Results of the fills of a replay.
use vstd::prelude::*;

use crate::arith::saturating_sum;
use crate::pairing::{
    close_legs, deepest_drawdown, ints, leg_pnl, leg_profit_is_exact, legs_after, loss_total,
    win_total, OpenLeg, PairLedger,
};
use crate::types::{FillEvent, FillType};

verus! {

/// The open legs and the profits of the closed pairs.
#[verifier::ext_equal]
pub struct StatsModel {
    pub legs: Seq<OpenLeg>,
    pub pnls: Seq<int>,
}

impl StatsModel {
    pub open spec fn empty() -> StatsModel {
        StatsModel { legs: Seq::empty(), pnls: Seq::empty() }
    }

    /// The results after a fill. Rejections and empty fills do not count.
    pub open spec fn after_fill(self, fill: FillEvent) -> StatsModel {
        if fill.fill_type is Rejected || fill.fill_size == 0 {
            self
        } else {
            let price = fill.fill_price.quarter_ticks;
            StatsModel {
                legs: legs_after(self.legs, fill.side, price, fill.fill_size),
                pnls: self.pnls + close_legs(
                    self.legs,
                    fill.side,
                    price as int,
                    fill.fill_size as int,
                ).pnls,
            }
        }
    }

    /// The results after the fills, in order.
    pub open spec fn after_fills(self, fills: Seq<FillEvent>) -> StatsModel
        decreases fills.len(),
    {
        if fills.len() == 0 {
            self
        } else {
            self.after_fills(fills.drop_last()).after_fill(fills.last())
        }
    }
}

/// Pairs fills into round trips and keeps their totals.
pub struct TradeStats {
    ledger: PairLedger,
    open_legs: Vec<OpenLeg>,
}

impl View for TradeStats {
    type V = StatsModel;

    closed spec fn view(&self) -> StatsModel {
        StatsModel { legs: self.open_legs@, pnls: self.ledger@ }
    }
}

impl TradeStats {
    pub closed spec fn wf(&self) -> bool {
        self.ledger.sound()
    }

    pub fn new() -> (r: Self)
        ensures
            r.wf(),
            r@ == StatsModel::empty(),
    {
        TradeStats { ledger: PairLedger::new(), open_legs: Vec::new() }
    }

    /// Books a fill.
    pub fn apply_fill(&mut self, fill: &FillEvent)
        requires
            old(self).wf(),
        ensures
            final(self).wf(),
            final(self)@ == old(self)@.after_fill(*fill),
    {
        match fill.fill_type {
            FillType::Rejected { .. } => {
                return ;
            },
            _ => {},
        }
        if fill.fill_size == 0 {
            return ;
        }
        self.ledger.apply(
            &mut self.open_legs,
            fill.side,
            fill.fill_price.raw(),
            fill.fill_size,
        );
    }

    /// How many pairs were closed.
    pub fn total_trades(&self) -> (r: u64)
        ensures
            r == self@.pnls.len(),
    {
        self.ledger.pairs() as u64
    }

    pub fn net_pnl_qt(&self) -> (r: i64)
        requires
            self.wf(),
        ensures
            r == saturating_sum(self@.pnls),
    {
        self.ledger.net_pnl()
    }

    pub fn wins(&self) -> (r: u64)
        requires
            self.wf(),
        ensures
            r == win_total(self@.pnls),
    {
        self.ledger.wins()
    }

    pub fn losses(&self) -> (r: u64)
        requires
            self.wf(),
        ensures
            r == loss_total(self@.pnls),
    {
        self.ledger.losses()
    }

    pub fn max_drawdown_qt(&self) -> (r: i64)
        requires
            self.wf(),
        ensures
            r == deepest_drawdown(self@.pnls),
    {
        self.ledger.max_drawdown()
    }

    /// The profit of each pair.
    pub fn pnls(&self) -> (r: Vec<i64>)
        ensures
            ints(r@) == self@.pnls,
    {
        self.ledger.pnls()
    }
}

/// A round trip brings the way from its entry to its exit for each contract: up
/// where it was bought first, down where it was sold first. It leaves nothing open.
pub proof fn round_trips_bring_their_way(stats: StatsModel, entry: FillEvent, exit: FillEvent)
    requires
        stats.legs.len() == 0,
        !(entry.fill_type is Rejected),
        !(exit.fill_type is Rejected),
        entry.side != exit.side,
        entry.fill_size == exit.fill_size,
        entry.fill_size > 0,
        ({
            let way = exit.fill_price.quarter_ticks - entry.fill_price.quarter_ticks;
            i64::MIN < way <= i64::MAX && i64::MIN < way * entry.fill_size <= i64::MAX
        }),
    ensures
        ({
            let way = exit.fill_price.quarter_ticks - entry.fill_price.quarter_ticks;
            let after = stats.after_fills(seq![entry, exit]);
            &&& after.legs.len() == 0
            &&& entry.side is Buy ==> after.pnls == stats.pnls.push(way * entry.fill_size)
            &&& entry.side is Sell ==> after.pnls == stats.pnls.push(-(way * entry.fill_size))
        }),
{
    let fills = seq![entry, exit];
    reveal_with_fuel(StatsModel::after_fills, 3);
    assert(fills.drop_last() =~= seq![entry]);
    assert(seq![entry].drop_last() =~= Seq::<FillEvent>::empty());
    assert(fills.last() == exit && seq![entry].last() == entry);
    let opened = stats.after_fill(entry);
    assert(stats.after_fills(fills) == opened.after_fill(exit));
    let leg = OpenLeg {
        side: entry.side,
        qty: entry.fill_size,
        price_qt: entry.fill_price.quarter_ticks,
    };
    assert(stats.legs =~= Seq::<OpenLeg>::empty());
    let first = close_legs(
        stats.legs,
        entry.side,
        entry.fill_price.quarter_ticks as int,
        entry.fill_size as int,
    );
    assert(first.legs == stats.legs && first.pnls =~= Seq::<int>::empty());
    assert(opened.pnls =~= stats.pnls);
    assert(opened.legs =~= seq![leg]);
    let legs = seq![leg];
    let price = exit.fill_price.quarter_ticks as int;
    assert(legs.drop_first() =~= Seq::<OpenLeg>::empty());
    let inner = close_legs(legs.drop_first(), exit.side, price, exit.fill_size - leg.qty);
    assert(inner.pnls =~= Seq::<int>::empty() && inner.legs.len() == 0);
    let second = close_legs(legs, exit.side, price, exit.fill_size as int);
    assert(second.pnls =~= seq![leg_pnl(leg, price, leg.qty as int)]);
    let way = exit.fill_price.quarter_ticks - entry.fill_price.quarter_ticks;
    assert((entry.fill_price.quarter_ticks - exit.fill_price.quarter_ticks) * entry.fill_size == -(
    way * entry.fill_size)) by (nonlinear_arith)
        requires
            way == exit.fill_price.quarter_ticks - entry.fill_price.quarter_ticks,
    ;
    leg_profit_is_exact(leg, exit.fill_price.quarter_ticks, exit.fill_size);
    assert(opened.after_fill(exit).pnls =~= stats.pnls + second.pnls);
}

/// Rejections and fills of nothing leave the results as they were, and so do the
/// fills of no batch at all.
pub proof fn fills_of_nothing_bring_nothing(stats: StatsModel, fill: FillEvent)
    requires
        fill.fill_type is Rejected || fill.fill_size == 0,
    ensures
        stats.after_fill(fill) == stats,
        stats.after_fills(Seq::empty()) == stats,
        StatsModel::empty().pnls.len() == 0,
        StatsModel::empty().legs.len() == 0,
{
}

/// A fill on the side of what is open, or with nothing open, brings no result; it
/// only opens a leg of its own, behind those there are.
pub proof fn adding_brings_no_result(stats: StatsModel, fill: FillEvent)
    requires
        !(fill.fill_type is Rejected),
        fill.fill_size > 0,
        stats.legs.len() > 0 ==> stats.legs[0].side == fill.side,
    ensures
        ({
            let after = stats.after_fill(fill);
            &&& after.pnls == stats.pnls
            &&& after.legs.len() == stats.legs.len() + 1
            &&& after.legs.drop_last() == stats.legs
            &&& after.legs.last().side == fill.side
            &&& after.legs.last().qty == fill.fill_size
            &&& after.legs.last().price_qt == fill.fill_price.quarter_ticks
        }),
{
    let after = stats.after_fill(fill);
    let done = close_legs(
        stats.legs,
        fill.side,
        fill.fill_price.quarter_ticks as int,
        fill.fill_size as int,
    );
    assert(done.pnls =~= Seq::<int>::empty());
    assert(done.legs == stats.legs);
    assert(after.pnls =~= stats.pnls);
    assert(after.legs.drop_last() =~= stats.legs);
}

} // verus!
