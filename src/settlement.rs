use vstd::arithmetic::div_mod::{
    lemma_div_multiples_vanish, lemma_fundamental_div_mod, lemma_mod_multiples_basic,
    lemma_mod_pos_bound,
};
use vstd::prelude::*;

use crate::market::{staked, Bet, Market};
use crate::types::{direction_for, BetDirection, MarketOutcome, MarketStatus};

verus! {

/// The pool of the winning side of a resolved market, zero while unresolved.
pub open spec fn winning_pool(m: Market) -> int {
    match m.outcome {
        Some(o) => m.pool_of(direction_for(o)) as int,
        None => 0,
    }
}

/// Whether bet `b` is on the side that market `m` resolved to.
pub open spec fn is_winner(m: Market, b: Bet) -> bool {
    match m.outcome {
        Some(o) => b.direction == direction_for(o),
        None => false,
    }
}

/// A winner's share of the whole pool, in proportion to the bet's part of the
/// winning pool and rounded down; zero for every other bet.
pub open spec fn payout(m: Market, b: Bet) -> int {
    if is_winner(m, b) && winning_pool(m) > 0 {
        (b.amount * m.total_pool) as int / winning_pool(m)
    } else {
        0
    }
}

/// The sum of the payouts owed on the bets of `bets` placed in market `m`.
pub open spec fn total_payout(m: Market, bets: Seq<Bet>) -> int
    decreases bets.len(),
{
    if bets.len() == 0 {
        0
    } else {
        let b = bets.last();
        total_payout(m, bets.drop_last()) + if b.market_id == m.market_id {
            payout(m, b)
        } else {
            0
        }
    }
}

/// How many bets of `bets` are placed in market `m` on its winning side.
pub open spec fn winner_count(m: Market, bets: Seq<Bet>) -> int
    decreases bets.len(),
{
    if bets.len() == 0 {
        0
    } else {
        let b = bets.last();
        winner_count(m, bets.drop_last()) + if b.market_id == m.market_id && is_winner(m, b) {
            1int
        } else {
            0
        }
    }
}

/// The sum, over the winning bets of `bets` in market `m`, of what rounding
/// down drops from each share: `(amount * total_pool) % W`, with `W` the
/// winning pool.
pub open spec fn rounding_remainders(m: Market, bets: Seq<Bet>) -> int
    decreases bets.len(),
{
    if bets.len() == 0 {
        0
    } else {
        let b = bets.last();
        rounding_remainders(m, bets.drop_last()) + if b.market_id == m.market_id && is_winner(m, b) {
            (b.amount * m.total_pool) as int % winning_pool(m)
        } else {
            0
        }
    }
}

/// Every payout is the exact share rounded down by less than one unit:
/// with `W` the winning pool, `T` the whole pool, `S` the winning stakes in
/// `bets` and `R` their rounding remainders, `T * S == W * payouts + R` and
/// `0 <= R <= winners * (W - 1)`.
proof fn lemma_payout_rounding(m: Market, bets: Seq<Bet>)
    requires
        m.outcome.is_some(),
        winning_pool(m) > 0,
    ensures
        ({
            let w = winning_pool(m);
            let s = staked(bets, m.market_id, direction_for(m.outcome.unwrap()));
            let p = total_payout(m, bets);
            let c = winner_count(m, bets);
            let r = rounding_remainders(m, bets);
            &&& m.total_pool * s == w * p + r
            &&& 0 <= r <= c * (w - 1)
            &&& c >= 0
            &&& (c == 0 ==> s == 0)
        }),
    decreases bets.len(),
{
    if bets.len() > 0 {
        let rest = bets.drop_last();
        lemma_payout_rounding(m, rest);
        let b = bets.last();
        let w = winning_pool(m);
        let t = m.total_pool as int;
        let s0 = staked(rest, m.market_id, direction_for(m.outcome.unwrap()));
        let p0 = total_payout(m, rest);
        let c0 = winner_count(m, rest);
        if b.market_id == m.market_id && is_winner(m, b) {
            let a = b.amount as int;
            let q = (a * t) / w;
            assert(a * t >= 0) by (nonlinear_arith)
                requires a >= 0, t >= 0;
            lemma_fundamental_div_mod(a * t, w);
            lemma_mod_pos_bound(a * t, w);
            let r = (a * t) % w;
            assert(a * t == w * q + r);
            assert(w * (p0 + q) == w * p0 + w * q) by (nonlinear_arith);
            assert(t * (s0 + a) == t * s0 + a * t) by (nonlinear_arith);
            assert((c0 + 1) * (w - 1) == c0 * (w - 1) + (w - 1)) by (nonlinear_arith);
        }
    }
}

/// Settling every bet of a resolved market whose winning pool `W` is positive
/// pays out no more than the whole pool; what stays behind is exactly the
/// summed rounding remainders divided by `W`, and less than one unit per
/// winning bet.
pub proof fn lemma_payout_conservation(m: Market, bets: Seq<Bet>)
    requires
        m.wf(),
        m.status == MarketStatus::Resolved,
        winning_pool(m) > 0,
        staked(bets, m.market_id, direction_for(m.outcome.unwrap())) == winning_pool(m),
    ensures
        total_payout(m, bets) <= m.total_pool,
        m.total_pool - total_payout(m, bets) == rounding_remainders(m, bets) / winning_pool(m),
        rounding_remainders(m, bets) % winning_pool(m) == 0,
        m.total_pool - total_payout(m, bets) < winner_count(m, bets),
{
    lemma_payout_rounding(m, bets);
    let w = winning_pool(m);
    let t = m.total_pool as int;
    let p = total_payout(m, bets);
    let c = winner_count(m, bets);
    let r = rounding_remainders(m, bets);
    assert(r == w * (t - p)) by (nonlinear_arith)
        requires t * w == w * p + r;
    assert(p <= t) by (nonlinear_arith)
        requires r == w * (t - p), r >= 0, w > 0;
    lemma_div_multiples_vanish(t - p, w);
    lemma_mod_multiples_basic(t - p, w);
    assert(w * (t - p) == (t - p) * w) by (nonlinear_arith);
    assert(t - p < c) by (nonlinear_arith)
        requires w * (t - p) <= c * (w - 1), w > 0, c >= 1;
}

/// A bet on the losing side of a resolved market is owed nothing.
pub proof fn lemma_loser_paid_nothing(m: Market, b: Bet)
    requires
        m.wf(),
        m.status == MarketStatus::Resolved,
        b.direction != direction_for(m.outcome.unwrap()),
    ensures
        payout(m, b) == 0,
{
}

/// The payout owed on `bet` when `market` is settled.
pub fn compute_payout(market: &Market, bet: &Bet) -> (r: u64)
    requires
        market.wf(),
        bet.amount <= market.pool_of(bet.direction),
    ensures
        r == payout(*market, *bet),
        r <= market.total_pool,
        !is_winner(*market, *bet) ==> r == 0,
{
    let winning = match market.outcome {
        Some(MarketOutcome::Yes) => bet.direction == BetDirection::Yes,
        Some(MarketOutcome::No) => bet.direction == BetDirection::No,
        None => false,
    };
    if !winning {
        return 0;
    }
    let w: u64 = match bet.direction {
        BetDirection::Yes => market.yes_pool,
        BetDirection::No => market.no_pool,
    };
    if w == 0 {
        return 0;
    }
    let a = bet.amount as u128;
    let t = market.total_pool as u128;
    proof {
        assert(a * t <= u64::MAX as int * u64::MAX as int) by (nonlinear_arith)
            requires a <= u64::MAX, t <= u64::MAX;
        assert((a * t) / (w as int) <= t) by (nonlinear_arith)
            requires a <= w, w > 0, t >= 0;
    }
    let p = (a * t) / (w as u128);
    p as u64
}

} // verus!
