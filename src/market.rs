use vstd::prelude::*;

use crate::settlement::{compute_payout, payout};
use crate::types::{Address, BetDirection, ErrorCode, MarketOutcome, MarketResolved, MarketStatus};

verus! {

/// One binary-outcome market.
#[derive(Debug)]
pub struct Market {
    pub market_id: u64,
    pub creator: Address,
    pub description: String,
    pub end_time: i64,
    /// Seed liquidity from the creator, counted in `total_pool` but in
    /// neither side's pool.
    pub creator_stake: u64,
    pub total_pool: u64,
    pub yes_pool: u64,
    pub no_pool: u64,
    pub status: MarketStatus,
    pub outcome: Option<MarketOutcome>,
    pub created_at: i64,
    pub resolved_at: Option<i64>,
}

/// One bettor's single stake in one market.
#[derive(Clone, Copy, Debug)]
pub struct Bet {
    pub market_id: u64,
    pub bettor: Address,
    pub amount: u64,
    pub direction: BetDirection,
    pub created_at: i64,
    /// Set once the bet has been settled, so that it settles only once.
    pub claimed: bool,
}

/// The sum of the amounts of the bets in `bets` that are placed in market `id`
/// on side `d`.
pub open spec fn staked(bets: Seq<Bet>, id: u64, d: BetDirection) -> int
    decreases bets.len(),
{
    if bets.len() == 0 {
        0
    } else {
        let b = bets.last();
        staked(bets.drop_last(), id, d) + if b.market_id == id && b.direction == d {
            b.amount as int
        } else {
            0
        }
    }
}

/// The sum of the amounts of all bets in `bets` placed in market `id`.
pub open spec fn staked_total(bets: Seq<Bet>, id: u64) -> int
    decreases bets.len(),
{
    if bets.len() == 0 {
        0
    } else {
        let b = bets.last();
        staked_total(bets.drop_last(), id) + if b.market_id == id {
            b.amount as int
        } else {
            0
        }
    }
}

/// Both sides together make up all that was staked in a market.
pub proof fn lemma_staked_sides(bets: Seq<Bet>, id: u64)
    ensures
        staked_total(bets, id) == staked(bets, id, BetDirection::Yes) + staked(bets, id, BetDirection::No),
    decreases bets.len(),
{
    if bets.len() > 0 {
        lemma_staked_sides(bets.drop_last(), id);
    }
}

/// A bet's amount is part of what is staked on its side.
pub proof fn lemma_staked_bound(bets: Seq<Bet>, j: int)
    requires
        0 <= j < bets.len(),
    ensures
        0 <= bets[j].amount <= staked(bets, bets[j].market_id, bets[j].direction),
    decreases bets.len(),
{
    lemma_staked_nonneg(bets.drop_last(), bets[j].market_id, bets[j].direction);
    if j < bets.len() - 1 {
        lemma_staked_bound(bets.drop_last(), j);
    }
}

/// What is staked is never negative.
pub proof fn lemma_staked_nonneg(bets: Seq<Bet>, id: u64, d: BetDirection)
    ensures
        staked(bets, id, d) >= 0,
    decreases bets.len(),
{
    if bets.len() > 0 {
        lemma_staked_nonneg(bets.drop_last(), id, d);
    }
}

/// Appending a bet adds its amount to its own side and market only.
pub proof fn lemma_staked_push(bets: Seq<Bet>, b: Bet, id: u64, d: BetDirection)
    ensures
        staked(bets.push(b), id, d) == staked(bets, id, d) + if b.market_id == id && b.direction == d {
            b.amount as int
        } else {
            0
        },
{
    assert(bets.push(b).drop_last() =~= bets);
}

/// Replacing a bet by one with the same market, side and amount keeps every
/// sum.
pub proof fn lemma_staked_update(bets: Seq<Bet>, j: int, b: Bet, id: u64, d: BetDirection)
    requires
        0 <= j < bets.len(),
        b.market_id == bets[j].market_id,
        b.direction == bets[j].direction,
        b.amount == bets[j].amount,
    ensures
        staked(bets.update(j, b), id, d) == staked(bets, id, d),
    decreases bets.len(),
{
    let u = bets.update(j, b);
    if j == bets.len() - 1 {
        assert(u.drop_last() =~= bets.drop_last());
    } else {
        assert(u.drop_last() =~= bets.drop_last().update(j, b));
        lemma_staked_update(bets.drop_last(), j, b, id, d);
    }
}

/// `m` after a bet of `amount` on side `d`.
pub open spec fn with_bet(m: Market, amount: u64, d: BetDirection) -> Market {
    Market {
        yes_pool: if d == BetDirection::Yes {
            (m.yes_pool + amount) as u64
        } else {
            m.yes_pool
        },
        no_pool: if d == BetDirection::No {
            (m.no_pool + amount) as u64
        } else {
            m.no_pool
        },
        total_pool: (m.total_pool + amount) as u64,
        ..m
    }
}

/// `m` once resolved to `o` at time `now`.
pub open spec fn with_outcome(m: Market, o: MarketOutcome, now: i64) -> Market {
    Market { status: MarketStatus::Resolved, outcome: Some(o), resolved_at: Some(now), ..m }
}

/// `m` is a fresh, active market with these values and no bets yet.
pub open spec fn is_opened(
    m: Market,
    id: u64,
    creator: Address,
    description: Seq<char>,
    end_time: i64,
    creator_stake: u64,
    now: i64,
) -> bool {
    &&& m.market_id == id
    &&& m.creator == creator
    &&& m.description@ == description
    &&& m.end_time == end_time
    &&& m.creator_stake == creator_stake
    &&& m.total_pool == creator_stake
    &&& m.yes_pool == 0
    &&& m.no_pool == 0
    &&& m.status == MarketStatus::Active
    &&& m.outcome.is_none()
    &&& m.created_at == now
    &&& m.resolved_at.is_none()
}

impl Market {
    /// The pools add up, and the outcome is set exactly when the market is
    /// resolved.
    pub open spec fn wf(&self) -> bool {
        &&& self.yes_pool + self.no_pool + self.creator_stake == self.total_pool
        &&& (self.status == MarketStatus::Resolved) == self.outcome.is_some()
        &&& (self.status == MarketStatus::Resolved) == self.resolved_at.is_some()
    }

    /// The pool of the side `d`.
    pub open spec fn pool_of(&self, d: BetDirection) -> u64 {
        match d {
            BetDirection::Yes => self.yes_pool,
            BetDirection::No => self.no_pool,
        }
    }

    /// A fresh, active market holding only the creator's stake.
    pub fn new(
        market_id: u64,
        creator: Address,
        description: String,
        end_time: i64,
        creator_stake: u64,
        now: i64,
    ) -> (m: Market)
        ensures
            m.wf(),
            m.market_id == market_id,
            m.creator == creator,
            m.description@ == description@,
            m.end_time == end_time,
            m.creator_stake == creator_stake,
            m.total_pool == creator_stake,
            m.yes_pool == 0,
            m.no_pool == 0,
            m.status == MarketStatus::Active,
            m.outcome.is_none(),
            m.created_at == now,
            m.resolved_at.is_none(),
    {
        Market {
            market_id,
            creator,
            description,
            end_time,
            creator_stake,
            total_pool: creator_stake,
            yes_pool: 0,
            no_pool: 0,
            status: MarketStatus::Active,
            outcome: None,
            created_at: now,
            resolved_at: None,
        }
    }
    /// Why a bet of `amount` at time `now` is refused, checked in this order;
    /// `None` if it is accepted.
    pub open spec fn bet_error(&self, amount: u64, now: i64) -> Option<ErrorCode> {
        if self.status != MarketStatus::Active {
            Some(ErrorCode::MarketNotActive)
        } else if now >= self.end_time {
            Some(ErrorCode::MarketExpired)
        } else if amount == 0 {
            Some(ErrorCode::ZeroBetAmount)
        } else if self.total_pool + amount > u64::MAX {
            Some(ErrorCode::PoolOverflow)
        } else {
            None
        }
    }

    /// Why `resolver` may not resolve at time `now`, checked in this order;
    /// `None` if they may.
    pub open spec fn resolve_error(&self, resolver: Seq<u8>, now: i64) -> Option<ErrorCode> {
        if self.status != MarketStatus::Active {
            Some(ErrorCode::MarketNotActive)
        } else if resolver != self.creator@ {
            Some(ErrorCode::UnauthorizedResolver)
        } else if now < self.end_time {
            Some(ErrorCode::MarketNotExpired)
        } else {
            None
        }
    }

    /// Why `claimer` may not settle `bet`, checked in this order; `None` if
    /// they may.
    pub open spec fn settle_error(&self, bet: Bet, claimer: Seq<u8>) -> Option<ErrorCode> {
        if self.status != MarketStatus::Resolved {
            Some(ErrorCode::MarketNotResolved)
        } else if claimer != bet.bettor@ {
            Some(ErrorCode::UnauthorizedClaimer)
        } else if bet.claimed {
            Some(ErrorCode::AlreadyClaimed)
        } else {
            None
        }
    }

    /// Takes a bet of `amount` by `bettor` on side `direction` at time `now`
    /// into the pools, and returns its record.
    pub fn add_bet(&mut self, bettor: &Address, amount: u64, direction: BetDirection, now: i64) -> (r:
        Result<Bet, ErrorCode>)
        requires
            old(self).wf(),
        ensures
            final(self).wf(),
            match r {
                Ok(b) => {
                    &&& old(self).bet_error(amount, now).is_none()
                    &&& *final(self) == with_bet(*old(self), amount, direction)
                    &&& b == (Bet {
                        market_id: old(self).market_id,
                        bettor: *bettor,
                        amount,
                        direction,
                        created_at: now,
                        claimed: false,
                    })
                },
                Err(e) => old(self).bet_error(amount, now) == Some(e) && *final(self) == *old(self),
            },
    {
        if self.status != MarketStatus::Active {
            return Err(ErrorCode::MarketNotActive);
        }
        if now >= self.end_time {
            return Err(ErrorCode::MarketExpired);
        }
        if amount == 0 {
            return Err(ErrorCode::ZeroBetAmount);
        }
        if self.total_pool > u64::MAX - amount {
            return Err(ErrorCode::PoolOverflow);
        }
        match direction {
            BetDirection::Yes => {
                self.yes_pool = self.yes_pool + amount;
            },
            BetDirection::No => {
                self.no_pool = self.no_pool + amount;
            },
        }
        self.total_pool = self.total_pool + amount;
        Ok(Bet { market_id: self.market_id, bettor: *bettor, amount, direction, created_at: now, claimed: false })
    }

    /// Declares `outcome` on behalf of `resolver` at time `now`: only the
    /// creator may, and only once the market has ended.
    pub fn resolve(&mut self, resolver: &Address, outcome: MarketOutcome, now: i64) -> (r: Result<
        MarketResolved,
        ErrorCode,
    >)
        requires
            old(self).wf(),
        ensures
            final(self).wf(),
            match r {
                Ok(ev) => {
                    &&& old(self).resolve_error(resolver@, now).is_none()
                    &&& *final(self) == with_outcome(*old(self), outcome, now)
                    &&& ev == (MarketResolved { market_id: old(self).market_id, outcome, resolved_at: now })
                },
                Err(e) => old(self).resolve_error(resolver@, now) == Some(e) && *final(self) == *old(self),
            },
    {
        if self.status != MarketStatus::Active {
            return Err(ErrorCode::MarketNotActive);
        }
        if !resolver.same(&self.creator) {
            return Err(ErrorCode::UnauthorizedResolver);
        }
        if now < self.end_time {
            return Err(ErrorCode::MarketNotExpired);
        }
        self.status = MarketStatus::Resolved;
        self.outcome = Some(outcome);
        self.resolved_at = Some(now);
        Ok(MarketResolved { market_id: self.market_id, outcome, resolved_at: now })
    }

    /// Settles `bet` on behalf of `claimer`: marks it claimed and returns its
    /// payout.
    pub fn settle(&self, bet: &mut Bet, claimer: &Address) -> (r: Result<u64, ErrorCode>)
        requires
            self.wf(),
            old(bet).market_id == self.market_id,
            old(bet).amount <= self.pool_of(old(bet).direction),
        ensures
            match r {
                Ok(p) => {
                    &&& self.settle_error(*old(bet), claimer@).is_none()
                    &&& *final(bet) == (Bet { claimed: true, ..*old(bet) })
                    &&& p == payout(*self, *old(bet))
                    &&& p <= self.total_pool
                },
                Err(e) => self.settle_error(*old(bet), claimer@) == Some(e) && *final(bet) == *old(bet),
            },
    {
        if self.status != MarketStatus::Resolved {
            return Err(ErrorCode::MarketNotResolved);
        }
        if !claimer.same(&bet.bettor) {
            return Err(ErrorCode::UnauthorizedClaimer);
        }
        if bet.claimed {
            return Err(ErrorCode::AlreadyClaimed);
        }
        let p = compute_payout(self, bet);
        bet.claimed = true;
        Ok(p)
    }
}

} // verus!
