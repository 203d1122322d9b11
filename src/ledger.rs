use vstd::prelude::*;

use crate::market::{
    lemma_staked_bound, lemma_staked_push, lemma_staked_sides, lemma_staked_update, staked,
    staked_total, is_opened, with_bet, with_outcome, Bet, Market,
};
use crate::settlement::{
    lemma_payout_conservation, payout, rounding_remainders, total_payout, winner_count, winning_pool,
};
use crate::types::{
    Account, Address, BetDirection, BetPlaced, ErrorCode, MarketCreated,
    MarketOutcome, MarketResolved, MarketStatus, Transfer, WinningsClaimed,
};

verus! {

/// All markets and bets, each market keyed by its id and each bet by its
/// market and bettor.
pub struct Ledger {
    pub markets: Vec<Market>,
    pub bets: Vec<Bet>,
}

impl Ledger {
    /// An empty ledger.
    pub fn new() -> (l: Ledger)
        ensures
            l.wf(),
            l.markets@.len() == 0,
            l.bets@.len() == 0,
    {
        Ledger { markets: Vec::new(), bets: Vec::new() }
    }

    /// Some market has id `id`.
    pub open spec fn has_market(&self, id: u64) -> bool {
        exists|i: int| 0 <= i < self.markets@.len() && self.markets@[i].market_id == id
    }

    /// The position of the market with id `id`.
    pub open spec fn market_index(&self, id: u64) -> int {
        choose|i: int| 0 <= i < self.markets@.len() && self.markets@[i].market_id == id
    }

    /// The market with id `id`.
    pub open spec fn market_of(&self, id: u64) -> Market {
        self.markets@[self.market_index(id)]
    }

    /// `bettor` has a bet in market `id`.
    pub open spec fn has_bet(&self, id: u64, bettor: Seq<u8>) -> bool {
        exists|j: int| 0 <= j < self.bets@.len() && self.bets@[j].market_id == id && self.bets@[j].bettor@ == bettor
    }

    /// The position of the bet of `bettor` in market `id`.
    pub open spec fn bet_index(&self, id: u64, bettor: Seq<u8>) -> int {
        choose|j: int| 0 <= j < self.bets@.len() && self.bets@[j].market_id == id && self.bets@[j].bettor@ == bettor
    }

    /// The bet of `bettor` in market `id`.
    pub open spec fn bet_of(&self, id: u64, bettor: Seq<u8>) -> Bet {
        self.bets@[self.bet_index(id, bettor)]
    }

    /// Keys are unique, every market is well formed, and each side's pool is
    /// exactly what its bets staked.
    pub open spec fn wf(&self) -> bool {
        &&& forall|i: int, k: int|
            0 <= i < self.markets@.len() && 0 <= k < self.markets@.len()
                && #[trigger] self.markets@[i].market_id == #[trigger] self.markets@[k].market_id ==> i == k
        &&& forall|j: int, k: int|
            0 <= j < self.bets@.len() && 0 <= k < self.bets@.len()
                && #[trigger] self.bets@[j].market_id == #[trigger] self.bets@[k].market_id
                && self.bets@[j].bettor@ == self.bets@[k].bettor@ ==> j == k
        &&& forall|j: int| 0 <= j < self.bets@.len() ==> self.has_market(#[trigger] self.bets@[j].market_id)
        &&& forall|i: int| 0 <= i < self.markets@.len() ==> #[trigger] self.markets@[i].wf()
        &&& forall|i: int| 0 <= i < self.markets@.len() ==>
            (#[trigger] self.markets@[i]).yes_pool == staked(self.bets@, self.markets@[i].market_id, BetDirection::Yes)
        &&& forall|i: int| 0 <= i < self.markets@.len() ==>
            (#[trigger] self.markets@[i]).no_pool == staked(self.bets@, self.markets@[i].market_id, BetDirection::No)
    }

    fn find_market(&self, id: u64) -> (r: Option<usize>)
        requires
            self.wf(),
        ensures
            match r {
                Some(i) => i < self.markets@.len() && self.markets@[i as int].market_id == id
                    && self.has_market(id) && i == self.market_index(id),
                None => !self.has_market(id),
            },
    {
        let mut i: usize = 0;
        while i < self.markets.len()
            invariant
                self.wf(),
                i <= self.markets@.len(),
                forall|k: int| 0 <= k < i ==> self.markets@[k].market_id != id,
            decreases self.markets@.len() - i,
        {
            if self.markets[i].market_id == id {
                proof {
                    assert(self.markets@[i as int].market_id == id);
                    assert(self.has_market(id));
                    let c = self.market_index(id);
                    assert(self.markets@[c].market_id == self.markets@[i as int].market_id);
                }
                return Some(i);
            }
            i = i + 1;
        }
        None
    }

    fn find_bet(&self, id: u64, bettor: &Address) -> (r: Option<usize>)
        requires
            self.wf(),
        ensures
            match r {
                Some(j) => j < self.bets@.len() && self.bets@[j as int].market_id == id
                    && self.bets@[j as int].bettor@ == bettor@ && self.has_bet(id, bettor@)
                    && j == self.bet_index(id, bettor@),
                None => !self.has_bet(id, bettor@),
            },
    {
        let mut j: usize = 0;
        while j < self.bets.len()
            invariant
                self.wf(),
                j <= self.bets@.len(),
                forall|k: int| 0 <= k < j ==> !(self.bets@[k].market_id == id && self.bets@[k].bettor@ == bettor@),
            decreases self.bets@.len() - j,
        {
            if self.bets[j].market_id == id && self.bets[j].bettor.same(bettor) {
                proof {
                    assert(self.bets@[j as int].market_id == id && self.bets@[j as int].bettor@ == bettor@);
                    assert(self.has_bet(id, bettor@));
                    let c = self.bet_index(id, bettor@);
                    assert(self.bets@[c].market_id == self.bets@[j as int].market_id);
                }
                return Some(j);
            }
            j = j + 1;
        }
        None
    }
}

/// Why `place_bet` rejects a bet, checked in this order; `None` if it accepts.
pub open spec fn place_bet_error(l: Ledger, id: u64, bettor: Seq<u8>, amount: u64, now: i64) -> Option<
    ErrorCode,
> {
    if !l.has_market(id) {
        Some(ErrorCode::MarketNotFound)
    } else if l.has_bet(id, bettor) {
        Some(ErrorCode::DuplicateBet)
    } else {
        l.market_of(id).bet_error(amount, now)
    }
}

/// Why `resolve_market` refuses, checked in this order; `None` if it resolves.
pub open spec fn resolve_error(l: Ledger, id: u64, resolver: Seq<u8>, now: i64) -> Option<ErrorCode> {
    if !l.has_market(id) {
        Some(ErrorCode::MarketNotFound)
    } else {
        l.market_of(id).resolve_error(resolver, now)
    }
}

/// Why `claim_winnings` refuses, checked in this order; `None` if it settles.
pub open spec fn claim_error(l: Ledger, id: u64, bettor: Seq<u8>, claimer: Seq<u8>) -> Option<ErrorCode> {
    if !l.has_market(id) {
        Some(ErrorCode::MarketNotFound)
    } else if l.market_of(id).status != MarketStatus::Resolved {
        Some(ErrorCode::MarketNotResolved)
    } else if !l.has_bet(id, bettor) {
        Some(ErrorCode::BetNotFound)
    } else {
        l.market_of(id).settle_error(l.bet_of(id, bettor), claimer)
    }
}

/// Opens market `market_id` for `creator`, seeded with `creator_stake`, and
/// returns the event and the transfer of the stake into the market's custody.
pub fn create_market(
    ledger: &mut Ledger,
    market_id: u64,
    creator: &Address,
    description: String,
    end_time: i64,
    creator_stake: u64,
    now: i64,
) -> (r: Result<(MarketCreated, Transfer), ErrorCode>)
    requires
        old(ledger).wf(),
    ensures
        final(ledger).wf(),
        r is Err <==> old(ledger).has_market(market_id),
        match r {
            Ok((ev, t)) => {
                &&& final(ledger).bets@ == old(ledger).bets@
                &&& final(ledger).markets@.len() == old(ledger).markets@.len() + 1
                &&& final(ledger).markets@.drop_last() == old(ledger).markets@
                &&& is_opened(final(ledger).markets@.last(), market_id, *creator, description@, end_time, creator_stake, now)
                &&& ev.market_id == market_id && ev.creator == *creator
                &&& ev.description@ == description@ && ev.end_time == end_time
                &&& ev.creator_stake == creator_stake
                &&& t == (Transfer {
                    from: Account::Wallet(*creator),
                    to: Account::Custody(market_id),
                    amount: creator_stake,
                })
            },
            Err(e) => e == ErrorCode::DuplicateMarket && final(ledger).markets@ == old(ledger).markets@ && final(ledger).bets@ == old(ledger).bets@,
        },
{
    if ledger.find_market(market_id).is_some() {
        return Err(ErrorCode::DuplicateMarket);
    }
    let event = MarketCreated {
        market_id,
        creator: *creator,
        description: description.clone(),
        end_time,
        creator_stake,
    };
    let market = Market::new(market_id, *creator, description, end_time, creator_stake, now);
    ledger.markets.push(market);
    proof {
        let l = *ledger;
        let o = *old(ledger);
        assert(l.markets@.drop_last() =~= o.markets@);
        assert forall|j: int| 0 <= j < l.bets@.len() implies l.has_market(#[trigger] l.bets@[j].market_id) by {
            let k = choose|k: int| 0 <= k < o.markets@.len() && o.markets@[k].market_id == o.bets@[j].market_id;
            assert(l.markets@[k] == o.markets@[k]);
        }
        assert forall|i: int| 0 <= i < l.markets@.len() implies
            (#[trigger] l.markets@[i]).yes_pool == staked(l.bets@, l.markets@[i].market_id, BetDirection::Yes)
            && l.markets@[i].no_pool == staked(l.bets@, l.markets@[i].market_id, BetDirection::No) by {
            if i == o.markets@.len() {
                lemma_nothing_staked(l.bets@, market_id, BetDirection::Yes);
                lemma_nothing_staked(l.bets@, market_id, BetDirection::No);
            }
        }
    }
    let transfer = Transfer {
        from: Account::Wallet(*creator),
        to: Account::Custody(market_id),
        amount: creator_stake,
    };
    Ok((event, transfer))
}

/// Records a bet of `bet_amount` by `bettor` on side `bet_direction` of market
/// `market_id` at time `now`, and returns the event and the transfer of the
/// amount into the market's custody.
pub fn place_bet(
    ledger: &mut Ledger,
    market_id: u64,
    bettor: &Address,
    bet_amount: u64,
    bet_direction: BetDirection,
    now: i64,
) -> (r: Result<(BetPlaced, Transfer), ErrorCode>)
    requires
        old(ledger).wf(),
    ensures
        final(ledger).wf(),
        match r {
            Ok((ev, t)) => {
                &&& place_bet_error(*old(ledger), market_id, bettor@, bet_amount, now).is_none()
                &&& final(ledger).markets@ == old(ledger).markets@.update(
                    old(ledger).market_index(market_id),
                    with_bet(old(ledger).market_of(market_id), bet_amount, bet_direction),
                )
                &&& final(ledger).bets@ == old(ledger).bets@.push(
                    Bet {
                        market_id,
                        bettor: *bettor,
                        amount: bet_amount,
                        direction: bet_direction,
                        created_at: now,
                        claimed: false,
                    },
                )
                &&& ev == (BetPlaced { market_id, bettor: *bettor, amount: bet_amount, direction: bet_direction })
                &&& t == (Transfer {
                    from: Account::Wallet(*bettor),
                    to: Account::Custody(market_id),
                    amount: bet_amount,
                })
            },
            Err(e) => {
                &&& place_bet_error(*old(ledger), market_id, bettor@, bet_amount, now) == Some(e)
                &&& final(ledger).markets@ == old(ledger).markets@ && final(ledger).bets@ == old(ledger).bets@
            },
        },
{
    let i = match ledger.find_market(market_id) {
        Some(i) => i,
        None => return Err(ErrorCode::MarketNotFound),
    };
    if ledger.find_bet(market_id, bettor).is_some() {
        return Err(ErrorCode::DuplicateBet);
    }
    let ghost o = *ledger;
    proof {
        assert(o.markets@[i as int].wf());
    }
    let bet = match ledger.markets[i].add_bet(bettor, bet_amount, bet_direction, now) {
        Ok(b) => b,
        Err(e) => {
            proof {
                assert(ledger.markets@ =~= o.markets@);
            }
            return Err(e);
        },
    };
    ledger.bets.push(bet);
    proof {
        let l = *ledger;
        assert(l.markets@ =~= o.markets@.update(i as int, with_bet(o.markets@[i as int], bet_amount, bet_direction)));
        assert(l.bets@ =~= o.bets@.push(bet));
        assert forall|j: int| 0 <= j < l.bets@.len() implies l.has_market(#[trigger] l.bets@[j].market_id) by {
            if j < o.bets@.len() {
                let k = choose|k: int| 0 <= k < o.markets@.len() && o.markets@[k].market_id == o.bets@[j].market_id;
                assert(l.markets@[k].market_id == o.markets@[k].market_id);
            } else {
                assert(l.markets@[i as int].market_id == market_id);
            }
        }
        assert forall|j: int, k: int|
            0 <= j < l.bets@.len() && 0 <= k < l.bets@.len()
                && #[trigger] l.bets@[j].market_id == #[trigger] l.bets@[k].market_id
                && l.bets@[j].bettor@ == l.bets@[k].bettor@ implies j == k by {
            if j == o.bets@.len() && k < o.bets@.len() {
                assert(o.bets@[k].market_id == market_id && o.bets@[k].bettor@ == bettor@);
            } else if k == o.bets@.len() && j < o.bets@.len() {
                assert(o.bets@[j].market_id == market_id && o.bets@[j].bettor@ == bettor@);
            }
        }
        assert forall|k: int| 0 <= k < l.markets@.len() implies
            (#[trigger] l.markets@[k]).yes_pool == staked(l.bets@, l.markets@[k].market_id, BetDirection::Yes)
            && l.markets@[k].no_pool == staked(l.bets@, l.markets@[k].market_id, BetDirection::No)
            && l.markets@[k].wf() by {
            lemma_staked_push(o.bets@, bet, o.markets@[k].market_id, BetDirection::Yes);
            lemma_staked_push(o.bets@, bet, o.markets@[k].market_id, BetDirection::No);
            assert(o.markets@[k].wf());
            if k != i {
                assert(o.markets@[k].market_id != o.markets@[i as int].market_id);
            }
        }
    }
    let event = BetPlaced { market_id, bettor: *bettor, amount: bet_amount, direction: bet_direction };
    let transfer = Transfer {
        from: Account::Wallet(*bettor),
        to: Account::Custody(market_id),
        amount: bet_amount,
    };
    Ok((event, transfer))
}

/// Declares `outcome` for market `market_id` on behalf of `resolver` at time
/// `now`; only the market's creator may, once the market has ended.
pub fn resolve_market(
    ledger: &mut Ledger,
    market_id: u64,
    resolver: &Address,
    outcome: MarketOutcome,
    now: i64,
) -> (r: Result<MarketResolved, ErrorCode>)
    requires
        old(ledger).wf(),
    ensures
        final(ledger).wf(),
        match r {
            Ok(ev) => {
                &&& resolve_error(*old(ledger), market_id, resolver@, now).is_none()
                &&& final(ledger).markets@ == old(ledger).markets@.update(
                    old(ledger).market_index(market_id),
                    with_outcome(old(ledger).market_of(market_id), outcome, now),
                )
                &&& final(ledger).bets@ == old(ledger).bets@
                &&& ev == (MarketResolved { market_id, outcome, resolved_at: now })
            },
            Err(e) => {
                &&& resolve_error(*old(ledger), market_id, resolver@, now) == Some(e)
                &&& final(ledger).markets@ == old(ledger).markets@ && final(ledger).bets@ == old(ledger).bets@
            },
        },
{
    let i = match ledger.find_market(market_id) {
        Some(i) => i,
        None => return Err(ErrorCode::MarketNotFound),
    };
    let ghost o = *ledger;
    proof {
        assert(o.markets@[i as int].wf());
    }
    let event = match ledger.markets[i].resolve(resolver, outcome, now) {
        Ok(ev) => ev,
        Err(e) => {
            proof {
                assert(ledger.markets@ =~= o.markets@);
            }
            return Err(e);
        },
    };
    proof {
        let l = *ledger;
        assert(l.markets@ =~= o.markets@.update(i as int, with_outcome(o.markets@[i as int], outcome, now)));
        assert forall|j: int| 0 <= j < l.bets@.len() implies l.has_market(#[trigger] l.bets@[j].market_id) by {
            let k = choose|k: int| 0 <= k < o.markets@.len() && o.markets@[k].market_id == o.bets@[j].market_id;
            assert(l.markets@[k].market_id == o.markets@[k].market_id);
        }
        assert forall|k: int| 0 <= k < l.markets@.len() implies (#[trigger] l.markets@[k]).wf() by {
            assert(o.markets@[k].wf());
        }
    }
    Ok(event)
}

/// Settles the bet of `bettor` in market `market_id` on behalf of `claimer`:
/// marks it claimed and returns the event with the payout, and the transfer
/// out of the market's custody when the payout is not zero.
pub fn claim_winnings(
    ledger: &mut Ledger,
    market_id: u64,
    bettor: &Address,
    claimer: &Address,
) -> (r: Result<(WinningsClaimed, Option<Transfer>), ErrorCode>)
    requires
        old(ledger).wf(),
    ensures
        final(ledger).wf(),
        match r {
            Ok((ev, t)) => {
                let m = old(ledger).market_of(market_id);
                let b = old(ledger).bet_of(market_id, bettor@);
                &&& claim_error(*old(ledger), market_id, bettor@, claimer@).is_none()
                &&& final(ledger).markets@ == old(ledger).markets@
                &&& final(ledger).bets@ == old(ledger).bets@.update(
                    old(ledger).bet_index(market_id, bettor@),
                    Bet { claimed: true, ..b },
                )
                &&& 0 <= payout(m, b) <= m.total_pool
                &&& ev == (WinningsClaimed { market_id, bettor: b.bettor, amount: payout(m, b) as u64 })
                &&& t == if payout(m, b) > 0 {
                    Some(
                        Transfer {
                            from: Account::Custody(market_id),
                            to: Account::Wallet(b.bettor),
                            amount: payout(m, b) as u64,
                        },
                    )
                } else {
                    None
                }
            },
            Err(e) => {
                &&& claim_error(*old(ledger), market_id, bettor@, claimer@) == Some(e)
                &&& final(ledger).markets@ == old(ledger).markets@ && final(ledger).bets@ == old(ledger).bets@
            },
        },
{
    let i = match ledger.find_market(market_id) {
        Some(i) => i,
        None => return Err(ErrorCode::MarketNotFound),
    };
    if ledger.markets[i].status != MarketStatus::Resolved {
        return Err(ErrorCode::MarketNotResolved);
    }
    let j = match ledger.find_bet(market_id, bettor) {
        Some(j) => j,
        None => return Err(ErrorCode::BetNotFound),
    };
    let ghost o = *ledger;
    proof {
        assert(o.markets@[i as int].wf());
        lemma_staked_bound(o.bets@, j as int);
    }
    let amount = match ledger.markets[i].settle(&mut ledger.bets[j], claimer) {
        Ok(p) => p,
        Err(e) => {
            proof {
                assert(ledger.bets@ =~= o.bets@);
            }
            return Err(e);
        },
    };
    proof {
        let l = *ledger;
        let b = o.bets@[j as int];
        assert(l.bets@ =~= o.bets@.update(j as int, Bet { claimed: true, ..b }));
        assert forall|j2: int| 0 <= j2 < l.bets@.len() implies l.has_market(#[trigger] l.bets@[j2].market_id) by {
            assert(o.has_market(o.bets@[j2].market_id));
        }
        assert forall|k: int| 0 <= k < l.markets@.len() implies
            (#[trigger] l.markets@[k]).yes_pool == staked(l.bets@, l.markets@[k].market_id, BetDirection::Yes)
            && l.markets@[k].no_pool == staked(l.bets@, l.markets@[k].market_id, BetDirection::No) by {
            lemma_staked_update(o.bets@, j as int, Bet { claimed: true, ..b }, o.markets@[k].market_id, BetDirection::Yes);
            lemma_staked_update(o.bets@, j as int, Bet { claimed: true, ..b }, o.markets@[k].market_id, BetDirection::No);
        }
        assert forall|j1: int, k: int|
            0 <= j1 < l.bets@.len() && 0 <= k < l.bets@.len()
                && #[trigger] l.bets@[j1].market_id == #[trigger] l.bets@[k].market_id
                && l.bets@[j1].bettor@ == l.bets@[k].bettor@ implies j1 == k by {
            assert(o.bets@[j1].market_id == o.bets@[k].market_id);
        }
    }
    let b = ledger.bets[j].bettor;
    let event = WinningsClaimed { market_id, bettor: b, amount };
    if amount > 0 {
        let transfer = Transfer {
            from: Account::Custody(market_id),
            to: Account::Wallet(b),
            amount,
        };
        Ok((event, Some(transfer)))
    } else {
        Ok((event, None))
    }
}

/// In every well-formed ledger each market's whole pool is its creator's
/// stake plus every amount bet in it, and equals the two side pools plus the
/// creator's stake.
pub proof fn lemma_pool_accounting(l: Ledger, i: int)
    requires
        l.wf(),
        0 <= i < l.markets@.len(),
    ensures
        l.markets@[i].total_pool == l.markets@[i].creator_stake + staked_total(l.bets@, l.markets@[i].market_id),
        l.markets@[i].yes_pool + l.markets@[i].no_pool + l.markets@[i].creator_stake == l.markets@[i].total_pool,
{
    assert(l.markets@[i].wf());
    lemma_staked_sides(l.bets@, l.markets@[i].market_id);
}

/// No two bets of a well-formed ledger share a market and a bettor, and once
/// a bettor has bet in a market, another bet of theirs there is refused as a
/// duplicate.
pub proof fn lemma_one_bet_per_bettor(l: Ledger, id: u64, bettor: Seq<u8>, amount: u64, now: i64)
    requires
        l.wf(),
        l.has_bet(id, bettor),
    ensures
        forall|j: int, k: int|
            0 <= j < l.bets@.len() && 0 <= k < l.bets@.len() && l.bets@[j].market_id == id
                && l.bets@[k].market_id == id && l.bets@[j].bettor@ == bettor
                && l.bets@[k].bettor@ == bettor ==> j == k,
        place_bet_error(l, id, bettor, amount, now) == Some(ErrorCode::DuplicateBet),
{
    let j = choose|j: int| 0 <= j < l.bets@.len() && l.bets@[j].market_id == id && l.bets@[j].bettor@ == bettor;
    assert(l.has_market(l.bets@[j].market_id));
}

/// A market that is no longer active is never resolved again; on an active
/// market only the creator resolves: anyone else is refused whatever the
/// time, and the creator is refused before the end time.
pub proof fn lemma_resolution_rules(l: Ledger, id: u64, resolver: Seq<u8>, now: i64)
    requires
        l.has_market(id),
    ensures
        l.market_of(id).status != MarketStatus::Active ==> resolve_error(l, id, resolver, now) == Some(ErrorCode::MarketNotActive),
        l.market_of(id).status == MarketStatus::Active && resolver != l.market_of(id).creator@
            ==> resolve_error(l, id, resolver, now) == Some(ErrorCode::UnauthorizedResolver),
        resolver == l.market_of(id).creator@ && l.market_of(id).status == MarketStatus::Active
            && now < l.market_of(id).end_time ==> resolve_error(l, id, resolver, now) == Some(ErrorCode::MarketNotExpired),
{
}

/// A claim on a market that is not resolved is refused as such.
pub proof fn lemma_claim_needs_resolution(l: Ledger, id: u64, bettor: Seq<u8>, claimer: Seq<u8>)
    requires
        l.has_market(id),
        l.market_of(id).status != MarketStatus::Resolved,
    ensures
        claim_error(l, id, bettor, claimer) == Some(ErrorCode::MarketNotResolved),
{
}

/// In a well-formed ledger, the payouts of all bets of a resolved market with
/// a positive winning pool add up to at most its whole pool, short of it by
/// exactly the summed rounding remainders divided by the winning pool, which
/// is less than one unit per winning bet.
pub proof fn lemma_ledger_payout_conservation(l: Ledger, id: u64)
    requires
        l.wf(),
        l.has_market(id),
        l.market_of(id).status == MarketStatus::Resolved,
        winning_pool(l.market_of(id)) > 0,
    ensures
        total_payout(l.market_of(id), l.bets@) <= l.market_of(id).total_pool,
        l.market_of(id).total_pool - total_payout(l.market_of(id), l.bets@) == rounding_remainders(
            l.market_of(id),
            l.bets@,
        ) / winning_pool(l.market_of(id)),
        l.market_of(id).total_pool - total_payout(l.market_of(id), l.bets@) < winner_count(l.market_of(id), l.bets@),
{
    let i = l.market_index(id);
    let m = l.markets@[i];
    assert(m.wf());
    assert(m.yes_pool == staked(l.bets@, m.market_id, BetDirection::Yes));
    assert(m.no_pool == staked(l.bets@, m.market_id, BetDirection::No));
    lemma_payout_conservation(m, l.bets@);
}

/// Nothing is staked in a market that no bet names.
proof fn lemma_nothing_staked(bets: Seq<Bet>, id: u64, d: BetDirection)
    requires
        forall|j: int| 0 <= j < bets.len() ==> (#[trigger] bets[j]).market_id != id,
    ensures
        staked(bets, id, d) == 0,
    decreases bets.len(),
{
    if bets.len() > 0 {
        lemma_nothing_staked(bets.drop_last(), id, d);
    }
}

} // verus!
