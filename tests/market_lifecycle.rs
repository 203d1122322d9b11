use solrem_prediction_markets::{
    claim_winnings, compute_payout, create_market, place_bet, resolve_market, Account, Address,
    Bet, BetDirection, ErrorCode, Ledger, Market, MarketOutcome, MarketStatus, Transfer,
};

const END: i64 = 1_000;

fn addr(n: u8) -> Address {
    Address { bytes: [n; 32] }
}

fn market<'a>(l: &'a Ledger, id: u64) -> &'a Market {
    l.markets.iter().find(|m| m.market_id == id).unwrap()
}

fn open(l: &mut Ledger, id: u64, creator: u8, stake: u64) {
    create_market(l, id, &addr(creator), "Will it rain?".to_string(), END, stake, 10).unwrap();
}

fn bet(l: &mut Ledger, id: u64, who: u8, amount: u64, d: BetDirection) {
    place_bet(l, id, &addr(who), amount, d, 20).unwrap();
}

fn claim(l: &mut Ledger, id: u64, who: u8) -> (u64, Option<Transfer>) {
    let (ev, t) = claim_winnings(l, id, &addr(who), &addr(who)).unwrap();
    (ev.amount, t)
}

fn assert_custody_payout(t: Option<Transfer>, id: u64, who: u8, amount: u64) {
    let t = t.expect("a transfer");
    assert!(matches!(t.from, Account::Custody(m) if m == id));
    assert!(matches!(t.to, Account::Wallet(a) if a.bytes == addr(who).bytes));
    assert_eq!(t.amount, amount);
}

#[test]
fn creator_stake_goes_to_the_yes_winner() {
    let mut l = Ledger::new();
    open(&mut l, 7, 1, 100);
    bet(&mut l, 7, 2, 50, BetDirection::Yes);
    bet(&mut l, 7, 3, 150, BetDirection::No);
    resolve_market(&mut l, 7, &addr(1), MarketOutcome::Yes, END).unwrap();
    let m = market(&l, 7);
    assert_eq!(m.total_pool, 300);
    assert_eq!(m.yes_pool, 50);
    assert_eq!(m.no_pool, 150);
    let (a, ta) = claim(&mut l, 7, 2);
    assert_eq!(a, 300);
    assert_custody_payout(ta, 7, 2, 300);
    let (b, tb) = claim(&mut l, 7, 3);
    assert_eq!(b, 0);
    assert!(tb.is_none());
}

#[test]
fn two_equal_yes_bets_split_exactly() {
    let mut l = Ledger::new();
    open(&mut l, 1, 9, 0);
    bet(&mut l, 1, 2, 100, BetDirection::Yes);
    bet(&mut l, 1, 3, 100, BetDirection::Yes);
    assert_eq!(market(&l, 1).yes_pool, 200);
    assert_eq!(market(&l, 1).total_pool, 200);
    resolve_market(&mut l, 1, &addr(9), MarketOutcome::Yes, END + 5).unwrap();
    let (a, _) = claim(&mut l, 1, 2);
    let (b, _) = claim(&mut l, 1, 3);
    assert_eq!(a, 100);
    assert_eq!(b, 100);
    assert_eq!(a + b, 200);
}

#[test]
fn pools_add_up_after_many_bets() {
    let mut l = Ledger::new();
    open(&mut l, 3, 1, 40);
    let amounts = [5u64, 17, 1, 230, 64, 9];
    let mut sum = 0u64;
    for (k, a) in amounts.iter().enumerate() {
        let d = if k % 2 == 0 { BetDirection::Yes } else { BetDirection::No };
        bet(&mut l, 3, 10 + k as u8, *a, d);
        sum += a;
    }
    let m = market(&l, 3);
    assert_eq!(m.total_pool, 40 + sum);
    assert_eq!(m.yes_pool + m.no_pool + m.creator_stake, m.total_pool);
    assert_eq!(m.yes_pool, 5 + 1 + 64);
    assert_eq!(m.no_pool, 17 + 230 + 9);
    assert_eq!(l.bets.len(), amounts.len());
}

#[test]
fn second_bet_by_same_bettor_is_refused() {
    let mut l = Ledger::new();
    open(&mut l, 4, 1, 10);
    bet(&mut l, 4, 2, 30, BetDirection::Yes);
    let r = place_bet(&mut l, 4, &addr(2), 99, BetDirection::No, 21);
    assert_eq!(r.unwrap_err(), ErrorCode::DuplicateBet);
    assert_eq!(l.bets.len(), 1);
    assert_eq!(market(&l, 4).total_pool, 40);
    assert_eq!(market(&l, 4).no_pool, 0);
}

#[test]
fn same_bettor_may_bet_in_two_markets() {
    let mut l = Ledger::new();
    open(&mut l, 1, 1, 0);
    open(&mut l, 2, 1, 0);
    bet(&mut l, 1, 5, 10, BetDirection::Yes);
    bet(&mut l, 2, 5, 20, BetDirection::No);
    assert_eq!(market(&l, 1).yes_pool, 10);
    assert_eq!(market(&l, 2).no_pool, 20);
}

#[test]
fn resolution_waits_for_end_time() {
    let mut l = Ledger::new();
    open(&mut l, 5, 1, 10);
    let r = resolve_market(&mut l, 5, &addr(1), MarketOutcome::No, END - 1);
    assert_eq!(r.unwrap_err(), ErrorCode::MarketNotExpired);
    assert_eq!(market(&l, 5).status, MarketStatus::Active);
    let ev = resolve_market(&mut l, 5, &addr(1), MarketOutcome::No, END).unwrap();
    assert_eq!(ev.market_id, 5);
    assert_eq!(ev.outcome, MarketOutcome::No);
    assert_eq!(ev.resolved_at, END);
    let m = market(&l, 5);
    assert_eq!(m.status, MarketStatus::Resolved);
    assert_eq!(m.outcome, Some(MarketOutcome::No));
    assert_eq!(m.resolved_at, Some(END));
}

#[test]
fn only_creator_resolves_at_any_time() {
    let mut l = Ledger::new();
    open(&mut l, 6, 1, 10);
    for now in [0, END - 1, END, END + 100] {
        let r = resolve_market(&mut l, 6, &addr(2), MarketOutcome::Yes, now);
        assert_eq!(r.unwrap_err(), ErrorCode::UnauthorizedResolver);
    }
    assert_eq!(market(&l, 6).status, MarketStatus::Active);
}

#[test]
fn resolution_happens_once() {
    let mut l = Ledger::new();
    open(&mut l, 8, 1, 10);
    resolve_market(&mut l, 8, &addr(1), MarketOutcome::Yes, END).unwrap();
    let r = resolve_market(&mut l, 8, &addr(1), MarketOutcome::No, END + 1);
    assert_eq!(r.unwrap_err(), ErrorCode::MarketNotActive);
    assert_eq!(market(&l, 8).outcome, Some(MarketOutcome::Yes));
}

#[test]
fn claim_before_resolution_is_refused() {
    let mut l = Ledger::new();
    open(&mut l, 9, 1, 10);
    bet(&mut l, 9, 2, 30, BetDirection::Yes);
    let r = claim_winnings(&mut l, 9, &addr(2), &addr(2));
    assert_eq!(r.unwrap_err(), ErrorCode::MarketNotResolved);
    assert!(!l.bets[0].claimed);
}

#[test]
fn losing_bet_is_paid_nothing() {
    let mut l = Ledger::new();
    open(&mut l, 10, 1, 1_000);
    bet(&mut l, 10, 2, 30, BetDirection::Yes);
    bet(&mut l, 10, 3, 70, BetDirection::No);
    resolve_market(&mut l, 10, &addr(1), MarketOutcome::No, END).unwrap();
    let (lost, t) = claim(&mut l, 10, 2);
    assert_eq!(lost, 0);
    assert!(t.is_none());
    let (won, t) = claim(&mut l, 10, 3);
    assert_eq!(won, 1_100);
    assert_custody_payout(t, 10, 3, 1_100);
}

#[test]
fn rounding_leaves_less_than_one_unit_per_winner() {
    let mut l = Ledger::new();
    open(&mut l, 11, 1, 1);
    bet(&mut l, 11, 2, 1, BetDirection::Yes);
    bet(&mut l, 11, 3, 1, BetDirection::Yes);
    bet(&mut l, 11, 4, 1, BetDirection::Yes);
    bet(&mut l, 11, 5, 6, BetDirection::No);
    resolve_market(&mut l, 11, &addr(1), MarketOutcome::Yes, END).unwrap();
    let total = market(&l, 11).total_pool;
    assert_eq!(total, 10);
    let mut paid = 0u64;
    for who in 2..=5u8 {
        paid += claim(&mut l, 11, who).0;
    }
    // Each winner gets floor(1 * 10 / 3) = 3.
    assert_eq!(paid, 9);
    assert!(paid <= total);
    assert!(total - paid < 3);
    // What stays behind is the summed remainders (1 * 10) % 3, divided by 3.
    assert_eq!(total - paid, 3 * ((1 * 10) % 3) / 3);
}

#[test]
fn no_winning_stake_pays_nothing() {
    let mut l = Ledger::new();
    open(&mut l, 12, 1, 50);
    bet(&mut l, 12, 2, 20, BetDirection::No);
    resolve_market(&mut l, 12, &addr(1), MarketOutcome::Yes, END).unwrap();
    assert_eq!(claim(&mut l, 12, 2).0, 0);
}

#[test]
fn second_claim_is_refused() {
    let mut l = Ledger::new();
    open(&mut l, 13, 1, 0);
    bet(&mut l, 13, 2, 10, BetDirection::Yes);
    resolve_market(&mut l, 13, &addr(1), MarketOutcome::Yes, END).unwrap();
    assert_eq!(claim(&mut l, 13, 2).0, 10);
    assert!(l.bets[0].claimed);
    let r = claim_winnings(&mut l, 13, &addr(2), &addr(2));
    assert_eq!(r.unwrap_err(), ErrorCode::AlreadyClaimed);
}

#[test]
fn claim_by_someone_else_is_refused() {
    let mut l = Ledger::new();
    open(&mut l, 14, 1, 0);
    bet(&mut l, 14, 2, 10, BetDirection::Yes);
    resolve_market(&mut l, 14, &addr(1), MarketOutcome::Yes, END).unwrap();
    let r = claim_winnings(&mut l, 14, &addr(2), &addr(3));
    assert_eq!(r.unwrap_err(), ErrorCode::UnauthorizedClaimer);
    assert!(!l.bets[0].claimed);
}

#[test]
fn claim_without_bet_is_refused() {
    let mut l = Ledger::new();
    open(&mut l, 15, 1, 0);
    resolve_market(&mut l, 15, &addr(1), MarketOutcome::Yes, END).unwrap();
    let r = claim_winnings(&mut l, 15, &addr(2), &addr(2));
    assert_eq!(r.unwrap_err(), ErrorCode::BetNotFound);
}

#[test]
fn unknown_market_is_refused() {
    let mut l = Ledger::new();
    assert_eq!(
        place_bet(&mut l, 99, &addr(2), 5, BetDirection::Yes, 0).unwrap_err(),
        ErrorCode::MarketNotFound
    );
    assert_eq!(
        resolve_market(&mut l, 99, &addr(2), MarketOutcome::Yes, END).unwrap_err(),
        ErrorCode::MarketNotFound
    );
    assert_eq!(
        claim_winnings(&mut l, 99, &addr(2), &addr(2)).unwrap_err(),
        ErrorCode::MarketNotFound
    );
}

#[test]
fn duplicate_market_id_is_refused() {
    let mut l = Ledger::new();
    open(&mut l, 16, 1, 5);
    let r = create_market(&mut l, 16, &addr(2), "again".to_string(), END, 9, 11);
    assert_eq!(r.unwrap_err(), ErrorCode::DuplicateMarket);
    assert_eq!(l.markets.len(), 1);
    assert_eq!(market(&l, 16).creator_stake, 5);
}

#[test]
fn create_reports_event_and_stake_transfer() {
    let mut l = Ledger::new();
    let (ev, t) =
        create_market(&mut l, 17, &addr(4), "Rain tomorrow".to_string(), END, 250, 3).unwrap();
    assert_eq!(ev.market_id, 17);
    assert_eq!(ev.creator.bytes, addr(4).bytes);
    assert_eq!(ev.description, "Rain tomorrow");
    assert_eq!(ev.end_time, END);
    assert_eq!(ev.creator_stake, 250);
    assert!(matches!(t.from, Account::Wallet(a) if a.bytes == addr(4).bytes));
    assert!(matches!(t.to, Account::Custody(17)));
    assert_eq!(t.amount, 250);
    let m = market(&l, 17);
    assert_eq!(m.total_pool, 250);
    assert_eq!((m.yes_pool, m.no_pool), (0, 0));
    assert_eq!(m.status, MarketStatus::Active);
    assert_eq!(m.outcome, None);
    assert_eq!(m.created_at, 3);
    assert_eq!(m.resolved_at, None);
}

#[test]
fn bet_reports_event_and_transfer() {
    let mut l = Ledger::new();
    open(&mut l, 18, 1, 0);
    let (ev, t) = place_bet(&mut l, 18, &addr(6), 42, BetDirection::No, 20).unwrap();
    assert_eq!(ev.market_id, 18);
    assert_eq!(ev.bettor.bytes, addr(6).bytes);
    assert_eq!(ev.amount, 42);
    assert_eq!(ev.direction, BetDirection::No);
    assert!(matches!(t.from, Account::Wallet(a) if a.bytes == addr(6).bytes));
    assert!(matches!(t.to, Account::Custody(18)));
    assert_eq!(t.amount, 42);
    let b = &l.bets[0];
    assert_eq!(b.created_at, 20);
    assert!(!b.claimed);
}

#[test]
fn bet_after_end_is_refused() {
    let mut l = Ledger::new();
    open(&mut l, 19, 1, 0);
    let r = place_bet(&mut l, 19, &addr(2), 5, BetDirection::Yes, END);
    assert_eq!(r.unwrap_err(), ErrorCode::MarketExpired);
    assert!(l.bets.is_empty());
}

#[test]
fn bet_on_resolved_market_is_refused() {
    let mut l = Ledger::new();
    open(&mut l, 20, 1, 0);
    resolve_market(&mut l, 20, &addr(1), MarketOutcome::Yes, END).unwrap();
    let r = place_bet(&mut l, 20, &addr(2), 5, BetDirection::Yes, 0);
    assert_eq!(r.unwrap_err(), ErrorCode::MarketNotActive);
}

#[test]
fn zero_bet_is_refused() {
    let mut l = Ledger::new();
    open(&mut l, 21, 1, 0);
    let r = place_bet(&mut l, 21, &addr(2), 0, BetDirection::Yes, 0);
    assert_eq!(r.unwrap_err(), ErrorCode::ZeroBetAmount);
}

#[test]
fn bet_that_overflows_the_pool_is_refused() {
    let mut l = Ledger::new();
    open(&mut l, 22, 1, u64::MAX - 10);
    bet(&mut l, 22, 2, 10, BetDirection::Yes);
    assert_eq!(market(&l, 22).total_pool, u64::MAX);
    let r = place_bet(&mut l, 22, &addr(3), 1, BetDirection::No, 0);
    assert_eq!(r.unwrap_err(), ErrorCode::PoolOverflow);
    assert_eq!(market(&l, 22).no_pool, 0);
}

#[test]
fn payout_uses_wide_arithmetic() {
    let mut l = Ledger::new();
    open(&mut l, 23, 1, u64::MAX - 3 * (1 << 40));
    bet(&mut l, 23, 2, 1 << 40, BetDirection::Yes);
    bet(&mut l, 23, 3, 2 << 40, BetDirection::Yes);
    resolve_market(&mut l, 23, &addr(1), MarketOutcome::Yes, END).unwrap();
    let total = market(&l, 23).total_pool;
    assert_eq!(total, u64::MAX);
    let a = claim(&mut l, 23, 2).0;
    let b = claim(&mut l, 23, 3).0;
    assert_eq!(a, (u64::MAX as u128 / 3) as u64);
    assert_eq!(b, ((u64::MAX as u128 * 2) / 3) as u64);
    assert!(total - (a + b) < 2);
}

#[test]
fn compute_payout_on_records() {
    let mut m = Market::new(1, addr(1), "q".to_string(), END, 100, 0);
    m.yes_pool = 50;
    m.no_pool = 150;
    m.total_pool = 300;
    let yes = Bet {
        market_id: 1,
        bettor: addr(2),
        amount: 50,
        direction: BetDirection::Yes,
        created_at: 1,
        claimed: false,
    };
    let no = Bet { bettor: addr(3), amount: 150, direction: BetDirection::No, ..yes };
    assert_eq!(compute_payout(&m, &yes), 0);
    m.status = MarketStatus::Resolved;
    m.outcome = Some(MarketOutcome::Yes);
    m.resolved_at = Some(END);
    assert_eq!(compute_payout(&m, &yes), 300);
    assert_eq!(compute_payout(&m, &no), 0);
    m.outcome = Some(MarketOutcome::No);
    assert_eq!(compute_payout(&m, &yes), 0);
    assert_eq!(compute_payout(&m, &no), 300);
}

#[test]
fn addresses_compare_by_every_byte() {
    let a = addr(1);
    let mut b = addr(1);
    assert!(a.same(&b));
    b.bytes[31] = 2;
    assert!(!a.same(&b));
    b.bytes[31] = 1;
    b.bytes[0] = 0;
    assert!(!a.same(&b));
}

#[test]
fn record_transitions_follow_the_lifecycle() {
    let mut m = Market::new(30, addr(1), "q".to_string(), END, 100, 0);
    let a = m.add_bet(&addr(2), 50, BetDirection::Yes, 5).unwrap();
    let b = m.add_bet(&addr(3), 150, BetDirection::No, 6).unwrap();
    assert_eq!((a.market_id, a.amount, a.created_at), (30, 50, 5));
    assert_eq!((m.total_pool, m.yes_pool, m.no_pool), (300, 50, 150));
    assert_eq!(m.add_bet(&addr(4), 1, BetDirection::No, END).unwrap_err(), ErrorCode::MarketExpired);
    assert_eq!(
        m.resolve(&addr(2), MarketOutcome::Yes, END).unwrap_err(),
        ErrorCode::UnauthorizedResolver
    );
    assert_eq!(
        m.resolve(&addr(1), MarketOutcome::Yes, END - 1).unwrap_err(),
        ErrorCode::MarketNotExpired
    );
    let mut a = a;
    let mut b = b;
    assert_eq!(m.settle(&mut a, &addr(2)).unwrap_err(), ErrorCode::MarketNotResolved);
    let ev = m.resolve(&addr(1), MarketOutcome::Yes, END).unwrap();
    assert_eq!((ev.market_id, ev.resolved_at), (30, END));
    assert_eq!(m.add_bet(&addr(4), 1, BetDirection::No, 0).unwrap_err(), ErrorCode::MarketNotActive);
    assert_eq!(m.settle(&mut a, &addr(3)).unwrap_err(), ErrorCode::UnauthorizedClaimer);
    assert!(!a.claimed);
    assert_eq!(m.settle(&mut a, &addr(2)).unwrap(), 300);
    assert!(a.claimed);
    assert_eq!(m.settle(&mut a, &addr(2)).unwrap_err(), ErrorCode::AlreadyClaimed);
    assert_eq!(m.settle(&mut b, &addr(3)).unwrap(), 0);
}

#[test]
fn resolved_market_refuses_any_resolver() {
    let mut l = Ledger::new();
    open(&mut l, 24, 1, 10);
    resolve_market(&mut l, 24, &addr(1), MarketOutcome::No, END).unwrap();
    for who in [1u8, 2] {
        let r = resolve_market(&mut l, 24, &addr(who), MarketOutcome::Yes, END + 1);
        assert_eq!(r.unwrap_err(), ErrorCode::MarketNotActive);
    }
    let m = market(&l, 24);
    assert_eq!(m.status, MarketStatus::Resolved);
    assert_eq!(m.outcome, Some(MarketOutcome::No));
    assert_eq!(m.resolved_at, Some(END));
}
