use vstd::prelude::*;

verus! {

/// The identity of a participant: a 32-byte public key.
#[derive(Clone, Copy, Debug)]
pub struct Address {
    pub bytes: [u8; 32],
}

impl Address {
    pub open spec fn view(&self) -> Seq<u8> {
        self.bytes@
    }

    /// Whether two identities are the same key.
    pub fn same(&self, other: &Address) -> (r: bool)
        ensures
            r == (self@ == other@),
    {
        let mut i: usize = 0;
        while i < 32
            invariant
                i <= 32,
                self.bytes@.len() == 32,
                other.bytes@.len() == 32,
                forall|j: int| 0 <= j < i ==> self.bytes@[j] == other.bytes@[j],
            decreases 32 - i,
        {
            if self.bytes[i] != other.bytes[i] {
                return false;
            }
            i = i + 1;
        }
        assert(self.bytes@ =~= other.bytes@);
        true
    }
}

/// Where a market is in its lifecycle.
#[derive(Clone, Copy, Debug, PartialEq, Eq, Structural)]
pub enum MarketStatus {
    Active,
    Resolved,
    Cancelled,
}

/// The declared result of a market.
#[derive(Clone, Copy, Debug, PartialEq, Eq, Structural)]
pub enum MarketOutcome {
    Yes,
    No,
}

/// The side a bettor stakes on.
#[derive(Clone, Copy, Debug, PartialEq, Eq, Structural)]
pub enum BetDirection {
    Yes,
    No,
}

/// The side whose bets win under outcome `o`.
pub open spec fn direction_for(o: MarketOutcome) -> BetDirection {
    match o {
        MarketOutcome::Yes => BetDirection::Yes,
        MarketOutcome::No => BetDirection::No,
    }
}

/// Why an operation was rejected. A rejected operation changes nothing.
#[derive(Clone, Copy, Debug, PartialEq, Eq, Structural)]
pub enum ErrorCode {
    /// The market no longer takes bets or resolutions.
    MarketNotActive,
    /// The market's end time has passed.
    MarketExpired,
    /// The market's end time has not come yet.
    MarketNotExpired,
    /// The market has no outcome yet.
    MarketNotResolved,
    /// Only the market's creator may resolve it.
    UnauthorizedResolver,
    /// Only the bettor may claim on their bet.
    UnauthorizedClaimer,
    /// A market with this id exists already.
    DuplicateMarket,
    /// This bettor has a bet in this market already.
    DuplicateBet,
    /// No market has this id.
    MarketNotFound,
    /// This bettor has no bet in this market.
    BetNotFound,
    /// The bet was settled already.
    AlreadyClaimed,
    /// A bet must stake a positive amount.
    ZeroBetAmount,
    /// The whole pool would no longer fit in 64 bits.
    PoolOverflow,
    /// The custody service could not move the amount; reported by the host
    /// that carries out transfers.
    InsufficientFunds,
}

/// An account that value moves between.
#[derive(Clone, Copy, Debug)]
pub enum Account {
    /// A participant's own token account.
    Wallet(Address),
    /// The custody account owned by the market with this id.
    Custody(u64),
}

/// A movement of `amount` from one account to another, to be carried out by
/// the custody service.
#[derive(Clone, Copy, Debug)]
pub struct Transfer {
    pub from: Account,
    pub to: Account,
    pub amount: u64,
}

/// Emitted when a market is created.
#[derive(Clone, Debug)]
pub struct MarketCreated {
    pub market_id: u64,
    pub creator: Address,
    pub description: String,
    pub end_time: i64,
    pub creator_stake: u64,
}

/// Emitted when a bet is placed.
#[derive(Clone, Copy, Debug)]
pub struct BetPlaced {
    pub market_id: u64,
    pub bettor: Address,
    pub amount: u64,
    pub direction: BetDirection,
}

/// Emitted when a market is resolved.
#[derive(Clone, Copy, Debug)]
pub struct MarketResolved {
    pub market_id: u64,
    pub outcome: MarketOutcome,
    pub resolved_at: i64,
}

/// Emitted when a bettor claims; `amount` is zero for a losing bet.
#[derive(Clone, Copy, Debug)]
pub struct WinningsClaimed {
    pub market_id: u64,
    pub bettor: Address,
    pub amount: u64,
}

} // verus!
