pub mod ledger;
pub mod market;
pub mod settlement;
pub mod types;

pub use ledger::{claim_winnings, create_market, place_bet, resolve_market, Ledger};
pub use market::{Bet, Market};
pub use settlement::compute_payout;
pub use types::{
    Account, Address, BetDirection, BetPlaced, ErrorCode, MarketCreated, MarketOutcome,
    MarketResolved, MarketStatus, Transfer, WinningsClaimed,
};
