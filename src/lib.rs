//! A peer-judged wagering arena: two fighters stake on a contest, anyone
//! bets on either side, bettors vote with the weight of their own bet, and a
//! settled contest pays its winning side pro rata from a shared escrow.

pub mod types;
pub mod rating;
pub mod arena;
pub mod book;
pub mod battle;
pub mod laws;

pub use types::{AccountKey, ArenaError, BattleStatus, BetSide};
pub use rating::calculate_new_elo;
pub use arena::{initialize, register_fighter, Arena, ArenaConfig, Fighter, Initialize, RegisterFighter};
pub use book::{Battle, Bet, Contest};
pub use battle::{
    accept_challenge, cancel_challenge, challenge, claim_winnings, decide_winner, place_bet,
    settle_battle, vote, AcceptChallenge, CancelChallenge, Challenge, ClaimWinnings, PlaceBet,
    SettleBattle, Vote,
};
