use vstd::prelude::*;

verus! {

/// A 32-byte account identity, held as four words.
#[derive(Clone, Copy, Debug, PartialEq, Eq, Structural)]
pub struct AccountKey {
    pub w0: u64,
    pub w1: u64,
    pub w2: u64,
    pub w3: u64,
}

/// Lifecycle of a contest.
#[derive(Clone, Copy, Debug, PartialEq, Eq, Structural)]
pub enum BattleStatus {
    /// Staked by the challenger, awaiting the opponent.
    Challenge,
    /// Both sides staked; betting and voting are open until the deadline.
    Live,
    /// Terminal: the winner is fixed and claims may be paid.
    Settled,
    /// Terminal: withdrawn by the challenger before acceptance.
    Cancelled,
}

/// One of the two sides of a contest.
#[derive(Clone, Copy, Debug, PartialEq, Eq, Structural)]
pub enum BetSide {
    Challenger,
    Opponent,
}

/// Every way an operation of the arena can be refused.
#[derive(Clone, Copy, Debug, PartialEq, Eq, Structural)]
pub enum ArenaError {
    NameTooLong,
    TopicTooLong,
    StakeTooLow,
    StakeMustMatch,
    InvalidVotingPeriod,
    InvalidFee,
    BetTooSmall,
    BattleNotOpen,
    NotChallenge,
    BattleNotLive,
    BattleNotSettled,
    VotingNotEnded,
    VotingEnded,
    AlreadyVoted,
    AlreadyClaimed,
    AlreadyBet,
    BetNotFound,
    NotWinner,
    NotOpponent,
    NotChallenger,
    SameFighter,
    ArithmeticOverflow,
    EmptyWinningPool,
}

} // verus!
