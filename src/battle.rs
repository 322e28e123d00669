use vstd::prelude::*;
use crate::types::{AccountKey, ArenaError, BattleStatus, BetSide};
use crate::rating::{EXPECTED_SCALE, rating_after, calculate_new_elo};
use crate::arena::{Arena, Fighter, BPS_SCALE, byte_len};
use crate::book::{
    Battle, Bet, Contest, bet_index, claimed_payouts, claimed_stake, fee_of, find_bet, has_bet,
    lemma_book_push, lemma_book_update, lemma_claimed_within_pool, lemma_nothing_claimed,
    lemma_payouts_scaled, lemma_votes_within_pool, payout, side_pool, side_votes,
};

verus! {

/// Shortest voting window, in seconds (five minutes).
pub const MIN_VOTING_PERIOD: i64 = 300;

/// Longest voting window, in seconds (a day).
pub const MAX_VOTING_PERIOD: i64 = 86_400;

/// Longest topic, in bytes.
pub const MAX_TOPIC_LEN: usize = 256;

/// The accounts that placing a bet touches.
#[derive(Debug)]
pub struct PlaceBet {
    pub arena: Arena,
    pub contest: Contest,
    pub bettor: AccountKey,
}

/// The accounts that casting a vote touches.
#[derive(Debug)]
pub struct Vote {
    pub contest: Contest,
    pub bettor: AccountKey,
}

/// `b` with `amount` more staked on `side` and one more bet counted.
pub open spec fn with_stake(b: Battle, side: BetSide, amount: u64) -> Battle {
    match side {
        BetSide::Challenger => Battle {
            pool_challenger: (b.pool_challenger + amount) as u64,
            total_bets: (b.total_bets + 1) as u64,
            ..b
        },
        BetSide::Opponent => Battle {
            pool_opponent: (b.pool_opponent + amount) as u64,
            total_bets: (b.total_bets + 1) as u64,
            ..b
        },
    }
}

/// `b` with `weight` more vote weight on `side`.
pub open spec fn with_votes(b: Battle, side: BetSide, weight: u64) -> Battle {
    match side {
        BetSide::Challenger => Battle { votes_challenger: (b.votes_challenger + weight) as u64, ..b },
        BetSide::Opponent => Battle { votes_opponent: (b.votes_opponent + weight) as u64, ..b },
    }
}

/// Why `place_bet` refuses the bet, if it does.
pub open spec fn place_bet_error(ctx: PlaceBet, amount: u64, now: i64) -> Option<ArenaError> {
    let b = ctx.contest.battle;
    if amount < ctx.arena.min_bet {
        Some(ArenaError::BetTooSmall)
    } else if !(b.status == BattleStatus::Challenge || b.status == BattleStatus::Live) {
        Some(ArenaError::BattleNotOpen)
    } else if b.voting_closed(now) {
        Some(ArenaError::VotingEnded)
    } else if has_bet(ctx.contest.bets@, ctx.bettor) {
        Some(ArenaError::AlreadyBet)
    } else if ctx.contest.escrow + amount > u64::MAX || b.total_bets == u64::MAX {
        Some(ArenaError::ArithmeticOverflow)
    } else {
        None
    }
}

/// Why `vote` refuses the vote, if it does.
pub open spec fn vote_error(ctx: Vote, now: i64) -> Option<ArenaError> {
    let b = ctx.contest.battle;
    let bets = ctx.contest.bets@;
    if b.status != BattleStatus::Live {
        Some(ArenaError::BattleNotLive)
    } else if !has_bet(bets, ctx.bettor) {
        Some(ArenaError::BetNotFound)
    } else if bets[bet_index(bets, ctx.bettor)].has_voted {
        Some(ArenaError::AlreadyVoted)
    } else if b.voting_closed(now) {
        Some(ArenaError::VotingEnded)
    } else {
        None
    }
}

impl Battle {
    /// Adds `amount` to the pool of `side` and counts one more bet.
    fn add_stake(&mut self, side: BetSide, amount: u64)
        requires
            old(self).pool_spec(side) + amount <= u64::MAX,
            old(self).total_bets < u64::MAX,
        ensures
            *final(self) == with_stake(*old(self), side, amount),
    {
        match side {
            BetSide::Challenger => self.pool_challenger = self.pool_challenger + amount,
            BetSide::Opponent => self.pool_opponent = self.pool_opponent + amount,
        }
        self.total_bets = self.total_bets + 1;
    }

    /// Adds `weight` to the vote weight of `side`.
    fn add_votes(&mut self, side: BetSide, weight: u64)
        requires
            old(self).votes_spec(side) + weight <= u64::MAX,
        ensures
            *final(self) == with_votes(*old(self), side, weight),
    {
        match side {
            BetSide::Challenger => self.votes_challenger = self.votes_challenger + weight,
            BetSide::Opponent => self.votes_opponent = self.votes_opponent + weight,
        }
    }
}

/// Places a bet of `amount` on `side` for the signing bettor. Open while the
/// contest awaits its opponent or is live, and, once a voting deadline
/// exists, only before it; one bet per identity. The amount goes into escrow
/// and into the pool of `side`.
pub fn place_bet(ctx: &mut PlaceBet, amount: u64, side: BetSide, now: i64) -> (r: Result<
    (),
    ArenaError,
>)
    requires
        old(ctx).contest.wf(),
    ensures
        final(ctx).contest.wf(),
        r is Ok <==> place_bet_error(*old(ctx), amount, now) is None,
        r matches Err(e) ==> place_bet_error(*old(ctx), amount, now) == Some(e) && *final(ctx)
            == *old(ctx),
        r is Ok ==> {
            &&& final(ctx).arena == old(ctx).arena
            &&& final(ctx).bettor == old(ctx).bettor
            &&& final(ctx).contest.battle == with_stake(old(ctx).contest.battle, side, amount)
            &&& final(ctx).contest.bets@ == old(ctx).contest.bets@.push(
                Bet {
                    battle: old(ctx).contest.battle.id,
                    bettor: old(ctx).bettor,
                    amount,
                    side,
                    has_voted: false,
                    claimed: false,
                    placed_at: now,
                },
            )
            &&& final(ctx).contest.escrow == old(ctx).contest.escrow + amount
        },
{
    let c = &ctx.contest;
    if amount < ctx.arena.min_bet {
        return Err(ArenaError::BetTooSmall);
    }
    if !(c.battle.status == BattleStatus::Challenge || c.battle.status == BattleStatus::Live) {
        return Err(ArenaError::BattleNotOpen);
    }
    if let Some(ends) = c.battle.voting_ends_at {
        if now >= ends {
            return Err(ArenaError::VotingEnded);
        }
    }
    if find_bet(&c.bets, ctx.bettor).is_some() {
        return Err(ArenaError::AlreadyBet);
    }
    if amount > u64::MAX - c.escrow || c.battle.total_bets == u64::MAX {
        return Err(ArenaError::ArithmeticOverflow);
    }
    let bet = Bet {
        battle: c.battle.id,
        bettor: ctx.bettor,
        amount,
        side,
        has_voted: false,
        claimed: false,
        placed_at: now,
    };
    proof {
        lemma_book_push(ctx.contest.bets@, bet);
    }
    ctx.contest.battle.add_stake(side, amount);
    ctx.contest.bets.push(bet);
    ctx.contest.escrow = ctx.contest.escrow + amount;
    Ok(())
}


/// Casts the signing bettor's vote: the whole amount of its bet goes to the
/// side it bet on, and nowhere else. Only while the contest is live, before
/// the deadline, and once per bet.
pub fn vote(ctx: &mut Vote, now: i64) -> (r: Result<(), ArenaError>)
    requires
        old(ctx).contest.wf(),
    ensures
        final(ctx).contest.wf(),
        r is Ok <==> vote_error(*old(ctx), now) is None,
        r matches Err(e) ==> vote_error(*old(ctx), now) == Some(e) && *final(ctx) == *old(ctx),
        r is Ok ==> {
            let i = bet_index(old(ctx).contest.bets@, old(ctx).bettor);
            let bet = old(ctx).contest.bets@[i];
            &&& final(ctx).bettor == old(ctx).bettor
            &&& final(ctx).contest.bets@ == old(ctx).contest.bets@.update(
                i,
                Bet { has_voted: true, ..bet },
            )
            &&& final(ctx).contest.battle == with_votes(
                old(ctx).contest.battle,
                bet.side,
                bet.amount,
            )
            &&& final(ctx).contest.escrow == old(ctx).contest.escrow
        },
{
    if ctx.contest.battle.status != BattleStatus::Live {
        return Err(ArenaError::BattleNotLive);
    }
    let i = match find_bet(&ctx.contest.bets, ctx.bettor) {
        Some(i) => i,
        None => {
            return Err(ArenaError::BetNotFound);
        },
    };
    let mut bet = ctx.contest.bets[i];
    if bet.has_voted {
        return Err(ArenaError::AlreadyVoted);
    }
    if let Some(ends) = ctx.contest.battle.voting_ends_at {
        if now >= ends {
            return Err(ArenaError::VotingEnded);
        }
    }
    bet.has_voted = true;
    proof {
        let bets = ctx.contest.bets@;
        lemma_book_update(bets, i as int, bet);
        lemma_votes_within_pool(bets.update(i as int, bet), bet.side);
        assert(bets.update(i as int, bet)[i as int] == bet);
    }
    ctx.contest.battle.add_votes(bet.side, bet.amount);
    ctx.contest.bets.set(i, bet);
    proof {
        let bets = ctx.contest.bets@;
        assert forall|k: int| 0 <= k < bets.len() implies (#[trigger] bets[k]).battle
            == ctx.contest.battle.id && (bets[k].claimed ==> false) by {
            if k != i {
                assert(bets[k] == old(ctx).contest.bets@[k]);
            }
        }
    }
    Ok(())
}


/// The accounts that settling a contest touches.
#[derive(Debug)]
pub struct SettleBattle {
    pub arena: Arena,
    pub contest: Contest,
    pub challenger: Fighter,
    pub opponent: Fighter,
}

/// `f` after a settled contest: its new rating, and one more win or loss.
pub open spec fn settled_fighter(f: Fighter, new_elo: int, won: bool) -> Fighter {
    Fighter {
        elo: new_elo as u32,
        wins: if won {
            (f.wins + 1) as u32
        } else {
            f.wins
        },
        losses: if won {
            f.losses
        } else {
            (f.losses + 1) as u32
        },
        ..f
    }
}

/// Why `settle_battle` refuses to settle, if it does.
pub open spec fn settle_error(ctx: SettleBattle, now: i64) -> Option<ArenaError> {
    let b = ctx.contest.battle;
    let challenger_won = b.leading_side() == BetSide::Challenger;
    let winner = if challenger_won {
        ctx.challenger
    } else {
        ctx.opponent
    };
    let loser = if challenger_won {
        ctx.opponent
    } else {
        ctx.challenger
    };
    if ctx.challenger.wallet != b.challenger {
        Some(ArenaError::NotChallenger)
    } else if ctx.opponent.wallet != b.opponent {
        Some(ArenaError::NotOpponent)
    } else if b.status != BattleStatus::Live {
        Some(ArenaError::BattleNotLive)
    } else if !b.voting_closed(now) {
        Some(ArenaError::VotingNotEnded)
    } else if winner.wins == u32::MAX || loser.losses == u32::MAX || ctx.arena.total_volume
        + b.total_pool() > u64::MAX {
        Some(ArenaError::ArithmeticOverflow)
    } else {
        None
    }
}

/// The side that wins `battle` by its votes, then its pools, then the
/// challenger's side where both are equal.
pub fn decide_winner(battle: &Battle) -> (r: BetSide)
    ensures
        r == battle.leading_side(),
{
    if battle.votes_challenger > battle.votes_opponent {
        BetSide::Challenger
    } else if battle.votes_opponent > battle.votes_challenger {
        BetSide::Opponent
    } else if battle.pool_opponent > battle.pool_challenger {
        BetSide::Opponent
    } else {
        BetSide::Challenger
    }
}

/// The house fee on `total`: `fee_bps` basis points, rounded down.
pub fn house_fee_for(total: u64, fee_bps: u16) -> (r: u64)
    requires
        fee_bps <= BPS_SCALE,
    ensures
        r == fee_of(total as int, fee_bps as int),
        r <= total,
{
    assert((total as u128) * (fee_bps as u128) <= u64::MAX * 10000) by (nonlinear_arith)
        requires
            fee_bps <= 10000,
    ;
    let wide: u128 = (total as u128) * (fee_bps as u128);
    let fee: u128 = wide / (BPS_SCALE as u128);
    assert(fee <= total) by (nonlinear_arith)
        requires
            wide == total * fee_bps,
            fee == wide / 10000,
            fee_bps <= 10000,
    ;
    fee as u64
}

/// Settles a live contest once its voting deadline has passed: fixes the
/// winner, moves the house fee out of escrow, adds the pool to the arena's
/// volume, and updates both fighters' ratings and records. `expected_challenger`
/// is the challenger's expected score in millionths. Returns the fee.
pub fn settle_battle(ctx: &mut SettleBattle, now: i64, expected_challenger: u64) -> (r: Result<
    u64,
    ArenaError,
>)
    requires
        old(ctx).arena.wf(),
        old(ctx).contest.wf(),
        expected_challenger <= EXPECTED_SCALE,
    ensures
        final(ctx).contest.wf(),
        final(ctx).arena.wf(),
        r is Ok <==> settle_error(*old(ctx), now) is None,
        r matches Err(e) ==> settle_error(*old(ctx), now) == Some(e) && *final(ctx) == *old(ctx),
        r matches Ok(fee) ==> {
            let b = old(ctx).contest.battle;
            let w = b.leading_side();
            &&& fee == fee_of(b.total_pool(), old(ctx).arena.house_fee_bps as int)
            &&& final(ctx).contest.battle == (Battle {
                status: BattleStatus::Settled,
                winner: Some(w),
                settled_at: Some(now),
                house_fee: fee,
                ..b
            })
            &&& final(ctx).contest.bets@ == old(ctx).contest.bets@
            &&& final(ctx).contest.escrow == old(ctx).contest.escrow - fee
            &&& final(ctx).arena == (Arena {
                total_volume: (old(ctx).arena.total_volume + b.total_pool()) as u64,
                ..old(ctx).arena
            })
            &&& final(ctx).challenger == settled_fighter(
                old(ctx).challenger,
                rating_after(
                    old(ctx).challenger.elo as int,
                    expected_challenger as int,
                    w == BetSide::Challenger,
                ),
                w == BetSide::Challenger,
            )
            &&& final(ctx).opponent == settled_fighter(
                old(ctx).opponent,
                rating_after(
                    old(ctx).opponent.elo as int,
                    EXPECTED_SCALE - expected_challenger,
                    w == BetSide::Opponent,
                ),
                w == BetSide::Opponent,
            )
            &&& final(ctx).challenger.wf()
            &&& final(ctx).opponent.wf()
        },
{
    if ctx.challenger.wallet != ctx.contest.battle.challenger {
        return Err(ArenaError::NotChallenger);
    }
    if ctx.opponent.wallet != ctx.contest.battle.opponent {
        return Err(ArenaError::NotOpponent);
    }
    if ctx.contest.battle.status != BattleStatus::Live {
        return Err(ArenaError::BattleNotLive);
    }
    if let Some(ends) = ctx.contest.battle.voting_ends_at {
        if now < ends {
            return Err(ArenaError::VotingNotEnded);
        }
    }
    let winner = decide_winner(&ctx.contest.battle);
    let challenger_won = winner == BetSide::Challenger;
    if challenger_won {
        if ctx.challenger.wins == u32::MAX || ctx.opponent.losses == u32::MAX {
            return Err(ArenaError::ArithmeticOverflow);
        }
    } else {
        if ctx.opponent.wins == u32::MAX || ctx.challenger.losses == u32::MAX {
            return Err(ArenaError::ArithmeticOverflow);
        }
    }
    let total = ctx.contest.battle.pool_challenger + ctx.contest.battle.pool_opponent;
    if total > u64::MAX - ctx.arena.total_volume {
        return Err(ArenaError::ArithmeticOverflow);
    }
    let fee = house_fee_for(total, ctx.arena.house_fee_bps);
    let (new_c, new_o) = calculate_new_elo(
        ctx.challenger.elo,
        ctx.opponent.elo,
        challenger_won,
        expected_challenger,
    );
    proof {
        lemma_nothing_claimed(
            ctx.contest.bets@,
            total - fee,
            ctx.contest.battle.pool_spec(winner) as int,
        );
    }
    if challenger_won {
        ctx.challenger.wins = ctx.challenger.wins + 1;
        ctx.opponent.losses = ctx.opponent.losses + 1;
    } else {
        ctx.opponent.wins = ctx.opponent.wins + 1;
        ctx.challenger.losses = ctx.challenger.losses + 1;
    }
    ctx.challenger.elo = new_c;
    ctx.opponent.elo = new_o;
    ctx.contest.escrow = ctx.contest.escrow - fee;
    ctx.contest.battle.house_fee = fee;
    ctx.contest.battle.winner = Some(winner);
    ctx.contest.battle.status = BattleStatus::Settled;
    ctx.contest.battle.settled_at = Some(now);
    ctx.arena.total_volume = ctx.arena.total_volume + total;
    Ok(fee)
}


/// The accounts that claiming winnings touches.
#[derive(Debug)]
pub struct ClaimWinnings {
    pub contest: Contest,
    pub bettor: AccountKey,
}

/// Why `claim_winnings` refuses the claim, if it does.
pub open spec fn claim_error(ctx: ClaimWinnings) -> Option<ArenaError> {
    let b = ctx.contest.battle;
    let bets = ctx.contest.bets@;
    let bet = bets[bet_index(bets, ctx.bettor)];
    if b.status != BattleStatus::Settled {
        Some(ArenaError::BattleNotSettled)
    } else if !has_bet(bets, ctx.bettor) {
        Some(ArenaError::BetNotFound)
    } else if bet.claimed {
        Some(ArenaError::AlreadyClaimed)
    } else if b.winner != Some(bet.side) {
        Some(ArenaError::NotWinner)
    } else if b.winning_pool() == 0 {
        Some(ArenaError::EmptyWinningPool)
    } else {
        None
    }
}

/// Pays the signing bettor's winning bet its share of the prize pool,
/// `amount * prize_pool / winning_pool` rounded down, out of escrow, and
/// marks the bet claimed, once. Returns the payout.
pub fn claim_winnings(ctx: &mut ClaimWinnings) -> (r: Result<u64, ArenaError>)
    requires
        old(ctx).contest.wf(),
    ensures
        final(ctx).contest.wf(),
        r is Ok <==> claim_error(*old(ctx)) is None,
        r matches Err(e) ==> claim_error(*old(ctx)) == Some(e) && *final(ctx) == *old(ctx),
        r matches Ok(paid) ==> {
            let b = old(ctx).contest.battle;
            let i = bet_index(old(ctx).contest.bets@, old(ctx).bettor);
            let bet = old(ctx).contest.bets@[i];
            &&& paid == payout(bet.amount as int, b.prize_pool(), b.winning_pool())
            &&& final(ctx).bettor == old(ctx).bettor
            &&& final(ctx).contest.battle == b
            &&& final(ctx).contest.bets@ == old(ctx).contest.bets@.update(
                i,
                Bet { claimed: true, ..bet },
            )
            &&& final(ctx).contest.escrow == old(ctx).contest.escrow - paid
        },
{
    if ctx.contest.battle.status != BattleStatus::Settled {
        return Err(ArenaError::BattleNotSettled);
    }
    let i = match find_bet(&ctx.contest.bets, ctx.bettor) {
        Some(i) => i,
        None => {
            return Err(ArenaError::BetNotFound);
        },
    };
    let mut bet = ctx.contest.bets[i];
    if bet.claimed {
        return Err(ArenaError::AlreadyClaimed);
    }
    let side = bet.side;
    let won = match ctx.contest.battle.winner {
        Some(w) => w == side,
        None => false,
    };
    if !won {
        return Err(ArenaError::NotWinner);
    }
    let winning_pool = ctx.contest.battle.pool(side);
    if winning_pool == 0 {
        return Err(ArenaError::EmptyWinningPool);
    }
    let total = ctx.contest.battle.pool_challenger + ctx.contest.battle.pool_opponent;
    let prize = total - ctx.contest.battle.house_fee;
    bet.claimed = true;
    let ghost old_bets = ctx.contest.bets@;
    let ghost new_bets = old_bets.update(i as int, bet);
    proof {
        lemma_book_update(old_bets, i as int, bet);
        assert forall|k: int| 0 <= k < new_bets.len() && (#[trigger] new_bets[k]).claimed
            implies new_bets[k].side == side by {
            if k != i {
                assert(new_bets[k] == old_bets[k]);
            }
        }
        lemma_claimed_within_pool(new_bets, side);
        lemma_payouts_scaled(new_bets, prize as int, winning_pool as int);
        lemma_payouts_scaled(old_bets, prize as int, winning_pool as int);
        let cp = claimed_payouts(new_bets, prize as int, winning_pool as int);
        let cs = claimed_stake(new_bets);
        assert(cp <= prize) by (nonlinear_arith)
            requires
                cp * winning_pool <= cs * prize,
                cs <= winning_pool,
                winning_pool > 0,
                prize >= 0,
        ;
        assert((bet.amount as u128) * (prize as u128) <= u64::MAX * u64::MAX) by (nonlinear_arith)
            requires
                bet.amount <= u64::MAX,
                prize <= u64::MAX,
        ;
    }
    let paid = ((bet.amount as u128) * (prize as u128) / (winning_pool as u128)) as u64;
    ctx.contest.bets.set(i, bet);
    ctx.contest.escrow = ctx.contest.escrow - paid;
    proof {
        let bets = ctx.contest.bets@;
        assert forall|k: int| 0 <= k < bets.len() implies (#[trigger] bets[k]).battle
            == ctx.contest.battle.id by {
            if k != i {
                assert(bets[k] == old_bets[k]);
            }
        }
    }
    Ok(paid)
}


/// The accounts that issuing a challenge touches; `contest` is the one that
/// the challenge creates.
#[derive(Debug)]
pub struct Challenge {
    pub arena: Arena,
    pub contest: Contest,
    pub challenger: Fighter,
    pub opponent: Fighter,
    pub challenger_wallet: AccountKey,
}

/// The accounts that accepting a challenge touches.
#[derive(Debug)]
pub struct AcceptChallenge {
    pub contest: Contest,
    pub opponent: Fighter,
    pub opponent_wallet: AccountKey,
}

/// The accounts that cancelling a challenge touches.
#[derive(Debug)]
pub struct CancelChallenge {
    pub contest: Contest,
    pub challenger: Fighter,
    pub challenger_wallet: AccountKey,
}

/// Why `challenge` refuses the challenge, if it does.
pub open spec fn challenge_error(ctx: Challenge, topic: Seq<char>, stake: u64, voting_period: i64) -> Option<
    ArenaError,
> {
    if ctx.challenger.wallet != ctx.challenger_wallet {
        Some(ArenaError::NotChallenger)
    } else if byte_len(topic) > MAX_TOPIC_LEN {
        Some(ArenaError::TopicTooLong)
    } else if stake < ctx.arena.min_stake_to_create {
        Some(ArenaError::StakeTooLow)
    } else if !(MIN_VOTING_PERIOD <= voting_period <= MAX_VOTING_PERIOD) {
        Some(ArenaError::InvalidVotingPeriod)
    } else if ctx.challenger.wallet == ctx.opponent.wallet {
        Some(ArenaError::SameFighter)
    } else if ctx.arena.battle_count == u64::MAX {
        Some(ArenaError::ArithmeticOverflow)
    } else {
        None
    }
}

/// Why `accept_challenge` refuses, if it does.
pub open spec fn accept_error(ctx: AcceptChallenge, stake: u64, now: i64) -> Option<ArenaError> {
    let b = ctx.contest.battle;
    if b.status != BattleStatus::Challenge {
        Some(ArenaError::NotChallenge)
    } else if ctx.opponent.wallet != b.opponent || ctx.opponent_wallet != ctx.opponent.wallet {
        Some(ArenaError::NotOpponent)
    } else if stake < b.challenger_stake {
        Some(ArenaError::StakeMustMatch)
    } else if has_bet(ctx.contest.bets@, ctx.opponent_wallet) {
        Some(ArenaError::AlreadyBet)
    } else if ctx.contest.escrow + stake > u64::MAX || b.total_bets == u64::MAX || !(i64::MIN
        <= now + b.voting_period <= i64::MAX) {
        Some(ArenaError::ArithmeticOverflow)
    } else {
        None
    }
}

/// Why `cancel_challenge` refuses, if it does.
pub open spec fn cancel_error(ctx: CancelChallenge) -> Option<ArenaError> {
    let b = ctx.contest.battle;
    if b.status != BattleStatus::Challenge {
        Some(ArenaError::NotChallenge)
    } else if ctx.challenger.wallet != b.challenger || ctx.challenger_wallet
        != ctx.challenger.wallet {
        Some(ArenaError::NotChallenger)
    } else {
        None
    }
}

/// Issues a challenge from the signing fighter to `opponent`: the stake goes
/// into the new contest's escrow as the challenger's own bet, which counts
/// as a vote for its side. The arena's contest counter gives the id.
pub fn challenge(
    ctx: &mut Challenge,
    topic: String,
    stake: u64,
    voting_period: i64,
    now: i64,
) -> (r: Result<(), ArenaError>)
    ensures
        r is Ok <==> challenge_error(*old(ctx), topic@, stake, voting_period) is None,
        r matches Err(e) ==> challenge_error(*old(ctx), topic@, stake, voting_period) == Some(e)
            && *final(ctx) == *old(ctx),
        r is Ok ==> {
            let id = old(ctx).arena.battle_count;
            &&& final(ctx).contest.wf()
            &&& final(ctx).arena == (Arena { battle_count: (id + 1) as u64, ..old(ctx).arena })
            &&& final(ctx).challenger == old(ctx).challenger
            &&& final(ctx).opponent == old(ctx).opponent
            &&& final(ctx).challenger_wallet == old(ctx).challenger_wallet
            &&& final(ctx).contest.escrow == stake
            &&& final(ctx).contest.bets@ == seq![
                Bet {
                    battle: id,
                    bettor: old(ctx).challenger_wallet,
                    amount: stake,
                    side: BetSide::Challenger,
                    has_voted: true,
                    claimed: false,
                    placed_at: now,
                },
            ]
            &&& final(ctx).contest.battle.topic@ == topic@
            &&& final(ctx).contest.battle == (Battle {
                id,
                challenger: old(ctx).challenger.wallet,
                opponent: old(ctx).opponent.wallet,
                topic: final(ctx).contest.battle.topic,
                status: BattleStatus::Challenge,
                challenger_stake: stake,
                opponent_stake: 0,
                pool_challenger: stake,
                pool_opponent: 0,
                votes_challenger: stake,
                votes_opponent: 0,
                total_bets: 1,
                voting_period,
                created_at: now,
                accepted_at: None,
                voting_ends_at: None,
                settled_at: None,
                winner: None,
                house_fee: 0,
            })
        },
{
    if ctx.challenger.wallet != ctx.challenger_wallet {
        return Err(ArenaError::NotChallenger);
    }
    if topic.as_str().as_bytes().len() > MAX_TOPIC_LEN {
        return Err(ArenaError::TopicTooLong);
    }
    if stake < ctx.arena.min_stake_to_create {
        return Err(ArenaError::StakeTooLow);
    }
    if !(MIN_VOTING_PERIOD <= voting_period && voting_period <= MAX_VOTING_PERIOD) {
        return Err(ArenaError::InvalidVotingPeriod);
    }
    if ctx.challenger.wallet == ctx.opponent.wallet {
        return Err(ArenaError::SameFighter);
    }
    if ctx.arena.battle_count == u64::MAX {
        return Err(ArenaError::ArithmeticOverflow);
    }
    let id = ctx.arena.battle_count;
    let bet = Bet {
        battle: id,
        bettor: ctx.challenger_wallet,
        amount: stake,
        side: BetSide::Challenger,
        has_voted: true,
        claimed: false,
        placed_at: now,
    };
    let battle = Battle {
        id,
        challenger: ctx.challenger.wallet,
        opponent: ctx.opponent.wallet,
        topic,
        status: BattleStatus::Challenge,
        challenger_stake: stake,
        opponent_stake: 0,
        pool_challenger: stake,
        pool_opponent: 0,
        votes_challenger: stake,
        votes_opponent: 0,
        total_bets: 1,
        voting_period,
        created_at: now,
        accepted_at: None,
        voting_ends_at: None,
        settled_at: None,
        winner: None,
        house_fee: 0,
    };
    proof {
        let empty = Seq::<Bet>::empty();
        lemma_book_push(empty, bet);
        assert(empty.push(bet) == seq![bet]);
    }
    ctx.contest = Contest { battle, bets: vec![bet], escrow: stake };
    ctx.arena.battle_count = id + 1;
    proof {
        assert(side_pool(seq![bet], BetSide::Challenger) == stake);
        assert(side_pool(seq![bet], BetSide::Opponent) == 0);
        assert(side_votes(seq![bet], BetSide::Challenger) == stake);
        assert(side_votes(seq![bet], BetSide::Opponent) == 0);
        assert(ctx.contest.bets@ == seq![bet]);
        assert(ctx.contest.wf());
    }
    Ok(())
}

/// Accepts a challenge as its designated opponent, with a stake at least the
/// challenger's: the stake goes into escrow as the opponent's own bet and
/// vote, and the contest goes live with its voting deadline `voting_period`
/// seconds from `now`.
pub fn accept_challenge(ctx: &mut AcceptChallenge, stake: u64, now: i64) -> (r: Result<
    (),
    ArenaError,
>)
    requires
        old(ctx).contest.wf(),
    ensures
        final(ctx).contest.wf(),
        r is Ok <==> accept_error(*old(ctx), stake, now) is None,
        r matches Err(e) ==> accept_error(*old(ctx), stake, now) == Some(e) && *final(ctx)
            == *old(ctx),
        r is Ok ==> {
            let b = old(ctx).contest.battle;
            &&& final(ctx).opponent == old(ctx).opponent
            &&& final(ctx).opponent_wallet == old(ctx).opponent_wallet
            &&& final(ctx).contest.bets@ == old(ctx).contest.bets@.push(
                Bet {
                    battle: b.id,
                    bettor: old(ctx).opponent_wallet,
                    amount: stake,
                    side: BetSide::Opponent,
                    has_voted: true,
                    claimed: false,
                    placed_at: now,
                },
            )
            &&& final(ctx).contest.battle == (Battle {
                opponent_stake: stake,
                pool_opponent: (b.pool_opponent + stake) as u64,
                votes_opponent: (b.votes_opponent + stake) as u64,
                total_bets: (b.total_bets + 1) as u64,
                status: BattleStatus::Live,
                accepted_at: Some(now),
                voting_ends_at: Some((now + b.voting_period) as i64),
                ..b
            })
            &&& final(ctx).contest.escrow == old(ctx).contest.escrow + stake
        },
{
    let c = &ctx.contest;
    if c.battle.status != BattleStatus::Challenge {
        return Err(ArenaError::NotChallenge);
    }
    if ctx.opponent.wallet != c.battle.opponent || ctx.opponent_wallet != ctx.opponent.wallet {
        return Err(ArenaError::NotOpponent);
    }
    if stake < c.battle.challenger_stake {
        return Err(ArenaError::StakeMustMatch);
    }
    if find_bet(&c.bets, ctx.opponent_wallet).is_some() {
        return Err(ArenaError::AlreadyBet);
    }
    let period = c.battle.voting_period;
    if stake > u64::MAX - c.escrow || c.battle.total_bets == u64::MAX || (period > 0 && now
        > i64::MAX - period) || (period < 0 && now < i64::MIN - period) {
        return Err(ArenaError::ArithmeticOverflow);
    }
    let bet = Bet {
        battle: c.battle.id,
        bettor: ctx.opponent_wallet,
        amount: stake,
        side: BetSide::Opponent,
        has_voted: true,
        claimed: false,
        placed_at: now,
    };
    proof {
        lemma_book_push(ctx.contest.bets@, bet);
        lemma_votes_within_pool(ctx.contest.bets@, BetSide::Opponent);
    }
    ctx.contest.battle.add_stake(BetSide::Opponent, stake);
    ctx.contest.battle.add_votes(BetSide::Opponent, stake);
    ctx.contest.battle.opponent_stake = stake;
    ctx.contest.battle.status = BattleStatus::Live;
    ctx.contest.battle.accepted_at = Some(now);
    ctx.contest.battle.voting_ends_at = Some(now + period);
    ctx.contest.bets.push(bet);
    ctx.contest.escrow = ctx.contest.escrow + stake;
    Ok(())
}

/// Withdraws a challenge that has not been accepted, as its challenger: the
/// challenger's stake leaves escrow in full and the contest is cancelled.
/// Returns the refund.
pub fn cancel_challenge(ctx: &mut CancelChallenge) -> (r: Result<u64, ArenaError>)
    requires
        old(ctx).contest.wf(),
    ensures
        final(ctx).contest.wf(),
        r is Ok <==> cancel_error(*old(ctx)) is None,
        r matches Err(e) ==> cancel_error(*old(ctx)) == Some(e) && *final(ctx) == *old(ctx),
        r matches Ok(refund) ==> {
            let b = old(ctx).contest.battle;
            &&& refund == b.challenger_stake
            &&& final(ctx).challenger == old(ctx).challenger
            &&& final(ctx).challenger_wallet == old(ctx).challenger_wallet
            &&& final(ctx).contest.battle == (Battle { status: BattleStatus::Cancelled, ..b })
            &&& final(ctx).contest.bets@ == old(ctx).contest.bets@
            &&& final(ctx).contest.escrow == old(ctx).contest.escrow - refund
        },
{
    if ctx.contest.battle.status != BattleStatus::Challenge {
        return Err(ArenaError::NotChallenge);
    }
    if ctx.challenger.wallet != ctx.contest.battle.challenger || ctx.challenger_wallet
        != ctx.challenger.wallet {
        return Err(ArenaError::NotChallenger);
    }
    let refund = ctx.contest.battle.challenger_stake;
    ctx.contest.escrow = ctx.contest.escrow - refund;
    ctx.contest.battle.status = BattleStatus::Cancelled;
    Ok(refund)
}

} // verus!
