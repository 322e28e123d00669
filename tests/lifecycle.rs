use arena::{
    accept_challenge, cancel_challenge, challenge, claim_winnings, initialize, place_bet,
    register_fighter, settle_battle, vote, AcceptChallenge, AccountKey, Arena, ArenaConfig,
    ArenaError, Battle, BattleStatus, BetSide, CancelChallenge, Challenge, ClaimWinnings, Contest,
    Fighter, Initialize, PlaceBet, RegisterFighter, SettleBattle, Vote,
};

fn key(n: u64) -> AccountKey {
    AccountKey { w0: n, w1: 0, w2: 0, w3: 0 }
}

fn blank_battle() -> Battle {
    Battle {
        id: 0,
        challenger: key(0),
        opponent: key(0),
        topic: String::new(),
        status: BattleStatus::Challenge,
        challenger_stake: 0,
        opponent_stake: 0,
        pool_challenger: 0,
        pool_opponent: 0,
        votes_challenger: 0,
        votes_opponent: 0,
        total_bets: 0,
        voting_period: 0,
        created_at: 0,
        accepted_at: None,
        voting_ends_at: None,
        settled_at: None,
        winner: None,
        house_fee: 0,
    }
}

fn blank_contest() -> Contest {
    Contest { battle: blank_battle(), bets: Vec::new(), escrow: 0 }
}

fn blank_arena() -> Arena {
    Arena {
        authority: key(0),
        treasury: key(0),
        house_fee_bps: 0,
        min_bet: 0,
        min_stake_to_create: 0,
        voting_period: 0,
        battle_count: 0,
        total_volume: 0,
    }
}

fn new_arena(fee_bps: u16, min_bet: u64, min_stake: u64) -> Arena {
    let mut ctx = Initialize { arena: blank_arena(), treasury: key(900), authority: key(901) };
    let config = ArenaConfig {
        house_fee_bps: fee_bps,
        min_bet,
        min_stake_to_create: min_stake,
        voting_period: 3600,
    };
    assert_eq!(initialize(&mut ctx, config), Ok(()));
    ctx.arena
}

fn fighter(wallet: u64, name: &str) -> Fighter {
    let blank = Fighter {
        wallet: key(0),
        name: String::new(),
        elo: 0,
        wins: 0,
        losses: 0,
        draws: 0,
        total_earnings: 0,
        registered_at: 0,
    };
    let mut ctx = RegisterFighter { fighter: blank, wallet: key(wallet) };
    assert_eq!(register_fighter(&mut ctx, name.to_string(), 5), Ok(()));
    ctx.fighter
}

/// A contest between fighters 1 and 2, both staking `stake`, live from
/// time 10 with its voting deadline at 3610.
fn live_contest(arena: Arena, stake: u64) -> (Arena, Contest, Fighter, Fighter) {
    let mut ctx = Challenge {
        arena,
        contest: blank_contest(),
        challenger: fighter(1, "alpha"),
        opponent: fighter(2, "beta"),
        challenger_wallet: key(1),
    };
    assert_eq!(challenge(&mut ctx, "who wins".to_string(), stake, 3600, 0), Ok(()));
    let Challenge { arena, contest, challenger, opponent, .. } = ctx;
    let mut acc = AcceptChallenge { contest, opponent, opponent_wallet: key(2) };
    assert_eq!(accept_challenge(&mut acc, stake, 10), Ok(()));
    (arena, acc.contest, challenger, acc.opponent)
}

fn bet(arena: Arena, contest: Contest, who: u64, amount: u64, side: BetSide, now: i64) -> (Contest, Result<(), ArenaError>) {
    let mut ctx = PlaceBet { arena, contest, bettor: key(who) };
    let r = place_bet(&mut ctx, amount, side, now);
    (ctx.contest, r)
}

fn cast(contest: Contest, who: u64, now: i64) -> (Contest, Result<(), ArenaError>) {
    let mut ctx = Vote { contest, bettor: key(who) };
    let r = vote(&mut ctx, now);
    (ctx.contest, r)
}

fn claim(contest: Contest, who: u64) -> (Contest, Result<u64, ArenaError>) {
    let mut ctx = ClaimWinnings { contest, bettor: key(who) };
    let r = claim_winnings(&mut ctx);
    (ctx.contest, r)
}

#[test]
fn full_contest_pays_side_b_pro_rata() {
    let arena = new_arena(500, 10, 100);
    let (arena, c, challenger, opponent) = live_contest(arena, 1000);
    assert_eq!(c.battle.pool_challenger + c.battle.pool_opponent, 2000);
    let (c, r) = bet(arena, c, 10, 50, BetSide::Challenger, 20);
    assert_eq!(r, Ok(()));
    let (c, r) = bet(arena, c, 11, 50, BetSide::Challenger, 21);
    assert_eq!(r, Ok(()));
    let (c, r) = bet(arena, c, 12, 200, BetSide::Opponent, 22);
    assert_eq!(r, Ok(()));
    assert_eq!(c.battle.pool_challenger + c.battle.pool_opponent, 2300);
    assert_eq!(c.escrow, 2300);
    let (c, _) = cast(c, 10, 30);
    let (c, _) = cast(c, 11, 31);
    let (c, r) = cast(c, 12, 32);
    assert_eq!(r, Ok(()));
    assert_eq!(c.battle.votes_challenger, 1100);
    assert_eq!(c.battle.votes_opponent, 1200);

    let mut s = SettleBattle { arena, contest: c, challenger, opponent };
    assert_eq!(settle_battle(&mut s, 3610, 500_000), Ok(115));
    assert_eq!(s.contest.battle.winner, Some(BetSide::Opponent));
    assert_eq!(s.contest.battle.status, BattleStatus::Settled);
    assert_eq!(s.contest.escrow, 2185);
    assert_eq!(s.arena.total_volume, 2300);
    assert_eq!(s.challenger.elo, 984);
    assert_eq!(s.opponent.elo, 1016);
    assert_eq!((s.challenger.wins, s.challenger.losses), (0, 1));
    assert_eq!((s.opponent.wins, s.opponent.losses), (1, 0));

    let (c, r) = claim(s.contest, 12);
    assert_eq!(r, Ok(364));
    let (c, r) = claim(c, 2);
    assert_eq!(r, Ok(1820));
    assert_eq!(c.escrow, 2185 - 364 - 1820);
    let (c, r) = claim(c, 10);
    assert_eq!(r, Err(ArenaError::NotWinner));
    let (c, r) = claim(c, 12);
    assert_eq!(r, Err(ArenaError::AlreadyClaimed));
    let (_, r) = claim(c, 77);
    assert_eq!(r, Err(ArenaError::BetNotFound));
}

#[test]
fn full_tie_goes_to_challenger_every_time() {
    for _ in 0..3 {
        let arena = new_arena(0, 10, 100);
        let (arena, c, challenger, opponent) = live_contest(arena, 500);
        let mut s = SettleBattle { arena, contest: c, challenger, opponent };
        assert_eq!(settle_battle(&mut s, 4000, 500_000), Ok(0));
        assert_eq!(s.contest.battle.winner, Some(BetSide::Challenger));
        assert_eq!(s.challenger.elo, 1016);
        assert_eq!(s.opponent.elo, 984);
    }
}

#[test]
fn equal_votes_larger_pool_wins() {
    let arena = new_arena(0, 10, 100);
    let (arena, c, challenger, opponent) = live_contest(arena, 500);
    // A bet on the opponent's side that never votes.
    let (c, r) = bet(arena, c, 20, 40, BetSide::Opponent, 50);
    assert_eq!(r, Ok(()));
    let mut s = SettleBattle { arena, contest: c, challenger, opponent };
    assert_eq!(settle_battle(&mut s, 3610, 500_000), Ok(0));
    assert_eq!(s.contest.battle.winner, Some(BetSide::Opponent));
}

#[test]
fn second_settlement_fails_and_changes_nothing() {
    let arena = new_arena(500, 10, 100);
    let (arena, c, challenger, opponent) = live_contest(arena, 1000);
    let mut s = SettleBattle { arena, contest: c, challenger, opponent };
    assert_eq!(settle_battle(&mut s, 3610, 500_000), Ok(100));
    let escrow = s.contest.escrow;
    let volume = s.arena.total_volume;
    let (ec, eo) = (s.challenger.elo, s.opponent.elo);
    assert_eq!(settle_battle(&mut s, 9999, 500_000), Err(ArenaError::BattleNotLive));
    assert_eq!(s.contest.escrow, escrow);
    assert_eq!(s.arena.total_volume, volume);
    assert_eq!((s.challenger.elo, s.opponent.elo), (ec, eo));
    assert_eq!(s.challenger.wins + s.challenger.losses, 1);
}

#[test]
fn settling_before_deadline_fails() {
    let arena = new_arena(500, 10, 100);
    let (arena, c, challenger, opponent) = live_contest(arena, 1000);
    let mut s = SettleBattle { arena, contest: c, challenger, opponent };
    assert_eq!(settle_battle(&mut s, 3609, 500_000), Err(ArenaError::VotingNotEnded));
    assert_eq!(s.contest.battle.status, BattleStatus::Live);
}

#[test]
fn settling_with_wrong_fighters_fails() {
    let arena = new_arena(500, 10, 100);
    let (arena, c, challenger, opponent) = live_contest(arena, 1000);
    let mut s = SettleBattle { arena, contest: c, challenger: opponent.clone(), opponent };
    assert_eq!(settle_battle(&mut s, 3610, 500_000), Err(ArenaError::NotChallenger));
    let mut s = SettleBattle { arena, contest: s.contest, challenger: challenger.clone(), opponent: challenger };
    assert_eq!(settle_battle(&mut s, 3610, 500_000), Err(ArenaError::NotOpponent));
}

#[test]
fn bet_after_deadline_fails_while_live() {
    let arena = new_arena(500, 10, 100);
    let (arena, c, _, _) = live_contest(arena, 1000);
    let (c, r) = bet(arena, c, 30, 100, BetSide::Challenger, 3610);
    assert_eq!(r, Err(ArenaError::VotingEnded));
    assert_eq!(c.battle.status, BattleStatus::Live);
    assert_eq!(c.escrow, 2000);
    let (_, r) = bet(arena, c, 30, 100, BetSide::Challenger, 3609);
    assert_eq!(r, Ok(()));
}

#[test]
fn bet_errors() {
    let arena = new_arena(500, 10, 100);
    let (arena, c, _, _) = live_contest(arena, 1000);
    let (c, r) = bet(arena, c, 30, 9, BetSide::Challenger, 20);
    assert_eq!(r, Err(ArenaError::BetTooSmall));
    let (c, r) = bet(arena, c, 1, 10, BetSide::Opponent, 20);
    assert_eq!(r, Err(ArenaError::AlreadyBet));
    let (c, r) = bet(arena, c, 31, u64::MAX - 100, BetSide::Opponent, 20);
    assert_eq!(r, Err(ArenaError::ArithmeticOverflow));
    let mut c = c;
    c.battle.status = BattleStatus::Cancelled;
    let (_, r) = bet(arena, c, 30, 10, BetSide::Challenger, 20);
    assert_eq!(r, Err(ArenaError::BattleNotOpen));
}

#[test]
fn escrow_tracks_pools_before_settlement() {
    let arena = new_arena(500, 10, 100);
    let mut ctx = Challenge {
        arena,
        contest: blank_contest(),
        challenger: fighter(1, "alpha"),
        opponent: fighter(2, "beta"),
        challenger_wallet: key(1),
    };
    assert_eq!(challenge(&mut ctx, "t".to_string(), 300, 600, 0), Ok(()));
    let c = ctx.contest;
    assert_eq!(c.escrow, c.battle.pool_challenger + c.battle.pool_opponent);
    // A bet while the challenge still awaits its opponent.
    let (c, r) = bet(arena, c, 40, 70, BetSide::Opponent, 1);
    assert_eq!(r, Ok(()));
    assert_eq!(c.escrow, 370);
    let mut acc = AcceptChallenge { contest: c, opponent: ctx.opponent, opponent_wallet: key(2) };
    assert_eq!(accept_challenge(&mut acc, 400, 2), Ok(()));
    let c = acc.contest;
    assert_eq!(c.escrow, 770);
    assert_eq!(c.battle.pool_opponent, 470);
    assert_eq!(c.battle.votes_opponent, 400);
    assert_eq!(c.battle.voting_ends_at, Some(602));
    assert_eq!(c.battle.total_bets, 3);
    assert_eq!(c.escrow, c.battle.pool_challenger + c.battle.pool_opponent);
}

#[test]
fn vote_weight_is_own_bet_on_own_side() {
    let arena = new_arena(500, 10, 100);
    let (arena, c, _, _) = live_contest(arena, 1000);
    let (c, _) = bet(arena, c, 50, 25, BetSide::Opponent, 20);
    let (c, r) = cast(c, 50, 21);
    assert_eq!(r, Ok(()));
    assert_eq!(c.battle.votes_opponent, 1025);
    assert_eq!(c.battle.votes_challenger, 1000);
    let (c, r) = cast(c, 50, 22);
    assert_eq!(r, Err(ArenaError::AlreadyVoted));
    let (c, r) = cast(c, 51, 22);
    assert_eq!(r, Err(ArenaError::BetNotFound));
    let (c, r) = bet(arena, c, 52, 25, BetSide::Challenger, 23);
    assert_eq!(r, Ok(()));
    let (c, r) = cast(c, 52, 3610);
    assert_eq!(r, Err(ArenaError::VotingEnded));
    assert_eq!(c.battle.votes_challenger, 1000);
}

#[test]
fn vote_before_acceptance_fails() {
    let arena = new_arena(500, 10, 100);
    let mut ctx = Challenge {
        arena,
        contest: blank_contest(),
        challenger: fighter(1, "alpha"),
        opponent: fighter(2, "beta"),
        challenger_wallet: key(1),
    };
    assert_eq!(challenge(&mut ctx, "t".to_string(), 300, 600, 0), Ok(()));
    let (_, r) = cast(ctx.contest, 1, 1);
    assert_eq!(r, Err(ArenaError::BattleNotLive));
}

#[test]
fn challenge_errors() {
    let arena = new_arena(500, 10, 100);
    let make = |wallet: u64, opp: u64| Challenge {
        arena,
        contest: blank_contest(),
        challenger: fighter(1, "alpha"),
        opponent: fighter(opp, "beta"),
        challenger_wallet: key(wallet),
    };
    let mut ctx = make(9, 2);
    assert_eq!(challenge(&mut ctx, "t".to_string(), 300, 600, 0), Err(ArenaError::NotChallenger));
    let mut ctx = make(1, 2);
    assert_eq!(challenge(&mut ctx, "x".repeat(257), 300, 600, 0), Err(ArenaError::TopicTooLong));
    assert_eq!(challenge(&mut ctx, "x".repeat(256), 99, 600, 0), Err(ArenaError::StakeTooLow));
    assert_eq!(challenge(&mut ctx, "t".to_string(), 100, 299, 0), Err(ArenaError::InvalidVotingPeriod));
    assert_eq!(challenge(&mut ctx, "t".to_string(), 100, 86_401, 0), Err(ArenaError::InvalidVotingPeriod));
    assert_eq!(ctx.arena.battle_count, 0);
    let mut ctx = make(1, 1);
    assert_eq!(challenge(&mut ctx, "t".to_string(), 100, 300, 0), Err(ArenaError::SameFighter));
    let mut ctx = make(1, 2);
    assert_eq!(challenge(&mut ctx, "t".to_string(), 100, 86_400, 0), Ok(()));
    assert_eq!(ctx.arena.battle_count, 1);
    assert_eq!(ctx.contest.battle.id, 0);
    assert_eq!(ctx.contest.battle.votes_challenger, 100);
    assert_eq!(ctx.contest.bets.len(), 1);
    assert!(ctx.contest.bets[0].has_voted);
}

#[test]
fn accept_errors() {
    let arena = new_arena(500, 10, 100);
    let mut ctx = Challenge {
        arena,
        contest: blank_contest(),
        challenger: fighter(1, "alpha"),
        opponent: fighter(2, "beta"),
        challenger_wallet: key(1),
    };
    assert_eq!(challenge(&mut ctx, "t".to_string(), 300, 600, 0), Ok(()));
    let mut acc = AcceptChallenge { contest: ctx.contest, opponent: ctx.challenger.clone(), opponent_wallet: key(1) };
    assert_eq!(accept_challenge(&mut acc, 300, 1), Err(ArenaError::NotOpponent));
    let mut acc = AcceptChallenge { contest: acc.contest, opponent: ctx.opponent.clone(), opponent_wallet: key(3) };
    assert_eq!(accept_challenge(&mut acc, 300, 1), Err(ArenaError::NotOpponent));
    let mut acc = AcceptChallenge { contest: acc.contest, opponent: ctx.opponent.clone(), opponent_wallet: key(2) };
    assert_eq!(accept_challenge(&mut acc, 299, 1), Err(ArenaError::StakeMustMatch));
    assert_eq!(accept_challenge(&mut acc, 300, 1), Ok(()));
    assert_eq!(accept_challenge(&mut acc, 300, 2), Err(ArenaError::NotChallenge));
}

#[test]
fn accept_after_own_bet_fails() {
    let arena = new_arena(500, 10, 100);
    let mut ctx = Challenge {
        arena,
        contest: blank_contest(),
        challenger: fighter(1, "alpha"),
        opponent: fighter(2, "beta"),
        challenger_wallet: key(1),
    };
    assert_eq!(challenge(&mut ctx, "t".to_string(), 300, 600, 0), Ok(()));
    let (c, r) = bet(arena, ctx.contest, 2, 50, BetSide::Opponent, 1);
    assert_eq!(r, Ok(()));
    let mut acc = AcceptChallenge { contest: c, opponent: ctx.opponent, opponent_wallet: key(2) };
    assert_eq!(accept_challenge(&mut acc, 300, 1), Err(ArenaError::AlreadyBet));
}

#[test]
fn cancel_refunds_stake_once() {
    let arena = new_arena(500, 10, 100);
    let mut ctx = Challenge {
        arena,
        contest: blank_contest(),
        challenger: fighter(1, "alpha"),
        opponent: fighter(2, "beta"),
        challenger_wallet: key(1),
    };
    assert_eq!(challenge(&mut ctx, "t".to_string(), 300, 600, 0), Ok(()));
    let (c, _) = bet(arena, ctx.contest, 7, 20, BetSide::Opponent, 1);
    let mut can = CancelChallenge { contest: c, challenger: ctx.opponent.clone(), challenger_wallet: key(2) };
    assert_eq!(cancel_challenge(&mut can), Err(ArenaError::NotChallenger));
    let mut can = CancelChallenge { contest: can.contest, challenger: ctx.challenger.clone(), challenger_wallet: key(1) };
    assert_eq!(cancel_challenge(&mut can), Ok(300));
    assert_eq!(can.contest.battle.status, BattleStatus::Cancelled);
    assert_eq!(can.contest.escrow, 20);
    assert_eq!(cancel_challenge(&mut can), Err(ArenaError::NotChallenge));
    let (c, r) = claim(can.contest, 1);
    assert_eq!(r, Err(ArenaError::BattleNotSettled));
    let mut acc = AcceptChallenge { contest: c, opponent: ctx.opponent, opponent_wallet: key(2) };
    assert_eq!(accept_challenge(&mut acc, 300, 1), Err(ArenaError::NotChallenge));
}

#[test]
fn claims_never_exceed_prize() {
    let arena = new_arena(300, 1, 1);
    let (arena, c, challenger, opponent) = live_contest(arena, 7);
    let (c, _) = bet(arena, c, 60, 3, BetSide::Challenger, 20);
    let (c, _) = bet(arena, c, 61, 5, BetSide::Challenger, 20);
    let (c, _) = bet(arena, c, 62, 11, BetSide::Opponent, 20);
    let (c, _) = cast(c, 60, 21);
    let (c, _) = cast(c, 61, 21);
    let mut s = SettleBattle { arena, contest: c, challenger, opponent };
    let fee = settle_battle(&mut s, 3610, 500_000).unwrap();
    assert_eq!(fee, 0);
    assert_eq!(s.contest.battle.winner, Some(BetSide::Challenger));
    let prize = s.contest.escrow;
    let mut c = s.contest;
    let mut paid = 0;
    for who in [1u64, 60, 61] {
        let (next, r) = claim(c, who);
        paid += r.unwrap();
        c = next;
    }
    assert_eq!(paid, 3 * 33 / 15 + 5 * 33 / 15 + 7 * 33 / 15);
    assert!(paid <= prize);
    assert_eq!(c.escrow, prize - paid);
}

#[test]
fn empty_winning_pool_is_reported() {
    let arena = new_arena(0, 0, 0);
    let (arena, c, challenger, opponent) = live_contest(arena, 0);
    let mut s = SettleBattle { arena, contest: c, challenger, opponent };
    assert_eq!(settle_battle(&mut s, 3610, 500_000), Ok(0));
    let (_, r) = claim(s.contest, 1);
    assert_eq!(r, Err(ArenaError::EmptyWinningPool));
}
