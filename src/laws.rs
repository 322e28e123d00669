use vstd::prelude::*;
use crate::types::{ArenaError, BattleStatus, BetSide};
use crate::book::{Battle, Bet, Contest, bet_index, claimed_payouts, has_bet, side_votes, vote_on};
use crate::battle::{
    ClaimWinnings, PlaceBet, SettleBattle, claim_error, place_bet_error, settle_error,
};

verus! {

/// Until a contest is settled, its escrow holds exactly the two pools
/// together. Every operation keeps `wf`, so this holds at every instant.
pub proof fn lemma_escrow_holds_pools(c: Contest)
    requires
        c.wf(),
        c.battle.status == BattleStatus::Challenge || c.battle.status == BattleStatus::Live,
    ensures
        c.escrow == c.battle.pool_challenger + c.battle.pool_opponent,
{
}

/// Once a contest is settled, the payouts made on its claimed bets never
/// sum to more than its prize pool; what they leave stays in escrow.
pub proof fn lemma_claims_within_prize(c: Contest)
    requires
        c.wf(),
        c.battle.status == BattleStatus::Settled,
    ensures
        claimed_payouts(c.bets@, c.battle.prize_pool(), c.battle.winning_pool())
            <= c.battle.prize_pool(),
        c.escrow == c.battle.prize_pool() - claimed_payouts(
            c.bets@,
            c.battle.prize_pool(),
            c.battle.winning_pool(),
        ),
{
}

/// A bettor whose claim went through is refused with `AlreadyClaimed` on
/// every later claim: `after` is the state that the successful claim leaves.
pub proof fn lemma_claim_only_once(before: ClaimWinnings, after: ClaimWinnings)
    requires
        before.contest.wf(),
        claim_error(before) is None,
        after.bettor == before.bettor,
        after.contest.battle == before.contest.battle,
        after.contest.bets@ == before.contest.bets@.update(
            bet_index(before.contest.bets@, before.bettor),
            Bet {
                claimed: true,
                ..before.contest.bets@[bet_index(before.contest.bets@, before.bettor)]
            },
        ),
    ensures
        claim_error(after) == Some(ArenaError::AlreadyClaimed),
{
    let s = before.contest.bets@;
    let t = after.contest.bets@;
    let i = bet_index(s, before.bettor);
    assert(t[i].bettor == before.bettor);
    assert(has_bet(t, after.bettor));
    let j = bet_index(t, after.bettor);
    if j != i {
        assert(t[j] == s[j]);
        assert(s[j].bettor == s[i].bettor);
    }
}

/// The vote weight of each side is the sum of the amounts of the bets on
/// that side whose holders have voted, and no bet adds weight to the side it
/// did not back.
pub proof fn lemma_vote_weight_is_voted_stake(c: Contest)
    requires
        c.wf(),
    ensures
        c.battle.votes_challenger == side_votes(c.bets@, BetSide::Challenger),
        c.battle.votes_opponent == side_votes(c.bets@, BetSide::Opponent),
        forall|i: int, side: BetSide|
            #![trigger vote_on(c.bets@[i], side)]
            0 <= i < c.bets@.len() && side != c.bets@[i].side ==> vote_on(c.bets@[i], side) == 0,
{
}

/// Settling twice fails: on the state that a successful settlement leaves,
/// a second settlement is refused with `BattleNotLive`, and a refused
/// settlement changes nothing, so the fee and the ratings move once.
pub proof fn lemma_settle_only_once(
    before: SettleBattle,
    after: SettleBattle,
    now: i64,
    later: i64,
    fee: u64,
)
    requires
        settle_error(before, now) is None,
        after.challenger.wallet == before.challenger.wallet,
        after.opponent.wallet == before.opponent.wallet,
        after.contest.battle == (Battle {
            status: BattleStatus::Settled,
            winner: Some(before.contest.battle.leading_side()),
            settled_at: Some(now),
            house_fee: fee,
            ..before.contest.battle
        }),
    ensures
        settle_error(after, later) == Some(ArenaError::BattleNotLive),
{
}

/// Once the voting deadline has passed, no bet is taken, even though the
/// contest is still live; a bet of at least the minimum is refused with
/// `VotingEnded`.
pub proof fn lemma_no_bet_after_deadline(ctx: PlaceBet, amount: u64, now: i64)
    requires
        ctx.contest.wf(),
        ctx.contest.battle.status == BattleStatus::Live,
        now >= ctx.contest.battle.voting_ends_at.unwrap(),
    ensures
        place_bet_error(ctx, amount, now) is Some,
        amount >= ctx.arena.min_bet ==> place_bet_error(ctx, amount, now) == Some(
            ArenaError::VotingEnded,
        ),
{
}

} // verus!
