use vstd::prelude::*;
use crate::types::{AccountKey, BattleStatus, BetSide};
use crate::arena::BPS_SCALE;

verus! {

/// One contest between two fighters.
#[derive(Debug)]
pub struct Battle {
    pub id: u64,
    pub challenger: AccountKey,
    pub opponent: AccountKey,
    pub topic: String,
    pub status: BattleStatus,
    pub challenger_stake: u64,
    pub opponent_stake: u64,
    pub pool_challenger: u64,
    pub pool_opponent: u64,
    pub votes_challenger: u64,
    pub votes_opponent: u64,
    pub total_bets: u64,
    pub voting_period: i64,
    pub created_at: i64,
    pub accepted_at: Option<i64>,
    pub voting_ends_at: Option<i64>,
    pub settled_at: Option<i64>,
    pub winner: Option<BetSide>,
    /// The fee taken at settlement; zero before.
    pub house_fee: u64,
}

/// One bettor's position in one contest.
#[derive(Clone, Copy, Debug, PartialEq, Eq, Structural)]
pub struct Bet {
    pub battle: u64,
    pub bettor: AccountKey,
    pub amount: u64,
    pub side: BetSide,
    pub has_voted: bool,
    pub claimed: bool,
    pub placed_at: i64,
}

/// A contest together with its wager book and the balance of its escrow.
#[derive(Debug)]
pub struct Contest {
    pub battle: Battle,
    pub bets: Vec<Bet>,
    pub escrow: u64,
}

/// The sum of `f` over a sequence of bets.
pub open spec fn sum_by(bets: Seq<Bet>, f: spec_fn(Bet) -> int) -> int
    decreases bets.len(),
{
    if bets.len() == 0 {
        0
    } else {
        sum_by(bets.drop_last(), f) + f(bets.last())
    }
}

/// What a bet puts into the pool of `side`.
pub open spec fn stake_on(b: Bet, side: BetSide) -> int {
    if b.side == side {
        b.amount as int
    } else {
        0
    }
}

/// What a bet adds to the vote weight of `side`.
pub open spec fn vote_on(b: Bet, side: BetSide) -> int {
    if b.side == side && b.has_voted {
        b.amount as int
    } else {
        0
    }
}

/// The sum of all amounts bet on `side`.
pub open spec fn side_pool(bets: Seq<Bet>, side: BetSide) -> int {
    sum_by(bets, |b: Bet| stake_on(b, side))
}

/// The sum of the amounts of the bets on `side` whose holders have voted.
pub open spec fn side_votes(bets: Seq<Bet>, side: BetSide) -> int {
    sum_by(bets, |b: Bet| vote_on(b, side))
}

/// The fee on a pool: `fee_bps` basis points of it, rounded down.
pub open spec fn fee_of(total: int, fee_bps: int) -> int {
    total * fee_bps / (BPS_SCALE as int)
}

/// A winning bet's share of the prize: `amount * prize / winning_pool`,
/// rounded down.
pub open spec fn payout(amount: int, prize: int, winning_pool: int) -> int {
    amount * prize / winning_pool
}

/// The sum of the payouts already made on the claimed bets.
pub open spec fn claimed_payouts(bets: Seq<Bet>, prize: int, winning_pool: int) -> int {
    sum_by(
        bets,
        |b: Bet|
            if b.claimed {
                payout(b.amount as int, prize, winning_pool)
            } else {
                0
            },
    )
}

/// The sum of the amounts of the claimed bets.
pub open spec fn claimed_stake(bets: Seq<Bet>) -> int {
    sum_by(
        bets,
        |b: Bet|
            if b.claimed {
                b.amount as int
            } else {
                0
            },
    )
}

/// The winner: strictly more vote weight wins; on equal votes the strictly
/// larger pool wins; where both are equal the challenger's side wins.
pub open spec fn winner_of(votes_c: int, votes_o: int, pool_c: int, pool_o: int) -> BetSide {
    if votes_c > votes_o {
        BetSide::Challenger
    } else if votes_o > votes_c {
        BetSide::Opponent
    } else if pool_o > pool_c {
        BetSide::Opponent
    } else {
        BetSide::Challenger
    }
}

/// Whether some bet in `bets` belongs to `who`.
pub open spec fn has_bet(bets: Seq<Bet>, who: AccountKey) -> bool {
    exists|i: int| 0 <= i < bets.len() && bets[i].bettor == who
}

/// Where the bet of `who` stands in `bets`, if `has_bet`.
pub open spec fn bet_index(bets: Seq<Bet>, who: AccountKey) -> int {
    choose|i: int| 0 <= i < bets.len() && bets[i].bettor == who
}

/// No two bets have the same holder.
pub open spec fn unique_bettors(bets: Seq<Bet>) -> bool {
    forall|i: int, j: int|
        0 <= i < bets.len() && 0 <= j < bets.len() && i != j ==> bets[i].bettor != bets[j].bettor
}

impl Battle {
    pub open spec fn pool_spec(&self, side: BetSide) -> u64 {
        match side {
            BetSide::Challenger => self.pool_challenger,
            BetSide::Opponent => self.pool_opponent,
        }
    }

    pub open spec fn votes_spec(&self, side: BetSide) -> u64 {
        match side {
            BetSide::Challenger => self.votes_challenger,
            BetSide::Opponent => self.votes_opponent,
        }
    }

    pub open spec fn total_pool(&self) -> int {
        self.pool_challenger + self.pool_opponent
    }

    pub open spec fn prize_pool(&self) -> int {
        self.total_pool() - self.house_fee
    }

    /// The side that the votes and pools of this battle make the winner.
    pub open spec fn leading_side(&self) -> BetSide {
        winner_of(
            self.votes_challenger as int,
            self.votes_opponent as int,
            self.pool_challenger as int,
            self.pool_opponent as int,
        )
    }

    /// The pool of the side that won; zero before settlement.
    pub open spec fn winning_pool(&self) -> int {
        match self.winner {
            Some(side) => self.pool_spec(side) as int,
            None => 0,
        }
    }

    /// Whether the voting deadline exists and has passed at `now`.
    pub open spec fn voting_closed(&self, now: i64) -> bool {
        match self.voting_ends_at {
            Some(t) => now >= t,
            None => false,
        }
    }

    /// The total bet on `side`.
    pub fn pool(&self, side: BetSide) -> (r: u64)
        ensures
            r == self.pool_spec(side),
    {
        match side {
            BetSide::Challenger => self.pool_challenger,
            BetSide::Opponent => self.pool_opponent,
        }
    }

    /// The vote weight cast for `side`.
    pub fn votes(&self, side: BetSide) -> (r: u64)
        ensures
            r == self.votes_spec(side),
    {
        match side {
            BetSide::Challenger => self.votes_challenger,
            BetSide::Opponent => self.votes_opponent,
        }
    }
}

impl Contest {
    /// The bookkeeping invariant of a contest: the pools and vote weights
    /// are the sums over its wager book; each identity holds at most one
    /// bet; the escrow holds the whole pool until settlement (less the
    /// refunded stake once cancelled), and after settlement the prize pool
    /// less what has been paid to claimed bets, which all lie on the
    /// winning side.
    pub open spec fn wf(&self) -> bool {
        let b = self.battle;
        let bets = self.bets@;
        &&& unique_bettors(bets)
        &&& forall|i: int| 0 <= i < bets.len() ==> (#[trigger] bets[i]).battle == b.id
        &&& b.pool_challenger == side_pool(bets, BetSide::Challenger)
        &&& b.pool_opponent == side_pool(bets, BetSide::Opponent)
        &&& b.votes_challenger == side_votes(bets, BetSide::Challenger)
        &&& b.votes_opponent == side_votes(bets, BetSide::Opponent)
        &&& b.total_bets == bets.len()
        &&& b.total_pool() <= u64::MAX
        &&& b.challenger_stake <= b.pool_challenger
        &&& forall|i: int|
            0 <= i < bets.len() && (#[trigger] bets[i]).claimed ==> b.status == BattleStatus::Settled
                && b.winner == Some(bets[i].side)
        &&& match b.status {
            BattleStatus::Challenge => {
                &&& b.voting_ends_at is None
                &&& b.winner is None
                &&& b.house_fee == 0
                &&& self.escrow == b.total_pool()
            },
            BattleStatus::Live => {
                &&& b.voting_ends_at is Some
                &&& b.winner is None
                &&& b.house_fee == 0
                &&& self.escrow == b.total_pool()
            },
            BattleStatus::Cancelled => {
                &&& b.winner is None
                &&& b.house_fee == 0
                &&& self.escrow == b.total_pool() - b.challenger_stake
            },
            BattleStatus::Settled => {
                &&& b.winner is Some
                &&& b.house_fee <= b.total_pool()
                &&& self.escrow + claimed_payouts(bets, b.prize_pool(), b.winning_pool())
                    == b.prize_pool()
            },
        }
    }
}

/// Where the bet of `who` stands in `bets`, if there is one.
pub fn find_bet(bets: &Vec<Bet>, who: AccountKey) -> (r: Option<usize>)
    requires
        unique_bettors(bets@),
    ensures
        r is None <==> !has_bet(bets@, who),
        r matches Some(i) ==> i == bet_index(bets@, who) && i < bets@.len()
            && bets@[i as int].bettor == who,
{
    let mut i: usize = 0;
    while i < bets.len()
        invariant
            i <= bets@.len(),
            unique_bettors(bets@),
            forall|j: int| 0 <= j < i ==> bets@[j].bettor != who,
        decreases bets@.len() - i,
    {
        if bets[i].bettor == who {
            proof {
                assert(bets@[i as int].bettor == who);
                assert(has_bet(bets@, who));
                let k = bet_index(bets@, who);
                assert(0 <= k < bets@.len() && bets@[k].bettor == who);
                assert(k == i as int);
            }
            return Some(i);
        }
        i = i + 1;
    }
    None
}

pub proof fn lemma_sum_push(s: Seq<Bet>, x: Bet, f: spec_fn(Bet) -> int)
    ensures
        sum_by(s.push(x), f) == sum_by(s, f) + f(x),
{
    assert(s.push(x).drop_last() == s);
}

pub proof fn lemma_sum_update(s: Seq<Bet>, i: int, x: Bet, f: spec_fn(Bet) -> int)
    requires
        0 <= i < s.len(),
    ensures
        sum_by(s.update(i, x), f) == sum_by(s, f) - f(s[i]) + f(x),
    decreases s.len(),
{
    let t = s.update(i, x);
    if i == s.len() - 1 {
        assert(t.drop_last() == s.drop_last());
    } else {
        lemma_sum_update(s.drop_last(), i, x, f);
        assert(t.drop_last() == s.drop_last().update(i, x));
    }
}

pub proof fn lemma_sum_le(s: Seq<Bet>, f: spec_fn(Bet) -> int, g: spec_fn(Bet) -> int)
    requires
        forall|i: int| 0 <= i < s.len() ==> f(#[trigger] s[i]) <= g(s[i]),
    ensures
        sum_by(s, f) <= sum_by(s, g),
    decreases s.len(),
{
    if s.len() > 0 {
        let t = s.drop_last();
        assert forall|i: int| 0 <= i < t.len() implies f(#[trigger] t[i]) <= g(t[i]) by {
            assert(t[i] == s[i]);
        }
        lemma_sum_le(t, f, g);
    }
}

/// The payouts of the claimed bets, scaled back up by the winning pool, are
/// at most their stake times the prize: rounding down only loses.
pub proof fn lemma_payouts_scaled(s: Seq<Bet>, prize: int, winning_pool: int)
    requires
        prize >= 0,
        winning_pool > 0,
    ensures
        claimed_payouts(s, prize, winning_pool) * winning_pool <= claimed_stake(s) * prize,
        claimed_payouts(s, prize, winning_pool) >= 0,
    decreases s.len(),
{
    if s.len() > 0 {
        let t = s.drop_last();
        let x = s.last();
        lemma_payouts_scaled(t, prize, winning_pool);
        let cp = claimed_payouts(t, prize, winning_pool);
        let cs = claimed_stake(t);
        if x.claimed {
            let a = x.amount as int;
            let p = payout(a, prize, winning_pool);
            assert(p * winning_pool <= a * prize && p >= 0) by (nonlinear_arith)
                requires
                    p == a * prize / winning_pool,
                    a >= 0,
                    prize >= 0,
                    winning_pool > 0,
            ;
            assert((cp + p) * winning_pool <= (cs + a) * prize) by (nonlinear_arith)
                requires
                    p * winning_pool <= a * prize,
                    cp * winning_pool <= cs * prize,
            ;
        }
    }
}


/// How appending a bet changes every sum over the book.
pub proof fn lemma_book_push(s: Seq<Bet>, x: Bet)
    ensures
        forall|side: BetSide|
            #![trigger side_pool(s.push(x), side)]
            side_pool(s.push(x), side) == side_pool(s, side) + stake_on(x, side),
        forall|side: BetSide|
            #![trigger side_votes(s.push(x), side)]
            side_votes(s.push(x), side) == side_votes(s, side) + vote_on(x, side),
{
    assert forall|side: BetSide|
        #![trigger side_pool(s.push(x), side)]
        side_pool(s.push(x), side) == side_pool(s, side) + stake_on(x, side) by {
        lemma_sum_push(s, x, |b: Bet| stake_on(b, side));
    }
    assert forall|side: BetSide|
        #![trigger side_votes(s.push(x), side)]
        side_votes(s.push(x), side) == side_votes(s, side) + vote_on(x, side) by {
        lemma_sum_push(s, x, |b: Bet| vote_on(b, side));
    }
}

/// How replacing one bet changes every sum over the book.
pub proof fn lemma_book_update(s: Seq<Bet>, i: int, x: Bet)
    requires
        0 <= i < s.len(),
    ensures
        forall|side: BetSide|
            #![trigger side_pool(s.update(i, x), side)]
            side_pool(s.update(i, x), side) == side_pool(s, side) - stake_on(s[i], side)
                + stake_on(x, side),
        forall|side: BetSide|
            #![trigger side_votes(s.update(i, x), side)]
            side_votes(s.update(i, x), side) == side_votes(s, side) - vote_on(s[i], side)
                + vote_on(x, side),
        forall|p: int, w: int|
            #![trigger claimed_payouts(s.update(i, x), p, w)]
            claimed_payouts(s.update(i, x), p, w) == claimed_payouts(s, p, w) - (if s[i].claimed {
                payout(s[i].amount as int, p, w)
            } else {
                0
            }) + (if x.claimed {
                payout(x.amount as int, p, w)
            } else {
                0
            }),
        claimed_stake(s.update(i, x)) == claimed_stake(s) - (if s[i].claimed {
            s[i].amount as int
        } else {
            0
        }) + (if x.claimed {
            x.amount as int
        } else {
            0
        }),
{
    assert forall|side: BetSide|
        #![trigger side_pool(s.update(i, x), side)]
        side_pool(s.update(i, x), side) == side_pool(s, side) - stake_on(s[i], side) + stake_on(
            x,
            side,
        ) by {
        lemma_sum_update(s, i, x, |b: Bet| stake_on(b, side));
    }
    assert forall|side: BetSide|
        #![trigger side_votes(s.update(i, x), side)]
        side_votes(s.update(i, x), side) == side_votes(s, side) - vote_on(s[i], side) + vote_on(
            x,
            side,
        ) by {
        lemma_sum_update(s, i, x, |b: Bet| vote_on(b, side));
    }
    assert forall|p: int, w: int|
        #![trigger claimed_payouts(s.update(i, x), p, w)]
        claimed_payouts(s.update(i, x), p, w) == claimed_payouts(s, p, w) - (if s[i].claimed {
            payout(s[i].amount as int, p, w)
        } else {
            0
        }) + (if x.claimed {
            payout(x.amount as int, p, w)
        } else {
            0
        }) by {
        lemma_sum_update(
            s,
            i,
            x,
            |b: Bet|
                if b.claimed {
                    payout(b.amount as int, p, w)
                } else {
                    0
                },
        );
    }
    lemma_sum_update(
        s,
        i,
        x,
        |b: Bet|
            if b.claimed {
                b.amount as int
            } else {
                0
            },
    );
}

/// The vote weight of a side never exceeds its pool, and neither is negative.
pub proof fn lemma_votes_within_pool(s: Seq<Bet>, side: BetSide)
    ensures
        0 <= side_votes(s, side) <= side_pool(s, side),
{
    lemma_sum_le(s, |b: Bet| 0, |b: Bet| vote_on(b, side));
    lemma_sum_le(s, |b: Bet| vote_on(b, side), |b: Bet| stake_on(b, side));
    assert(sum_by(s, |b: Bet| 0) == 0) by {
        lemma_sum_zero(s);
    }
}

proof fn lemma_sum_zero(s: Seq<Bet>)
    ensures
        sum_by(s, |b: Bet| 0) == 0,
    decreases s.len(),
{
    if s.len() > 0 {
        lemma_sum_zero(s.drop_last());
    }
}

/// A book with no claimed bet has paid nothing out.
pub proof fn lemma_nothing_claimed(s: Seq<Bet>, p: int, w: int)
    requires
        forall|i: int| 0 <= i < s.len() ==> !(#[trigger] s[i]).claimed,
    ensures
        claimed_payouts(s, p, w) == 0,
        claimed_stake(s) == 0,
    decreases s.len(),
{
    if s.len() > 0 {
        let t = s.drop_last();
        assert forall|i: int| 0 <= i < t.len() implies !(#[trigger] t[i]).claimed by {
            assert(t[i] == s[i]);
        }
        lemma_nothing_claimed(t, p, w);
    }
}

/// The stake of the claimed bets, all on `side`, is at most that side's pool.
pub proof fn lemma_claimed_within_pool(s: Seq<Bet>, side: BetSide)
    requires
        forall|i: int| 0 <= i < s.len() && (#[trigger] s[i]).claimed ==> s[i].side == side,
    ensures
        0 <= claimed_stake(s) <= side_pool(s, side),
{
    let f = |b: Bet|
        if b.claimed {
            b.amount as int
        } else {
            0
        };
    lemma_sum_le(s, |b: Bet| 0, f);
    lemma_sum_le(s, f, |b: Bet| stake_on(b, side));
    lemma_sum_zero(s);
}

} // verus!
