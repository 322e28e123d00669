use vstd::prelude::*;

verus! {

/// Expected scores are given in millionths: `EXPECTED_SCALE` stands for 1.
pub const EXPECTED_SCALE: u64 = 1_000_000;

/// The Elo K-factor: the most a rating can move in one contest.
pub const K_FACTOR: u64 = 32;

/// No rating ever drops below this floor.
pub const RATING_FLOOR: u32 = 100;

/// What a winner with the given expected score gains, rounded down.
pub open spec fn win_gain(expected: int) -> int {
    (K_FACTOR * (EXPECTED_SCALE - expected)) / (EXPECTED_SCALE as int)
}

/// What a loser with the given expected score drops, rounded up: the new
/// rating `rating - K * expected` is truncated toward zero.
pub open spec fn loss_drop(expected: int) -> int {
    (K_FACTOR * expected + EXPECTED_SCALE - 1) / (EXPECTED_SCALE as int)
}

/// Keeps a rating between the floor and the largest `u32`.
pub open spec fn clamp_rating(x: int) -> int {
    if x < RATING_FLOOR {
        RATING_FLOOR as int
    } else if x > u32::MAX {
        u32::MAX as int
    } else {
        x
    }
}

/// The rating after one contest, for a player with `expected` millionths of
/// expected score who `won` or lost.
pub open spec fn rating_after(rating: int, expected: int, won: bool) -> int {
    if won {
        clamp_rating(rating + win_gain(expected))
    } else {
        clamp_rating(rating - loss_drop(expected))
    }
}

/// One player's rating after one contest.
pub fn updated_rating(rating: u32, expected: u64, won: bool) -> (r: u32)
    requires
        expected <= EXPECTED_SCALE,
    ensures
        r == rating_after(rating as int, expected as int, won),
{
    if won {
        let gain: u64 = (K_FACTOR * (EXPECTED_SCALE - expected)) / EXPECTED_SCALE;
        proof {
            lemma_gain_and_drop(expected as int);
        }
        assert(gain == win_gain(expected as int));
        let raised: u64 = rating as u64 + gain;
        if raised < RATING_FLOOR as u64 {
            RATING_FLOOR
        } else if raised > u32::MAX as u64 {
            u32::MAX
        } else {
            raised as u32
        }
    } else {
        let drop: u64 = (K_FACTOR * expected + EXPECTED_SCALE - 1) / EXPECTED_SCALE;
        proof {
            lemma_gain_and_drop(EXPECTED_SCALE - expected);
            assert(EXPECTED_SCALE - (EXPECTED_SCALE - expected) == expected);
        }
        assert(drop == loss_drop(expected as int));
        if (rating as u64) < drop + RATING_FLOOR as u64 {
            RATING_FLOOR
        } else {
            (rating as u64 - drop) as u32
        }
    }
}

/// The Elo update of both players, with K = 32. `expected_a` is player A's
/// expected score `1 / (1 + 10^((elo_b - elo_a) / 400))` in millionths;
/// player B's is the rest of the scale.
pub fn calculate_new_elo(elo_a: u32, elo_b: u32, a_wins: bool, expected_a: u64) -> (r: (u32, u32))
    requires
        expected_a <= EXPECTED_SCALE,
    ensures
        r.0 == rating_after(elo_a as int, expected_a as int, a_wins),
        r.1 == rating_after(elo_b as int, EXPECTED_SCALE - expected_a, !a_wins),
{
    let new_a = updated_rating(elo_a, expected_a, a_wins);
    let new_b = updated_rating(elo_b, EXPECTED_SCALE - expected_a, !a_wins);
    (new_a, new_b)
}

proof fn lemma_gain_and_drop(e: int)
    requires
        0 <= e <= EXPECTED_SCALE,
    ensures
        0 <= win_gain(e) <= K_FACTOR,
        0 <= loss_drop(EXPECTED_SCALE - e) <= K_FACTOR,
        win_gain(e) <= loss_drop(EXPECTED_SCALE - e) <= win_gain(e) + 1,
        e <= 968_750 ==> win_gain(e) >= 1,
{
    let x = K_FACTOR * (EXPECTED_SCALE - e);
    assert(0 <= x <= K_FACTOR * EXPECTED_SCALE) by (nonlinear_arith)
        requires
            x == K_FACTOR * (EXPECTED_SCALE - e),
            0 <= e <= EXPECTED_SCALE,
    ;
    assert(win_gain(e) == x / 1_000_000);
    assert(loss_drop(EXPECTED_SCALE - e) == (x + 999_999) / 1_000_000);
}

/// The Elo update moves rating from loser to winner: the winner never loses
/// rating and the loser never gains; a winner who was not already expected to
/// win by more than 96.875% gains at least one point; and where neither
/// rating hits the floor or the top, the two ratings together change by at
/// most the one point that rounding loses.
pub proof fn lemma_elo_update_zero_sum(elo_a: u32, elo_b: u32, a_wins: bool, expected_a: u64)
    requires
        expected_a <= EXPECTED_SCALE,
        RATING_FLOOR <= elo_a,
        RATING_FLOOR <= elo_b,
    ensures
        ({
            let new_a = rating_after(elo_a as int, expected_a as int, a_wins);
            let new_b = rating_after(elo_b as int, EXPECTED_SCALE - expected_a, !a_wins);
            let e_win = if a_wins { expected_a as int } else { EXPECTED_SCALE - expected_a };
            let (w, l, new_w, new_l) = if a_wins {
                (elo_a as int, elo_b as int, new_a, new_b)
            } else {
                (elo_b as int, elo_a as int, new_b, new_a)
            };
            &&& new_w >= w
            &&& new_l <= l
            &&& (e_win <= 968_750 && w + K_FACTOR <= u32::MAX) ==> new_w > w
            &&& (w + K_FACTOR <= u32::MAX && l - K_FACTOR >= RATING_FLOOR) ==> (
                w + l - 1 <= new_w + new_l <= w + l)
        }),
{
    if a_wins {
        lemma_gain_and_drop(expected_a as int);
    } else {
        lemma_gain_and_drop(EXPECTED_SCALE - expected_a);
        assert(EXPECTED_SCALE - (EXPECTED_SCALE - expected_a) == expected_a);
    }
}

} // verus!
