use vstd::prelude::*;
use crate::types::{AccountKey, ArenaError};
use crate::rating::RATING_FLOOR;

verus! {

/// Fee rates are in basis points: `BPS_SCALE` stands for 100%.
pub const BPS_SCALE: u64 = 10_000;

/// Longest fighter name, in bytes.
pub const MAX_NAME_LEN: usize = 32;

/// Rating of a newly registered fighter.
pub const INITIAL_ELO: u32 = 1000;

/// Length of a string in bytes, as UTF-8.
pub open spec fn byte_len(s: Seq<char>) -> nat {
    vstd::utf8::encode_utf8(s).len()
}

/// Settings of an arena, as given when it is set up.
#[derive(Clone, Copy, Debug)]
pub struct ArenaConfig {
    pub house_fee_bps: u16,
    pub min_bet: u64,
    pub min_stake_to_create: u64,
    pub voting_period: i64,
}

/// The arena's global configuration and counters.
#[derive(Clone, Copy, Debug)]
pub struct Arena {
    pub authority: AccountKey,
    pub treasury: AccountKey,
    pub house_fee_bps: u16,
    pub min_bet: u64,
    pub min_stake_to_create: u64,
    pub voting_period: i64,
    pub battle_count: u64,
    pub total_volume: u64,
}

impl Arena {
    /// The fee never takes more than the whole pool.
    pub open spec fn wf(&self) -> bool {
        self.house_fee_bps <= BPS_SCALE
    }
}

/// A registered participant and its record.
#[derive(Clone, Debug)]
pub struct Fighter {
    pub wallet: AccountKey,
    pub name: String,
    pub elo: u32,
    pub wins: u32,
    pub losses: u32,
    pub draws: u32,
    pub total_earnings: u64,
    pub registered_at: i64,
}

impl Fighter {
    /// A rating never drops below the floor.
    pub open spec fn wf(&self) -> bool {
        self.elo >= RATING_FLOOR
    }
}

/// The accounts that setting up an arena touches.
#[derive(Clone, Copy, Debug)]
pub struct Initialize {
    pub arena: Arena,
    pub treasury: AccountKey,
    pub authority: AccountKey,
}

/// The accounts that registering a fighter touches.
#[derive(Clone, Debug)]
pub struct RegisterFighter {
    pub fighter: Fighter,
    pub wallet: AccountKey,
}

/// Sets up the arena from `config`, with both counters at zero. A fee over
/// 100% is refused.
pub fn initialize(ctx: &mut Initialize, config: ArenaConfig) -> (r: Result<(), ArenaError>)
    ensures
        config.house_fee_bps > BPS_SCALE ==> r == Err::<(), ArenaError>(ArenaError::InvalidFee)
            && *final(ctx) == *old(ctx),
        config.house_fee_bps <= BPS_SCALE ==> r is Ok && final(ctx).arena == (Arena {
            authority: old(ctx).authority,
            treasury: old(ctx).treasury,
            house_fee_bps: config.house_fee_bps,
            min_bet: config.min_bet,
            min_stake_to_create: config.min_stake_to_create,
            voting_period: config.voting_period,
            battle_count: 0,
            total_volume: 0,
        }) && final(ctx).treasury == old(ctx).treasury && final(ctx).authority == old(
            ctx,
        ).authority && final(ctx).arena.wf(),
{
    if config.house_fee_bps as u64 > BPS_SCALE {
        return Err(ArenaError::InvalidFee);
    }
    ctx.arena = Arena {
        authority: ctx.authority,
        treasury: ctx.treasury,
        house_fee_bps: config.house_fee_bps,
        min_bet: config.min_bet,
        min_stake_to_create: config.min_stake_to_create,
        voting_period: config.voting_period,
        battle_count: 0,
        total_volume: 0,
    };
    Ok(())
}

/// Registers the signing wallet as a fighter named `name`, rated
/// `INITIAL_ELO`, with an empty record. A name over 32 bytes is refused.
pub fn register_fighter(ctx: &mut RegisterFighter, name: String, now: i64) -> (r: Result<
    (),
    ArenaError,
>)
    ensures
        byte_len(name@) > MAX_NAME_LEN ==> r == Err::<(), ArenaError>(ArenaError::NameTooLong)
            && final(ctx).fighter == old(ctx).fighter && final(ctx).wallet == old(ctx).wallet,
        byte_len(name@) <= MAX_NAME_LEN ==> r is Ok && final(ctx).wallet == old(ctx).wallet
            && final(ctx).fighter.wallet == old(ctx).wallet && final(ctx).fighter.name@ == name@
            && final(ctx).fighter.elo == INITIAL_ELO && final(ctx).fighter.wins == 0
            && final(ctx).fighter.losses == 0 && final(ctx).fighter.draws == 0
            && final(ctx).fighter.total_earnings == 0 && final(ctx).fighter.registered_at == now
            && final(ctx).fighter.wf(),
{
    if name.as_str().as_bytes().len() > MAX_NAME_LEN {
        return Err(ArenaError::NameTooLong);
    }
    ctx.fighter = Fighter {
        wallet: ctx.wallet,
        name,
        elo: INITIAL_ELO,
        wins: 0,
        losses: 0,
        draws: 0,
        total_earnings: 0,
        registered_at: now,
    };
    Ok(())
}

} // verus!
