//! The program's entry points, one per instruction. Each hands its
//! arguments to the handler of its instruction.

use vstd::prelude::*;

use crate::error::AmmError;
use crate::events::{FeesWithdrawn, PoolCreated, PoolLockSet};
use crate::instructions::admin::{SetLocked, WithdrawFees};
use crate::instructions::deposit::{Deposit, DepositPlan};
use crate::instructions::initialize::{Initialize, InitializeBumps};
use crate::instructions::swap::{Swap, SwapPlan};
use crate::instructions::withdraw::{Withdraw, WithdrawPlan};
use crate::state::{Config, Pubkey};

verus! {

/// Creates a pool for `mint_x` and `mint_y`. `seed` namespaces it so one
/// pair can have several. `fee_bps` is charged on swap input and
/// `protocol_fee_bps` is the treasury's share of that fee.
pub fn initialize(
    ctx: &Initialize,
    seed: u64,
    fee_bps: u16,
    protocol_fee_bps: u16,
    authority: Pubkey,
    bumps: &InitializeBumps,
) -> (r: Result<(Config, PoolCreated), AmmError>)
    ensures
        r == ctx.plan(seed, fee_bps, protocol_fee_bps, authority, *bumps),
{
    ctx.handler(seed, fee_bps, protocol_fee_bps, authority, bumps)
}

/// Adds liquidity at the current ratio, up to `max_x` and `max_y`.
/// Reverts below `min_lp`.
pub fn deposit(ctx: &Deposit, max_x: u64, max_y: u64, min_lp: u64) -> (r: Result<
    DepositPlan,
    AmmError,
>)
    ensures
        r == ctx.plan(max_x, max_y, min_lp),
{
    ctx.handler(max_x, max_y, min_lp)
}

/// Burns `lp_tokens` and pays out both sides. Reverts below `min_x` or
/// `min_y`.
pub fn withdraw(ctx: &Withdraw, lp_tokens: u64, min_x: u64, min_y: u64) -> (r: Result<
    WithdrawPlan,
    AmmError,
>)
    ensures
        r == ctx.plan(lp_tokens, min_x, min_y),
{
    ctx.handler(lp_tokens, min_x, min_y)
}

/// Trades `amount_in` of `mint_in` for at least `min_amount_out` of
/// `mint_out`.
pub fn swap(ctx: &Swap, amount_in: u64, min_amount_out: u64) -> (r: Result<SwapPlan, AmmError>)
    requires
        !ctx.split_underflows(amount_in),
    ensures
        r == ctx.plan(amount_in, min_amount_out),
{
    ctx.handler(amount_in, min_amount_out)
}

/// Stops or restarts deposits and swaps. Only the pool's authority can.
pub fn set_locked(ctx: &mut SetLocked, locked: bool) -> (r: Result<PoolLockSet, AmmError>)
    ensures
        old(ctx).authority@ != old(ctx).config.authority@ ==> r == Err::<PoolLockSet, AmmError>(
            AmmError::Unauthorized,
        ) && *final(ctx) == *old(ctx),
        old(ctx).authority@ == old(ctx).config.authority@ ==> r is Ok && r->Ok_0.locked == locked
            && r->Ok_0.config == old(ctx).config_key && final(ctx).config == (Config {
            locked,
            ..old(ctx).config
        }) && final(ctx).authority == old(ctx).authority && final(ctx).config_key == old(
            ctx,
        ).config_key,
{
    ctx.handler(locked)
}

/// Moves `amount` of collected fees out of one treasury. Only the pool's
/// authority can.
pub fn withdraw_fees(ctx: &WithdrawFees, amount: u64) -> (r: Result<FeesWithdrawn, AmmError>)
    ensures
        r == ctx.plan(amount),
{
    ctx.handler(amount)
}

} // verus!
