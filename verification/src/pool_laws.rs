//! What the instructions promise together: a config that `initialize`
//! stores never breaks a swap, withdrawals ignore the lock, and deposits,
//! withdrawals and swaps keep the pool's reserves and LP supply in step.
//! Each instruction is also stated once in plain terms: exactly when it
//! succeeds, and what it then moves and records.

use vstd::prelude::*;

use crate::constants::MINIMUM_LIQUIDITY;
use crate::curve::deposit_outcome;
use crate::curve_laws::{
    deposit_keeps_supply_backed, deposit_never_exceeds_offer, protocol_share_within_fee,
    swap_never_lowers_invariant, withdraw_keeps_supply_backed,
};
use crate::curve::{swap_outcome, withdraw_outcome};
use crate::error::AmmError;
use crate::events::{FeesWithdrawn, PoolCreated};
use crate::instructions::admin::WithdrawFees;
use crate::instructions::deposit::{Deposit, DepositPlan};
use crate::instructions::initialize::{Initialize, InitializeBumps};
use crate::instructions::swap::{Swap, SwapPlan};
use crate::instructions::withdraw::{Withdraw, WithdrawPlan};
use crate::state::{Config, Pubkey};

verus! {

/// A config that `initialize` stores never lets a swap's fee split
/// underflow, whatever the balances and the amount traded.
pub proof fn stored_config_keeps_swaps_defined(
    init: Initialize,
    seed: u64,
    fee_bps: u16,
    protocol_fee_bps: u16,
    authority: Pubkey,
    bumps: InitializeBumps,
    swap: Swap,
    amount_in: u64,
)
    requires
        init.plan(seed, fee_bps, protocol_fee_bps, authority, bumps) is Ok,
        swap.config == init.plan(seed, fee_bps, protocol_fee_bps, authority, bumps)->Ok_0.0,
    ensures
        !swap.split_underflows(amount_in),
{
    protocol_share_within_fee(
        swap.vault_in,
        swap.vault_out,
        amount_in,
        swap.config.fee_bps,
        swap.config.protocol_fee_bps,
    );
}

/// Locking a pool never keeps its providers in: a withdrawal is decided the
/// same way whether the pool is locked or not.
pub proof fn withdraw_ignores_lock(w: Withdraw, lp_tokens: u64, min_x: u64, min_y: u64)
    ensures
        (Withdraw { config: Config { locked: true, ..w.config }, ..w }).plan(lp_tokens, min_x, min_y)
            == (Withdraw { config: Config { locked: false, ..w.config }, ..w }).plan(
            lp_tokens,
            min_x,
            min_y,
        ),
{
}

/// A successful swap moves the whole input into the pool's two accounts,
/// only the protocol cut into the treasury, pays out less than the output
/// vault holds, and leaves the vaults' product at least where it was.
pub proof fn swap_plan_never_lowers_invariant(s: Swap, amount_in: u64, min_amount_out: u64)
    requires
        !s.split_underflows(amount_in),
        s.plan(amount_in, min_amount_out) is Ok,
    ensures
        ({
            let p = s.plan(amount_in, min_amount_out)->Ok_0;
            &&& p.to_treasury + p.to_vault == amount_in
            &&& p.to_treasury == p.amounts.protocol_fee
            &&& p.amounts.amount_out < s.vault_out
            &&& (s.vault_in + p.to_vault) * (s.vault_out - p.amounts.amount_out) >= s.vault_in as int
                * s.vault_out as int
        }),
{
    swap_never_lowers_invariant(
        s.vault_in,
        s.vault_out,
        amount_in,
        s.config.fee_bps,
        s.config.protocol_fee_bps,
    );
}

/// A successful deposit keeps the LP supply backed: if the supply squared
/// was at most the product of the vaults, then after the deposit's
/// transfers and mints (the locked tokens included) it still is.
pub proof fn deposit_plan_keeps_supply_backed(d: Deposit, max_x: u64, max_y: u64, min_lp: u64)
    requires
        d.plan(max_x, max_y, min_lp) is Ok,
        d.lp_supply as int * d.lp_supply as int <= d.vault_x as int * d.vault_y as int,
    ensures
        ({
            let p = d.plan(max_x, max_y, min_lp)->Ok_0;
            let supply = d.lp_supply + p.amounts.lp_tokens + p.locked_lp;
            supply * supply <= (d.vault_x + p.amounts.amount_x) * (d.vault_y + p.amounts.amount_y)
        }),
{
    let amounts = deposit_outcome(
        d.vault_x as int,
        d.vault_y as int,
        d.lp_supply as int,
        max_x as int,
        max_y as int,
    )->Ok_0;
    deposit_keeps_supply_backed(d.vault_x, d.vault_y, d.lp_supply, max_x, max_y, amounts);
}

/// A successful withdrawal keeps the LP supply backed by what stays in the
/// vaults.
pub proof fn withdraw_plan_keeps_supply_backed(w: Withdraw, lp_tokens: u64, min_x: u64, min_y: u64)
    requires
        w.plan(lp_tokens, min_x, min_y) is Ok,
        w.lp_supply as int * w.lp_supply as int <= w.vault_x as int * w.vault_y as int,
    ensures
        ({
            let p = w.plan(lp_tokens, min_x, min_y)->Ok_0;
            let supply = w.lp_supply - p.lp_burned;
            supply * supply <= (w.vault_x - p.amount_x) * (w.vault_y - p.amount_y)
        }),
{
    withdraw_keeps_supply_backed(w.vault_x, w.vault_y, w.lp_supply, lp_tokens);
}

/// The first deposit locks `MINIMUM_LIQUIDITY` in the pool's own LP account,
/// on top of what it mints to the depositor; later deposits lock nothing
/// more.
pub proof fn first_deposit_locks_the_minimum(d: Deposit, max_x: u64, max_y: u64, min_lp: u64)
    requires
        d.plan(max_x, max_y, min_lp) is Ok,
    ensures
        d.lp_supply == 0 ==> d.plan(max_x, max_y, min_lp)->Ok_0.locked_lp == MINIMUM_LIQUIDITY,
        d.lp_supply > 0 ==> d.plan(max_x, max_y, min_lp)->Ok_0.locked_lp == 0,
        d.plan(max_x, max_y, min_lp)->Ok_0.amounts.lp_tokens > 0,
{
    let amounts = deposit_outcome(
        d.vault_x as int,
        d.vault_y as int,
        d.lp_supply as int,
        max_x as int,
        max_y as int,
    )->Ok_0;
    deposit_never_exceeds_offer(d.vault_x, d.vault_y, d.lp_supply, max_x, max_y, amounts);
}

/// A withdrawal burns only the withdrawing holder's tokens, never the locked
/// ones, so burning at most what sits outside the locked account leaves at
/// least `MINIMUM_LIQUIDITY` in the supply: it never returns to zero.
pub proof fn locked_liquidity_keeps_supply_positive(
    w: Withdraw,
    lp_tokens: u64,
    min_x: u64,
    min_y: u64,
)
    requires
        w.plan(lp_tokens, min_x, min_y) is Ok,
        w.lp_supply >= MINIMUM_LIQUIDITY,
        lp_tokens <= w.lp_supply - MINIMUM_LIQUIDITY,
    ensures
        w.plan(lp_tokens, min_x, min_y)->Ok_0.lp_burned == lp_tokens,
        w.lp_supply - w.plan(lp_tokens, min_x, min_y)->Ok_0.lp_burned >= MINIMUM_LIQUIDITY,
{
}

// ---------------------------------------------------------------------------
// Each instruction in plain terms
// ---------------------------------------------------------------------------

/// Creating a pool succeeds exactly when the two mints differ, both mint
/// accounts belong to the token program passed in, both are plain 82-byte
/// mints, the swap fee is at most 1_000 bps and the protocol share at most
/// 10_000 bps; any such fees, zero included, are accepted. On success the
/// stored config holds exactly the arguments, unlocked, and the event names
/// the pool, its mints and its fees.
pub proof fn initialize_accepts_exactly_the_valid_pools(
    init: Initialize,
    seed: u64,
    fee_bps: u16,
    protocol_fee_bps: u16,
    authority: Pubkey,
    bumps: InitializeBumps,
)
    ensures
        ({
            let r = init.plan(seed, fee_bps, protocol_fee_bps, authority, bumps);
            &&& r is Ok <==> (init.mint_x@ != init.mint_y@ && init.mint_x_owner@
                == init.token_program@ && init.mint_y_owner@ == init.token_program@
                && init.mint_x_len == 82 && init.mint_y_len == 82 && fee_bps <= 1_000
                && protocol_fee_bps <= 10_000)
            &&& r is Ok ==> {
                let (config, event) = r->Ok_0;
                &&& config.seed == seed
                &&& config.authority == authority
                &&& config.mint_x == init.mint_x
                &&& config.mint_y == init.mint_y
                &&& config.fee_bps == fee_bps
                &&& config.protocol_fee_bps == protocol_fee_bps
                &&& !config.locked
                &&& config.bump == bumps.config
                &&& config.lp_bump == bumps.lp_mint
                &&& config.treasury_x_bump == bumps.treasury_x
                &&& config.treasury_y_bump == bumps.treasury_y
                &&& event.config == init.config_key
                &&& event.mint_x == init.mint_x
                &&& event.mint_y == init.mint_y
                &&& event.fee_bps == fee_bps
                &&& event.protocol_fee_bps == protocol_fee_bps
            }
            &&& init.mint_x@ == init.mint_y@ ==> r == Err::<(Config, PoolCreated), AmmError>(
                AmmError::IdenticalMints,
            )
        }),
{
}

/// Moving fees out of a treasury succeeds exactly when the signer is the
/// pool's authority and `0 < amount <= treasury`, whichever mint the
/// treasury holds; it then moves exactly `amount` of that mint. A stranger
/// is refused with `Unauthorized` whatever the amount.
pub proof fn withdraw_fees_accepts_exactly_the_authority(f: WithdrawFees, amount: u64)
    ensures
        ({
            let r = f.plan(amount);
            &&& r is Ok <==> (f.authority@ == f.config.authority@ && 0 < amount <= f.treasury)
            &&& r is Ok ==> r->Ok_0.amount == amount && r->Ok_0.mint == f.mint && r->Ok_0.config
                == f.config_key
            &&& f.authority@ != f.config.authority@ ==> r == Err::<FeesWithdrawn, AmmError>(
                AmmError::Unauthorized,
            )
            &&& f.authority@ == f.config.authority@ && amount == 0 ==> r == Err::<
                FeesWithdrawn,
                AmmError,
            >(AmmError::ZeroAmount)
            &&& f.authority@ == f.config.authority@ && amount > f.treasury ==> r == Err::<
                FeesWithdrawn,
                AmmError,
            >(AmmError::InsufficientTreasuryBalance)
        }),
{
}

/// A deposit succeeds exactly when the pool is open, the curve accepts it
/// and it mints at least `min_lp`; it then moves and mints what the curve
/// decided, locks `1_000` LP tokens on the first deposit and none after,
/// and records the same amounts.
pub proof fn deposit_plan_in_plain_terms(d: Deposit, max_x: u64, max_y: u64, min_lp: u64)
    ensures
        ({
            let r = d.plan(max_x, max_y, min_lp);
            let c = deposit_outcome(
                d.vault_x as int,
                d.vault_y as int,
                d.lp_supply as int,
                max_x as int,
                max_y as int,
            );
            &&& r is Ok <==> (!d.config.locked && c is Ok && c->Ok_0.lp_tokens >= min_lp)
            &&& d.config.locked ==> r == Err::<DepositPlan, AmmError>(AmmError::PoolLocked)
            &&& !d.config.locked && c is Err ==> r == Err::<DepositPlan, AmmError>(c->Err_0)
            &&& r is Ok ==> {
                let p = r->Ok_0;
                &&& p.amounts == c->Ok_0
                &&& p.locked_lp == (if d.lp_supply == 0 {
                    1_000u64
                } else {
                    0u64
                })
                &&& p.event.amount_x == p.amounts.amount_x
                &&& p.event.amount_y == p.amounts.amount_y
                &&& p.event.lp_tokens == p.amounts.lp_tokens
                &&& p.event.user == d.user
                &&& p.event.config == d.config_key
            }
        }),
{
}

/// A withdrawal succeeds exactly when the curve accepts it and both payouts
/// meet their floors, locked pool or not; it burns exactly the LP tokens
/// asked for and pays what the curve decided.
pub proof fn withdraw_plan_in_plain_terms(w: Withdraw, lp_tokens: u64, min_x: u64, min_y: u64)
    ensures
        ({
            let r = w.plan(lp_tokens, min_x, min_y);
            let c = withdraw_outcome(
                w.vault_x as int,
                w.vault_y as int,
                w.lp_supply as int,
                lp_tokens as int,
            );
            &&& r is Ok <==> (c is Ok && c->Ok_0.0 >= min_x && c->Ok_0.1 >= min_y)
            &&& c is Err ==> r == Err::<WithdrawPlan, AmmError>(c->Err_0)
            &&& r is Ok ==> {
                let p = r->Ok_0;
                &&& p.lp_burned == lp_tokens
                &&& p.amount_x == c->Ok_0.0
                &&& p.amount_y == c->Ok_0.1
                &&& p.event.lp_tokens == lp_tokens
                &&& p.event.amount_x == p.amount_x
                &&& p.event.amount_y == p.amount_y
            }
        }),
{
}

/// A swap succeeds exactly when the two mints are the pool's pair in either
/// order, the pool is open, the curve accepts the trade and it pays at least
/// `min_amount_out`; the trader then pays the protocol cut to the treasury
/// and the rest of the input to the vault, and receives what the curve
/// priced.
pub proof fn swap_plan_in_plain_terms(s: Swap, amount_in: u64, min_amount_out: u64)
    ensures
        ({
            let r = s.plan(amount_in, min_amount_out);
            let pair = (s.mint_in@ == s.config.mint_x@ && s.mint_out@ == s.config.mint_y@) || (
            s.mint_in@ == s.config.mint_y@ && s.mint_out@ == s.config.mint_x@);
            let c = swap_outcome(
                s.vault_in as int,
                s.vault_out as int,
                amount_in as int,
                s.config.fee_bps as int,
                s.config.protocol_fee_bps as int,
            );
            &&& r is Ok <==> (pair && !s.config.locked && c is Ok && c->Ok_0.amount_out
                >= min_amount_out)
            &&& !pair ==> r == Err::<SwapPlan, AmmError>(AmmError::InvalidMintPair)
            &&& pair && s.config.locked ==> r == Err::<SwapPlan, AmmError>(AmmError::PoolLocked)
            &&& pair && !s.config.locked && c is Err ==> r == Err::<SwapPlan, AmmError>(c->Err_0)
            &&& r is Ok ==> {
                let p = r->Ok_0;
                &&& p.amounts == c->Ok_0
                &&& p.to_treasury == p.amounts.protocol_fee
                &&& p.to_treasury <= amount_in ==> p.to_vault == amount_in - p.to_treasury
                &&& p.event.amount_in == amount_in
                &&& p.event.mint_in == s.mint_in
                &&& p.event.amount_out == p.amounts.amount_out
            }
        }),
{
}

/// A config pairs two mints exactly when they are its two mints, in either
/// order; a mint is never paired with itself unless the pool's two mints
/// coincide.
pub proof fn pairs_are_the_pool_mints_in_either_order(config: Config, a: Pubkey, b: Pubkey)
    ensures
        config.pairs(a, b) <==> ((a@ == config.mint_x@ && b@ == config.mint_y@) || (a@
            == config.mint_y@ && b@ == config.mint_x@)),
        config.pairs(config.mint_x, config.mint_y),
        config.pairs(config.mint_y, config.mint_x),
        config.pairs(a, b) <==> config.pairs(b, a),
        config.mint_x@ != config.mint_y@ ==> !config.pairs(a, a),
{
}

} // verus!
