use vstd::prelude::*;

use crate::curve::{compute_withdraw, withdraw_outcome};
use crate::error::AmmError;
use crate::events::LiquidityWithdrawn;
use crate::state::{Config, Pubkey};

verus! {

/// What a withdrawal reads: who withdraws, the pool, the two vault balances
/// and the LP supply.
#[derive(Debug, Clone, Copy)]
pub struct Withdraw {
    pub user: Pubkey,
    /// Address of the pool's config account.
    pub config_key: Pubkey,
    pub config: Config,
    pub vault_x: u64,
    pub vault_y: u64,
    pub lp_supply: u64,
}

/// What a withdrawal moves: `lp_burned` LP tokens burned from the user, then
/// `amount_x` and `amount_y` paid from the vaults to the user.
#[derive(Debug, Clone, Copy)]
pub struct WithdrawPlan {
    pub lp_burned: u64,
    pub amount_x: u64,
    pub amount_y: u64,
    pub event: LiquidityWithdrawn,
}

impl Withdraw {
    /// What `handler` returns: the curve decides, then the caller's floors.
    /// The pool's lock plays no part.
    pub open spec fn plan(self, lp_tokens: u64, min_x: u64, min_y: u64) -> Result<
        WithdrawPlan,
        AmmError,
    > {
        match withdraw_outcome(
            self.vault_x as int,
            self.vault_y as int,
            self.lp_supply as int,
            lp_tokens as int,
        ) {
            Err(e) => Err(e),
            Ok((amount_x, amount_y)) => if !(amount_x >= min_x && amount_y >= min_y) {
                Err(AmmError::SlippageExceeded)
            } else {
                Ok(
                    WithdrawPlan {
                        lp_burned: lp_tokens,
                        amount_x,
                        amount_y,
                        event: LiquidityWithdrawn {
                            config: self.config_key,
                            user: self.user,
                            amount_x,
                            amount_y,
                            lp_tokens,
                        },
                    },
                )
            },
        }
    }

    /// `min_x` and `min_y` are the slippage floor for burning `lp_tokens`.
    ///
    /// Deliberately not gated on `config.locked`. A proportional exit cannot
    /// move the price or take more than its share, so there is nothing for a
    /// lock to protect here, and gating it would let the authority strand
    /// liquidity.
    pub fn handler(&self, lp_tokens: u64, min_x: u64, min_y: u64) -> (r: Result<
        WithdrawPlan,
        AmmError,
    >)
        ensures
            r == self.plan(lp_tokens, min_x, min_y),
            r matches Ok(p) ==> p.amount_x >= min_x && p.amount_y >= min_y,
    {
        let (amount_x, amount_y) = compute_withdraw(
            self.vault_x,
            self.vault_y,
            self.lp_supply,
            lp_tokens,
        )?;
        if !(amount_x >= min_x && amount_y >= min_y) {
            return Err(AmmError::SlippageExceeded);
        }

        Ok(
            WithdrawPlan {
                lp_burned: lp_tokens,
                amount_x,
                amount_y,
                event: LiquidityWithdrawn {
                    config: self.config_key,
                    user: self.user,
                    amount_x,
                    amount_y,
                    lp_tokens,
                },
            },
        )
    }
}

} // verus!
