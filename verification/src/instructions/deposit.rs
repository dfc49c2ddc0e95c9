use vstd::prelude::*;

use crate::constants::MINIMUM_LIQUIDITY;
use crate::curve::{compute_deposit, deposit_outcome, DepositAmounts};
use crate::error::AmmError;
use crate::events::LiquidityDeposited;
use crate::state::{Config, Pubkey};

verus! {

/// What a deposit reads: who deposits, the pool, the two vault balances and
/// the LP supply.
#[derive(Debug, Clone, Copy)]
pub struct Deposit {
    pub user: Pubkey,
    /// Address of the pool's config account.
    pub config_key: Pubkey,
    pub config: Config,
    pub vault_x: u64,
    pub vault_y: u64,
    pub lp_supply: u64,
}

/// What a deposit moves: `amounts.amount_x` and `amounts.amount_y` from the
/// user into the vaults, `amounts.lp_tokens` newly minted to the user, and
/// `locked_lp` newly minted to the pool's own LP account, where it stays.
#[derive(Debug, Clone, Copy)]
pub struct DepositPlan {
    pub amounts: DepositAmounts,
    pub locked_lp: u64,
    pub event: LiquidityDeposited,
}

impl Deposit {
    /// LP tokens locked by a deposit into a pool with this supply: the
    /// minimum liquidity on the first deposit, nothing after.
    pub open spec fn locked_for(lp_supply: u64) -> u64 {
        if lp_supply == 0 {
            MINIMUM_LIQUIDITY
        } else {
            0
        }
    }

    /// What `handler` returns: refused while the pool is locked, then the
    /// curve decides, then the caller's floor on LP tokens.
    pub open spec fn plan(self, max_x: u64, max_y: u64, min_lp: u64) -> Result<
        DepositPlan,
        AmmError,
    > {
        if self.config.locked {
            Err(AmmError::PoolLocked)
        } else {
            match deposit_outcome(
                self.vault_x as int,
                self.vault_y as int,
                self.lp_supply as int,
                max_x as int,
                max_y as int,
            ) {
                Err(e) => Err(e),
                Ok(amounts) => if amounts.lp_tokens < min_lp {
                    Err(AmmError::SlippageExceeded)
                } else {
                    Ok(
                        DepositPlan {
                            amounts,
                            locked_lp: Self::locked_for(self.lp_supply),
                            event: LiquidityDeposited {
                                config: self.config_key,
                                user: self.user,
                                amount_x: amounts.amount_x,
                                amount_y: amounts.amount_y,
                                lp_tokens: amounts.lp_tokens,
                            },
                        },
                    )
                },
            }
        }
    }

    /// `max_x` and `max_y` are ceilings: the pool takes what the ratio
    /// allows and leaves the rest. `min_lp` is the slippage floor.
    pub fn handler(&self, max_x: u64, max_y: u64, min_lp: u64) -> (r: Result<DepositPlan, AmmError>)
        ensures
            r == self.plan(max_x, max_y, min_lp),
            self.config.locked ==> r == Err::<DepositPlan, AmmError>(AmmError::PoolLocked),
            r matches Ok(p) ==> p.amounts.lp_tokens >= min_lp,
    {
        if self.config.locked {
            return Err(AmmError::PoolLocked);
        }

        let amounts = compute_deposit(self.vault_x, self.vault_y, self.lp_supply, max_x, max_y)?;
        if !(amounts.lp_tokens >= min_lp) {
            return Err(AmmError::SlippageExceeded);
        }

        let locked_lp = if self.lp_supply == 0 {
            MINIMUM_LIQUIDITY
        } else {
            0
        };
        Ok(
            DepositPlan {
                amounts,
                locked_lp,
                event: LiquidityDeposited {
                    config: self.config_key,
                    user: self.user,
                    amount_x: amounts.amount_x,
                    amount_y: amounts.amount_y,
                    lp_tokens: amounts.lp_tokens,
                },
            },
        )
    }
}

} // verus!
