use vstd::prelude::*;

use crate::curve::{compute_swap, swap_outcome, swap_split_underflows, SwapAmounts};
use crate::error::AmmError;
use crate::events::Swapped;
use crate::state::{Config, Pubkey};

verus! {

/// What a swap reads: who trades, the two mints in the order of the trade,
/// the pool, and the balances of the vault paid into and the vault paid
/// from.
///
/// Direction comes from the mints the caller passes, checked against the
/// pair in either order, rather than from a flag.
#[derive(Debug, Clone, Copy)]
pub struct Swap {
    pub user: Pubkey,
    pub mint_in: Pubkey,
    pub mint_out: Pubkey,
    /// Address of the pool's config account.
    pub config_key: Pubkey,
    pub config: Config,
    pub vault_in: u64,
    pub vault_out: u64,
}

/// What a swap moves: `to_treasury` from the trader to the treasury of the
/// input mint, `to_vault` from the trader to the input vault, and
/// `amounts.amount_out` from the output vault to the trader.
#[derive(Debug, Clone, Copy)]
pub struct SwapPlan {
    pub amounts: SwapAmounts,
    pub to_treasury: u64,
    pub to_vault: u64,
    pub event: Swapped,
}

impl Swap {
    /// The fee split of this trade would underflow: only possible with a
    /// protocol share above 100%, which `initialize` never stores.
    pub open spec fn split_underflows(self, amount_in: u64) -> bool {
        &&& self.config.pairs(self.mint_in, self.mint_out)
        &&& !self.config.locked
        &&& swap_split_underflows(
            self.vault_in as int,
            self.vault_out as int,
            amount_in as int,
            self.config.fee_bps as int,
            self.config.protocol_fee_bps as int,
        )
    }

    /// What `handler` returns: the mints must be the pool's pair, the pool
    /// must be open, then the curve decides, then the caller's floor.
    pub open spec fn plan(self, amount_in: u64, min_amount_out: u64) -> Result<
        SwapPlan,
        AmmError,
    > {
        if !self.config.pairs(self.mint_in, self.mint_out) {
            Err(AmmError::InvalidMintPair)
        } else if self.config.locked {
            Err(AmmError::PoolLocked)
        } else {
            match swap_outcome(
                self.vault_in as int,
                self.vault_out as int,
                amount_in as int,
                self.config.fee_bps as int,
                self.config.protocol_fee_bps as int,
            ) {
                Err(e) => Err(e),
                Ok(amounts) => if amounts.amount_out < min_amount_out {
                    Err(AmmError::SlippageExceeded)
                } else {
                    Ok(
                        SwapPlan {
                            amounts,
                            to_treasury: amounts.protocol_fee,
                            to_vault: (amount_in - amounts.protocol_fee) as u64,
                            event: Swapped {
                                config: self.config_key,
                                user: self.user,
                                mint_in: self.mint_in,
                                amount_in,
                                amount_out: amounts.amount_out,
                                lp_fee: amounts.lp_fee,
                                protocol_fee: amounts.protocol_fee,
                            },
                        },
                    )
                },
            }
        }
    }

    /// Trades `amount_in` of `mint_in` for at least `min_amount_out` of
    /// `mint_out`.
    ///
    /// The trader pays the protocol cut directly to the treasury: the vault
    /// then holds exactly what backs the invariant, with no accrued-fee field
    /// to drift out of step with the balance. The LP share stays.
    pub fn handler(&self, amount_in: u64, min_amount_out: u64) -> (r: Result<SwapPlan, AmmError>)
        requires
            !self.split_underflows(amount_in),
        ensures
            r == self.plan(amount_in, min_amount_out),
            !self.config.pairs(self.mint_in, self.mint_out) ==> r == Err::<SwapPlan, AmmError>(
                AmmError::InvalidMintPair,
            ),
            self.config.pairs(self.mint_in, self.mint_out) && self.config.locked ==> r == Err::<
                SwapPlan,
                AmmError,
            >(AmmError::PoolLocked),
            r matches Ok(p) ==> p.amounts.amount_out >= min_amount_out && p.to_treasury
                + p.to_vault == amount_in,
    {
        if !self.config.holds_pair(&self.mint_in, &self.mint_out) {
            return Err(AmmError::InvalidMintPair);
        }
        if self.config.locked {
            return Err(AmmError::PoolLocked);
        }

        let amounts = compute_swap(
            self.vault_in,
            self.vault_out,
            amount_in,
            self.config.fee_bps,
            self.config.protocol_fee_bps,
        )?;
        if !(amounts.amount_out >= min_amount_out) {
            return Err(AmmError::SlippageExceeded);
        }
        proof {
            crate::curve_laws::swap_fee_splits_exactly(
                self.vault_in,
                self.vault_out,
                amount_in,
                self.config.fee_bps,
                self.config.protocol_fee_bps,
            );
            crate::curve_laws::swap_never_lowers_invariant(
                self.vault_in,
                self.vault_out,
                amount_in,
                self.config.fee_bps,
                self.config.protocol_fee_bps,
            );
        }

        Ok(
            SwapPlan {
                amounts,
                to_treasury: amounts.protocol_fee,
                to_vault: amount_in - amounts.protocol_fee,
                event: Swapped {
                    config: self.config_key,
                    user: self.user,
                    mint_in: self.mint_in,
                    amount_in,
                    amount_out: amounts.amount_out,
                    lp_fee: amounts.lp_fee,
                    protocol_fee: amounts.protocol_fee,
                },
            },
        )
    }
}

} // verus!
