use vstd::prelude::*;

use crate::error::AmmError;
use crate::events::{FeesWithdrawn, PoolLockSet};
use crate::state::{Config, Pubkey};

verus! {

/// What locking or unlocking a pool reads: who signed, and the pool.
///
/// Deposits and swaps refuse to run while the pool is locked. Withdrawals do
/// not.
#[derive(Debug, Clone, Copy)]
pub struct SetLocked {
    pub authority: Pubkey,
    /// Address of the pool's config account.
    pub config_key: Pubkey,
    pub config: Config,
}

impl SetLocked {
    /// Sets the lock, if the signer is the pool's authority. On success only
    /// the lock changes; on refusal nothing does.
    pub fn handler(&mut self, locked: bool) -> (r: Result<PoolLockSet, AmmError>)
        ensures
            old(self).authority@ != old(self).config.authority@ ==> r == Err::<
                PoolLockSet,
                AmmError,
            >(AmmError::Unauthorized) && *final(self) == *old(self),
            old(self).authority@ == old(self).config.authority@ ==> {
                &&& r is Ok
                &&& r->Ok_0.config == old(self).config_key
                &&& r->Ok_0.locked == locked
                &&& final(self).config == (Config { locked, ..old(self).config })
                &&& final(self).authority == old(self).authority
                &&& final(self).config_key == old(self).config_key
            },
    {
        if !(self.config.authority == self.authority) {
            return Err(AmmError::Unauthorized);
        }
        self.config.locked = locked;

        Ok(PoolLockSet { config: self.config_key, locked })
    }
}

/// What moving fees out of a treasury reads: who signed, which of the pool's
/// mints, the pool, and the treasury's balance.
#[derive(Debug, Clone, Copy)]
pub struct WithdrawFees {
    pub authority: Pubkey,
    pub mint: Pubkey,
    /// Address of the pool's config account.
    pub config_key: Pubkey,
    pub config: Config,
    pub treasury: u64,
}

impl WithdrawFees {
    /// What `handler` returns: only the authority, only a positive amount,
    /// and never more than the treasury holds.
    pub open spec fn plan(self, amount: u64) -> Result<FeesWithdrawn, AmmError> {
        if self.authority@ != self.config.authority@ {
            Err(AmmError::Unauthorized)
        } else if amount == 0 {
            Err(AmmError::ZeroAmount)
        } else if amount > self.treasury {
            Err(AmmError::InsufficientTreasuryBalance)
        } else {
            Ok(FeesWithdrawn { config: self.config_key, mint: self.mint, amount })
        }
    }

    /// Moves `amount` of `mint` from its treasury to the authority. The
    /// treasury is the only source: the vaults are never reachable from
    /// here.
    pub fn handler(&self, amount: u64) -> (r: Result<FeesWithdrawn, AmmError>)
        ensures
            r == self.plan(amount),
            r matches Ok(e) ==> 0 < e.amount <= self.treasury,
    {
        if !(self.config.authority == self.authority) {
            return Err(AmmError::Unauthorized);
        }
        if !(amount > 0) {
            return Err(AmmError::ZeroAmount);
        }
        if !(amount <= self.treasury) {
            return Err(AmmError::InsufficientTreasuryBalance);
        }

        Ok(FeesWithdrawn { config: self.config_key, mint: self.mint, amount })
    }
}

} // verus!
