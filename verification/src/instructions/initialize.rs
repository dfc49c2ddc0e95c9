use vstd::prelude::*;

use crate::constants::{plain_mint_len, BPS_DENOMINATOR, MAX_FEE_BPS, PLAIN_MINT_LEN};
use crate::error::AmmError;
use crate::events::PoolCreated;
use crate::state::{Config, Pubkey};

verus! {

/// What creating a pool reads: the two mints, the program that owns each
/// mint account and the length of its data, the token program passed in,
/// and the address the config will live at.
///
/// Both mints must sit under the same token program, which keeps one token
/// program for every later transfer. Neither may carry Token-2022
/// extensions: a transfer fee delivers less to the vault than the curve
/// priced, and a permanent delegate can move the reserves at will.
#[derive(Debug, Clone, Copy)]
pub struct Initialize {
    pub mint_x: Pubkey,
    pub mint_y: Pubkey,
    pub mint_x_owner: Pubkey,
    pub mint_y_owner: Pubkey,
    pub mint_x_len: usize,
    pub mint_y_len: usize,
    pub token_program: Pubkey,
    /// Address of the new pool's config account.
    pub config_key: Pubkey,
}

/// The bump seeds found for the accounts the pool derives its addresses for.
#[derive(Debug, Clone, Copy)]
pub struct InitializeBumps {
    pub config: u8,
    pub lp_mint: u8,
    pub treasury_x: u8,
    pub treasury_y: u8,
}

impl Initialize {
    /// What `handler` returns: the mint checks in account order, then the
    /// fee checks, then the config to store and the event to record.
    pub open spec fn plan(
        self,
        seed: u64,
        fee_bps: u16,
        protocol_fee_bps: u16,
        authority: Pubkey,
        bumps: InitializeBumps,
    ) -> Result<(Config, PoolCreated), AmmError> {
        if self.mint_x@ == self.mint_y@ {
            Err(AmmError::IdenticalMints)
        } else if self.mint_x_owner@ != self.token_program@ {
            Err(AmmError::MintProgramMismatch)
        } else if self.mint_x_len != PLAIN_MINT_LEN {
            Err(AmmError::MintHasExtensions)
        } else if self.mint_y_owner@ != self.token_program@ {
            Err(AmmError::MintProgramMismatch)
        } else if self.mint_y_len != PLAIN_MINT_LEN {
            Err(AmmError::MintHasExtensions)
        } else if fee_bps > MAX_FEE_BPS {
            Err(AmmError::FeeTooHigh)
        } else if protocol_fee_bps > BPS_DENOMINATOR {
            Err(AmmError::ProtocolFeeTooHigh)
        } else {
            Ok(
                (
                    Config {
                        seed,
                        authority,
                        mint_x: self.mint_x,
                        mint_y: self.mint_y,
                        fee_bps,
                        protocol_fee_bps,
                        locked: false,
                        bump: bumps.config,
                        lp_bump: bumps.lp_mint,
                        treasury_x_bump: bumps.treasury_x,
                        treasury_y_bump: bumps.treasury_y,
                    },
                    PoolCreated {
                        config: self.config_key,
                        mint_x: self.mint_x,
                        mint_y: self.mint_y,
                        fee_bps,
                        protocol_fee_bps,
                    },
                ),
            )
        }
    }

    /// Checks the mints and the fees, and gives back the config to store and
    /// the event to record. A stored config always charges at most
    /// `MAX_FEE_BPS` and gives the treasury at most the whole fee.
    pub fn handler(
        &self,
        seed: u64,
        fee_bps: u16,
        protocol_fee_bps: u16,
        authority: Pubkey,
        bumps: &InitializeBumps,
    ) -> (r: Result<(Config, PoolCreated), AmmError>)
        ensures
            r == self.plan(seed, fee_bps, protocol_fee_bps, authority, *bumps),
            r matches Ok((config, _)) ==> config.fee_bps <= MAX_FEE_BPS && config.protocol_fee_bps
                <= BPS_DENOMINATOR && !config.locked,
    {
        if self.mint_x == self.mint_y {
            return Err(AmmError::IdenticalMints);
        }
        let plain_len = plain_mint_len();
        if !(self.mint_x_owner == self.token_program) {
            return Err(AmmError::MintProgramMismatch);
        }
        if self.mint_x_len != plain_len {
            return Err(AmmError::MintHasExtensions);
        }
        if !(self.mint_y_owner == self.token_program) {
            return Err(AmmError::MintProgramMismatch);
        }
        if self.mint_y_len != plain_len {
            return Err(AmmError::MintHasExtensions);
        }
        if !(fee_bps <= MAX_FEE_BPS) {
            return Err(AmmError::FeeTooHigh);
        }
        if !(protocol_fee_bps as u64 <= BPS_DENOMINATOR) {
            return Err(AmmError::ProtocolFeeTooHigh);
        }

        let config = Config {
            seed,
            authority,
            mint_x: self.mint_x,
            mint_y: self.mint_y,
            fee_bps,
            protocol_fee_bps,
            locked: false,
            bump: bumps.config,
            lp_bump: bumps.lp_mint,
            treasury_x_bump: bumps.treasury_x,
            treasury_y_bump: bumps.treasury_y,
        };
        let event = PoolCreated {
            config: self.config_key,
            mint_x: self.mint_x,
            mint_y: self.mint_y,
            fee_bps,
            protocol_fee_bps,
        };
        Ok((config, event))
    }
}

} // verus!
