//! What each instruction records when it succeeds.

use vstd::prelude::*;

use crate::state::Pubkey;

verus! {

/// A pool was created.
#[derive(Debug, Clone, Copy)]
pub struct PoolCreated {
    pub config: Pubkey,
    pub mint_x: Pubkey,
    pub mint_y: Pubkey,
    pub fee_bps: u16,
    pub protocol_fee_bps: u16,
}

/// Liquidity was added.
#[derive(Debug, Clone, Copy)]
pub struct LiquidityDeposited {
    pub config: Pubkey,
    pub user: Pubkey,
    pub amount_x: u64,
    pub amount_y: u64,
    pub lp_tokens: u64,
}

/// Liquidity was taken out.
#[derive(Debug, Clone, Copy)]
pub struct LiquidityWithdrawn {
    pub config: Pubkey,
    pub user: Pubkey,
    pub amount_x: u64,
    pub amount_y: u64,
    pub lp_tokens: u64,
}

/// The pool was locked or unlocked.
#[derive(Debug, Clone, Copy)]
pub struct PoolLockSet {
    pub config: Pubkey,
    pub locked: bool,
}

/// A trade went through.
#[derive(Debug, Clone, Copy)]
pub struct Swapped {
    pub config: Pubkey,
    pub user: Pubkey,
    pub mint_in: Pubkey,
    pub amount_in: u64,
    pub amount_out: u64,
    pub lp_fee: u64,
    pub protocol_fee: u64,
}

/// The authority moved collected fees out of a treasury.
#[derive(Debug, Clone, Copy)]
pub struct FeesWithdrawn {
    pub config: Pubkey,
    pub mint: Pubkey,
    pub amount: u64,
}

} // verus!
