//! Constant product AMM: two vaults, an LP mint, and a swap fee split between
//! the liquidity providers and a protocol treasury.
//!
//! The curve math in [`curve`] fixes the rounding and overflow behaviour
//! behind every instruction; the modules under [`instructions`] decide, from
//! the values an instruction reads, what it moves and what it records.

pub mod constants;
pub mod curve;
pub mod error;
pub mod curve_laws;
pub mod state;
pub mod events;
pub mod instructions;
pub mod program;
pub mod pool_laws;
pub mod cluster;
