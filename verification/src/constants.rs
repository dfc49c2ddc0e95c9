use vstd::prelude::*;

verus! {

/// 10_000 bps = 100%.
pub const BPS_DENOMINATOR: u64 = 10_000;

/// Ceiling on the swap fee, 10%.
pub const MAX_FEE_BPS: u16 = 1_000;

/// Minted to a pool-owned account on the first deposit and never moved. LP
/// supply therefore never returns to zero, which is what prices a donation
/// attack on the share price out of reach.
pub const MINIMUM_LIQUIDITY: u64 = 1_000;

/// A mint with no extensions is exactly this long under either token
/// program. Anything longer carries Token-2022 extensions.
pub const PLAIN_MINT_LEN: usize = 82;

/// The length of a mint account as the token program lays it out: the
/// `LEN` of the SPL token interface's `Mint`, which that crate defines as
/// 82 bytes.
#[verifier::external_body]
pub(crate) fn plain_mint_len() -> (len: usize)
    ensures
        len == PLAIN_MINT_LEN,
{
    <anchor_spl::token::spl_token::state::Mint as anchor_lang::solana_program::program_pack::Pack>::LEN
}

/// LP mint decimals, independent of the pool mints.
pub const LP_DECIMALS: u8 = 6;

} // verus!
