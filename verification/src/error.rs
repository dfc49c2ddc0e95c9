use vstd::prelude::*;

verus! {

/// Offset at which the program's own error codes start, below which the
/// framework keeps its own codes.
pub const ERROR_CODE_OFFSET: u32 = 6000;

/// Why an instruction was refused.
#[derive(Debug, Clone, Copy, PartialEq, Eq, Structural)]
pub enum AmmError {
    /// Swap fee is above the 10% maximum.
    FeeTooHigh,
    /// Protocol fee cannot take more than the whole swap fee.
    ProtocolFeeTooHigh,
    /// A pool needs two different mints.
    IdenticalMints,
    /// Both mints must belong to the token program passed in.
    MintProgramMismatch,
    /// Pool is locked.
    PoolLocked,
    /// Amount must be greater than zero.
    ZeroAmount,
    /// Pool holds no liquidity.
    PoolEmpty,
    /// Arithmetic overflow.
    MathOverflow,
    /// First deposit must mint more than the minimum liquidity.
    InsufficientInitialLiquidity,
    /// Result is worse than the limit the caller asked for.
    SlippageExceeded,
    /// Mints do not belong to this pool.
    InvalidMintPair,
    /// Only the pool authority can call this.
    Unauthorized,
    /// Treasury does not hold that many tokens.
    InsufficientTreasuryBalance,
    /// Mint extensions can change how much of a transfer arrives, so pools
    /// only take plain mints.
    MintHasExtensions,
}

/// Position of each error in the declaration above.
pub open spec fn error_index(e: AmmError) -> u32 {
    match e {
        AmmError::FeeTooHigh => 0,
        AmmError::ProtocolFeeTooHigh => 1,
        AmmError::IdenticalMints => 2,
        AmmError::MintProgramMismatch => 3,
        AmmError::PoolLocked => 4,
        AmmError::ZeroAmount => 5,
        AmmError::PoolEmpty => 6,
        AmmError::MathOverflow => 7,
        AmmError::InsufficientInitialLiquidity => 8,
        AmmError::SlippageExceeded => 9,
        AmmError::InvalidMintPair => 10,
        AmmError::Unauthorized => 11,
        AmmError::InsufficientTreasuryBalance => 12,
        AmmError::MintHasExtensions => 13,
    }
}

impl AmmError {
    /// The numeric code a failed instruction reports for this error: the
    /// offset plus the error's position in the declaration.
    pub fn code(&self) -> (c: u32)
        ensures
            c == ERROR_CODE_OFFSET + error_index(*self),
    {
        let index: u32 = match self {
            AmmError::FeeTooHigh => 0,
            AmmError::ProtocolFeeTooHigh => 1,
            AmmError::IdenticalMints => 2,
            AmmError::MintProgramMismatch => 3,
            AmmError::PoolLocked => 4,
            AmmError::ZeroAmount => 5,
            AmmError::PoolEmpty => 6,
            AmmError::MathOverflow => 7,
            AmmError::InsufficientInitialLiquidity => 8,
            AmmError::SlippageExceeded => 9,
            AmmError::InvalidMintPair => 10,
            AmmError::Unauthorized => 11,
            AmmError::InsufficientTreasuryBalance => 12,
            AmmError::MintHasExtensions => 13,
        };
        ERROR_CODE_OFFSET + index
    }
}

} // verus!
