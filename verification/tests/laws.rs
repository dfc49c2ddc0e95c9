//! The curve's promises on concrete values, and the edges it handles.

use amm::constants::{BPS_DENOMINATOR, MINIMUM_LIQUIDITY};
use amm::curve::{compute_deposit, compute_swap, compute_withdraw, integer_sqrt, mul_div};
use amm::error::AmmError;

const FEE_BPS: u16 = 30;
const PROTOCOL_FEE_BPS: u16 = 2_000;

fn ceil_fee(amount_in: u64, fee_bps: u16) -> u64 {
    let n = amount_in as u128 * fee_bps as u128;
    ((n + 9_999) / 10_000) as u64
}

#[test]
fn mul_div_rounds_each_way_on_a_wide_intermediate() {
    assert_eq!(mul_div(7, 3, 2, false), Ok(10));
    assert_eq!(mul_div(7, 3, 2, true), Ok(11));
    assert_eq!(mul_div(6, 3, 2, true), Ok(9));
    assert_eq!(mul_div(u64::MAX, u64::MAX, u64::MAX, false), Ok(u64::MAX));
    assert_eq!(mul_div(u64::MAX, 2, 3, true), Ok(12_297_829_382_473_034_410));
}

#[test]
fn mul_div_refuses_a_zero_denominator_and_an_oversized_result() {
    assert_eq!(mul_div(1, 1, 0, false), Err(AmmError::MathOverflow));
    assert_eq!(mul_div(1, 1, 0, true), Err(AmmError::MathOverflow));
    assert_eq!(mul_div(u64::MAX, 2, 1, false), Err(AmmError::MathOverflow));
    // Rounding up can push a result that just fits over the edge.
    assert_eq!(mul_div(u64::MAX, u64::MAX, u64::MAX - 1, false), Err(AmmError::MathOverflow));
}

#[test]
fn integer_sqrt_is_exact_on_large_squares() {
    for n in [3u128, 1_000_003, u64::MAX as u128, (u64::MAX - 1) as u128] {
        assert_eq!(integer_sqrt(n * n), n);
        assert_eq!(integer_sqrt(n * n + 2 * n), n);
        assert_eq!(integer_sqrt(n * n - 1), n - 1);
    }
    assert_eq!(integer_sqrt(u128::MAX), u64::MAX as u128);
    assert_eq!(integer_sqrt(3), 1);
    assert_eq!(integer_sqrt(4), 2);
}

#[test]
fn first_deposit_needs_a_root_above_the_locked_minimum() {
    // 1001 * 1001 is the smallest product that leaves the depositor a token.
    let deposit = compute_deposit(0, 0, 0, 1_001, 1_001).unwrap();
    assert_eq!(deposit.lp_tokens, 1);
    let deposit = compute_deposit(0, 0, 0, 1, 1_002_001).unwrap();
    assert_eq!(deposit.lp_tokens, 1);
    assert_eq!(
        compute_deposit(0, 0, 0, 1_000, 1_002),
        Err(AmmError::InsufficientInitialLiquidity)
    );
    assert_eq!(
        compute_deposit(0, 0, 0, 1_000, 1_000),
        Err(AmmError::InsufficientInitialLiquidity)
    );
}

#[test]
fn first_deposit_at_the_top_of_the_range_mints_u64_max() {
    let deposit = compute_deposit(0, 0, 0, u64::MAX, u64::MAX).unwrap();
    assert_eq!(deposit.lp_tokens, u64::MAX - MINIMUM_LIQUIDITY);
}

#[test]
fn deposit_errors_come_in_order() {
    assert_eq!(compute_deposit(5, 5, 5, 0, 0), Err(AmmError::ZeroAmount));
    assert_eq!(compute_deposit(0, 5, 5, 10, 10), Err(AmmError::PoolEmpty));
    assert_eq!(compute_deposit(5, 0, 5, 10, 10), Err(AmmError::PoolEmpty));
    // One LP token is worth far more than a base unit, so the offer buys none.
    assert_eq!(compute_deposit(1_000_000, 1_000_000, 10, 5, 5), Err(AmmError::ZeroAmount));
    // A tiny pool with a huge supply prices the offer above u64::MAX tokens.
    assert_eq!(compute_deposit(1, 1, u64::MAX, 2, 2), Err(AmmError::MathOverflow));
}

#[test]
fn deposit_keeps_the_supply_backed_on_concrete_pools() {
    let (mut x, mut y, mut supply) = (1_000_003u64, 7_777_771u64, 2_645_749u64);
    assert!((supply as u128) * (supply as u128) <= (x as u128) * (y as u128));
    for step in 1..300u64 {
        let deposit = compute_deposit(x, y, supply, step * 7_919, step * 104_729).unwrap();
        x += deposit.amount_x;
        y += deposit.amount_y;
        supply += deposit.lp_tokens;
        assert!((supply as u128) * (supply as u128) <= (x as u128) * (y as u128));
    }
}

#[test]
fn withdraw_errors_come_in_order() {
    assert_eq!(compute_withdraw(10, 10, 5, 0), Err(AmmError::ZeroAmount));
    assert_eq!(compute_withdraw(10, 10, 0, 1), Err(AmmError::PoolEmpty));
    assert_eq!(compute_withdraw(10, 10, 5, 6), Err(AmmError::MathOverflow));
    assert_eq!(compute_withdraw(10, 1, 5, 1), Err(AmmError::ZeroAmount));
    assert_eq!(compute_withdraw(10, 10, 5, 5), Ok((10, 10)));
}

#[test]
fn withdraw_never_pays_more_than_the_burned_share() {
    let (x, y, supply) = (1_000_003u64, 7_777_771u64, 2_645_749u64);
    for lp in [1u64, 3, 999, 123_457, 2_645_749] {
        if let Ok((out_x, out_y)) = compute_withdraw(x, y, supply, lp) {
            assert!((out_x as u128) * (supply as u128) <= (lp as u128) * (x as u128));
            assert!((out_y as u128) * (supply as u128) <= (lp as u128) * (y as u128));
            let left = (supply - lp) as u128;
            assert!(left * left <= ((x - out_x) as u128) * ((y - out_y) as u128));
        }
    }
}

#[test]
fn swap_fee_is_split_exactly() {
    for (amount_in, fee_bps, protocol_fee_bps) in
        [(1_000u64, 30u16, 2_000u16), (1_000_000, 30, 2_000), (123_456_789, 997, 3_333), (10, 1_000, 10_000)]
    {
        let swap = compute_swap(5_000_000_000, 7_000_000_000, amount_in, fee_bps, protocol_fee_bps).unwrap();
        assert_eq!(swap.lp_fee + swap.protocol_fee, ceil_fee(amount_in, fee_bps));
    }
}

#[test]
fn swap_with_the_whole_fee_to_the_treasury_leaves_no_lp_fee() {
    let swap = compute_swap(1_000_000, 1_000_000, 1_000_000, 1_000, BPS_DENOMINATOR as u16).unwrap();
    assert_eq!(swap.lp_fee, 0);
    assert_eq!(swap.protocol_fee, 100_000);
}

#[test]
fn swap_errors_come_in_order() {
    assert_eq!(compute_swap(0, 0, 0, FEE_BPS, PROTOCOL_FEE_BPS), Err(AmmError::ZeroAmount));
    assert_eq!(compute_swap(0, 1, 1, FEE_BPS, PROTOCOL_FEE_BPS), Err(AmmError::PoolEmpty));
    // A fee above 100% takes more than the input.
    assert_eq!(compute_swap(1_000, 1_000, 100, 20_000, 0), Err(AmmError::MathOverflow));
    // A fee of exactly 100% leaves nothing to price.
    assert_eq!(compute_swap(1_000, 1_000, 100, 10_000, 0), Err(AmmError::ZeroAmount));
    // The input pushes the reserve past u64::MAX.
    assert_eq!(compute_swap(u64::MAX, 1_000, 1_000_000, FEE_BPS, 0), Err(AmmError::MathOverflow));
    // The output rounds down to nothing.
    assert_eq!(compute_swap(1_000_000_000, 1, 1_000, FEE_BPS, 0), Err(AmmError::ZeroAmount));
}

#[test]
fn swap_keeps_the_supply_backed() {
    let (reserve_in, reserve_out, supply) = (923_457_011u64, 51_112_887u64, 200_000_000u64);
    assert!((supply as u128) * (supply as u128) <= (reserve_in as u128) * (reserve_out as u128));
    let swap = compute_swap(reserve_in, reserve_out, 77_777_777, FEE_BPS, PROTOCOL_FEE_BPS).unwrap();
    let after = ((reserve_in + 77_777_777 - swap.protocol_fee) as u128)
        * ((reserve_out - swap.amount_out) as u128);
    assert!((supply as u128) * (supply as u128) <= after);
}

#[test]
fn every_error_has_its_own_code() {
    let all = [
        AmmError::FeeTooHigh,
        AmmError::ProtocolFeeTooHigh,
        AmmError::IdenticalMints,
        AmmError::MintProgramMismatch,
        AmmError::PoolLocked,
        AmmError::ZeroAmount,
        AmmError::PoolEmpty,
        AmmError::MathOverflow,
        AmmError::InsufficientInitialLiquidity,
        AmmError::SlippageExceeded,
        AmmError::InvalidMintPair,
        AmmError::Unauthorized,
        AmmError::InsufficientTreasuryBalance,
        AmmError::MintHasExtensions,
    ];
    for (index, error) in all.iter().enumerate() {
        assert_eq!(error.code(), 6_000 + index as u32);
    }
}

#[test]
fn a_later_deposit_pays_at_most_one_unit_over_the_ratio() {
    let (x, y, supply) = (1_000_003u64, 7_777_771u64, 2_645_749u64);
    for offered in [1u64, 17, 4_099, 65_537, 1_000_000] {
        let deposit = compute_deposit(x, y, supply, offered * 3, offered * 29).unwrap();
        let lp = deposit.lp_tokens as u128;
        let (ax, ay, s) = (deposit.amount_x as u128, deposit.amount_y as u128, supply as u128);
        assert!(lp * x as u128 <= ax * s && ax * s < lp * x as u128 + s);
        assert!(lp * y as u128 <= ay * s && ay * s < lp * y as u128 + s);
    }
}
