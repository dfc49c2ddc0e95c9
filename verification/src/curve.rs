//! Constant product curve math. Invariant: `x * y = k`.
//!
//! Integer only. Every product widens to `u128` before dividing, so two
//! `u64::MAX` reserves cannot overflow the intermediate, and narrows back
//! through a checked conversion.
//!
//! Rounding direction is deliberate throughout: fees and required deposits
//! round up, payouts round down. The reverse lets a loop of dust-sized
//! operations bleed the reserves one base unit at a time.

use vstd::prelude::*;
use vstd::arithmetic::div_mod::*;
use vstd::arithmetic::mul::*;

use crate::constants::{BPS_DENOMINATOR, MINIMUM_LIQUIDITY};
use crate::error::AmmError;

verus! {

// ---------------------------------------------------------------------------
// Rounding
// ---------------------------------------------------------------------------

/// `n / d` rounded towards positive infinity, for `n >= 0` and `d > 0`.
pub open spec fn ceil_div(n: int, d: int) -> int {
    (n + d - 1) / d
}

/// `a * b / d` rounded down, or up when `round_up` holds.
pub open spec fn mul_div_value(a: int, b: int, d: int, round_up: bool) -> int {
    if round_up {
        ceil_div(a * b, d)
    } else {
        a * b / d
    }
}

/// Whether `mul_div` succeeds: a nonzero denominator and a result that fits.
pub open spec fn mul_div_fits(a: int, b: int, d: int, round_up: bool) -> bool {
    d != 0 && mul_div_value(a, b, d, round_up) <= u64::MAX
}

/// Rounding up adds one exactly when the division leaves a remainder.
pub(crate) proof fn lemma_ceil_div(n: int, d: int)
    requires
        0 <= n,
        0 < d,
    ensures
        ceil_div(n, d) == n / d + (if n % d == 0 { 0int } else { 1int }),
        n / d <= ceil_div(n, d),
        n <= ceil_div(n, d) * d,
        ceil_div(n, d) * d < n + d,
{
    lemma_fundamental_div_mod(n, d);
    let q = n / d;
    let r = n % d;
    lemma_mod_bound(n, d);
    assert(n == q * d + r) by {
        lemma_mul_is_commutative(d, q);
    }
    assert((q + 1) * d == q * d + d) by {
        lemma_mul_is_distributive_add_other_way(d, q, 1);
    }
    if r == 0 {
        lemma_fundamental_div_mod_converse(n + d - 1, d, q, d - 1);
    } else {
        lemma_fundamental_div_mod_converse(n + d - 1, d, q + 1, r - 1);
    }
}

/// `a * b / denominator` on a `u128` intermediate. Fails with
/// `MathOverflow` on a zero denominator or a result above `u64::MAX`.
pub fn mul_div(a: u64, b: u64, denominator: u64, round_up: bool) -> (r: Result<u64, AmmError>)
    ensures
        r is Ok <==> mul_div_fits(a as int, b as int, denominator as int, round_up),
        r matches Ok(v) ==> v == mul_div_value(a as int, b as int, denominator as int, round_up),
        r matches Err(e) ==> e == AmmError::MathOverflow,
{
    if denominator == 0 {
        return Err(AmmError::MathOverflow);
    }
    proof {
        lemma_mul_upper_bound(a as int, u64::MAX as int, b as int, u64::MAX as int);
    }
    let numerator = (a as u128) * (b as u128);
    let denominator = denominator as u128;
    let mut result = numerator / denominator;
    if round_up && numerator % denominator != 0 {
        proof {
            lemma_fundamental_div_mod(numerator as int, denominator as int);
            lemma_mul_inequality(1, denominator as int, result as int);
        }
        result += 1;
    }
    proof {
        lemma_ceil_div(numerator as int, denominator as int);
    }
    if result > u64::MAX as u128 {
        Err(AmmError::MathOverflow)
    } else {
        Ok(result as u64)
    }
}

// ---------------------------------------------------------------------------
// Square root
// ---------------------------------------------------------------------------

/// `root` is the integer square root of `value`: the largest integer whose
/// square does not exceed it.
pub open spec fn is_integer_sqrt(root: int, value: int) -> bool {
    0 <= root && root * root <= value < (root + 1) * (root + 1)
}

/// The integer square root of `n`, counted up from zero.
pub open spec fn isqrt(n: nat) -> nat
    decreases n,
{
    if n == 0 {
        0
    } else {
        let r = isqrt((n - 1) as nat);
        if (r + 1) * (r + 1) <= n {
            r + 1
        } else {
            r
        }
    }
}

/// `isqrt` is the integer square root.
pub proof fn lemma_isqrt_is_integer_sqrt(n: nat)
    ensures
        is_integer_sqrt(isqrt(n) as int, n as int),
    decreases n,
{
    if n > 0 {
        lemma_isqrt_is_integer_sqrt((n - 1) as nat);
        let r = isqrt((n - 1) as nat) as int;
        assert((r + 2) * (r + 2) > (r + 1) * (r + 1)) by (nonlinear_arith)
            requires
                r >= 0,
        ;
    }
}

/// The integer square root is unique.
pub proof fn lemma_integer_sqrt_unique(a: int, b: int, n: int)
    requires
        is_integer_sqrt(a, n),
        is_integer_sqrt(b, n),
    ensures
        a == b,
{
    if a < b {
        assert((a + 1) * (a + 1) <= b * b) by (nonlinear_arith)
            requires
                0 <= a < b,
        ;
    } else if b < a {
        assert((b + 1) * (b + 1) <= a * a) by (nonlinear_arith)
            requires
                0 <= b < a,
        ;
    }
}

/// One Newton step from any positive guess lands at or above the integer
/// square root.
proof fn lemma_newton_step_not_below_root(v: int, g: int)
    requires
        0 <= v,
        1 <= g,
    ensures
        ((g + v / g) / 2 + 1) * ((g + v / g) / 2 + 1) > v,
{
    let q = v / g;
    let n = (g + q) / 2;
    let t = n + 1;
    lemma_fundamental_div_mod(v, g);
    lemma_mod_bound(v, g);
    if t * t <= v {
        // g + q <= 2t - 1, so v < g * (q + 1) <= g * (2t - g) <= t * t <= v.
        assert(g + q <= 2 * t - 1);
        assert(v < g * (q + 1)) by (nonlinear_arith)
            requires
                v == g * q + v % g,
                v % g < g,
        ;
        assert(g * (q + 1) <= g * (2 * t - g)) by (nonlinear_arith)
            requires
                1 <= g,
                q + 1 <= 2 * t - g,
        ;
        assert(g * (2 * t - g) <= t * t) by (nonlinear_arith);
        assert(false);
    }
}

/// When a Newton step does not move the guess down, the guess squared does
/// not exceed the value.
proof fn lemma_newton_fixpoint_below(v: int, g: int)
    requires
        0 <= v,
        1 <= g,
        (g + v / g) / 2 >= g,
    ensures
        g * g <= v,
{
    let q = v / g;
    lemma_fundamental_div_mod(v, g);
    lemma_mod_bound(v, g);
    assert(q >= g);
    assert(g * g <= g * q) by (nonlinear_arith)
        requires
            1 <= g,
            g <= q,
    ;
}

/// Bounds on one Newton step from a guess inside `[1, (v + 1) / 2]`.
proof fn lemma_newton_step_bounds(v: int, g: int)
    requires
        2 <= v,
        1 <= g <= (v + 1) / 2,
        (g + 1) * (g + 1) > v,
    ensures
        2 <= g + v / g <= v + 1,
        g == 1 ==> v < 4,
        g >= 2 ==> g + v / g <= v,
{
    let q = v / g;
    lemma_fundamental_div_mod(v, g);
    lemma_mod_bound(v, g);
    assert(q >= 1) by {
        lemma_div_is_ordered(g, v, g);
        lemma_div_by_self(g);
    }
    // (g - 1) * (q - 1) >= 0 gives q <= g * q - g + 1 <= v - g + 1.
    assert(q <= g * q - g + 1) by (nonlinear_arith)
        requires
            1 <= g,
            1 <= q,
    ;
    if g == 1 {
        assert((g + 1) * (g + 1) == 4) by (nonlinear_arith)
            requires
                g == 1,
        ;
    } else {
        lemma_div_is_ordered_by_denominator(v, 2, g);
        assert(q <= v / 2);
    }
}

/// Integer square root by Newton's method: the largest `r` with
/// `r * r <= value`.
pub fn integer_sqrt(value: u128) -> (root: u128)
    ensures
        is_integer_sqrt(root as int, value as int),
        root == isqrt(value as nat),
{
    if value < 2 {
        assert(value * value <= value < (value + 1) * (value + 1)) by (nonlinear_arith)
            requires
                value < 2,
        ;
        proof {
            lemma_isqrt_is_integer_sqrt(value as nat);
            lemma_integer_sqrt_unique(value as int, isqrt(value as nat) as int, value as int);
        }
        return value;
    }

    let mut guess = value;
    let mut next = value / 2 + value % 2;
    proof {
        let v = value as int;
        assert(v / v == 1) by {
            lemma_div_by_self(v);
        }
        assert((v + 1) * (v + 1) > v) by (nonlinear_arith)
            requires
                v >= 2,
        ;
        lemma_newton_step_not_below_root(v, v);
    }
    while next < guess
        invariant
            2 <= value,
            1 <= guess <= value,
            1 <= next <= (value + 1) / 2,
            next == (guess + value / guess) / 2,
            (guess + 1) * (guess + 1) > value,
            (next + 1) * (next + 1) > value,
        decreases guess,
    {
        guess = next;
        proof {
            lemma_newton_step_bounds(value as int, guess as int);
            lemma_newton_step_not_below_root(value as int, guess as int);
        }
        next = (guess + value / guess) / 2;
    }
    proof {
        lemma_newton_fixpoint_below(value as int, guess as int);
        lemma_isqrt_is_integer_sqrt(value as nat);
        lemma_integer_sqrt_unique(guess as int, isqrt(value as nat) as int, value as int);
    }
    guess
}

// ---------------------------------------------------------------------------
// Results
// ---------------------------------------------------------------------------

/// What a deposit moves.
#[derive(Debug, Clone, Copy, PartialEq, Eq, Structural)]
pub struct DepositAmounts {
    pub amount_x: u64,
    pub amount_y: u64,
    /// The depositor's share. A first deposit mints `MINIMUM_LIQUIDITY` on
    /// top of this and locks it.
    pub lp_tokens: u64,
}

/// What a swap moves.
#[derive(Debug, Clone, Copy, PartialEq, Eq, Structural)]
pub struct SwapAmounts {
    pub amount_out: u64,
    /// Part of the fee that stays in the vault for the liquidity providers.
    pub lp_fee: u64,
    /// Part of the fee that goes to the treasury.
    pub protocol_fee: u64,
}

// ---------------------------------------------------------------------------
// Deposit
// ---------------------------------------------------------------------------

/// The smaller of two integers.
pub open spec fn min_int(a: int, b: int) -> int {
    if a <= b {
        a
    } else {
        b
    }
}

/// LP tokens that `amount` of one side is worth against `reserve` of that
/// side, rounded down.
pub open spec fn lp_for(amount: int, lp_supply: int, reserve: int) -> int {
    amount * lp_supply / reserve
}

/// Tokens of one side that `lp_tokens` stand for, rounded up: what a
/// depositor pays for them.
pub open spec fn cost_of(lp_tokens: int, reserve: int, lp_supply: int) -> int {
    ceil_div(lp_tokens * reserve, lp_supply)
}

/// Tokens of one side that `lp_tokens` stand for, rounded down: what a
/// withdrawal pays out for them.
pub open spec fn share_of(lp_tokens: int, reserve: int, lp_supply: int) -> int {
    lp_tokens * reserve / lp_supply
}

/// A deposit into a pool that already has LP tokens out: the smaller side
/// decides the LP amount and the other side is trimmed to the pool ratio,
/// rounding what the depositor pays up.
pub open spec fn proportional_deposit(
    reserve_x: int,
    reserve_y: int,
    lp_supply: int,
    max_x: int,
    max_y: int,
) -> Result<DepositAmounts, AmmError> {
    if reserve_x == 0 || reserve_y == 0 {
        Err(AmmError::PoolEmpty)
    } else if lp_for(max_x, lp_supply, reserve_x) > u64::MAX || lp_for(max_y, lp_supply, reserve_y)
        > u64::MAX {
        Err(AmmError::MathOverflow)
    } else {
        let lp = min_int(lp_for(max_x, lp_supply, reserve_x), lp_for(max_y, lp_supply, reserve_y));
        if lp == 0 {
            Err(AmmError::ZeroAmount)
        } else {
            Ok(
                DepositAmounts {
                    amount_x: cost_of(lp, reserve_x, lp_supply) as u64,
                    amount_y: cost_of(lp, reserve_y, lp_supply) as u64,
                    lp_tokens: lp as u64,
                },
            )
        }
    }
}

/// LP tokens a successful deposit adds to the supply: the depositor's share,
/// plus the locked `MINIMUM_LIQUIDITY` when it is the first deposit.
pub open spec fn lp_minted(lp_supply: int, amounts: DepositAmounts) -> int {
    if lp_supply == 0 {
        amounts.lp_tokens + MINIMUM_LIQUIDITY
    } else {
        amounts.lp_tokens as int
    }
}

/// The first deposit into a pool: it takes both offers whole and mints the
/// integer square root of their product, of which `MINIMUM_LIQUIDITY` stays
/// locked. A root of `MINIMUM_LIQUIDITY` or less leaves the depositor
/// nothing.
pub open spec fn first_deposit(max_x: int, max_y: int) -> Result<DepositAmounts, AmmError> {
    let minted = isqrt((max_x * max_y) as nat);
    if minted <= MINIMUM_LIQUIDITY {
        Err(AmmError::InsufficientInitialLiquidity)
    } else {
        Ok(
            DepositAmounts {
                amount_x: max_x as u64,
                amount_y: max_y as u64,
                lp_tokens: (minted - MINIMUM_LIQUIDITY) as u64,
            },
        )
    }
}

/// The root of a product of two `u64` values fits in a `u64`, so the first
/// deposit's LP amount is exact.
pub(crate) proof fn lemma_first_deposit_root_fits(max_x: int, max_y: int)
    requires
        0 <= max_x <= u64::MAX,
        0 <= max_y <= u64::MAX,
    ensures
        is_integer_sqrt(isqrt((max_x * max_y) as nat) as int, max_x * max_y),
        isqrt((max_x * max_y) as nat) <= u64::MAX,
{
    lemma_mul_nonnegative(max_x, max_y);
    lemma_mul_upper_bound(max_x, u64::MAX as int, max_y, u64::MAX as int);
    let p = max_x * max_y;
    lemma_isqrt_is_integer_sqrt(p as nat);
    let r = isqrt(p as nat) as int;
    if r > u64::MAX {
        assert((u64::MAX + 1) * (u64::MAX + 1) <= r * r) by (nonlinear_arith)
            requires
                r >= u64::MAX + 1,
        ;
        assert(u64::MAX * u64::MAX < (u64::MAX + 1) * (u64::MAX + 1)) by (nonlinear_arith);
    }
}

/// What `compute_deposit` returns on every input.
pub open spec fn deposit_outcome(
    reserve_x: int,
    reserve_y: int,
    lp_supply: int,
    max_x: int,
    max_y: int,
) -> Result<DepositAmounts, AmmError> {
    if max_x == 0 || max_y == 0 {
        Err(AmmError::ZeroAmount)
    } else if lp_supply == 0 {
        first_deposit(max_x, max_y)
    } else {
        proportional_deposit(reserve_x, reserve_y, lp_supply, max_x, max_y)
    }
}

/// Paying for LP tokens worth no more than `max` of one side never costs
/// more than `max`.
pub(crate) proof fn lemma_cost_within_offer(lp: int, reserve: int, lp_supply: int, max: int)
    requires
        0 <= lp,
        0 < reserve,
        0 < lp_supply,
        0 <= max,
        lp <= lp_for(max, lp_supply, reserve),
    ensures
        lp * reserve <= max * lp_supply,
        0 <= cost_of(lp, reserve, lp_supply) <= max,
{
    let l = lp_for(max, lp_supply, reserve);
    lemma_fundamental_div_mod(max * lp_supply, reserve);
    lemma_mod_bound(max * lp_supply, reserve);
    assert(lp * reserve <= l * reserve) by (nonlinear_arith)
        requires
            lp <= l,
            0 < reserve,
    ;
    assert(l * reserve <= max * lp_supply) by {
        lemma_mul_is_commutative(l, reserve);
    }
    lemma_mul_nonnegative(lp, reserve);
    lemma_div_is_ordered(lp * reserve + lp_supply - 1, max * lp_supply + lp_supply - 1, lp_supply);
    assert(max * lp_supply + lp_supply - 1 == max * lp_supply + (lp_supply - 1));
    lemma_fundamental_div_mod_converse(
        max * lp_supply + lp_supply - 1,
        lp_supply,
        max,
        lp_supply - 1,
    );
    lemma_div_pos_is_pos(lp * reserve + lp_supply - 1, lp_supply);
}

/// Deposit amounts and the LP tokens they mint.
///
/// A first deposit sets the price and mints `sqrt(x * y)` less the locked
/// `MINIMUM_LIQUIDITY`. After that the smaller side decides the LP amount and
/// the other side is trimmed to the pool ratio. The trim rounds up, so a
/// depositor can pay one base unit over the ratio but never one under.
pub fn compute_deposit(
    reserve_x: u64,
    reserve_y: u64,
    lp_supply: u64,
    max_x: u64,
    max_y: u64,
) -> (r: Result<DepositAmounts, AmmError>)
    ensures
        r == deposit_outcome(
            reserve_x as int,
            reserve_y as int,
            lp_supply as int,
            max_x as int,
            max_y as int,
        ),
{
    if !(max_x > 0 && max_y > 0) {
        return Err(AmmError::ZeroAmount);
    }
    if lp_supply == 0 {
        proof {
            lemma_mul_upper_bound(max_x as int, u64::MAX as int, max_y as int, u64::MAX as int);
        }
        let minted = integer_sqrt((max_x as u128) * (max_y as u128));
        proof {
            lemma_first_deposit_root_fits(max_x as int, max_y as int);
        }
        let minted = minted as u64;
        if minted < MINIMUM_LIQUIDITY {
            return Err(AmmError::InsufficientInitialLiquidity);
        }
        let lp_tokens = minted - MINIMUM_LIQUIDITY;
        if !(lp_tokens > 0) {
            return Err(AmmError::InsufficientInitialLiquidity);
        }
        return Ok(DepositAmounts { amount_x: max_x, amount_y: max_y, lp_tokens });
    }

    if !(reserve_x > 0 && reserve_y > 0) {
        return Err(AmmError::PoolEmpty);
    }

    let lp_from_x = mul_div(max_x, lp_supply, reserve_x, false)?;
    let lp_from_y = mul_div(max_y, lp_supply, reserve_y, false)?;
    let lp_tokens = if lp_from_x <= lp_from_y { lp_from_x } else { lp_from_y };
    if !(lp_tokens > 0) {
        return Err(AmmError::ZeroAmount);
    }
    proof {
        lemma_cost_within_offer(lp_tokens as int, reserve_x as int, lp_supply as int, max_x as int);
        lemma_cost_within_offer(lp_tokens as int, reserve_y as int, lp_supply as int, max_y as int);
    }
    let amount_x = mul_div(lp_tokens, reserve_x, lp_supply, true)?;
    let amount_y = mul_div(lp_tokens, reserve_y, lp_supply, true)?;
    Ok(DepositAmounts { amount_x, amount_y, lp_tokens })
}

// ---------------------------------------------------------------------------
// Withdraw
// ---------------------------------------------------------------------------

/// What `compute_withdraw` returns: both sides of the burned share, rounded
/// down, or why it was refused.
pub open spec fn withdraw_outcome(
    reserve_x: int,
    reserve_y: int,
    lp_supply: int,
    lp_amount: int,
) -> Result<(u64, u64), AmmError> {
    if lp_amount == 0 {
        Err(AmmError::ZeroAmount)
    } else if lp_supply == 0 {
        Err(AmmError::PoolEmpty)
    } else if lp_amount > lp_supply {
        Err(AmmError::MathOverflow)
    } else {
        let amount_x = share_of(lp_amount, reserve_x, lp_supply);
        let amount_y = share_of(lp_amount, reserve_y, lp_supply);
        if amount_x == 0 || amount_y == 0 {
            Err(AmmError::ZeroAmount)
        } else {
            Ok((amount_x as u64, amount_y as u64))
        }
    }
}

/// A share of at most the whole supply is at most the whole reserve.
pub(crate) proof fn lemma_share_within_reserve(lp: int, reserve: int, lp_supply: int)
    requires
        0 <= lp <= lp_supply,
        0 < lp_supply,
        0 <= reserve,
    ensures
        0 <= share_of(lp, reserve, lp_supply) <= reserve,
{
    assert(lp * reserve <= lp_supply * reserve) by (nonlinear_arith)
        requires
            0 <= lp <= lp_supply,
            0 <= reserve,
    ;
    lemma_mul_nonnegative(lp, reserve);
    lemma_div_is_ordered(lp * reserve, lp_supply * reserve, lp_supply);
    lemma_mul_is_commutative(lp_supply, reserve);
    lemma_div_by_multiple(reserve, lp_supply);
    lemma_div_pos_is_pos(lp * reserve, lp_supply);
}

/// Tokens released for burning `lp_amount`. Both sides round down, so an
/// exit never takes more than its share.
pub fn compute_withdraw(
    reserve_x: u64,
    reserve_y: u64,
    lp_supply: u64,
    lp_amount: u64,
) -> (r: Result<(u64, u64), AmmError>)
    ensures
        r == withdraw_outcome(reserve_x as int, reserve_y as int, lp_supply as int, lp_amount as int),
{
    if !(lp_amount > 0) {
        return Err(AmmError::ZeroAmount);
    }
    if !(lp_supply > 0) {
        return Err(AmmError::PoolEmpty);
    }
    if !(lp_amount <= lp_supply) {
        return Err(AmmError::MathOverflow);
    }
    proof {
        lemma_share_within_reserve(lp_amount as int, reserve_x as int, lp_supply as int);
        lemma_share_within_reserve(lp_amount as int, reserve_y as int, lp_supply as int);
    }
    let amount_x = mul_div(lp_amount, reserve_x, lp_supply, false)?;
    let amount_y = mul_div(lp_amount, reserve_y, lp_supply, false)?;
    if !(amount_x > 0 && amount_y > 0) {
        return Err(AmmError::ZeroAmount);
    }
    Ok((amount_x, amount_y))
}

// ---------------------------------------------------------------------------
// Swap
// ---------------------------------------------------------------------------

/// The fee charged on `amount_in`, rounded up.
pub open spec fn swap_fee(amount_in: int, fee_bps: int) -> int {
    ceil_div(amount_in * fee_bps, BPS_DENOMINATOR as int)
}

/// The treasury's part of `fee`, rounded down.
pub open spec fn protocol_part(fee: int, protocol_fee_bps: int) -> int {
    fee * protocol_fee_bps / (BPS_DENOMINATOR as int)
}

/// What the curve pays for `amount_in_net` against the two reserves,
/// rounded down: `reserve_out * net / (reserve_in + net)`.
pub open spec fn swap_output(reserve_in: int, reserve_out: int, amount_in_net: int) -> int {
    reserve_out * amount_in_net / (reserve_in + amount_in_net)
}

/// What `compute_swap` returns on every input it accepts.
pub open spec fn swap_outcome(
    reserve_in: int,
    reserve_out: int,
    amount_in: int,
    fee_bps: int,
    protocol_fee_bps: int,
) -> Result<SwapAmounts, AmmError> {
    if amount_in == 0 {
        Err(AmmError::ZeroAmount)
    } else if reserve_in == 0 || reserve_out == 0 {
        Err(AmmError::PoolEmpty)
    } else {
        let fee = swap_fee(amount_in, fee_bps);
        let protocol_fee = protocol_part(fee, protocol_fee_bps);
        if fee > u64::MAX || protocol_fee > u64::MAX || fee > amount_in {
            Err(AmmError::MathOverflow)
        } else if fee == amount_in {
            Err(AmmError::ZeroAmount)
        } else if reserve_in + (amount_in - fee) > u64::MAX {
            Err(AmmError::MathOverflow)
        } else {
            let amount_out = swap_output(reserve_in, reserve_out, amount_in - fee);
            if amount_out == 0 {
                Err(AmmError::ZeroAmount)
            } else {
                Ok(
                    SwapAmounts {
                        amount_out: amount_out as u64,
                        lp_fee: (fee - protocol_fee) as u64,
                        protocol_fee: protocol_fee as u64,
                    },
                )
            }
        }
    }
}

/// The swap gets as far as splitting the fee, and the treasury's part would
/// exceed the whole fee: the split underflows. Only a protocol share above
/// 100% can get here.
pub open spec fn swap_split_underflows(
    reserve_in: int,
    reserve_out: int,
    amount_in: int,
    fee_bps: int,
    protocol_fee_bps: int,
) -> bool {
    &&& swap_outcome(reserve_in, reserve_out, amount_in, fee_bps, protocol_fee_bps) is Ok
    &&& protocol_part(swap_fee(amount_in, fee_bps), protocol_fee_bps) > swap_fee(
        amount_in,
        fee_bps,
    )
}

/// A payout priced on the curve stays below the reserve it is paid from.
pub(crate) proof fn lemma_output_below_reserve(reserve_in: int, reserve_out: int, net: int)
    requires
        0 < reserve_in,
        0 <= reserve_out,
        0 < net,
    ensures
        0 <= swap_output(reserve_in, reserve_out, net) <= reserve_out,
        reserve_out > 0 ==> swap_output(reserve_in, reserve_out, net) < reserve_out,
{
    let d = reserve_in + net;
    lemma_mul_nonnegative(reserve_out, net);
    lemma_div_pos_is_pos(reserve_out * net, d);
    if reserve_out > 0 {
        assert(reserve_out * net < reserve_out * d) by (nonlinear_arith)
            requires
                0 < reserve_out,
                net < d,
        ;
        lemma_fundamental_div_mod(reserve_out * net, d);
        lemma_mod_bound(reserve_out * net, d);
        let q = reserve_out * net / d;
        if q >= reserve_out {
            assert(d * q >= d * reserve_out) by (nonlinear_arith)
                requires
                    q >= reserve_out,
                    d > 0,
            ;
            lemma_mul_is_commutative(d, reserve_out);
            assert(false);
        }
    }
}

/// Swap output and the fee split.
///
/// The fee comes off the input, rounded up. What remains is priced against
/// the invariant, rounded down:
///
/// ```text
/// amount_out = reserve_out * amount_in_net / (reserve_in + amount_in_net)
/// ```
///
/// Only the protocol share leaves the pool, so `k` never falls.
pub fn compute_swap(
    reserve_in: u64,
    reserve_out: u64,
    amount_in: u64,
    fee_bps: u16,
    protocol_fee_bps: u16,
) -> (r: Result<SwapAmounts, AmmError>)
    requires
        !swap_split_underflows(
            reserve_in as int,
            reserve_out as int,
            amount_in as int,
            fee_bps as int,
            protocol_fee_bps as int,
        ),
    ensures
        r == swap_outcome(
            reserve_in as int,
            reserve_out as int,
            amount_in as int,
            fee_bps as int,
            protocol_fee_bps as int,
        ),
{
    if !(amount_in > 0) {
        return Err(AmmError::ZeroAmount);
    }
    if !(reserve_in > 0 && reserve_out > 0) {
        return Err(AmmError::PoolEmpty);
    }

    let fee = mul_div(amount_in, fee_bps as u64, BPS_DENOMINATOR, true)?;
    let protocol_fee = mul_div(fee, protocol_fee_bps as u64, BPS_DENOMINATOR, false)?;
    let amount_in_net = match amount_in.checked_sub(fee) {
        Some(net) => net,
        None => {
            return Err(AmmError::MathOverflow);
        },
    };
    if !(amount_in_net > 0) {
        return Err(AmmError::ZeroAmount);
    }

    let denominator = match reserve_in.checked_add(amount_in_net) {
        Some(d) => d,
        None => {
            return Err(AmmError::MathOverflow);
        },
    };
    proof {
        lemma_output_below_reserve(reserve_in as int, reserve_out as int, amount_in_net as int);
    }
    let amount_out = mul_div(reserve_out, amount_in_net, denominator, false)?;
    if !(amount_out > 0) {
        return Err(AmmError::ZeroAmount);
    }

    Ok(SwapAmounts { amount_out, lp_fee: fee - protocol_fee, protocol_fee })
}

} // verus!
