//! What the curve promises across calls: the invariant `x * y` never falls
//! on a swap, the LP supply stays backed by the reserves, and no round trip
//! through the pool pays out more than went in. Each operation is also
//! stated once in plain arithmetic over its inputs and its result.

use vstd::prelude::*;
use vstd::arithmetic::div_mod::*;
use vstd::arithmetic::mul::*;

use crate::constants::{BPS_DENOMINATOR, MINIMUM_LIQUIDITY};
use crate::curve::{
    ceil_div, cost_of, deposit_outcome, first_deposit, is_integer_sqrt, isqrt, lemma_ceil_div,
    lemma_cost_within_offer, lemma_first_deposit_root_fits, lemma_integer_sqrt_unique,
    lemma_isqrt_is_integer_sqrt, lemma_output_below_reserve, lemma_share_within_reserve, lp_minted,
    mul_div_fits, mul_div_value, protocol_part, share_of, swap_fee, swap_outcome, swap_output,
    swap_split_underflows, withdraw_outcome, DepositAmounts, SwapAmounts,
};
use crate::error::AmmError;

verus! {

// ---------------------------------------------------------------------------
// Swap
// ---------------------------------------------------------------------------

/// The fee is split in two and nothing else: the LP part and the protocol
/// part add up to the whole fee, which is `amount_in * fee_bps / 10_000`
/// rounded up.
pub proof fn swap_fee_splits_exactly(
    reserve_in: u64,
    reserve_out: u64,
    amount_in: u64,
    fee_bps: u16,
    protocol_fee_bps: u16,
)
    requires
        swap_outcome(
            reserve_in as int,
            reserve_out as int,
            amount_in as int,
            fee_bps as int,
            protocol_fee_bps as int,
        ) is Ok,
        !swap_split_underflows(
            reserve_in as int,
            reserve_out as int,
            amount_in as int,
            fee_bps as int,
            protocol_fee_bps as int,
        ),
    ensures
        ({
            let s = swap_outcome(
                reserve_in as int,
                reserve_out as int,
                amount_in as int,
                fee_bps as int,
                protocol_fee_bps as int,
            )->Ok_0;
            &&& s.lp_fee + s.protocol_fee == swap_fee(amount_in as int, fee_bps as int)
            &&& s.protocol_fee <= swap_fee(amount_in as int, fee_bps as int)
            &&& s.amount_out > 0
        }),
{
    let fee = swap_fee(amount_in as int, fee_bps as int);
    lemma_mul_nonnegative(amount_in as int, fee_bps as int);
    lemma_div_pos_is_pos(amount_in as int * fee_bps as int + 10_000 - 1, 10_000);
    lemma_mul_nonnegative(fee, protocol_fee_bps as int);
    lemma_div_pos_is_pos(fee * protocol_fee_bps, 10_000);
    lemma_output_below_reserve(reserve_in as int, reserve_out as int, amount_in - fee);
}

/// A protocol share of at most 100% never takes more than the whole fee, so
/// the fee split is always defined.
pub proof fn protocol_share_within_fee(
    reserve_in: u64,
    reserve_out: u64,
    amount_in: u64,
    fee_bps: u16,
    protocol_fee_bps: u16,
)
    requires
        protocol_fee_bps <= BPS_DENOMINATOR,
    ensures
        !swap_split_underflows(
            reserve_in as int,
            reserve_out as int,
            amount_in as int,
            fee_bps as int,
            protocol_fee_bps as int,
        ),
{
    let fee = swap_fee(amount_in as int, fee_bps as int);
    lemma_mul_nonnegative(amount_in as int, fee_bps as int);
    lemma_div_pos_is_pos(amount_in as int * fee_bps as int + 10_000 - 1, 10_000);
    assert(fee * protocol_fee_bps <= fee * 10_000) by (nonlinear_arith)
        requires
            0 <= fee,
            protocol_fee_bps <= 10_000,
    ;
    lemma_div_is_ordered(fee * protocol_fee_bps, fee * 10_000, 10_000);
    lemma_div_by_multiple(fee, 10_000);
}

/// With the treasury taking the whole fee, nothing of it stays with the
/// liquidity providers.
pub proof fn full_protocol_share_leaves_no_lp_fee(
    reserve_in: u64,
    reserve_out: u64,
    amount_in: u64,
    fee_bps: u16,
)
    requires
        swap_outcome(
            reserve_in as int,
            reserve_out as int,
            amount_in as int,
            fee_bps as int,
            BPS_DENOMINATOR as int,
        ) is Ok,
    ensures
        swap_outcome(
            reserve_in as int,
            reserve_out as int,
            amount_in as int,
            fee_bps as int,
            BPS_DENOMINATOR as int,
        )->Ok_0.lp_fee == 0,
{
    let fee = swap_fee(amount_in as int, fee_bps as int);
    lemma_div_by_multiple(fee, 10_000);
}

/// A swap never lowers the invariant. With the protocol part of the fee
/// taken out of the vault, `(reserve_in + amount_in - protocol_fee) *
/// (reserve_out - amount_out)` is at least `reserve_in * reserve_out`, and
/// the payout stays below the reserve it is paid from.
pub proof fn swap_never_lowers_invariant(
    reserve_in: u64,
    reserve_out: u64,
    amount_in: u64,
    fee_bps: u16,
    protocol_fee_bps: u16,
)
    requires
        swap_outcome(
            reserve_in as int,
            reserve_out as int,
            amount_in as int,
            fee_bps as int,
            protocol_fee_bps as int,
        ) is Ok,
        !swap_split_underflows(
            reserve_in as int,
            reserve_out as int,
            amount_in as int,
            fee_bps as int,
            protocol_fee_bps as int,
        ),
    ensures
        ({
            let s = swap_outcome(
                reserve_in as int,
                reserve_out as int,
                amount_in as int,
                fee_bps as int,
                protocol_fee_bps as int,
            )->Ok_0;
            &&& s.amount_out < reserve_out
            &&& s.protocol_fee <= amount_in
            &&& (reserve_in + amount_in - s.protocol_fee) * (reserve_out - s.amount_out)
                >= reserve_in as int * reserve_out as int
        }),
{
    let rin = reserve_in as int;
    let rout = reserve_out as int;
    let fee = swap_fee(amount_in as int, fee_bps as int);
    let pf = protocol_part(fee, protocol_fee_bps as int);
    let net = amount_in - fee;
    let d = rin + net;
    let out = swap_output(rin, rout, net);
    lemma_output_below_reserve(rin, rout, net);
    lemma_fundamental_div_mod(rout * net, d);
    lemma_mod_bound(rout * net, d);
    // out * d <= rout * net, so (rout - out) * d >= rout * rin.
    assert(out * d <= rout * net) by {
        lemma_mul_is_commutative(d, out);
    }
    assert((rout - out) * d >= rout * rin) by (nonlinear_arith)
        requires
            out * d <= rout * net,
            d == rin + net,
    ;
    assert((rin + amount_in - pf) * (rout - out) >= d * (rout - out)) by (nonlinear_arith)
        requires
            rin + amount_in - pf >= d,
            rout - out >= 0,
    ;
    lemma_mul_is_commutative(d, rout - out);
    lemma_mul_is_commutative(rout, rin);
}

/// A swap keeps the LP supply backed: if the supply squared was at most the
/// product of the reserves before, it still is after.
pub proof fn swap_keeps_supply_backed(
    reserve_in: u64,
    reserve_out: u64,
    amount_in: u64,
    fee_bps: u16,
    protocol_fee_bps: u16,
    lp_supply: u64,
)
    requires
        swap_outcome(
            reserve_in as int,
            reserve_out as int,
            amount_in as int,
            fee_bps as int,
            protocol_fee_bps as int,
        ) is Ok,
        !swap_split_underflows(
            reserve_in as int,
            reserve_out as int,
            amount_in as int,
            fee_bps as int,
            protocol_fee_bps as int,
        ),
        lp_supply as int * lp_supply as int <= reserve_in as int * reserve_out as int,
    ensures
        ({
            let s = swap_outcome(
                reserve_in as int,
                reserve_out as int,
                amount_in as int,
                fee_bps as int,
                protocol_fee_bps as int,
            )->Ok_0;
            lp_supply as int * lp_supply as int <= (reserve_in + amount_in - s.protocol_fee) * (
            reserve_out - s.amount_out)
        }),
{
    swap_never_lowers_invariant(reserve_in, reserve_out, amount_in, fee_bps, protocol_fee_bps);
}

// ---------------------------------------------------------------------------
// Deposit and withdraw
// ---------------------------------------------------------------------------

/// The depositor's share of a later deposit is bounded by both offers.
proof fn lemma_proportional_shares(
    reserve_x: int,
    reserve_y: int,
    lp_supply: int,
    max_x: int,
    max_y: int,
    amounts: DepositAmounts,
)
    requires
        0 <= reserve_x,
        0 <= reserve_y,
        0 < lp_supply,
        0 <= max_x <= u64::MAX,
        0 <= max_y <= u64::MAX,
        crate::curve::proportional_deposit(reserve_x, reserve_y, lp_supply, max_x, max_y) == Ok::<
            DepositAmounts,
            AmmError,
        >(amounts),
    ensures
        0 < amounts.lp_tokens,
        amounts.lp_tokens * reserve_x <= amounts.amount_x * lp_supply,
        amounts.lp_tokens * reserve_y <= amounts.amount_y * lp_supply,
        amounts.amount_x <= max_x,
        amounts.amount_y <= max_y,
{
    let lp = amounts.lp_tokens as int;
    lemma_cost_within_offer(lp, reserve_x, lp_supply, max_x);
    lemma_cost_within_offer(lp, reserve_y, lp_supply, max_y);
    lemma_mul_nonnegative(lp, reserve_x);
    lemma_mul_nonnegative(lp, reserve_y);
    lemma_ceil_div(lp * reserve_x, lp_supply);
    lemma_ceil_div(lp * reserve_y, lp_supply);
}

/// A deposit never takes more than the caller offered on either side, and
/// always mints something.
pub proof fn deposit_never_exceeds_offer(
    reserve_x: u64,
    reserve_y: u64,
    lp_supply: u64,
    max_x: u64,
    max_y: u64,
    amounts: DepositAmounts,
)
    requires
        deposit_outcome(
            reserve_x as int,
            reserve_y as int,
            lp_supply as int,
            max_x as int,
            max_y as int,
        ) == Ok::<DepositAmounts, AmmError>(amounts),
    ensures
        amounts.amount_x <= max_x,
        amounts.amount_y <= max_y,
        amounts.lp_tokens > 0,
{
    if lp_supply == 0 {
        lemma_first_deposit_root_fits(max_x as int, max_y as int);
    } else {
        lemma_proportional_shares(
            reserve_x as int,
            reserve_y as int,
            lp_supply as int,
            max_x as int,
            max_y as int,
            amounts,
        );
    }
}

/// A later deposit pays for its LP tokens at the pool ratio rounded up: on
/// each side it pays at least the exact price `lp_tokens * reserve /
/// lp_supply`, and less than one base unit over it.
pub proof fn deposit_pays_full_price_and_at_most_one_unit_over(
    reserve_x: u64,
    reserve_y: u64,
    lp_supply: u64,
    max_x: u64,
    max_y: u64,
    amounts: DepositAmounts,
)
    requires
        deposit_outcome(
            reserve_x as int,
            reserve_y as int,
            lp_supply as int,
            max_x as int,
            max_y as int,
        ) == Ok::<DepositAmounts, AmmError>(amounts),
        lp_supply > 0,
    ensures
        amounts.lp_tokens * reserve_x <= amounts.amount_x * lp_supply,
        amounts.amount_x * lp_supply < amounts.lp_tokens * reserve_x + lp_supply,
        amounts.lp_tokens * reserve_y <= amounts.amount_y * lp_supply,
        amounts.amount_y * lp_supply < amounts.lp_tokens * reserve_y + lp_supply,
{
    let lp = amounts.lp_tokens as int;
    lemma_proportional_shares(
        reserve_x as int,
        reserve_y as int,
        lp_supply as int,
        max_x as int,
        max_y as int,
        amounts,
    );
    lemma_mul_nonnegative(lp, reserve_x as int);
    lemma_mul_nonnegative(lp, reserve_y as int);
    lemma_cost_within_offer(lp, reserve_x as int, lp_supply as int, max_x as int);
    lemma_cost_within_offer(lp, reserve_y as int, lp_supply as int, max_y as int);
    assert(amounts.amount_x == cost_of(lp, reserve_x as int, lp_supply as int));
    assert(amounts.amount_y == cost_of(lp, reserve_y as int, lp_supply as int));
    lemma_ceil_div(lp * reserve_x, lp_supply as int);
    lemma_ceil_div(lp * reserve_y, lp_supply as int);
}

/// If `l * a <= p * s` and `l * b <= q * s`, growing the reserves by `p` and
/// `q` and the supply by `l` keeps `supply^2 <= a * b`.
proof fn lemma_growth_keeps_backing(a: int, b: int, s: int, l: int, p: int, q: int)
    requires
        0 <= a,
        0 <= b,
        0 < s,
        0 <= l,
        0 <= p,
        0 <= q,
        l * a <= p * s,
        l * b <= q * s,
        s * s <= a * b,
    ensures
        (s + l) * (s + l) <= (a + p) * (b + q),
{
    let big_a = (a + p) * s;
    let big_b = (b + q) * s;
    assert(big_a >= a * (s + l)) by (nonlinear_arith)
        requires
            l * a <= p * s,
            big_a == (a + p) * s,
    ;
    assert(big_b >= b * (s + l)) by (nonlinear_arith)
        requires
            l * b <= q * s,
            big_b == (b + q) * s,
    ;
    lemma_mul_nonnegative(a, s + l);
    lemma_mul_nonnegative(b, s + l);
    lemma_mul_upper_bound(a * (s + l), big_a, b * (s + l), big_b);
    assert(a * (s + l) * (b * (s + l)) == (a * b) * ((s + l) * (s + l))) by (nonlinear_arith);
    assert((a * b) * ((s + l) * (s + l)) >= (s * s) * ((s + l) * (s + l))) by (nonlinear_arith)
        requires
            s * s <= a * b,
    ;
    assert(big_a * big_b == ((a + p) * (b + q)) * (s * s)) by (nonlinear_arith)
        requires
            big_a == (a + p) * s,
            big_b == (b + q) * s,
    ;
    assert((s * s) * ((s + l) * (s + l)) == ((s + l) * (s + l)) * (s * s)) by (nonlinear_arith);
    assert(s * s > 0) by (nonlinear_arith)
        requires
            s > 0,
    ;
    lemma_mul_inequality_converse((s + l) * (s + l), (a + p) * (b + q), s * s);
}

/// If `p * s <= l * a` and `q * s <= l * b`, shrinking the reserves by `p`
/// and `q` and the supply by `l <= s` keeps `supply^2 <= a * b`.
proof fn lemma_shrink_keeps_backing(a: int, b: int, s: int, l: int, p: int, q: int)
    requires
        0 <= a,
        0 <= b,
        0 < s,
        0 <= l <= s,
        0 <= p,
        0 <= q,
        p * s <= l * a,
        q * s <= l * b,
        s * s <= a * b,
    ensures
        (s - l) * (s - l) <= (a - p) * (b - q),
{
    let big_a = (a - p) * s;
    let big_b = (b - q) * s;
    assert(big_a >= a * (s - l)) by (nonlinear_arith)
        requires
            p * s <= l * a,
            big_a == (a - p) * s,
    ;
    assert(big_b >= b * (s - l)) by (nonlinear_arith)
        requires
            q * s <= l * b,
            big_b == (b - q) * s,
    ;
    lemma_mul_nonnegative(a, s - l);
    lemma_mul_nonnegative(b, s - l);
    lemma_mul_upper_bound(a * (s - l), big_a, b * (s - l), big_b);
    assert(a * (s - l) * (b * (s - l)) == (a * b) * ((s - l) * (s - l))) by (nonlinear_arith);
    assert((a * b) * ((s - l) * (s - l)) >= (s * s) * ((s - l) * (s - l))) by (nonlinear_arith)
        requires
            s * s <= a * b,
    ;
    assert(big_a * big_b == ((a - p) * (b - q)) * (s * s)) by (nonlinear_arith)
        requires
            big_a == (a - p) * s,
            big_b == (b - q) * s,
    ;
    assert((s * s) * ((s - l) * (s - l)) == ((s - l) * (s - l)) * (s * s)) by (nonlinear_arith);
    assert(s * s > 0) by (nonlinear_arith)
        requires
            s > 0,
    ;
    lemma_mul_inequality_converse((s - l) * (s - l), (a - p) * (b - q), s * s);
}

/// A deposit keeps the LP supply backed by the reserves: if the supply
/// squared was at most the product of the reserves before, then the new
/// supply squared is at most the product of the new reserves. So no deposit
/// dilutes the tokens minted before it.
pub proof fn deposit_keeps_supply_backed(
    reserve_x: u64,
    reserve_y: u64,
    lp_supply: u64,
    max_x: u64,
    max_y: u64,
    amounts: DepositAmounts,
)
    requires
        deposit_outcome(
            reserve_x as int,
            reserve_y as int,
            lp_supply as int,
            max_x as int,
            max_y as int,
        ) == Ok::<DepositAmounts, AmmError>(amounts),
        lp_supply as int * lp_supply as int <= reserve_x as int * reserve_y as int,
    ensures
        (lp_supply + lp_minted(lp_supply as int, amounts)) * (lp_supply + lp_minted(
            lp_supply as int,
            amounts,
        )) <= (reserve_x + amounts.amount_x) * (reserve_y + amounts.amount_y),
{
    let a = reserve_x as int;
    let b = reserve_y as int;
    if lp_supply == 0 {
        lemma_first_deposit_root_fits(max_x as int, max_y as int);
        assert(max_x as int * max_y as int <= (a + max_x) * (b + max_y)) by (nonlinear_arith)
            requires
                0 <= a,
                0 <= b,
                0 <= max_x,
                0 <= max_y,
        ;
    } else {
        lemma_proportional_shares(
            a,
            b,
            lp_supply as int,
            max_x as int,
            max_y as int,
            amounts,
        );
        lemma_mul_is_commutative(amounts.lp_tokens as int, a);
        lemma_mul_is_commutative(amounts.lp_tokens as int, b);
        lemma_growth_keeps_backing(
            a,
            b,
            lp_supply as int,
            amounts.lp_tokens as int,
            amounts.amount_x as int,
            amounts.amount_y as int,
        );
    }
}

/// A withdrawal never pays out more than the burned share of either
/// reserve, and never pays nothing on one side.
pub proof fn withdraw_never_exceeds_share(
    reserve_x: u64,
    reserve_y: u64,
    lp_supply: u64,
    lp_amount: u64,
)
    requires
        withdraw_outcome(reserve_x as int, reserve_y as int, lp_supply as int, lp_amount as int) is Ok,
    ensures
        ({
            let (amount_x, amount_y) = withdraw_outcome(
                reserve_x as int,
                reserve_y as int,
                lp_supply as int,
                lp_amount as int,
            )->Ok_0;
            &&& 0 < amount_x <= reserve_x
            &&& 0 < amount_y <= reserve_y
            &&& amount_x * lp_supply <= lp_amount * reserve_x
            &&& amount_y * lp_supply <= lp_amount * reserve_y
        }),
{
    let s = lp_supply as int;
    let l = lp_amount as int;
    lemma_share_within_reserve(l, reserve_x as int, s);
    lemma_share_within_reserve(l, reserve_y as int, s);
    lemma_fundamental_div_mod(l * reserve_x, s);
    lemma_fundamental_div_mod(l * reserve_y, s);
    lemma_mod_bound(l * reserve_x, s);
    lemma_mod_bound(l * reserve_y, s);
    lemma_mul_is_commutative(s, share_of(l, reserve_x as int, s));
    lemma_mul_is_commutative(s, share_of(l, reserve_y as int, s));
}

/// A withdrawal keeps the LP supply backed by the reserves that remain.
pub proof fn withdraw_keeps_supply_backed(
    reserve_x: u64,
    reserve_y: u64,
    lp_supply: u64,
    lp_amount: u64,
)
    requires
        withdraw_outcome(reserve_x as int, reserve_y as int, lp_supply as int, lp_amount as int) is Ok,
        lp_supply as int * lp_supply as int <= reserve_x as int * reserve_y as int,
    ensures
        ({
            let (amount_x, amount_y) = withdraw_outcome(
                reserve_x as int,
                reserve_y as int,
                lp_supply as int,
                lp_amount as int,
            )->Ok_0;
            (lp_supply - lp_amount) * (lp_supply - lp_amount) <= (reserve_x - amount_x) * (
            reserve_y - amount_y)
        }),
{
    withdraw_never_exceeds_share(reserve_x, reserve_y, lp_supply, lp_amount);
    let (amount_x, amount_y) = withdraw_outcome(
        reserve_x as int,
        reserve_y as int,
        lp_supply as int,
        lp_amount as int,
    )->Ok_0;
    lemma_mul_is_commutative(lp_amount as int, reserve_x as int);
    lemma_mul_is_commutative(lp_amount as int, reserve_y as int);
    lemma_shrink_keeps_backing(
        reserve_x as int,
        reserve_y as int,
        lp_supply as int,
        lp_amount as int,
        amount_x as int,
        amount_y as int,
    );
}

/// Depositing and then burning the LP tokens just received never returns
/// more than the deposit paid in, on either side. This holds for every
/// deposit into a pool with LP tokens out, and for a first deposit into
/// empty vaults.
pub proof fn deposit_then_withdraw_returns_no_more(
    reserve_x: u64,
    reserve_y: u64,
    lp_supply: u64,
    max_x: u64,
    max_y: u64,
    amounts: DepositAmounts,
)
    requires
        deposit_outcome(
            reserve_x as int,
            reserve_y as int,
            lp_supply as int,
            max_x as int,
            max_y as int,
        ) == Ok::<DepositAmounts, AmmError>(amounts),
        lp_supply > 0 || (reserve_x == 0 && reserve_y == 0),
    ensures
        share_of(
            amounts.lp_tokens as int,
            reserve_x + amounts.amount_x,
            lp_supply + lp_minted(lp_supply as int, amounts),
        ) <= amounts.amount_x,
        share_of(
            amounts.lp_tokens as int,
            reserve_y + amounts.amount_y,
            lp_supply + lp_minted(lp_supply as int, amounts),
        ) <= amounts.amount_y,
        withdraw_outcome(
            reserve_x + amounts.amount_x,
            reserve_y + amounts.amount_y,
            lp_supply + lp_minted(lp_supply as int, amounts),
            amounts.lp_tokens as int,
        ) matches Ok((out_x, out_y)) ==> out_x <= amounts.amount_x && out_y <= amounts.amount_y,
{
    let s = lp_supply as int;
    let l = amounts.lp_tokens as int;
    let s2 = s + lp_minted(s, amounts);
    deposit_never_exceeds_offer(reserve_x, reserve_y, lp_supply, max_x, max_y, amounts);
    if lp_supply > 0 {
        lemma_proportional_shares(
            reserve_x as int,
            reserve_y as int,
            s,
            max_x as int,
            max_y as int,
            amounts,
        );
    }
    lemma_round_trip_side(reserve_x as int, s, l, amounts.amount_x as int, s2);
    lemma_round_trip_side(reserve_y as int, s, l, amounts.amount_y as int, s2);
}

/// One side of the round trip: with `l * a <= p * s` (or an empty side on a
/// first deposit), burning `l` of `s + minted` pays at most `p`.
proof fn lemma_round_trip_side(a: int, s: int, l: int, p: int, s2: int)
    requires
        0 <= a,
        0 <= s,
        0 < l,
        0 <= p,
        s2 >= s + l,
        s > 0 ==> l * a <= p * s,
        s == 0 ==> a == 0,
    ensures
        share_of(l, a + p, s2) <= p,
{
    assert(l * (a + p) <= p * s2) by (nonlinear_arith)
        requires
            0 <= a,
            0 <= s,
            0 < l,
            0 <= p,
            s2 >= s + l,
            s > 0 ==> l * a <= p * s,
            s == 0 ==> a == 0,
    ;
    lemma_mul_nonnegative(l, a + p);
    lemma_div_is_ordered(l * (a + p), p * s2, s2);
    lemma_div_by_multiple(p, s2);
}

// ---------------------------------------------------------------------------
// Square root and the first deposit
// ---------------------------------------------------------------------------

/// The integer square root is exact on perfect squares.
pub proof fn isqrt_exact_on_squares(n: nat)
    ensures
        isqrt(n * n) == n,
{
    lemma_isqrt_is_integer_sqrt(n * n);
    assert(is_integer_sqrt(n as int, (n * n) as int)) by (nonlinear_arith);
    lemma_integer_sqrt_unique(isqrt(n * n) as int, n as int, (n * n) as int);
}

/// A first deposit is refused exactly when the product of the two offers is
/// below `1001 * 1001`, that is, when its square root does not exceed the
/// locked `MINIMUM_LIQUIDITY`.
pub proof fn first_deposit_needs_more_than_locked(max_x: u64, max_y: u64)
    ensures
        first_deposit(max_x as int, max_y as int) is Err <==> (max_x as int) * (max_y as int) < (
        MINIMUM_LIQUIDITY + 1) * (MINIMUM_LIQUIDITY + 1),
{
    lemma_first_deposit_root_fits(max_x as int, max_y as int);
    let r = isqrt((max_x as int * max_y as int) as nat) as int;
    if r <= 1000 {
        assert((r + 1) * (r + 1) <= 1001 * 1001) by (nonlinear_arith)
            requires
                0 <= r <= 1000,
        ;
    } else {
        assert(1001 * 1001 <= r * r) by (nonlinear_arith)
            requires
                r >= 1001,
        ;
    }
}

// ---------------------------------------------------------------------------
// Each operation in plain arithmetic
// ---------------------------------------------------------------------------

/// What a swap returns, in plain arithmetic. The fee is `amount_in *
/// fee_bps / 10_000` rounded up; the treasury's cut is `fee *
/// protocol_fee_bps / 10_000` rounded down and the LPs keep the rest of the
/// fee; what is left of the input is priced as `reserve_out * net /
/// (reserve_in + net)` rounded down. The swap succeeds exactly when the input
/// and both reserves are positive, the fee leaves something to price, the
/// cut fits in a `u64`, the grown input reserve fits in a `u64` and the
/// payout is positive.
pub proof fn swap_in_plain_terms(
    reserve_in: u64,
    reserve_out: u64,
    amount_in: u64,
    fee_bps: u16,
    protocol_fee_bps: u16,
)
    ensures
        ({
            let r = swap_outcome(
                reserve_in as int,
                reserve_out as int,
                amount_in as int,
                fee_bps as int,
                protocol_fee_bps as int,
            );
            let fee = (amount_in as int * fee_bps as int + 9_999) / 10_000;
            let cut = fee * protocol_fee_bps as int / 10_000;
            let net = amount_in - fee;
            let out = reserve_out as int * net / (reserve_in + net);
            &&& amount_in == 0 ==> r == Err::<SwapAmounts, AmmError>(AmmError::ZeroAmount)
            &&& amount_in > 0 && (reserve_in == 0 || reserve_out == 0) ==> r == Err::<
                SwapAmounts,
                AmmError,
            >(AmmError::PoolEmpty)
            &&& r is Ok <==> (amount_in > 0 && reserve_in > 0 && reserve_out > 0 && fee < amount_in
                && cut <= u64::MAX && reserve_in + net <= u64::MAX && out > 0)
            &&& r is Ok ==> r->Ok_0.protocol_fee == cut && r->Ok_0.amount_out == out
            &&& r is Ok && cut <= fee ==> r->Ok_0.lp_fee == fee - cut
            &&& r is Ok && protocol_fee_bps <= 10_000 ==> cut <= fee && r->Ok_0.lp_fee
                + r->Ok_0.protocol_fee == fee
            &&& r is Err ==> r->Err_0 == AmmError::ZeroAmount || r->Err_0 == AmmError::PoolEmpty
                || r->Err_0 == AmmError::MathOverflow
        }),
{
    let fee = (amount_in as int * fee_bps as int + 9_999) / 10_000;
    let cut = fee * protocol_fee_bps as int / 10_000;
    lemma_mul_nonnegative(amount_in as int, fee_bps as int);
    lemma_div_pos_is_pos(amount_in as int * fee_bps as int + 9_999, 10_000);
    lemma_mul_nonnegative(fee, protocol_fee_bps as int);
    lemma_div_pos_is_pos(fee * protocol_fee_bps as int, 10_000);
    if amount_in > 0 && reserve_in > 0 && reserve_out > 0 && fee < amount_in {
        lemma_output_below_reserve(reserve_in as int, reserve_out as int, amount_in - fee);
    }
    if protocol_fee_bps <= 10_000 {
        assert(fee * protocol_fee_bps as int <= fee * 10_000) by (nonlinear_arith)
            requires
                0 <= fee,
                protocol_fee_bps <= 10_000,
        ;
        lemma_div_is_ordered(fee * protocol_fee_bps as int, fee * 10_000, 10_000);
        lemma_div_by_multiple(fee, 10_000);
    }
}

/// What a deposit into a pool with LP tokens out returns, in plain
/// arithmetic. Each offer is worth `max * lp_supply / reserve` LP tokens
/// rounded down; the deposit mints the smaller of the two, and takes from
/// each side `lp_tokens * reserve / lp_supply` rounded up. It succeeds
/// exactly when both offers and both reserves are positive, both worths fit
/// in a `u64` and the smaller one is positive.
pub proof fn later_deposit_in_plain_terms(
    reserve_x: u64,
    reserve_y: u64,
    lp_supply: u64,
    max_x: u64,
    max_y: u64,
)
    requires
        lp_supply > 0,
    ensures
        ({
            let r = deposit_outcome(
                reserve_x as int,
                reserve_y as int,
                lp_supply as int,
                max_x as int,
                max_y as int,
            );
            let from_x = max_x as int * lp_supply as int / reserve_x as int;
            let from_y = max_y as int * lp_supply as int / reserve_y as int;
            let lp = if from_x <= from_y {
                from_x
            } else {
                from_y
            };
            &&& max_x == 0 || max_y == 0 ==> r == Err::<DepositAmounts, AmmError>(
                AmmError::ZeroAmount,
            )
            &&& max_x > 0 && max_y > 0 && (reserve_x == 0 || reserve_y == 0) ==> r == Err::<
                DepositAmounts,
                AmmError,
            >(AmmError::PoolEmpty)
            &&& r is Ok <==> (max_x > 0 && max_y > 0 && reserve_x > 0 && reserve_y > 0 && from_x
                <= u64::MAX && from_y <= u64::MAX && lp > 0)
            &&& r is Ok ==> {
                &&& r->Ok_0.lp_tokens == lp
                &&& r->Ok_0.lp_tokens <= from_x
                &&& r->Ok_0.lp_tokens <= from_y
                &&& (r->Ok_0.lp_tokens == from_x || r->Ok_0.lp_tokens == from_y)
                &&& r->Ok_0.amount_x == (lp * reserve_x + lp_supply - 1) / lp_supply as int
                &&& r->Ok_0.amount_y == (lp * reserve_y + lp_supply - 1) / lp_supply as int
            }
        }),
{
    let r = deposit_outcome(
        reserve_x as int,
        reserve_y as int,
        lp_supply as int,
        max_x as int,
        max_y as int,
    );
    if r is Ok {
        deposit_never_exceeds_offer(
            reserve_x,
            reserve_y,
            lp_supply,
            max_x,
            max_y,
            r->Ok_0,
        );
        let lp = r->Ok_0.lp_tokens as int;
        lemma_cost_within_offer(lp, reserve_x as int, lp_supply as int, max_x as int);
        lemma_cost_within_offer(lp, reserve_y as int, lp_supply as int, max_y as int);
    }
}

/// What the first deposit into a pool returns, in plain arithmetic: it takes
/// both offers whole and gives the depositor `r - 1_000` LP tokens, where
/// `r` is the integer square root of `max_x * max_y`. It succeeds exactly
/// when both offers are positive and their product is at least
/// `1_001 * 1_001`.
pub proof fn first_deposit_in_plain_terms(
    reserve_x: u64,
    reserve_y: u64,
    max_x: u64,
    max_y: u64,
)
    ensures
        ({
            let r = deposit_outcome(reserve_x as int, reserve_y as int, 0, max_x as int, max_y as int);
            &&& max_x == 0 || max_y == 0 ==> r == Err::<DepositAmounts, AmmError>(
                AmmError::ZeroAmount,
            )
            &&& max_x > 0 && max_y > 0 && (max_x as int) * (max_y as int) < 1_001 * 1_001 ==> r
                == Err::<DepositAmounts, AmmError>(AmmError::InsufficientInitialLiquidity)
            &&& r is Ok <==> (max_x > 0 && max_y > 0 && (max_x as int) * (max_y as int) >= 1_001
                * 1_001)
            &&& r is Ok ==> {
                &&& r->Ok_0.amount_x == max_x
                &&& r->Ok_0.amount_y == max_y
                &&& (r->Ok_0.lp_tokens + 1_000) * (r->Ok_0.lp_tokens + 1_000) <= (max_x as int) * (
                max_y as int)
                &&& (max_x as int) * (max_y as int) < (r->Ok_0.lp_tokens + 1_001) * (
                r->Ok_0.lp_tokens + 1_001)
            }
        }),
{
    first_deposit_needs_more_than_locked(max_x, max_y);
    lemma_first_deposit_root_fits(max_x as int, max_y as int);
}

/// What a withdrawal returns, in plain arithmetic: `lp_amount * reserve /
/// lp_supply` of each side, rounded down. It succeeds exactly when `0 <
/// lp_amount <= lp_supply` and both shares are positive.
pub proof fn withdraw_in_plain_terms(
    reserve_x: u64,
    reserve_y: u64,
    lp_supply: u64,
    lp_amount: u64,
)
    ensures
        ({
            let r = withdraw_outcome(
                reserve_x as int,
                reserve_y as int,
                lp_supply as int,
                lp_amount as int,
            );
            let out_x = lp_amount as int * reserve_x as int / lp_supply as int;
            let out_y = lp_amount as int * reserve_y as int / lp_supply as int;
            &&& lp_amount == 0 ==> r == Err::<(u64, u64), AmmError>(AmmError::ZeroAmount)
            &&& lp_amount > 0 && lp_supply == 0 ==> r == Err::<(u64, u64), AmmError>(
                AmmError::PoolEmpty,
            )
            &&& lp_amount > lp_supply && lp_supply > 0 ==> r == Err::<(u64, u64), AmmError>(
                AmmError::MathOverflow,
            )
            &&& r is Ok <==> (0 < lp_amount <= lp_supply && out_x > 0 && out_y > 0)
            &&& r is Ok ==> r->Ok_0.0 == out_x && r->Ok_0.1 == out_y
        }),
{
    if 0 < lp_amount <= lp_supply {
        lemma_share_within_reserve(lp_amount as int, reserve_x as int, lp_supply as int);
        lemma_share_within_reserve(lp_amount as int, reserve_y as int, lp_supply as int);
    }
}

/// `mul_div` in plain arithmetic: it succeeds exactly when the denominator
/// is nonzero and the result fits in a `u64`, and the result is `a * b /
/// denominator` rounded down, or rounded up when asked: the smallest `q`
/// with `q * denominator >= a * b`.
pub proof fn mul_div_in_plain_terms(a: u64, b: u64, denominator: u64, round_up: bool)
    requires
        denominator > 0,
    ensures
        ({
            let v = mul_div_value(a as int, b as int, denominator as int, round_up);
            let n = a as int * b as int;
            let d = denominator as int;
            &&& !round_up ==> v * d <= n < (v + 1) * d
            &&& round_up ==> (v - 1) * d < n <= v * d
            &&& mul_div_fits(a as int, b as int, d, round_up) <==> v <= u64::MAX
        }),
{
    let n = a as int * b as int;
    let d = denominator as int;
    lemma_mul_nonnegative(a as int, b as int);
    lemma_ceil_div(n, d);
    lemma_fundamental_div_mod(n, d);
    lemma_mod_bound(n, d);
    lemma_mul_is_commutative(d, n / d);
    lemma_mul_is_distributive_add_other_way(d, n / d, 1);
    lemma_mul_is_distributive_sub_other_way(d, ceil_div(n, d), 1);
}

} // verus!
