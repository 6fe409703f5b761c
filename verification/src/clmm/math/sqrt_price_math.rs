use vstd::prelude::*;

use crate::clmm::errors::TidePoolError;
use crate::clmm::math::u256::{pow128, pow256, pow64, shl64_div, U256};

verus! {

/// `as u64`: keeps the low 64 bits.
pub open spec fn low_u64(x: int) -> u64 {
    (x % pow64()) as u64
}

/// `n / d`, rounded up on request.
pub open spec fn div_round(n: int, d: int, round_up: bool) -> int {
    if round_up && n % d != 0 {
        n / d + 1
    } else {
        n / d
    }
}

/// What `get_amount_a_delta` gives: `L * (1/lower - 1/upper)` in Q64.64 prices, that is
/// `L * (upper - lower) * 2^64 / (lower * upper)` on the raw values, rounded down or (on
/// request) up; an error when the amount does not fit in a `u64`.
pub open spec fn spec_amount_a_delta(
    sqrt_price_lower: u128,
    sqrt_price_upper: u128,
    liquidity: u128,
    round_up: bool,
) -> Result<u64, TidePoolError> {
    if liquidity == 0 || sqrt_price_lower == sqrt_price_upper {
        Ok(0)
    } else if sqrt_price_upper < sqrt_price_lower {
        Err(TidePoolError::MathOverflow)
    } else {
        let denominator = sqrt_price_lower * sqrt_price_upper;
        if denominator == 0 {
            Err(TidePoolError::DivisionByZero)
        } else {
            let numerator = liquidity * (sqrt_price_upper - sqrt_price_lower) * pow64();
            let amount = div_round(numerator, denominator, round_up);
            if amount > u64::MAX {
                Err(TidePoolError::MathOverflow)
            } else {
                Ok(amount as u64)
            }
        }
    }
}

/// What `get_amount_b_delta` gives: `L * (upper - lower) / 2^64`, rounded down or (on
/// request) up; an error when the amount does not fit in a `u64`.
pub open spec fn spec_amount_b_delta(
    sqrt_price_lower: u128,
    sqrt_price_upper: u128,
    liquidity: u128,
    round_up: bool,
) -> Result<u64, TidePoolError> {
    if liquidity == 0 || sqrt_price_lower == sqrt_price_upper {
        Ok(0)
    } else if sqrt_price_upper < sqrt_price_lower {
        Err(TidePoolError::MathOverflow)
    } else {
        let amount = div_round(liquidity * (sqrt_price_upper - sqrt_price_lower), pow64(), round_up);
        if amount > u64::MAX {
            Err(TidePoolError::MathOverflow)
        } else {
            Ok(amount as u64)
        }
    }
}

/// What `get_next_sqrt_price_a_up` gives: `L * P / (L ± amount * P)` in Q64.64 prices,
/// that is `L * P * 2^64 / (L * 2^64 ± amount * P)` on the raw values, rounded up; an
/// error when the denominator is negative or zero or the price does not fit in a `u128`.
pub open spec fn spec_next_sqrt_price_a_up(
    sqrt_price: u128,
    liquidity: u128,
    amount: u64,
    add: bool,
) -> Result<u128, TidePoolError> {
    if amount == 0 {
        Ok(sqrt_price)
    } else {
        let product = amount * sqrt_price;
        let denominator = if add {
            liquidity * pow64() + product
        } else {
            liquidity * pow64() - product
        };
        if denominator < 0 {
            Err(TidePoolError::MathOverflow)
        } else if denominator == 0 {
            Err(TidePoolError::DivisionByZero)
        } else {
            let numerator = liquidity * sqrt_price * pow64();
            let price = numerator / denominator;
            if price > u128::MAX {
                Err(TidePoolError::MathOverflow)
            } else if numerator % denominator != 0 {
                if price == u128::MAX {
                    Err(TidePoolError::MathOverflow)
                } else {
                    Ok((price + 1) as u128)
                }
            } else {
                Ok(price as u128)
            }
        }
    }
}

/// What `get_next_sqrt_price_b_down` gives: `P ± (amount << 64) / L`; an error when
/// there is an amount but no liquidity, or the price leaves the `u128` range.
pub open spec fn spec_next_sqrt_price_b_down(
    sqrt_price: u128,
    liquidity: u128,
    amount: u64,
    add: bool,
) -> Result<u128, TidePoolError> {
    if amount == 0 {
        Ok(sqrt_price)
    } else if liquidity == 0 {
        Err(TidePoolError::DivisionByZero)
    } else {
        let quotient = (amount * pow64()) / (liquidity as int);
        let next = if add { sqrt_price + quotient } else { sqrt_price - quotient };
        if 0 <= next <= u128::MAX {
            Ok(next as u128)
        } else {
            Err(TidePoolError::MathOverflow)
        }
    }
}

/// `as u64` on a `u128` keeps its low 64 bits.
pub proof fn lemma_low_u64(x: u128)
    ensures
        x as u64 == low_u64(x as int),
{
    assert(x as u64 == (x % 0x1_0000_0000_0000_0000u128) as u64) by (bit_vector);
}

/// A quotient of a 128-bit value is at most that value, and rounding it up stays below `2^128`.
pub proof fn lemma_quotient_below_max(n: int, d: int)
    requires
        0 <= n < pow128(),
        d >= 1,
    ensures
        0 <= n / d <= n,
        n % d != 0 ==> n / d + 1 < pow128(),
{
    vstd::arithmetic::div_mod::lemma_fundamental_div_mod(n, d);
    assert(0 <= n % d < d);
    assert(0 <= n / d <= n) by (nonlinear_arith)
        requires n == d * (n / d) + n % d, 0 <= n % d < d, d >= 1, n >= 0;
    if n % d != 0 {
        if d == 1 {
            assert(n % d == 0);
        }
        assert(n / d + 1 < pow128()) by (nonlinear_arith)
            requires n == d * (n / d) + n % d, 0 < n % d < d, d >= 2, n < pow128(), n >= 0;
    }
}

/// Calculate the amount of token A required for a given liquidity and price range.
/// delta_a = L * (1/sqrt_price_lower - 1/sqrt_price_upper)
///         = L * (sqrt_price_upper - sqrt_price_lower) / (sqrt_price_lower * sqrt_price_upper)
pub fn get_amount_a_delta(
    sqrt_price_lower: u128,
    sqrt_price_upper: u128,
    liquidity: u128,
    round_up: bool,
) -> (r: Result<u64, TidePoolError>)
    ensures
        r == spec_amount_a_delta(sqrt_price_lower, sqrt_price_upper, liquidity, round_up),
{
    if liquidity == 0 || sqrt_price_lower == sqrt_price_upper {
        return Ok(0);
    }
    if sqrt_price_upper < sqrt_price_lower {
        return Err(TidePoolError::MathOverflow);
    }
    let price_diff = sqrt_price_upper - sqrt_price_lower;

    // numerator = L * (sqrt_upper - sqrt_lower) << 64
    let numerator = U256::mul_u128(liquidity, price_diff);

    // denominator = sqrt_lower * sqrt_upper
    let denominator = U256::mul_u128(sqrt_price_lower, sqrt_price_upper);
    if denominator.is_zero() {
        return Err(TidePoolError::DivisionByZero);
    }

    match shl64_div(&numerator, &denominator) {
        None => Err(TidePoolError::MathOverflow),
        Some((amount, has_remainder)) => {
            if round_up && has_remainder {
                if amount >= 0xffff_ffff_ffff_ffff {
                    Err(TidePoolError::MathOverflow)
                } else {
                    Ok((amount + 1) as u64)
                }
            } else if amount > 0xffff_ffff_ffff_ffff {
                Err(TidePoolError::MathOverflow)
            } else {
                Ok(amount as u64)
            }
        },
    }
}

/// Calculate the amount of token B required for a given liquidity and price range.
/// delta_b = L * (sqrt_price_upper - sqrt_price_lower)
pub fn get_amount_b_delta(
    sqrt_price_lower: u128,
    sqrt_price_upper: u128,
    liquidity: u128,
    round_up: bool,
) -> (r: Result<u64, TidePoolError>)
    ensures
        r == spec_amount_b_delta(sqrt_price_lower, sqrt_price_upper, liquidity, round_up),
{
    if liquidity == 0 || sqrt_price_lower == sqrt_price_upper {
        return Ok(0);
    }
    if sqrt_price_upper < sqrt_price_lower {
        return Err(TidePoolError::MathOverflow);
    }
    let price_diff = sqrt_price_upper - sqrt_price_lower;

    // amount = L * (sqrt_upper - sqrt_lower) >> 64
    let product = U256::mul_u128(liquidity, price_diff);
    if !product.fits_u128_after_shr64() {
        return Err(TidePoolError::MathOverflow);
    }
    let amount = product.shr_64();
    proof {
        vstd::arithmetic::div_mod::lemma_div_pos_is_pos(product.value(), pow64());
        vstd::arithmetic::div_mod::lemma_small_mod((product.value() / pow64()) as nat, pow128() as nat);
    }
    let has_remainder = product.0[0] % 0x1_0000_0000_0000_0000 != 0;
    proof {
        let v = product.value();
        let h = product.0[1] as int;
        let l = product.0[0] as int;
        assert(v == l + h * pow128());
        assert(v % pow64() == l % pow64()) by (nonlinear_arith)
            requires v == l + h * pow128(), pow128() == pow64() * pow64(), l >= 0, h >= 0;
    }
    if round_up && has_remainder {
        if amount >= 0xffff_ffff_ffff_ffff {
            Err(TidePoolError::MathOverflow)
        } else {
            Ok((amount + 1) as u64)
        }
    } else if amount > 0xffff_ffff_ffff_ffff {
        Err(TidePoolError::MathOverflow)
    } else {
        Ok(amount as u64)
    }
}

/// Calculate the next sqrt price when swapping token A for token B (price decreases).
/// new_sqrt_price = L * sqrt_price / (L + amount * sqrt_price)
pub fn get_next_sqrt_price_a_up(
    sqrt_price: u128,
    liquidity: u128,
    amount: u64,
    add: bool,
) -> (r: Result<u128, TidePoolError>)
    ensures
        r == spec_next_sqrt_price_a_up(sqrt_price, liquidity, amount, add),
{
    if amount == 0 {
        return Ok(sqrt_price);
    }

    // L << 64 and amount * sqrt_price, both below 2^192
    let scaled_liquidity = U256::mul_u128(liquidity, 0x1_0000_0000_0000_0000);
    let product = U256::mul_u128(amount as u128, sqrt_price);
    proof {
        assert(liquidity * pow64() < pow128() * pow64()) by (nonlinear_arith)
            requires
                liquidity < pow128(),
        ;
        assert(amount * sqrt_price < pow64() * pow128()) by (nonlinear_arith)
            requires
                amount < pow64(),
                sqrt_price < pow128(),
        ;
    }

    let denominator = if add {
        // Buying B with A: price goes down
        scaled_liquidity.add(&product)
    } else {
        // Removing A: price goes up
        if !scaled_liquidity.ge(&product) {
            return Err(TidePoolError::MathOverflow);
        }
        scaled_liquidity.wrapping_sub(&product)
    };
    if denominator.is_zero() {
        return Err(TidePoolError::DivisionByZero);
    }
    let numerator = U256::mul_u128(liquidity, sqrt_price);

    // Round up to ensure we don't undercharge
    match shl64_div(&numerator, &denominator) {
        None => Err(TidePoolError::MathOverflow),
        Some((price, has_remainder)) => {
            if has_remainder {
                if price == u128::MAX {
                    Err(TidePoolError::MathOverflow)
                } else {
                    Ok(price + 1)
                }
            } else {
                Ok(price)
            }
        },
    }
}

/// Calculate the next sqrt price when swapping token B for token A (price increases).
/// new_sqrt_price = sqrt_price + amount / L
pub fn get_next_sqrt_price_b_down(
    sqrt_price: u128,
    liquidity: u128,
    amount: u64,
    add: bool,
) -> (r: Result<u128, TidePoolError>)
    ensures
        r == spec_next_sqrt_price_b_down(sqrt_price, liquidity, amount, add),
{
    if amount == 0 {
        return Ok(sqrt_price);
    }
    if liquidity == 0 {
        return Err(TidePoolError::DivisionByZero);
    }

    // quotient = (amount << 64) / liquidity
    let amount_shifted = (amount as u128) * 0x1_0000_0000_0000_0000;
    let quotient = amount_shifted / liquidity;

    if add {
        // Adding B: price increases
        if sqrt_price > u128::MAX - quotient {
            Err(TidePoolError::MathOverflow)
        } else {
            Ok(sqrt_price + quotient)
        }
    } else {
        // Removing B: price decreases
        if sqrt_price < quotient {
            Err(TidePoolError::MathOverflow)
        } else {
            Ok(sqrt_price - quotient)
        }
    }
}

/// Rounding up never gives less than rounding down, and never more than one unit more:
/// the token A amount taken when liquidity comes in covers what is paid out when the same
/// liquidity leaves over the same prices.
pub proof fn lemma_amount_a_rounding(sqrt_price_lower: u128, sqrt_price_upper: u128, liquidity: u128)
    ensures
        spec_amount_a_delta(sqrt_price_lower, sqrt_price_upper, liquidity, true) matches Ok(up) ==> (
        spec_amount_a_delta(sqrt_price_lower, sqrt_price_upper, liquidity, false) matches Ok(down)
            && down <= up <= down + 1),
{
}

/// Rounding up never gives less than rounding down for token B either, and never more
/// than one unit more.
pub proof fn lemma_amount_b_rounding(sqrt_price_lower: u128, sqrt_price_upper: u128, liquidity: u128)
    ensures
        spec_amount_b_delta(sqrt_price_lower, sqrt_price_upper, liquidity, true) matches Ok(up) ==> (
        spec_amount_b_delta(sqrt_price_lower, sqrt_price_upper, liquidity, false) matches Ok(down)
            && down <= up <= down + 1),
{
}

/// The most liquidity `amount` of token A funds over `[lower, upper)`:
/// `amount * lower * upper / ((upper - lower) * 2^64)`, rounded down.
pub open spec fn spec_liquidity_from_a(amount: u64, sqrt_price_lower: u128, sqrt_price_upper: u128) -> int {
    (amount * sqrt_price_lower * sqrt_price_upper) / ((sqrt_price_upper - sqrt_price_lower) * pow64())
}

/// The most liquidity `amount` of token B funds over `[lower, upper)`:
/// `amount * 2^64 / (upper - lower)`, rounded down.
pub open spec fn spec_liquidity_from_b(amount: u64, sqrt_price_lower: u128, sqrt_price_upper: u128) -> int {
    (amount * pow64()) / (sqrt_price_upper - sqrt_price_lower)
}

/// The smaller of two integers.
pub open spec fn min_of(a: int, b: int) -> int {
    if a <= b {
        a
    } else {
        b
    }
}

/// The most liquidity that `amount_a` and `amount_b` fund over `[lower, upper)` at the
/// current price: token A alone below the range, token B alone above it, and the scarcer
/// of the two inside it; at most `u128::MAX`.
pub open spec fn spec_liquidity_for_amounts(
    sqrt_price_current: u128,
    sqrt_price_lower: u128,
    sqrt_price_upper: u128,
    amount_a: u64,
    amount_b: u64,
) -> int {
    let raw = if sqrt_price_current <= sqrt_price_lower {
        spec_liquidity_from_a(amount_a, sqrt_price_lower, sqrt_price_upper)
    } else if sqrt_price_current >= sqrt_price_upper {
        spec_liquidity_from_b(amount_b, sqrt_price_lower, sqrt_price_upper)
    } else {
        min_of(
            spec_liquidity_from_a(amount_a, sqrt_price_current, sqrt_price_upper),
            spec_liquidity_from_b(amount_b, sqrt_price_lower, sqrt_price_current),
        )
    };
    min_of(raw, u128::MAX as int)
}

/// Exec twin of `spec_liquidity_from_a`, capped at `u128::MAX`.
fn liquidity_from_a(amount: u64, sqrt_price_lower: u128, sqrt_price_upper: u128) -> (r: u128)
    requires
        0 < sqrt_price_lower < sqrt_price_upper <= 0xffff_ffff_ffff_ffff_ffff_ffff,
    ensures
        r == min_of(spec_liquidity_from_a(amount, sqrt_price_lower, sqrt_price_upper), u128::MAX as int),
{
    let p = U256::mul_u128(sqrt_price_lower, sqrt_price_upper);
    proof {
        assert(sqrt_price_lower * sqrt_price_upper < pow128() * pow64()) by (nonlinear_arith)
            requires
                0 < sqrt_price_lower < 0x1_0000_0000_0000_0000_0000_0000,
                0 < sqrt_price_upper < 0x1_0000_0000_0000_0000_0000_0000;
        let v = p.value();
        assert(v == p.0[0] + p.0[1] * pow128());
        assert(p.0[1] < pow64()) by (nonlinear_arith)
            requires v == p.0[0] + p.0[1] * pow128(), v < pow128() * pow64(), p.0[0] >= 0, p.0[1] >= 0;
        assert(amount * p.0[1] < pow128()) by (nonlinear_arith)
            requires amount < pow64(), 0 <= p.0[1] < pow64();
    }
    let m0 = U256::mul_u128(amount as u128, p.0[0]);
    let high = (amount as u128) * p.0[1];
    let high_part = U256([0, high]);
    proof {
        let v = p.value();
        assert(m0.value() + high_part.value() == amount * v) by (nonlinear_arith)
            requires
                m0.value() == amount * p.0[0],
                high_part.value() == high * pow128(),
                high == amount * p.0[1],
                v == p.0[0] + p.0[1] * pow128();
        assert(amount * v < pow256()) by (nonlinear_arith)
            requires amount < pow64(), 0 <= v < pow128() * pow64(), pow256() == pow128() * pow128(), pow128() == pow64() * pow64();
        assert(amount * v >= 0) by (nonlinear_arith)
            requires amount >= 0, v >= 0;
    }
    let n = m0.add(&high_part);
    let width = sqrt_price_upper - sqrt_price_lower;
    let denominator = U256([0, width]);
    proof {
        let x = amount * sqrt_price_lower * sqrt_price_upper;
        let d = width * pow64();
        assert(n.value() == x) by (nonlinear_arith)
            requires n.value() == amount * p.value(), p.value() == sqrt_price_lower * sqrt_price_upper, x == amount * sqrt_price_lower * sqrt_price_upper;
        assert(denominator.value() == pow64() * d) by (nonlinear_arith)
            requires denominator.value() == width * pow128(), d == width * pow64(), pow128() == pow64() * pow64();
        assert(x >= 0) by (nonlinear_arith)
            requires x == amount * sqrt_price_lower * sqrt_price_upper, amount >= 0, sqrt_price_lower >= 0, sqrt_price_upper >= 0;
        assert(d > 0) by (nonlinear_arith)
            requires d == width * pow64(), width > 0;
        vstd::arithmetic::div_mod::lemma_div_multiples_vanish_quotient(pow64(), x, d);
        assert(pow64() * x == x * pow64()) by (nonlinear_arith);
    }
    match shl64_div(&n, &denominator) {
        Some((q, _)) => q,
        None => u128::MAX,
    }
}

/// Exec twin of `spec_liquidity_from_b`.
fn liquidity_from_b(amount: u64, sqrt_price_lower: u128, sqrt_price_upper: u128) -> (r: u128)
    requires
        sqrt_price_lower < sqrt_price_upper,
    ensures
        r == spec_liquidity_from_b(amount, sqrt_price_lower, sqrt_price_upper),
{
    proof {
        assert(amount * pow64() < pow128()) by (nonlinear_arith)
            requires amount < pow64();
        vstd::arithmetic::div_mod::lemma_div_is_ordered_by_denominator(amount * pow64(), 1, (sqrt_price_upper - sqrt_price_lower) as int);
        assert(amount * pow64() >= 0) by (nonlinear_arith) requires amount >= 0;
    }
    ((amount as u128) * 0x1_0000_0000_0000_0000) / (sqrt_price_upper - sqrt_price_lower)
}

/// The most liquidity that `amount_a` and `amount_b` fund over `[lower, upper)` at the
/// current price (see `spec_liquidity_for_amounts`).
pub fn liquidity_for_amounts(
    sqrt_price_current: u128,
    sqrt_price_lower: u128,
    sqrt_price_upper: u128,
    amount_a: u64,
    amount_b: u64,
) -> (r: u128)
    requires
        0 < sqrt_price_lower < sqrt_price_upper <= 0xffff_ffff_ffff_ffff_ffff_ffff,
    ensures
        r == spec_liquidity_for_amounts(sqrt_price_current, sqrt_price_lower, sqrt_price_upper, amount_a, amount_b),
{
    if sqrt_price_current <= sqrt_price_lower {
        liquidity_from_a(amount_a, sqrt_price_lower, sqrt_price_upper)
    } else if sqrt_price_current >= sqrt_price_upper {
        liquidity_from_b(amount_b, sqrt_price_lower, sqrt_price_upper)
    } else {
        let la = liquidity_from_a(amount_a, sqrt_price_current, sqrt_price_upper);
        let lb = liquidity_from_b(amount_b, sqrt_price_lower, sqrt_price_current);
        if la <= lb {
            la
        } else {
            lb
        }
    }
}

} // verus!
