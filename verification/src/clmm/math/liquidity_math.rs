use vstd::prelude::*;

use crate::clmm::errors::TidePoolError;
use crate::clmm::math::u256::pow128;

verus! {

/// `x` reduced into the `u128` range, as wrapping arithmetic does.
pub open spec fn wrap128(x: int) -> int {
    x % pow128()
}

/// Fee growth inside `[tick_lower, tick_upper)`: global growth less the growth below
/// the lower tick and above the upper tick, all modulo `2^128`.
pub open spec fn spec_fee_growth_inside(
    tick_current: i32,
    tick_lower: i32,
    tick_upper: i32,
    fee_growth_global: u128,
    fee_growth_outside_lower: u128,
    fee_growth_outside_upper: u128,
) -> int {
    let below = if tick_current >= tick_lower {
        fee_growth_outside_lower as int
    } else {
        wrap128(fee_growth_global - fee_growth_outside_lower)
    };
    let above = if tick_current < tick_upper {
        fee_growth_outside_upper as int
    } else {
        wrap128(fee_growth_global - fee_growth_outside_upper)
    };
    wrap128(fee_growth_global - below - above)
}

/// `u128::wrapping_sub` is subtraction modulo `2^128`.
pub proof fn lemma_wrapping_sub(x: u128, y: u128)
    ensures
        vstd::wrapping::u128_specs::wrapping_sub(x, y) == wrap128(x - y),
{
    let d = x - y;
    if d < 0 {
        vstd::arithmetic::div_mod::lemma_mod_add_multiples_vanish(d, pow128());
        vstd::arithmetic::div_mod::lemma_small_mod((d + pow128()) as nat, pow128() as nat);
    } else {
        vstd::arithmetic::div_mod::lemma_small_mod(d as nat, pow128() as nat);
    }
}

/// `u128::wrapping_add` is addition modulo `2^128`.
pub proof fn lemma_wrapping_add(x: u128, y: u128)
    ensures
        vstd::wrapping::u128_specs::wrapping_add(x, y) == wrap128(x + y),
{
    let d = x + y;
    if d > u128::MAX {
        vstd::arithmetic::div_mod::lemma_mod_add_multiples_vanish(d - pow128(), pow128());
        vstd::arithmetic::div_mod::lemma_small_mod((d - pow128()) as nat, pow128() as nat);
    } else {
        vstd::arithmetic::div_mod::lemma_small_mod(d as nat, pow128() as nat);
    }
}

/// Reinterpreting a `u128` as `i128` gives `i128::MIN` only for `2^127`.
pub proof fn lemma_as_i128_min(x: u128)
    ensures
        (x as i128 == i128::MIN) == (x == 0x8000_0000_0000_0000_0000_0000_0000_0000u128),
{
    assert((x as i128 == i128::MIN) == (x == 0x8000_0000_0000_0000_0000_0000_0000_0000u128)) by (bit_vector);
}

/// Add a signed liquidity delta to an unsigned liquidity value.
pub fn add_liquidity_delta(liquidity: u128, delta: i128) -> (r: Result<u128, TidePoolError>)
    ensures
        0 <= liquidity + delta <= u128::MAX ==> r == Ok::<u128, TidePoolError>((liquidity + delta) as u128),
        !(0 <= liquidity + delta <= u128::MAX) ==> r == Err::<u128, TidePoolError>(TidePoolError::MathOverflow),
{
    if delta >= 0 {
        let d = delta as u128;
        if liquidity > u128::MAX - d {
            Err(TidePoolError::MathOverflow)
        } else {
            Ok(liquidity + d)
        }
    } else {
        // |delta|, which for i128::MIN is 2^127
        let abs_delta: u128 = if delta == i128::MIN { 0x8000_0000_0000_0000_0000_0000_0000_0000 } else { (-delta) as u128 };
        if liquidity < abs_delta {
            Err(TidePoolError::MathOverflow)
        } else {
            Ok(liquidity - abs_delta)
        }
    }
}

/// Adding a delta and then its opposite gives back the liquidity one started with.
pub proof fn lemma_add_liquidity_delta_inverse(liquidity: u128, delta: i128, mid: u128)
    requires
        delta != i128::MIN,
        0 <= liquidity + delta <= u128::MAX,
        mid == liquidity + delta,
    ensures
        0 <= mid + (-delta) <= u128::MAX,
        mid + (-delta) == liquidity,
{
}

/// Calculate fee growth inside a position's tick range.
///
/// fee_growth_inside = fee_growth_global
///     - fee_growth_below(tick_lower)
///     - fee_growth_above(tick_upper)
pub fn calculate_fee_growth_inside(
    tick_current: i32,
    tick_lower: i32,
    tick_upper: i32,
    fee_growth_global: u128,
    fee_growth_outside_lower: u128,
    fee_growth_outside_upper: u128,
) -> (r: u128)
    ensures
        r == spec_fee_growth_inside(
            tick_current,
            tick_lower,
            tick_upper,
            fee_growth_global,
            fee_growth_outside_lower,
            fee_growth_outside_upper,
        ),
{
    // Fee growth below tick_lower
    let fee_growth_below = if tick_current >= tick_lower {
        fee_growth_outside_lower
    } else {
        proof {
            lemma_wrapping_sub(fee_growth_global, fee_growth_outside_lower);
        }
        fee_growth_global.wrapping_sub(fee_growth_outside_lower)
    };

    // Fee growth above tick_upper
    let fee_growth_above = if tick_current < tick_upper {
        fee_growth_outside_upper
    } else {
        proof {
            lemma_wrapping_sub(fee_growth_global, fee_growth_outside_upper);
        }
        fee_growth_global.wrapping_sub(fee_growth_outside_upper)
    };

    let step = fee_growth_global.wrapping_sub(fee_growth_below);
    let r = step.wrapping_sub(fee_growth_above);
    proof {
        lemma_wrapping_sub(fee_growth_global, fee_growth_below);
        lemma_wrapping_sub(step, fee_growth_above);
        let g = fee_growth_global as int;
        let b = fee_growth_below as int;
        let a = fee_growth_above as int;
        vstd::arithmetic::div_mod::lemma_sub_mod_noop(g - b, a, pow128());
        vstd::arithmetic::div_mod::lemma_mod_twice(g - b - a, pow128());
        vstd::arithmetic::div_mod::lemma_small_mod(a as nat, pow128() as nat);
    }
    r
}

/// A position whose range the current tick lies outside of earns nothing while it stays
/// there: its fee growth inside does not depend on the global fee growth.
pub proof fn lemma_out_of_range_earns_nothing(
    tick_current: i32,
    tick_lower: i32,
    tick_upper: i32,
    fee_growth_global_1: u128,
    fee_growth_global_2: u128,
    fee_growth_outside_lower: u128,
    fee_growth_outside_upper: u128,
)
    requires
        tick_lower < tick_upper,
        tick_current < tick_lower || tick_current >= tick_upper,
    ensures
        spec_fee_growth_inside(
            tick_current,
            tick_lower,
            tick_upper,
            fee_growth_global_1,
            fee_growth_outside_lower,
            fee_growth_outside_upper,
        ) == spec_fee_growth_inside(
            tick_current,
            tick_lower,
            tick_upper,
            fee_growth_global_2,
            fee_growth_outside_lower,
            fee_growth_outside_upper,
        ),
{
    let ol = fee_growth_outside_lower as int;
    let ou = fee_growth_outside_upper as int;
    let m = pow128();
    if tick_current < tick_lower {
        // inside == (g - (g - ol) % m - ou) % m == (ol - ou) % m
        let g1 = fee_growth_global_1 as int;
        let g2 = fee_growth_global_2 as int;
        vstd::arithmetic::div_mod::lemma_sub_mod_noop_right(g1 - ou, g1 - ol, m);
        vstd::arithmetic::div_mod::lemma_sub_mod_noop_right(g2 - ou, g2 - ol, m);
        assert((fee_growth_global_1 - wrap128(fee_growth_global_1 - ol) - ou) % m == (ol - ou) % m);
        assert((fee_growth_global_2 - wrap128(fee_growth_global_2 - ol) - ou) % m == (ol - ou) % m);
    } else {
        // inside == (g - ol - (g - ou) % m) % m == (ou - ol) % m
        let g1 = fee_growth_global_1 as int;
        let g2 = fee_growth_global_2 as int;
        vstd::arithmetic::div_mod::lemma_sub_mod_noop_right(g1 - ol, g1 - ou, m);
        vstd::arithmetic::div_mod::lemma_sub_mod_noop_right(g2 - ol, g2 - ou, m);
        assert((fee_growth_global_1 - ol - wrap128(fee_growth_global_1 - ou)) % m == (ou - ol) % m);
        assert((fee_growth_global_2 - ol - wrap128(fee_growth_global_2 - ou)) % m == (ou - ol) % m);
    }
}

} // verus!
