use vstd::prelude::*;

use crate::clmm::errors::TidePoolError;
use crate::clmm::math::fee_math::{self, spec_fee_amount};
use crate::clmm::math::sqrt_price_math::{
    self,
    spec_amount_a_delta,
    spec_amount_b_delta,
    spec_next_sqrt_price_a_up,
    spec_next_sqrt_price_b_down,
};
use crate::clmm::math::u256::{pow128, pow64};
use vstd::arithmetic::div_mod::{lemma_fundamental_div_mod, lemma_mod_pos_bound};

verus! {

/// Outcome of one swap step.
#[derive(Debug, Clone, Copy, PartialEq, Eq, Structural)]
pub struct SwapStepResult {
    pub sqrt_price_next: u128,
    pub amount_in: u64,
    pub amount_out: u64,
    pub fee_amount: u64,
}

/// The largest input the step can take before the price reaches the target.
pub open spec fn spec_amount_in_max(current: u128, target: u128, liquidity: u128, a_to_b: bool) -> Result<u64, TidePoolError> {
    if a_to_b {
        spec_amount_a_delta(target, current, liquidity, true)
    } else {
        spec_amount_b_delta(current, target, liquidity, true)
    }
}

/// Price, input and output of a step: either the whole way to the target, or as far as
/// `amount_after_fees` of input carries the price.
pub open spec fn spec_step_movement(
    current: u128,
    target: u128,
    liquidity: u128,
    amount_after_fees: u64,
    amount_in_max: u64,
    a_to_b: bool,
) -> Result<(u128, u64, u64), TidePoolError> {
    if amount_after_fees >= amount_in_max {
        let out = if a_to_b {
            spec_amount_b_delta(target, current, liquidity, false)
        } else {
            spec_amount_a_delta(current, target, liquidity, false)
        };
        match out {
            Err(e) => Err(e),
            Ok(o) => Ok((target, amount_in_max, o)),
        }
    } else {
        let next = if a_to_b {
            spec_next_sqrt_price_a_up(current, liquidity, amount_after_fees, true)
        } else {
            spec_next_sqrt_price_b_down(current, liquidity, amount_after_fees, true)
        };
        match next {
            Err(e) => Err(e),
            Ok(p) => {
                let actual_in = if a_to_b {
                    spec_amount_a_delta(p, current, liquidity, true)
                } else {
                    spec_amount_b_delta(current, p, liquidity, true)
                };
                match actual_in {
                    Err(e) => Err(e),
                    Ok(i) => {
                        let actual_out = if a_to_b {
                            spec_amount_b_delta(p, current, liquidity, false)
                        } else {
                            spec_amount_a_delta(current, p, liquidity, false)
                        };
                        match actual_out {
                            Err(e) => Err(e),
                            Ok(o) => Ok((p, i, o)),
                        }
                    },
                }
            },
        }
    }
}

/// The largest output the step can give before the price reaches the target.
pub open spec fn spec_amount_out_max(current: u128, target: u128, liquidity: u128, a_to_b: bool) -> Result<u64, TidePoolError> {
    if a_to_b {
        spec_amount_b_delta(target, current, liquidity, false)
    } else {
        spec_amount_a_delta(current, target, liquidity, false)
    }
}

/// The price reached by taking `amount_out` of the output token out of the pool.
pub open spec fn spec_price_after_output(current: u128, liquidity: u128, amount_out: u64, a_to_b: bool) -> Result<u128, TidePoolError> {
    if a_to_b {
        spec_next_sqrt_price_b_down(current, liquidity, amount_out, false)
    } else {
        spec_next_sqrt_price_a_up(current, liquidity, amount_out, false)
    }
}

/// The input (rounded up) that moves the price from `current` to `next`.
pub open spec fn spec_input_to_price(current: u128, next: u128, liquidity: u128, a_to_b: bool) -> Result<u64, TidePoolError> {
    if a_to_b {
        spec_amount_a_delta(next, current, liquidity, true)
    } else {
        spec_amount_b_delta(current, next, liquidity, true)
    }
}

/// An exact-output step with liquidity: `amount_remaining` is the output still wanted.
/// When it covers the whole way to the target the step goes there and gives out what that
/// way holds; otherwise it gives out exactly what is wanted, at the price that takes it out
/// of the pool. The input is what the price movement costs (rounded up), the fee is charged
/// on that input.
pub open spec fn spec_swap_step_exact_out(
    sqrt_price_current: u128,
    sqrt_price_target: u128,
    liquidity: u128,
    amount_remaining: u64,
    fee_rate: u16,
    a_to_b: bool,
) -> Result<SwapStepResult, TidePoolError> {
    match spec_amount_out_max(sqrt_price_current, sqrt_price_target, liquidity, a_to_b) {
        Err(e) => Err(e),
        Ok(out_max) => if amount_remaining >= out_max {
            match spec_amount_in_max(sqrt_price_current, sqrt_price_target, liquidity, a_to_b) {
                Err(e) => Err(e),
                Ok(amount_in) => Ok(SwapStepResult {
                    sqrt_price_next: sqrt_price_target,
                    amount_in,
                    amount_out: out_max,
                    fee_amount: spec_fee_amount(amount_in, fee_rate) as u64,
                }),
            }
        } else {
            match spec_price_after_output(sqrt_price_current, liquidity, amount_remaining, a_to_b) {
                Err(e) => Err(e),
                Ok(next) => match spec_input_to_price(sqrt_price_current, next, liquidity, a_to_b) {
                    Err(e) => Err(e),
                    Ok(amount_in) => Ok(SwapStepResult {
                        sqrt_price_next: next,
                        amount_in,
                        amount_out: amount_remaining,
                        fee_amount: spec_fee_amount(amount_in, fee_rate) as u64,
                    }),
                },
            }
        },
    }
}

/// What `compute_swap_step` gives. With exact input, `amount_remaining` is the input
/// still to spend, fee included; with exact output, the output still wanted.
pub open spec fn spec_swap_step(
    sqrt_price_current: u128,
    sqrt_price_target: u128,
    liquidity: u128,
    amount_remaining: u64,
    fee_rate: u16,
    amount_specified_is_input: bool,
    a_to_b: bool,
) -> Result<SwapStepResult, TidePoolError> {
    if liquidity == 0 {
        Ok(SwapStepResult { sqrt_price_next: sqrt_price_target, amount_in: 0, amount_out: 0, fee_amount: 0 })
    } else if !amount_specified_is_input {
        spec_swap_step_exact_out(sqrt_price_current, sqrt_price_target, liquidity, amount_remaining, fee_rate, a_to_b)
    } else {
        let amount_after_fees: u64 = (amount_remaining - spec_fee_amount(amount_remaining, fee_rate)) as u64;
        match spec_amount_in_max(sqrt_price_current, sqrt_price_target, liquidity, a_to_b) {
            Err(e) => Err(e),
            Ok(in_max) => match spec_step_movement(
                sqrt_price_current,
                sqrt_price_target,
                liquidity,
                amount_after_fees,
                in_max,
                a_to_b,
            ) {
                Err(e) => Err(e),
                Ok((next, amount_in, amount_out)) => {
                    if next != sqrt_price_target {
                        if amount_remaining < amount_in {
                            Err(TidePoolError::MathOverflow)
                        } else {
                            Ok(SwapStepResult {
                                sqrt_price_next: next,
                                amount_in,
                                amount_out,
                                fee_amount: (amount_remaining - amount_in) as u64,
                            })
                        }
                    } else {
                        Ok(SwapStepResult {
                            sqrt_price_next: next,
                            amount_in,
                            amount_out,
                            fee_amount: spec_fee_amount(amount_in, fee_rate) as u64,
                        })
                    }
                },
            },
        }
    }
}

/// A smaller amount never pays a larger fee.
proof fn lemma_fee_monotone(a: u64, b: u64, fee_rate: u16)
    requires
        a <= b,
    ensures
        spec_fee_amount(a, fee_rate) <= spec_fee_amount(b, fee_rate),
{
    vstd::arithmetic::mul::lemma_mul_inequality(a as int, b as int, fee_rate as int);
    vstd::arithmetic::div_mod::lemma_div_is_ordered(a * fee_rate, b * fee_rate, 1_000_000);
}

/// Exec twin of `spec_step_movement`.
fn step_movement(
    sqrt_price_current: u128,
    sqrt_price_target: u128,
    liquidity: u128,
    amount_after_fees: u64,
    amount_in_max: u64,
    a_to_b: bool,
) -> (r: Result<(u128, u64, u64), TidePoolError>)
    requires
        liquidity > 0,
    ensures
        r == spec_step_movement(sqrt_price_current, sqrt_price_target, liquidity, amount_after_fees, amount_in_max, a_to_b),
{
    if amount_after_fees >= amount_in_max {
        // We reach the target price
        let out_result = if a_to_b {
            sqrt_price_math::get_amount_b_delta(sqrt_price_target, sqrt_price_current, liquidity, false)
        } else {
            sqrt_price_math::get_amount_a_delta(sqrt_price_current, sqrt_price_target, liquidity, false)
        };
        match out_result {
            Ok(amount_out) => Ok((sqrt_price_target, amount_in_max, amount_out)),
            Err(e) => Err(e),
        }
    } else {
        // We can't reach the target; compute the price we do reach
        let next_result = if a_to_b {
            sqrt_price_math::get_next_sqrt_price_a_up(sqrt_price_current, liquidity, amount_after_fees, true)
        } else {
            sqrt_price_math::get_next_sqrt_price_b_down(sqrt_price_current, liquidity, amount_after_fees, true)
        };
        let next_price = match next_result {
            Ok(v) => v,
            Err(e) => {
                return Err(e);
            },
        };

        let in_result = if a_to_b {
            sqrt_price_math::get_amount_a_delta(next_price, sqrt_price_current, liquidity, true)
        } else {
            sqrt_price_math::get_amount_b_delta(sqrt_price_current, next_price, liquidity, true)
        };
        let actual_in = match in_result {
            Ok(v) => v,
            Err(e) => {
                return Err(e);
            },
        };

        let out_result = if a_to_b {
            sqrt_price_math::get_amount_b_delta(next_price, sqrt_price_current, liquidity, false)
        } else {
            sqrt_price_math::get_amount_a_delta(sqrt_price_current, next_price, liquidity, false)
        };
        match out_result {
            Ok(actual_out) => Ok((next_price, actual_in, actual_out)),
            Err(e) => Err(e),
        }
    }
}

/// Exec twin of `spec_swap_step_exact_out`.
fn swap_step_exact_out(
    sqrt_price_current: u128,
    sqrt_price_target: u128,
    liquidity: u128,
    amount_remaining: u64,
    fee_rate: u16,
    a_to_b: bool,
) -> (r: Result<SwapStepResult, TidePoolError>)
    ensures
        r == spec_swap_step_exact_out(sqrt_price_current, sqrt_price_target, liquidity, amount_remaining, fee_rate, a_to_b),
{
    // The most output the way to the target holds
    let out_max_result = if a_to_b {
        sqrt_price_math::get_amount_b_delta(sqrt_price_target, sqrt_price_current, liquidity, false)
    } else {
        sqrt_price_math::get_amount_a_delta(sqrt_price_current, sqrt_price_target, liquidity, false)
    };
    let amount_out_max = match out_max_result {
        Ok(v) => v,
        Err(e) => {
            return Err(e);
        },
    };
    let (sqrt_price_next, amount_in, amount_out) = if amount_remaining >= amount_out_max {
        // We reach the target price
        let in_result = if a_to_b {
            sqrt_price_math::get_amount_a_delta(sqrt_price_target, sqrt_price_current, liquidity, true)
        } else {
            sqrt_price_math::get_amount_b_delta(sqrt_price_current, sqrt_price_target, liquidity, true)
        };
        match in_result {
            Ok(v) => (sqrt_price_target, v, amount_out_max),
            Err(e) => {
                return Err(e);
            },
        }
    } else {
        // Take out exactly what is wanted; the price moves as far as that takes it
        let next_result = if a_to_b {
            sqrt_price_math::get_next_sqrt_price_b_down(sqrt_price_current, liquidity, amount_remaining, false)
        } else {
            sqrt_price_math::get_next_sqrt_price_a_up(sqrt_price_current, liquidity, amount_remaining, false)
        };
        let next_price = match next_result {
            Ok(v) => v,
            Err(e) => {
                return Err(e);
            },
        };
        let in_result = if a_to_b {
            sqrt_price_math::get_amount_a_delta(next_price, sqrt_price_current, liquidity, true)
        } else {
            sqrt_price_math::get_amount_b_delta(sqrt_price_current, next_price, liquidity, true)
        };
        match in_result {
            Ok(v) => (next_price, v, amount_remaining),
            Err(e) => {
                return Err(e);
            },
        }
    };
    let fee_amount = match fee_math::calculate_fee_amount(amount_in, fee_rate) {
        Ok(f) => f,
        Err(e) => {
            return Err(e);
        },
    };
    Ok(SwapStepResult { sqrt_price_next, amount_in, amount_out, fee_amount })
}

/// Compute a single swap step within a tick range.
///
/// Given the current price, target price, available liquidity, and remaining amount,
/// determines how much can be swapped and the resulting price.
pub fn compute_swap_step(
    sqrt_price_current: u128,
    sqrt_price_target: u128,
    liquidity: u128,
    amount_remaining: u64,
    fee_rate: u16,
    amount_specified_is_input: bool,
    a_to_b: bool,
) -> (r: Result<SwapStepResult, TidePoolError>)
    ensures
        r == spec_swap_step(
            sqrt_price_current,
            sqrt_price_target,
            liquidity,
            amount_remaining,
            fee_rate,
            amount_specified_is_input,
            a_to_b,
        ),
        // an exact-input step that stops short of the target spends exactly what remains
        amount_specified_is_input ==> (r matches Ok(s) ==> (s.sqrt_price_next != sqrt_price_target
            ==> s.amount_in + s.fee_amount == amount_remaining)),
        // an exact-input step whose input covers the way to the target stays within what remains
        amount_specified_is_input && liquidity > 0 ==> (r matches Ok(s) ==> (
            spec_amount_in_max(sqrt_price_current, sqrt_price_target, liquidity, a_to_b) matches Ok(m)
            && amount_remaining - spec_fee_amount(amount_remaining, fee_rate) >= m
            ==> s.amount_in + s.fee_amount <= amount_remaining)),
        // an exact-output step never gives out more than is still wanted, and gives out all
        // of it unless it reaches the target first
        !amount_specified_is_input && liquidity > 0 ==> (r matches Ok(s) ==> s.amount_out <= amount_remaining
            && (s.sqrt_price_next != sqrt_price_target ==> s.amount_out == amount_remaining)),
{
    if liquidity == 0 {
        return Ok(SwapStepResult { sqrt_price_next: sqrt_price_target, amount_in: 0, amount_out: 0, fee_amount: 0 });
    }

    if !amount_specified_is_input {
        return swap_step_exact_out(sqrt_price_current, sqrt_price_target, liquidity, amount_remaining, fee_rate, a_to_b);
    }

    let (amount_after_fees, _fee_from_remaining) = match fee_math::calculate_amount_after_fees(amount_remaining, fee_rate) {
        Ok(pair) => pair,
        Err(e) => {
            return Err(e);
        },
    };

    // Calculate the max amount that can be swapped to reach the target price
    let in_max_result = if a_to_b {
        sqrt_price_math::get_amount_a_delta(sqrt_price_target, sqrt_price_current, liquidity, true)
    } else {
        sqrt_price_math::get_amount_b_delta(sqrt_price_current, sqrt_price_target, liquidity, true)
    };
    let amount_in_max = match in_max_result {
        Ok(v) => v,
        Err(e) => {
            return Err(e);
        },
    };

    // Determine if we can reach the target price
    let (sqrt_price_next, amount_in, amount_out) = match step_movement(
        sqrt_price_current,
        sqrt_price_target,
        liquidity,
        amount_after_fees,
        amount_in_max,
        a_to_b,
    ) {
        Ok(t) => t,
        Err(e) => {
            return Err(e);
        },
    };

    // Calculate fee
    let fee_amount = if sqrt_price_next != sqrt_price_target {
        // Didn't reach target — fee is whatever is left
        if amount_remaining < amount_in {
            return Err(TidePoolError::MathOverflow);
        }
        amount_remaining - amount_in
    } else {
        let fee = match fee_math::calculate_fee_amount(amount_in, fee_rate) {
            Ok(f) => f,
            Err(e) => {
                return Err(e);
            },
        };
        proof {
            if amount_after_fees >= amount_in_max {
                assert(amount_in == amount_in_max);
                assert(amount_after_fees <= amount_remaining);
                lemma_fee_monotone(amount_in, amount_remaining, fee_rate);
            }
        }
        fee
    };

    Ok(SwapStepResult { sqrt_price_next, amount_in, amount_out, fee_amount })
}

/// `q == n / d` and `r == n % d` bound `n` from both sides.
proof fn lemma_quotient_bounds(n: int, d: int)
    requires
        n >= 0,
        d > 0,
    ensures
        d * (n / d) <= n,
        n % d != 0 ==> d * (n / d) < n,
        n < d * (n / d + 1),
        n / d >= 0,
{
    lemma_fundamental_div_mod(n, d);
    lemma_mod_pos_bound(n, d);
    assert(d * (n / d + 1) == d * (n / d) + d) by (nonlinear_arith);
    assert(n / d >= 0) by (nonlinear_arith)
        requires
            n == d * (n / d) + n % d,
            0 <= n % d < d,
            n >= 0,
            d > 0,
    ;
}

/// Any amount below the A input that takes the price from `current` down to `target`
/// falls short of it: `(m - 1) * target * current < L * (current - target) * 2^64`.
proof fn lemma_a_in_max_bound(target: u128, current: u128, liquidity: u128, m: u64)
    requires
        liquidity > 0,
        target < current,
        spec_amount_a_delta(target, current, liquidity, true) == Ok::<u64, TidePoolError>(m),
    ensures
        m == 0 || (m - 1) * (target * current) < liquidity * (current - target) * pow64(),
        target > 0,
{
    let d = target * current;
    let n = liquidity * (current - target) * pow64();
    assert(d > 0);
    assert(n >= 0) by (nonlinear_arith)
        requires
            n == liquidity * (current - target) * pow64(),
            liquidity > 0,
            current - target > 0,
            pow64() > 0,
    ;
    lemma_quotient_bounds(n, d);
    let q = n / d;
    if n % d != 0 {
        assert(m == q + 1);
        if m > 0 {
            assert((m - 1) * d <= q * d) by (nonlinear_arith)
                requires
                    m - 1 <= q,
                    d > 0,
            ;
            assert(q * d == d * q) by (nonlinear_arith);
        }
    } else {
        assert(m == q);
        if m > 0 {
            assert((m - 1) * d < q * d) by (nonlinear_arith)
                requires
                    m - 1 < q,
                    d > 0,
            ;
            assert(q * d == d * q) by (nonlinear_arith);
        }
    }
}

/// Any amount below the B input that takes the price from `current` up to `target` falls
/// short of it: `(m - 1) * 2^64 < L * (target - current)`.
proof fn lemma_b_in_max_bound(current: u128, target: u128, liquidity: u128, m: u64)
    requires
        liquidity > 0,
        current < target,
        spec_amount_b_delta(current, target, liquidity, true) == Ok::<u64, TidePoolError>(m),
    ensures
        m == 0 || (m - 1) * pow64() < liquidity * (target - current),
{
    let p = liquidity * (target - current);
    assert(p > 0) by (nonlinear_arith)
        requires
            p == liquidity * (target - current),
            liquidity > 0,
            target - current > 0,
    ;
    lemma_quotient_bounds(p, pow64());
    let f = p / pow64();
    if p % pow64() != 0 {
        assert(m == f + 1);
        if m > 0 {
            assert((m - 1) * pow64() <= f * pow64()) by (nonlinear_arith)
                requires
                    m - 1 <= f,
            ;
            assert(f * pow64() == pow64() * f) by (nonlinear_arith);
        }
    } else {
        assert(m == f);
        if m > 0 {
            assert((m - 1) * pow64() < f * pow64()) by (nonlinear_arith)
                requires
                    m - 1 < f,
            ;
            assert(f * pow64() == pow64() * f) by (nonlinear_arith);
        }
    }
}

/// Selling less A than it takes to reach `target` leaves the price at or above it.
proof fn lemma_a_up_stays_above(current: u128, liquidity: u128, amount: u64, target: u128)
    requires
        liquidity > 0,
        amount * (target * current) < liquidity * (current - target) * pow64(),
    ensures
        spec_next_sqrt_price_a_up(current, liquidity, amount, true) matches Ok(n) ==> n >= target,
{
    if amount > 0 {
        let den = liquidity * pow64() + amount * current;
        let num = liquidity * current * pow64();
        assert(target * den < num) by (nonlinear_arith)
            requires
                amount * (target * current) < liquidity * (current - target) * pow64(),
                den == liquidity * pow64() + amount * current,
                num == liquidity * current * pow64(),
        ;
        assert(den > 0) by (nonlinear_arith)
            requires
                liquidity > 0,
                amount >= 0,
                current >= 0,
                den == liquidity * pow64() + amount * current,
        ;
        assert(num >= 0) by (nonlinear_arith)
            requires
                num == liquidity * current * pow64(),
                liquidity >= 0,
                current >= 0,
        ;
        lemma_quotient_bounds(num, den);
        assert(target <= num / den) by (nonlinear_arith)
            requires
                target * den < num,
                num < den * (num / den + 1),
                den > 0,
        ;
    } else {
        assert(target < current) by (nonlinear_arith)
            requires
                0 < liquidity * (current - target) * pow64(),
                liquidity > 0,
        ;
    }
}

/// Buying less A with B than it takes to reach `target` leaves the price below it.
proof fn lemma_b_down_stays_below(current: u128, liquidity: u128, amount: u64, target: u128)
    requires
        liquidity > 0,
        amount * pow64() < liquidity * (target - current),
    ensures
        spec_next_sqrt_price_b_down(current, liquidity, amount, true) matches Ok(n) ==> n <= target,
{
    if amount > 0 {
        let num = amount * pow64();
        lemma_quotient_bounds(num, liquidity as int);
        assert(num / (liquidity as int) < target - current) by (nonlinear_arith)
            requires
                liquidity * (num / (liquidity as int)) <= num,
                num < liquidity * (target - current),
                liquidity > 0,
        ;
    } else {
        assert(current < target) by (nonlinear_arith)
            requires
                0 < liquidity * (target - current),
                liquidity > 0,
        ;
    }
}

/// The output that takes the price from `current` down to `target` is at most
/// `L * (current - target) / 2^64`.
proof fn lemma_b_out_max_bound(target: u128, current: u128, liquidity: u128, m: u64)
    requires
        liquidity > 0,
        target < current,
        spec_amount_b_delta(target, current, liquidity, false) == Ok::<u64, TidePoolError>(m),
    ensures
        m * pow64() <= liquidity * (current - target),
{
    let p = liquidity * (current - target);
    assert(p > 0) by (nonlinear_arith)
        requires p == liquidity * (current - target), liquidity > 0, current - target > 0;
    lemma_quotient_bounds(p, pow64());
    assert(m == p / pow64());
    assert(m * pow64() == pow64() * (p / pow64())) by (nonlinear_arith)
        requires m == p / pow64();
}

/// The output that takes the price from `current` up to `target` is at most
/// `L * (target - current) * 2^64 / (current * target)`.
proof fn lemma_a_out_max_bound(current: u128, target: u128, liquidity: u128, m: u64)
    requires
        liquidity > 0,
        current < target,
        spec_amount_a_delta(current, target, liquidity, false) == Ok::<u64, TidePoolError>(m),
    ensures
        m * (current * target) <= liquidity * (target - current) * pow64(),
        current > 0,
{
    let d = current * target;
    let n = liquidity * (target - current) * pow64();
    assert(d > 0);
    assert(n >= 0) by (nonlinear_arith)
        requires n == liquidity * (target - current) * pow64(), liquidity > 0, target - current > 0, pow64() > 0;
    lemma_quotient_bounds(n, d);
    assert(m == n / d);
    assert(m * d == d * (n / d)) by (nonlinear_arith)
        requires m == n / d;
}

/// Taking out less B than the way down to `target` holds leaves the price above it.
proof fn lemma_b_down_sub_stays_above(current: u128, liquidity: u128, amount: u64, target: u128)
    requires
        liquidity > 0,
        amount * pow64() < liquidity * (current - target),
    ensures
        spec_next_sqrt_price_b_down(current, liquidity, amount, false) matches Ok(n) ==> n >= target,
{
    if amount > 0 {
        let num = amount * pow64();
        lemma_quotient_bounds(num, liquidity as int);
        assert(num / (liquidity as int) < current - target) by (nonlinear_arith)
            requires
                liquidity * (num / (liquidity as int)) <= num,
                num < liquidity * (current - target),
                liquidity > 0,
        ;
    } else {
        assert(target < current) by (nonlinear_arith)
            requires 0 < liquidity * (current - target), liquidity > 0;
    }
}

/// Taking out less A than the way up to `target` holds leaves the price below it.
proof fn lemma_a_up_sub_stays_below(current: u128, liquidity: u128, amount: u64, target: u128)
    requires
        liquidity > 0,
        current > 0,
        amount * (current * target) < liquidity * (target - current) * pow64(),
    ensures
        spec_next_sqrt_price_a_up(current, liquidity, amount, false) matches Ok(n) ==> n <= target,
{
    assert(target > current) by (nonlinear_arith)
        requires amount * (current * target) < liquidity * (target - current) * pow64(), amount >= 0,
            current > 0, target >= 0, liquidity > 0;
    if amount > 0 {
        let den = liquidity * pow64() - amount * current;
        let num = liquidity * current * pow64();
        assert(num < target * den) by (nonlinear_arith)
            requires
                amount * (current * target) < liquidity * (target - current) * pow64(),
                den == liquidity * pow64() - amount * current,
                num == liquidity * current * pow64(),
        ;
        if den > 0 {
            assert(num >= 0) by (nonlinear_arith)
                requires num == liquidity * current * pow64(), liquidity >= 0, current >= 0;
            lemma_quotient_bounds(num, den);
            assert(num / den < target) by (nonlinear_arith)
                requires den * (num / den) <= num, num < target * den, den > 0;
        }
    }
}

/// An exact-output step never moves the price past its target.
proof fn lemma_exact_out_not_past_target(
    sqrt_price_current: u128,
    sqrt_price_target: u128,
    liquidity: u128,
    amount_remaining: u64,
    fee_rate: u16,
    a_to_b: bool,
)
    requires
        liquidity > 0,
    ensures
        spec_swap_step_exact_out(sqrt_price_current, sqrt_price_target, liquidity, amount_remaining, fee_rate, a_to_b)
            matches Ok(s) ==> (a_to_b ==> s.sqrt_price_next >= sqrt_price_target) && (!a_to_b
            ==> s.sqrt_price_next <= sqrt_price_target),
{
    match spec_amount_out_max(sqrt_price_current, sqrt_price_target, liquidity, a_to_b) {
        Err(_) => {},
        Ok(m) => {
            if amount_remaining < m {
                if a_to_b {
                    if sqrt_price_target < sqrt_price_current {
                        lemma_b_out_max_bound(sqrt_price_target, sqrt_price_current, liquidity, m);
                        assert(amount_remaining * pow64() < m * pow64()) by (nonlinear_arith)
                            requires amount_remaining < m;
                        lemma_b_down_sub_stays_above(sqrt_price_current, liquidity, amount_remaining, sqrt_price_target);
                    }
                } else {
                    if sqrt_price_current < sqrt_price_target {
                        lemma_a_out_max_bound(sqrt_price_current, sqrt_price_target, liquidity, m);
                        assert(amount_remaining * (sqrt_price_current * sqrt_price_target) < m * (sqrt_price_current
                            * sqrt_price_target)) by (nonlinear_arith)
                            requires amount_remaining < m, sqrt_price_current * sqrt_price_target > 0;
                        lemma_a_up_sub_stays_below(sqrt_price_current, liquidity, amount_remaining, sqrt_price_target);
                    }
                }
            }
        },
    }
}

/// Adding A never raises the price: `L * P / (L + amount * P)` rounded up is at most `P`.
proof fn lemma_a_up_add_not_above(current: u128, liquidity: u128, amount: u64)
    ensures
        spec_next_sqrt_price_a_up(current, liquidity, amount, true) matches Ok(n) ==> n <= current,
{
    if amount > 0 {
        let den = liquidity * pow64() + amount * current;
        let num = liquidity * current * pow64();
        if den > 0 {
            assert(num <= current * den) by (nonlinear_arith)
                requires den == liquidity * pow64() + amount * current, num == liquidity * current * pow64(),
                    amount >= 0, current >= 0;
            assert(num >= 0) by (nonlinear_arith)
                requires num == liquidity * current * pow64(), liquidity >= 0, current >= 0;
            lemma_fundamental_div_mod(num, den);
            lemma_mod_pos_bound(num, den);
            assert(num / den <= current) by (nonlinear_arith)
                requires num == den * (num / den) + num % den, 0 <= num % den < den, num <= current * den, den > 0;
            if num / den == current {
                assert(num % den == 0) by (nonlinear_arith)
                    requires num == den * (num / den) + num % den, num / den == current, num <= current * den,
                        num % den >= 0;
            }
        }
    }
}

/// Removing A never lowers the price: `L * P / (L - amount * P)` is at least `P`.
proof fn lemma_a_up_sub_not_below(current: u128, liquidity: u128, amount: u64)
    ensures
        spec_next_sqrt_price_a_up(current, liquidity, amount, false) matches Ok(n) ==> n >= current,
{
    if amount > 0 {
        let den = liquidity * pow64() - amount * current;
        let num = liquidity * current * pow64();
        if den > 0 {
            assert(num >= current * den) by (nonlinear_arith)
                requires den == liquidity * pow64() - amount * current, num == liquidity * current * pow64(),
                    amount >= 0, current >= 0;
            assert(num >= 0) by (nonlinear_arith)
                requires num == liquidity * current * pow64(), liquidity >= 0, current >= 0;
            lemma_fundamental_div_mod(num, den);
            lemma_mod_pos_bound(num, den);
            assert(num / den >= current) by (nonlinear_arith)
                requires num == den * (num / den) + num % den, 0 <= num % den < den, num >= current * den, den > 0;
        }
    }
}

/// A quotient of non-negative values by a positive one is non-negative.
proof fn lemma_b_down_moves(current: u128, liquidity: u128, amount: u64, add: bool)
    ensures
        spec_next_sqrt_price_b_down(current, liquidity, amount, add) matches Ok(n) ==> (add ==> n >= current) && (
        !add ==> n <= current),
{
    if amount > 0 && liquidity > 0 {
        vstd::arithmetic::div_mod::lemma_div_pos_is_pos(amount * pow64(), liquidity as int);
    }
}

/// A swap step whose target lies on the side the price moves to ends between the current
/// price and the target, in either mode.
pub proof fn lemma_step_between_current_and_target(
    sqrt_price_current: u128,
    sqrt_price_target: u128,
    liquidity: u128,
    amount_remaining: u64,
    fee_rate: u16,
    amount_specified_is_input: bool,
    a_to_b: bool,
)
    requires
        a_to_b ==> sqrt_price_target <= sqrt_price_current,
        !a_to_b ==> sqrt_price_current <= sqrt_price_target,
    ensures
        spec_swap_step(
            sqrt_price_current,
            sqrt_price_target,
            liquidity,
            amount_remaining,
            fee_rate,
            amount_specified_is_input,
            a_to_b,
        ) matches Ok(s) ==> (a_to_b ==> sqrt_price_target <= s.sqrt_price_next <= sqrt_price_current) && (!a_to_b
            ==> sqrt_price_current <= s.sqrt_price_next <= sqrt_price_target),
{
    lemma_step_not_past_target(
        sqrt_price_current,
        sqrt_price_target,
        liquidity,
        amount_remaining,
        fee_rate,
        amount_specified_is_input,
        a_to_b,
    );
    let amount_after_fees: u64 = (amount_remaining - spec_fee_amount(amount_remaining, fee_rate)) as u64;
    lemma_a_up_add_not_above(sqrt_price_current, liquidity, amount_after_fees);
    lemma_b_down_moves(sqrt_price_current, liquidity, amount_after_fees, true);
    lemma_a_up_sub_not_below(sqrt_price_current, liquidity, amount_remaining);
    lemma_b_down_moves(sqrt_price_current, liquidity, amount_remaining, false);
}

/// A swap step never moves the price past its target: selling A it ends at or above the
/// target, selling B at or below it.
pub proof fn lemma_step_not_past_target(
    sqrt_price_current: u128,
    sqrt_price_target: u128,
    liquidity: u128,
    amount_remaining: u64,
    fee_rate: u16,
    amount_specified_is_input: bool,
    a_to_b: bool,
)
    ensures
        spec_swap_step(
            sqrt_price_current,
            sqrt_price_target,
            liquidity,
            amount_remaining,
            fee_rate,
            amount_specified_is_input,
            a_to_b,
        ) matches Ok(s) ==> (a_to_b ==> s.sqrt_price_next >= sqrt_price_target) && (!a_to_b
            ==> s.sqrt_price_next <= sqrt_price_target),
{
    if liquidity > 0 && !amount_specified_is_input {
        lemma_exact_out_not_past_target(sqrt_price_current, sqrt_price_target, liquidity, amount_remaining, fee_rate, a_to_b);
    } else if liquidity > 0 {
        let amount_after_fees: u64 = (amount_remaining - spec_fee_amount(amount_remaining, fee_rate)) as u64;
        match spec_amount_in_max(sqrt_price_current, sqrt_price_target, liquidity, a_to_b) {
            Err(_) => {},
            Ok(m) => {
                if amount_after_fees < m {
                    if a_to_b {
                        if sqrt_price_target < sqrt_price_current {
                            lemma_a_in_max_bound(sqrt_price_target, sqrt_price_current, liquidity, m);
                            assert(amount_after_fees * (sqrt_price_target * sqrt_price_current) <= (m - 1) * (
                            sqrt_price_target * sqrt_price_current)) by (nonlinear_arith)
                                requires
                                    amount_after_fees <= m - 1,
                                    sqrt_price_target * sqrt_price_current >= 0,
                            ;
                            lemma_a_up_stays_above(sqrt_price_current, liquidity, amount_after_fees, sqrt_price_target);
                        }
                    } else {
                        if sqrt_price_current < sqrt_price_target {
                            lemma_b_in_max_bound(sqrt_price_current, sqrt_price_target, liquidity, m);
                            assert(amount_after_fees * pow64() <= (m - 1) * pow64()) by (nonlinear_arith)
                                requires
                                    amount_after_fees <= m - 1,
                            ;
                            lemma_b_down_stays_below(sqrt_price_current, liquidity, amount_after_fees, sqrt_price_target);
                        }
                    }
                }
            },
        }
    }
}

} // verus!
