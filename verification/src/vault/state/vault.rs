use vstd::prelude::*;

use vstd::arithmetic::div_mod::{
    lemma_div_by_self, lemma_div_multiples_vanish, lemma_fundamental_div_mod, lemma_mod_pos_bound,
    lemma_multiply_divide_le,
};

use crate::clmm::math::sqrt_price_math::{lemma_low_u64, low_u64};

verus! {

/// A vault that manages one CLMM position on behalf of its share holders.
/// Account addresses are held as their 32 raw bytes.
#[derive(Debug, Clone, Copy, PartialEq, Eq)]
pub struct Vault {
    pub authority: [u8; 32],
    pub keeper: [u8; 32],
    pub pool: [u8; 32],
    pub share_mint: [u8; 32],
    pub token_vault_a: [u8; 32],
    pub token_vault_b: [u8; 32],
    /// Currently active CLMM position
    pub active_position: [u8; 32],
    pub active_tick_lower: i32,
    pub active_tick_upper: i32,
    pub has_active_position: bool,
    /// Strategy configuration
    pub rebalance_threshold_bps: u16,
    pub tick_range_multiplier: u8,
    pub max_slippage_bps: u16,
    /// Accounting
    pub total_shares: u64,
    pub total_value_a: u64,
    pub total_value_b: u64,
    pub total_fees_earned_a: u64,
    pub total_fees_earned_b: u64,
    /// Operational tracking
    pub last_rebalance_slot: u64,
    pub last_compound_slot: u64,
    pub rebalance_count: u32,
    /// Fee configuration
    pub performance_fee_bps: u16,
    pub management_fee_bps: u16,
    pub paused: bool,
    pub bump: u8,
}

/// `r` is the integer square root of `n`: the largest integer whose square is at most `n`.
pub open spec fn is_isqrt(r: int, n: int) -> bool {
    0 <= r && r * r <= n && n < (r + 1) * (r + 1)
}

/// Shares worth `amount` of a side that holds `total_value` against `total_shares`,
/// rounded down; nothing when the side is empty.
pub open spec fn spec_pro_rata(amount: u64, total_shares: u64, total_value: u64) -> int {
    if total_value > 0 {
        (amount * total_shares) / (total_value as int)
    } else {
        0
    }
}

/// The smaller of two integers.
pub open spec fn min_int(a: int, b: int) -> int {
    if a <= b {
        a
    } else {
        b
    }
}

/// Shares minted for a deposit into a vault that already has shares: the smaller of
/// the two pro-rata amounts, cut to 64 bits.
pub open spec fn spec_pro_rata_shares(v: Vault, amount_a: u64, amount_b: u64) -> u64 {
    low_u64(
        min_int(
            spec_pro_rata(amount_a, v.total_shares, v.total_value_a),
            spec_pro_rata(amount_b, v.total_shares, v.total_value_b),
        ),
    )
}

/// The integer square root of `n >= 0` (see `lemma_isqrt_exists`).
pub open spec fn spec_isqrt(n: int) -> int {
    choose|r: int| is_isqrt(r, n)
}

/// Shares minted for a deposit of `(amount_a, amount_b)`: on the first deposit the
/// integer square root of `amount_a * amount_b` (or the larger amount when one of them
/// is zero), afterwards the smaller pro-rata amount.
pub open spec fn spec_shares_to_mint(v: Vault, amount_a: u64, amount_b: u64) -> u64 {
    if v.total_shares == 0 {
        if amount_a * amount_b == 0 {
            if amount_a >= amount_b {
                amount_a
            } else {
                amount_b
            }
        } else {
            spec_isqrt(amount_a * amount_b) as u64
        }
    } else {
        spec_pro_rata_shares(v, amount_a, amount_b)
    }
}

/// What burning `shares` pays out: their pro-rata part of each side, rounded down and
/// cut to 64 bits; nothing when the vault has no shares.
pub open spec fn spec_withdrawal_amounts(v: Vault, shares: u64) -> (u64, u64) {
    if v.total_shares == 0 {
        (0, 0)
    } else {
        (
            low_u64((shares * v.total_value_a) / (v.total_shares as int)),
            low_u64((shares * v.total_value_b) / (v.total_shares as int)),
        )
    }
}

/// The vault after a deposit of `(amount_a, amount_b)` that minted `shares`.
pub open spec fn spec_after_deposit(v: Vault, amount_a: u64, amount_b: u64, shares: u64) -> Vault {
    Vault {
        total_shares: (v.total_shares + shares) as u64,
        total_value_a: (v.total_value_a + amount_a) as u64,
        total_value_b: (v.total_value_b + amount_b) as u64,
        ..v
    }
}

proof fn lemma_div_bounds(n: int, x: int)
    requires
        x > 0,
        n >= 0,
    ensures
        x * (n / x) <= n,
        n < x * (n / x) + x,
{
    lemma_fundamental_div_mod(n, x);
    lemma_mod_pos_bound(n, x);
}

/// A Newton step never falls below a root: with `s * s <= n`, `x + n / x >= 2 * s`.
proof fn lemma_newton_step_above_root(n: int, x: int, s: int)
    requires
        x > 0,
        n >= 0,
        s >= 0,
        s * s <= n,
    ensures
        x + n / x >= 2 * s,
{
    let q = n / x;
    lemma_div_bounds(n, x);
    if x + q < 2 * s {
        assert(x * q + x <= x * (2 * s - x)) by (nonlinear_arith)
            requires
                x > 0,
                q + 1 <= 2 * s - x,
        ;
        assert(x * (2 * s - x) <= s * s) by (nonlinear_arith);
    }
}

/// For `1 <= x <= n`, `x + n / x <= n + 1`.
proof fn lemma_newton_sum_bound(n: int, x: int)
    requires
        1 <= x <= n,
    ensures
        x + n / x <= n + 1,
{
    assert(n <= x * (n + 1 - x)) by (nonlinear_arith)
        requires
            1 <= x <= n,
    ;
    lemma_multiply_divide_le(n, x, n + 1 - x);
}

/// The integer square root is unique.
pub proof fn lemma_isqrt_unique(r1: int, r2: int, n: int)
    requires
        is_isqrt(r1, n),
        is_isqrt(r2, n),
    ensures
        r1 == r2,
{
    if r1 < r2 {
        assert((r1 + 1) * (r1 + 1) <= r2 * r2) by (nonlinear_arith)
            requires
                0 <= r1 < r2,
        ;
    } else if r2 < r1 {
        assert((r2 + 1) * (r2 + 1) <= r1 * r1) by (nonlinear_arith)
            requires
                0 <= r2 < r1,
        ;
    }
}

/// Every `n >= 0` has an integer square root, so `spec_isqrt(n)` is one.
pub proof fn lemma_isqrt_exists(n: int)
    requires
        n >= 0,
    ensures
        is_isqrt(spec_isqrt(n), n),
    decreases n,
{
    if n == 0 {
        assert(is_isqrt(0, 0)) by (nonlinear_arith);
    } else {
        lemma_isqrt_exists(n - 1);
        let r0 = spec_isqrt(n - 1);
        if (r0 + 1) * (r0 + 1) <= n {
            assert(is_isqrt(r0 + 1, n)) by (nonlinear_arith)
                requires
                    0 <= r0,
                    n - 1 < (r0 + 1) * (r0 + 1),
                    (r0 + 1) * (r0 + 1) <= n,
            ;
        } else {
            assert(is_isqrt(r0, n));
        }
    }
}

/// Integer square root by Newton's method, rounded down.
pub fn integer_sqrt(n: u128) -> (r: u128)
    requires
        n < u128::MAX,
    ensures
        is_isqrt(r as int, n as int),
        r == spec_isqrt(n as int),
{
    if n == 0 {
        proof {
            assert(is_isqrt(0, 0)) by (nonlinear_arith);
            lemma_isqrt_exists(0);
            lemma_isqrt_unique(0, spec_isqrt(0), 0);
        }
        return 0;
    }
    let mut x = n;
    proof {
        lemma_div_by_self(n as int);
        assert(n < (n + 1) * (n + 1)) by (nonlinear_arith)
            requires
                n >= 1,
        ;
    }
    let mut y = (x + 1) / 2;
    while y < x
        invariant
            1 <= x <= n,
            n < u128::MAX,
            y == (x + n / x) / 2,
            n < (x + 1) * (x + 1),
        decreases x,
    {
        proof {
            // the next estimate stays at or above the root
            lemma_newton_step_above_root(n as int, x as int, 1);
            if (y + 1) * (y + 1) <= n {
                lemma_newton_step_above_root(n as int, x as int, y + 1);
            }
        }
        x = y;
        proof {
            lemma_newton_sum_bound(n as int, x as int);
        }
        y = (x + n / x) / 2;
    }
    proof {
        let q = n as int / x as int;
        lemma_div_bounds(n as int, x as int);
        assert(x * x <= x * q) by (nonlinear_arith)
            requires
                x >= 1,
                q >= x,
        ;
        lemma_isqrt_exists(n as int);
        lemma_isqrt_unique(x as int, spec_isqrt(n as int), n as int);
    }
    x
}

proof fn lemma_low_u64_small(x: int)
    requires
        0 <= x,
    ensures
        low_u64(x) <= x,
        x <= u64::MAX ==> low_u64(x) == x,
{
}

/// `shares * total / total_shares` is at most `total` when `shares <= total_shares`.
proof fn lemma_part_within_total(shares: u64, total: u64, total_shares: u64)
    requires
        0 < total_shares,
        shares <= total_shares,
    ensures
        (shares * total) / (total_shares as int) <= total,
        0 <= (shares * total) / (total_shares as int),
{
    assert(shares * total <= total_shares * total) by (nonlinear_arith)
        requires
            shares <= total_shares,
    ;
    lemma_multiply_divide_le(shares * total, total_shares as int, total as int);
    assert(0 <= shares * total) by (nonlinear_arith);
    vstd::arithmetic::div_mod::lemma_div_pos_is_pos(shares * total, total_shares as int);
}

/// Burning no more than all shares never pays out more than the vault holds.
pub proof fn lemma_withdrawal_within_totals(v: Vault, shares: u64)
    requires
        shares <= v.total_shares,
    ensures
        spec_withdrawal_amounts(v, shares).0 <= v.total_value_a,
        spec_withdrawal_amounts(v, shares).1 <= v.total_value_b,
{
    if v.total_shares > 0 {
        lemma_part_within_total(shares, v.total_value_a, v.total_shares);
        lemma_part_within_total(shares, v.total_value_b, v.total_shares);
        lemma_low_u64_small((shares * v.total_value_a) / (v.total_shares as int));
        lemma_low_u64_small((shares * v.total_value_b) / (v.total_shares as int));
    }
}

/// Burning every share pays out everything the vault holds.
pub proof fn lemma_withdraw_all_shares(v: Vault)
    requires
        v.total_shares > 0,
    ensures
        spec_withdrawal_amounts(v, v.total_shares) == (v.total_value_a, v.total_value_b),
{
    lemma_div_multiples_vanish(v.total_value_a as int, v.total_shares as int);
    lemma_div_multiples_vanish(v.total_value_b as int, v.total_shares as int);
    lemma_low_u64_small(v.total_value_a as int);
    lemma_low_u64_small(v.total_value_b as int);
}

/// Minted shares never claim more of a side than the deposit added to it.
proof fn lemma_side_not_diluted(
    amount: u64,
    total_shares: u64,
    total_value: u64,
    minted: int,
)
    requires
        0 < total_shares,
        0 <= minted <= spec_pro_rata(amount, total_shares, total_value),
        total_value > 0 || minted == 0,
    ensures
        (minted * (total_value + amount)) / (total_shares + minted) <= amount,
{
    if total_value > 0 {
        let d = total_value as int;
        lemma_div_bounds(amount * total_shares, d);
        assert(minted * d <= amount * total_shares) by (nonlinear_arith)
            requires
                minted <= (amount * total_shares) / d,
                d * ((amount * total_shares) / d) <= amount * total_shares,
                d > 0,
        ;
        assert(minted * (d + amount) <= amount * (total_shares + minted)) by (nonlinear_arith)
            requires
                minted * d <= amount * total_shares,
        ;
        lemma_multiply_divide_le(minted * (d + amount), total_shares + minted, amount as int);
    } else {
        assert(minted * (total_value + amount) == 0) by (nonlinear_arith)
            requires
                minted == 0,
        ;
    }
}

/// A deposit never dilutes: burning the shares it minted pays out no more than was
/// deposited on either side, and on the first deposit into an empty vault exactly that.
pub proof fn lemma_deposit_does_not_dilute(v: Vault, amount_a: u64, amount_b: u64)
    requires
        v.total_shares > 0 || (v.total_value_a == 0 && v.total_value_b == 0),
        v.total_shares + spec_shares_to_mint(v, amount_a, amount_b) <= u64::MAX,
        v.total_value_a + amount_a <= u64::MAX,
        v.total_value_b + amount_b <= u64::MAX,
    ensures
        ({
            let shares = spec_shares_to_mint(v, amount_a, amount_b);
            let after = spec_after_deposit(v, amount_a, amount_b, shares);
            &&& spec_withdrawal_amounts(after, shares).0 <= amount_a
            &&& spec_withdrawal_amounts(after, shares).1 <= amount_b
            &&& v.total_shares == 0 && shares > 0 ==> spec_withdrawal_amounts(after, shares) == (amount_a, amount_b)
        }),
{
    let shares = spec_shares_to_mint(v, amount_a, amount_b);
    let after = spec_after_deposit(v, amount_a, amount_b, shares);
    if v.total_shares == 0 {
        if shares > 0 {
            lemma_div_multiples_vanish(amount_a as int, shares as int);
            lemma_div_multiples_vanish(amount_b as int, shares as int);
            lemma_low_u64_small(amount_a as int);
            lemma_low_u64_small(amount_b as int);
        }
    } else {
        let pa = spec_pro_rata(amount_a, v.total_shares, v.total_value_a);
        let pb = spec_pro_rata(amount_b, v.total_shares, v.total_value_b);
        assert(0 <= pa && 0 <= pb) by {
            assert(0 <= amount_a * v.total_shares) by (nonlinear_arith);
            assert(0 <= amount_b * v.total_shares) by (nonlinear_arith);
            if v.total_value_a > 0 {
                vstd::arithmetic::div_mod::lemma_div_pos_is_pos(amount_a * v.total_shares, v.total_value_a as int);
            }
            if v.total_value_b > 0 {
                vstd::arithmetic::div_mod::lemma_div_pos_is_pos(amount_b * v.total_shares, v.total_value_b as int);
            }
        }
        lemma_low_u64_small(min_int(pa, pb));
        lemma_side_not_diluted(amount_a, v.total_shares, v.total_value_a, shares as int);
        lemma_side_not_diluted(amount_b, v.total_shares, v.total_value_b, shares as int);
        let wa = (shares * after.total_value_a) / (after.total_shares as int);
        let wb = (shares * after.total_value_b) / (after.total_shares as int);
        assert(0 <= wa && 0 <= wb) by {
            assert(0 <= shares * after.total_value_a) by (nonlinear_arith);
            assert(0 <= shares * after.total_value_b) by (nonlinear_arith);
            vstd::arithmetic::div_mod::lemma_div_pos_is_pos(shares * after.total_value_a, after.total_shares as int);
            vstd::arithmetic::div_mod::lemma_div_pos_is_pos(shares * after.total_value_b, after.total_shares as int);
        }
        lemma_low_u64_small(wa);
        lemma_low_u64_small(wb);
    }
}

/// A deposit into a vault that has shares never lowers what a share holds of either
/// side: `(A + a) / (T + s) >= A / T`, cross-multiplied.
pub proof fn lemma_deposit_keeps_share_value(v: Vault, amount_a: u64, amount_b: u64)
    requires
        v.total_shares > 0,
    ensures
        ({
            let s = spec_shares_to_mint(v, amount_a, amount_b);
            &&& (v.total_value_a + amount_a) * v.total_shares >= v.total_value_a * (v.total_shares + s)
            &&& (v.total_value_b + amount_b) * v.total_shares >= v.total_value_b * (v.total_shares + s)
        }),
{
    let s = spec_shares_to_mint(v, amount_a, amount_b);
    let t = v.total_shares as int;
    let pa = spec_pro_rata(amount_a, v.total_shares, v.total_value_a);
    let pb = spec_pro_rata(amount_b, v.total_shares, v.total_value_b);
    assert(0 <= pa && 0 <= pb) by {
        assert(0 <= amount_a * v.total_shares) by (nonlinear_arith);
        assert(0 <= amount_b * v.total_shares) by (nonlinear_arith);
        if v.total_value_a > 0 {
            vstd::arithmetic::div_mod::lemma_div_pos_is_pos(amount_a * v.total_shares, v.total_value_a as int);
        }
        if v.total_value_b > 0 {
            vstd::arithmetic::div_mod::lemma_div_pos_is_pos(amount_b * v.total_shares, v.total_value_b as int);
        }
    }
    lemma_low_u64_small(min_int(pa, pb));
    lemma_side_keeps_value(amount_a, v.total_shares, v.total_value_a, s as int);
    lemma_side_keeps_value(amount_b, v.total_shares, v.total_value_b, s as int);
}

/// One side of `lemma_deposit_keeps_share_value`.
proof fn lemma_side_keeps_value(amount: u64, total_shares: u64, total_value: u64, minted: int)
    requires
        0 < total_shares,
        0 <= minted <= spec_pro_rata(amount, total_shares, total_value),
    ensures
        (total_value + amount) * total_shares >= total_value * (total_shares + minted),
{
    if total_value > 0 {
        let d = total_value as int;
        lemma_div_bounds(amount * total_shares, d);
        assert((total_value + amount) * total_shares >= total_value * (total_shares + minted)) by (nonlinear_arith)
            requires
                minted <= (amount * total_shares) / d,
                d * ((amount * total_shares) / d) <= amount * total_shares,
                d == total_value,
                d > 0,
        ;
    } else {
        assert((total_value + amount) * total_shares >= total_value * (total_shares + minted)) by (nonlinear_arith)
            requires
                total_value == 0,
                total_shares > 0,
                amount >= 0,
        ;
    }
}

/// Burning shares never lowers what each remaining share holds of either side:
/// `(A - a) / (T - s) >= A / T`, cross-multiplied.
pub proof fn lemma_withdraw_keeps_share_value(v: Vault, shares: u64)
    requires
        v.total_shares > 0,
        shares <= v.total_shares,
    ensures
        ({
            let (a, b) = spec_withdrawal_amounts(v, shares);
            &&& (v.total_value_a - a) * v.total_shares >= v.total_value_a * (v.total_shares - shares)
            &&& (v.total_value_b - b) * v.total_shares >= v.total_value_b * (v.total_shares - shares)
        }),
{
    let t = v.total_shares as int;
    lemma_part_within_total(shares, v.total_value_a, v.total_shares);
    lemma_part_within_total(shares, v.total_value_b, v.total_shares);
    let qa = (shares * v.total_value_a) / t;
    let qb = (shares * v.total_value_b) / t;
    lemma_low_u64_small(qa);
    lemma_low_u64_small(qb);
    lemma_div_bounds(shares * v.total_value_a, t);
    lemma_div_bounds(shares * v.total_value_b, t);
    let (a, b) = spec_withdrawal_amounts(v, shares);
    assert((v.total_value_a - a) * t >= v.total_value_a * (t - shares)) by (nonlinear_arith)
        requires
            a <= qa,
            t * qa <= shares * v.total_value_a,
            t > 0,
    ;
    assert((v.total_value_b - b) * t >= v.total_value_b * (t - shares)) by (nonlinear_arith)
        requires
            b <= qb,
            t * qb <= shares * v.total_value_b,
            t > 0,
    ;
}

impl Vault {
    /// Shares to mint for a deposit of `(amount_a, amount_b)`. The first deposit gets
    /// `sqrt(amount_a * amount_b)` (or the larger amount when the product is zero);
    /// later ones the smaller of the two pro-rata amounts, so that existing holders are
    /// never diluted.
    pub fn calculate_shares_to_mint(&self, amount_a: u64, amount_b: u64) -> (r: u64)
        ensures
            r == spec_shares_to_mint(*self, amount_a, amount_b),
    {
        if self.total_shares == 0 {
            // First deposit: shares = sqrt(amount_a * amount_b) for balanced representation
            proof {
                assert((amount_a as u128) * (amount_b as u128) <= 0xffff_ffff_ffff_fffe_0000_0000_0000_0001u128)
                    by (nonlinear_arith);
            }
            let product = (amount_a as u128) * (amount_b as u128);
            if product == 0 {
                return if amount_a >= amount_b {
                    amount_a
                } else {
                    amount_b
                };
            }
            let root = integer_sqrt(product);
            proof {
                if root > u64::MAX {
                    assert(root * root > product) by (nonlinear_arith)
                        requires
                            root > u64::MAX,
                            product <= 0xffff_ffff_ffff_fffe_0000_0000_0000_0001u128,
                    ;
                }
            }
            root as u64
        } else {
            // Pro-rata shares based on existing vault composition
            proof {
                assert((amount_a as u128) * (self.total_shares as u128) <= u128::MAX) by (nonlinear_arith);
                assert((amount_b as u128) * (self.total_shares as u128) <= u128::MAX) by (nonlinear_arith);
            }
            let share_a = if self.total_value_a > 0 {
                (amount_a as u128) * (self.total_shares as u128) / (self.total_value_a as u128)
            } else {
                0
            };
            let share_b = if self.total_value_b > 0 {
                (amount_b as u128) * (self.total_shares as u128) / (self.total_value_b as u128)
            } else {
                0
            };
            // Take the minimum to prevent dilution
            let least = if share_a <= share_b {
                share_a
            } else {
                share_b
            };
            proof {
                lemma_low_u64(least);
            }
            least as u64
        }
    }

    /// Token amounts paid out for burning `shares`.
    pub fn calculate_withdrawal_amounts(&self, shares: u64) -> (r: (u64, u64))
        ensures
            r == spec_withdrawal_amounts(*self, shares),
    {
        if self.total_shares == 0 {
            return (0, 0);
        }
        proof {
            assert((shares as u128) * (self.total_value_a as u128) <= u128::MAX) by (nonlinear_arith);
            assert((shares as u128) * (self.total_value_b as u128) <= u128::MAX) by (nonlinear_arith);
        }
        let amount_a = (shares as u128) * (self.total_value_a as u128) / (self.total_shares as u128);
        let amount_b = (shares as u128) * (self.total_value_b as u128) / (self.total_shares as u128);
        proof {
            lemma_low_u64(amount_a);
            lemma_low_u64(amount_b);
        }
        (amount_a as u64, amount_b as u64)
    }
}

} // verus!
