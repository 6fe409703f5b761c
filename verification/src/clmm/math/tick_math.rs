use vstd::prelude::*;

use crate::clmm::errors::TidePoolError;
use crate::clmm::math::u256::{pow128, pow64, U256};
use crate::clmm::state::tick::{MAX_TICK, MIN_TICK};

verus! {

/// Minimum sqrt price (at MIN_TICK)
pub const MIN_SQRT_PRICE: u128 = 4_295_048_016;
/// Maximum sqrt price (at MAX_TICK)
pub const MAX_SQRT_PRICE: u128 = 79_226_673_515_401_279_992_447_579_055;
/// Bits of `|tick|` that carry a factor: `MAX_TICK < 2^19`.
pub const NUM_FACTORS: usize = 19;

/// `2^16`: the relative gap between neighbouring tick ratios is above `1 / 2^16`.
pub open spec fn pow16() -> int {
    65536
}

/// `u128::MAX` as an integer: the numerator that inverts a ratio for negative ticks.
pub open spec fn max_u128() -> int {
    0xffff_ffff_ffff_ffff_ffff_ffff_ffff_ffffint
}

/// `floor(sqrt(1.0001)^(2^i) * 2^64)`: the factor applied for bit `i` of `|tick|`.
pub open spec fn spec_sqrt_factor(i: int) -> int {
    if i == 0 {
        18447666387855959850
    } else if i == 1 {
        18448588748116922571
    } else if i == 2 {
        18450433606991734263
    } else if i == 3 {
        18454123878217468680
    } else if i == 4 {
        18461506635090006701
    } else if i == 5 {
        18476281010653910144
    } else if i == 6 {
        18505865242158250041
    } else if i == 7 {
        18565175891880433522
    } else if i == 8 {
        18684368066214940582
    } else if i == 9 {
        18925053041275764671
    } else if i == 10 {
        19415764168677886926
    } else if i == 11 {
        20435687552633177494
    } else if i == 12 {
        22639080592224303007
    } else if i == 13 {
        27784196929998399742
    } else if i == 14 {
        41848122137994986128
    } else if i == 15 {
        94936283578220370716
    } else if i == 16 {
        488590176327622479860
    } else if i == 17 {
        12941056668319229769860
    } else if i == 18 {
        9078618265828848800676189
    } else {
        0
    }
}

/// Exec twin of `spec_sqrt_factor`.
fn sqrt_factor(i: usize) -> (c: u128)
    requires
        i < NUM_FACTORS,
    ensures
        c == spec_sqrt_factor(i as int),
{
    if i == 0 {
        18447666387855959850
    } else if i == 1 {
        18448588748116922571
    } else if i == 2 {
        18450433606991734263
    } else if i == 3 {
        18454123878217468680
    } else if i == 4 {
        18461506635090006701
    } else if i == 5 {
        18476281010653910144
    } else if i == 6 {
        18505865242158250041
    } else if i == 7 {
        18565175891880433522
    } else if i == 8 {
        18684368066214940582
    } else if i == 9 {
        18925053041275764671
    } else if i == 10 {
        19415764168677886926
    } else if i == 11 {
        20435687552633177494
    } else if i == 12 {
        22639080592224303007
    } else if i == 13 {
        27784196929998399742
    } else if i == 14 {
        41848122137994986128
    } else if i == 15 {
        94936283578220370716
    } else if i == 16 {
        488590176327622479860
    } else if i == 17 {
        12941056668319229769860
    } else if i == 18 {
        9078618265828848800676189
    } else {
        9078618265828848800676189
    }
}


/// One Q64.64 multiplication, rounded down: `floor(r * c / 2^64)`.
pub open spec fn q64_mul(r: int, c: int) -> int {
    (r * c) / pow64()
}

/// Applies to `r`, in increasing order, the factor of every set bit of `bits`,
/// bit 0 of `bits` standing for factor `i`.
pub open spec fn apply_factors(bits: nat, i: nat, r: int) -> int
    decreases 19 - i,
{
    if i >= 19 {
        r
    } else {
        let next = if bits % 2 == 1 {
            q64_mul(r, spec_sqrt_factor(i as int))
        } else {
            r
        };
        apply_factors(bits / 2, i + 1, next)
    }
}

/// `sqrt(1.0001)^|tick|` in Q64.64, as the table of factors computes it.
pub open spec fn tick_ratio(abs_tick: nat) -> int {
    apply_factors(abs_tick, 0, pow64())
}

/// The Q64.64 sqrt price of a tick: the tick ratio, inverted for negative ticks.
pub open spec fn sqrt_price_at_tick(tick: int) -> int {
    if tick >= 0 {
        tick_ratio(tick as nat)
    } else {
        max_u128() / tick_ratio((-tick) as nat)
    }
}

/// `t` is the tick of `sqrt_price`: the largest supported tick whose price is not above it.
pub open spec fn is_tick_of_price(t: int, sqrt_price: int) -> bool {
    &&& MIN_TICK <= t <= MAX_TICK
    &&& sqrt_price_at_tick(t) <= sqrt_price
    &&& (t == MAX_TICK || sqrt_price < sqrt_price_at_tick(t + 1))
}

/// The ratio with each of the first `i` factors applied: the largest value the
/// computation can hold after `i` bits.
pub open spec fn full_ratio(i: nat) -> int
    decreases i,
{
    if i == 0 {
        pow64()
    } else {
        q64_mul(full_ratio((i - 1) as nat), spec_sqrt_factor(i - 1))
    }
}

/// `2^(19 - i)`: the number of bit patterns left above factor `i`.
pub open spec fn span(i: nat) -> nat
    decreases 19 - i,
{
    if i >= 19 {
        1
    } else {
        2 * span(i + 1)
    }
}

proof fn lemma_span_values()
    ensures
        span(0) == 524288,
        span(18) == 2,
        span(19) == 1,
{
    assert(span(19) == 1);
    assert(span(18) == 2);
    assert(span(17) == 4);
    assert(span(16) == 8);
    assert(span(15) == 16);
    assert(span(14) == 32);
    assert(span(13) == 64);
    assert(span(12) == 128);
    assert(span(11) == 256);
    assert(span(10) == 512);
    assert(span(9) == 1024);
    assert(span(8) == 2048);
    assert(span(7) == 4096);
    assert(span(6) == 8192);
    assert(span(5) == 16384);
    assert(span(4) == 32768);
    assert(span(3) == 65536);
    assert(span(2) == 131072);
    assert(span(1) == 262144);
    assert(span(0) == 524288);
}

/// The values of `full_ratio`, the ratio with every factor applied in turn.
proof fn lemma_full_ratio_values()
    ensures
        full_ratio(0) == 18446744073709551616,
        full_ratio(1) == 18447666387855959850,
        full_ratio(2) == 18449511154494745445,
        full_ratio(3) == 18453201241220755938,
        full_ratio(4) == 18460583628983133363,
        full_ratio(5) == 18475357265883657901,
        full_ratio(6) == 18504940018287354204,
        full_ratio(7) == 18564247702699447978,
        full_ratio(8) == 18683433917872171721,
        full_ratio(9) == 18924106859586736216,
        full_ratio(10) == 19414793453272501758,
        full_ratio(11) == 20434665844882988552,
        full_ratio(12) == 22637948723084169904,
        full_ratio(13) == 27782807824333956489,
        full_ratio(14) == 41846029888805467973,
        full_ratio(15) == 94931537120022858054,
        full_ratio(16) == 488565748650866588535,
        full_ratio(17) == 12940409664010732578654,
        full_ratio(18) == 9078164368957539028420606,
        full_ratio(19) == 4467844760619635881934135417749,
{
    assert(full_ratio(0) == 18446744073709551616);
    assert(full_ratio(1) == 18447666387855959850);
    assert(full_ratio(2) == 18449511154494745445);
    assert(full_ratio(3) == 18453201241220755938);
    assert(full_ratio(4) == 18460583628983133363);
    assert(full_ratio(5) == 18475357265883657901);
    assert(full_ratio(6) == 18504940018287354204);
    assert(full_ratio(7) == 18564247702699447978);
    assert(full_ratio(8) == 18683433917872171721);
    assert(full_ratio(9) == 18924106859586736216);
    assert(full_ratio(10) == 19414793453272501758);
    assert(full_ratio(11) == 20434665844882988552);
    assert(full_ratio(12) == 22637948723084169904);
    assert(full_ratio(13) == 27782807824333956489);
    assert(full_ratio(14) == 41846029888805467973);
    assert(full_ratio(15) == 94931537120022858054);
    assert(full_ratio(16) == 488565748650866588535);
    assert(full_ratio(17) == 12940409664010732578654);
    assert(full_ratio(18) == 9078164368957539028420606);
    assert(full_ratio(19) == 4467844760619635881934135417749);
}

/// The facts about factor `i` that the proofs below use.
proof fn lemma_factor_facts(i: nat)
    requires
        i < 19,
    ensures
        spec_sqrt_factor(i as int) > pow64(),
        full_ratio(i) >= pow64(),
        full_ratio(i) <= full_ratio(i + 1),
        full_ratio(i) * spec_sqrt_factor(i as int) < pow128() * pow64(),
        pow16() * (spec_sqrt_factor(i as int) - full_ratio(i)) >= spec_sqrt_factor(i as int) + pow16() * (18 - i),
        full_ratio(i + 1) == q64_mul(full_ratio(i), spec_sqrt_factor(i as int)),
        full_ratio(i + 1) <= full_ratio(19),
{
    lemma_full_ratio_values();
    assert(full_ratio(i + 1) == q64_mul(full_ratio(i), spec_sqrt_factor(i as int)));
    if i == 0 {
    } else if i == 1 {
    } else if i == 2 {
    } else if i == 3 {
    } else if i == 4 {
    } else if i == 5 {
    } else if i == 6 {
    } else if i == 7 {
    } else if i == 8 {
    } else if i == 9 {
    } else if i == 10 {
    } else if i == 11 {
    } else if i == 12 {
    } else if i == 13 {
    } else if i == 14 {
    } else if i == 15 {
    } else if i == 16 {
    } else if i == 17 {
    } else if i == 18 {
    }
}

/// `q64_mul` is monotone in the ratio.
proof fn lemma_q64_mul_monotone(x: int, y: int, c: int)
    requires
        0 <= x <= y,
        c >= 0,
    ensures
        q64_mul(x, c) <= q64_mul(y, c),
{
    vstd::arithmetic::mul::lemma_mul_inequality(x, y, c);
    vstd::arithmetic::div_mod::lemma_div_is_ordered(x * c, y * c, pow64());
}

/// A factor of at least one never lowers the ratio.
proof fn lemma_q64_mul_grows(x: int, c: int)
    requires
        x >= 0,
        c >= pow64(),
    ensures
        q64_mul(x, c) >= x,
{
    let p = pow64();
    let q = (x * c) / p;
    vstd::arithmetic::div_mod::lemma_fundamental_div_mod(x * c, p);
    assert(x * c == p * q + (x * c) % p);
    assert(0 <= (x * c) % p < p);
    assert(q >= x) by (nonlinear_arith)
        requires
            x * c == p * q + (x * c) % p,
            0 <= (x * c) % p < p,
            x >= 0,
            c >= p,
            p > 0,
    ;
}

/// Multiplying both ratios by the same factor keeps a relative gap of `1 / 2^16`,
/// at the cost of one unit of slack.
proof fn lemma_step_gap(x: int, y: int, c: int, s: int)
    requires
        0 <= x <= y,
        c >= pow64(),
        s >= 1,
        pow16() * (y - x) >= y + pow16() * s,
    ensures
        q64_mul(x, c) <= q64_mul(y, c),
        pow16() * (q64_mul(y, c) - q64_mul(x, c)) >= q64_mul(y, c) + pow16() * (s - 1),
{
    let p = pow64();
    let h = pow16();
    lemma_q64_mul_monotone(x, y, c);
    let yc = y * c;
    let xc = x * c;
    let sy = yc / p;
    let sx = xc / p;
    vstd::arithmetic::div_mod::lemma_fundamental_div_mod(yc, p);
    vstd::arithmetic::div_mod::lemma_fundamental_div_mod(xc, p);
    let ry = yc % p;
    let rx = xc % p;
    assert(0 <= ry < p && 0 <= rx < p);
    assert(yc - xc == (y - x) * c) by (nonlinear_arith)
        requires yc == y * c, xc == x * c;
    assert(h * (y - x) * c >= (y + h * s) * c) by (nonlinear_arith)
        requires h * (y - x) >= y + h * s, c >= 0;
    assert((y + h * s) * c == yc + h * s * c) by (nonlinear_arith)
        requires yc == y * c;
    assert(h * s * c >= h * s * p) by (nonlinear_arith)
        requires c >= p, s >= 1, h > 0;
    assert(h * (y - x) * c == h * (yc - xc)) by (nonlinear_arith)
        requires yc - xc == (y - x) * c;
    // p * (sy - sx) > (yc - xc) - p
    assert(p * (sy - sx) > yc - xc - p) by (nonlinear_arith)
        requires yc == p * sy + ry, xc == p * sx + rx, 0 <= ry < p, 0 <= rx < p;
    assert(h * (p * (sy - sx)) > h * (yc - xc) - h * p) by (nonlinear_arith)
        requires p * (sy - sx) > yc - xc - p, h > 0;
    assert(p * (h * (sy - sx)) > p * (sy + h * (s - 1))) by (nonlinear_arith)
        requires
            h * (p * (sy - sx)) > h * (yc - xc) - h * p,
            h * (yc - xc) >= yc + h * s * c,
            h * s * c >= h * s * p,
            yc >= p * sy,
    ;
    assert(h * (sy - sx) > sy + h * (s - 1)) by (nonlinear_arith)
        requires p * (h * (sy - sx)) > p * (sy + h * (s - 1)), p > 0;
}

/// Applying factors never shrinks the ratio, and never lifts it past `full_ratio(19)`.
proof fn lemma_apply_bound(bits: nat, i: nat, r: int)
    requires
        i <= 19,
        pow64() <= r <= full_ratio(i),
    ensures
        r <= apply_factors(bits, i, r) <= full_ratio(19),
    decreases 19 - i,
{
    if i < 19 {
        lemma_factor_facts(i);
        let c = spec_sqrt_factor(i as int);
        let next = if bits % 2 == 1 { q64_mul(r, c) } else { r };
        if bits % 2 == 1 {
            lemma_q64_mul_monotone(r, full_ratio(i), c);
            lemma_q64_mul_grows(r, c);
        }
        lemma_apply_bound(bits / 2, i + 1, next);
    }
}

/// Applying the same factors to two ratios keeps a relative gap of `1 / 2^16`.
proof fn lemma_apply_gap(bits: nat, i: nat, x: int, y: int)
    requires
        i <= 19,
        0 <= x <= y,
        pow16() * (y - x) >= y + pow16() * (19 - i),
    ensures
        apply_factors(bits, i, x) <= apply_factors(bits, i, y),
        pow16() * (apply_factors(bits, i, y) - apply_factors(bits, i, x)) >= apply_factors(bits, i, y),
    decreases 19 - i,
{
    if i < 19 {
        lemma_factor_facts(i);
        let c = spec_sqrt_factor(i as int);
        if bits % 2 == 1 {
            lemma_step_gap(x, y, c, 19 - i);
            lemma_apply_gap(bits / 2, i + 1, q64_mul(x, c), q64_mul(y, c));
        } else {
            lemma_apply_gap(bits / 2, i + 1, x, y);
        }
    }
}

/// Applying no factor leaves the ratio as it is.
proof fn lemma_apply_zero(i: nat, r: int)
    ensures
        apply_factors(0, i, r) == r,
    decreases 19 - i,
{
    if i < 19 {
        lemma_apply_zero(i + 1, r);
    }
}

/// The ratios of `t` and `t + 1` part where the trailing ones of `t` end: from there on
/// `t + 1` carries a factor that exceeds all the lower ones of `t` together.
proof fn lemma_divergence(t: nat, i: nat)
    requires
        i < 19,
        t + 1 < span(i),
    ensures
        apply_factors(t, i, full_ratio(i)) <= apply_factors((t + 1) as nat, i, pow64()),
        pow16() * (apply_factors((t + 1) as nat, i, pow64()) - apply_factors(t, i, full_ratio(i)))
            >= apply_factors((t + 1) as nat, i, pow64()),
    decreases 19 - i,
{
    lemma_factor_facts(i);
    lemma_span_values();
    let c = spec_sqrt_factor(i as int);
    let f = full_ratio(i);
    if t % 2 == 1 {
        assert(apply_factors(t, i, f) == apply_factors(t / 2, i + 1, full_ratio(i + 1)));
        assert(((t + 1) as nat) % 2 == 0);
        assert(((t + 1) as nat) / 2 == t / 2 + 1);
        assert(apply_factors((t + 1) as nat, i, pow64()) == apply_factors((t / 2 + 1) as nat, i + 1, pow64()));
        if i == 18 {
            assert(false);
        }
        assert(span(i) == 2 * span(i + 1));
        lemma_divergence(t / 2, i + 1);
    } else {
        assert(apply_factors(t, i, f) == apply_factors(t / 2, i + 1, f));
        assert(q64_mul(pow64(), c) == c) by {
            vstd::arithmetic::div_mod::lemma_div_multiples_vanish(c, pow64());
            vstd::arithmetic::mul::lemma_mul_is_commutative(c, pow64());
        }
        assert(((t + 1) as nat) / 2 == t / 2);
        assert(apply_factors((t + 1) as nat, i, pow64()) == apply_factors(t / 2, i + 1, c));
        lemma_apply_gap(t / 2, i + 1, f, c);
    }
}

/// Neighbouring tick ratios differ by at least `1 / 2^16` of the larger one.
proof fn lemma_tick_ratio_gap(t: nat)
    requires
        t + 1 < 524288,
    ensures
        tick_ratio(t) < tick_ratio((t + 1) as nat),
        pow16() * (tick_ratio((t + 1) as nat) - tick_ratio(t)) >= tick_ratio((t + 1) as nat),
{
    lemma_span_values();
    assert(full_ratio(0) == pow64());
    lemma_divergence(t, 0);
    lemma_tick_ratio_bounds((t + 1) as nat);
}

/// Every tick ratio lies between `1.0` and `full_ratio(19)` (below `2^103`).
pub proof fn lemma_tick_ratio_bounds(t: nat)
    ensures
        pow64() <= tick_ratio(t) <= 4467844760619635881934135417749,
{
    lemma_full_ratio_values();
    lemma_apply_bound(t, 0, pow64());
}

/// Inverting two ratios a relative gap apart gives different quotients.
proof fn lemma_inverse_strict(r: int, r2: int)
    requires
        pow64() <= r < r2 <= 4467844760619635881934135417749,
        pow16() * (r2 - r) >= r2,
    ensures
        max_u128() / r2 < max_u128() / r,
{
    let m = max_u128();
    let h = pow16();
    let q2 = m / r2;
    vstd::arithmetic::div_mod::lemma_fundamental_div_mod(m, r2);
    let m2 = m % r2;
    assert(0 <= m2 < r2);
    assert(m >= h * r + r2);
    // q2 * (r2 - r) >= r
    assert(h * (q2 * (r2 - r)) >= q2 * r2) by (nonlinear_arith)
        requires h * (r2 - r) >= r2, q2 >= 0;
    assert(q2 * r2 == m - m2) by (nonlinear_arith)
        requires m == r2 * q2 + m2;
    assert(q2 * (r2 - r) >= r) by (nonlinear_arith)
        requires
            h * (q2 * (r2 - r)) >= q2 * r2,
            q2 * r2 == m - m2,
            m2 < r2,
            m >= h * r + r2,
            h > 0,
    ;
    assert(m >= (q2 + 1) * r) by (nonlinear_arith)
        requires q2 * (r2 - r) >= r, m == r2 * q2 + m2, m2 >= 0;
    vstd::arithmetic::div_mod::lemma_fundamental_div_mod(m, r);
    assert(m / r >= q2 + 1) by (nonlinear_arith)
        requires m >= (q2 + 1) * r, m == r * (m / r) + m % r, 0 <= m % r < r, r > 0;
}

/// One step up the supported range raises the sqrt price.
proof fn lemma_sqrt_price_step(t: int)
    requires
        MIN_TICK <= t < MAX_TICK,
    ensures
        sqrt_price_at_tick(t) < sqrt_price_at_tick(t + 1),
{
    if t >= 0 {
        lemma_tick_ratio_gap(t as nat);
    } else if t == -1 {
        lemma_apply_zero(0, pow64());
        lemma_factor_facts(0);
        assert(tick_ratio(1) == apply_factors(0, 1, q64_mul(pow64(), spec_sqrt_factor(0))));
        lemma_apply_zero(1, q64_mul(pow64(), spec_sqrt_factor(0)));
        assert(q64_mul(pow64(), spec_sqrt_factor(0)) == 18447666387855959850);
        assert(max_u128() / 18447666387855959850 < pow64());
    } else {
        let a: nat = (-t - 1) as nat;
        lemma_tick_ratio_gap(a);
        lemma_tick_ratio_bounds(a);
        lemma_tick_ratio_bounds((a + 1) as nat);
        lemma_inverse_strict(tick_ratio(a), tick_ratio((a + 1) as nat));
    }
}

/// The sqrt price rises strictly with the tick over the supported range.
pub proof fn lemma_sqrt_price_strictly_increasing(t: int, u: int)
    requires
        MIN_TICK <= t < u <= MAX_TICK,
    ensures
        sqrt_price_at_tick(t) < sqrt_price_at_tick(u),
    decreases u - t,
{
    lemma_sqrt_price_step(t);
    if t + 1 < u {
        lemma_sqrt_price_strictly_increasing(t + 1, u);
    }
}

/// The prices at the two ends of the supported range.
pub proof fn lemma_sqrt_price_extremes()
    ensures
        sqrt_price_at_tick(MIN_TICK as int) == MIN_SQRT_PRICE,
        sqrt_price_at_tick(MAX_TICK as int) == 79226673515401279963822778343,
        sqrt_price_at_tick(MAX_TICK as int) < MAX_SQRT_PRICE,
{
    assert(apply_factors(0, 19, 79226673515401279963822778343) == 79226673515401279963822778343);
    assert(apply_factors(1, 18, 160979801921049506078893) == 79226673515401279963822778343);
    assert(apply_factors(3, 17, 229467599376468828848) == 79226673515401279963822778343);
    assert(apply_factors(6, 16, 229467599376468828848) == 79226673515401279963822778343);
    assert(apply_factors(13, 15, 44587063231926678013) == 79226673515401279963822778343);
    assert(apply_factors(27, 14, 19654075318493208461) == 79226673515401279963822778343);
    assert(apply_factors(54, 13, 19654075318493208461) == 79226673515401279963822778343);
    assert(apply_factors(108, 12, 19654075318493208461) == 79226673515401279963822778343);
    assert(apply_factors(216, 11, 19654075318493208461) == 79226673515401279963822778343);
    assert(apply_factors(433, 10, 18673161368046416283) == 79226673515401279963822778343);
    assert(apply_factors(866, 9, 18673161368046416283) == 79226673515401279963822778343);
    assert(apply_factors(1732, 8, 18673161368046416283) == 79226673515401279963822778343);
    assert(apply_factors(3465, 7, 18554040683992826578) == 79226673515401279963822778343);
    assert(apply_factors(6931, 6, 18494765608208560616) == 79226673515401279963822778343);
    assert(apply_factors(13863, 5, 18465199121032091052) == 79226673515401279963822778343);
    assert(apply_factors(27727, 4, 18450433606991734263) == 79226673515401279963822778343);
    assert(apply_factors(55454, 3, 18450433606991734263) == 79226673515401279963822778343);
    assert(apply_factors(110909, 2, 18446744073709551616) == 79226673515401279963822778343);
    assert(apply_factors(221818, 1, 18446744073709551616) == 79226673515401279963822778343);
    assert(apply_factors(443636, 0, 18446744073709551616) == 79226673515401279963822778343);
    assert(tick_ratio(443636) == 79226673515401279963822778343);
    assert(max_u128() / 79226673515401279963822778343 == 4295048016);
}

/// Every supported tick has a price within the sqrt price bounds.
pub proof fn lemma_sqrt_price_in_bounds(t: int)
    requires
        MIN_TICK <= t <= MAX_TICK,
    ensures
        MIN_SQRT_PRICE <= sqrt_price_at_tick(t) <= MAX_SQRT_PRICE,
{
    lemma_sqrt_price_extremes();
    if t > MIN_TICK {
        lemma_sqrt_price_strictly_increasing(MIN_TICK as int, t);
    }
    if t < MAX_TICK {
        lemma_sqrt_price_strictly_increasing(t, MAX_TICK as int);
    }
}

/// Round trip: the only tick of the price of a supported tick `t` is `t` itself.
pub proof fn lemma_tick_roundtrip(t: int, r: int)
    requires
        MIN_TICK <= t <= MAX_TICK,
        is_tick_of_price(r, sqrt_price_at_tick(t)),
    ensures
        r == t,
        MIN_SQRT_PRICE <= sqrt_price_at_tick(t) <= MAX_SQRT_PRICE,
{
    lemma_sqrt_price_in_bounds(t);
    if r < t {
        if r + 1 < t {
            lemma_sqrt_price_strictly_increasing(r + 1, t);
        }
    } else if r > t {
        lemma_sqrt_price_strictly_increasing(t, r);
    }
}

/// A price has at most one tick.
pub proof fn lemma_tick_of_price_unique(sqrt_price: int, t1: int, t2: int)
    requires
        is_tick_of_price(t1, sqrt_price),
        is_tick_of_price(t2, sqrt_price),
    ensures
        t1 == t2,
{
    if t1 < t2 {
        if t1 + 1 < t2 {
            lemma_sqrt_price_strictly_increasing(t1 + 1, t2);
        }
    } else if t2 < t1 {
        if t2 + 1 < t1 {
            lemma_sqrt_price_strictly_increasing(t2 + 1, t1);
        }
    }
}

/// Symmetry: the prices of `t` and `-t` multiply to `1.0 = 2^128` in Q128.128,
/// up to less than one unit of the price of `t` lost to rounding.
pub proof fn lemma_tick_symmetry(t: int)
    requires
        0 <= t <= MAX_TICK,
    ensures
        sqrt_price_at_tick(t) * sqrt_price_at_tick(-t) <= pow128(),
        sqrt_price_at_tick(t) * sqrt_price_at_tick(-t) > max_u128() - sqrt_price_at_tick(t),
{
    if t == 0 {
        lemma_apply_zero(0, pow64());
        assert(sqrt_price_at_tick(0) == pow64());
        assert(sqrt_price_at_tick(-0) == pow64());
    } else {
        let r = tick_ratio(t as nat);
        lemma_tick_ratio_bounds(t as nat);
        assert(sqrt_price_at_tick(-t) == max_u128() / r);
        vstd::arithmetic::div_mod::lemma_fundamental_div_mod(max_u128(), r);
        assert(r * (max_u128() / r) <= max_u128());
        assert(r * (max_u128() / r) > max_u128() - r);
    }
}

/// Multiply two u128 values and right-shift by 64 (Q64.64 multiplication).
fn mul_shr_64(a: u128, b: u128) -> (r: u128)
    ensures
        r == ((a * b) / pow64()) % pow128(),
{
    let result = U256::mul_u128(a, b);
    result.shr_64()
}

/// Convert a tick index to sqrt_price in Q64.64 format.
/// sqrt_price = sqrt(1.0001^tick) = 1.0001^(tick/2)
///
/// Uses binary exponentiation with precomputed powers of sqrt(1.0001).
pub fn tick_to_sqrt_price(tick: i32) -> (r: Result<u128, TidePoolError>)
    ensures
        r is Ok <==> MIN_TICK <= tick <= MAX_TICK,
        r matches Ok(p) ==> p == sqrt_price_at_tick(tick as int) && MIN_SQRT_PRICE <= p <= MAX_SQRT_PRICE,
        r matches Err(e) ==> e == TidePoolError::TickOutOfRange,
{
    if !(tick >= MIN_TICK && tick <= MAX_TICK) {
        return Err(TidePoolError::TickOutOfRange);
    }
    let abs_tick: u32 = if tick < 0 { (-tick) as u32 } else { tick as u32 };

    // Start with 1.0 in Q64.64
    let mut ratio: u128 = 0x1_0000_0000_0000_0000;
    let mut bits: u32 = abs_tick;
    let mut i: usize = 0;
    proof {
        assert(full_ratio(0) == pow64());
    }
    while i < NUM_FACTORS
        invariant
            0 <= i <= NUM_FACTORS,
            apply_factors(bits as nat, i as nat, ratio as int) == tick_ratio(abs_tick as nat),
            pow64() <= ratio <= full_ratio(i as nat),
        decreases NUM_FACTORS - i,
    {
        proof {
            lemma_factor_facts(i as nat);
        }
        if bits % 2 == 1 {
            let c = sqrt_factor(i);
            proof {
                lemma_q64_mul_monotone(ratio as int, full_ratio(i as nat), c as int);
                lemma_q64_mul_grows(ratio as int, c as int);
                vstd::arithmetic::mul::lemma_mul_inequality(ratio as int, full_ratio(i as nat), c as int);
                vstd::arithmetic::div_mod::lemma_div_is_ordered(ratio * c, pow128() * pow64() - 1, pow64());
                assert((pow128() * pow64() - 1) / pow64() < pow128());
                vstd::arithmetic::div_mod::lemma_small_mod(((ratio * c) / pow64()) as nat, pow128() as nat);
            }
            ratio = mul_shr_64(ratio, c);
        }
        bits = bits / 2;
        i = i + 1;
    }

    // For negative ticks, invert: 1/ratio in Q64.64
    if tick < 0 {
        ratio = u128::MAX / ratio;
    }
    proof {
        lemma_sqrt_price_in_bounds(tick as int);
    }
    Ok(ratio)
}

/// Convert a sqrt_price (Q64.64) to the largest tick where sqrt_price >= tick_to_sqrt_price(tick).
/// Uses binary search over tick space.
pub fn sqrt_price_to_tick(sqrt_price: u128) -> (r: Result<i32, TidePoolError>)
    ensures
        r is Ok <==> MIN_SQRT_PRICE <= sqrt_price <= MAX_SQRT_PRICE,
        r matches Ok(t) ==> is_tick_of_price(t as int, sqrt_price as int),
        r matches Err(e) ==> e == TidePoolError::SqrtPriceOutOfBounds,
{
    if !(sqrt_price >= MIN_SQRT_PRICE && sqrt_price <= MAX_SQRT_PRICE) {
        return Err(TidePoolError::SqrtPriceOutOfBounds);
    }
    proof {
        lemma_sqrt_price_extremes();
    }

    // Binary search: find the largest tick where tick_to_sqrt_price(tick) <= sqrt_price
    let mut low = MIN_TICK;
    let mut high = MAX_TICK;

    while low < high
        invariant
            MIN_TICK <= low <= high <= MAX_TICK,
            sqrt_price_at_tick(low as int) <= sqrt_price,
            high == MAX_TICK || sqrt_price < sqrt_price_at_tick(high + 1),
        decreases high - low,
    {
        let mid = low + (high - low + 1) / 2;
        let mid_price = match tick_to_sqrt_price(mid) {
            Ok(p) => p,
            Err(e) => {
                return Err(e);
            },
        };
        if mid_price <= sqrt_price {
            low = mid;
        } else {
            high = mid - 1;
        }
    }

    Ok(low)
}

} // verus!
