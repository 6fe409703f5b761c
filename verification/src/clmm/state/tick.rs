use vstd::prelude::*;

verus! {

/// Number of ticks held by one tick array.
pub const TICK_ARRAY_SIZE: usize = 64;
pub const MIN_TICK: i32 = -443636;
pub const MAX_TICK: i32 = 443636;

/// Per-tick liquidity and fee bookkeeping.
#[derive(Debug, Clone, Copy, PartialEq, Eq, Structural)]
pub struct Tick {
    pub initialized: bool,
    /// Net liquidity change when this tick is crossed (positive = add, negative = remove)
    pub liquidity_net: i128,
    /// Total liquidity referencing this tick as either lower or upper bound
    pub liquidity_gross: u128,
    /// Fee growth on the opposite side of this tick for token A (Q64.64)
    pub fee_growth_outside_a: u128,
    /// Fee growth on the opposite side of this tick for token B (Q64.64)
    pub fee_growth_outside_b: u128,
}

impl Default for Tick {
    fn default() -> (t: Self)
        ensures
            !t.initialized,
            t.liquidity_net == 0,
            t.liquidity_gross == 0,
            t.fee_growth_outside_a == 0,
            t.fee_growth_outside_b == 0,
    {
        Tick {
            initialized: false,
            liquidity_net: 0,
            liquidity_gross: 0,
            fee_growth_outside_a: 0,
            fee_growth_outside_b: 0,
        }
    }
}

/// A run of `TICK_ARRAY_SIZE` consecutive spaced ticks starting at `start_tick_index`.
#[derive(Debug, Clone)]
pub struct TickArray {
    pub pool: [u8; 32],
    pub start_tick_index: i32,
    pub ticks: Vec<Tick>,
    pub bump: u8,
}

/// The slot of `tick_index` in an array starting at `start`, if the array covers it.
pub open spec fn spec_tick_offset(start: int, tick_index: int, spacing: int) -> Option<int> {
    if tick_index < start {
        None
    } else if (tick_index - start) / spacing >= TICK_ARRAY_SIZE {
        None
    } else {
        Some((tick_index - start) / spacing)
    }
}

impl TickArray {
    /// A full array of ticks whose start lies in the supported range.
    pub open spec fn inv(&self) -> bool {
        &&& MIN_TICK <= self.start_tick_index <= MAX_TICK
        &&& self.ticks@.len() == TICK_ARRAY_SIZE
    }

    /// Slot of `tick_index` in this array, or `None` when the array does not cover it.
    pub fn get_tick_offset(&self, tick_index: i32, tick_spacing: u16) -> (r: Option<usize>)
        requires
            tick_index >= self.start_tick_index ==> tick_spacing > 0,
            tick_index - self.start_tick_index <= i32::MAX,
        ensures
            r matches Some(o) ==> spec_tick_offset(self.start_tick_index as int, tick_index as int, tick_spacing as int) == Some(o as int),
            r is None ==> spec_tick_offset(self.start_tick_index as int, tick_index as int, tick_spacing as int) is None,
            r matches Some(o) ==> o < TICK_ARRAY_SIZE,
    {
        let spacing = tick_spacing as i32;
        if tick_index < self.start_tick_index {
            return None;
        }
        let offset = ((tick_index - self.start_tick_index) / spacing) as usize;
        if offset >= TICK_ARRAY_SIZE {
            None
        } else {
            Some(offset)
        }
    }

    /// The tick stored for `tick_index`, if the array covers it and holds that slot.
    pub fn get_tick(&self, tick_index: i32, tick_spacing: u16) -> (r: Option<&Tick>)
        requires
            tick_index >= self.start_tick_index ==> tick_spacing > 0,
            tick_index - self.start_tick_index <= i32::MAX,
        ensures
            r matches Some(t) ==> (spec_tick_offset(self.start_tick_index as int, tick_index as int, tick_spacing as int) matches Some(o)
                && 0 <= o < self.ticks@.len() && *t == self.ticks@[o]),
            r is None ==> (spec_tick_offset(self.start_tick_index as int, tick_index as int, tick_spacing as int) matches Some(o)
                ==> o >= self.ticks@.len()),
    {
        match self.get_tick_offset(tick_index, tick_spacing) {
            None => None,
            Some(offset) => {
                if offset < self.ticks.len() {
                    Some(&self.ticks[offset])
                } else {
                    None
                }
            },
        }
    }

    /// Mutable access to the tick stored for `tick_index`, if the array covers it.
    pub fn get_tick_mut(&mut self, tick_index: i32, tick_spacing: u16) -> (r: Option<&mut Tick>)
        requires
            tick_index >= old(self).start_tick_index ==> tick_spacing > 0,
            tick_index - old(self).start_tick_index <= i32::MAX,
        ensures
            r matches Some(t) ==> (spec_tick_offset(old(self).start_tick_index as int, tick_index as int, tick_spacing as int) matches Some(o)
                && 0 <= o < old(self).ticks@.len() && *t == old(self).ticks@[o]
                && final(self).ticks@ == old(self).ticks@.update(o, *final(t))
                && final(self).start_tick_index == old(self).start_tick_index
                && final(self).pool == old(self).pool
                && final(self).bump == old(self).bump),
            r is None ==> *final(self) == *old(self),
            // a tick is handed out exactly when the array covers `tick_index` and holds its slot
            r is Some <==> (spec_tick_offset(old(self).start_tick_index as int, tick_index as int, tick_spacing as int) matches Some(o)
                && o < old(self).ticks@.len()),
    {
        match self.get_tick_offset(tick_index, tick_spacing) {
            None => None,
            Some(offset) => {
                if offset < self.ticks.len() {
                    Some(&mut self.ticks[offset])
                } else {
                    None
                }
            },
        }
    }

    /// First tick index past the end of this array.
    pub fn end_tick_index(&self, tick_spacing: u16) -> (r: i32)
        requires
            i32::MIN <= self.start_tick_index + TICK_ARRAY_SIZE * tick_spacing <= i32::MAX,
        ensures
            r == self.start_tick_index + TICK_ARRAY_SIZE * tick_spacing,
    {
        self.start_tick_index + (TICK_ARRAY_SIZE as i32) * (tick_spacing as i32)
    }
}

/// Whether `tick_index` lies in the supported range.
pub fn check_tick_bounds(tick_index: i32) -> (r: bool)
    ensures
        r == (MIN_TICK <= tick_index <= MAX_TICK),
{
    tick_index >= MIN_TICK && tick_index <= MAX_TICK
}

/// `|t| % s == 0` exactly when `t % s == 0` (floored remainder).
pub proof fn lemma_divisible_abs(t: int, s: int)
    requires
        s > 0,
    ensures
        ((if t < 0 { -t } else { t }) % s == 0) == (t % s == 0),
{
    if t < 0 {
        let a = -t;
        vstd::arithmetic::div_mod::lemma_fundamental_div_mod(a, s);
        vstd::arithmetic::div_mod::lemma_fundamental_div_mod(t, s);
        let qa = a / s;
        let ra = a % s;
        let qt = t / s;
        let rt = t % s;
        assert(0 <= ra < s && 0 <= rt < s);
        if ra == 0 {
            assert(t == (-qa) * s) by (nonlinear_arith)
                requires a == s * qa + ra, ra == 0, a == -t;
            assert((qt + qa) * s == -rt) by (nonlinear_arith)
                requires t == s * qt + rt, t == (-qa) * s;
            assert(rt == 0) by (nonlinear_arith)
                requires (qt + qa) * s == -rt, 0 <= rt < s, s > 0;
        }
        if rt == 0 {
            assert((qa + qt) * s == -ra) by (nonlinear_arith)
                requires a == s * qa + ra, t == s * qt + rt, rt == 0, a == -t;
            assert(ra == 0) by (nonlinear_arith)
                requires (qa + qt) * s == -ra, 0 <= ra < s, s > 0;
        }
    }
}

/// Whether `tick_index` is a multiple of `tick_spacing`.
pub fn check_tick_alignment(tick_index: i32, tick_spacing: u16) -> (r: bool)
    requires
        tick_spacing > 0,
    ensures
        r == ((tick_index as int) % (tick_spacing as int) == 0),
{
    let magnitude: u32 = if tick_index < 0 { (-(tick_index as i64)) as u32 } else { tick_index as u32 };
    proof {
        lemma_divisible_abs(tick_index as int, tick_spacing as int);
    }
    magnitude % (tick_spacing as u32) == 0
}

/// Start index of the tick array that covers `tick_index`:
/// the largest multiple of `TICK_ARRAY_SIZE * tick_spacing` not above it.
#[verifier::spinoff_prover]
pub fn get_tick_array_start_index(tick_index: i32, tick_spacing: u16) -> (start: i32)
    requires
        tick_spacing > 0,
        ((tick_index as int) / (TICK_ARRAY_SIZE * tick_spacing) as int) * (TICK_ARRAY_SIZE * tick_spacing) >= i32::MIN,
    ensures
        start == ((tick_index as int) / (TICK_ARRAY_SIZE * tick_spacing) as int) * (TICK_ARRAY_SIZE * tick_spacing),
        start <= tick_index < start + TICK_ARRAY_SIZE * tick_spacing,
        (start as int) % ((TICK_ARRAY_SIZE * tick_spacing) as int) == 0,
{
    let ticks_in_array: i64 = TICK_ARRAY_SIZE as i64 * tick_spacing as i64;
    let t: i64 = tick_index as i64;
    assert(ticks_in_array == 64 * tick_spacing);
    let start: i64;
    let ghost k: int;
    if t >= 0 {
        let q = t / ticks_in_array;
        proof {
            vstd::arithmetic::div_mod::lemma_fundamental_div_mod(t as int, ticks_in_array as int);
            assert(0 <= q * ticks_in_array <= t < q * ticks_in_array + ticks_in_array) by (nonlinear_arith)
                requires
                    t == ticks_in_array * q + (t as int) % (ticks_in_array as int),
                    0 <= (t as int) % (ticks_in_array as int) < ticks_in_array,
                    q >= 0,
                    ticks_in_array > 0;
            k = q as int;
        }
        start = q * ticks_in_array;
        assert(start == k * ticks_in_array);
        assert(start <= t < start + ticks_in_array);
    } else {
        let a = -t;
        // ceil(a / n)
        let q = (a + ticks_in_array - 1) / ticks_in_array;
        proof {
            let n = ticks_in_array as int;
            let x: int = a + n - 1;
            vstd::arithmetic::div_mod::lemma_fundamental_div_mod(x, n);
            assert(q == x / n);
            assert(q * n >= a && q * n < a + n) by (nonlinear_arith)
                requires x == n * q + x % n, 0 <= x % n < n, x == a + n - 1;
            assert(q * n <= 2147483648 + 64 * 65535);
            k = -(q as int);
        }
        start = -(q * ticks_in_array);
        assert(start == k * ticks_in_array) by (nonlinear_arith)
            requires start == -(q * ticks_in_array), k == -q;
        assert(start <= t < start + ticks_in_array);
    }
    proof {
        let tt = t as int;
        let n = ticks_in_array as int;
        vstd::arithmetic::div_mod::lemma_fundamental_div_mod(tt, n);
        assert(start == k * n);
        assert(start <= tt < start + n);
        let fq = tt / n;
        assert(fq * n <= tt < fq * n + n) by (nonlinear_arith)
            requires tt == n * fq + tt % n, 0 <= tt % n < n;
        assert(fq == k) by (nonlinear_arith)
            requires fq * n <= tt < fq * n + n, k * n <= tt < k * n + n, n > 0;
        vstd::arithmetic::div_mod::lemma_mod_multiples_basic(k, n);
        assert(n == (TICK_ARRAY_SIZE * tick_spacing) as int);
    }
    start as i32
}

} // verus!
