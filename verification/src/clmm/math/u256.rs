use vstd::prelude::*;

verus! {

/// `2^64` as a mathematical integer.
pub open spec fn pow64() -> int {
    0x1_0000_0000_0000_0000int
}

/// `2^128` as a mathematical integer.
pub open spec fn pow128() -> int {
    0x1_0000_0000_0000_0000_0000_0000_0000_0000int
}

/// `2^256` as a mathematical integer.
pub open spec fn pow256() -> int {
    pow128() * pow128()
}

/// `2^k`.
pub open spec fn two_pow(k: nat) -> int
    decreases k,
{
    if k == 0 {
        1
    } else {
        2 * two_pow((k - 1) as nat)
    }
}

/// Minimal 256-bit unsigned integer for intermediate Q64.64 multiplication.
/// Represented as `[lo, hi]` where value = lo + hi * 2^128.
#[derive(Debug, Clone, Copy, PartialEq, Eq)]
pub struct U256(pub [u128; 2]);

/// Splits `a*b` into limbs: the step that every proof about `mul_u128` rests on.
proof fn lemma_product_limbs(al: int, ah: int, bl: int, bh: int)
    requires
        0 <= al < pow64(),
        0 <= ah < pow64(),
        0 <= bl < pow64(),
        0 <= bh < pow64(),
    ensures
        (ah * pow64() + al) * (bh * pow64() + bl) == ah * bh * pow128() + (al * bh + ah * bl)
            * pow64() + al * bl,
        0 <= al * bl < pow128(),
        0 <= al * bh < pow128(),
        0 <= ah * bl < pow128(),
        0 <= ah * bh < pow128(),
{
    assert((ah * pow64() + al) * (bh * pow64() + bl) == ah * bh * pow128() + (al * bh + ah * bl)
        * pow64() + al * bl) by (nonlinear_arith);
    assert(0 <= al * bl < pow128()) by (nonlinear_arith)
        requires 0 <= al < pow64(), 0 <= bl < pow64();
    assert(0 <= al * bh < pow128()) by (nonlinear_arith)
        requires 0 <= al < pow64(), 0 <= bh < pow64();
    assert(0 <= ah * bl < pow128()) by (nonlinear_arith)
        requires 0 <= ah < pow64(), 0 <= bl < pow64();
    assert(0 <= ah * bh < pow128()) by (nonlinear_arith)
        requires 0 <= ah < pow64(), 0 <= bh < pow64();
}

/// A product of two `u128` values is below `2^256`, so its high limb fits in a `u128`.
proof fn lemma_product_high_limb(a: int, b: int, lo: int, hi: int)
    requires
        0 <= a < pow128(),
        0 <= b < pow128(),
        0 <= lo < pow128(),
        a * b == lo + hi * pow128(),
    ensures
        0 <= hi < pow128(),
{
    assert(a * b <= (pow128() - 1) * (pow128() - 1)) by (nonlinear_arith)
        requires 0 <= a < pow128(), 0 <= b < pow128();
    assert(0 <= hi < pow128()) by (nonlinear_arith)
        requires
            a * b == lo + hi * pow128(),
            0 <= lo < pow128(),
            0 <= a * b <= (pow128() - 1) * (pow128() - 1),
    ;
}

impl U256 {
    /// The number this value stands for: `lo + hi * 2^128`.
    pub open spec fn value(self) -> int {
        self.0[0] as int + self.0[1] as int * pow128()
    }


    /// Widens a `u128`.
    pub fn from_u128(v: u128) -> (r: Self)
        ensures
            r.0[0] == v,
            r.0[1] == 0,
            r.value() == v,
    {
        U256([v, 0])
    }

    /// Full 128x128 → 256-bit multiplication.
    pub fn mul_u128(a: u128, b: u128) -> (r: Self)
        ensures
            r.value() == a * b,
    {
        let a_lo = a % 0x1_0000_0000_0000_0000;
        let a_hi = a / 0x1_0000_0000_0000_0000;
        let b_lo = b % 0x1_0000_0000_0000_0000;
        let b_hi = b / 0x1_0000_0000_0000_0000;
        proof {
            lemma_product_limbs(a_lo as int, a_hi as int, b_lo as int, b_hi as int);
        }
        let ll = a_lo * b_lo;
        let lh = a_lo * b_hi;
        let hl = a_hi * b_lo;
        let hh = a_hi * b_hi;

        // mid_full = lh + hl = mid + mid_carry * 2^128
        let mid_carry: u128;
        let mid: u128;
        if lh > u128::MAX - hl {
            mid = lh - (u128::MAX - hl) - 1;
            mid_carry = 1;
        } else {
            mid = lh + hl;
            mid_carry = 0;
        }
        let mid_lo = mid % 0x1_0000_0000_0000_0000;
        let mid_hi = mid / 0x1_0000_0000_0000_0000;
        let mid_shifted = mid_lo * 0x1_0000_0000_0000_0000;

        // ll + mid_shifted = lo + carry * 2^128
        let carry: u128;
        let lo: u128;
        if ll > u128::MAX - mid_shifted {
            lo = ll - (u128::MAX - mid_shifted) - 1;
            carry = 1;
        } else {
            lo = ll + mid_shifted;
            carry = 0;
        }
        proof {
            let hi_int: int = hh + mid_hi + carry + mid_carry * pow64();
            assert(a == a_hi * pow64() + a_lo);
            assert(b == b_hi * pow64() + b_lo);
            assert(lh + hl == mid + mid_carry * pow128());
            assert(mid == mid_hi * pow64() + mid_lo);
            assert(a * b == lo + hi_int * pow128()) by (nonlinear_arith)
                requires
                    a == a_hi * pow64() + a_lo,
                    b == b_hi * pow64() + b_lo,
                    (a_hi * pow64() + a_lo) * (b_hi * pow64() + b_lo) == a_hi * b_hi * pow128()
                        + (a_lo * b_hi + a_hi * b_lo) * pow64() + a_lo * b_lo,
                    ll == a_lo * b_lo,
                    lh == a_lo * b_hi,
                    hl == a_hi * b_lo,
                    hh == a_hi * b_hi,
                    lh + hl == mid + mid_carry * pow128(),
                    mid == mid_hi * pow64() + mid_lo,
                    mid_shifted == mid_lo * pow64(),
                    ll + mid_shifted == lo + carry * pow128(),
                    hi_int == hh + mid_hi + carry + mid_carry * pow64(),
                    pow128() == pow64() * pow64(),
            ;
            lemma_product_high_limb(a as int, b as int, lo as int, hi_int);
        }
        let hi = hh + mid_hi + carry + mid_carry * 0x1_0000_0000_0000_0000;
        U256([lo, hi])
    }

    /// Right shift by 64 bits (used for Q64.64 multiplication result).
    /// Bits above the low 128 of the shifted value are dropped.
    pub fn shr_64(&self) -> (r: u128)
        ensures
            r == (self.value() / pow64()) % pow128(),
    {
        let lo = self.0[0];
        let hi = self.0[1];
        let r = lo / 0x1_0000_0000_0000_0000 + (hi % 0x1_0000_0000_0000_0000) * 0x1_0000_0000_0000_0000;
        proof {
            let v = self.value();
            let l: int = lo as int;
            let h: int = hi as int;
            let rr: int = r as int;
            let q: int = h / pow64();
            assert(h == q * pow64() + h % pow64());
            assert(l == (l / pow64()) * pow64() + l % pow64());
            assert(rr == l / pow64() + (h % pow64()) * pow64());
            assert(v == (rr + q * pow128()) * pow64() + l % pow64()) by (nonlinear_arith)
                requires
                    v == l + h * pow128(),
                    l == (l / pow64()) * pow64() + l % pow64(),
                    h == q * pow64() + h % pow64(),
                    rr == l / pow64() + (h % pow64()) * pow64(),
                    pow128() == pow64() * pow64(),
            ;
            assert(0 <= l % pow64() < pow64());
            assert(q >= 0);
            assert(v / pow64() == rr + q * pow128()) by (nonlinear_arith)
                requires
                    v == (rr + q * pow128()) * pow64() + l % pow64(),
                    0 <= l % pow64() < pow64(),
                    rr >= 0,
                    q >= 0,
            ;
            assert((rr + q * pow128()) % pow128() == rr) by (nonlinear_arith)
                requires
                    0 <= rr < pow128(),
                    q >= 0,
            ;
        }
        r
    }

    /// Right shift by 128 bits.
    pub fn shr_128(&self) -> (r: u128)
        ensures
            r == self.value() / pow128(),
    {
        proof {
            let v = self.value();
            let l: int = self.0[0] as int;
            let h: int = self.0[1] as int;
            assert(v / pow128() == h) by (nonlinear_arith)
                requires
                    v == l + h * pow128(),
                    0 <= l < pow128(),
            ;
        }
        self.0[1]
    }

    /// Check if the result fits in u128 after right shift.
    pub fn fits_u128_after_shr64(&self) -> (r: bool)
        ensures
            r == (self.0[1] < pow64()),
            r == (self.value() / pow64() < pow128()),
    {
        proof {
            let v = self.value();
            let l: int = self.0[0] as int;
            let h: int = self.0[1] as int;
            assert(l == (l / pow64()) * pow64() + l % pow64());
            assert(0 <= l % pow64() < pow64());
            assert(0 <= l / pow64() < pow64());
            assert(v / pow64() == l / pow64() + h * pow64()) by (nonlinear_arith)
                requires
                    v == l + h * pow128(),
                    l == (l / pow64()) * pow64() + l % pow64(),
                    0 <= l % pow64() < pow64(),
                    pow128() == pow64() * pow64(),
            ;
            assert((l / pow64() + h * pow64() < pow128()) == (h < pow64())) by (nonlinear_arith)
                requires
                    0 <= l / pow64() < pow64(),
                    h >= 0,
                    pow128() == pow64() * pow64(),
            ;
        }
        self.0[1] < 0x1_0000_0000_0000_0000
    }
}

/// `2^(a + b) == 2^a * 2^b`.
proof fn lemma_two_pow_add(a: nat, b: nat)
    ensures
        two_pow(a + b) == two_pow(a) * two_pow(b),
    decreases a,
{
    if a > 0 {
        lemma_two_pow_add((a - 1) as nat, b);
        assert(two_pow(a + b) == 2 * two_pow((a - 1 + b) as nat));
        assert(2 * (two_pow((a - 1) as nat) * two_pow(b)) == (2 * two_pow((a - 1) as nat)) * two_pow(b))
            by (nonlinear_arith);
    }
}

/// `2^64` and `2^256` as `two_pow` gives them.
proof fn lemma_two_pow_values()
    ensures
        two_pow(64) == pow64(),
        two_pow(256) == pow256(),
{
    reveal_with_fuel(two_pow, 9);
    assert(two_pow(8) == 256);
    lemma_two_pow_add(8, 8);
    assert(two_pow(16) == 0x1_0000);
    lemma_two_pow_add(16, 16);
    assert(two_pow(32) == 0x1_0000_0000);
    lemma_two_pow_add(32, 32);
    assert(two_pow(64) == 0x1_0000_0000_0000_0000);
    lemma_two_pow_add(64, 64);
    assert(two_pow(128) == pow128());
    lemma_two_pow_add(128, 128);
}

/// Every value lies in `[0, 2^256)`.
pub proof fn lemma_value_bounds(x: U256)
    ensures
        0 <= x.value() < pow256(),
{
    let l = x.0[0] as int;
    let h = x.0[1] as int;
    assert(0 <= l + h * pow128() < pow256()) by (nonlinear_arith)
        requires
            0 <= l < pow128(),
            0 <= h < pow128(),
            pow256() == pow128() * pow128(),
    ;
}

impl U256 {
    /// `self + other`, when the sum stays below `2^256`.
    pub(crate) fn add(&self, other: &Self) -> (r: Self)
        requires
            self.value() + other.value() < pow256(),
        ensures
            r.value() == self.value() + other.value(),
    {
        let a0 = self.0[0];
        let a1 = self.0[1];
        let b0 = other.0[0];
        let b1 = other.0[1];
        let lo: u128;
        let carry: u128;
        if a0 > u128::MAX - b0 {
            lo = a0 - (u128::MAX - b0) - 1;
            carry = 1;
        } else {
            lo = a0 + b0;
            carry = 0;
        }
        proof {
            assert(a1 + b1 + carry < pow128()) by (nonlinear_arith)
                requires
                    a0 + a1 * pow128() + b0 + b1 * pow128() < pow256(),
                    a0 + b0 == lo + carry * pow128(),
                    lo >= 0,
                    pow256() == pow128() * pow128(),
            ;
        }
        let hi = a1 + b1 + carry;
        U256([lo, hi])
    }

    /// `self >= other`.
    pub(crate) fn ge(&self, other: &Self) -> (r: bool)
        ensures
            r == (self.value() >= other.value()),
    {
        self.0[1] > other.0[1] || (self.0[1] == other.0[1] && self.0[0] >= other.0[0])
    }

    /// Whether the value is zero.
    pub(crate) fn is_zero(&self) -> (r: bool)
        ensures
            r == (self.value() == 0),
    {
        self.0[0] == 0 && self.0[1] == 0
    }

    /// `self - other` modulo `2^256`.
    pub(crate) fn wrapping_sub(&self, other: &Self) -> (r: Self)
        ensures
            r.value() == if self.value() >= other.value() {
                self.value() - other.value()
            } else {
                self.value() - other.value() + pow256()
            },
    {
        let a0 = self.0[0];
        let a1 = self.0[1];
        let b0 = other.0[0];
        let b1 = other.0[1];
        let lo: u128;
        let borrow: u128;
        if a0 >= b0 {
            lo = a0 - b0;
            borrow = 0;
        } else {
            lo = (u128::MAX - b0) + a0 + 1;
            borrow = 1;
        }
        let hi: u128;
        if a1 > b1 || (a1 == b1 && borrow == 0) {
            hi = a1 - b1 - borrow;
        } else if a1 < b1 {
            hi = (u128::MAX - (b1 - a1)) + 1 - borrow;
        } else {
            hi = u128::MAX;
        }
        proof {
            lemma_value_bounds(*self);
            lemma_value_bounds(*other);
        }
        U256([lo, hi])
    }

    /// Doubles the value and adds `bit`: the low 256 bits of the result, and whether
    /// bit 256 is set.
    pub(crate) fn shl1(&self, bit: bool) -> (r: (Self, bool))
        ensures
            r.0.value() + (if r.1 { pow256() } else { 0 }) == 2 * self.value() + (if bit { 1int } else { 0 }),
    {
        let lo = self.0[0];
        let hi = self.0[1];
        let half: u128 = 0x8000_0000_0000_0000_0000_0000_0000_0000;
        let lo_top = lo >= half;
        let hi_top = hi >= half;
        let lo_rest = if lo_top { lo - half } else { lo };
        let hi_rest = if hi_top { hi - half } else { hi };
        let new_lo = lo_rest * 2 + if bit { 1 } else { 0 };
        let new_hi = hi_rest * 2 + if lo_top { 1 } else { 0 };
        (U256([new_lo, new_hi]), hi_top)
    }
}

/// One step of taking the top bit off `t`, the part of `n` not yet consumed: with
/// `n == m * w + t`, `t < w`, `w` even and `t * s` held in 256 bits, the top bit is
/// `t >= w / 2`, and consuming it keeps the same shape at half the width.
proof fn lemma_take_top_bit(n: int, m: int, t: int, w: int, s: int, rest: int, shifted: int, top: bool)
    requires
        w >= 2,
        w % 2 == 0,
        w * s == pow256(),
        s >= 1,
        n == m * w + t,
        0 <= t < w,
        rest == t * s,
        shifted + (if top { pow256() } else { 0 }) == 2 * rest,
        0 <= shifted < pow256(),
    ensures
        top == (t >= w / 2),
        n == (2 * m + (if top { 1int } else { 0 })) * (w / 2) + (t - (if top { w / 2 } else { 0 })),
        0 <= t - (if top { w / 2 } else { 0 }) < w / 2,
        shifted == (t - (if top { w / 2 } else { 0 })) * (2 * s),
        (w / 2) * (2 * s) == pow256(),
{
    let h = w / 2;
    assert(w == 2 * h);
    assert(h * (2 * s) == pow256()) by (nonlinear_arith)
        requires
            w == 2 * h,
            w * s == pow256(),
    ;
    if top {
        assert(t >= h) by (nonlinear_arith)
            requires
                shifted + pow256() == 2 * (t * s),
                shifted >= 0,
                h * (2 * s) == pow256(),
                s >= 1,
        ;
        assert(shifted == (t - h) * (2 * s)) by (nonlinear_arith)
            requires
                shifted + pow256() == 2 * (t * s),
                h * (2 * s) == pow256(),
        ;
    } else {
        assert(t < h) by (nonlinear_arith)
            requires
                shifted == 2 * (t * s),
                shifted < pow256(),
                h * (2 * s) == pow256(),
                s >= 1,
        ;
        assert(shifted == t * (2 * s)) by (nonlinear_arith)
            requires
                shifted == 2 * (t * s),
        ;
    }
    assert(n == (2 * m + (if top { 1int } else { 0 })) * h + (t - (if top { h } else { 0 }))) by (nonlinear_arith)
        requires
            n == m * w + t,
            w == 2 * h,
    ;
}

/// One step of long division: with `m == q * d + r`, `r < d`, bringing down `bit`
/// gives `2 * m + bit == (2 * q + take) * d + r'`.
proof fn lemma_division_step(m: int, q: int, d: int, r: int, v: int, take: bool, r_next: int)
    requires
        0 < d < pow256(),
        m == q * d + r,
        0 <= r < d,
        0 <= v - 2 * r <= 1,
        take == (v >= d),
        r_next == if take { v - d } else { v },
    ensures
        2 * m + (v - 2 * r) == (2 * q + (if take { 1int } else { 0 })) * d + r_next,
        0 <= r_next < d,
{
    assert(2 * m + (v - 2 * r) == 2 * q * d + v) by (nonlinear_arith)
        requires
            m == q * d + r,
    ;
    assert((2 * q + (if take { 1int } else { 0 })) * d == 2 * q * d + (if take { d } else { 0 })) by (nonlinear_arith);
}

/// `(n * 2^64) / d`, and whether the division leaves a remainder, when the quotient fits
/// in a `u128`; `None` when it does not. Schoolbook binary long division over the 320
/// bits of `n * 2^64`.
pub(crate) fn shl64_div(n: &U256, d: &U256) -> (r: Option<(u128, bool)>)
    requires
        d.value() > 0,
    ensures
        match r {
            Some((q, rem)) => q == (n.value() * pow64()) / d.value() && rem == ((n.value() * pow64()) % d.value()
                != 0),
            None => (n.value() * pow64()) / d.value() > u128::MAX,
        },
{
    proof {
        lemma_value_bounds(*n);
        lemma_value_bounds(*d);
        lemma_two_pow_values();
    }
    let mut rest = *n;
    let mut rem = U256([0, 0]);
    let mut q: u128 = 0;
    let mut over = false;
    // bits of `n * 2^64` consumed so far, and the quotient and the part of `n` they leave
    let ghost mut m: int = 0;
    let ghost mut qt: int = 0;
    let ghost mut t: int = n.value();
    let ghost mut w: int = pow256();
    let ghost mut s: int = 1;
    let mut i: usize = 0;
    while i < 320
        invariant
            0 <= i <= 320,
            0 < d.value() < pow256(),
            0 <= n.value() < pow256(),
            two_pow(256) == pow256(),
            two_pow(64) == pow64(),
            i <= 256 ==> {
                &&& w == two_pow((256 - i) as nat)
                &&& w * s == pow256()
                &&& s >= 1
                &&& n.value() == m * w + t
                &&& 0 <= t < w
                &&& rest.value() == t * s
            },
            i >= 256 ==> m == n.value() * two_pow((i - 256) as nat),
            m == qt * d.value() + rem.value(),
            0 <= rem.value() < d.value(),
            qt >= 0,
            over ==> qt > u128::MAX,
            !over ==> q == qt,
        decreases 320 - i,
    {
        let bit: bool;
        if i < 256 {
            let (shifted, top) = rest.shl1(false);
            proof {
                lemma_value_bounds(shifted);
                assert(two_pow((256 - i) as nat) == 2 * two_pow((256 - i - 1) as nat));
                assert(w % 2 == 0);
                lemma_take_top_bit(n.value(), m, t, w, s, rest.value(), shifted.value(), top);
                if i + 1 == 256 {
                    assert(two_pow(0) == 1);
                }
            }
            bit = top;
            rest = shifted;
            proof {
                t = t - (if top { w / 2 } else { 0 });
                m = 2 * m + (if top { 1int } else { 0 });
                w = w / 2;
                s = 2 * s;
                if i + 1 == 256 {
                    assert(w == 1);
                    assert(t == 0);
                    assert(n.value() == m * w + t);
                    assert(m * w == m) by (nonlinear_arith)
                        requires
                            w == 1,
                    ;
                    assert(m == n.value() * two_pow(0));
                }
            }
        } else {
            bit = false;
            proof {
                assert(two_pow((i + 1 - 256) as nat) == 2 * two_pow((i - 256) as nat));
                assert(2 * (n.value() * two_pow((i - 256) as nat)) == n.value() * two_pow((i + 1 - 256) as nat))
                    by (nonlinear_arith)
                    requires
                        two_pow((i + 1 - 256) as nat) == 2 * two_pow((i - 256) as nat),
                ;
                m = 2 * m;
            }
        }
        // bring the bit down into the remainder
        let ghost m_prev: int = if bit { (m - 1) / 2 } else { m / 2 };
        let (doubled, carry) = rem.shl1(bit);
        proof {
            lemma_value_bounds(doubled);
        }
        let take = carry || doubled.ge(d);
        let ghost v: int = doubled.value() + (if carry { pow256() } else { 0 });
        let ghost r_prev: int = rem.value();
        if take {
            rem = doubled.wrapping_sub(d);
        } else {
            rem = doubled;
        }
        proof {
            lemma_division_step(m_prev, qt, d.value(), r_prev, v, take, rem.value());
            qt = 2 * qt + (if take { 1int } else { 0 });
        }
        if !over {
            if q >= 0x8000_0000_0000_0000_0000_0000_0000_0000 {
                over = true;
            } else {
                q = 2 * q + if take { 1 } else { 0 };
            }
        }
        i += 1;
    }
    proof {
        vstd::arithmetic::div_mod::lemma_fundamental_div_mod_converse(m, d.value(), qt, rem.value());
    }
    if over {
        None
    } else {
        Some((q, !rem.is_zero()))
    }
}

} // verus!
