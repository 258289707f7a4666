//! The scalar of the renderer: a 16.16 fixed-point number.
//!
//! All operations are total.  Sums and products saturate at the `i64`
//! range and a division by zero yields zero, so no operation panics and
//! every result is pinned exactly by the spec functions below.

use vstd::prelude::*;

verus! {

/// A fixed-point scalar standing for the real value `bits / 65536`.
#[derive(Clone, Copy, Debug, PartialEq, Eq, Structural)]
pub struct Fx {
    pub bits: i64,
}

/// One whole unit (`1.0`) in fixed-point bits.
pub const FX_ONE: i64 = 65536;

/// Half a unit, used when rounding to the nearest integer.
pub const FX_HALF: i64 = 32768;

pub open spec fn iabs(a: int) -> int {
    if a < 0 {
        -a
    } else {
        a
    }
}

/// Clamp an unbounded integer into the `i64` range.
pub open spec fn sat64(a: int) -> int {
    if a > i64::MAX as int {
        i64::MAX as int
    } else if a < i64::MIN as int {
        i64::MIN as int
    } else {
        a
    }
}

/// Division truncating toward zero, as machine division does.
pub open spec fn tdiv(a: int, b: int) -> int
    recommends
        b != 0,
{
    if (a < 0) == (b < 0) {
        iabs(a) / iabs(b)
    } else {
        -(iabs(a) / iabs(b))
    }
}

pub open spec fn fx_add_bits(a: int, b: int) -> int {
    sat64(a + b)
}

pub open spec fn fx_sub_bits(a: int, b: int) -> int {
    sat64(a - b)
}

pub open spec fn fx_neg_bits(a: int) -> int {
    sat64(-a)
}

pub open spec fn fx_abs_bits(a: int) -> int {
    sat64(iabs(a))
}

pub open spec fn fx_mul_bits(a: int, b: int) -> int {
    sat64(tdiv(a * b, FX_ONE as int))
}

pub open spec fn fx_div_bits(a: int, b: int) -> int {
    if b == 0 {
        0
    } else {
        sat64(tdiv(a * (FX_ONE as int), b))
    }
}

/// The nearest integer, halves rounded away from zero.
pub open spec fn fx_round_bits(a: int) -> int {
    if a >= 0 {
        (a + FX_HALF as int) / (FX_ONE as int)
    } else {
        -((-a + FX_HALF as int) / (FX_ONE as int))
    }
}

/// The integer part, truncated toward zero.
pub open spec fn fx_trunc_bits(a: int) -> int {
    tdiv(a, FX_ONE as int)
}

/// The greatest integer at or below the value.
pub open spec fn fx_floor_bits(a: int) -> int {
    a / (FX_ONE as int)
}

/// The scalar with the given bits, as a spec-level value.
pub open spec fn fxb(a: int) -> Fx {
    Fx { bits: a as i64 }
}

/// Clamp an integer into `[lo, hi]`.
pub open spec fn clamp_int(v: int, lo: int, hi: int) -> int {
    if v < lo {
        lo
    } else if v > hi {
        hi
    } else {
        v
    }
}

/// The smaller of two values.
pub open spec fn min_int(a: int, b: int) -> int {
    if a <= b {
        a
    } else {
        b
    }
}

/// The larger of two values.
pub open spec fn max_int(a: int, b: int) -> int {
    if a >= b {
        a
    } else {
        b
    }
}

/// `r` is the integer square root of `n`.
pub open spec fn is_isqrt(n: int, r: int) -> bool {
    0 <= r && r * r <= n && n < (r + 1) * (r + 1)
}

/// The integer square root, as the unique root the predicate above admits.
pub open spec fn isqrt_int(n: int) -> int
    recommends
        n >= 0,
{
    choose|r: int| is_isqrt(n, r)
}

/// The square root of a fixed-point value; zero for a nonpositive one.
pub open spec fn fx_sqrt_bits(a: int) -> int {
    if a <= 0 {
        0
    } else {
        isqrt_int(a * (FX_ONE as int))
    }
}

/// Dividing by one gives the value back.
pub proof fn lemma_fx_div_one(x: int)
    requires
        i64::MIN <= x <= i64::MAX,
    ensures
        fx_div_bits(x, FX_ONE as int) == x,
{
    if x >= 0 {
        assert(x * 65536 >= 0) by (nonlinear_arith)
            requires x >= 0;
        assert(iabs(x * 65536) == x * 65536);
        assert((x * 65536) / 65536 == x) by {
            vstd::arithmetic::div_mod::lemma_div_multiples_vanish(x, 65536);
        }
    } else {
        assert(x * 65536 < 0) by (nonlinear_arith)
            requires x < 0;
        assert(-(x * 65536) == (-x) * 65536) by (nonlinear_arith);
        assert(iabs(x * 65536) == (-x) * 65536);
        assert(((-x) * 65536) / 65536 == -x) by {
            vstd::arithmetic::div_mod::lemma_div_multiples_vanish(-x, 65536);
        }
    }
}

/// Multiplying by one gives the value back.
pub proof fn lemma_fx_mul_one(x: int)
    requires
        i64::MIN <= x <= i64::MAX,
    ensures
        fx_mul_bits(x, FX_ONE as int) == x,
{
    if x >= 0 {
        assert(x * 65536 >= 0) by (nonlinear_arith)
            requires x >= 0;
        assert(iabs(x * 65536) == x * 65536);
        assert((x * 65536) / 65536 == x) by {
            vstd::arithmetic::div_mod::lemma_div_multiples_vanish(x, 65536);
        }
    } else {
        assert(x * 65536 < 0) by (nonlinear_arith)
            requires x < 0;
        assert(-(x * 65536) == (-x) * 65536) by (nonlinear_arith);
        assert(iabs(x * 65536) == (-x) * 65536);
        assert(((-x) * 65536) / 65536 == -x) by {
            vstd::arithmetic::div_mod::lemma_div_multiples_vanish(-x, 65536);
        }
    }
}

/// Truncating division is odd in its numerator.
pub proof fn lemma_tdiv_neg_num(a: int, b: int)
    requires
        b != 0,
    ensures
        tdiv(-a, b) == -tdiv(a, b),
{
}

/// The fixed-point product of two bounded scalars neither saturates
/// nor leaves a safe range, and negating one factor negates it.
pub proof fn lemma_fx_mul_small(a: int, b: int)
    requires
        iabs(a) <= 0x40000000,
        iabs(b) <= 0x40000000,
    ensures
        fx_mul_bits(a, b) == tdiv(a * b, FX_ONE as int),
        iabs(fx_mul_bits(a, b)) <= 0x100000000000,
        fx_mul_bits(fx_neg_bits(a), b) == -fx_mul_bits(a, b),
{
    assert(-0x1000000000000000 <= a * b <= 0x1000000000000000) by (nonlinear_arith)
        requires
            -0x40000000 <= a <= 0x40000000,
            -0x40000000 <= b <= 0x40000000,
    ;
    let q = tdiv(a * b, 65536);
    assert(iabs(q) <= iabs(a * b)) by {
        vstd::arithmetic::div_mod::lemma_div_nonincreasing(iabs(a * b), 65536);
    }
    assert(iabs(q) <= 0x100000000000) by {
        assert(iabs(q) * 65536 <= iabs(a * b)) by {
            vstd::arithmetic::div_mod::lemma_fundamental_div_mod(iabs(a * b), 65536);
            vstd::arithmetic::div_mod::lemma_mod_bound(iabs(a * b), 65536);
            assert(65536 * (iabs(a * b) / 65536) <= iabs(a * b));
            assert(65536 * (iabs(a * b) / 65536) == (iabs(a * b) / 65536) * 65536) by (nonlinear_arith);
        }
        assert(iabs(q) <= 0x100000000000) by (nonlinear_arith)
            requires
                iabs(q) * 65536 <= iabs(a * b),
                iabs(a * b) <= 0x1000000000000000,
                iabs(q) >= 0,
        ;
    }
    assert(fx_neg_bits(a) == -a);
    assert((-a) * b == -(a * b)) by (nonlinear_arith);
    lemma_tdiv_neg_num(a * b, 65536);
}

/// Dividing a nonzero value by itself gives one.
pub proof fn lemma_fx_div_self(a: int)
    requires
        a != 0,
        i64::MIN <= a <= i64::MAX,
    ensures
        fx_div_bits(a, a) == FX_ONE as int,
{
    if a >= 0 {
        assert(a * 65536 >= 0) by (nonlinear_arith)
            requires a > 0;
        assert(iabs(a * 65536) == a * 65536);
        assert((a * 65536) / a == 65536) by {
            assert(a * 65536 == 65536 * a) by (nonlinear_arith);
            vstd::arithmetic::div_mod::lemma_div_multiples_vanish(65536, a);
        }
    } else {
        assert(a * 65536 < 0 && -(a * 65536) == (-a) * 65536) by (nonlinear_arith)
            requires a < 0;
        assert(iabs(a * 65536) == (-a) * 65536);
        assert(((-a) * 65536) / (-a) == 65536) by {
            assert((-a) * 65536 == 65536 * (-a)) by (nonlinear_arith);
            vstd::arithmetic::div_mod::lemma_div_multiples_vanish(65536, -a);
        }
    }
}

/// The integer square root predicate picks out exactly one root.
pub proof fn lemma_isqrt_unique(n: int, r: int)
    requires
        is_isqrt(n, r),
    ensures
        isqrt_int(n) == r,
{
    assert(exists|x: int| is_isqrt(n, x)) by {
        assert(is_isqrt(n, r));
    }
    let c = isqrt_int(n);
    assert(is_isqrt(n, c));
    assert(c == r) by (nonlinear_arith)
        requires
            0 <= c,
            c * c <= n,
            n < (c + 1) * (c + 1),
            0 <= r,
            r * r <= n,
            n < (r + 1) * (r + 1),
    ;
}

/// An integer square root exists for every nonnegative integer.
pub proof fn lemma_isqrt_exists(n: int)
    requires
        n >= 0,
    ensures
        is_isqrt(n, isqrt_int(n)),
    decreases n,
{
    if n == 0 {
        assert(is_isqrt(0, 0));
        lemma_isqrt_unique(0, 0);
    } else {
        lemma_isqrt_exists(n - 1);
        let r = isqrt_int(n - 1);
        if (r + 1) * (r + 1) <= n {
            assert(n == (r + 1) * (r + 1));
            assert((r + 2) * (r + 2) > n) by (nonlinear_arith)
                requires
                    n == (r + 1) * (r + 1),
                    r >= 0,
            ;
            assert(is_isqrt(n, r + 1));
            lemma_isqrt_unique(n, r + 1);
        } else {
            assert(is_isqrt(n, r));
            lemma_isqrt_unique(n, r);
        }
    }
}

/// The fixed-point square of a small scalar is its floored exact
/// square.
pub proof fn lemma_fx_sq_small(b: int)
    requires
        iabs(b) <= 0x2000000,
    ensures
        0 <= fx_mul_bits(b, b) <= 0x4000000000000,
        65536 * fx_mul_bits(b, b) <= b * b,
        b * b < 65536 * fx_mul_bits(b, b) + 65536,
{
    assert(b * b >= 0 && b * b <= 0x4000000000000 * 65536) by (nonlinear_arith)
        requires -0x2000000 <= b <= 0x2000000;
    assert(iabs(b * b) == b * b);
    let q = (b * b) / 65536;
    vstd::arithmetic::div_mod::lemma_fundamental_div_mod(b * b, 65536);
    vstd::arithmetic::div_mod::lemma_mod_bound(b * b, 65536);
    vstd::arithmetic::div_mod::lemma_div_pos_is_pos(b * b, 65536);
    vstd::arithmetic::div_mod::lemma_div_is_ordered(b * b, (0x4000000000000 * 65536) as int, 65536);
    assert(tdiv(b * b, 65536) == q);
    assert(fx_mul_bits(b, b) == sat64(q));
    assert(sat64(q) == q);
}

/// Dividing a small scalar by a positive one: the magnitude of the
/// result brackets the exact ratio.
pub proof fn lemma_fx_div_mag(b: int, l: int)
    requires
        l > 0,
        iabs(b) <= 0x4000000,
    ensures
        iabs(fx_div_bits(b, l)) * l <= iabs(b) * 65536,
        iabs(b) * 65536 < (iabs(fx_div_bits(b, l)) + 1) * l,
        iabs(fx_div_bits(b, l)) <= 0x40000000000,
        fx_div_bits(b, l) * fx_div_bits(b, l) == iabs(fx_div_bits(b, l)) * iabs(fx_div_bits(b, l)),
{
    let a = iabs(b);
    assert(iabs(b * 65536) == a * 65536) by (nonlinear_arith)
        requires a == iabs(b) && (b >= 0 ==> a == b) && (b < 0 ==> a == -b);
    let q = (a * 65536) / l;
    vstd::arithmetic::div_mod::lemma_fundamental_div_mod(a * 65536, l);
    vstd::arithmetic::div_mod::lemma_mod_bound(a * 65536, l);
    vstd::arithmetic::div_mod::lemma_div_pos_is_pos(a * 65536, l);
    assert(a * 65536 <= 0x40000000000) by (nonlinear_arith)
        requires 0 <= a <= 0x4000000;
    vstd::arithmetic::div_mod::lemma_div_is_ordered(a * 65536, 0x40000000000int, l);
    assert(0x40000000000int / l <= 0x40000000000int) by {
        vstd::arithmetic::div_mod::lemma_div_nonincreasing(0x40000000000int, l);
    }
    assert(q * l <= a * 65536 && a * 65536 < (q + 1) * l) by (nonlinear_arith)
        requires
            a * 65536 == l * q + (a * 65536) % l,
            0 <= (a * 65536) % l < l,
    ;
    if b >= 0 {
        assert(tdiv(b * 65536, l) == q);
        assert(fx_div_bits(b, l) == q);
        assert(iabs(fx_div_bits(b, l)) == q);
    } else {
        assert(tdiv(b * 65536, l) == -q);
        assert(fx_div_bits(b, l) == sat64(-q));
        assert(sat64(-q) == -q);
        assert(iabs(fx_div_bits(b, l)) == q);
    }
    assert(fx_div_bits(b, l) * fx_div_bits(b, l) == q * q) by (nonlinear_arith)
        requires fx_div_bits(b, l) == q || fx_div_bits(b, l) == -q;
}

/// Saturate a 128-bit value into the `i64` range.
fn sat_to_i64(a: i128) -> (r: i64)
    ensures
        r as int == sat64(a as int),
{
    if a > i64::MAX as i128 {
        i64::MAX
    } else if a < i64::MIN as i128 {
        i64::MIN
    } else {
        a as i64
    }
}

/// Truncating 128-bit division, computed on unsigned magnitudes.
fn tdiv_i128(a: i128, b: i128) -> (r: i128)
    requires
        b != 0,
        a != i128::MIN,
        b != i128::MIN,
    ensures
        r as int == tdiv(a as int, b as int),
{
    let ua: u128 = if a < 0 {
        (-a) as u128
    } else {
        a as u128
    };
    let ub: u128 = if b < 0 {
        (-b) as u128
    } else {
        b as u128
    };
    let q: u128 = ua / ub;
    proof {
        assert(ua as int == iabs(a as int));
        assert(ub as int == iabs(b as int));
        assert(q <= ua) by {
            vstd::arithmetic::div_mod::lemma_div_nonincreasing(ua as int, ub as int);
        }
    }
    if (a < 0) == (b < 0) {
        q as i128
    } else {
        -(q as i128)
    }
}

/// Integer square root: the greatest `r` with `r * r <= n`.
fn isqrt_u128(n: u128) -> (r: u128)
    requires
        n < 1208925819614629174706176,  // 2^80
    ensures
        r * r <= n,
        n < (r + 1) * (r + 1),
{
    let mut lo: u128 = 0;
    let mut hi: u128 = 1099511627776;  // 2^40
    proof {
        assert((1099511627776 as int) * (1099511627776 as int) == 1208925819614629174706176) by (nonlinear_arith);
    }
    while lo + 1 < hi
        invariant
            lo < hi,
            hi <= 1099511627776,
            lo * lo <= n,
            n < hi * hi,
        decreases hi - lo,
    {
        let mid: u128 = lo + (hi - lo) / 2;
        proof {
            assert(lo < mid < hi) by {
                assert((hi - lo) / 2 >= 1 && (hi - lo) / 2 < hi - lo) by (nonlinear_arith)
                    requires hi - lo >= 2;
            }
            assert((mid as int) * (mid as int) <= (1099511627776 as int) * (1099511627776 as int)) by (nonlinear_arith)
                requires 0 <= mid as int <= 1099511627776;
        }
        if mid * mid <= n {
            lo = mid;
        } else {
            hi = mid;
        }
    }
    lo
}

impl Fx {
    /// The scalar with the given raw 16.16 bits.
    pub fn from_bits(bits: i64) -> (r: Fx)
        ensures
            r.bits == bits,
    {
        Fx { bits }
    }

    /// The scalar standing for the integer `v`.
    pub fn from_int(v: i64) -> (r: Fx)
        requires
            -140737488355328 <= v <= 140737488355327,  // |v| < 2^47
        ensures
            r.bits == v * FX_ONE,
    {
        Fx { bits: v * FX_ONE }
    }

    pub fn zero() -> (r: Fx)
        ensures
            r.bits == 0,
    {
        Fx { bits: 0 }
    }

    pub fn one() -> (r: Fx)
        ensures
            r.bits == FX_ONE,
    {
        Fx { bits: FX_ONE }
    }

    pub fn add(self, o: Fx) -> (r: Fx)
        ensures
            r.bits == fx_add_bits(self.bits as int, o.bits as int),
    {
        let s: i128 = self.bits as i128 + o.bits as i128;
        Fx { bits: sat_to_i64(s) }
    }

    pub fn sub(self, o: Fx) -> (r: Fx)
        ensures
            r.bits == fx_sub_bits(self.bits as int, o.bits as int),
    {
        let s: i128 = self.bits as i128 - o.bits as i128;
        Fx { bits: sat_to_i64(s) }
    }

    pub fn neg(self) -> (r: Fx)
        ensures
            r.bits == fx_neg_bits(self.bits as int),
    {
        let s: i128 = -(self.bits as i128);
        Fx { bits: sat_to_i64(s) }
    }

    pub fn mul(self, o: Fx) -> (r: Fx)
        ensures
            r.bits == fx_mul_bits(self.bits as int, o.bits as int),
    {
        proof {
            assert(-0x40000000000000000000000000000000 <= (self.bits as int) * (o.bits as int)
                <= 0x40000000000000000000000000000000) by (nonlinear_arith)
                requires
                    -0x8000000000000000 <= self.bits as int <= 0x7fffffffffffffff,
                    -0x8000000000000000 <= o.bits as int <= 0x7fffffffffffffff;
        }
        let p: i128 = (self.bits as i128) * (o.bits as i128);
        let q: i128 = tdiv_i128(p, FX_ONE as i128);
        Fx { bits: sat_to_i64(q) }
    }

    pub fn div(self, o: Fx) -> (r: Fx)
        ensures
            r.bits == fx_div_bits(self.bits as int, o.bits as int),
    {
        if o.bits == 0 {
            Fx { bits: 0 }
        } else {
            let p: i128 = (self.bits as i128) * 65536;
            let q: i128 = tdiv_i128(p, o.bits as i128);
            Fx { bits: sat_to_i64(q) }
        }
    }

    /// The square root of a nonnegative scalar; zero for a nonpositive one.
    pub fn sqrt(self) -> (r: Fx)
        ensures
            r.bits == fx_sqrt_bits(self.bits as int),
    {
        if self.bits <= 0 {
            Fx { bits: 0 }
        } else {
            let n: u128 = (self.bits as u128) * 65536;
            let r: u128 = isqrt_u128(n);
            proof {
                assert(r < 1099511627776) by (nonlinear_arith)
                    requires
                        (r as int) * (r as int) <= n as int,
                        n < 1208925819614629174706176,
                        (1099511627776 as int) * (1099511627776 as int) == 1208925819614629174706176;
                lemma_isqrt_unique(n as int, r as int);
            }
            Fx { bits: r as i64 }
        }
    }

    /// The absolute value, saturated into the `i64` range.
    pub fn abs(self) -> (r: Fx)
        ensures
            r.bits == fx_abs_bits(self.bits as int),
    {
        if self.bits < 0 {
            self.neg()
        } else {
            self
        }
    }

    pub fn min(self, o: Fx) -> (r: Fx)
        ensures
            r.bits == if self.bits <= o.bits { self.bits as int } else { o.bits as int },
    {
        if self.bits <= o.bits {
            self
        } else {
            o
        }
    }

    pub fn max(self, o: Fx) -> (r: Fx)
        ensures
            r.bits == if self.bits >= o.bits { self.bits as int } else { o.bits as int },
    {
        if self.bits >= o.bits {
            self
        } else {
            o
        }
    }

    /// The nearest integer, halves rounded away from zero.
    pub fn round_i64(self) -> (r: i64)
        ensures
            r as int == fx_round_bits(self.bits as int),
    {
        if self.bits >= 0 {
            let m: u64 = self.bits as u64 + FX_HALF as u64;
            let q: u64 = m / (FX_ONE as u64);
            proof {
                assert(q < 0x8000000000000000) by {
                    vstd::arithmetic::div_mod::lemma_div_nonincreasing(m as int, FX_ONE as int);
                    assert(m as int / (FX_ONE as int) < 0x8000000000000000) by (nonlinear_arith)
                        requires
                            m <= 0x7fffffffffffffff + 32768,
                            m as int / 65536 <= m as int / 65536,
                            65536 * (m as int / 65536) <= m as int;
                }
            }
            q as i64
        } else {
            let m: u64 = ((-(self.bits as i128)) as u64) + FX_HALF as u64;
            let q: u64 = m / (FX_ONE as u64);
            proof {
                assert(q < 0x8000000000000000) by (nonlinear_arith)
                    requires
                        m <= 0x8000000000000000 + 32768,
                        65536 * (q as int) <= m as int,
                        q as int == m as int / 65536;
            }
            -(q as i64)
        }
    }

    /// The greatest integer at or below the value.
    pub fn floor_i64(self) -> (r: i64)
        ensures
            r as int == fx_floor_bits(self.bits as int),
    {
        if self.bits >= 0 {
            let q: u64 = (self.bits as u64) / (FX_ONE as u64);
            proof {
                vstd::arithmetic::div_mod::lemma_div_nonincreasing(self.bits as int, FX_ONE as int);
            }
            q as i64
        } else {
            let m: u64 = (-(self.bits as i128)) as u64;
            let q: u64 = (m + FX_ONE as u64 - 1) / (FX_ONE as u64);
            proof {
                let a = self.bits as int;
                let s = FX_ONE as int;
                vstd::arithmetic::div_mod::lemma_div_nonincreasing(m as int + s - 1, s);
                vstd::arithmetic::div_mod::lemma_fundamental_div_mod(m as int + s - 1, s);
                vstd::arithmetic::div_mod::lemma_fundamental_div_mod(a, s);
                vstd::arithmetic::div_mod::lemma_mod_bound(a, s);
                vstd::arithmetic::div_mod::lemma_mod_bound(m as int + s - 1, s);
                assert(-(q as int) == a / s) by (nonlinear_arith)
                    requires
                        m as int == -a,
                        s == 65536,
                        (m as int + s - 1) == s * (q as int) + ((m as int + s - 1) % s),
                        0 <= (m as int + s - 1) % s < s,
                        a == s * (a / s) + a % s,
                        0 <= a % s < s,
                ;
            }
            -(q as i64)
        }
    }

    /// The integer part, truncated toward zero.
    pub fn trunc_i64(self) -> (r: i64)
        ensures
            r as int == fx_trunc_bits(self.bits as int),
    {
        if self.bits >= 0 {
            let q: u64 = (self.bits as u64) / (FX_ONE as u64);
            proof {
                vstd::arithmetic::div_mod::lemma_div_nonincreasing(self.bits as int, FX_ONE as int);
            }
            q as i64
        } else {
            let m: u64 = (-(self.bits as i128)) as u64;
            let q: u64 = m / (FX_ONE as u64);
            proof {
                assert(q <= 0x8000000000000000) by {
                    vstd::arithmetic::div_mod::lemma_div_nonincreasing(m as int, FX_ONE as int);
                }
            }
            -(q as i64)
        }
    }
}

} // verus!
