//! Fixed-dimension vectors of fixed-point scalars.
//!
//! A `Vector` is an ordered sequence of components; the constructors pin
//! its length and every operation states the exact bits of its result.

use vstd::prelude::*;
use crate::fixed::{Fx, FX_ONE, fxb};
use crate::fixed::{fx_add_bits, fx_sub_bits, fx_mul_bits, fx_div_bits, fx_sqrt_bits};

verus! {

#[derive(Debug)]
pub struct Vector {
    pub v: Vec<Fx>,
}

/// Saturating fixed-point sum of the squares of a sequence of scalars.
pub open spec fn sq_sum_bits(s: Seq<Fx>) -> int
    decreases s.len(),
{
    if s.len() == 0 {
        0
    } else {
        fx_add_bits(sq_sum_bits(s.drop_last()), fx_mul_bits(s.last().bits as int, s.last().bits as int))
    }
}

/// Saturating fixed-point dot product of two equal-length sequences.
pub open spec fn dot_bits(a: Seq<Fx>, b: Seq<Fx>) -> int
    recommends
        a.len() == b.len(),
    decreases a.len(),
{
    if a.len() == 0 || a.len() != b.len() {
        0
    } else {
        fx_add_bits(dot_bits(a.drop_last(), b.drop_last()), fx_mul_bits(a.last().bits as int, b.last().bits as int))
    }
}

/// The euclidean length of a component sequence, in fixed-point bits.
pub open spec fn length_bits(s: Seq<Fx>) -> int {
    fx_sqrt_bits(sq_sum_bits(s))
}

/// Linear interpolation `x1 + (x2 - x1) * t`, in fixed-point bits.
pub open spec fn interp_bits(x1: int, x2: int, t: int) -> int {
    fx_add_bits(x1, fx_mul_bits(fx_sub_bits(x2, x1), t))
}

/// Componentwise difference of two component sequences.
pub open spec fn sub_seq(a: Seq<Fx>, b: Seq<Fx>) -> Seq<Fx> {
    Seq::new(a.len(), |i: int| fxb(fx_sub_bits(a[i].bits as int, b[i].bits as int)))
}

/// Componentwise sum of two component sequences.
pub open spec fn add_seq(a: Seq<Fx>, b: Seq<Fx>) -> Seq<Fx> {
    Seq::new(a.len(), |i: int| fxb(fx_add_bits(a[i].bits as int, b[i].bits as int)))
}

/// A component sequence scaled by the reciprocal of its length.
pub open spec fn norm_seq(s: Seq<Fx>) -> Seq<Fx> {
    Seq::new(s.len(), |i: int| fxb(fx_div_bits(s[i].bits as int, length_bits(s))))
}

/// The perspective divide of a homogeneous component sequence.
pub open spec fn divide_seq(s: Seq<Fx>) -> Seq<Fx>
    recommends
        s.len() == 4,
{
    seq![
        fxb(fx_div_bits(s[0].bits as int, s[3].bits as int)),
        fxb(fx_div_bits(s[1].bits as int, s[3].bits as int)),
        fxb(fx_div_bits(s[2].bits as int, s[3].bits as int)),
        fxb(FX_ONE as int),
    ]
}

/// The depth remap `z' = (n - f)/2 * z + (n + f)/2` of a homogeneous
/// component sequence.
pub open spec fn reset_z_seq(s: Seq<Fx>, n: int, f: int) -> Seq<Fx>
    recommends
        s.len() == 4,
{
    seq![
        s[0],
        s[1],
        fxb(fx_add_bits(
            fx_mul_bits(fx_div_bits(fx_sub_bits(n, f), 2 * (FX_ONE as int)), s[2].bits as int),
            fx_div_bits(fx_add_bits(n, f), 2 * (FX_ONE as int)),
        )),
        s[3],
    ]
}

/// After a perspective divide the weight is exactly one, and dividing
/// again is a no-op.
pub proof fn lemma_divide_w_idempotent(s: Seq<Fx>)
    requires
        s.len() == 4,
    ensures
        divide_seq(s)[3].bits == FX_ONE,
        divide_seq(divide_seq(s)) =~= divide_seq(s),
{
    let d = divide_seq(s);
    crate::fixed::lemma_fx_div_one(d[0].bits as int);
    crate::fixed::lemma_fx_div_one(d[1].bits as int);
    crate::fixed::lemma_fx_div_one(d[2].bits as int);
    crate::fixed::lemma_fx_div_one(FX_ONE as int);
    assert(divide_seq(d)[0] == d[0]);
    assert(divide_seq(d)[1] == d[1]);
    assert(divide_seq(d)[2] == d[2]);
    assert(divide_seq(d)[3] == d[3]);
}

/// The 3-D cross product of two homogeneous vectors, with `w` one.
pub open spec fn cross4_seq(a: Seq<Fx>, b: Seq<Fx>) -> Seq<Fx> {
    seq![
        fxb(fx_sub_bits(
            fx_mul_bits(a[1].bits as int, b[2].bits as int),
            fx_mul_bits(a[2].bits as int, b[1].bits as int),
        )),
        fxb(fx_sub_bits(
            fx_mul_bits(a[2].bits as int, b[0].bits as int),
            fx_mul_bits(a[0].bits as int, b[2].bits as int),
        )),
        fxb(fx_sub_bits(
            fx_mul_bits(a[0].bits as int, b[1].bits as int),
            fx_mul_bits(a[1].bits as int, b[0].bits as int),
        )),
        fxb(FX_ONE as int),
    ]
}

pub proof fn lemma_take_step<T>(s: Seq<T>, i: int)
    requires
        0 <= i < s.len(),
    ensures
        s.take(i + 1).drop_last() =~= s.take(i),
        s.take(i + 1).last() == s[i],
{
}

impl Vector {
    /// A vector of `n` zero components.
    pub fn new(n: usize) -> (r: Vector)
        ensures
            r.v@.len() == n,
            forall|j: int| 0 <= j < n ==> r.v@[j].bits == 0,
    {
        let mut v: Vec<Fx> = Vec::new();
        let mut i: usize = 0;
        while i < n
            invariant
                i <= n,
                v@.len() == i,
                forall|j: int| 0 <= j < i ==> v@[j].bits == 0,
            decreases n - i,
        {
            v.push(Fx::zero());
            i = i + 1;
        }
        Vector { v }
    }

    pub fn new_2(x: Fx, y: Fx) -> (r: Vector)
        ensures
            r.v@.len() == 2,
            r.v@[0] == x,
            r.v@[1] == y,
    {
        let mut v: Vec<Fx> = Vec::new();
        v.push(x);
        v.push(y);
        Vector { v }
    }

    pub fn new_3(x: Fx, y: Fx, z: Fx) -> (r: Vector)
        ensures
            r.v@.len() == 3,
            r.v@[0] == x,
            r.v@[1] == y,
            r.v@[2] == z,
    {
        let mut v: Vec<Fx> = Vec::new();
        v.push(x);
        v.push(y);
        v.push(z);
        Vector { v }
    }

    pub fn new_4(x: Fx, y: Fx, z: Fx, w: Fx) -> (r: Vector)
        ensures
            r.v@.len() == 4,
            r.v@[0] == x,
            r.v@[1] == y,
            r.v@[2] == z,
            r.v@[3] == w,
    {
        let mut v: Vec<Fx> = Vec::new();
        v.push(x);
        v.push(y);
        v.push(z);
        v.push(w);
        Vector { v }
    }

    /// The euclidean length, `sqrt` of the sum of squared components.
    pub fn length(&self) -> (r: Fx)
        ensures
            r.bits == length_bits(self.v@),
    {
        let mut acc = Fx::zero();
        let n = self.v.len();
        let mut i: usize = 0;
        while i < n
            invariant
                i <= n,
                n == self.v@.len(),
                acc.bits == sq_sum_bits(self.v@.take(i as int)),
            decreases n - i,
        {
            let x = self.v[i];
            acc = acc.add(x.mul(x));
            proof {
                lemma_take_step(self.v@, i as int);
            }
            i = i + 1;
        }
        proof {
            assert(self.v@.take(n as int) =~= self.v@);
        }
        acc.sqrt()
    }

    /// Scale every component by the reciprocal of the length.
    pub fn normlize(&mut self)
        ensures
            final(self).v@ =~= norm_seq(old(self).v@),
    {
        let ghost orig = self.v@;
        let l = self.length();
        let n = self.v.len();
        let mut i: usize = 0;
        while i < n
            invariant
                i <= n,
                n == orig.len(),
                self.v@.len() == n,
                l.bits == length_bits(orig),
                forall|j: int| 0 <= j < i ==> self.v@[j].bits == fx_div_bits(orig[j].bits as int, l.bits as int),
                forall|j: int| i <= j < n ==> self.v@[j] == orig[j],
            decreases n - i,
        {
            let x = self.v[i];
            self.v[i] = x.div(l);
            i = i + 1;
        }
        proof {
            assert forall|j: int| 0 <= j < n implies self.v@[j] == norm_seq(orig)[j] by {}
            assert(self.v@ =~= norm_seq(orig));
        }
    }

    /// Saturating fixed-point dot product.
    pub fn dot_product(&self, v2: &Vector) -> (r: Fx)
        requires
            self.v@.len() == v2.v@.len(),
        ensures
            r.bits == dot_bits(self.v@, v2.v@),
    {
        let mut acc = Fx::zero();
        let n = self.v.len();
        let mut i: usize = 0;
        proof {
            assert(self.v@.take(0) =~= Seq::<Fx>::empty());
            assert(v2.v@.take(0) =~= Seq::<Fx>::empty());
        }
        while i < n
            invariant
                i <= n,
                n == self.v@.len(),
                n == v2.v@.len(),
                acc.bits == dot_bits(self.v@.take(i as int), v2.v@.take(i as int)),
            decreases n - i,
        {
            acc = acc.add(self.v[i].mul(v2.v[i]));
            proof {
                lemma_take_step(self.v@, i as int);
                lemma_take_step(v2.v@, i as int);
            }
            i = i + 1;
        }
        proof {
            assert(self.v@.take(n as int) =~= self.v@);
            assert(v2.v@.take(n as int) =~= v2.v@);
        }
        acc
    }

    /// Componentwise difference.
    pub fn sub(&self, other: &Vector) -> (r: Vector)
        requires
            self.v@.len() == other.v@.len(),
        ensures
            r.v@ =~= sub_seq(self.v@, other.v@),
    {
        let mut v: Vec<Fx> = Vec::new();
        let n = self.v.len();
        let mut i: usize = 0;
        while i < n
            invariant
                i <= n,
                n == self.v@.len(),
                n == other.v@.len(),
                v@.len() == i,
                forall|j: int| 0 <= j < i ==> v@[j].bits == fx_sub_bits(self.v@[j].bits as int, other.v@[j].bits as int),
            decreases n - i,
        {
            v.push(self.v[i].sub(other.v[i]));
            i = i + 1;
        }
        proof {
            assert forall|j: int| 0 <= j < n implies v@[j] == sub_seq(self.v@, other.v@)[j] by {}
            assert(v@ =~= sub_seq(self.v@, other.v@));
        }
        Vector { v }
    }

    /// Componentwise sum.
    pub fn add(&self, rhs: &Vector) -> (r: Vector)
        requires
            self.v@.len() == rhs.v@.len(),
        ensures
            r.v@ =~= add_seq(self.v@, rhs.v@),
    {
        let mut v: Vec<Fx> = Vec::new();
        let n = self.v.len();
        let mut i: usize = 0;
        while i < n
            invariant
                i <= n,
                n == self.v@.len(),
                n == rhs.v@.len(),
                v@.len() == i,
                forall|j: int| 0 <= j < i ==> v@[j].bits == fx_add_bits(self.v@[j].bits as int, rhs.v@[j].bits as int),
            decreases n - i,
        {
            v.push(self.v[i].add(rhs.v[i]));
            i = i + 1;
        }
        proof {
            assert forall|j: int| 0 <= j < n implies v@[j] == add_seq(self.v@, rhs.v@)[j] by {}
            assert(v@ =~= add_seq(self.v@, rhs.v@));
        }
        Vector { v }
    }

    pub fn x(&self) -> (c: Fx)
        requires
            self.v@.len() >= 1,
        ensures
            c == self.v@[0],
    {
        self.v[0]
    }

    pub fn u(&self) -> (c: Fx)
        requires
            self.v@.len() >= 1,
        ensures
            c == self.v@[0],
    {
        self.v[0]
    }

    pub fn r(&self) -> (c: Fx)
        requires
            self.v@.len() >= 1,
        ensures
            c == self.v@[0],
    {
        self.v[0]
    }

    pub fn y(&self) -> (c: Fx)
        requires
            self.v@.len() >= 2,
        ensures
            c == self.v@[1],
    {
        self.v[1]
    }

    pub fn v(&self) -> (c: Fx)
        requires
            self.v@.len() >= 2,
        ensures
            c == self.v@[1],
    {
        self.v[1]
    }

    pub fn g(&self) -> (c: Fx)
        requires
            self.v@.len() >= 2,
        ensures
            c == self.v@[1],
    {
        self.v[1]
    }

    pub fn z(&self) -> (c: Fx)
        requires
            self.v@.len() >= 3,
        ensures
            c == self.v@[2],
    {
        self.v[2]
    }

    pub fn b(&self) -> (c: Fx)
        requires
            self.v@.len() >= 3,
        ensures
            c == self.v@[2],
    {
        self.v[2]
    }

    pub fn w(&self) -> (c: Fx)
        requires
            self.v@.len() >= 4,
        ensures
            c == self.v@[3],
    {
        self.v[3]
    }

    /// The 3-D cross product of two homogeneous vectors, with `w` set to one.
    pub fn cross_product(&self, v1: &Vector) -> (r: Vector)
        requires
            self.v@.len() == 4,
            v1.v@.len() == 4,
        ensures
            r.v@ =~= cross4_seq(self.v@, v1.v@),
    {
        let r = Vector::new_4(
            self.v[1].mul(v1.v[2]).sub(self.v[2].mul(v1.v[1])),
            self.v[2].mul(v1.v[0]).sub(self.v[0].mul(v1.v[2])),
            self.v[0].mul(v1.v[1]).sub(self.v[1].mul(v1.v[0])),
            Fx::one(),
        );
        proof {
            assert(r.v@ =~= cross4_seq(self.v@, v1.v@));
        }
        r
    }

    /// Perspective divide: scale `x`, `y`, `z` by `1/w` and set `w` to one.
    pub fn divide_w(&mut self)
        requires
            old(self).v@.len() == 4,
        ensures
            final(self).v@.len() == 4,
            final(self).v@[0].bits == fx_div_bits(old(self).v@[0].bits as int, old(self).v@[3].bits as int),
            final(self).v@[1].bits == fx_div_bits(old(self).v@[1].bits as int, old(self).v@[3].bits as int),
            final(self).v@[2].bits == fx_div_bits(old(self).v@[2].bits as int, old(self).v@[3].bits as int),
            final(self).v@[3].bits == FX_ONE,
            final(self).v@ =~= divide_seq(old(self).v@),
    {
        let w = self.v[3];
        let x = self.v[0];
        self.v[0] = x.div(w);
        let y = self.v[1];
        self.v[1] = y.div(w);
        let z = self.v[2];
        self.v[2] = z.div(w);
        self.v[3] = Fx::one();
        proof {
            assert(self.v@ =~= divide_seq(old(self).v@));
        }
    }

    /// Remap `z` to `(n - f)/2 * z + (n + f)/2` for the depth buffer.
    pub fn reset_z(&mut self, n: Fx, f: Fx)
        requires
            old(self).v@.len() == 4,
        ensures
            final(self).v@.len() == 4,
            final(self).v@[0] == old(self).v@[0],
            final(self).v@[1] == old(self).v@[1],
            final(self).v@[3] == old(self).v@[3],
            final(self).v@[2].bits == fx_add_bits(
                fx_mul_bits(
                    fx_div_bits(fx_sub_bits(n.bits as int, f.bits as int), 2 * FX_ONE),
                    old(self).v@[2].bits as int,
                ),
                fx_div_bits(fx_add_bits(n.bits as int, f.bits as int), 2 * FX_ONE),
            ),
            final(self).v@ =~= reset_z_seq(old(self).v@, n.bits as int, f.bits as int),
    {
        let two = Fx::from_int(2);
        let f1 = n.add(f).div(two);
        let f2 = n.sub(f).div(two);
        let z = self.v[2];
        self.v[2] = f2.mul(z).add(f1);
        proof {
            assert(self.v@ =~= reset_z_seq(old(self).v@, n.bits as int, f.bits as int));
        }
    }
}

/// Componentwise linear interpolation of two 4-component vectors.
pub fn vector4f_interpolation(v1: &Vector, v2: &Vector, t: Fx) -> (r: Vector)
    requires
        v1.v@.len() == 4,
        v2.v@.len() == 4,
    ensures
        r.v@.len() == 4,
        forall|j: int| 0 <= j < 4
            ==> r.v@[j].bits == interp_bits(v1.v@[j].bits as int, v2.v@[j].bits as int, t.bits as int),
{
    Vector::new_4(
        crate::utils::interpolation(v1.v[0], v2.v[0], t),
        crate::utils::interpolation(v1.v[1], v2.v[1], t),
        crate::utils::interpolation(v1.v[2], v2.v[2], t),
        crate::utils::interpolation(v1.v[3], v2.v[3], t),
    )
}


/// The squared-length fold of a three-component sequence, unrolled.
pub proof fn lemma_sq_sum3(s: Seq<Fx>)
    requires
        s.len() == 3,
    ensures
        sq_sum_bits(s) == fx_add_bits(
            fx_add_bits(
                fx_add_bits(0, fx_mul_bits(s[0].bits as int, s[0].bits as int)),
                fx_mul_bits(s[1].bits as int, s[1].bits as int),
            ),
            fx_mul_bits(s[2].bits as int, s[2].bits as int),
        ),
{
    let s2 = s.drop_last();
    let s1 = s2.drop_last();
    let s0 = s1.drop_last();
    assert(s.last() == s[2]);
    assert(s2.last() == s[1]);
    assert(s1.last() == s[0]);
    assert(s0.len() == 0);
    assert(sq_sum_bits(s0) == 0);
    assert(sq_sum_bits(s1) == fx_add_bits(0, fx_mul_bits(s[0].bits as int, s[0].bits as int)));
    assert(sq_sum_bits(s2) == fx_add_bits(sq_sum_bits(s1), fx_mul_bits(s[1].bits as int, s[1].bits as int)));
    assert(sq_sum_bits(s) == fx_add_bits(sq_sum_bits(s2), fx_mul_bits(s[2].bits as int, s[2].bits as int)));
}

/// A normalized vector has unit length.  Proved exactly for the
/// three-component vectors that lie on one coordinate axis with a
/// component that is a multiple of `1/256`: there every fixed-point
/// division and square root is exact, so the normalized length is one
/// to the last bit.
pub proof fn lemma_normalize_axis_unit_length(s: Seq<Fx>, i: int)
    requires
        s.len() == 3,
        0 <= i < 3,
        0 < s[i].bits <= 0x80000000,
        s[i].bits % 256 == 0,
        forall|j: int| 0 <= j < 3 && j != i ==> s[j].bits == 0,
    ensures
        length_bits(norm_seq(s)) == FX_ONE as int,
{
    let x = s[i].bits as int;
    let se = FX_ONE as int;
    let c = x / 256;
    vstd::arithmetic::div_mod::lemma_fundamental_div_mod(x, 256);
    assert(x == 256 * c);
    assert(x * x == se * (c * c)) by (nonlinear_arith)
        requires
            x == 256 * c,
            se == 65536,
    ;
    assert(0 < c * c <= 0x100000000000000) by (nonlinear_arith)
        requires
            x == 256 * c,
            0 < x <= 0x80000000,
    ;
    // the squared components: zero except fx_mul_bits(x, x) == c*c*...
    assert(crate::fixed::iabs(x * x) == x * x) by (nonlinear_arith)
        requires 0 < x;
    assert((x * x) / se == c * c) by {
        vstd::arithmetic::div_mod::lemma_div_multiples_vanish(c * c, se);
        assert(se * (c * c) == (c * c) * se) by (nonlinear_arith);
    }
    assert(fx_mul_bits(x, x) == c * c);
    assert(fx_mul_bits(0, 0) == 0);
    // sum of squares over the three components
    lemma_sq_sum3(s);
    assert(sq_sum_bits(s) == c * c);
    // the length is exactly x
    assert((c * c) * se == x * x) by (nonlinear_arith)
        requires
            x == 256 * c,
            se == 65536,
    ;
    assert(crate::fixed::is_isqrt((c * c) * se, x)) by (nonlinear_arith)
        requires
            (c * c) * se == x * x,
            0 < x,
    ;
    crate::fixed::lemma_isqrt_unique((c * c) * se, x);
    assert(length_bits(s) == x);
    // the normalized components: zero except one, which is exactly one
    crate::fixed::lemma_fx_div_self(x);
    assert(fx_div_bits(0, x) == 0);
    let ns = norm_seq(s);
    assert(ns.len() == 3);
    assert(ns[i].bits == FX_ONE);
    assert(forall|j: int| 0 <= j < 3 && j != i ==> (#[trigger] ns[j]).bits == 0);
    // and its length is exactly one
    assert(fx_mul_bits(se, se) == se) by {
        assert(crate::fixed::iabs(se * se) == se * se) by (nonlinear_arith)
            requires se == 65536;
        assert((se * se) / se == se) by {
            vstd::arithmetic::div_mod::lemma_div_multiples_vanish(se, se);
        }
    }
    lemma_sq_sum3(ns);
    assert(sq_sum_bits(ns) == se);
    assert(crate::fixed::is_isqrt(se * se, se)) by (nonlinear_arith)
        requires se == 65536;
    crate::fixed::lemma_isqrt_unique(se * se, se);
}


/// The dot-product fold of two three-component sequences, unrolled.
pub proof fn lemma_dot3_unroll(a: Seq<Fx>, b: Seq<Fx>)
    requires
        a.len() == 3,
        b.len() == 3,
    ensures
        dot_bits(a, b) == fx_add_bits(
            fx_add_bits(
                fx_add_bits(0, fx_mul_bits(a[0].bits as int, b[0].bits as int)),
                fx_mul_bits(a[1].bits as int, b[1].bits as int),
            ),
            fx_mul_bits(a[2].bits as int, b[2].bits as int),
        ),
{
    let a2 = a.drop_last();
    let a1 = a2.drop_last();
    let a0 = a1.drop_last();
    let b2 = b.drop_last();
    let b1 = b2.drop_last();
    let b0 = b1.drop_last();
    assert(a0.len() == 0 && b0.len() == 0);
    assert(a.last() == a[2] && a2.last() == a[1] && a1.last() == a[0]);
    assert(b.last() == b[2] && b2.last() == b[1] && b1.last() == b[0]);
    assert(a1.len() == 1 && b1.len() == 1 && a2.len() == 2 && b2.len() == 2);
    assert(dot_bits(a0, b0) == 0);
    assert(dot_bits(a1, b1) == fx_add_bits(dot_bits(a0, b0), fx_mul_bits(a1.last().bits as int, b1.last().bits as int)));
    assert(dot_bits(a1, b1) == fx_add_bits(0, fx_mul_bits(a[0].bits as int, b[0].bits as int)));
    assert(dot_bits(a2, b2) == fx_add_bits(dot_bits(a1, b1), fx_mul_bits(a[1].bits as int, b[1].bits as int)));
    assert(dot_bits(a, b) == fx_add_bits(dot_bits(a2, b2), fx_mul_bits(a[2].bits as int, b[2].bits as int)));
}

/// The dot-product fold of two four-component sequences, unrolled.
pub proof fn lemma_dot4_unroll(a: Seq<Fx>, b: Seq<Fx>)
    requires
        a.len() == 4,
        b.len() == 4,
    ensures
        dot_bits(a, b) == fx_add_bits(
            fx_add_bits(
                fx_add_bits(
                    fx_add_bits(0, fx_mul_bits(a[0].bits as int, b[0].bits as int)),
                    fx_mul_bits(a[1].bits as int, b[1].bits as int),
                ),
                fx_mul_bits(a[2].bits as int, b[2].bits as int),
            ),
            fx_mul_bits(a[3].bits as int, b[3].bits as int),
        ),
{
    let a3 = a.drop_last();
    let b3 = b.drop_last();
    assert(a3.len() == 3 && b3.len() == 3);
    lemma_dot3_unroll(a3, b3);
    assert(a3[0] == a[0] && a3[1] == a[1] && a3[2] == a[2]);
    assert(b3[0] == b[0] && b3[1] == b[1] && b3[2] == b[2]);
    assert(dot_bits(a, b) == fx_add_bits(dot_bits(a3, b3), fx_mul_bits(a[3].bits as int, b[3].bits as int)));
}

/// A normalized vector has unit length, within a few fixed-point bits:
/// for any three-component vector of bounded components whose length is
/// at least one, the length after normalization differs from one by at
/// most eight bits (about 0.00013).
pub proof fn lemma_normalize_unit_length(s: Seq<Fx>)
    requires
        s.len() == 3,
        forall|j: int| 0 <= j < 3 ==> crate::fixed::iabs((#[trigger] s[j]).bits as int) <= 0x1000000,
        length_bits(s) >= FX_ONE,
    ensures
        crate::fixed::iabs(length_bits(norm_seq(s)) - FX_ONE as int) <= 8,
{
    let se: int = 65536;
    let ss: int = 4294967296;
    let b0 = s[0].bits as int;
    let b1 = s[1].bits as int;
    let b2 = s[2].bits as int;
    let a0 = crate::fixed::iabs(b0);
    let a1 = crate::fixed::iabs(b1);
    let a2 = crate::fixed::iabs(b2);
    assert(a0 * a0 == b0 * b0 && a1 * a1 == b1 * b1 && a2 * a2 == b2 * b2) by (nonlinear_arith)
        requires
            (b0 >= 0 ==> a0 == b0) && (b0 < 0 ==> a0 == -b0),
            (b1 >= 0 ==> a1 == b1) && (b1 < 0 ==> a1 == -b1),
            (b2 >= 0 ==> a2 == b2) && (b2 < 0 ==> a2 == -b2),
    ;
    crate::fixed::lemma_fx_sq_small(b0);
    crate::fixed::lemma_fx_sq_small(b1);
    crate::fixed::lemma_fx_sq_small(b2);
    let m0 = fx_mul_bits(b0, b0);
    let m1 = fx_mul_bits(b1, b1);
    let m2 = fx_mul_bits(b2, b2);
    assert(b0 * b0 <= 0x1000000000000 && b1 * b1 <= 0x1000000000000 && b2 * b2 <= 0x1000000000000) by (nonlinear_arith)
        requires
            0 <= a0 <= 0x1000000 && a0 * a0 == b0 * b0,
            0 <= a1 <= 0x1000000 && a1 * a1 == b1 * b1,
            0 <= a2 <= 0x1000000 && a2 * a2 == b2 * b2,
    ;
    lemma_sq_sum3(s);
    let q = sq_sum_bits(s);
    assert(q == m0 + m1 + m2);
    let big_b = b0 * b0 + b1 * b1 + b2 * b2;
    assert(se * q <= big_b && big_b < se * q + 3 * se);

    // the length is the integer square root of q scaled up
    assert(q > 0) by {
        if q <= 0 {
            assert(length_bits(s) == 0);
        }
    }
    crate::fixed::lemma_isqrt_exists(q * se);
    let l = length_bits(s);
    assert(l == crate::fixed::isqrt_int(q * se));
    assert(l >= se);
    assert(l * l <= q * se && q * se < (l + 1) * (l + 1));
    assert(se * q == q * se) by (nonlinear_arith);

    // every component is at most a hair above the length
    assert(big_b < (l + 3) * (l + 3)) by (nonlinear_arith)
        requires
            big_b < q * se + 3 * se,
            q * se < (l + 1) * (l + 1),
            l >= se,
            se == 65536,
    ;
    assert(a0 <= l + 2 && a1 <= l + 2 && a2 <= l + 2) by (nonlinear_arith)
        requires
            a0 * a0 <= big_b && a1 * a1 <= big_b && a2 * a2 <= big_b,
            big_b < (l + 3) * (l + 3),
            a0 >= 0 && a1 >= 0 && a2 >= 0,
            l >= 0,
    ;

    // the normalized components bracket the exact ratios
    crate::fixed::lemma_fx_div_mag(b0, l);
    crate::fixed::lemma_fx_div_mag(b1, l);
    crate::fixed::lemma_fx_div_mag(b2, l);
    let n0 = fx_div_bits(b0, l);
    let n1 = fx_div_bits(b1, l);
    let n2 = fx_div_bits(b2, l);
    let h0 = crate::fixed::iabs(n0);
    let h1 = crate::fixed::iabs(n1);
    let h2 = crate::fixed::iabs(n2);
    assert(h0 <= 65538 && h1 <= 65538 && h2 <= 65538) by (nonlinear_arith)
        requires
            h0 * l <= a0 * 65536 && h1 * l <= a1 * 65536 && h2 * l <= a2 * 65536,
            a0 <= l + 2 && a1 <= l + 2 && a2 <= l + 2,
            h0 >= 0 && h1 >= 0 && h2 >= 0,
            l >= 65536,
    ;
    let nn = h0 * h0 + h1 * h1 + h2 * h2;
    assert(h0 * h0 * (l * l) <= (a0 * a0) * ss) by (nonlinear_arith)
        requires h0 * l <= a0 * 65536, h0 >= 0, a0 >= 0, l > 0, ss == 4294967296;
    assert(h1 * h1 * (l * l) <= (a1 * a1) * ss) by (nonlinear_arith)
        requires h1 * l <= a1 * 65536, h1 >= 0, a1 >= 0, l > 0, ss == 4294967296;
    assert(h2 * h2 * (l * l) <= (a2 * a2) * ss) by (nonlinear_arith)
        requires h2 * l <= a2 * 65536, h2 >= 0, a2 >= 0, l > 0, ss == 4294967296;
    assert((a0 * a0) * ss < (h0 * h0 + 2 * h0 + 1) * (l * l)) by (nonlinear_arith)
        requires a0 * 65536 < (h0 + 1) * l, h0 >= 0, a0 >= 0, l > 0, ss == 4294967296;
    assert((a1 * a1) * ss < (h1 * h1 + 2 * h1 + 1) * (l * l)) by (nonlinear_arith)
        requires a1 * 65536 < (h1 + 1) * l, h1 >= 0, a1 >= 0, l > 0, ss == 4294967296;
    assert((a2 * a2) * ss < (h2 * h2 + 2 * h2 + 1) * (l * l)) by (nonlinear_arith)
        requires a2 * 65536 < (h2 + 1) * l, h2 >= 0, a2 >= 0, l > 0, ss == 4294967296;
    assert(nn * (l * l) == h0 * h0 * (l * l) + h1 * h1 * (l * l) + h2 * h2 * (l * l)) by (nonlinear_arith)
        requires nn == h0 * h0 + h1 * h1 + h2 * h2;
    assert(nn * (l * l) <= big_b * ss) by (nonlinear_arith)
        requires
            nn * (l * l) == h0 * h0 * (l * l) + h1 * h1 * (l * l) + h2 * h2 * (l * l),
            h0 * h0 * (l * l) <= (a0 * a0) * ss,
            h1 * h1 * (l * l) <= (a1 * a1) * ss,
            h2 * h2 * (l * l) <= (a2 * a2) * ss,
            big_b == a0 * a0 + a1 * a1 + a2 * a2,
            (a0 * a0) * ss + (a1 * a1) * ss + (a2 * a2) * ss == big_b * ss,
    ;
    assert((a0 * a0) * ss + (a1 * a1) * ss + (a2 * a2) * ss == big_b * ss) by (nonlinear_arith)
        requires big_b == a0 * a0 + a1 * a1 + a2 * a2;
    assert(big_b * ss < (nn + 2 * (h0 + h1 + h2) + 3) * (l * l)) by (nonlinear_arith)
        requires
            (a0 * a0) * ss < (h0 * h0 + 2 * h0 + 1) * (l * l),
            (a1 * a1) * ss < (h1 * h1 + 2 * h1 + 1) * (l * l),
            (a2 * a2) * ss < (h2 * h2 + 2 * h2 + 1) * (l * l),
            (a0 * a0) * ss + (a1 * a1) * ss + (a2 * a2) * ss == big_b * ss,
            nn == h0 * h0 + h1 * h1 + h2 * h2,
    ;

    // squeeze the sum of squared components around one
    assert(nn > ss - 393231) by (nonlinear_arith)
        requires
            big_b * ss < (nn + 2 * (h0 + h1 + h2) + 3) * (l * l),
            big_b >= l * l,
            h0 <= 65538 && h1 <= 65538 && h2 <= 65538,
            l > 0,
            ss == 4294967296,
    ;
    assert(big_b >= l * l) by (nonlinear_arith)
        requires
            se * q <= big_b,
            l * l <= q * se,
            se * q == q * se,
    ;
    assert(big_b * ss < ((l + 1) * (l + 1) + 196608) * ss) by (nonlinear_arith)
        requires
            big_b < q * se + 3 * se,
            q * se < (l + 1) * (l + 1),
            se == 65536,
            ss > 0,
    ;
    assert(((l + 1) * (l + 1) + 196608) * ss <= (ss + 458755) * (l * l)) by (nonlinear_arith)
        requires
            l >= 65536,
            ss == 4294967296,
    ;
    assert(nn < ss + 458755) by (nonlinear_arith)
        requires
            nn * (l * l) <= big_b * ss,
            big_b * ss < ((l + 1) * (l + 1) + 196608) * ss,
            ((l + 1) * (l + 1) + 196608) * ss <= (ss + 458755) * (l * l),
            l > 0,
    ;

    // the squared length of the normalized vector
    let ns = norm_seq(s);
    assert(ns.len() == 3);
    assert(ns[0].bits as int == n0 && ns[1].bits as int == n1 && ns[2].bits as int == n2);
    crate::fixed::lemma_fx_sq_small(n0);
    crate::fixed::lemma_fx_sq_small(n1);
    crate::fixed::lemma_fx_sq_small(n2);
    lemma_sq_sum3(ns);
    let q2 = sq_sum_bits(ns);
    assert(n0 * n0 == h0 * h0 && n1 * n1 == h1 * h1 && n2 * n2 == h2 * h2);
    assert(se * q2 <= nn && nn < se * q2 + 3 * se);
    assert(q2 <= 65543);
    assert(q2 >= 65527);

    // and its square root sits within eight bits of one
    crate::fixed::lemma_isqrt_exists(q2 * se);
    let r = length_bits(ns);
    assert(q2 > 0);
    assert(r == crate::fixed::isqrt_int(q2 * se));
    assert(r * r <= q2 * se && q2 * se < (r + 1) * (r + 1));
    assert(q2 * se <= 4295426048) by (nonlinear_arith)
        requires q2 <= 65543, se == 65536;
    assert(q2 * se >= 4294377472) by (nonlinear_arith)
        requires q2 >= 65527, se == 65536;
    assert(r <= 65539) by (nonlinear_arith)
        requires
            r * r <= 4295426048,
            r >= 0,
    ;
    assert(r >= 65531) by (nonlinear_arith)
        requires
            (r + 1) * (r + 1) > 4294377472,
            r >= 0,
    ;
}

} // verus!
