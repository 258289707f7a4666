//! Row-major 4x4 matrices of fixed-point scalars.

use vstd::prelude::*;
use crate::fixed::{Fx, FX_ONE, fx_add_bits, fx_mul_bits};
use crate::vector::{Vector, dot_bits, lemma_take_step};

verus! {

#[derive(Debug)]
pub struct Matrix {
    pub m: Vec<Vec<Fx>>,
}

/// Partial inner product of row `i` of `a` and column `j` of `b`,
/// over the first `k` terms, in saturating fixed-point bits.
pub open spec fn mcell_bits(a: Seq<Seq<Fx>>, b: Seq<Seq<Fx>>, i: int, j: int, k: int) -> int
    decreases k,
{
    if k <= 0 {
        0
    } else {
        fx_add_bits(
            mcell_bits(a, b, i, j, k - 1),
            fx_mul_bits(a[i][k - 1].bits as int, b[k - 1][j].bits as int),
        )
    }
}

/// A partial inner product stays within the `i64` range.
pub proof fn lemma_mcell_range(a: Seq<Seq<Fx>>, b: Seq<Seq<Fx>>, i: int, j: int, k: int)
    ensures
        i64::MIN <= mcell_bits(a, b, i, j, k) <= i64::MAX,
{
    if k <= 0 {
    } else {
        assert(mcell_bits(a, b, i, j, k) == fx_add_bits(
            mcell_bits(a, b, i, j, k - 1),
            fx_mul_bits(a[i][k - 1].bits as int, b[k - 1][j].bits as int),
        ));
    }
}

/// The 4x4 fixed-point matrix product.
pub open spec fn mat_mul(a: Seq<Seq<Fx>>, b: Seq<Seq<Fx>>) -> Seq<Seq<Fx>> {
    Seq::new(4, |i: int| Seq::new(4, |j: int| Fx { bits: mcell_bits(a, b, i, j, 4) as i64 }))
}

impl Matrix {
    /// The rows of the matrix, as a sequence of sequences.
    pub open spec fn rows(self) -> Seq<Seq<Fx>> {
        self.m@.map_values(|row: Vec<Fx>| row@)
    }

    /// The raw bits of the entry at row `i`, column `j`.
    pub open spec fn ent(self, i: int, j: int) -> int {
        self.m@[i]@[j].bits as int
    }

    /// A well-formed matrix has four rows of four entries.
    pub open spec fn wf(self) -> bool {
        self.m@.len() == 4 && forall|i: int| 0 <= i < 4 ==> self.m@[i]@.len() == 4
    }

    /// The all-zero matrix.
    pub fn new() -> (r: Matrix)
        ensures
            r.wf(),
            forall|i: int, j: int| 0 <= i < 4 && 0 <= j < 4 ==> r.ent(i, j) == 0,
    {
        let z = Fx::zero();
        let mut m: Vec<Vec<Fx>> = Vec::new();
        m.push(row4(z, z, z, z));
        m.push(row4(z, z, z, z));
        m.push(row4(z, z, z, z));
        m.push(row4(z, z, z, z));
        Matrix { m }
    }

    /// A matrix with the given rows.
    pub fn new_val(v: Vec<Vec<Fx>>) -> (r: Matrix)
        requires
            v@.len() == 4,
            forall|i: int| 0 <= i < 4 ==> v@[i]@.len() == 4,
        ensures
            r.wf(),
            r.m == v,
    {
        Matrix { m: v }
    }

    /// The identity matrix.
    pub fn identity() -> (r: Matrix)
        ensures
            r.wf(),
            forall|i: int, j: int| 0 <= i < 4 && 0 <= j < 4
                ==> r.ent(i, j) == if i == j { FX_ONE as int } else { 0 },
    {
        let z = Fx::zero();
        let o = Fx::one();
        let mut m: Vec<Vec<Fx>> = Vec::new();
        m.push(row4(o, z, z, z));
        m.push(row4(z, o, z, z));
        m.push(row4(z, z, o, z));
        m.push(row4(z, z, z, o));
        Matrix { m }
    }

    /// Multiply the matrix onto a 4-component vector.
    pub fn apply(&self, v: &Vector) -> (r: Vector)
        requires
            self.wf(),
            v.v@.len() == 4,
        ensures
            r.v@.len() == 4,
            forall|i: int| 0 <= i < 4 ==> r.v@[i].bits == dot_bits(self.m@[i]@, v.v@),
    {
        let mut out: Vec<Fx> = Vec::new();
        let mut i: usize = 0;
        while i < 4
            invariant
                i <= 4,
                self.wf(),
                v.v@.len() == 4,
                out@.len() == i,
                forall|ii: int| 0 <= ii < i ==> out@[ii].bits == dot_bits(self.m@[ii]@, v.v@),
            decreases 4 - i,
        {
            let row = &self.m[i];
            let mut acc = Fx::zero();
            let mut j: usize = 0;
            proof {
                assert(row@.take(0) =~= Seq::<Fx>::empty());
                assert(v.v@.take(0) =~= Seq::<Fx>::empty());
            }
            while j < 4
                invariant
                    j <= 4,
                    row@.len() == 4,
                    v.v@.len() == 4,
                    acc.bits == dot_bits(row@.take(j as int), v.v@.take(j as int)),
                decreases 4 - j,
            {
                acc = acc.add(row[j].mul(v.v[j]));
                proof {
                    lemma_take_step(row@, j as int);
                    lemma_take_step(v.v@, j as int);
                }
                j = j + 1;
            }
            proof {
                assert(row@.take(4) =~= row@);
                assert(v.v@.take(4) =~= v.v@);
            }
            out.push(acc);
            i = i + 1;
        }
        Vector { v: out }
    }

    /// The matrix product `self * rhs`.
    pub fn mul(&self, rhs: &Matrix) -> (r: Matrix)
        requires
            self.wf(),
            rhs.wf(),
        ensures
            r.wf(),
            r.rows() =~~= mat_mul(self.rows(), rhs.rows()),
    {
        let mut m: Vec<Vec<Fx>> = Vec::new();
        let mut i: usize = 0;
        while i < 4
            invariant
                i <= 4,
                self.wf(),
                rhs.wf(),
                m@.len() == i,
                forall|ii: int| 0 <= ii < i ==> #[trigger] m@[ii]@.len() == 4,
                forall|ii: int, j: int| 0 <= ii < i && 0 <= j < 4
                    ==> #[trigger] m@[ii]@[j].bits == mcell_bits(self.rows(), rhs.rows(), ii, j, 4),
            decreases 4 - i,
        {
            let mut row: Vec<Fx> = Vec::new();
            let mut j: usize = 0;
            while j < 4
                invariant
                    j <= 4,
                    i < 4,
                    self.wf(),
                    rhs.wf(),
                    row@.len() == j,
                    forall|jj: int| 0 <= jj < j
                        ==> #[trigger] row@[jj].bits == mcell_bits(self.rows(), rhs.rows(), i as int, jj, 4),
                decreases 4 - j,
            {
                let mut acc = Fx::zero();
                let mut k: usize = 0;
                while k < 4
                    invariant
                        k <= 4,
                        i < 4,
                        j < 4,
                        self.wf(),
                        rhs.wf(),
                        acc.bits == mcell_bits(self.rows(), rhs.rows(), i as int, j as int, k as int),
                    decreases 4 - k,
                {
                    acc = acc.add(self.m[i][k].mul(rhs.m[k][j]));
                    k = k + 1;
                }
                row.push(acc);
                j = j + 1;
            }
            m.push(row);
            i = i + 1;
        }
        let r = Matrix { m };
        proof {
            let lhs = r.rows();
            let prod = mat_mul(self.rows(), rhs.rows());
            assert forall|ii: int| 0 <= ii < 4 implies lhs[ii] =~= prod[ii] by {
                assert forall|jj: int| 0 <= jj < 4 implies lhs[ii][jj] == prod[ii][jj] by {
                    lemma_mcell_range(self.rows(), rhs.rows(), ii, jj, 4);
                    assert(lhs[ii] == r.m@[ii]@);
                    assert(r.m@[ii]@[jj].bits == mcell_bits(self.rows(), rhs.rows(), ii, jj, 4));
                    assert(prod[ii] == Seq::new(4, |j: int| Fx {
                        bits: mcell_bits(self.rows(), rhs.rows(), ii, j, 4) as i64,
                    }));
                    assert(prod[ii][jj] == Fx {
                        bits: mcell_bits(self.rows(), rhs.rows(), ii, jj, 4) as i64,
                    });
                }
            }
            assert(lhs =~~= prod);
        }
        r
    }
}

/// A row of four scalars.
pub fn row4(a: Fx, b: Fx, c: Fx, d: Fx) -> (r: Vec<Fx>)
    ensures
        r@.len() == 4,
        r@[0] == a,
        r@[1] == b,
        r@[2] == c,
        r@[3] == d,
{
    let mut v: Vec<Fx> = Vec::new();
    v.push(a);
    v.push(b);
    v.push(c);
    v.push(d);
    v
}

} // verus!
