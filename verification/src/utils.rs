//! Small numeric helpers shared by the pipeline stages.

use vstd::prelude::*;
use crate::fixed::{Fx, fx_add_bits, fx_mul_bits};
use crate::vector::{Vector, interp_bits};

verus! {

/// Barycentric blend `alpha * a + beta * b + gamma * c`, in fixed-point bits.
pub open spec fn blend3_bits(a: int, b: int, c: int, alpha: int, beta: int, gamma: int) -> int {
    fx_add_bits(fx_add_bits(fx_mul_bits(alpha, a), fx_mul_bits(beta, b)), fx_mul_bits(gamma, c))
}

/// Linear interpolation `x1 + (x2 - x1) * t`.
pub fn interpolation(x1: Fx, x2: Fx, t: Fx) -> (r: Fx)
    ensures
        r.bits == interp_bits(x1.bits as int, x2.bits as int, t.bits as int),
{
    x1.add(x2.sub(x1).mul(t))
}

/// One blended scalar of a barycentric combination.
pub fn blend3(a: Fx, b: Fx, c: Fx, alpha: Fx, beta: Fx, gamma: Fx) -> (r: Fx)
    ensures
        r.bits == blend3_bits(a.bits as int, b.bits as int, c.bits as int, alpha.bits as int, beta.bits as int, gamma.bits as int),
{
    alpha.mul(a).add(beta.mul(b)).add(gamma.mul(c))
}

/// Barycentric blend of the first two components of three vectors.
pub fn interpolate_vector2f(a: &Vector, b: &Vector, c: &Vector, alpha: Fx, beta: Fx, gamma: Fx) -> (r: Vector)
    requires
        a.v@.len() >= 2,
        b.v@.len() >= 2,
        c.v@.len() >= 2,
    ensures
        r.v@.len() == 2,
        forall|j: int| 0 <= j < 2
            ==> r.v@[j].bits == blend3_bits(
                a.v@[j].bits as int, b.v@[j].bits as int, c.v@[j].bits as int,
                alpha.bits as int, beta.bits as int, gamma.bits as int,
            ),
{
    Vector::new_2(
        blend3(a.v[0], b.v[0], c.v[0], alpha, beta, gamma),
        blend3(a.v[1], b.v[1], c.v[1], alpha, beta, gamma),
    )
}

/// Barycentric blend of the first three components of three vectors.
pub fn interpolate_vector3f(a: &Vector, b: &Vector, c: &Vector, alpha: Fx, beta: Fx, gamma: Fx) -> (r: Vector)
    requires
        a.v@.len() >= 3,
        b.v@.len() >= 3,
        c.v@.len() >= 3,
    ensures
        r.v@.len() == 3,
        forall|j: int| 0 <= j < 3
            ==> r.v@[j].bits == blend3_bits(
                a.v@[j].bits as int, b.v@[j].bits as int, c.v@[j].bits as int,
                alpha.bits as int, beta.bits as int, gamma.bits as int,
            ),
{
    Vector::new_3(
        blend3(a.v[0], b.v[0], c.v[0], alpha, beta, gamma),
        blend3(a.v[1], b.v[1], c.v[1], alpha, beta, gamma),
        blend3(a.v[2], b.v[2], c.v[2], alpha, beta, gamma),
    )
}

/// Barycentric blend of all four components of three vectors.
pub fn interpolate_vector4f(a: &Vector, b: &Vector, c: &Vector, alpha: Fx, beta: Fx, gamma: Fx) -> (r: Vector)
    requires
        a.v@.len() >= 4,
        b.v@.len() >= 4,
        c.v@.len() >= 4,
    ensures
        r.v@.len() == 4,
        forall|j: int| 0 <= j < 4
            ==> r.v@[j].bits == blend3_bits(
                a.v@[j].bits as int, b.v@[j].bits as int, c.v@[j].bits as int,
                alpha.bits as int, beta.bits as int, gamma.bits as int,
            ),
{
    Vector::new_4(
        blend3(a.v[0], b.v[0], c.v[0], alpha, beta, gamma),
        blend3(a.v[1], b.v[1], c.v[1], alpha, beta, gamma),
        blend3(a.v[2], b.v[2], c.v[2], alpha, beta, gamma),
        blend3(a.v[3], b.v[3], c.v[3], alpha, beta, gamma),
    )
}

/// Clamp a scalar into `[min, max]`.
pub fn clamp(v: Fx, min: Fx, max: Fx) -> (r: Fx)
    ensures
        r.bits == if v.bits < min.bits {
            min.bits as int
        } else if v.bits > max.bits {
            max.bits as int
        } else {
            v.bits as int
        },
{
    if v.bits < min.bits {
        min
    } else if v.bits > max.bits {
        max
    } else {
        v
    }
}

} // verus!
