//! The transform stage: model, view, projection and viewport matrices,
//! their composition into the MVP matrix, and the rasterizer state that
//! carries them together with the eye position and the scene lights.
//!
//! The trigonometric functions are the renderer's own fixed-point
//! polynomial approximations, pinned exactly by their spec twins.

use vstd::prelude::*;
use crate::fixed::{Fx, FX_ONE, fxb};
use crate::fixed::{fx_add_bits, fx_sub_bits, fx_mul_bits, fx_div_bits, fx_neg_bits, fx_abs_bits};
use crate::matrix::{Matrix, mat_mul, row4};
use crate::vector::{Vector, norm_seq, sub_seq, cross4_seq, dot_bits};
use crate::light::Light;
use crate::triangle::{Triangle, RenderType};
use crate::texture::Texture;

verus! {

/// The circle constant, in 16.16 bits.
pub const PI_BITS: i64 = 205887;

/// A full turn, in 16.16 degree bits.
pub const TURN_BITS: i64 = 23592960;  // 360.0

/// A quarter turn, in 16.16 degree bits.
pub const QUARTER_BITS: i64 = 5898240;  // 90.0

/// The odd Taylor polynomial for the sine of a small angle given in
/// degrees, evaluated in fixed point.
pub open spec fn sin_poly_bits(t: int) -> int {
    let x = fx_div_bits(fx_mul_bits(t, PI_BITS as int), 180 * (FX_ONE as int));
    let x2 = fx_mul_bits(x, x);
    let x3 = fx_mul_bits(x2, x);
    let x5 = fx_mul_bits(x3, x2);
    let x7 = fx_mul_bits(x5, x2);
    fx_sub_bits(
        fx_add_bits(fx_sub_bits(x, fx_div_bits(x3, 6 * (FX_ONE as int))), fx_div_bits(x5, 120 * (FX_ONE as int))),
        fx_div_bits(x7, 5040 * (FX_ONE as int)),
    )
}

/// The even Taylor polynomial for the cosine of a small angle given in
/// degrees, evaluated in fixed point.
pub open spec fn cos_poly_bits(t: int) -> int {
    let x = fx_div_bits(fx_mul_bits(t, PI_BITS as int), 180 * (FX_ONE as int));
    let x2 = fx_mul_bits(x, x);
    let x4 = fx_mul_bits(x2, x2);
    let x6 = fx_mul_bits(x4, x2);
    fx_sub_bits(
        fx_add_bits(fx_sub_bits(FX_ONE as int, fx_div_bits(x2, 2 * (FX_ONE as int))), fx_div_bits(x4, 24 * (FX_ONE as int))),
        fx_div_bits(x6, 720 * (FX_ONE as int)),
    )
}

/// The sine within the first quadrant: the sine polynomial below half
/// a quarter turn, the cosine polynomial of the complement above it,
/// so that both quadrant endpoints come out exact.
pub open spec fn quarter_sin_bits(t: int) -> int {
    if t <= QUARTER_BITS as int / 2 {
        sin_poly_bits(t)
    } else {
        cos_poly_bits(QUARTER_BITS as int - t)
    }
}

/// The sine of an angle in degrees: quadrant reduction around a full
/// turn, then the quarter-turn polynomial.
pub open spec fn sin_deg_bits(a: int) -> int {
    let d = a % (TURN_BITS as int);
    if d < QUARTER_BITS as int {
        quarter_sin_bits(d)
    } else if d < 2 * (QUARTER_BITS as int) {
        quarter_sin_bits(2 * (QUARTER_BITS as int) - d)
    } else if d < 3 * (QUARTER_BITS as int) {
        fx_neg_bits(quarter_sin_bits(d - 2 * (QUARTER_BITS as int)))
    } else {
        fx_neg_bits(quarter_sin_bits(TURN_BITS as int - d))
    }
}

/// The cosine, as the sine a quarter turn ahead.
pub open spec fn cos_deg_bits(a: int) -> int {
    sin_deg_bits(fx_add_bits(a, QUARTER_BITS as int))
}

/// The tangent `sin/cos`; zero where the cosine bits are zero.
pub open spec fn tan_deg_bits(a: int) -> int {
    fx_div_bits(sin_deg_bits(a), cos_deg_bits(a))
}

/// Euclidean remainder of a scalar by a positive modulus.
fn emod_i64(a: i64, m: i64) -> (r: i64)
    requires
        m > 0,
    ensures
        r as int == (a as int) % (m as int),
{
    if a >= 0 {
        let q: u64 = (a as u64) % (m as u64);
        proof {
            vstd::arithmetic::div_mod::lemma_mod_bound(a as int, m as int);
        }
        q as i64
    } else {
        let n: u64 = (-(a as i128)) as u64;
        let k: u64 = n % (m as u64);
        proof {
            let q = n as int / (m as int);
            vstd::arithmetic::div_mod::lemma_fundamental_div_mod(n as int, m as int);
            vstd::arithmetic::div_mod::lemma_mod_bound(n as int, m as int);
            assert((m as int) * (-q) == -((m as int) * q)) by (nonlinear_arith);
            assert((m as int) * (-q - 1) == -((m as int) * q) - (m as int)) by (nonlinear_arith);
            if k == 0 {
                assert(a as int == (m as int) * (-q) + 0);
                vstd::arithmetic::div_mod::lemma_mod_multiples_vanish(-q, 0, m as int);
                vstd::arithmetic::div_mod::lemma_small_mod(0, m as nat);
            } else {
                assert(a as int == (m as int) * (-q - 1) + ((m as int) - k));
                vstd::arithmetic::div_mod::lemma_mod_multiples_vanish(-q - 1, (m as int) - k as int, m as int);
                vstd::arithmetic::div_mod::lemma_small_mod(((m as int) - k as int) as nat, m as nat);
            }
        }
        if k == 0 {
            0
        } else {
            (m as u64 - k) as i64
        }
    }
}

/// The small-angle sine polynomial.
fn sin_poly(t: Fx) -> (r: Fx)
    ensures
        r.bits == sin_poly_bits(t.bits as int),
{
    let x = t.mul(Fx::from_bits(PI_BITS)).div(Fx::from_int(180));
    let x2 = x.mul(x);
    let x3 = x2.mul(x);
    let x5 = x3.mul(x2);
    let x7 = x5.mul(x2);
    x.sub(x3.div(Fx::from_int(6))).add(x5.div(Fx::from_int(120))).sub(x7.div(Fx::from_int(5040)))
}

/// The small-angle cosine polynomial.
fn cos_poly(t: Fx) -> (r: Fx)
    ensures
        r.bits == cos_poly_bits(t.bits as int),
{
    let x = t.mul(Fx::from_bits(PI_BITS)).div(Fx::from_int(180));
    let x2 = x.mul(x);
    let x4 = x2.mul(x2);
    let x6 = x4.mul(x2);
    Fx::one().sub(x2.div(Fx::from_int(2))).add(x4.div(Fx::from_int(24))).sub(x6.div(Fx::from_int(720)))
}

/// The quarter-turn sine.
fn quarter_sin(t: Fx) -> (r: Fx)
    requires
        0 <= t.bits <= QUARTER_BITS,
    ensures
        r.bits == quarter_sin_bits(t.bits as int),
{
    if t.bits <= QUARTER_BITS / 2 {
        sin_poly(t)
    } else {
        cos_poly(Fx::from_bits(QUARTER_BITS - t.bits))
    }
}

/// The sine of an angle given in degrees.
pub fn sin_deg(a: Fx) -> (r: Fx)
    ensures
        r.bits == sin_deg_bits(a.bits as int),
{
    let d = emod_i64(a.bits, TURN_BITS);
    if d < QUARTER_BITS {
        quarter_sin(Fx::from_bits(d))
    } else if d < 2 * QUARTER_BITS {
        quarter_sin(Fx::from_bits(2 * QUARTER_BITS - d))
    } else if d < 3 * QUARTER_BITS {
        quarter_sin(Fx::from_bits(d - 2 * QUARTER_BITS)).neg()
    } else {
        quarter_sin(Fx::from_bits(TURN_BITS - d)).neg()
    }
}

/// The cosine of an angle given in degrees.
pub fn cos_deg(a: Fx) -> (r: Fx)
    ensures
        r.bits == cos_deg_bits(a.bits as int),
{
    sin_deg(a.add(Fx::from_bits(QUARTER_BITS)))
}

/// The tangent of an angle given in degrees.
pub fn tan_deg(a: Fx) -> (r: Fx)
    ensures
        r.bits == tan_deg_bits(a.bits as int),
{
    sin_deg(a).div(cos_deg(a))
}

/// The rasterizer state: the three stage matrices, their composition,
/// the eye position and the scene lights.
#[derive(Debug)]
pub struct Rasterizer {
    pub model: Matrix,
    pub view: Matrix,
    pub projection: Matrix,
    pub mvp: Matrix,
    pub eye_pos: Vector,
    pub lights: Vec<Light>,
}

impl Rasterizer {
    pub open spec fn wf(self) -> bool {
        &&& self.model.wf()
        &&& self.view.wf()
        &&& self.projection.wf()
        &&& self.mvp.wf()
        &&& self.eye_pos.v@.len() == 3
        &&& forall|i: int| 0 <= i < self.lights@.len() ==> (#[trigger] self.lights@[i]).wf()
    }

    /// All four matrices start as the identity; no lights, eye at the origin.
    pub fn new() -> (r: Rasterizer)
        ensures
            r.wf(),
            r.lights@.len() == 0,
            forall|i: int, j: int| 0 <= i < 4 && 0 <= j < 4
                ==> r.model.ent(i, j) == if i == j { FX_ONE as int } else { 0 },
            forall|i: int, j: int| 0 <= i < 4 && 0 <= j < 4
                ==> r.view.ent(i, j) == if i == j { FX_ONE as int } else { 0 },
            forall|i: int, j: int| 0 <= i < 4 && 0 <= j < 4
                ==> r.projection.ent(i, j) == if i == j { FX_ONE as int } else { 0 },
            forall|i: int, j: int| 0 <= i < 4 && 0 <= j < 4
                ==> r.mvp.ent(i, j) == if i == j { FX_ONE as int } else { 0 },
    {
        Rasterizer {
            model: Matrix::identity(),
            view: Matrix::identity(),
            projection: Matrix::identity(),
            mvp: Matrix::identity(),
            eye_pos: Vector::new(3),
            lights: Vec::new(),
        }
    }

    pub fn set_view(&mut self, m: Matrix)
        requires
            m.wf(),
        ensures
            final(self).view == m,
            final(self).model == old(self).model,
            final(self).projection == old(self).projection,
            final(self).mvp == old(self).mvp,
            final(self).eye_pos == old(self).eye_pos,
            final(self).lights == old(self).lights,
    {
        self.view = m;
    }

    pub fn set_model(&mut self, m: Matrix)
        requires
            m.wf(),
        ensures
            final(self).model == m,
            final(self).view == old(self).view,
            final(self).projection == old(self).projection,
            final(self).mvp == old(self).mvp,
            final(self).eye_pos == old(self).eye_pos,
            final(self).lights == old(self).lights,
    {
        self.model = m;
    }

    pub fn set_projection(&mut self, m: Matrix)
        requires
            m.wf(),
        ensures
            final(self).projection == m,
            final(self).model == old(self).model,
            final(self).view == old(self).view,
            final(self).mvp == old(self).mvp,
            final(self).eye_pos == old(self).eye_pos,
            final(self).lights == old(self).lights,
    {
        self.projection = m;
    }

    pub fn set_eye_pos(&mut self, v: Vector)
        requires
            v.v@.len() == 3,
        ensures
            final(self).eye_pos == v,
            final(self).model == old(self).model,
            final(self).view == old(self).view,
            final(self).projection == old(self).projection,
            final(self).mvp == old(self).mvp,
            final(self).lights == old(self).lights,
    {
        self.eye_pos = v;
    }

    pub fn set_lights(&mut self, lights: Vec<Light>)
        requires
            forall|i: int| 0 <= i < lights@.len() ==> (#[trigger] lights@[i]).wf(),
        ensures
            final(self).lights == lights,
            final(self).model == old(self).model,
            final(self).view == old(self).view,
            final(self).projection == old(self).projection,
            final(self).mvp == old(self).mvp,
            final(self).eye_pos == old(self).eye_pos,
    {
        self.lights = lights;
    }

    pub fn get_lights(&self) -> (r: &Vec<Light>)
        ensures
            r@ == self.lights@,
    {
        &self.lights
    }

    pub fn get_eye_pos(&self) -> (r: &Vector)
        ensures
            r.v@ == self.eye_pos.v@,
    {
        &self.eye_pos
    }

    /// Recompose the full transform: `mvp = projection * view * model`.
    pub fn compute_mvp(&mut self)
        requires
            old(self).wf(),
        ensures
            final(self).wf(),
            final(self).mvp.rows() =~~= mat_mul(
                mat_mul(old(self).projection.rows(), old(self).view.rows()),
                old(self).model.rows(),
            ),
            final(self).model == old(self).model,
            final(self).view == old(self).view,
            final(self).projection == old(self).projection,
            final(self).eye_pos == old(self).eye_pos,
            final(self).lights == old(self).lights,
    {
        self.mvp = self.projection.mul(&self.view).mul(&self.model);
    }
}

/// The forward axis of the look-at basis: the normalized direction
/// from the eye to the target.
pub open spec fn view_g(eye: Seq<Fx>, at: Seq<Fx>) -> Seq<Fx> {
    norm_seq(sub_seq(at, eye))
}

/// The up axis of the look-at basis, normalized.
pub open spec fn view_u(up: Seq<Fx>) -> Seq<Fx> {
    norm_seq(up)
}

/// The right axis of the look-at basis: forward crossed with up,
/// normalized.
pub open spec fn view_x(eye: Seq<Fx>, at: Seq<Fx>, up: Seq<Fx>) -> Seq<Fx> {
    norm_seq(cross4_seq(view_g(eye, at), view_u(up)))
}

/// The rows of a right-handed look-at matrix: the basis rows
/// `(right, up, -forward)`, and as translation the eye projected onto
/// each basis row and negated, so the matrix carries the eye to the
/// origin looking down `-z`.
pub open spec fn view_rows(eye: Seq<Fx>, at: Seq<Fx>, up: Seq<Fx>) -> Seq<Seq<Fx>> {
    let g = view_g(eye, at);
    let u = view_u(up);
    let x = view_x(eye, at, up);
    let e3 = seq![eye[0], eye[1], eye[2]];
    seq![
        seq![x[0], x[1], x[2], fxb(fx_neg_bits(dot_bits(seq![x[0], x[1], x[2]], e3)))],
        seq![u[0], u[1], u[2], fxb(fx_neg_bits(dot_bits(seq![u[0], u[1], u[2]], e3)))],
        seq![
            fxb(fx_neg_bits(g[0].bits as int)),
            fxb(fx_neg_bits(g[1].bits as int)),
            fxb(fx_neg_bits(g[2].bits as int)),
            fxb(dot_bits(seq![g[0], g[1], g[2]], e3)),
        ],
        seq![fxb(0), fxb(0), fxb(0), fxb(FX_ONE as int)],
    ]
}

/// Build the look-at view matrix from eye, target and up vectors.
pub fn get_view_matrix(eye: Vector, at: Vector, up: Vector) -> (r: Matrix)
    requires
        eye.v@.len() == 4,
        at.v@.len() == 4,
        up.v@.len() == 4,
    ensures
        r.wf(),
        r.rows() =~~= view_rows(eye.v@, at.v@, up.v@),
{
    let mut g = at.sub(&eye);
    g.normlize();
    let mut u = up;
    u.normlize();
    let mut x = g.cross_product(&u);
    x.normlize();
    let e3 = Vector::new_3(eye.x(), eye.y(), eye.z());
    let x3 = Vector::new_3(x.x(), x.y(), x.z());
    let u3 = Vector::new_3(u.x(), u.y(), u.z());
    let g3 = Vector::new_3(g.x(), g.y(), g.z());
    let tx = x3.dot_product(&e3).neg();
    let tu = u3.dot_product(&e3).neg();
    let tg = g3.dot_product(&e3);
    let mut m: Vec<Vec<Fx>> = Vec::new();
    m.push(row4(x.x(), x.y(), x.z(), tx));
    m.push(row4(u.x(), u.y(), u.z(), tu));
    m.push(row4(g.x().neg(), g.y().neg(), g.z().neg(), tg));
    m.push(row4(Fx::zero(), Fx::zero(), Fx::zero(), Fx::one()));
    let r = Matrix::new_val(m);
    proof {
        let gs = view_g(eye.v@, at.v@);
        let us = view_u(up.v@);
        let xs = view_x(eye.v@, at.v@, up.v@);
        let e3s = seq![eye.v@[0], eye.v@[1], eye.v@[2]];
        assert(g.v@ =~= gs);
        assert(u.v@ =~= us);
        assert(x.v@ =~= xs);
        assert(e3.v@ =~= e3s);
        assert(x3.v@ =~= seq![xs[0], xs[1], xs[2]]);
        assert(u3.v@ =~= seq![us[0], us[1], us[2]]);
        assert(g3.v@ =~= seq![gs[0], gs[1], gs[2]]);
        assert(tx.bits == fx_neg_bits(dot_bits(seq![xs[0], xs[1], xs[2]], e3s)));
        assert(tu.bits == fx_neg_bits(dot_bits(seq![us[0], us[1], us[2]], e3s)));
        assert(tg.bits == dot_bits(seq![gs[0], gs[1], gs[2]], e3s));
        assert forall|i: int| 0 <= i < 4 implies r.rows()[i] =~= view_rows(eye.v@, at.v@, up.v@)[i] by {}
        assert(r.rows() =~~= view_rows(eye.v@, at.v@, up.v@));
    }
    r
}

/// The look-at matrix carries the eye to the origin: applying it to
/// the homogeneous eye position gives exactly `(0, 0, 0, 1)`, for any
/// basis and eye whose components stay in a saturation-free range.
pub proof fn lemma_view_matrix_centers_eye(eye: Seq<Fx>, at: Seq<Fx>, up: Seq<Fx>)
    requires
        eye.len() == 4,
        at.len() == 4,
        up.len() == 4,
        eye[3].bits == FX_ONE,
        forall|j: int| 0 <= j < 3 ==> crate::fixed::iabs((#[trigger] eye[j]).bits as int) <= 0x40000000,
        forall|j: int| 0 <= j < 3 ==> crate::fixed::iabs((#[trigger] view_g(eye, at)[j]).bits as int) <= 0x40000000,
        forall|j: int| 0 <= j < 3 ==> crate::fixed::iabs((#[trigger] view_u(up)[j]).bits as int) <= 0x40000000,
        forall|j: int| 0 <= j < 3 ==> crate::fixed::iabs((#[trigger] view_x(eye, at, up)[j]).bits as int) <= 0x40000000,
    ensures
        apply_seq(view_rows(eye, at, up), eye) =~= seq![fxb(0), fxb(0), fxb(0), fxb(FX_ONE as int)],
{
    let g = view_g(eye, at);
    let u = view_u(up);
    let x = view_x(eye, at, up);
    let e3 = seq![eye[0], eye[1], eye[2]];
    let rows = view_rows(eye, at, up);

    // rows 0 and 1: the final entry cancels the first three terms
    let x3 = seq![x[0], x[1], x[2]];
    let u3 = seq![u[0], u[1], u[2]];
    crate::vector::lemma_dot3_unroll(x3, e3);
    crate::vector::lemma_dot3_unroll(u3, e3);
    crate::vector::lemma_dot4_unroll(rows[0], eye);
    crate::vector::lemma_dot4_unroll(rows[1], eye);
    crate::fixed::lemma_fx_mul_small(x[0].bits as int, eye[0].bits as int);
    crate::fixed::lemma_fx_mul_small(x[1].bits as int, eye[1].bits as int);
    crate::fixed::lemma_fx_mul_small(x[2].bits as int, eye[2].bits as int);
    crate::fixed::lemma_fx_mul_small(u[0].bits as int, eye[0].bits as int);
    crate::fixed::lemma_fx_mul_small(u[1].bits as int, eye[1].bits as int);
    crate::fixed::lemma_fx_mul_small(u[2].bits as int, eye[2].bits as int);
    let dx = dot_bits(x3, e3);
    let du = dot_bits(u3, e3);
    assert(crate::fixed::iabs(dx) <= 0x300000000000);
    assert(crate::fixed::iabs(du) <= 0x300000000000);
    crate::fixed::lemma_fx_mul_one(fx_neg_bits(dx));
    crate::fixed::lemma_fx_mul_one(fx_neg_bits(du));
    assert(rows[0][3].bits as int == fx_neg_bits(dx));
    assert(rows[1][3].bits as int == fx_neg_bits(du));
    assert(dot_bits(rows[0], eye) == fx_add_bits(dx, fx_neg_bits(dx)));
    assert(dot_bits(rows[0], eye) == 0);
    assert(dot_bits(rows[1], eye) == fx_add_bits(du, fx_neg_bits(du)));
    assert(dot_bits(rows[1], eye) == 0);

    // row 2: the negated forward terms cancel the projected eye
    let g3 = seq![g[0], g[1], g[2]];
    crate::vector::lemma_dot3_unroll(g3, e3);
    crate::vector::lemma_dot4_unroll(rows[2], eye);
    crate::fixed::lemma_fx_mul_small(g[0].bits as int, eye[0].bits as int);
    crate::fixed::lemma_fx_mul_small(g[1].bits as int, eye[1].bits as int);
    crate::fixed::lemma_fx_mul_small(g[2].bits as int, eye[2].bits as int);
    let dg = dot_bits(g3, e3);
    assert(crate::fixed::iabs(dg) <= 0x300000000000);
    crate::fixed::lemma_fx_mul_one(dg);
    assert(rows[2][0].bits as int == fx_neg_bits(g[0].bits as int));
    assert(rows[2][1].bits as int == fx_neg_bits(g[1].bits as int));
    assert(rows[2][2].bits as int == fx_neg_bits(g[2].bits as int));
    assert(rows[2][3].bits as int == dg);
    assert(dot_bits(rows[2], eye) == fx_add_bits(fx_neg_bits(dg), dg));
    assert(dot_bits(rows[2], eye) == 0);

    // row 3 leaves the homogeneous weight at one
    crate::vector::lemma_dot4_unroll(rows[3], eye);
    assert(fx_mul_bits(0, eye[0].bits as int) == 0);
    assert(fx_mul_bits(0, eye[1].bits as int) == 0);
    assert(fx_mul_bits(0, eye[2].bits as int) == 0);
    assert(fx_mul_bits(FX_ONE as int, FX_ONE as int) == FX_ONE);
    assert(dot_bits(rows[3], eye) == FX_ONE);

    assert(apply_seq(rows, eye)[0] == fxb(0));
    assert(apply_seq(rows, eye)[1] == fxb(0));
    assert(apply_seq(rows, eye)[2] == fxb(0));
    assert(apply_seq(rows, eye)[3] == fxb(FX_ONE as int));
}

/// The rows of the viewport matrix: scale to pixels and flip Y.
pub open spec fn view_port_rows(w: int, h: int) -> Seq<Seq<Fx>> {
    seq![
        seq![fxb(fx_div_bits(w, 2 * (FX_ONE as int))), fxb(0), fxb(0), fxb(fx_div_bits(w, 2 * (FX_ONE as int)))],
        seq![
            fxb(0),
            fxb(fx_div_bits(fx_neg_bits(h), 2 * (FX_ONE as int))),
            fxb(0),
            fxb(fx_div_bits(h, 2 * (FX_ONE as int))),
        ],
        seq![fxb(0), fxb(0), fxb(FX_ONE as int), fxb(0)],
        seq![fxb(0), fxb(0), fxb(0), fxb(FX_ONE as int)],
    ]
}

/// Map normalized device coordinates to pixel coordinates.
pub fn get_view_port(width: Fx, height: Fx) -> (r: Matrix)
    ensures
        r.wf(),
        r.rows() =~~= view_port_rows(width.bits as int, height.bits as int),
{
    let two = Fx::from_int(2);
    let mut m: Vec<Vec<Fx>> = Vec::new();
    m.push(row4(width.div(two), Fx::zero(), Fx::zero(), width.div(two)));
    m.push(row4(Fx::zero(), height.neg().div(two), Fx::zero(), height.div(two)));
    m.push(row4(Fx::zero(), Fx::zero(), Fx::one(), Fx::zero()));
    m.push(row4(Fx::zero(), Fx::zero(), Fx::zero(), Fx::one()));
    let r = Matrix::new_val(m);
    proof {
        assert forall|i: int| 0 <= i < 4 implies r.rows()[i] =~= view_port_rows(width.bits as int, height.bits as int)[i] by {}
        assert(r.rows() =~~= view_port_rows(width.bits as int, height.bits as int));
    }
    r
}

/// The rows of a rotation about the Y axis by an angle in degrees.
pub open spec fn model_rows(a: int) -> Seq<Seq<Fx>> {
    seq![
        seq![fxb(cos_deg_bits(a)), fxb(0), fxb(sin_deg_bits(a)), fxb(0)],
        seq![fxb(0), fxb(FX_ONE as int), fxb(0), fxb(0)],
        seq![fxb(fx_neg_bits(sin_deg_bits(a))), fxb(0), fxb(cos_deg_bits(a)), fxb(0)],
        seq![fxb(0), fxb(0), fxb(0), fxb(FX_ONE as int)],
    ]
}

/// Rotation about the Y axis, angle in degrees.
pub fn get_model_matrix(angel: Fx) -> (r: Matrix)
    ensures
        r.wf(),
        r.rows() =~~= model_rows(angel.bits as int),
{
    let c = cos_deg(angel);
    let s = sin_deg(angel);
    let mut m: Vec<Vec<Fx>> = Vec::new();
    m.push(row4(c, Fx::zero(), s, Fx::zero()));
    m.push(row4(Fx::zero(), Fx::one(), Fx::zero(), Fx::zero()));
    m.push(row4(s.neg(), Fx::zero(), c, Fx::zero()));
    m.push(row4(Fx::zero(), Fx::zero(), Fx::zero(), Fx::one()));
    let r = Matrix::new_val(m);
    proof {
        assert forall|i: int| 0 <= i < 4 implies r.rows()[i] =~= model_rows(angel.bits as int)[i] by {}
        assert(r.rows() =~~= model_rows(angel.bits as int));
    }
    r
}

/// The scale part of the orthographic projection.
pub open spec fn ortho_scale_rows(l: int, r: int, t: int, b: int, n: int, f: int) -> Seq<Seq<Fx>> {
    seq![
        seq![fxb(fx_div_bits(2 * (FX_ONE as int), fx_sub_bits(r, l))), fxb(0), fxb(0), fxb(0)],
        seq![fxb(0), fxb(fx_div_bits(2 * (FX_ONE as int), fx_sub_bits(t, b))), fxb(0), fxb(0)],
        seq![fxb(0), fxb(0), fxb(fx_div_bits(2 * (FX_ONE as int), fx_sub_bits(n, f))), fxb(0)],
        seq![fxb(0), fxb(0), fxb(0), fxb(FX_ONE as int)],
    ]
}

/// The centering part of the orthographic projection.
pub open spec fn ortho_trans_rows(l: int, r: int, t: int, b: int, n: int, f: int) -> Seq<Seq<Fx>> {
    seq![
        seq![fxb(FX_ONE as int), fxb(0), fxb(0), fxb(fx_div_bits(fx_neg_bits(fx_add_bits(l, r)), 2 * (FX_ONE as int)))],
        seq![fxb(0), fxb(FX_ONE as int), fxb(0), fxb(fx_div_bits(fx_neg_bits(fx_add_bits(t, b)), 2 * (FX_ONE as int)))],
        seq![fxb(0), fxb(0), fxb(FX_ONE as int), fxb(fx_div_bits(fx_neg_bits(fx_add_bits(n, f)), 2 * (FX_ONE as int)))],
        seq![fxb(0), fxb(0), fxb(0), fxb(FX_ONE as int)],
    ]
}

/// The orthographic projection: scale composed with centering.
pub open spec fn ortho_rows(l: int, r: int, t: int, b: int, n: int, f: int) -> Seq<Seq<Fx>> {
    mat_mul(ortho_scale_rows(l, r, t, b, n, f), ortho_trans_rows(l, r, t, b, n, f))
}

/// Map an axis-aligned view-space box onto the canonical cube.
pub fn get_ortho_projection_matrix(l: Fx, r: Fx, t: Fx, b: Fx, n: Fx, f: Fx) -> (res: Matrix)
    ensures
        res.wf(),
        res.rows() =~~= ortho_rows(l.bits as int, r.bits as int, t.bits as int, b.bits as int, n.bits as int, f.bits as int),
{
    let two = Fx::from_int(2);
    let mut sm: Vec<Vec<Fx>> = Vec::new();
    sm.push(row4(two.div(r.sub(l)), Fx::zero(), Fx::zero(), Fx::zero()));
    sm.push(row4(Fx::zero(), two.div(t.sub(b)), Fx::zero(), Fx::zero()));
    sm.push(row4(Fx::zero(), Fx::zero(), two.div(n.sub(f)), Fx::zero()));
    sm.push(row4(Fx::zero(), Fx::zero(), Fx::zero(), Fx::one()));
    let scale = Matrix::new_val(sm);
    let mut tm: Vec<Vec<Fx>> = Vec::new();
    tm.push(row4(Fx::one(), Fx::zero(), Fx::zero(), l.add(r).neg().div(two)));
    tm.push(row4(Fx::zero(), Fx::one(), Fx::zero(), t.add(b).neg().div(two)));
    tm.push(row4(Fx::zero(), Fx::zero(), Fx::one(), n.add(f).neg().div(two)));
    tm.push(row4(Fx::zero(), Fx::zero(), Fx::zero(), Fx::one()));
    let trans = Matrix::new_val(tm);
    proof {
        let ls = l.bits as int;
        let rs = r.bits as int;
        let ts = t.bits as int;
        let bs = b.bits as int;
        let ns = n.bits as int;
        let fs = f.bits as int;
        assert forall|i: int| 0 <= i < 4 implies scale.rows()[i] =~= ortho_scale_rows(ls, rs, ts, bs, ns, fs)[i] by {}
        assert(scale.rows() =~~= ortho_scale_rows(ls, rs, ts, bs, ns, fs));
        assert forall|i: int| 0 <= i < 4 implies trans.rows()[i] =~= ortho_trans_rows(ls, rs, ts, bs, ns, fs)[i] by {}
        assert(trans.rows() =~~= ortho_trans_rows(ls, rs, ts, bs, ns, fs));
    }
    scale.mul(&trans)
}

/// The perspective-to-orthographic squeeze.
pub open spec fn squeeze_rows(n: int, f: int) -> Seq<Seq<Fx>> {
    seq![
        seq![fxb(n), fxb(0), fxb(0), fxb(0)],
        seq![fxb(0), fxb(n), fxb(0), fxb(0)],
        seq![fxb(0), fxb(0), fxb(fx_add_bits(n, f)), fxb(fx_mul_bits(fx_neg_bits(n), f))],
        seq![fxb(0), fxb(0), fxb(FX_ONE as int), fxb(0)],
    ]
}

/// The frustum half-height derived from the field of view.
pub open spec fn presp_t_bits(fov: int, near: int) -> int {
    fx_mul_bits(fx_abs_bits(near), tan_deg_bits(fx_div_bits(fov, 2 * (FX_ONE as int))))
}

/// The rows of the perspective projection.
pub open spec fn presp_rows(fov: int, aspect: int, near: int, far: int) -> Seq<Seq<Fx>> {
    let t = presp_t_bits(fov, near);
    let r = fx_mul_bits(t, aspect);
    let l = fx_neg_bits(r);
    let b = fx_neg_bits(t);
    mat_mul(ortho_rows(l, r, t, b, near, far), squeeze_rows(near, far))
}

/// Perspective projection from field of view, aspect ratio and the
/// near/far view-space depths (negative by convention).
pub fn get_presp_projection_matrix(eye_fov: Fx, aspect_ratio: Fx, near: Fx, far: Fx) -> (res: Matrix)
    ensures
        res.wf(),
        res.rows() =~~= presp_rows(eye_fov.bits as int, aspect_ratio.bits as int, near.bits as int, far.bits as int),
{
    let two = Fx::from_int(2);
    let t = near.abs().mul(tan_deg(eye_fov.div(two)));
    let r = t.mul(aspect_ratio);
    let l = r.neg();
    let b = t.neg();
    let ortho = get_ortho_projection_matrix(l, r, t, b, near, far);
    let mut pm: Vec<Vec<Fx>> = Vec::new();
    pm.push(row4(near, Fx::zero(), Fx::zero(), Fx::zero()));
    pm.push(row4(Fx::zero(), near, Fx::zero(), Fx::zero()));
    pm.push(row4(Fx::zero(), Fx::zero(), near.add(far), near.neg().mul(far)));
    pm.push(row4(Fx::zero(), Fx::zero(), Fx::one(), Fx::zero()));
    let squeeze = Matrix::new_val(pm);
    proof {
        assert forall|i: int| 0 <= i < 4 implies squeeze.rows()[i] =~= squeeze_rows(near.bits as int, far.bits as int)[i] by {}
        assert(squeeze.rows() =~~= squeeze_rows(near.bits as int, far.bits as int));
    }
    ortho.mul(&squeeze)
}


/// The depth-buffer clear value: far enough that every drawn fragment
/// passes the first test.
pub const DEPTH_FAR_BITS: i64 = -3342336;  // -51.0

/// A 4-component vector taken through a 4x4 matrix, row by row.
pub open spec fn apply_seq(m: Seq<Seq<Fx>>, v: Seq<Fx>) -> Seq<Fx> {
    Seq::new(4, |i: int| fxb(crate::vector::dot_bits(m[i], v)))
}

/// The screen-space position of a model-space vertex: MVP, viewport,
/// perspective divide, then the depth remap.
pub open spec fn screen_seq(mvp: Seq<Seq<Fx>>, w: int, h: int, n: int, f: int, origin: Seq<Fx>) -> Seq<Fx> {
    crate::vector::reset_z_seq(
        crate::vector::divide_seq(
            apply_seq(view_port_rows(w * (FX_ONE as int), h * (FX_ONE as int)), apply_seq(mvp, origin)),
        ),
        n,
        f,
    )
}

/// Transform one triangle to screen space and rasterize it with the
/// edge-equation engine.
#[verifier::rlimit(100)]
pub fn draw_trangle(
    rasterizer: &Rasterizer,
    image: &mut Vec<u8>,
    zbuf: &mut Vec<Fx>,
    near: Fx,
    far: Fx,
    width: usize,
    height: usize,
    triangle: &mut Triangle,
    textures: &Vec<Texture>,
)
    requires
        rasterizer.wf(),
        old(triangle).wf(),
        1 <= width <= 16384,
        1 <= height <= 16384,
        width <= 140737488355327,
        old(image)@.len() == width * height * 4,
        old(zbuf)@.len() == width * height,
        old(triangle).render == RenderType::TEXTURE ==> textures@.len() >= 1 && textures@[0].wf(),
    ensures
        final(triangle).wf(),
        final(triangle).render == old(triangle).render,
        final(image)@.len() == old(image)@.len(),
        final(zbuf)@.len() == old(zbuf)@.len(),
        forall|k: int| 0 <= k < 3 ==> (#[trigger] final(triangle).vertexs@[k]).v.v@ =~= screen_seq(
            rasterizer.mvp.rows(), width as int, height as int, near.bits as int, far.bits as int,
            old(triangle).vertexs@[k].origin_v.v@,
        ),
        forall|k: int| 0 <= k < 3 ==> (#[trigger] final(triangle).vertexs@[k]).tv.v@ =~= apply_seq(
            rasterizer.model.rows(), old(triangle).vertexs@[k].origin_v.v@,
        ),
        forall|k: int| 0 <= k < 3 ==> (#[trigger] final(triangle).vertexs@[k]).rhw.bits == fx_div_bits(
            FX_ONE as int,
            apply_seq(
                view_port_rows((width as int) * (FX_ONE as int), (height as int) * (FX_ONE as int)),
                apply_seq(rasterizer.mvp.rows(), old(triangle).vertexs@[k].origin_v.v@),
            )[3].bits as int,
        ),
        forall|k: int| 0 <= k < 3 ==> (#[trigger] final(triangle).vertexs@[k]).origin_v == old(triangle).vertexs@[k].origin_v,
        forall|k: int| 0 <= k < 3 ==> (#[trigger] final(triangle).vertexs@[k]).color == old(triangle).vertexs@[k].color,
        forall|k: int| 0 <= k < 3 ==> (#[trigger] final(triangle).vertexs@[k]).tex_coords == old(triangle).vertexs@[k].tex_coords,
        forall|k: int| 0 <= k < 3 ==> (#[trigger] final(triangle).vertexs@[k]).normal == old(triangle).vertexs@[k].normal,
        forall|x: int, y: int| 0 <= x < width && 0 <= y < height
            ==> crate::edge_equation::pix_of(final(image)@, final(zbuf)@, width as int, x, y)
                == crate::edge_equation::ee_pixel_upd(
                    *final(triangle),
                    rasterizer.lights@,
                    rasterizer.eye_pos.v@,
                    textures@,
                    width as int,
                    height as int,
                    x,
                    y,
                    crate::edge_equation::pix_of(old(image)@, old(zbuf)@, width as int, x, y),
                ),
{
    let t1 = rasterizer.mvp.apply(&triangle.vertexs[0].origin_v);
    let t2 = rasterizer.mvp.apply(&triangle.vertexs[1].origin_v);
    let t3 = rasterizer.mvp.apply(&triangle.vertexs[2].origin_v);

    let w1 = rasterizer.model.apply(&triangle.vertexs[0].origin_v);
    let w2 = rasterizer.model.apply(&triangle.vertexs[1].origin_v);
    let w3 = rasterizer.model.apply(&triangle.vertexs[2].origin_v);
    proof {
        assert(w1.v@ =~= apply_seq(rasterizer.model.rows(), triangle.vertexs@[0].origin_v.v@));
        assert(w2.v@ =~= apply_seq(rasterizer.model.rows(), triangle.vertexs@[1].origin_v.v@));
        assert(w3.v@ =~= apply_seq(rasterizer.model.rows(), triangle.vertexs@[2].origin_v.v@));
    }
    let mut wv: Vec<Vector> = Vec::new();
    wv.push(w1);
    wv.push(w2);
    wv.push(w3);
    triangle.set_tvetexs(wv);

    let view_port = get_view_port(Fx::from_int(width as i64), Fx::from_int(height as i64));
    let mut p1 = view_port.apply(&t1);
    let mut p2 = view_port.apply(&t2);
    let mut p3 = view_port.apply(&t3);
    let ghost mvp_rows = rasterizer.mvp.rows();
    let ghost origin0 = triangle.vertexs@[0].origin_v.v@;
    let ghost origin1 = triangle.vertexs@[1].origin_v.v@;
    let ghost origin2 = triangle.vertexs@[2].origin_v.v@;
    proof {
        assert(t1.v@ =~= apply_seq(mvp_rows, origin0));
        assert(t2.v@ =~= apply_seq(mvp_rows, origin1));
        assert(t3.v@ =~= apply_seq(mvp_rows, origin2));
        assert(p1.v@ =~= apply_seq(view_port_rows((width as int) * (FX_ONE as int), (height as int) * (FX_ONE as int)), t1.v@));
        assert(p2.v@ =~= apply_seq(view_port_rows((width as int) * (FX_ONE as int), (height as int) * (FX_ONE as int)), t2.v@));
        assert(p3.v@ =~= apply_seq(view_port_rows((width as int) * (FX_ONE as int), (height as int) * (FX_ONE as int)), t3.v@));
    }
    // the reciprocal homogeneous weights, taken before the divide
    let wpre1 = p1.w();
    let wpre2 = p2.w();
    let wpre3 = p3.w();
    p1.divide_w();
    p2.divide_w();
    p3.divide_w();
    p1.reset_z(near, far);
    p2.reset_z(near, far);
    p3.reset_z(near, far);
    proof {
        assert(p1.v@ =~= screen_seq(mvp_rows, width as int, height as int, near.bits as int, far.bits as int, origin0));
        assert(p2.v@ =~= screen_seq(mvp_rows, width as int, height as int, near.bits as int, far.bits as int, origin1));
        assert(p3.v@ =~= screen_seq(mvp_rows, width as int, height as int, near.bits as int, far.bits as int, origin2));
    }
    let ghost s0 = p1.v@;
    let ghost s1 = p2.v@;
    let ghost s2 = p3.v@;
    let ghost vb = triangle.vertexs@;
    let mut vert = triangle.vertexs.remove(0);
    vert.rhw = Fx::one().div(wpre1);
    vert.v = p1;
    triangle.vertexs.insert(0, vert);
    proof {
        assert(triangle.vertexs@.len() == 3);
        assert(triangle.vertexs@[1] == vb[1] && triangle.vertexs@[2] == vb[2]);
    }
    let ghost vb1 = triangle.vertexs@;
    let mut vert = triangle.vertexs.remove(1);
    vert.rhw = Fx::one().div(wpre2);
    vert.v = p2;
    triangle.vertexs.insert(1, vert);
    proof {
        assert(triangle.vertexs@.len() == 3);
        assert(triangle.vertexs@[0] == vb1[0] && triangle.vertexs@[2] == vb1[2]);
    }
    let ghost vb2 = triangle.vertexs@;
    let mut vert = triangle.vertexs.remove(2);
    vert.rhw = Fx::one().div(wpre3);
    vert.v = p3;
    triangle.vertexs.insert(2, vert);
    proof {
        assert(triangle.vertexs@.len() == 3);
        assert(triangle.vertexs@[0] == vb2[0] && triangle.vertexs@[1] == vb2[1]);
        assert(triangle.vertexs@[0].v.v@ =~= s0);
        assert(triangle.vertexs@[1].v.v@ =~= s1);
        assert(triangle.vertexs@[2].v.v@ =~= s2);
        assert(triangle.vertexs@[0].rhw.bits == fx_div_bits(FX_ONE as int, wpre1.bits as int));
        assert(triangle.vertexs@[1].rhw.bits == fx_div_bits(FX_ONE as int, wpre2.bits as int));
        assert(triangle.vertexs@[2].rhw.bits == fx_div_bits(FX_ONE as int, wpre3.bits as int));
        assert(triangle.wf());
    }
    crate::edge_equation::draw_trangle_edge_equation(image, rasterizer, zbuf, width, height, triangle, textures);
}

/// One pixel produced by a per-triangle draw: its buffer index, depth
/// and color bytes.
#[derive(Clone, Copy, Debug)]
pub struct RenderResult {
    pub idx: usize,
    pub z: Fx,
    pub r: u8,
    pub g: u8,
    pub b: u8,
}

/// The buffers after the first `n` render results are merged under the
/// strict depth test.
pub open spec fn merge_upto(img: Seq<u8>, zb: Seq<Fx>, rs: Seq<RenderResult>, n: int) -> (Seq<u8>, Seq<Fx>)
    decreases n,
{
    if n <= 0 {
        (img, zb)
    } else {
        let p = merge_upto(img, zb, rs, n - 1);
        let r = rs[n - 1];
        if r.z.bits > p.1[r.idx as int].bits {
            (
                p.0.update(4 * (r.idx as int), r.b).update(4 * (r.idx as int) + 1, r.g).update(
                    4 * (r.idx as int) + 2,
                    r.r,
                ).update(4 * (r.idx as int) + 3, 255),
                p.1.update(r.idx as int, r.z),
            )
        } else {
            p
        }
    }
}

/// Merge per-triangle render results into the shared buffers: a result
/// lands only where it is strictly closer than what is already there.
pub fn merge_results(image: &mut Vec<u8>, zbuf: &mut Vec<Fx>, results: &Vec<RenderResult>)
    requires
        old(image)@.len() == old(zbuf)@.len() * 4,
        forall|k: int| 0 <= k < results@.len() ==> (#[trigger] results@[k]).idx < old(zbuf)@.len(),
    ensures
        final(image)@ == merge_upto(old(image)@, old(zbuf)@, results@, results@.len() as int).0,
        final(zbuf)@ == merge_upto(old(image)@, old(zbuf)@, results@, results@.len() as int).1,
{
    let ghost img0 = image@;
    let ghost zb0 = zbuf@;
    let ilen = image.len();
    let n = results.len();
    let mut k: usize = 0;
    while k < n
        invariant
            n == results@.len(),
            img0.len() == zb0.len() * 4,
            img0.len() == ilen,
            k <= n,
            forall|j: int| 0 <= j < results@.len() ==> (#[trigger] results@[j]).idx < zb0.len(),
            image@ == merge_upto(img0, zb0, results@, k as int).0,
            zbuf@ == merge_upto(img0, zb0, results@, k as int).1,
            image@.len() == img0.len(),
            zbuf@.len() == zb0.len(),
        decreases n - k,
    {
        let r = &results[k];
        if r.z.bits > zbuf[r.idx].bits {
            image[4 * r.idx] = r.b;
            image[4 * r.idx + 1] = r.g;
            image[4 * r.idx + 2] = r.r;
            image[4 * r.idx + 3] = 255;
            zbuf[r.idx] = r.z;
        }
        k = k + 1;
    }
}

/// The pixel state a lone triangle leaves at `(x, y)` on cleared
/// buffers.
pub open spec fn map_pix(
    t: Triangle,
    lights: Seq<Light>,
    eye: Seq<Fx>,
    textures: Seq<Texture>,
    w: int,
    h: int,
    x: int,
    y: int,
) -> (int, int, int, int, int) {
    crate::edge_equation::ee_pixel_upd(t, lights, eye, textures, w, h, x, y, (0, 0, 0, 0, DEPTH_FAR_BITS as int))
}

/// The render results of one row, left to right: every pixel whose
/// depth rose above the clear value.
pub open spec fn collect_row(
    t: Triangle,
    lights: Seq<Light>,
    eye: Seq<Fx>,
    textures: Seq<Texture>,
    w: int,
    h: int,
    y: int,
    xlim: int,
) -> Seq<RenderResult>
    decreases xlim,
{
    if xlim <= 0 {
        Seq::empty()
    } else {
        let prev = collect_row(t, lights, eye, textures, w, h, y, xlim - 1);
        let p = map_pix(t, lights, eye, textures, w, h, xlim - 1, y);
        if p.4 > DEPTH_FAR_BITS as int {
            prev.push(RenderResult {
                idx: (y * w + (xlim - 1)) as usize,
                z: fxb(p.4),
                r: p.2 as u8,
                g: p.1 as u8,
                b: p.0 as u8,
            })
        } else {
            prev
        }
    }
}

/// The render results of the first `ylim` rows, top row first.
pub open spec fn collect_rows(
    t: Triangle,
    lights: Seq<Light>,
    eye: Seq<Fx>,
    textures: Seq<Texture>,
    w: int,
    h: int,
    ylim: int,
) -> Seq<RenderResult>
    decreases ylim,
{
    if ylim <= 0 {
        Seq::empty()
    } else {
        collect_rows(t, lights, eye, textures, w, h, ylim - 1) + collect_row(t, lights, eye, textures, w, h, ylim - 1, w)
    }
}

/// Draw one triangle into private cleared buffers and collect the
/// pixels it produced, for a later single-threaded merge.
#[verifier::rlimit(100)]
pub fn draw_trangle_map(
    rasterizer: &Rasterizer,
    near: Fx,
    far: Fx,
    width: usize,
    height: usize,
    triangle: &mut Triangle,
    textures: &Vec<Texture>,
) -> (res: Vec<RenderResult>)
    requires
        rasterizer.wf(),
        old(triangle).wf(),
        1 <= width <= 16384,
        1 <= height <= 16384,
        old(triangle).render == RenderType::TEXTURE ==> textures@.len() >= 1 && textures@[0].wf(),
    ensures
        final(triangle).wf(),
        final(triangle).render == old(triangle).render,
        res@ == collect_rows(
            *final(triangle),
            rasterizer.lights@,
            rasterizer.eye_pos.v@,
            textures@,
            width as int,
            height as int,
            height as int,
        ),
{
    proof {
        assert((width as int) * (height as int) <= 16384 * 16384) by (nonlinear_arith)
            requires
                1 <= width as int <= 16384,
                1 <= height as int <= 16384,
        ;
    }
    let npix: usize = width * height;
    let mut image: Vec<u8> = Vec::new();
    let mut i: usize = 0;
    while i < npix * 4
        invariant
            npix <= 268435456,
            image@.len() == i,
            i <= npix * 4,
            forall|j: int| 0 <= j < i ==> image@[j] == 0,
        decreases npix * 4 - i,
    {
        image.push(0);
        i = i + 1;
    }
    let mut zbuf: Vec<Fx> = Vec::new();
    let mut j: usize = 0;
    while j < npix
        invariant
            npix <= 268435456,
            zbuf@.len() == j,
            j <= npix,
            forall|jj: int| 0 <= jj < j ==> zbuf@[jj].bits == DEPTH_FAR_BITS,
        decreases npix - j,
    {
        zbuf.push(Fx::from_bits(DEPTH_FAR_BITS));
        j = j + 1;
    }
    let ghost imginit = image@;
    let ghost zbinit = zbuf@;
    draw_trangle(rasterizer, &mut image, &mut zbuf, near, far, width, height, triangle, textures);
    let ghost tfin = *triangle;
    let ghost lights = rasterizer.lights@;
    let ghost eye = rasterizer.eye_pos.v@;
    let ghost texs = textures@;
    let ghost wi = width as int;
    let ghost hi = height as int;
    proof {
        assert forall|x: int, yy: int| 0 <= x < wi && 0 <= yy < hi
            implies crate::edge_equation::pix_of(image@, zbuf@, wi, x, yy)
                == map_pix(tfin, lights, eye, texs, wi, hi, x, yy) by {
            assert(0 <= yy * wi + x && yy * wi + x < wi * hi) by (nonlinear_arith)
                requires
                    0 <= x < wi,
                    0 <= yy < hi,
            ;
            assert(crate::edge_equation::pix_of(imginit, zbinit, wi, x, yy)
                == (0int, 0int, 0int, 0int, DEPTH_FAR_BITS as int));
        }
    }
    let mut res: Vec<RenderResult> = Vec::new();
    let mut y: usize = 0;
    while y < height
        invariant
            y <= height,
            1 <= width <= 16384,
            1 <= height <= 16384,
            npix == width * height,
            npix <= 268435456,
            image@.len() == npix * 4,
            zbuf@.len() == npix,
            wi == width as int,
            hi == height as int,
            forall|x: int, yy: int| 0 <= x < wi && 0 <= yy < hi
                ==> crate::edge_equation::pix_of(image@, zbuf@, wi, x, yy)
                    == map_pix(tfin, lights, eye, texs, wi, hi, x, yy),
            res@ == collect_rows(tfin, lights, eye, texs, wi, hi, y as int),
        decreases height - y,
    {
        let mut x: usize = 0;
        while x < width
            invariant
                y < height,
                x <= width,
                1 <= width <= 16384,
                1 <= height <= 16384,
                npix == width * height,
                npix <= 268435456,
                image@.len() == npix * 4,
                zbuf@.len() == npix,
                wi == width as int,
                hi == height as int,
                forall|xx: int, yy: int| 0 <= xx < wi && 0 <= yy < hi
                    ==> crate::edge_equation::pix_of(image@, zbuf@, wi, xx, yy)
                        == map_pix(tfin, lights, eye, texs, wi, hi, xx, yy),
                res@ == collect_rows(tfin, lights, eye, texs, wi, hi, y as int)
                    + collect_row(tfin, lights, eye, texs, wi, hi, y as int, x as int),
            decreases width - x,
        {
            proof {
                assert((y as int) * wi + (x as int) < wi * hi && 0 <= (y as int) * wi + (x as int)) by (nonlinear_arith)
                    requires
                        0 <= (x as int) < wi,
                        0 <= (y as int) < hi,
                ;
            }
            let idx: usize = y * width + x;
            if zbuf[idx].bits > DEPTH_FAR_BITS {
                res.push(RenderResult {
                    idx,
                    z: zbuf[idx],
                    r: image[4 * idx + 2],
                    g: image[4 * idx + 1],
                    b: image[4 * idx],
                });
            }
            proof {
                let p = map_pix(tfin, lights, eye, texs, wi, hi, x as int, y as int);
                assert(crate::edge_equation::pix_of(image@, zbuf@, wi, x as int, y as int) == p);
                assert(res@ == collect_rows(tfin, lights, eye, texs, wi, hi, y as int)
                    + collect_row(tfin, lights, eye, texs, wi, hi, y as int, x as int + 1));
            }
            x = x + 1;
        }
        y = y + 1;
    }
    res
}

} // verus!
