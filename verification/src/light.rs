//! Phong lighting: ambient + diffuse + specular, summed over point lights.
//!
//! Every term is pinned exactly at the fixed-point bit level, including
//! the inverse-square attenuation and the shininess power.

use vstd::prelude::*;
use crate::fixed::{Fx, FX_ONE, fx_add_bits, fx_mul_bits, fx_div_bits, iabs, sat64};
use crate::vector::{Vector, dot_bits, length_bits, lemma_take_step, sub_seq, add_seq, norm_seq};

verus! {

/// The fixed shininess exponent of the specular term.
pub const SHININESS: u32 = 150;

/// The fixed ambient light intensity, per channel.
pub const AMBIENT_BITS: i64 = 655360;  // 10.0

/// The fixed ambient reflectance of textured fragments, per channel.
pub const KA_BITS: i64 = 328;  // about 0.005

/// The fixed specular reflectance of textured fragments, per channel.
pub const KS_BITS: i64 = 52020;  // about 0.7937

#[derive(Debug)]
pub struct Light {
    pub position: Vector,
    pub intensity: Vector,
}

impl Light {
    pub open spec fn wf(self) -> bool {
        self.position.v@.len() == 3 && self.intensity.v@.len() == 3
    }

    pub fn new(p: Vector, i: Vector) -> (r: Light)
        requires
            p.v@.len() == 3,
            i.v@.len() == 3,
        ensures
            r.wf(),
            r.position == p,
            r.intensity == i,
    {
        Light { position: p, intensity: i }
    }
}

/// Zero for a negative value, the value itself otherwise.
pub open spec fn max0_bits(a: int) -> int {
    if a < 0 {
        0
    } else {
        a
    }
}

/// Iterated fixed-point power `b^n`.
pub open spec fn fx_pow_bits(b: int, n: nat) -> int
    decreases n,
{
    if n == 0 {
        FX_ONE as int
    } else {
        fx_mul_bits(fx_pow_bits(b, (n - 1) as nat), b)
    }
}

/// The diffuse, specular and ambient contributions of one light to one
/// color channel, in fixed-point bits.
pub open spec fn phong_terms_bits(
    l: Light,
    pos: Seq<Fx>,
    normal: Seq<Fx>,
    ka: Seq<Fx>,
    kd: Seq<Fx>,
    ks: Seq<Fx>,
    eye: Seq<Fx>,
    c: int,
) -> (int, int, int) {
    let dist = length_bits(sub_seq(l.position.v@, pos));
    let ldir = norm_seq(sub_seq(l.position.v@, pos));
    let view = norm_seq(sub_seq(eye, pos));
    let half = norm_seq(add_seq(view, ldir));
    let intensity = fx_div_bits(l.intensity.v@[c].bits as int, fx_mul_bits(dist, dist));
    let d = fx_mul_bits(fx_mul_bits(kd[c].bits as int, intensity), max0_bits(dot_bits(normal, ldir)));
    let s = fx_mul_bits(
        fx_mul_bits(ks[c].bits as int, intensity),
        fx_pow_bits(max0_bits(dot_bits(normal, half)), SHININESS as nat),
    );
    let a = fx_mul_bits(AMBIENT_BITS as int, ka[c].bits as int);
    (d, s, a)
}

/// The summed Phong contribution of a list of lights to one channel.
pub open spec fn light_sum_bits(
    lights: Seq<Light>,
    pos: Seq<Fx>,
    normal: Seq<Fx>,
    ka: Seq<Fx>,
    kd: Seq<Fx>,
    ks: Seq<Fx>,
    eye: Seq<Fx>,
    c: int,
) -> int
    decreases lights.len(),
{
    if lights.len() == 0 {
        0
    } else {
        let r = light_sum_bits(lights.drop_last(), pos, normal, ka, kd, ks, eye, c);
        let t = phong_terms_bits(lights.last(), pos, normal, ka, kd, ks, eye, c);
        fx_add_bits(fx_add_bits(fx_add_bits(r, t.0), t.1), t.2)
    }
}

/// Zero for a negative scalar, the scalar itself otherwise.
pub fn fx_max0(a: Fx) -> (r: Fx)
    ensures
        r.bits == max0_bits(a.bits as int),
{
    if a.bits < 0 {
        Fx::zero()
    } else {
        a
    }
}

/// Iterated fixed-point power.
pub fn fx_powi(b: Fx, n: u32) -> (r: Fx)
    ensures
        r.bits == fx_pow_bits(b.bits as int, n as nat),
{
    let mut acc = Fx::one();
    let mut i: u32 = 0;
    while i < n
        invariant
            i <= n,
            acc.bits == fx_pow_bits(b.bits as int, i as nat),
        decreases n - i,
    {
        acc = acc.mul(b);
        i = i + 1;
    }
    acc
}

/// The difference `a - b`, scaled to unit length.
fn sub_normed(a: &Vector, b: &Vector) -> (r: Vector)
    requires
        a.v@.len() == b.v@.len(),
    ensures
        r.v@ =~= norm_seq(sub_seq(a.v@, b.v@)),
{
    let mut t = a.sub(b);
    proof {
        assert(t.v@ =~= sub_seq(a.v@, b.v@));
    }
    t.normlize();
    proof {
        assert(t.v@ =~= norm_seq(sub_seq(a.v@, b.v@)));
    }
    t
}

/// The sum `a + b`, scaled to unit length.
fn add_normed(a: &Vector, b: &Vector) -> (r: Vector)
    requires
        a.v@.len() == b.v@.len(),
    ensures
        r.v@ =~= norm_seq(add_seq(a.v@, b.v@)),
{
    let mut t = a.add(b);
    proof {
        assert(t.v@ =~= add_seq(a.v@, b.v@));
    }
    t.normlize();
    proof {
        assert(t.v@ =~= norm_seq(add_seq(a.v@, b.v@)));
    }
    t
}

/// Phong shading of one fragment against a list of point lights.
pub fn compute_light(
    pos: &Vector,
    normal: &Vector,
    lights: &Vec<Light>,
    ka: &Vector,
    kd: &Vector,
    ks: &Vector,
    eye_pos: &Vector,
) -> (r: Vector)
    requires
        pos.v@.len() == 3,
        normal.v@.len() == 3,
        ka.v@.len() == 3,
        kd.v@.len() == 3,
        ks.v@.len() == 3,
        eye_pos.v@.len() == 3,
        forall|i: int| 0 <= i < lights@.len() ==> (#[trigger] lights@[i]).wf(),
    ensures
        r.v@.len() == 3,
        forall|c: int| 0 <= c < 3 ==> r.v@[c].bits
            == light_sum_bits(lights@, pos.v@, normal.v@, ka.v@, kd.v@, ks.v@, eye_pos.v@, c),
{
    let mut r = Vector::new(3);
    let view_dir = sub_normed(eye_pos, pos);
    let amb = Fx::from_bits(AMBIENT_BITS);
    let n = lights.len();
    let mut li: usize = 0;
    while li < n
        invariant
            li <= n,
            n == lights@.len(),
            pos.v@.len() == 3,
            normal.v@.len() == 3,
            ka.v@.len() == 3,
            kd.v@.len() == 3,
            ks.v@.len() == 3,
            eye_pos.v@.len() == 3,
            forall|i: int| 0 <= i < lights@.len() ==> (#[trigger] lights@[i]).wf(),
            view_dir.v@ =~= norm_seq(sub_seq(eye_pos.v@, pos.v@)),
            amb.bits == AMBIENT_BITS,
            r.v@.len() == 3,
            forall|c: int| 0 <= c < 3 ==> (#[trigger] r.v@[c]).bits
                == light_sum_bits(lights@.take(li as int), pos.v@, normal.v@, ka.v@, kd.v@, ks.v@, eye_pos.v@, c),
        decreases n - li,
    {
        let l = &lights[li];
        let lsub = l.position.sub(pos);
        proof {
            assert(lsub.v@ =~= sub_seq(l.position.v@, pos.v@));
        }
        let distance = lsub.length();
        let light_dir = sub_normed(&l.position, pos);
        let half = add_normed(&view_dir, &light_dir);
        let dist2 = distance.mul(distance);
        let dterm_dot = fx_max0(normal.dot_product(&light_dir));
        let sterm_dot = fx_max0(normal.dot_product(&half));
        let spow = fx_powi(sterm_dot, SHININESS);
        let ghost pre = r.v@;
        let mut c: usize = 0;
        while c < 3
            invariant
                c <= 3,
                li < n,
                n == lights@.len(),
                pos.v@.len() == 3,
                normal.v@.len() == 3,
                ka.v@.len() == 3,
                kd.v@.len() == 3,
                ks.v@.len() == 3,
                eye_pos.v@.len() == 3,
                forall|i: int| 0 <= i < lights@.len() ==> (#[trigger] lights@[i]).wf(),
                l == lights@[li as int],
                amb.bits == AMBIENT_BITS,
                distance.bits == length_bits(sub_seq(l.position.v@, pos.v@)),
                dist2.bits == fx_mul_bits(distance.bits as int, distance.bits as int),
                light_dir.v@ =~= norm_seq(sub_seq(l.position.v@, pos.v@)),
                view_dir.v@ =~= norm_seq(sub_seq(eye_pos.v@, pos.v@)),
                half.v@ =~= norm_seq(add_seq(norm_seq(sub_seq(eye_pos.v@, pos.v@)), norm_seq(sub_seq(l.position.v@, pos.v@)))),
                dterm_dot.bits == max0_bits(dot_bits(normal.v@, light_dir.v@)),
                spow.bits == fx_pow_bits(max0_bits(dot_bits(normal.v@, half.v@)), SHININESS as nat),
                r.v@.len() == 3,
                pre.len() == 3,
                forall|cc: int| 0 <= cc < 3 ==> (#[trigger] pre[cc]).bits
                    == light_sum_bits(lights@.take(li as int), pos.v@, normal.v@, ka.v@, kd.v@, ks.v@, eye_pos.v@, cc),
                forall|cc: int| c <= cc < 3 ==> r.v@[cc] == pre[cc],
                forall|cc: int| 0 <= cc < c ==> (#[trigger] r.v@[cc]).bits
                    == light_sum_bits(lights@.take(li as int + 1), pos.v@, normal.v@, ka.v@, kd.v@, ks.v@, eye_pos.v@, cc),
            decreases 3 - c,
        {
            let intensity = l.intensity.v[c].div(dist2);
            let diffuse = kd.v[c].mul(intensity).mul(dterm_dot);
            let specular = ks.v[c].mul(intensity).mul(spow);
            let ambient = amb.mul(ka.v[c]);
            let cur = r.v[c];
            r.v[c] = cur.add(diffuse).add(specular).add(ambient);
            proof {
                lemma_take_step(lights@, li as int);
                let t = phong_terms_bits(lights@[li as int], pos.v@, normal.v@, ka.v@, kd.v@, ks.v@, eye_pos.v@, c as int);
                assert(diffuse.bits == t.0);
                assert(specular.bits == t.1);
                assert(ambient.bits == t.2);
                assert(r.v@[c as int].bits == fx_add_bits(fx_add_bits(fx_add_bits(pre[c as int].bits as int, t.0), t.1), t.2));
                assert(lights@.take(li as int + 1).last() == lights@[li as int]);
                assert(light_sum_bits(lights@.take(li as int + 1), pos.v@, normal.v@, ka.v@, kd.v@, ks.v@, eye_pos.v@, c as int)
                    == fx_add_bits(fx_add_bits(fx_add_bits(
                        light_sum_bits(lights@.take(li as int), pos.v@, normal.v@, ka.v@, kd.v@, ks.v@, eye_pos.v@, c as int),
                        t.0), t.1), t.2));
            }
            c = c + 1;
        }
        li = li + 1;
    }
    proof {
        assert(lights@.take(n as int) =~= lights@);
    }
    r
}


/// Inverse-square falloff: on inputs where the fixed-point divisions
/// are exact, doubling the distance divides the attenuated intensity
/// by exactly four.
pub proof fn lemma_attenuation_inverse_square(ib: int, d: int)
    requires
        0 < d <= 1000000000,
        0 <= ib <= 140737488355327,
        (d * d) % 65536 == 0,
        (d * d) / 65536 > 0,
        (ib * 65536) % (4 * ((d * d) / 65536)) == 0,
    ensures
        4 * fx_div_bits(ib, fx_mul_bits(2 * d, 2 * d)) == fx_div_bits(ib, fx_mul_bits(d, d)),
{
    let s = 65536;
    let dd = d * d;
    let q = dd / s;
    assert(0 < dd <= 1000000000000000000) by (nonlinear_arith)
        requires
            dd == d * d,
            0 < d <= 1000000000,
    ;
    vstd::arithmetic::div_mod::lemma_fundamental_div_mod(dd, s);
    assert(dd == s * q);
    assert((2 * d) * (2 * d) == 4 * dd) by (nonlinear_arith)
        requires dd == d * d;
    assert(4 * dd == s * (4 * q)) by (nonlinear_arith)
        requires
            dd == s * q,
            s == 65536,
    ;
    assert(iabs(dd) == dd);
    assert(iabs(4 * dd) == 4 * dd);
    assert(dd / s == q);
    assert((4 * dd) / s == 4 * q) by {
        vstd::arithmetic::div_mod::lemma_div_multiples_vanish(4 * q, s);
        assert(s * (4 * q) == (4 * q) * s) by (nonlinear_arith)
            requires s == 65536;
    }
    assert(fx_mul_bits(d, d) == q);
    assert(fx_mul_bits(2 * d, 2 * d) == 4 * q);
    let num = ib * s;
    let m = num / (4 * q);
    vstd::arithmetic::div_mod::lemma_fundamental_div_mod(num, 4 * q);
    assert(num == (4 * q) * m);
    assert(num == q * (4 * m)) by (nonlinear_arith)
        requires num == (4 * q) * m, q == q;
    assert(m >= 0) by {
        vstd::arithmetic::div_mod::lemma_div_pos_is_pos(num, 4 * q);
    }
    assert(num / q == 4 * m) by {
        vstd::arithmetic::div_mod::lemma_div_multiples_vanish(4 * m, q);
        assert(q * (4 * m) == (4 * m) * q) by (nonlinear_arith);
    }
    assert(num / (4 * q) == m) by {
        vstd::arithmetic::div_mod::lemma_div_multiples_vanish(m, 4 * q);
        assert((4 * q) * m == m * (4 * q)) by (nonlinear_arith);
    }
    assert(iabs(num) == num);
    assert(fx_div_bits(ib, 4 * q) == sat64(m));
    assert(fx_div_bits(ib, q) == sat64(4 * m));
    assert(4 * m <= num) by (nonlinear_arith)
        requires num == q * (4 * m), q > 0, m >= 0;
    assert(sat64(m) == m);
    assert(sat64(4 * m) == 4 * m);
}

} // verus!
