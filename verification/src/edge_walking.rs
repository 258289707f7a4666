//! The edge-walking rasterization engine.
//!
//! The screen-space triangle is decomposed into at most two y-monotone
//! trapezoids.  For each scanline row the two trapezoid legs are
//! interpolated to a left and a right boundary vertex, a per-pixel
//! attribute step is derived, and the span is walked pixel by pixel
//! under the depth test.

use vstd::prelude::*;
use crate::fixed::{Fx, FX_ONE, FX_HALF, fxb, clamp_int};
use crate::fixed::{fx_add_bits, fx_sub_bits, fx_mul_bits, fx_div_bits, fx_round_bits, fx_trunc_bits, fx_floor_bits};
use crate::triangle::{Triangle, Vertex, RenderType, vertex_interp};
use crate::texture::{Texture, tex_coord};
use crate::light::{Light, light_sum_bits, compute_light, KA_BITS, KS_BITS};
use crate::vector::Vector;
use crate::utils::clamp;
use crate::rasterizer::Rasterizer;
use crate::edge_equation::{sx, sy, pix_of, lit_byte, lemma_pixel_index_injective};

verus! {

/// A y-monotone slab of the triangle.  The legs reference the parent
/// vertices by index into the triangle; `l` and `r` hold the boundary
/// vertices interpolated for the current scanline.
#[derive(Debug)]
pub struct Trapezoid {
    pub t: Fx,
    pub b: Fx,
    pub l1: usize,
    pub l2: usize,
    pub r1: usize,
    pub r2: usize,
    pub l: Vertex,
    pub r: Vertex,
}

/// The per-pixel attribute step and pixel span of one scanline.
#[derive(Debug)]
pub struct Scanline {
    pub step: Vertex,
    pub x: i64,
    pub y: usize,
    pub w: i64,
}

impl Trapezoid {
    pub open spec fn wf(self) -> bool {
        &&& self.l1 < 3
        &&& self.l2 < 3
        &&& self.r1 < 3
        &&& self.r2 < 3
        &&& self.l.wf()
        &&& self.r.wf()
    }
}

/// Attribute `fi` of vertex `k` of the triangle.
pub open spec fn vat(t: Triangle, k: int, fi: int) -> int {
    t.vertexs@[k].field(fi)
}

/// The vertex indices sorted by ascending screen y, ties broken as the
/// comparison chain visits them.
pub open spec fn sort3(t: Triangle) -> (int, int, int) {
    if sy(t, 0) > sy(t, 1) {
        if sy(t, 0) < sy(t, 2) {
            (1, 0, 2)
        } else if sy(t, 1) > sy(t, 2) {
            (2, 1, 0)
        } else {
            (1, 2, 0)
        }
    } else {
        if sy(t, 1) < sy(t, 2) {
            (0, 1, 2)
        } else if sy(t, 0) > sy(t, 2) {
            (2, 0, 1)
        } else {
            (0, 2, 1)
        }
    }
}

/// The trapezoids of the triangle, each given as
/// `(top bits, bottom bits, l1, l2, r1, r2)`.
pub open spec fn traps_spec(t: Triangle) -> Seq<(int, int, int, int, int, int)> {
    let s = sort3(t);
    let mi = s.0;
    let md = s.1;
    let mx = s.2;
    if sy(t, mi) == sy(t, md) && sy(t, mi) == sy(t, mx) {
        Seq::empty()
    } else if sx(t, mi) == sx(t, md) && sx(t, mi) == sx(t, mx) {
        Seq::empty()
    } else if sy(t, mi) == sy(t, md) {
        if sx(t, mi) < sx(t, md) {
            seq![(sy(t, mi), sy(t, mx), mi, mx, md, mx)]
        } else {
            seq![(sy(t, mi), sy(t, mx), md, mx, mi, mx)]
        }
    } else if sy(t, mx) == sy(t, md) {
        if sx(t, mx) < sx(t, md) {
            seq![(sy(t, mi), sy(t, mx), mi, mx, mi, md)]
        } else {
            seq![(sy(t, mi), sy(t, mx), mi, md, mi, mx)]
        }
    } else {
        let f = fx_div_bits(fx_sub_bits(sy(t, md), sy(t, mx)), fx_sub_bits(sy(t, mi), sy(t, mx)));
        let xx = fx_add_bits(sx(t, mx), fx_mul_bits(f, fx_sub_bits(sx(t, mi), sx(t, mx))));
        if sx(t, md) < xx {
            seq![(sy(t, mi), sy(t, md), mi, md, mi, mx), (sy(t, md), sy(t, mx), md, mx, mi, mx)]
        } else {
            seq![(sy(t, mi), sy(t, md), mi, mx, mi, md), (sy(t, md), sy(t, mx), mi, mx, md, mx)]
        }
    }
}

/// Decompose the triangle into zero, one or two y-monotone trapezoids.
pub fn trapezoid_init(triangle: &Triangle) -> (r: Vec<Trapezoid>)
    requires
        triangle.wf(),
    ensures
        r@.len() == traps_spec(*triangle).len(),
        forall|k: int| 0 <= k < r@.len() ==> (#[trigger] r@[k]).wf(),
        forall|k: int| 0 <= k < r@.len() ==> ((#[trigger] r@[k]).t.bits as int, r@[k].b.bits as int,
            r@[k].l1 as int, r@[k].l2 as int, r@[k].r1 as int, r@[k].r2 as int) == traps_spec(*triangle)[k],
{
    let y0 = triangle.vertexs[0].v.y();
    let y1 = triangle.vertexs[1].v.y();
    let y2 = triangle.vertexs[2].v.y();
    let (mi, md, mx): (usize, usize, usize) = if y0.bits > y1.bits {
        if y0.bits < y2.bits {
            (1, 0, 2)
        } else if y1.bits > y2.bits {
            (2, 1, 0)
        } else {
            (1, 2, 0)
        }
    } else {
        if y1.bits < y2.bits {
            (0, 1, 2)
        } else if y0.bits > y2.bits {
            (2, 0, 1)
        } else {
            (0, 2, 1)
        }
    };
    proof {
        assert((mi as int, md as int, mx as int) == sort3(*triangle));
    }
    let mut traps: Vec<Trapezoid> = Vec::new();
    let miy = triangle.vertexs[mi].v.y();
    let mdy = triangle.vertexs[md].v.y();
    let mxy = triangle.vertexs[mx].v.y();
    let mix = triangle.vertexs[mi].v.x();
    let mdx = triangle.vertexs[md].v.x();
    let mxx = triangle.vertexs[mx].v.x();
    if miy.bits == mdy.bits && miy.bits == mxy.bits {
        return traps;
    }
    if mix.bits == mdx.bits && mix.bits == mxx.bits {
        return traps;
    }
    if miy.bits == mdy.bits {
        let (la, lb, ra, rb): (usize, usize, usize, usize) = if mix.bits < mdx.bits {
            (mi, mx, md, mx)
        } else {
            (md, mx, mi, mx)
        };
        traps.push(Trapezoid {
            t: miy,
            b: mxy,
            l1: la,
            l2: lb,
            r1: ra,
            r2: rb,
            l: Vertex::default(),
            r: Vertex::default(),
        });
        return traps;
    }
    if mxy.bits == mdy.bits {
        let (la, lb, ra, rb): (usize, usize, usize, usize) = if mxx.bits < mdx.bits {
            (mi, mx, mi, md)
        } else {
            (mi, md, mi, mx)
        };
        traps.push(Trapezoid {
            t: miy,
            b: mxy,
            l1: la,
            l2: lb,
            r1: ra,
            r2: rb,
            l: Vertex::default(),
            r: Vertex::default(),
        });
        return traps;
    }
    let f = mdy.sub(mxy).div(miy.sub(mxy));
    let xx = mxx.add(f.mul(mix.sub(mxx)));
    if mdx.bits < xx.bits {
        traps.push(Trapezoid {
            t: miy,
            b: mdy,
            l1: mi,
            l2: md,
            r1: mi,
            r2: mx,
            l: Vertex::default(),
            r: Vertex::default(),
        });
        traps.push(Trapezoid {
            t: mdy,
            b: mxy,
            l1: md,
            l2: mx,
            r1: mi,
            r2: mx,
            l: Vertex::default(),
            r: Vertex::default(),
        });
    } else {
        traps.push(Trapezoid {
            t: miy,
            b: mdy,
            l1: mi,
            l2: mx,
            r1: mi,
            r2: md,
            l: Vertex::default(),
            r: Vertex::default(),
        });
        traps.push(Trapezoid {
            t: mdy,
            b: mxy,
            l1: mi,
            l2: mx,
            r1: md,
            r2: mx,
            l: Vertex::default(),
            r: Vertex::default(),
        });
    }
    traps
}

/// The clamped interpolation coefficient of the leg `a -> b` at height
/// `y` (in bits).
pub open spec fn leg_coef(t: Triangle, a: int, b: int, y: int) -> int {
    clamp_int(fx_div_bits(fx_sub_bits(y, vat(t, a, 1)), fx_sub_bits(vat(t, b, 1), vat(t, a, 1))), 0, FX_ONE as int)
}

/// Interpolate the two boundary vertices of the trapezoid at height `y`.
pub fn trapezoid_interpation(trap: &mut Trapezoid, tri: &Triangle, y: Fx)
    requires
        tri.wf(),
        old(trap).wf(),
    ensures
        final(trap).wf(),
        final(trap).t == old(trap).t,
        final(trap).b == old(trap).b,
        final(trap).l1 == old(trap).l1,
        final(trap).l2 == old(trap).l2,
        final(trap).r1 == old(trap).r1,
        final(trap).r2 == old(trap).r2,
        forall|fi: int| 0 <= fi < 21 ==> (#[trigger] final(trap).l.field(fi)) == crate::vector::interp_bits(
            vat(*tri, old(trap).l1 as int, fi),
            vat(*tri, old(trap).l2 as int, fi),
            leg_coef(*tri, old(trap).l1 as int, old(trap).l2 as int, y.bits as int),
        ),
        forall|fi: int| 0 <= fi < 21 ==> (#[trigger] final(trap).r.field(fi)) == crate::vector::interp_bits(
            vat(*tri, old(trap).r1 as int, fi),
            vat(*tri, old(trap).r2 as int, fi),
            leg_coef(*tri, old(trap).r1 as int, old(trap).r2 as int, y.bits as int),
        ),
{
    let l1 = &tri.vertexs[trap.l1];
    let l2 = &tri.vertexs[trap.l2];
    let r1 = &tri.vertexs[trap.r1];
    let r2 = &tri.vertexs[trap.r2];
    let zero = Fx::zero();
    let one = Fx::one();
    let s1 = l2.v.y().sub(l1.v.y());
    let s2 = r2.v.y().sub(r1.v.y());
    let y1 = clamp(y.sub(l1.v.y()).div(s1), zero, one);
    let y2 = clamp(y.sub(r1.v.y()).div(s2), zero, one);
    trap.l = vertex_interp(l1, l2, y1);
    trap.r = vertex_interp(r1, r2, y2);
    proof {
        assert forall|fi: int| 0 <= fi < 21 implies (#[trigger] trap.l.field(fi)) == crate::vector::interp_bits(
            vat(*tri, trap.l1 as int, fi),
            vat(*tri, trap.l2 as int, fi),
            leg_coef(*tri, trap.l1 as int, trap.l2 as int, y.bits as int),
        ) by {}
        assert forall|fi: int| 0 <= fi < 21 implies (#[trigger] trap.r.field(fi)) == crate::vector::interp_bits(
            vat(*tri, trap.r1 as int, fi),
            vat(*tri, trap.r2 as int, fi),
            leg_coef(*tri, trap.r1 as int, trap.r2 as int, y.bits as int),
        ) by {}
    }
}

/// The reciprocal of the span width between the boundary vertices.
pub open spec fn span_recip(l: Vertex, r: Vertex) -> int {
    fx_div_bits(FX_ONE as int, fx_sub_bits(r.field(0), l.field(0)))
}

/// The per-pixel step of attribute `fi` across the span.
pub open spec fn span_step(l: Vertex, r: Vertex, fi: int) -> int {
    fx_mul_bits(fx_sub_bits(r.field(fi), l.field(fi)), span_recip(l, r))
}

/// Derive the per-pixel attribute step of the current span.
#[verifier::rlimit(100)]
pub fn trapezoid_get_step(trap: &Trapezoid) -> (r: Vertex)
    requires
        trap.l.wf(),
        trap.r.wf(),
    ensures
        r.wf(),
        forall|fi: int| 0 <= fi < 21 ==> (#[trigger] r.field(fi)) == span_step(trap.l, trap.r, fi),
{
    let rv = &trap.r;
    let lv = &trap.l;
    let w = Fx::one().div(rv.v.x().sub(lv.v.x()));
    let r = Vertex {
        origin_v: Vector::new_4(
            rv.origin_v.x().sub(lv.origin_v.x()).mul(w),
            rv.origin_v.y().sub(lv.origin_v.y()).mul(w),
            rv.origin_v.z().sub(lv.origin_v.z()).mul(w),
            rv.origin_v.w().sub(lv.origin_v.w()).mul(w),
        ),
        tv: Vector::new_4(
            rv.tv.x().sub(lv.tv.x()).mul(w),
            rv.tv.y().sub(lv.tv.y()).mul(w),
            rv.tv.z().sub(lv.tv.z()).mul(w),
            rv.tv.w().sub(lv.tv.w()).mul(w),
        ),
        v: Vector::new_4(
            rv.v.x().sub(lv.v.x()).mul(w),
            rv.v.y().sub(lv.v.y()).mul(w),
            rv.v.z().sub(lv.v.z()).mul(w),
            rv.v.w().sub(lv.v.w()).mul(w),
        ),
        color: Vector::new_3(
            rv.color.r().sub(lv.color.r()).mul(w),
            rv.color.g().sub(lv.color.g()).mul(w),
            rv.color.b().sub(lv.color.b()).mul(w),
        ),
        tex_coords: Vector::new_2(
            rv.tex_coords.u().sub(lv.tex_coords.u()).mul(w),
            rv.tex_coords.v().sub(lv.tex_coords.v()).mul(w),
        ),
        normal: Vector::new_3(
            rv.normal.x().sub(lv.normal.x()).mul(w),
            rv.normal.y().sub(lv.normal.y()).mul(w),
            rv.normal.z().sub(lv.normal.z()).mul(w),
        ),
        rhw: rv.rhw.sub(lv.rhw).mul(w),
    };
    proof {
        assert forall|fi: int| 0 <= fi < 21 implies (#[trigger] r.field(fi)) == span_step(trap.l, trap.r, fi) by {
            if fi == 0 {
                assert(r.field(0) == span_step(trap.l, trap.r, 0));
            } else if fi == 1 {
                assert(r.field(1) == span_step(trap.l, trap.r, 1));
            } else if fi == 2 {
                assert(r.field(2) == span_step(trap.l, trap.r, 2));
            } else if fi == 3 {
                assert(r.field(3) == span_step(trap.l, trap.r, 3));
            } else if fi == 4 {
                assert(r.field(4) == span_step(trap.l, trap.r, 4));
            } else if fi == 5 {
                assert(r.field(5) == span_step(trap.l, trap.r, 5));
            } else if fi == 6 {
                assert(r.field(6) == span_step(trap.l, trap.r, 6));
            } else if fi == 7 {
                assert(r.field(7) == span_step(trap.l, trap.r, 7));
            } else if fi == 8 {
                assert(r.field(8) == span_step(trap.l, trap.r, 8));
            } else if fi == 9 {
                assert(r.field(9) == span_step(trap.l, trap.r, 9));
            } else if fi == 10 {
                assert(r.field(10) == span_step(trap.l, trap.r, 10));
            } else if fi == 11 {
                assert(r.field(11) == span_step(trap.l, trap.r, 11));
            } else if fi == 12 {
                assert(r.field(12) == span_step(trap.l, trap.r, 12));
            } else if fi == 13 {
                assert(r.field(13) == span_step(trap.l, trap.r, 13));
            } else if fi == 14 {
                assert(r.field(14) == span_step(trap.l, trap.r, 14));
            } else if fi == 15 {
                assert(r.field(15) == span_step(trap.l, trap.r, 15));
            } else if fi == 16 {
                assert(r.field(16) == span_step(trap.l, trap.r, 16));
            } else if fi == 17 {
                assert(r.field(17) == span_step(trap.l, trap.r, 17));
            } else if fi == 18 {
                assert(r.field(18) == span_step(trap.l, trap.r, 18));
            } else if fi == 19 {
                assert(r.field(19) == span_step(trap.l, trap.r, 19));
            } else if fi == 20 {
                assert(r.field(20) == span_step(trap.l, trap.r, 20));
            }
        }
    }
    r
}

/// Attribute `fi` of the left boundary vertex of the leg `l1 -> l2`
/// interpolated at the middle of scanline `row`.
#[verifier::opaque]
pub open spec fn row_l(t: Triangle, l1: int, l2: int, row: int, fi: int) -> int {
    crate::vector::interp_bits(
        vat(t, l1, fi),
        vat(t, l2, fi),
        leg_coef(t, l1, l2, row * (FX_ONE as int) + FX_HALF as int),
    )
}

/// The per-pixel step of attribute `fi` on scanline `row`.
#[verifier::opaque]
pub open spec fn row_step(t: Triangle, l1: int, l2: int, r1: int, r2: int, row: int, fi: int) -> int {
    fx_mul_bits(
        fx_sub_bits(row_l(t, r1, r2, row, fi), row_l(t, l1, l2, row, fi)),
        fx_div_bits(FX_ONE as int, fx_sub_bits(row_l(t, r1, r2, row, 0), row_l(t, l1, l2, row, 0))),
    )
}

/// The first pixel column of scanline `row`.
#[verifier::opaque]
pub open spec fn row_x0(t: Triangle, l1: int, l2: int, row: int) -> int {
    fx_round_bits(row_l(t, l1, l2, row, 0))
}

/// The pixel width of scanline `row`.
#[verifier::opaque]
pub open spec fn row_w(t: Triangle, l1: int, l2: int, r1: int, r2: int, row: int) -> int {
    fx_round_bits(row_l(t, r1, r2, row, 0)) - row_x0(t, l1, l2, row)
}

/// The value of an attribute after `k` accumulation steps.
pub open spec fn iter_add_bits(start: int, step: int, k: int) -> int
    decreases k,
{
    if k <= 0 {
        start
    } else {
        fx_add_bits(iter_add_bits(start, step, k - 1), step)
    }
}

/// Attribute `fi` at pixel `k` of scanline `row`.
#[verifier::opaque]
pub open spec fn row_at(t: Triangle, l1: int, l2: int, r1: int, r2: int, row: int, fi: int, k: int) -> int {
    iter_add_bits(row_l(t, l1, l2, row, fi), row_step(t, l1, l2, r1, r2, row, fi), k)
}

/// At step zero an attribute is its left boundary value.
pub proof fn lemma_row_at_zero(t: Triangle, l1: int, l2: int, r1: int, r2: int, row: int, fi: int)
    ensures
        row_at(t, l1, l2, r1, r2, row, fi, 0) == row_l(t, l1, l2, row, fi),
{
    reveal(row_at);
}

/// One accumulation step adds the per-pixel step once.
pub proof fn lemma_row_at_step(t: Triangle, l1: int, l2: int, r1: int, r2: int, row: int, fi: int, k: int)
    requires
        k >= 0,
    ensures
        row_at(t, l1, l2, r1, r2, row, fi, k + 1)
            == fx_add_bits(row_at(t, l1, l2, r1, r2, row, fi, k), row_step(t, l1, l2, r1, r2, row, fi)),
{
    reveal(row_at);
}

/// A color scalar scaled by 255, truncated and clamped to a byte.
#[verifier::opaque]
pub open spec fn chan255_bits(v: int) -> int {
    clamp_int(fx_trunc_bits(fx_mul_bits(255 * (FX_ONE as int), v)), 0, 255)
}

/// The `(r, g, b)` bytes of a textured fragment: a nearest sample at
/// `(u, 1 - v)`, Phong-lit when the scene has lights.
#[verifier::opaque]
pub open spec fn walk_rgb_bits(
    lights: Seq<Light>,
    eye: Seq<Fx>,
    tex: Texture,
    u: int,
    v: int,
    t0: int,
    t1: int,
    t2: int,
    n0: int,
    n1: int,
    n2: int,
) -> (int, int, int) {
    let flip = fx_sub_bits(FX_ONE as int, v);
    let x = tex_coord(u, tex.width as int);
    let y = tex_coord(flip, tex.height as int);
    let idx = 4 * (y * (tex.width as int) + x);
    let s = (tex.pixels@[idx] as int, tex.pixels@[idx + 1] as int, tex.pixels@[idx + 2] as int);
    if lights.len() > 0 {
        let pos = seq![fxb(t0), fxb(t1), fxb(t2)];
        let n = seq![fxb(n0), fxb(n1), fxb(n2)];
        let ka = seq![fxb(KA_BITS as int), fxb(KA_BITS as int), fxb(KA_BITS as int)];
        let kd = seq![
            fxb(crate::edge_equation::unit_byte(s.0)),
            fxb(crate::edge_equation::unit_byte(s.1)),
            fxb(crate::edge_equation::unit_byte(s.2)),
        ];
        let ks = seq![fxb(KS_BITS as int), fxb(KS_BITS as int), fxb(KS_BITS as int)];
        (
            lit_byte(light_sum_bits(lights, pos, n, ka, kd, ks, eye, 0)),
            lit_byte(light_sum_bits(lights, pos, n, ka, kd, ks, eye, 1)),
            lit_byte(light_sum_bits(lights, pos, n, ka, kd, ks, eye, 2)),
        )
    } else {
        s
    }
}

/// What one scanline of the edge-walking engine does to a pixel of its
/// row: the new `(b, g, r, a, z)` state as a function of the old one.
#[verifier::opaque]
pub open spec fn walk_pixel_upd(
    t: Triangle,
    l1: int,
    l2: int,
    r1: int,
    r2: int,
    render: RenderType,
    lights: Seq<Light>,
    eye: Seq<Fx>,
    textures: Seq<Texture>,
    col: int,
    row: int,
    p: (int, int, int, int, int),
) -> (int, int, int, int, int) {
    let k = col - row_x0(t, l1, l2, row);
    if !(0 <= k < row_w(t, l1, l2, r1, r2, row)) {
        p
    } else {
        let z = row_at(t, l1, l2, r1, r2, row, 2, k);
        if z < p.4 {
            p
        } else if render == RenderType::COLOR {
            (
                chan255_bits(row_at(t, l1, l2, r1, r2, row, 6, k)),
                chan255_bits(row_at(t, l1, l2, r1, r2, row, 5, k)),
                chan255_bits(row_at(t, l1, l2, r1, r2, row, 4, k)),
                255,
                z,
            )
        } else {
            let rgb = walk_rgb_bits(
                lights,
                eye,
                textures[0],
                row_at(t, l1, l2, r1, r2, row, 7, k),
                row_at(t, l1, l2, r1, r2, row, 8, k),
                row_at(t, l1, l2, r1, r2, row, 9, k),
                row_at(t, l1, l2, r1, r2, row, 10, k),
                row_at(t, l1, l2, r1, r2, row, 11, k),
                row_at(t, l1, l2, r1, r2, row, 13, k),
                row_at(t, l1, l2, r1, r2, row, 14, k),
                row_at(t, l1, l2, r1, r2, row, 15, k),
            );
            (rgb.2, rgb.1, rgb.0, 255, z)
        }
    }
}

/// A color scalar scaled by 255, truncated and clamped to a byte.
fn chan255(v: Fx) -> (r: u8)
    ensures
        r as int == chan255_bits(v.bits as int),
{
    proof {
        reveal(chan255_bits);
    }
    let tr = Fx::from_int(255).mul(v).trunc_i64();
    if tr < 0 {
        0
    } else if tr > 255 {
        255
    } else {
        tr as u8
    }
}

/// The texture sample of one walked fragment, lit when lights exist.
fn walk_tex_pixel(
    rasterizer: &Rasterizer,
    textures: &Vec<Texture>,
    u: Fx,
    vv: Fx,
    t0: Fx,
    t1: Fx,
    t2: Fx,
    n0: Fx,
    n1: Fx,
    n2: Fx,
) -> (r: (u8, u8, u8))
    requires
        rasterizer.wf(),
        textures@.len() >= 1,
        textures@[0].wf(),
    ensures
        (r.0 as int, r.1 as int, r.2 as int) == walk_rgb_bits(
            rasterizer.lights@,
            rasterizer.eye_pos.v@,
            textures@[0],
            u.bits as int,
            vv.bits as int,
            t0.bits as int,
            t1.bits as int,
            t2.bits as int,
            n0.bits as int,
            n1.bits as int,
            n2.bits as int,
        ),
{
    proof {
        reveal(walk_rgb_bits);
    }
    let sample = textures[0].get_color(u, Fx::one().sub(vv));
    let mut rr = sample.0;
    let mut gg = sample.1;
    let mut bb = sample.2;
    let ghost raw = (rr as int, gg as int, bb as int);
    if rasterizer.get_lights().len() > 0 {
        let kq = Fx::from_bits(KA_BITS);
        let sq = Fx::from_bits(KS_BITS);
        let pos = Vector::new_3(t0, t1, t2);
        let nrm = Vector::new_3(n0, n1, n2);
        let ka = Vector::new_3(kq, kq, kq);
        let kd = Vector::new_3(
            Fx::from_int(rr as i64).div(Fx::from_int(255)),
            Fx::from_int(gg as i64).div(Fx::from_int(255)),
            Fx::from_int(bb as i64).div(Fx::from_int(255)),
        );
        let ks = Vector::new_3(sq, sq, sq);
        let result = compute_light(&pos, &nrm, rasterizer.get_lights(), &ka, &kd, &ks, rasterizer.get_eye_pos());
        proof {
            assert(pos.v@ =~= seq![fxb(t0.bits as int), fxb(t1.bits as int), fxb(t2.bits as int)]);
            assert(nrm.v@ =~= seq![fxb(n0.bits as int), fxb(n1.bits as int), fxb(n2.bits as int)]);
            assert(ka.v@ =~= seq![fxb(KA_BITS as int), fxb(KA_BITS as int), fxb(KA_BITS as int)]);
            assert(kd.v@ =~= seq![
                fxb(crate::edge_equation::unit_byte(raw.0)),
                fxb(crate::edge_equation::unit_byte(raw.1)),
                fxb(crate::edge_equation::unit_byte(raw.2)),
            ]);
            assert(ks.v@ =~= seq![fxb(KS_BITS as int), fxb(KS_BITS as int), fxb(KS_BITS as int)]);
        }
        rr = crate::edge_equation::to_chan(result.r());
        gg = crate::edge_equation::to_chan(result.g());
        bb = crate::edge_equation::to_chan(result.b());
    }
    (rr, gg, bb)
}

/// Set up one scanline: rounded start pixel, width and attribute step.
pub fn trapezoid_init_scanline(trap: &Trapezoid, y: usize) -> (r: Scanline)
    requires
        trap.l.wf(),
        trap.r.wf(),
    ensures
        r.step.wf(),
        forall|fi: int| 0 <= fi < 21 ==> (#[trigger] r.step.field(fi)) == span_step(trap.l, trap.r, fi),
        r.x as int == fx_round_bits(trap.l.field(0)),
        r.w as int == fx_round_bits(trap.r.field(0)) - fx_round_bits(trap.l.field(0)),
        r.y == y,
{
    let x = trap.l.v.x().round_i64();
    let w = trap.r.v.x().round_i64() - x;
    Scanline { step: trapezoid_get_step(trap), x, y, w }
}


/// What one trapezoid does to a pixel: its row's scanline update on the
/// rows the trapezoid spans, the identity elsewhere.
#[verifier::opaque]
pub open spec fn trap_pixel_upd(
    t: Triangle,
    tt: int,
    bb: int,
    l1: int,
    l2: int,
    r1: int,
    r2: int,
    render: RenderType,
    lights: Seq<Light>,
    eye: Seq<Fx>,
    textures: Seq<Texture>,
    h: int,
    col: int,
    row: int,
    p: (int, int, int, int, int),
) -> (int, int, int, int, int) {
    if fx_floor_bits(tt) <= row <= fx_floor_bits(bb) && 0 <= row < h {
        walk_pixel_upd(t, l1, l2, r1, r2, render, lights, eye, textures, col, row, p)
    } else {
        p
    }
}

/// What the edge-walking engine does to one pixel: the updates of the
/// triangle's trapezoids, applied top slab first.
pub open spec fn ew_pixel_upd(
    t: Triangle,
    lights: Seq<Light>,
    eye: Seq<Fx>,
    textures: Seq<Texture>,
    h: int,
    col: int,
    row: int,
    p: (int, int, int, int, int),
) -> (int, int, int, int, int) {
    let ts = traps_spec(t);
    if ts.len() == 0 {
        p
    } else if ts.len() == 1 {
        trap_pixel_upd(t, ts[0].0, ts[0].1, ts[0].2, ts[0].3, ts[0].4, ts[0].5, t.render, lights, eye, textures, h, col, row, p)
    } else {
        trap_pixel_upd(
            t, ts[1].0, ts[1].1, ts[1].2, ts[1].3, ts[1].4, ts[1].5, t.render, lights, eye, textures, h, col, row,
            trap_pixel_upd(t, ts[0].0, ts[0].1, ts[0].2, ts[0].3, ts[0].4, ts[0].5, t.render, lights, eye, textures, h, col, row, p),
        )
    }
}

/// Walk one scanline, accumulating the attributes pixel by pixel and
/// writing every span pixel that passes the depth test.
#[verifier::rlimit(100)]
pub fn trapezoid_draw_scanline(
    image: &mut Vec<u8>,
    rasterizer: &Rasterizer,
    render: &RenderType,
    width: usize,
    zbuf: &mut Vec<Fx>,
    trap: &Trapezoid,
    scanline: &Scanline,
    textures: &Vec<Texture>,
    tri: &Triangle,
)
    requires
        rasterizer.wf(),
        tri.wf(),
        trap.wf(),
        scanline.step.wf(),
        1 <= width <= 16384,
        old(image)@.len() == old(zbuf)@.len() * 4,
        (scanline.y as int + 1) * width <= old(zbuf)@.len(),
        forall|fi: int| 0 <= fi < 21 ==> (#[trigger] trap.l.field(fi))
            == row_l(*tri, trap.l1 as int, trap.l2 as int, scanline.y as int, fi),
        forall|fi: int| 0 <= fi < 21 ==> (#[trigger] scanline.step.field(fi))
            == row_step(*tri, trap.l1 as int, trap.l2 as int, trap.r1 as int, trap.r2 as int, scanline.y as int, fi),
        scanline.x as int == row_x0(*tri, trap.l1 as int, trap.l2 as int, scanline.y as int),
        scanline.w as int == row_w(*tri, trap.l1 as int, trap.l2 as int, trap.r1 as int, trap.r2 as int, scanline.y as int),
        -281474976710656 <= scanline.x <= 281474976710656,
        scanline.w <= 562949953421312,
        *render == RenderType::TEXTURE ==> textures@.len() >= 1 && textures@[0].wf(),
    ensures
        final(image)@.len() == old(image)@.len(),
        final(zbuf)@.len() == old(zbuf)@.len(),
        forall|col: int| 0 <= col < width ==> pix_of(final(image)@, final(zbuf)@, width as int, col, scanline.y as int)
            == walk_pixel_upd(
                *tri, trap.l1 as int, trap.l2 as int, trap.r1 as int, trap.r2 as int, *render,
                rasterizer.lights@, rasterizer.eye_pos.v@, textures@,
                col, scanline.y as int,
                pix_of(old(image)@, old(zbuf)@, width as int, col, scanline.y as int),
            ),
        forall|k: int| 0 <= k < old(zbuf)@.len()
            && !((scanline.y as int) * width <= k < (scanline.y as int + 1) * width)
            ==> final(zbuf)@[k] == old(zbuf)@[k],
        forall|k: int| 0 <= k < old(image)@.len()
            && !(4 * ((scanline.y as int) * width) <= k < 4 * ((scanline.y as int + 1) * width))
            ==> final(image)@[k] == old(image)@[k],
{
    let ghost img0 = image@;
    let ghost zb0 = zbuf@;
    let ghost l1 = trap.l1 as int;
    let ghost l2 = trap.l2 as int;
    let ghost r1 = trap.r1 as int;
    let ghost r2 = trap.r2 as int;
    let ghost rowg = scanline.y as int;
    let row = scanline.y;
    let zlen = zbuf.len();
    let ilen = image.len();
    proof {
        assert((rowg + 1) * (width as int) == rowg * (width as int) + width as int) by (nonlinear_arith);
    }
    match render {
        RenderType::COLOR => {
            let mut cr = trap.l.color.r();
            let mut cg = trap.l.color.g();
            let mut cb = trap.l.color.b();
            let mut zz = trap.l.v.z();
            proof {
                assert(trap.l.field(2) == row_l(*tri, l1, l2, rowg, 2));
                assert(trap.l.field(4) == row_l(*tri, l1, l2, rowg, 4));
                assert(trap.l.field(5) == row_l(*tri, l1, l2, rowg, 5));
                assert(trap.l.field(6) == row_l(*tri, l1, l2, rowg, 6));
                lemma_row_at_zero(*tri, l1, l2, r1, r2, rowg, 2);
                lemma_row_at_zero(*tri, l1, l2, r1, r2, rowg, 4);
                lemma_row_at_zero(*tri, l1, l2, r1, r2, rowg, 5);
                lemma_row_at_zero(*tri, l1, l2, r1, r2, rowg, 6);
            }
            let mut k: i64 = 0;
            while k < scanline.w
                invariant
                    tri.wf(),
                    trap.wf(),
                    row == scanline.y,
                    1 <= width <= 16384,
                    *render == RenderType::COLOR,
                    0 <= k,
                    k <= scanline.w || k == 0,
                    -281474976710656 <= scanline.x <= 281474976710656,
                    scanline.w <= 562949953421312,
                    scanline.x as int == row_x0(*tri, l1, l2, rowg),
                    scanline.w as int == row_w(*tri, l1, l2, r1, r2, rowg),
                    rowg == scanline.y as int,
                    l1 == trap.l1 as int,
                    l2 == trap.l2 as int,
                    r1 == trap.r1 as int,
                    r2 == trap.r2 as int,
                    scanline.step.wf(),
                    image@.len() == img0.len(),
                    zbuf@.len() == zb0.len(),
                    zb0.len() == zlen,
                    img0.len() == ilen,
                    img0.len() == zb0.len() * 4,
                    rowg * width + width <= zb0.len(),
                    cr.bits as int == row_at(*tri, l1, l2, r1, r2, rowg, 4, k as int),
                    cg.bits as int == row_at(*tri, l1, l2, r1, r2, rowg, 5, k as int),
                    cb.bits as int == row_at(*tri, l1, l2, r1, r2, rowg, 6, k as int),
                    zz.bits as int == row_at(*tri, l1, l2, r1, r2, rowg, 2, k as int),
                    forall|fi: int| 0 <= fi < 21 ==> (#[trigger] scanline.step.field(fi))
                        == row_step(*tri, l1, l2, r1, r2, rowg, fi),
                    forall|col: int| 0 <= col < width && scanline.x <= col < scanline.x + k
                        ==> pix_of(image@, zbuf@, width as int, col, rowg) == walk_pixel_upd(
                            *tri, l1, l2, r1, r2, *render,
                            rasterizer.lights@, rasterizer.eye_pos.v@, textures@,
                            col, rowg, pix_of(img0, zb0, width as int, col, rowg),
                        ),
                    forall|col: int| 0 <= col < width && !(scanline.x <= col < scanline.x + k)
                        ==> pix_of(image@, zbuf@, width as int, col, rowg) == pix_of(img0, zb0, width as int, col, rowg),
                    forall|kk: int| 0 <= kk < zb0.len() && !(rowg * width <= kk < rowg * width + width)
                        ==> zbuf@[kk] == zb0[kk],
                    forall|kk: int| 0 <= kk < img0.len() && !(4 * (rowg * width) <= kk < 4 * (rowg * width + width))
                        ==> image@[kk] == img0[kk],
                decreases scanline.w - k,
            {
                let col = scanline.x + k;
                let ghost imgp = image@;
                let ghost zbp = zbuf@;
                if col >= 0 && col < width as i64 {
                    let colu = col as usize;
                    let idx = row * width + colu;
                    if zz.bits >= zbuf[idx].bits {
                        zbuf[idx] = zz;
                        let vb = chan255(cb);
                        let vg = chan255(cg);
                        let vr = chan255(cr);
                        image[4 * idx] = vb;
                        image[4 * idx + 1] = vg;
                        image[4 * idx + 2] = vr;
                        image[4 * idx + 3] = 255;
                    }
                    proof {
                        reveal(walk_pixel_upd);
                        assert(pix_of(imgp, zbp, width as int, col as int, rowg)
                            == pix_of(img0, zb0, width as int, col as int, rowg));
                        assert(pix_of(image@, zbuf@, width as int, col as int, rowg) == walk_pixel_upd(
                            *tri, l1, l2, r1, r2, *render,
                            rasterizer.lights@, rasterizer.eye_pos.v@, textures@,
                            col as int, rowg, pix_of(img0, zb0, width as int, col as int, rowg),
                        ));
                        assert forall|c2: int| 0 <= c2 < width && c2 != col as int
                            implies pix_of(image@, zbuf@, width as int, c2, rowg) == pix_of(imgp, zbp, width as int, c2, rowg) by {
                            assert(rowg * width + c2 != rowg * width + col as int);
                        }
                        assert forall|c2: int| 0 <= c2 < width && scanline.x <= c2 < scanline.x + (k + 1)
                            implies pix_of(image@, zbuf@, width as int, c2, rowg) == walk_pixel_upd(
                                *tri, l1, l2, r1, r2, *render,
                                rasterizer.lights@, rasterizer.eye_pos.v@, textures@,
                                c2, rowg, pix_of(img0, zb0, width as int, c2, rowg),
                            ) by {
                            if c2 != col as int {
                                assert(pix_of(imgp, zbp, width as int, c2, rowg) == walk_pixel_upd(
                                    *tri, l1, l2, r1, r2, *render,
                                    rasterizer.lights@, rasterizer.eye_pos.v@, textures@,
                                    c2, rowg, pix_of(img0, zb0, width as int, c2, rowg),
                                ));
                            }
                        }
                        assert forall|c2: int| 0 <= c2 < width && !(scanline.x <= c2 < scanline.x + (k + 1))
                            implies pix_of(image@, zbuf@, width as int, c2, rowg) == pix_of(img0, zb0, width as int, c2, rowg) by {
                            assert(pix_of(imgp, zbp, width as int, c2, rowg) == pix_of(img0, zb0, width as int, c2, rowg));
                        }
                    }
                }
                proof {
                    assert(scanline.step.field(2) == row_step(*tri, l1, l2, r1, r2, rowg, 2));
                    assert(scanline.step.field(4) == row_step(*tri, l1, l2, r1, r2, rowg, 4));
                    assert(scanline.step.field(5) == row_step(*tri, l1, l2, r1, r2, rowg, 5));
                    assert(scanline.step.field(6) == row_step(*tri, l1, l2, r1, r2, rowg, 6));
                    lemma_row_at_step(*tri, l1, l2, r1, r2, rowg, 2, k as int);
                    lemma_row_at_step(*tri, l1, l2, r1, r2, rowg, 4, k as int);
                    lemma_row_at_step(*tri, l1, l2, r1, r2, rowg, 5, k as int);
                    lemma_row_at_step(*tri, l1, l2, r1, r2, rowg, 6, k as int);
                }
                cr = cr.add(scanline.step.color.r());
                cg = cg.add(scanline.step.color.g());
                cb = cb.add(scanline.step.color.b());
                zz = zz.add(scanline.step.v.z());
                k = k + 1;
            }
            proof {
                reveal(walk_pixel_upd);
                assert forall|col: int| 0 <= col < width && !(scanline.x <= col < scanline.x + k)
                    implies pix_of(image@, zbuf@, width as int, col, rowg) == walk_pixel_upd(
                        *tri, l1, l2, r1, r2, *render,
                        rasterizer.lights@, rasterizer.eye_pos.v@, textures@,
                        col, rowg, pix_of(img0, zb0, width as int, col, rowg),
                    ) by {
                    assert(!(0 <= col - row_x0(*tri, l1, l2, rowg) < row_w(*tri, l1, l2, r1, r2, rowg)));
                }
            }
        }
        RenderType::TEXTURE => {
            let mut uu = trap.l.tex_coords.u();
            let mut vv = trap.l.tex_coords.v();
            let mut t0 = trap.l.tv.x();
            let mut t1 = trap.l.tv.y();
            let mut t2 = trap.l.tv.z();
            let mut n0 = trap.l.normal.x();
            let mut n1 = trap.l.normal.y();
            let mut n2 = trap.l.normal.z();
            let mut zz = trap.l.v.z();
            proof {
                assert(trap.l.field(2) == row_l(*tri, l1, l2, rowg, 2));
                assert(trap.l.field(7) == row_l(*tri, l1, l2, rowg, 7));
                assert(trap.l.field(8) == row_l(*tri, l1, l2, rowg, 8));
                assert(trap.l.field(9) == row_l(*tri, l1, l2, rowg, 9));
                assert(trap.l.field(10) == row_l(*tri, l1, l2, rowg, 10));
                assert(trap.l.field(11) == row_l(*tri, l1, l2, rowg, 11));
                assert(trap.l.field(13) == row_l(*tri, l1, l2, rowg, 13));
                assert(trap.l.field(14) == row_l(*tri, l1, l2, rowg, 14));
                assert(trap.l.field(15) == row_l(*tri, l1, l2, rowg, 15));
                lemma_row_at_zero(*tri, l1, l2, r1, r2, rowg, 2);
                lemma_row_at_zero(*tri, l1, l2, r1, r2, rowg, 7);
                lemma_row_at_zero(*tri, l1, l2, r1, r2, rowg, 8);
                lemma_row_at_zero(*tri, l1, l2, r1, r2, rowg, 9);
                lemma_row_at_zero(*tri, l1, l2, r1, r2, rowg, 10);
                lemma_row_at_zero(*tri, l1, l2, r1, r2, rowg, 11);
                lemma_row_at_zero(*tri, l1, l2, r1, r2, rowg, 13);
                lemma_row_at_zero(*tri, l1, l2, r1, r2, rowg, 14);
                lemma_row_at_zero(*tri, l1, l2, r1, r2, rowg, 15);
            }
            let mut k: i64 = 0;
            while k < scanline.w
                invariant
                    rasterizer.wf(),
                    tri.wf(),
                    trap.wf(),
                    row == scanline.y,
                    1 <= width <= 16384,
                    *render == RenderType::TEXTURE,
                    textures@.len() >= 1,
                    textures@[0].wf(),
                    0 <= k,
                    k <= scanline.w || k == 0,
                    -281474976710656 <= scanline.x <= 281474976710656,
                    scanline.w <= 562949953421312,
                    scanline.x as int == row_x0(*tri, l1, l2, rowg),
                    scanline.w as int == row_w(*tri, l1, l2, r1, r2, rowg),
                    rowg == scanline.y as int,
                    l1 == trap.l1 as int,
                    l2 == trap.l2 as int,
                    r1 == trap.r1 as int,
                    r2 == trap.r2 as int,
                    scanline.step.wf(),
                    image@.len() == img0.len(),
                    zbuf@.len() == zb0.len(),
                    zb0.len() == zlen,
                    img0.len() == ilen,
                    img0.len() == zb0.len() * 4,
                    rowg * width + width <= zb0.len(),
                    uu.bits as int == row_at(*tri, l1, l2, r1, r2, rowg, 7, k as int),
                    vv.bits as int == row_at(*tri, l1, l2, r1, r2, rowg, 8, k as int),
                    t0.bits as int == row_at(*tri, l1, l2, r1, r2, rowg, 9, k as int),
                    t1.bits as int == row_at(*tri, l1, l2, r1, r2, rowg, 10, k as int),
                    t2.bits as int == row_at(*tri, l1, l2, r1, r2, rowg, 11, k as int),
                    n0.bits as int == row_at(*tri, l1, l2, r1, r2, rowg, 13, k as int),
                    n1.bits as int == row_at(*tri, l1, l2, r1, r2, rowg, 14, k as int),
                    n2.bits as int == row_at(*tri, l1, l2, r1, r2, rowg, 15, k as int),
                    zz.bits as int == row_at(*tri, l1, l2, r1, r2, rowg, 2, k as int),
                    forall|fi: int| 0 <= fi < 21 ==> (#[trigger] scanline.step.field(fi))
                        == row_step(*tri, l1, l2, r1, r2, rowg, fi),
                    forall|col: int| 0 <= col < width && scanline.x <= col < scanline.x + k
                        ==> pix_of(image@, zbuf@, width as int, col, rowg) == walk_pixel_upd(
                            *tri, l1, l2, r1, r2, *render,
                            rasterizer.lights@, rasterizer.eye_pos.v@, textures@,
                            col, rowg, pix_of(img0, zb0, width as int, col, rowg),
                        ),
                    forall|col: int| 0 <= col < width && !(scanline.x <= col < scanline.x + k)
                        ==> pix_of(image@, zbuf@, width as int, col, rowg) == pix_of(img0, zb0, width as int, col, rowg),
                    forall|kk: int| 0 <= kk < zb0.len() && !(rowg * width <= kk < rowg * width + width)
                        ==> zbuf@[kk] == zb0[kk],
                    forall|kk: int| 0 <= kk < img0.len() && !(4 * (rowg * width) <= kk < 4 * (rowg * width + width))
                        ==> image@[kk] == img0[kk],
                decreases scanline.w - k,
            {
                let col = scanline.x + k;
                let ghost imgp = image@;
                let ghost zbp = zbuf@;
                if col >= 0 && col < width as i64 {
                    let colu = col as usize;
                    let idx = row * width + colu;
                    if zz.bits >= zbuf[idx].bits {
                        zbuf[idx] = zz;
                        let px = walk_tex_pixel(rasterizer, textures, uu, vv, t0, t1, t2, n0, n1, n2);
                        image[4 * idx] = px.2;
                        image[4 * idx + 1] = px.1;
                        image[4 * idx + 2] = px.0;
                        image[4 * idx + 3] = 255;
                    }
                    proof {
                        reveal(walk_pixel_upd);
                        assert(pix_of(imgp, zbp, width as int, col as int, rowg)
                            == pix_of(img0, zb0, width as int, col as int, rowg));
                        assert(pix_of(image@, zbuf@, width as int, col as int, rowg) == walk_pixel_upd(
                            *tri, l1, l2, r1, r2, *render,
                            rasterizer.lights@, rasterizer.eye_pos.v@, textures@,
                            col as int, rowg, pix_of(img0, zb0, width as int, col as int, rowg),
                        ));
                        assert forall|c2: int| 0 <= c2 < width && c2 != col as int
                            implies pix_of(image@, zbuf@, width as int, c2, rowg) == pix_of(imgp, zbp, width as int, c2, rowg) by {
                            assert(rowg * width + c2 != rowg * width + col as int);
                        }
                        assert forall|c2: int| 0 <= c2 < width && scanline.x <= c2 < scanline.x + (k + 1)
                            implies pix_of(image@, zbuf@, width as int, c2, rowg) == walk_pixel_upd(
                                *tri, l1, l2, r1, r2, *render,
                                rasterizer.lights@, rasterizer.eye_pos.v@, textures@,
                                c2, rowg, pix_of(img0, zb0, width as int, c2, rowg),
                            ) by {
                            if c2 != col as int {
                                assert(pix_of(imgp, zbp, width as int, c2, rowg) == walk_pixel_upd(
                                    *tri, l1, l2, r1, r2, *render,
                                    rasterizer.lights@, rasterizer.eye_pos.v@, textures@,
                                    c2, rowg, pix_of(img0, zb0, width as int, c2, rowg),
                                ));
                            }
                        }
                        assert forall|c2: int| 0 <= c2 < width && !(scanline.x <= c2 < scanline.x + (k + 1))
                            implies pix_of(image@, zbuf@, width as int, c2, rowg) == pix_of(img0, zb0, width as int, c2, rowg) by {
                            assert(pix_of(imgp, zbp, width as int, c2, rowg) == pix_of(img0, zb0, width as int, c2, rowg));
                        }
                    }
                }
                proof {
                    assert(scanline.step.field(2) == row_step(*tri, l1, l2, r1, r2, rowg, 2));
                    assert(scanline.step.field(7) == row_step(*tri, l1, l2, r1, r2, rowg, 7));
                    assert(scanline.step.field(8) == row_step(*tri, l1, l2, r1, r2, rowg, 8));
                    assert(scanline.step.field(9) == row_step(*tri, l1, l2, r1, r2, rowg, 9));
                    assert(scanline.step.field(10) == row_step(*tri, l1, l2, r1, r2, rowg, 10));
                    assert(scanline.step.field(11) == row_step(*tri, l1, l2, r1, r2, rowg, 11));
                    assert(scanline.step.field(13) == row_step(*tri, l1, l2, r1, r2, rowg, 13));
                    assert(scanline.step.field(14) == row_step(*tri, l1, l2, r1, r2, rowg, 14));
                    assert(scanline.step.field(15) == row_step(*tri, l1, l2, r1, r2, rowg, 15));
                    lemma_row_at_step(*tri, l1, l2, r1, r2, rowg, 2, k as int);
                    lemma_row_at_step(*tri, l1, l2, r1, r2, rowg, 7, k as int);
                    lemma_row_at_step(*tri, l1, l2, r1, r2, rowg, 8, k as int);
                    lemma_row_at_step(*tri, l1, l2, r1, r2, rowg, 9, k as int);
                    lemma_row_at_step(*tri, l1, l2, r1, r2, rowg, 10, k as int);
                    lemma_row_at_step(*tri, l1, l2, r1, r2, rowg, 11, k as int);
                    lemma_row_at_step(*tri, l1, l2, r1, r2, rowg, 13, k as int);
                    lemma_row_at_step(*tri, l1, l2, r1, r2, rowg, 14, k as int);
                    lemma_row_at_step(*tri, l1, l2, r1, r2, rowg, 15, k as int);
                }
                uu = uu.add(scanline.step.tex_coords.u());
                vv = vv.add(scanline.step.tex_coords.v());
                t0 = t0.add(scanline.step.tv.x());
                t1 = t1.add(scanline.step.tv.y());
                t2 = t2.add(scanline.step.tv.z());
                n0 = n0.add(scanline.step.normal.x());
                n1 = n1.add(scanline.step.normal.y());
                n2 = n2.add(scanline.step.normal.z());
                zz = zz.add(scanline.step.v.z());
                k = k + 1;
            }
            proof {
                reveal(walk_pixel_upd);
                assert forall|col: int| 0 <= col < width && !(scanline.x <= col < scanline.x + k)
                    implies pix_of(image@, zbuf@, width as int, col, rowg) == walk_pixel_upd(
                        *tri, l1, l2, r1, r2, *render,
                        rasterizer.lights@, rasterizer.eye_pos.v@, textures@,
                        col, rowg, pix_of(img0, zb0, width as int, col, rowg),
                    ) by {
                    assert(!(0 <= col - row_x0(*tri, l1, l2, rowg) < row_w(*tri, l1, l2, r1, r2, rowg)));
                }
            }
        }
    }
}


/// The rounded boundary values stay within a safe pixel range.
proof fn lemma_round_i64_range(a: int)
    requires
        -0x8000000000000000 <= a <= 0x7fffffffffffffff,
    ensures
        -281474976710656 <= fx_round_bits(a) <= 281474976710656,
{
    if a >= 0 {
        vstd::arithmetic::div_mod::lemma_div_pos_is_pos(a + 32768, 65536);
        vstd::arithmetic::div_mod::lemma_div_is_ordered(a + 32768, (0x7fffffffffffffff + 32768) as int, 65536);
        assert(((0x7fffffffffffffff + 32768) as int) / 65536 <= 281474976710656);
    } else {
        vstd::arithmetic::div_mod::lemma_div_pos_is_pos(-a + 32768, 65536);
        vstd::arithmetic::div_mod::lemma_div_is_ordered(-a + 32768, (0x8000000000000000 + 32768) as int, 65536);
        assert(((0x8000000000000000 + 32768) as int) / 65536 <= 281474976710656);
    }
}

/// Fill every scanline the trapezoid spans, clipped to the screen rows.
#[verifier::rlimit(100)]
pub fn trapezoid_draw(
    image: &mut Vec<u8>,
    rasterizer: &Rasterizer,
    rendertype: &RenderType,
    width: usize,
    height: usize,
    zbuf: &mut Vec<Fx>,
    trap: &mut Trapezoid,
    textures: &Vec<Texture>,
    tri: &Triangle,
)
    requires
        rasterizer.wf(),
        tri.wf(),
        old(trap).wf(),
        1 <= width <= 16384,
        1 <= height <= 16384,
        old(image)@.len() == width * height * 4,
        old(zbuf)@.len() == width * height,
        *rendertype == RenderType::TEXTURE ==> textures@.len() >= 1 && textures@[0].wf(),
    ensures
        final(image)@.len() == old(image)@.len(),
        final(zbuf)@.len() == old(zbuf)@.len(),
        forall|col: int, row: int| 0 <= col < width && 0 <= row < height
            ==> pix_of(final(image)@, final(zbuf)@, width as int, col, row) == trap_pixel_upd(
                *tri,
                old(trap).t.bits as int,
                old(trap).b.bits as int,
                old(trap).l1 as int,
                old(trap).l2 as int,
                old(trap).r1 as int,
                old(trap).r2 as int,
                *rendertype,
                rasterizer.lights@,
                rasterizer.eye_pos.v@,
                textures@,
                height as int,
                col,
                row,
                pix_of(old(image)@, old(zbuf)@, width as int, col, row),
            ),
{
    let ghost img0 = image@;
    let ghost zb0 = zbuf@;
    let ghost l1 = old(trap).l1 as int;
    let ghost l2 = old(trap).l2 as int;
    let ghost r1 = old(trap).r1 as int;
    let ghost r2 = old(trap).r2 as int;
    let tfl: i64 = trap.t.floor_i64();
    let bfl: i64 = trap.b.floor_i64();
    proof {
        assert((width as int) * (height as int) <= 16384 * 16384) by (nonlinear_arith)
            requires
                1 <= width as int <= 16384,
                1 <= height as int <= 16384,
        ;
    }
    let mut i: i64 = tfl;
    while i <= bfl
        invariant
            rasterizer.wf(),
            tri.wf(),
            trap.wf(),
            1 <= width <= 16384,
            1 <= height <= 16384,
            tfl >= -281474976710656,
            i >= tfl,
            i <= bfl + 1 || i == tfl,
            tfl as int == fx_floor_bits(old(trap).t.bits as int),
            bfl as int == fx_floor_bits(old(trap).b.bits as int),
            trap.t == old(trap).t,
            trap.b == old(trap).b,
            l1 == trap.l1 as int,
            l2 == trap.l2 as int,
            r1 == trap.r1 as int,
            r2 == trap.r2 as int,
            image@.len() == img0.len(),
            zbuf@.len() == zb0.len(),
            img0.len() == width * height * 4,
            zb0.len() == width * height,
            *rendertype == RenderType::TEXTURE ==> textures@.len() >= 1 && textures@[0].wf(),
            forall|col: int, row: int| 0 <= col < width && 0 <= row < height && tfl <= row < i
                ==> pix_of(image@, zbuf@, width as int, col, row) == walk_pixel_upd(
                    *tri, l1, l2, r1, r2, *rendertype,
                    rasterizer.lights@, rasterizer.eye_pos.v@, textures@,
                    col, row, pix_of(img0, zb0, width as int, col, row),
                ),
            forall|col: int, row: int| 0 <= col < width && 0 <= row < height && !(tfl <= row < i)
                ==> pix_of(image@, zbuf@, width as int, col, row) == pix_of(img0, zb0, width as int, col, row),
        decreases bfl + 1 - i,
    {
        let ghost imgp = image@;
        let ghost zbp = zbuf@;
        if i >= 0 && i < height as i64 {
            let row = i as usize;
            trapezoid_interpation(trap, tri, Fx::from_bits(i * 65536 + 32768));
            let scanline = trapezoid_init_scanline(trap, row);
            proof {
                reveal(row_l);
                reveal(row_step);
                reveal(row_x0);
                reveal(row_w);
                assert forall|fi: int| 0 <= fi < 21 implies (#[trigger] trap.l.field(fi))
                    == row_l(*tri, l1, l2, row as int, fi) by {}
                assert forall|fi: int| 0 <= fi < 21 implies (#[trigger] trap.r.field(fi))
                    == row_l(*tri, r1, r2, row as int, fi) by {}
                assert forall|fi: int| 0 <= fi < 21 implies (#[trigger] scanline.step.field(fi))
                    == row_step(*tri, l1, l2, r1, r2, row as int, fi) by {
                    assert(scanline.step.field(fi) == span_step(trap.l, trap.r, fi));
                    assert(trap.l.field(0) == row_l(*tri, l1, l2, row as int, 0));
                    assert(trap.r.field(0) == row_l(*tri, r1, r2, row as int, 0));
                    assert(trap.l.field(fi) == row_l(*tri, l1, l2, row as int, fi));
                    assert(trap.r.field(fi) == row_l(*tri, r1, r2, row as int, fi));
                }
                assert(scanline.x as int == row_x0(*tri, l1, l2, row as int));
                assert(scanline.w as int == row_w(*tri, l1, l2, r1, r2, row as int));
                lemma_round_i64_range(trap.l.field(0));
                lemma_round_i64_range(trap.r.field(0));
                assert((row as int + 1) * (width as int) <= (width as int) * (height as int)) by (nonlinear_arith)
                    requires
                        0 <= row as int,
                        (row as int) < (height as int),
                        0 < width as int,
                ;
            }
            trapezoid_draw_scanline(image, rasterizer, rendertype, width, zbuf, trap, &scanline, textures, tri);
            proof {
                let wi = width as int;
                assert forall|col: int, row2: int| 0 <= col < width && 0 <= row2 < height && row2 != row as int
                    implies pix_of(image@, zbuf@, wi, col, row2) == pix_of(imgp, zbp, wi, col, row2) by {
                    let hi = height as int;
                    assert((row2 * wi + col < row as int * wi || row2 * wi + col >= (row as int + 1) * wi)
                        && 0 <= row2 * wi + col < wi * hi) by (nonlinear_arith)
                        requires
                            0 <= col < wi,
                            row2 != row as int,
                            0 <= row2 < hi,
                            0 <= row as int,
                            0 < wi,
                    ;
                    assert(zbp.len() == wi * hi);
                    assert(zbuf@[row2 * wi + col] == zbp[row2 * wi + col]);
                    assert(4 * (row2 * wi + col) + 3 < 4 * (row as int * wi) || 4 * (row2 * wi + col) >= 4 * ((row as int + 1) * wi));
                    assert(image@[4 * (row2 * wi + col)] == imgp[4 * (row2 * wi + col)]);
                    assert(image@[4 * (row2 * wi + col) + 1] == imgp[4 * (row2 * wi + col) + 1]);
                    assert(image@[4 * (row2 * wi + col) + 2] == imgp[4 * (row2 * wi + col) + 2]);
                    assert(image@[4 * (row2 * wi + col) + 3] == imgp[4 * (row2 * wi + col) + 3]);
                }
                assert forall|col: int, row2: int| 0 <= col < width && 0 <= row2 < height && tfl <= row2 < i + 1
                    implies pix_of(image@, zbuf@, wi, col, row2) == walk_pixel_upd(
                        *tri, l1, l2, r1, r2, *rendertype,
                        rasterizer.lights@, rasterizer.eye_pos.v@, textures@,
                        col, row2, pix_of(img0, zb0, wi, col, row2),
                    ) by {
                    if row2 == row as int {
                        assert(pix_of(imgp, zbp, wi, col, row2) == pix_of(img0, zb0, wi, col, row2));
                        assert(pix_of(image@, zbuf@, wi, col, row2) == walk_pixel_upd(
                            *tri, l1, l2, r1, r2, *rendertype,
                            rasterizer.lights@, rasterizer.eye_pos.v@, textures@,
                            col, row2, pix_of(imgp, zbp, wi, col, row2),
                        ));
                    } else {
                        assert(pix_of(imgp, zbp, wi, col, row2) == walk_pixel_upd(
                            *tri, l1, l2, r1, r2, *rendertype,
                            rasterizer.lights@, rasterizer.eye_pos.v@, textures@,
                            col, row2, pix_of(img0, zb0, wi, col, row2),
                        ));
                    }
                }
                assert forall|col: int, row2: int| 0 <= col < width && 0 <= row2 < height && !(tfl <= row2 < i + 1)
                    implies pix_of(image@, zbuf@, wi, col, row2) == pix_of(img0, zb0, wi, col, row2) by {
                    assert(pix_of(imgp, zbp, wi, col, row2) == pix_of(img0, zb0, wi, col, row2));
                }
            }
        }
        i = i + 1;
    }
    proof {
        assert forall|col: int, row: int| 0 <= col < width && 0 <= row < height
            implies pix_of(image@, zbuf@, width as int, col, row) == trap_pixel_upd(
                *tri,
                old(trap).t.bits as int,
                old(trap).b.bits as int,
                l1, l2, r1, r2,
                *rendertype,
                rasterizer.lights@,
                rasterizer.eye_pos.v@,
                textures@,
                height as int,
                col,
                row,
                pix_of(img0, zb0, width as int, col, row),
            ) by {
            reveal(trap_pixel_upd);
        }
    }
}

/// Rasterize one screen-space triangle by trapezoid decomposition.
pub fn draw_trangle_edge_walking(
    image: &mut Vec<u8>,
    rasterizer: &Rasterizer,
    zbuf: &mut Vec<Fx>,
    width: usize,
    height: usize,
    triangle: &Triangle,
    textures: &Vec<Texture>,
)
    requires
        rasterizer.wf(),
        triangle.wf(),
        1 <= width <= 16384,
        1 <= height <= 16384,
        old(image)@.len() == width * height * 4,
        old(zbuf)@.len() == width * height,
        triangle.render == RenderType::TEXTURE ==> textures@.len() >= 1 && textures@[0].wf(),
    ensures
        final(image)@.len() == old(image)@.len(),
        final(zbuf)@.len() == old(zbuf)@.len(),
        forall|col: int, row: int| 0 <= col < width && 0 <= row < height
            ==> pix_of(final(image)@, final(zbuf)@, width as int, col, row) == ew_pixel_upd(
                *triangle,
                rasterizer.lights@,
                rasterizer.eye_pos.v@,
                textures@,
                height as int,
                col,
                row,
                pix_of(old(image)@, old(zbuf)@, width as int, col, row),
            ),
{
    let ghost img0 = image@;
    let ghost zb0 = zbuf@;
    let ghost ts = traps_spec(*triangle);
    let mut traps = trapezoid_init(triangle);
    if traps.len() >= 1 {
        let mut tr0 = traps.remove(0);
        trapezoid_draw(image, rasterizer, &triangle.render, width, height, zbuf, &mut tr0, textures, triangle);
    }
    let ghost img1 = image@;
    let ghost zb1 = zbuf@;
    if traps.len() >= 1 {
        let mut tr1 = traps.remove(0);
        trapezoid_draw(image, rasterizer, &triangle.render, width, height, zbuf, &mut tr1, textures, triangle);
    }
    proof {
        assert forall|col: int, row: int| 0 <= col < width && 0 <= row < height
            implies pix_of(image@, zbuf@, width as int, col, row) == ew_pixel_upd(
                *triangle,
                rasterizer.lights@,
                rasterizer.eye_pos.v@,
                textures@,
                height as int,
                col,
                row,
                pix_of(img0, zb0, width as int, col, row),
            ) by {
            if ts.len() >= 1 {
                assert(pix_of(img1, zb1, width as int, col, row) == trap_pixel_upd(
                    *triangle, ts[0].0, ts[0].1, ts[0].2, ts[0].3, ts[0].4, ts[0].5,
                    triangle.render, rasterizer.lights@, rasterizer.eye_pos.v@, textures@,
                    height as int, col, row, pix_of(img0, zb0, width as int, col, row),
                ));
            }
            if ts.len() >= 2 {
                assert(pix_of(image@, zbuf@, width as int, col, row) == trap_pixel_upd(
                    *triangle, ts[1].0, ts[1].1, ts[1].2, ts[1].3, ts[1].4, ts[1].5,
                    triangle.render, rasterizer.lights@, rasterizer.eye_pos.v@, textures@,
                    height as int, col, row, pix_of(img1, zb1, width as int, col, row),
                ));
            }
        }
    }
}


/// For a triangle whose three vertices have pairwise distinct screen
/// y and are not all on one vertical line, the decomposition yields
/// exactly two trapezoids whose y ranges meet exactly at the middle
/// vertex, together covering the triangle's full y range.
pub proof fn lemma_trapezoid_distinct_y(t: Triangle)
    requires
        t.wf(),
        sy(t, 0) != sy(t, 1),
        sy(t, 0) != sy(t, 2),
        sy(t, 1) != sy(t, 2),
        !(sx(t, 0) == sx(t, 1) && sx(t, 0) == sx(t, 2)),
    ensures
        traps_spec(t).len() == 2,
        traps_spec(t)[0].0 == sy(t, sort3(t).0),
        traps_spec(t)[0].1 == sy(t, sort3(t).1),
        traps_spec(t)[1].0 == sy(t, sort3(t).1),
        traps_spec(t)[1].1 == sy(t, sort3(t).2),
        sy(t, sort3(t).0) < sy(t, sort3(t).1),
        sy(t, sort3(t).1) < sy(t, sort3(t).2),
{
}

/// A whole second identical draw of the edge-walking engine changes
/// nothing: its per-pixel update, through both trapezoids, is
/// idempotent under the `>=` depth rule.
#[verifier::rlimit(100)]
pub proof fn lemma_ew_pixel_idempotent(
    t: Triangle,
    lights: Seq<Light>,
    eye: Seq<Fx>,
    textures: Seq<Texture>,
    h: int,
    col: int,
    row: int,
    p: (int, int, int, int, int),
)
    ensures
        ew_pixel_upd(t, lights, eye, textures, h, col, row,
            ew_pixel_upd(t, lights, eye, textures, h, col, row, p))
            == ew_pixel_upd(t, lights, eye, textures, h, col, row, p),
{
    reveal(trap_pixel_upd);
    reveal(walk_pixel_upd);
    let ts = traps_spec(t);
    if ts.len() >= 1 {
        let p1 = trap_pixel_upd(
            t, ts[0].0, ts[0].1, ts[0].2, ts[0].3, ts[0].4, ts[0].5,
            t.render, lights, eye, textures, h, col, row, p,
        );
        lemma_walk_pixel_idempotent(t, ts[0].2, ts[0].3, ts[0].4, ts[0].5, t.render, lights, eye, textures, col, row, p);
        if ts.len() >= 2 {
            lemma_walk_pixel_idempotent(t, ts[1].2, ts[1].3, ts[1].4, ts[1].5, t.render, lights, eye, textures, col, row, p1);
        }
    }
}

/// Walking the same scanline pixel twice with identical depth leaves
/// the buffers unchanged: the update of the edge-walking engine is
/// idempotent under its `>=` depth rule.
pub proof fn lemma_walk_pixel_idempotent(
    t: Triangle,
    l1: int,
    l2: int,
    r1: int,
    r2: int,
    render: RenderType,
    lights: Seq<Light>,
    eye: Seq<Fx>,
    textures: Seq<Texture>,
    col: int,
    row: int,
    p: (int, int, int, int, int),
)
    ensures
        walk_pixel_upd(t, l1, l2, r1, r2, render, lights, eye, textures, col, row,
            walk_pixel_upd(t, l1, l2, r1, r2, render, lights, eye, textures, col, row, p))
            == walk_pixel_upd(t, l1, l2, r1, r2, render, lights, eye, textures, col, row, p),
{
    reveal(walk_pixel_upd);
}

} // verus!
