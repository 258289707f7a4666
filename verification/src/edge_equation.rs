//! The edge-equation rasterization engine.
//!
//! Scans the clamped bounding box of a screen-space triangle and fills
//! each pixel through an inside test and barycentric interpolation.
//! Flat-color fragments are antialiased over four sub-pixel samples and
//! blended with the existing framebuffer; textured fragments take one
//! center sample, a texture lookup and optional Phong lighting.
//!
//! Every pixel's new bytes and depth are a pure function of that
//! pixel's old bytes and depth, stated by `ee_pixel_upd`.

use vstd::prelude::*;
use crate::fixed::{Fx, FX_ONE, FX_HALF, fxb, clamp_int, min_int, max_int};
use crate::fixed::{fx_add_bits, fx_sub_bits, fx_mul_bits, fx_div_bits, fx_round_bits, fx_trunc_bits};
use crate::vector::Vector;
use crate::utils::{blend3, blend3_bits, clamp};
use crate::triangle::{Triangle, RenderType};
use crate::texture::{Texture, tex_coord};
use crate::light::{Light, light_sum_bits, compute_light, KA_BITS, KS_BITS};
use crate::rasterizer::Rasterizer;

verus! {

/// Screen-space x of vertex `k`, in bits.
pub open spec fn sx(t: Triangle, k: int) -> int {
    t.vertexs@[k].v.v@[0].bits as int
}

/// Screen-space y of vertex `k`, in bits.
pub open spec fn sy(t: Triangle, k: int) -> int {
    t.vertexs@[k].v.v@[1].bits as int
}

/// Screen-space z of vertex `k`, in bits.
pub open spec fn sz(t: Triangle, k: int) -> int {
    t.vertexs@[k].v.v@[2].bits as int
}

/// Color component `c` of vertex `k`, in bits.
pub open spec fn vcol(t: Triangle, k: int, c: int) -> int {
    t.vertexs@[k].color.v@[c].bits as int
}

/// The edge function of the segment `a -> b` at `(x, y)`.
pub open spec fn edge_bits(ax: int, ay: int, bx: int, by: int, x: int, y: int) -> int {
    fx_sub_bits(
        fx_mul_bits(fx_sub_bits(bx, ax), fx_sub_bits(y, ay)),
        fx_mul_bits(fx_sub_bits(by, ay), fx_sub_bits(x, ax)),
    )
}

/// Strictly inside: all three edge functions positive.
pub open spec fn inside_bits(t: Triangle, x: int, y: int) -> bool {
    &&& edge_bits(sx(t, 0), sy(t, 0), sx(t, 1), sy(t, 1), x, y) > 0
    &&& edge_bits(sx(t, 1), sy(t, 1), sx(t, 2), sy(t, 2), x, y) > 0
    &&& edge_bits(sx(t, 2), sy(t, 2), sx(t, 0), sy(t, 0), x, y) > 0
}

/// The first barycentric weight, by the area-ratio formula.
pub open spec fn bary_alpha_bits(t: Triangle, x: int, y: int) -> int {
    fx_div_bits(
        fx_add_bits(
            fx_mul_bits(fx_sub_bits(x, sx(t, 1)), fx_sub_bits(sy(t, 1), sy(t, 2))),
            fx_mul_bits(fx_sub_bits(y, sy(t, 1)), fx_sub_bits(sx(t, 2), sx(t, 1))),
        ),
        fx_add_bits(
            fx_mul_bits(fx_sub_bits(sx(t, 0), sx(t, 1)), fx_sub_bits(sy(t, 1), sy(t, 2))),
            fx_mul_bits(fx_sub_bits(sy(t, 0), sy(t, 1)), fx_sub_bits(sx(t, 2), sx(t, 1))),
        ),
    )
}

/// The second barycentric weight.
pub open spec fn bary_beta_bits(t: Triangle, x: int, y: int) -> int {
    fx_div_bits(
        fx_add_bits(
            fx_mul_bits(fx_sub_bits(x, sx(t, 2)), fx_sub_bits(sy(t, 2), sy(t, 0))),
            fx_mul_bits(fx_sub_bits(y, sy(t, 2)), fx_sub_bits(sx(t, 0), sx(t, 2))),
        ),
        fx_add_bits(
            fx_mul_bits(fx_sub_bits(sx(t, 1), sx(t, 2)), fx_sub_bits(sy(t, 2), sy(t, 0))),
            fx_mul_bits(fx_sub_bits(sy(t, 1), sy(t, 2)), fx_sub_bits(sx(t, 0), sx(t, 2))),
        ),
    )
}

/// The third barycentric weight, `1 - alpha - beta`.
pub open spec fn bary_gamma_bits(t: Triangle, x: int, y: int) -> int {
    fx_sub_bits(fx_sub_bits(FX_ONE as int, bary_alpha_bits(t, x, y)), bary_beta_bits(t, x, y))
}

/// The depth interpolated at `(x, y)`.
pub open spec fn zblend_bits(t: Triangle, x: int, y: int) -> int {
    blend3_bits(sz(t, 0), sz(t, 1), sz(t, 2), bary_alpha_bits(t, x, y), bary_beta_bits(t, x, y), bary_gamma_bits(t, x, y))
}

/// One anti-aliasing sample: take the running count and minimum depth
/// through the sample at offset `(offx, offy)` inside pixel `(i, j)`.
pub open spec fn sample_bits(t: Triangle, i: int, j: int, offx: int, offy: int, cnt: int, md: int) -> (int, int) {
    let x = i * (FX_ONE as int) + offx;
    let y = j * (FX_ONE as int) + offy;
    if inside_bits(t, x, y) {
        (cnt + 1, min_int(zblend_bits(t, x, y), md))
    } else {
        (cnt, md)
    }
}

/// The covered-sample count and minimum sample depth of a pixel, over
/// the four fixed sub-pixel offsets.
#[verifier::opaque]
pub open spec fn flat_acc(t: Triangle, i: int, j: int) -> (int, int) {
    let s0 = sample_bits(t, i, j, 16384, 16384, 0, 6553600);
    let s1 = sample_bits(t, i, j, 16384, 49152, s0.0, s0.1);
    let s2 = sample_bits(t, i, j, 49152, 16384, s1.0, s1.1);
    sample_bits(t, i, j, 49152, 49152, s2.0, s2.1)
}

/// A byte scaled into `[0, 1]`.
pub open spec fn unit_byte(b: int) -> int {
    fx_div_bits(b * (FX_ONE as int), 255 * (FX_ONE as int))
}

/// The blended byte of one color channel of a flat pixel: barycentric
/// color at the pixel center, coverage-weighted against the old byte.
#[verifier::opaque]
pub open spec fn flat_chan_bits(t: Triangle, i: int, j: int, oldbyte: int, cnt: int, c: int) -> int {
    let x = i * (FX_ONE as int) + FX_HALF as int;
    let y = j * (FX_ONE as int) + FX_HALF as int;
    let al = bary_alpha_bits(t, x, y);
    let be = bary_beta_bits(t, x, y);
    let ga = bary_gamma_bits(t, x, y);
    let e = blend3_bits(vcol(t, 0, c), vcol(t, 1, c), vcol(t, 2, c), al, be, ga);
    let e2 = fx_add_bits(
        fx_mul_bits(e, cnt * (FX_ONE as int)),
        fx_mul_bits(unit_byte(oldbyte), (4 - cnt) * (FX_ONE as int)),
    );
    let e3 = fx_div_bits(fx_mul_bits(e2, 255 * (FX_ONE as int)), 4 * (FX_ONE as int));
    clamp_int(fx_trunc_bits(e3), 0, 255)
}

/// Texture coordinate component `c` blended at the center of `(i, j)`.
pub open spec fn uv_blend_bits(t: Triangle, i: int, j: int, c: int) -> int {
    let x = i * (FX_ONE as int) + FX_HALF as int;
    let y = j * (FX_ONE as int) + FX_HALF as int;
    blend3_bits(
        t.vertexs@[0].tex_coords.v@[c].bits as int,
        t.vertexs@[1].tex_coords.v@[c].bits as int,
        t.vertexs@[2].tex_coords.v@[c].bits as int,
        bary_alpha_bits(t, x, y),
        bary_beta_bits(t, x, y),
        bary_gamma_bits(t, x, y),
    )
}

/// World-space position component `c` blended at the center of `(i, j)`.
pub open spec fn tv_blend_bits(t: Triangle, i: int, j: int, c: int) -> int {
    let x = i * (FX_ONE as int) + FX_HALF as int;
    let y = j * (FX_ONE as int) + FX_HALF as int;
    blend3_bits(
        t.vertexs@[0].tv.v@[c].bits as int,
        t.vertexs@[1].tv.v@[c].bits as int,
        t.vertexs@[2].tv.v@[c].bits as int,
        bary_alpha_bits(t, x, y),
        bary_beta_bits(t, x, y),
        bary_gamma_bits(t, x, y),
    )
}

/// Normal component `c` blended at the center of `(i, j)`.
pub open spec fn nrm_blend_bits(t: Triangle, i: int, j: int, c: int) -> int {
    let x = i * (FX_ONE as int) + FX_HALF as int;
    let y = j * (FX_ONE as int) + FX_HALF as int;
    blend3_bits(
        t.vertexs@[0].normal.v@[c].bits as int,
        t.vertexs@[1].normal.v@[c].bits as int,
        t.vertexs@[2].normal.v@[c].bits as int,
        bary_alpha_bits(t, x, y),
        bary_beta_bits(t, x, y),
        bary_gamma_bits(t, x, y),
    )
}

/// The texture bytes `(r, g, b)` sampled for pixel `(i, j)`, with the
/// `1 - v` flip applied to the second coordinate.
pub open spec fn tex_sample_bits(t: Triangle, tex: Texture, i: int, j: int) -> (int, int, int) {
    let u = uv_blend_bits(t, i, j, 0);
    let v = fx_sub_bits(FX_ONE as int, uv_blend_bits(t, i, j, 1));
    let x = tex_coord(u, tex.width as int);
    let y = tex_coord(v, tex.height as int);
    let idx = 4 * (y * (tex.width as int) + x);
    (tex.pixels@[idx] as int, tex.pixels@[idx + 1] as int, tex.pixels@[idx + 2] as int)
}

/// A lit color scaled to a byte.
pub open spec fn lit_byte(res: int) -> int {
    clamp_int(fx_trunc_bits(fx_mul_bits(res, 255 * (FX_ONE as int))), 0, 255)
}

/// The Phong-lit byte of channel `c` for a textured pixel.
pub open spec fn lit_chan_bits(
    t: Triangle,
    lights: Seq<Light>,
    eye: Seq<Fx>,
    sample: (int, int, int),
    i: int,
    j: int,
    c: int,
) -> int {
    let pos = seq![fxb(tv_blend_bits(t, i, j, 0)), fxb(tv_blend_bits(t, i, j, 1)), fxb(tv_blend_bits(t, i, j, 2))];
    let n = seq![fxb(nrm_blend_bits(t, i, j, 0)), fxb(nrm_blend_bits(t, i, j, 1)), fxb(nrm_blend_bits(t, i, j, 2))];
    let ka = seq![fxb(KA_BITS as int), fxb(KA_BITS as int), fxb(KA_BITS as int)];
    let kd = seq![fxb(unit_byte(sample.0)), fxb(unit_byte(sample.1)), fxb(unit_byte(sample.2))];
    let ks = seq![fxb(KS_BITS as int), fxb(KS_BITS as int), fxb(KS_BITS as int)];
    lit_byte(light_sum_bits(lights, pos, n, ka, kd, ks, eye, c))
}

/// The final `(r, g, b)` bytes of a textured pixel: the raw sample, or
/// the lit sample when the scene has lights.
#[verifier::opaque]
pub open spec fn tex_rgb_bits(
    t: Triangle,
    lights: Seq<Light>,
    eye: Seq<Fx>,
    tex: Texture,
    i: int,
    j: int,
) -> (int, int, int) {
    let s = tex_sample_bits(t, tex, i, j);
    if lights.len() > 0 {
        (
            lit_chan_bits(t, lights, eye, s, i, j, 0),
            lit_chan_bits(t, lights, eye, s, i, j, 1),
            lit_chan_bits(t, lights, eye, s, i, j, 2),
        )
    } else {
        s
    }
}

/// The left edge of the clamped pixel bounding box, in bits.
pub open spec fn box_l_bits(t: Triangle, w: int) -> int {
    let hi = (w - 1) * (FX_ONE as int);
    let l0 = clamp_int(min_int(sx(t, 0), i64::MAX as int), 0, hi);
    let l1 = clamp_int(min_int(sx(t, 1), l0), 0, hi);
    clamp_int(min_int(sx(t, 2), l1), 0, hi)
}

/// The right edge of the clamped pixel bounding box, in bits.
pub open spec fn box_r_bits(t: Triangle, w: int) -> int {
    let hi = (w - 1) * (FX_ONE as int);
    let r0 = clamp_int(max_int(sx(t, 0), i64::MIN as int), 0, hi);
    let r1 = clamp_int(max_int(sx(t, 1), r0), 0, hi);
    clamp_int(max_int(sx(t, 2), r1), 0, hi)
}

/// The top (largest y) edge of the clamped pixel bounding box, in bits.
pub open spec fn box_t_bits(t: Triangle, h: int) -> int {
    let hi = (h - 1) * (FX_ONE as int);
    let t0 = clamp_int(max_int(sy(t, 0), i64::MIN as int), 0, hi);
    let t1 = clamp_int(max_int(sy(t, 1), t0), 0, hi);
    clamp_int(max_int(sy(t, 2), t1), 0, hi)
}

/// The bottom (smallest y) edge of the clamped pixel bounding box.
pub open spec fn box_b_bits(t: Triangle, h: int) -> int {
    let hi = (h - 1) * (FX_ONE as int);
    let b0 = clamp_int(min_int(sy(t, 0), i64::MAX as int), 0, hi);
    let b1 = clamp_int(min_int(sy(t, 1), b0), 0, hi);
    clamp_int(min_int(sy(t, 2), b1), 0, hi)
}

/// Whether pixel `(i, j)` lies in the rounded bounding box.
pub open spec fn in_box(t: Triangle, w: int, h: int, i: int, j: int) -> bool {
    &&& fx_round_bits(box_l_bits(t, w)) <= i <= fx_round_bits(box_r_bits(t, w))
    &&& fx_round_bits(box_b_bits(t, h)) <= j <= fx_round_bits(box_t_bits(t, h))
}

/// The `(b, g, r, a, z)` state of pixel `(i, j)`.
pub open spec fn pix_of(img: Seq<u8>, zb: Seq<Fx>, width: int, i: int, j: int) -> (int, int, int, int, int) {
    let idx = j * width + i;
    (
        img[4 * idx] as int,
        img[4 * idx + 1] as int,
        img[4 * idx + 2] as int,
        img[4 * idx + 3] as int,
        zb[idx].bits as int,
    )
}

/// What the edge-equation engine does to one pixel: the new
/// `(b, g, r, a, z)` state as a function of the old one.
#[verifier::opaque]
pub open spec fn ee_pixel_upd(
    t: Triangle,
    lights: Seq<Light>,
    eye: Seq<Fx>,
    textures: Seq<Texture>,
    w: int,
    h: int,
    i: int,
    j: int,
    p: (int, int, int, int, int),
) -> (int, int, int, int, int) {
    if !in_box(t, w, h, i, j) {
        p
    } else if t.render == RenderType::COLOR {
        let acc = flat_acc(t, i, j);
        if acc.0 > 0 && acc.1 >= p.4 {
            (
                flat_chan_bits(t, i, j, p.0, acc.0, 2),
                flat_chan_bits(t, i, j, p.1, acc.0, 1),
                flat_chan_bits(t, i, j, p.2, acc.0, 0),
                255,
                acc.1,
            )
        } else {
            p
        }
    } else {
        let x = i * (FX_ONE as int) + FX_HALF as int;
        let y = j * (FX_ONE as int) + FX_HALF as int;
        if inside_bits(t, x, y) && zblend_bits(t, x, y) >= p.4 {
            let rgb = tex_rgb_bits(t, lights, eye, textures[0], i, j);
            (rgb.2, rgb.1, rgb.0, 255, zblend_bits(t, x, y))
        } else {
            p
        }
    }
}

/// Distinct pixels have distinct buffer indices.
pub proof fn lemma_pixel_index_injective(width: int, x1: int, y1: int, x2: int, y2: int)
    requires
        0 <= x1 < width,
        0 <= x2 < width,
        0 <= y1,
        0 <= y2,
        !(x1 == x2 && y1 == y2),
    ensures
        y1 * width + x1 != y2 * width + x2,
{
    assert(y1 * width + x1 != y2 * width + x2) by (nonlinear_arith)
        requires
            0 <= x1 < width,
            0 <= x2 < width,
            0 <= y1,
            0 <= y2,
            !(x1 == x2 && y1 == y2),
    ;
}

/// Strict positive half-plane test against the three edges `a->b`,
/// `b->c`, `c->a`.
pub fn inside_triangle(x: Fx, y: Fx, a: &Vector, b: &Vector, c: &Vector) -> (r: bool)
    requires
        a.v@.len() >= 2,
        b.v@.len() >= 2,
        c.v@.len() >= 2,
    ensures
        r == (
            edge_bits(a.v@[0].bits as int, a.v@[1].bits as int, b.v@[0].bits as int, b.v@[1].bits as int, x.bits as int, y.bits as int) > 0
            && edge_bits(b.v@[0].bits as int, b.v@[1].bits as int, c.v@[0].bits as int, c.v@[1].bits as int, x.bits as int, y.bits as int) > 0
            && edge_bits(c.v@[0].bits as int, c.v@[1].bits as int, a.v@[0].bits as int, a.v@[1].bits as int, x.bits as int, y.bits as int) > 0
        ),
{
    let v1 = b.x().sub(a.x()).mul(y.sub(a.y())).sub(b.y().sub(a.y()).mul(x.sub(a.x())));
    let v2 = c.x().sub(b.x()).mul(y.sub(b.y())).sub(c.y().sub(b.y()).mul(x.sub(b.x())));
    let v3 = a.x().sub(c.x()).mul(y.sub(c.y())).sub(a.y().sub(c.y()).mul(x.sub(c.x())));
    v1.bits > 0 && v2.bits > 0 && v3.bits > 0
}

/// The barycentric weights of `(x, y)` in the screen-space triangle.
pub fn compute_barycentric_2d(x: Fx, y: Fx, triangle: &Triangle) -> (r: (Fx, Fx, Fx))
    requires
        triangle.wf(),
    ensures
        r.0.bits == bary_alpha_bits(*triangle, x.bits as int, y.bits as int),
        r.1.bits == bary_beta_bits(*triangle, x.bits as int, y.bits as int),
        r.2.bits == bary_gamma_bits(*triangle, x.bits as int, y.bits as int),
{
    let a = &triangle.vertexs[0].v;
    let b = &triangle.vertexs[1].v;
    let c = &triangle.vertexs[2].v;
    let alpha = x.sub(b.x()).mul(b.y().sub(c.y())).add(y.sub(b.y()).mul(c.x().sub(b.x()))).div(
        a.x().sub(b.x()).mul(b.y().sub(c.y())).add(a.y().sub(b.y()).mul(c.x().sub(b.x()))),
    );
    let beta = x.sub(c.x()).mul(c.y().sub(a.y())).add(y.sub(c.y()).mul(a.x().sub(c.x()))).div(
        b.x().sub(c.x()).mul(c.y().sub(a.y())).add(b.y().sub(c.y()).mul(a.x().sub(c.x()))),
    );
    let gamma = Fx::one().sub(alpha).sub(beta);
    (alpha, beta, gamma)
}

/// One anti-aliasing sample of the flat path.
fn flat_sample(triangle: &Triangle, i: usize, j: usize, offx: i64, offy: i64, cnt: u32, md: Fx) -> (r: (u32, Fx))
    requires
        triangle.wf(),
        i < 16384,
        j < 16384,
        0 <= offx <= 65536,
        0 <= offy <= 65536,
        cnt <= 3,
    ensures
        (r.0 as int, r.1.bits as int) == sample_bits(*triangle, i as int, j as int, offx as int, offy as int, cnt as int, md.bits as int),
{
    let x = Fx::from_bits((i as i64) * 65536 + offx);
    let y = Fx::from_bits((j as i64) * 65536 + offy);
    if inside_triangle(x, y, &triangle.vertexs[0].v, &triangle.vertexs[1].v, &triangle.vertexs[2].v) {
        let (al, be, ga) = compute_barycentric_2d(x, y, triangle);
        let z = blend3(
            triangle.vertexs[0].v.z(),
            triangle.vertexs[1].v.z(),
            triangle.vertexs[2].v.z(),
            al,
            be,
            ga,
        );
        (cnt + 1, z.min(md))
    } else {
        (cnt, md)
    }
}

/// The blended byte of one flat color channel at pixel `(i, j)`.
fn flat_channel(triangle: &Triangle, i: usize, j: usize, oldbyte: u8, count: u32, c: usize) -> (r: u8)
    requires
        triangle.wf(),
        i < 16384,
        j < 16384,
        c < 3,
        count <= 4,
    ensures
        r as int == flat_chan_bits(*triangle, i as int, j as int, oldbyte as int, count as int, c as int),
{
    proof {
        reveal(flat_chan_bits);
    }
    let x = Fx::from_bits((i as i64) * 65536 + 32768);
    let y = Fx::from_bits((j as i64) * 65536 + 32768);
    let (al, be, ga) = compute_barycentric_2d(x, y, triangle);
    let e = blend3(
        triangle.vertexs[0].color.v[c],
        triangle.vertexs[1].color.v[c],
        triangle.vertexs[2].color.v[c],
        al,
        be,
        ga,
    );
    let unit = Fx::from_int(oldbyte as i64).div(Fx::from_int(255));
    let e2 = e.mul(Fx::from_int(count as i64)).add(unit.mul(Fx::from_int((4 - count) as i64)));
    let e3 = e2.mul(Fx::from_int(255)).div(Fx::from_int(4));
    let tr = e3.trunc_i64();
    if tr < 0 {
        0
    } else if tr > 255 {
        255
    } else {
        tr as u8
    }
}

/// A lit color channel scaled and clamped to a byte.
pub(crate) fn to_chan(v: Fx) -> (r: u8)
    ensures
        r as int == lit_byte(v.bits as int),
{
    let tr = v.mul(Fx::from_int(255)).trunc_i64();
    if tr < 0 {
        0
    } else if tr > 255 {
        255
    } else {
        tr as u8
    }
}

/// Fill one pixel of the bounding box.
#[verifier::rlimit(100)]
fn fill_pixel(
    image: &mut Vec<u8>,
    rasterizer: &Rasterizer,
    zbuf: &mut Vec<Fx>,
    width: usize,
    height: usize,
    triangle: &Triangle,
    textures: &Vec<Texture>,
    i: usize,
    j: usize,
)
    requires
        rasterizer.wf(),
        triangle.wf(),
        1 <= width <= 16384,
        1 <= height <= 16384,
        old(image)@.len() == width * height * 4,
        old(zbuf)@.len() == width * height,
        i < width,
        j < height,
        in_box(*triangle, width as int, height as int, i as int, j as int),
        triangle.render == RenderType::TEXTURE ==> textures@.len() >= 1 && textures@[0].wf(),
    ensures
        final(image)@.len() == old(image)@.len(),
        final(zbuf)@.len() == old(zbuf)@.len(),
        pix_of(final(image)@, final(zbuf)@, width as int, i as int, j as int) == ee_pixel_upd(
            *triangle,
            rasterizer.lights@,
            rasterizer.eye_pos.v@,
            textures@,
            width as int,
            height as int,
            i as int,
            j as int,
            pix_of(old(image)@, old(zbuf)@, width as int, i as int, j as int),
        ),
        forall|k: int| 0 <= k < old(zbuf)@.len() && k != (j as int) * (width as int) + i as int
            ==> final(zbuf)@[k] == old(zbuf)@[k],
        forall|k: int| 0 <= k < old(image)@.len()
            && !(4 * ((j as int) * (width as int) + i as int) <= k < 4 * ((j as int) * (width as int) + i as int) + 4)
            ==> final(image)@[k] == old(image)@[k],
{
    proof {
        reveal(ee_pixel_upd);
        reveal(flat_acc);
        reveal(flat_chan_bits);
        reveal(tex_rgb_bits);
        let wi = width as int;
        let hi = height as int;
        let xi = i as int;
        let yi = j as int;
        assert(yi * wi + xi < wi * hi) by (nonlinear_arith)
            requires
                0 <= xi < wi,
                0 <= yi < hi,
        ;
        assert(wi * hi * 4 <= 16384 * 16384 * 4) by (nonlinear_arith)
            requires
                1 <= wi <= 16384,
                1 <= hi <= 16384,
        ;
    }
    let idx: usize = j * width + i;
    match triangle.render {
        RenderType::COLOR => {
            let s0 = flat_sample(triangle, i, j, 16384, 16384, 0, Fx::from_bits(6553600));
            let s1 = flat_sample(triangle, i, j, 16384, 49152, s0.0, s0.1);
            let s2 = flat_sample(triangle, i, j, 49152, 16384, s1.0, s1.1);
            let s3 = flat_sample(triangle, i, j, 49152, 49152, s2.0, s2.1);
            let count = s3.0;
            let min_depth = s3.1;
            if count > 0 && min_depth.bits >= zbuf[idx].bits {
                zbuf[idx] = min_depth;
                let ob = image[4 * idx];
                let og = image[4 * idx + 1];
                let orr = image[4 * idx + 2];
                let cb = flat_channel(triangle, i, j, ob, count, 2);
                let cg = flat_channel(triangle, i, j, og, count, 1);
                let cr = flat_channel(triangle, i, j, orr, count, 0);
                image[4 * idx] = cb;
                image[4 * idx + 1] = cg;
                image[4 * idx + 2] = cr;
                image[4 * idx + 3] = 255;
            }
        }
        RenderType::TEXTURE => {
            let x = Fx::from_bits((i as i64) * 65536 + 32768);
            let y = Fx::from_bits((j as i64) * 65536 + 32768);
            if inside_triangle(x, y, &triangle.vertexs[0].v, &triangle.vertexs[1].v, &triangle.vertexs[2].v) {
                let (al, be, ga) = compute_barycentric_2d(x, y, triangle);
                let z = blend3(
                    triangle.vertexs[0].v.z(),
                    triangle.vertexs[1].v.z(),
                    triangle.vertexs[2].v.z(),
                    al,
                    be,
                    ga,
                );
                if z.bits >= zbuf[idx].bits {
                    zbuf[idx] = z;
                    let uv = crate::utils::interpolate_vector2f(
                        &triangle.vertexs[0].tex_coords,
                        &triangle.vertexs[1].tex_coords,
                        &triangle.vertexs[2].tex_coords,
                        al, be, ga,
                    );
                    let mv = crate::utils::interpolate_vector4f(
                        &triangle.vertexs[0].tv,
                        &triangle.vertexs[1].tv,
                        &triangle.vertexs[2].tv,
                        al, be, ga,
                    );
                    let nn = crate::utils::interpolate_vector3f(
                        &triangle.vertexs[0].normal,
                        &triangle.vertexs[1].normal,
                        &triangle.vertexs[2].normal,
                        al, be, ga,
                    );
                    let sample = textures[0].get_color(uv.u(), Fx::one().sub(uv.v()));
                    let mut rr = sample.0;
                    let mut gg = sample.1;
                    let mut bb = sample.2;
                    let ghost raw = (rr as int, gg as int, bb as int);
                    proof {
                        assert(raw == tex_sample_bits(*triangle, textures@[0], i as int, j as int));
                    }
                    if rasterizer.get_lights().len() > 0 {
                        let kq = Fx::from_bits(KA_BITS);
                        let sq = Fx::from_bits(KS_BITS);
                        let pos = Vector::new_3(mv.x(), mv.y(), mv.z());
                        let ka = Vector::new_3(kq, kq, kq);
                        let kd = Vector::new_3(
                            Fx::from_int(rr as i64).div(Fx::from_int(255)),
                            Fx::from_int(gg as i64).div(Fx::from_int(255)),
                            Fx::from_int(bb as i64).div(Fx::from_int(255)),
                        );
                        let ks = Vector::new_3(sq, sq, sq);
                        let result = compute_light(
                            &pos,
                            &nn,
                            rasterizer.get_lights(),
                            &ka,
                            &kd,
                            &ks,
                            rasterizer.get_eye_pos(),
                        );
                        proof {
                            let ti = *triangle;
                            let ii = i as int;
                            let jj = j as int;
                            assert(pos.v@ =~= seq![
                                fxb(tv_blend_bits(ti, ii, jj, 0)),
                                fxb(tv_blend_bits(ti, ii, jj, 1)),
                                fxb(tv_blend_bits(ti, ii, jj, 2)),
                            ]);
                            assert(nn.v@ =~= seq![
                                fxb(nrm_blend_bits(ti, ii, jj, 0)),
                                fxb(nrm_blend_bits(ti, ii, jj, 1)),
                                fxb(nrm_blend_bits(ti, ii, jj, 2)),
                            ]);
                            assert(ka.v@ =~= seq![fxb(KA_BITS as int), fxb(KA_BITS as int), fxb(KA_BITS as int)]);
                            assert(kd.v@ =~= seq![fxb(unit_byte(raw.0)), fxb(unit_byte(raw.1)), fxb(unit_byte(raw.2))]);
                            assert(ks.v@ =~= seq![fxb(KS_BITS as int), fxb(KS_BITS as int), fxb(KS_BITS as int)]);
                        }
                        rr = to_chan(result.r());
                        gg = to_chan(result.g());
                        bb = to_chan(result.b());
                        proof {
                            assert(rr as int == lit_chan_bits(*triangle, rasterizer.lights@, rasterizer.eye_pos.v@, raw, i as int, j as int, 0));
                            assert(gg as int == lit_chan_bits(*triangle, rasterizer.lights@, rasterizer.eye_pos.v@, raw, i as int, j as int, 1));
                            assert(bb as int == lit_chan_bits(*triangle, rasterizer.lights@, rasterizer.eye_pos.v@, raw, i as int, j as int, 2));
                        }
                    }
                    image[4 * idx] = bb;
                    image[4 * idx + 1] = gg;
                    image[4 * idx + 2] = rr;
                    image[4 * idx + 3] = 255;
                }
            }
        }
    }
}

/// Rasterize one screen-space triangle by bounding-box scan.
#[verifier::rlimit(100)]
pub fn draw_trangle_edge_equation(
    image: &mut Vec<u8>,
    rasterizer: &Rasterizer,
    zbuf: &mut Vec<Fx>,
    width: usize,
    height: usize,
    triangle: &Triangle,
    textures: &Vec<Texture>,
)
    requires
        rasterizer.wf(),
        triangle.wf(),
        1 <= width <= 16384,
        1 <= height <= 16384,
        old(image)@.len() == width * height * 4,
        old(zbuf)@.len() == width * height,
        triangle.render == RenderType::TEXTURE ==> textures@.len() >= 1 && textures@[0].wf(),
    ensures
        final(image)@.len() == old(image)@.len(),
        final(zbuf)@.len() == old(zbuf)@.len(),
        forall|x: int, y: int| 0 <= x < width && 0 <= y < height
            ==> pix_of(final(image)@, final(zbuf)@, width as int, x, y) == ee_pixel_upd(
                *triangle,
                rasterizer.lights@,
                rasterizer.eye_pos.v@,
                textures@,
                width as int,
                height as int,
                x,
                y,
                pix_of(old(image)@, old(zbuf)@, width as int, x, y),
            ),
{
    let ghost t = *triangle;
    let ghost img0 = image@;
    let ghost zb0 = zbuf@;
    let wm1 = Fx::from_int((width - 1) as i64);
    let hm1 = Fx::from_int((height - 1) as i64);
    let zero = Fx::zero();
    let big = Fx::from_bits(i64::MAX);
    let small = Fx::from_bits(i64::MIN);
    let l0 = clamp(triangle.vertexs[0].v.x().min(big), zero, wm1);
    let l1 = clamp(triangle.vertexs[1].v.x().min(l0), zero, wm1);
    let lb = clamp(triangle.vertexs[2].v.x().min(l1), zero, wm1);
    let r0 = clamp(triangle.vertexs[0].v.x().max(small), zero, wm1);
    let r1 = clamp(triangle.vertexs[1].v.x().max(r0), zero, wm1);
    let rb = clamp(triangle.vertexs[2].v.x().max(r1), zero, wm1);
    let t0 = clamp(triangle.vertexs[0].v.y().max(small), zero, hm1);
    let t1 = clamp(triangle.vertexs[1].v.y().max(t0), zero, hm1);
    let tb = clamp(triangle.vertexs[2].v.y().max(t1), zero, hm1);
    let b0 = clamp(triangle.vertexs[0].v.y().min(big), zero, hm1);
    let b1 = clamp(triangle.vertexs[1].v.y().min(b0), zero, hm1);
    let bb = clamp(triangle.vertexs[2].v.y().min(b1), zero, hm1);
    proof {
        assert(lb.bits == box_l_bits(t, width as int));
        assert(rb.bits == box_r_bits(t, width as int));
        assert(tb.bits == box_t_bits(t, height as int));
        assert(bb.bits == box_b_bits(t, height as int));
        lemma_round_range(lb.bits as int, width as int - 1);
        lemma_round_range(rb.bits as int, width as int - 1);
        lemma_round_range(tb.bits as int, height as int - 1);
        lemma_round_range(bb.bits as int, height as int - 1);
    }
    let lo_x: usize = lb.round_i64() as usize;
    let hi_x: usize = rb.round_i64() as usize;
    let lo_y: usize = bb.round_i64() as usize;
    let hi_y: usize = tb.round_i64() as usize;
    let mut i: usize = lo_x;
    while i <= hi_x
        invariant
            rasterizer.wf(),
            triangle.wf(),
            t == *triangle,
            1 <= width <= 16384,
            1 <= height <= 16384,
            img0.len() == width * height * 4,
            zb0.len() == width * height,
            image@.len() == img0.len(),
            zbuf@.len() == zb0.len(),
            triangle.render == RenderType::TEXTURE ==> textures@.len() >= 1 && textures@[0].wf(),
            lo_x as int == fx_round_bits(box_l_bits(t, width as int)),
            hi_x as int == fx_round_bits(box_r_bits(t, width as int)),
            lo_y as int == fx_round_bits(box_b_bits(t, height as int)),
            hi_y as int == fx_round_bits(box_t_bits(t, height as int)),
            lo_x <= i,
            i <= hi_x + 1,
            hi_x < width,
            hi_y < height,
            forall|x: int, y: int| 0 <= x < width && 0 <= y < height && lo_x <= x < i && lo_y <= y <= hi_y
                ==> pix_of(image@, zbuf@, width as int, x, y) == ee_pixel_upd(
                    t, rasterizer.lights@, rasterizer.eye_pos.v@, textures@,
                    width as int, height as int, x, y,
                    pix_of(img0, zb0, width as int, x, y),
                ),
            forall|x: int, y: int| 0 <= x < width && 0 <= y < height && !(lo_x <= x < i && lo_y <= y <= hi_y)
                ==> pix_of(image@, zbuf@, width as int, x, y) == pix_of(img0, zb0, width as int, x, y),
        decreases hi_x + 1 - i,
    {
        let mut j: usize = lo_y;
        while j <= hi_y
            invariant
                rasterizer.wf(),
                triangle.wf(),
                t == *triangle,
                1 <= width <= 16384,
                1 <= height <= 16384,
                img0.len() == width * height * 4,
                zb0.len() == width * height,
                image@.len() == img0.len(),
                zbuf@.len() == zb0.len(),
                triangle.render == RenderType::TEXTURE ==> textures@.len() >= 1 && textures@[0].wf(),
                lo_x as int == fx_round_bits(box_l_bits(t, width as int)),
                hi_x as int == fx_round_bits(box_r_bits(t, width as int)),
                lo_y as int == fx_round_bits(box_b_bits(t, height as int)),
                hi_y as int == fx_round_bits(box_t_bits(t, height as int)),
                lo_x <= i <= hi_x,
                lo_y <= j,
                j <= hi_y + 1,
                hi_x < width,
                hi_y < height,
                forall|x: int, y: int| 0 <= x < width && 0 <= y < height
                    && ((lo_x <= x < i && lo_y <= y <= hi_y) || (x == i && lo_y <= y < j))
                    ==> pix_of(image@, zbuf@, width as int, x, y) == ee_pixel_upd(
                        t, rasterizer.lights@, rasterizer.eye_pos.v@, textures@,
                        width as int, height as int, x, y,
                        pix_of(img0, zb0, width as int, x, y),
                    ),
                forall|x: int, y: int| 0 <= x < width && 0 <= y < height
                    && !((lo_x <= x < i && lo_y <= y <= hi_y) || (x == i && lo_y <= y < j))
                    ==> pix_of(image@, zbuf@, width as int, x, y) == pix_of(img0, zb0, width as int, x, y),
            decreases hi_y + 1 - j,
        {
            let ghost img_pre = image@;
            let ghost zb_pre = zbuf@;
            fill_pixel(image, rasterizer, zbuf, width, height, triangle, textures, i, j);
            proof {
                let wi = width as int;
                let hi = height as int;
                let idx1 = (j as int) * wi + i as int;
                assert forall|x: int, y: int| 0 <= x < width && 0 <= y < height && !(x == i as int && y == j as int)
                    implies pix_of(image@, zbuf@, width as int, x, y) == pix_of(img_pre, zb_pre, width as int, x, y) by {
                    lemma_pixel_index_injective(wi, x, y, i as int, j as int);
                    let idx2 = y * wi + x;
                    assert(0 <= y * wi + x && y * wi + x < wi * hi) by (nonlinear_arith)
                        requires
                            0 <= x < wi,
                            0 <= y < hi,
                    ;
                    assert(idx2 != idx1);
                    assert(zbuf@[idx2] == zb_pre[idx2]);
                    assert(4 * idx2 + 3 < 4 * idx1 || 4 * idx2 >= 4 * idx1 + 4);
                    assert(image@[4 * idx2] == img_pre[4 * idx2]);
                    assert(image@[4 * idx2 + 1] == img_pre[4 * idx2 + 1]);
                    assert(image@[4 * idx2 + 2] == img_pre[4 * idx2 + 2]);
                    assert(image@[4 * idx2 + 3] == img_pre[4 * idx2 + 3]);
                }
                assert(pix_of(img_pre, zb_pre, wi, i as int, j as int)
                    == pix_of(img0, zb0, wi, i as int, j as int));
                assert forall|x: int, y: int| 0 <= x < width && 0 <= y < height
                    && ((lo_x <= x < i && lo_y <= y <= hi_y) || (x == i as int && lo_y <= y <= j))
                    implies pix_of(image@, zbuf@, width as int, x, y) == ee_pixel_upd(
                        t, rasterizer.lights@, rasterizer.eye_pos.v@, textures@,
                        wi, hi, x, y,
                        pix_of(img0, zb0, wi, x, y),
                    ) by {
                    if x == i as int && y == j as int {
                        assert(pix_of(image@, zbuf@, wi, x, y) == ee_pixel_upd(
                            t, rasterizer.lights@, rasterizer.eye_pos.v@, textures@,
                            wi, hi, x, y,
                            pix_of(img_pre, zb_pre, wi, x, y),
                        ));
                    } else {
                        assert(pix_of(img_pre, zb_pre, wi, x, y) == ee_pixel_upd(
                            t, rasterizer.lights@, rasterizer.eye_pos.v@, textures@,
                            wi, hi, x, y,
                            pix_of(img0, zb0, wi, x, y),
                        ));
                        assert(pix_of(image@, zbuf@, wi, x, y) == pix_of(img_pre, zb_pre, wi, x, y));
                    }
                }
                assert forall|x: int, y: int| 0 <= x < width && 0 <= y < height
                    && !((lo_x <= x < i && lo_y <= y <= hi_y) || (x == i as int && lo_y <= y <= j))
                    implies pix_of(image@, zbuf@, width as int, x, y) == pix_of(img0, zb0, wi, x, y) by {
                    assert(pix_of(img_pre, zb_pre, wi, x, y) == pix_of(img0, zb0, wi, x, y));
                    assert(pix_of(image@, zbuf@, wi, x, y) == pix_of(img_pre, zb_pre, wi, x, y));
                }
            }
            j = j + 1;
        }
        i = i + 1;
    }
    proof {
        assert forall|x: int, y: int| 0 <= x < width && 0 <= y < height
            implies pix_of(image@, zbuf@, width as int, x, y) == ee_pixel_upd(
                t, rasterizer.lights@, rasterizer.eye_pos.v@, textures@,
                width as int, height as int, x, y,
                pix_of(img0, zb0, width as int, x, y),
            ) by {
            if !(lo_x <= x <= hi_x as int && lo_y <= y <= hi_y as int) {
                reveal(ee_pixel_upd);
                assert(!in_box(t, width as int, height as int, x, y));
            }
        }
    }
}

/// Rounding a clamped coordinate keeps it within the pixel range.
pub proof fn lemma_round_range(a: int, k: int)
    requires
        0 <= a <= k * 65536,
        0 <= k,
    ensures
        0 <= fx_round_bits(a) <= k,
{
    vstd::arithmetic::div_mod::lemma_div_pos_is_pos(a + 32768, 65536);
    vstd::arithmetic::div_mod::lemma_div_is_ordered(a + 32768, k * 65536 + 32768, 65536);
    assert((65536 * k + 32768) / 65536 == k) by {
        vstd::arithmetic::div_mod::lemma_div_multiples_vanish_fancy(k, 32768, 65536);
    }
    assert(k * 65536 + 32768 == 65536 * k + 32768) by (nonlinear_arith);
}


/// The denominator of the first barycentric weight.
pub open spec fn bary_den_alpha(t: Triangle) -> int {
    fx_add_bits(
        fx_mul_bits(fx_sub_bits(sx(t, 0), sx(t, 1)), fx_sub_bits(sy(t, 1), sy(t, 2))),
        fx_mul_bits(fx_sub_bits(sy(t, 0), sy(t, 1)), fx_sub_bits(sx(t, 2), sx(t, 1))),
    )
}

/// The denominator of the second barycentric weight.
pub open spec fn bary_den_beta(t: Triangle) -> int {
    fx_add_bits(
        fx_mul_bits(fx_sub_bits(sx(t, 1), sx(t, 2)), fx_sub_bits(sy(t, 2), sy(t, 0))),
        fx_mul_bits(fx_sub_bits(sy(t, 1), sy(t, 2)), fx_sub_bits(sx(t, 0), sx(t, 2))),
    )
}

/// The numerator of the first barycentric weight at `(x, y)`.
pub open spec fn bary_num_alpha(t: Triangle, x: int, y: int) -> int {
    fx_add_bits(
        fx_mul_bits(fx_sub_bits(x, sx(t, 1)), fx_sub_bits(sy(t, 1), sy(t, 2))),
        fx_mul_bits(fx_sub_bits(y, sy(t, 1)), fx_sub_bits(sx(t, 2), sx(t, 1))),
    )
}

/// The numerator of the second barycentric weight at `(x, y)`.
pub open spec fn bary_num_beta(t: Triangle, x: int, y: int) -> int {
    fx_add_bits(
        fx_mul_bits(fx_sub_bits(x, sx(t, 2)), fx_sub_bits(sy(t, 2), sy(t, 0))),
        fx_mul_bits(fx_sub_bits(y, sy(t, 2)), fx_sub_bits(sx(t, 0), sx(t, 2))),
    )
}

/// A quotient of a nonnegative fraction at most one stays in `[0, 1]`.
proof fn lemma_div_frac_range(n: int, d: int)
    requires
        0 < d,
        0 <= n <= d,
    ensures
        fx_div_bits(n, d) == (n * 65536) / d,
        0 <= fx_div_bits(n, d) <= FX_ONE,
        fx_div_bits(n, d) * d <= n * 65536,
{
    assert(0 <= n * 65536 && n * 65536 <= d * 65536) by (nonlinear_arith)
        requires 0 <= n <= d;
    assert(crate::fixed::iabs(n * 65536) == n * 65536);
    let q = (n * 65536) / d;
    vstd::arithmetic::div_mod::lemma_div_pos_is_pos(n * 65536, d);
    vstd::arithmetic::div_mod::lemma_div_is_ordered(n * 65536, d * 65536, d);
    assert((d * 65536) / d == 65536) by {
        assert(d * 65536 == 65536 * d) by (nonlinear_arith);
        vstd::arithmetic::div_mod::lemma_div_multiples_vanish(65536, d);
    }
    assert(crate::fixed::tdiv(n * 65536, d) == q);
    vstd::arithmetic::div_mod::lemma_fundamental_div_mod(n * 65536, d);
    vstd::arithmetic::div_mod::lemma_mod_bound(n * 65536, d);
    assert(q * d <= n * 65536) by (nonlinear_arith)
        requires
            n * 65536 == d * q + (n * 65536) % d,
            0 <= (n * 65536) % d,
    ;
}

/// Inside the triangle all three barycentric weights lie in `[0, 1]`:
/// wherever the fixed-point numerators lie between zero and their
/// denominators and the exact weights sum to at most one, the computed
/// `alpha`, `beta` and `gamma` all fall within `[0, 1]`.
pub proof fn lemma_barycentric_weights_in_range(t: Triangle, x: int, y: int)
    requires
        0 < bary_den_alpha(t),
        0 < bary_den_beta(t),
        0 <= bary_num_alpha(t, x, y) <= bary_den_alpha(t),
        0 <= bary_num_beta(t, x, y) <= bary_den_beta(t),
        bary_num_alpha(t, x, y) * bary_den_beta(t) + bary_num_beta(t, x, y) * bary_den_alpha(t)
            <= bary_den_alpha(t) * bary_den_beta(t),
    ensures
        0 <= bary_alpha_bits(t, x, y) <= FX_ONE,
        0 <= bary_beta_bits(t, x, y) <= FX_ONE,
        0 <= bary_gamma_bits(t, x, y) <= FX_ONE,
{
    let na = bary_num_alpha(t, x, y);
    let da = bary_den_alpha(t);
    let nb = bary_num_beta(t, x, y);
    let db = bary_den_beta(t);
    assert(bary_alpha_bits(t, x, y) == fx_div_bits(na, da));
    assert(bary_beta_bits(t, x, y) == fx_div_bits(nb, db));
    lemma_div_frac_range(na, da);
    lemma_div_frac_range(nb, db);
    let al = fx_div_bits(na, da);
    let be = fx_div_bits(nb, db);
    assert(al + be <= 65536) by (nonlinear_arith)
        requires
            al * da <= na * 65536,
            be * db <= nb * 65536,
            na * db + nb * da <= da * db,
            0 < da,
            0 < db,
            0 <= al,
            0 <= be,
    ;
    assert(bary_gamma_bits(t, x, y) == 65536 - al - be);
}

/// The two opposite cross terms of a barycentric numerator cancel:
/// `(a*b)/s + ((-b)*a)/s == 0` exactly, within saturation-free bounds.
proof fn lemma_cross_cancel(a: int, b: int)
    requires
        crate::fixed::iabs(a) <= 0x80000000,
        crate::fixed::iabs(b) <= 0x80000000,
    ensures
        fx_add_bits(fx_mul_bits(a, b), fx_mul_bits(-b, a)) == 0,
{
    assert((-b) * a == -(a * b)) by (nonlinear_arith);
    crate::fixed::lemma_tdiv_neg_num(a * b, FX_ONE as int);
    assert(-0x4000000000000000 <= a * b <= 0x4000000000000000) by (nonlinear_arith)
        requires
            -0x80000000 <= a <= 0x80000000,
            -0x80000000 <= b <= 0x80000000,
    ;
    let q = crate::fixed::tdiv(a * b, FX_ONE as int);
    assert(crate::fixed::iabs(q) <= crate::fixed::iabs(a * b)) by {
        vstd::arithmetic::div_mod::lemma_div_nonincreasing(crate::fixed::iabs(a * b), FX_ONE as int);
    }
    assert(fx_mul_bits(a, b) == q);
    assert(fx_mul_bits(-b, a) == -q);
}

/// At a triangle's own vertices the barycentric weights are exactly
/// `(1, 0, 0)`, `(0, 1, 0)` and `(0, 0, 1)`, for any nondegenerate
/// triangle whose screen coordinates stay within a safe range.
pub proof fn lemma_barycentric_at_vertices(t: Triangle)
    requires
        t.wf(),
        forall|k: int| 0 <= k < 3 ==> crate::fixed::iabs(#[trigger] sx(t, k)) <= 0x40000000,
        forall|k: int| 0 <= k < 3 ==> crate::fixed::iabs(#[trigger] sy(t, k)) <= 0x40000000,
        bary_den_alpha(t) != 0,
        bary_den_beta(t) != 0,
    ensures
        bary_alpha_bits(t, sx(t, 0), sy(t, 0)) == FX_ONE as int,
        bary_beta_bits(t, sx(t, 0), sy(t, 0)) == 0,
        bary_gamma_bits(t, sx(t, 0), sy(t, 0)) == 0,
        bary_alpha_bits(t, sx(t, 1), sy(t, 1)) == 0,
        bary_beta_bits(t, sx(t, 1), sy(t, 1)) == FX_ONE as int,
        bary_gamma_bits(t, sx(t, 1), sy(t, 1)) == 0,
        bary_alpha_bits(t, sx(t, 2), sy(t, 2)) == 0,
        bary_beta_bits(t, sx(t, 2), sy(t, 2)) == 0,
        bary_gamma_bits(t, sx(t, 2), sy(t, 2)) == FX_ONE as int,
{
    let x0 = sx(t, 0);
    let y0 = sy(t, 0);
    let x1 = sx(t, 1);
    let y1 = sy(t, 1);
    let x2 = sx(t, 2);
    let y2 = sy(t, 2);
    crate::fixed::lemma_fx_div_self(bary_den_alpha(t));
    crate::fixed::lemma_fx_div_self(bary_den_beta(t));

    // vertex 0: alpha's numerator is its denominator, beta's cancels
    assert(bary_alpha_bits(t, x0, y0) == fx_div_bits(bary_den_alpha(t), bary_den_alpha(t)));
    lemma_cross_cancel(fx_sub_bits(x0, x2), fx_sub_bits(y2, y0));
    assert(fx_sub_bits(y0, y2) == -fx_sub_bits(y2, y0));
    assert(bary_beta_bits(t, x0, y0) == fx_div_bits(0, bary_den_beta(t)));
    assert(fx_div_bits(0, bary_den_beta(t)) == 0);

    // vertex 1: alpha's numerator cancels to zero, beta's is its denominator
    assert(fx_sub_bits(x1, x1) == 0 && fx_sub_bits(y1, y1) == 0);
    assert(fx_mul_bits(0, fx_sub_bits(y1, y2)) == 0);
    assert(fx_mul_bits(0, fx_sub_bits(x2, x1)) == 0);
    assert(bary_alpha_bits(t, x1, y1) == fx_div_bits(0, bary_den_alpha(t)));
    assert(fx_div_bits(0, bary_den_alpha(t)) == 0);
    assert(bary_beta_bits(t, x1, y1) == fx_div_bits(bary_den_beta(t), bary_den_beta(t)));

    // vertex 2: both numerators vanish
    lemma_cross_cancel(fx_sub_bits(x2, x1), fx_sub_bits(y1, y2));
    assert(fx_sub_bits(y2, y1) == -fx_sub_bits(y1, y2));
    assert(bary_alpha_bits(t, x2, y2) == fx_div_bits(0, bary_den_alpha(t)));
    assert(fx_sub_bits(x2, x2) == 0 && fx_sub_bits(y2, y2) == 0);
    assert(fx_mul_bits(0, fx_sub_bits(y2, y0)) == 0);
    assert(fx_mul_bits(0, fx_sub_bits(x0, x2)) == 0);
    assert(bary_beta_bits(t, x2, y2) == fx_div_bits(0, bary_den_beta(t)));
}

/// The three barycentric weights of any point sum to exactly one, as
/// long as the two computed weights stay within a saturation-free
/// range.
pub proof fn lemma_barycentric_sum(t: Triangle, x: int, y: int)
    requires
        crate::fixed::iabs(bary_alpha_bits(t, x, y)) <= 0x1000000000000000,
        crate::fixed::iabs(bary_beta_bits(t, x, y)) <= 0x1000000000000000,
    ensures
        fx_add_bits(
            fx_add_bits(bary_alpha_bits(t, x, y), bary_beta_bits(t, x, y)),
            bary_gamma_bits(t, x, y),
        ) == FX_ONE as int,
{
}

/// With full coverage the flat blend ignores the old byte.
proof fn lemma_flat_chan_full(t: Triangle, i: int, j: int, b1: int, b2: int, c: int)
    ensures
        flat_chan_bits(t, i, j, b1, 4, c) == flat_chan_bits(t, i, j, b2, 4, c),
{
    reveal(flat_chan_bits);
    assert(fx_mul_bits(unit_byte(b1), 0) == 0);
    assert(fx_mul_bits(unit_byte(b2), 0) == 0);
}

/// Refilling a pixel from the same triangle cannot change it: the
/// edge-equation update is idempotent wherever the flat path blends
/// with full or empty coverage (a partly covered flat pixel re-blends
/// against its own output) and everywhere on the textured path.
#[verifier::rlimit(100)]
pub proof fn lemma_ee_pixel_idempotent(
    t: Triangle,
    lights: Seq<Light>,
    eye: Seq<Fx>,
    textures: Seq<Texture>,
    w: int,
    h: int,
    i: int,
    j: int,
    p: (int, int, int, int, int),
)
    requires
        t.render == RenderType::COLOR ==> flat_acc(t, i, j).0 == 0 || flat_acc(t, i, j).0 == 4,
    ensures
        ee_pixel_upd(t, lights, eye, textures, w, h, i, j,
            ee_pixel_upd(t, lights, eye, textures, w, h, i, j, p))
            == ee_pixel_upd(t, lights, eye, textures, w, h, i, j, p),
{
    reveal(ee_pixel_upd);
    let p1 = ee_pixel_upd(t, lights, eye, textures, w, h, i, j, p);
    if in_box(t, w, h, i, j) && t.render == RenderType::COLOR {
        let acc = flat_acc(t, i, j);
        if acc.0 == 4 && acc.1 >= p.4 {
            lemma_flat_chan_full(t, i, j, p1.0, p.0, 2);
            lemma_flat_chan_full(t, i, j, p1.1, p.1, 1);
            lemma_flat_chan_full(t, i, j, p1.2, p.2, 0);
        }
    }
}

} // verus!
