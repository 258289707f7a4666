use softrender::fixed::{Fx, FX_ONE};
use softrender::vector::Vector;
use softrender::matrix::Matrix;
use softrender::utils::clamp;
use softrender::rasterizer::{
    Rasterizer, get_model_matrix, get_view_matrix, get_view_port, get_ortho_projection_matrix,
    get_presp_projection_matrix, sin_deg, cos_deg,
};
use softrender::texture::Texture;
use softrender::light::{Light, compute_light};

fn fxi(v: i64) -> Fx {
    Fx::from_int(v)
}

#[test]
fn fixed_point_basics() {
    assert_eq!(fxi(3).add(fxi(4)).bits, 7 * FX_ONE);
    assert_eq!(fxi(3).sub(fxi(4)).bits, -FX_ONE);
    assert_eq!(fxi(3).mul(fxi(4)).bits, 12 * FX_ONE);
    assert_eq!(fxi(12).div(fxi(4)).bits, 3 * FX_ONE);
    assert_eq!(fxi(5).div(Fx::zero()).bits, 0);
    assert_eq!(fxi(9).sqrt().bits, 3 * FX_ONE);
    assert_eq!(Fx::from_bits(FX_ONE / 2).round_i64(), 1);
    assert_eq!(Fx::from_bits(-FX_ONE / 2).round_i64(), -1);
    assert_eq!(Fx::from_bits(FX_ONE + 1).trunc_i64(), 1);
    assert_eq!(Fx::from_bits(-FX_ONE - 1).trunc_i64(), -1);
    assert_eq!(Fx::from_bits(-1).floor_i64(), -1);
    assert_eq!(Fx::from_bits(1).floor_i64(), 0);
}

#[test]
fn clamp_orders_bounds() {
    assert_eq!(clamp(fxi(5), fxi(0), fxi(3)).bits, 3 * FX_ONE);
    assert_eq!(clamp(fxi(-5), fxi(0), fxi(3)).bits, 0);
    assert_eq!(clamp(fxi(2), fxi(0), fxi(3)).bits, 2 * FX_ONE);
}

#[test]
fn normalized_vector_has_unit_length() {
    // an axis-aligned vector normalizes exactly
    let mut a = Vector::new_3(fxi(2), Fx::zero(), Fx::zero());
    a.normlize();
    assert_eq!(a.length().bits, FX_ONE);

    // a general vector normalizes to within a few fixed-point bits of one
    let mut b = Vector::new_3(fxi(3), fxi(4), Fx::zero());
    assert_eq!(b.length().bits, 5 * FX_ONE);
    b.normlize();
    let l = b.length().bits;
    assert!((l - FX_ONE).abs() <= 8, "length {} not close to one", l);

    let mut c = Vector::new_3(fxi(1), fxi(7), fxi(-4));
    c.normlize();
    let l = c.length().bits;
    assert!((l - FX_ONE).abs() <= 8, "length {} not close to one", l);
}

#[test]
fn dot_and_cross_products() {
    let a = Vector::new_3(fxi(1), fxi(2), fxi(3));
    let b = Vector::new_3(fxi(4), fxi(-5), fxi(6));
    assert_eq!(a.dot_product(&b).bits, (4 - 10 + 18) * FX_ONE);

    let x = Vector::new_4(fxi(1), Fx::zero(), Fx::zero(), Fx::one());
    let y = Vector::new_4(Fx::zero(), fxi(1), Fx::zero(), Fx::one());
    let z = x.cross_product(&y);
    assert_eq!(z.x().bits, 0);
    assert_eq!(z.y().bits, 0);
    assert_eq!(z.z().bits, FX_ONE);
    assert_eq!(z.w().bits, FX_ONE);
}

#[test]
fn perspective_divide_is_idempotent() {
    let mut v = Vector::new_4(fxi(2), fxi(4), fxi(6), fxi(2));
    v.divide_w();
    assert_eq!(v.x().bits, FX_ONE);
    assert_eq!(v.y().bits, 2 * FX_ONE);
    assert_eq!(v.z().bits, 3 * FX_ONE);
    assert_eq!(v.w().bits, FX_ONE);
    let before = (v.x().bits, v.y().bits, v.z().bits, v.w().bits);
    v.divide_w();
    let after = (v.x().bits, v.y().bits, v.z().bits, v.w().bits);
    assert_eq!(before, after);
}

#[test]
fn identity_matrix_preserves_vectors() {
    let m = Matrix::identity();
    let v = Vector::new_4(fxi(7), fxi(-3), fxi(2), fxi(1));
    let r = m.apply(&v);
    assert_eq!(r.x().bits, 7 * FX_ONE);
    assert_eq!(r.y().bits, -3 * FX_ONE);
    assert_eq!(r.z().bits, 2 * FX_ONE);
    assert_eq!(r.w().bits, FX_ONE);
}

fn diag(a: i64, b: i64, c: i64, d: i64) -> Matrix {
    let z = Fx::zero();
    let mut rows = Vec::new();
    rows.push(vec![fxi(a), z, z, z]);
    rows.push(vec![z, fxi(b), z, z]);
    rows.push(vec![z, z, fxi(c), z]);
    rows.push(vec![z, z, z, fxi(d)]);
    Matrix::new_val(rows)
}

#[test]
fn matrix_product_matches_by_hand() {
    let a = diag(2, 3, 4, 1);
    let b = diag(5, 6, 7, 1);
    let p = a.mul(&b);
    assert_eq!(p.m[0][0].bits, 10 * FX_ONE);
    assert_eq!(p.m[1][1].bits, 18 * FX_ONE);
    assert_eq!(p.m[2][2].bits, 28 * FX_ONE);
    assert_eq!(p.m[3][3].bits, FX_ONE);
    assert_eq!(p.m[0][1].bits, 0);
}

#[test]
fn mvp_is_projection_view_model_exactly() {
    let p = get_presp_projection_matrix(fxi(60), Fx::one(), Fx::from_bits(-6554), fxi(-50));
    let v = get_view_matrix(
        Vector::new_4(Fx::zero(), Fx::zero(), fxi(2), Fx::one()),
        Vector::new_4(Fx::zero(), Fx::zero(), Fx::zero(), Fx::one()),
        Vector::new_4(Fx::zero(), Fx::one(), Fx::zero(), Fx::one()),
    );
    let m1 = get_model_matrix(fxi(30));
    let m2 = get_model_matrix(fxi(75));

    let mut ras = Rasterizer::new();
    ras.set_projection(p);
    ras.set_view(v);
    ras.set_model(m1);
    ras.compute_mvp();

    // MVP == P * V * M, entry for entry
    let pv1 = ras.projection.mul(&ras.view);
    let expect1 = pv1.mul(&ras.model);
    for i in 0..4 {
        for j in 0..4 {
            assert_eq!(ras.mvp.m[i][j].bits, expect1.m[i][j].bits);
        }
    }

    // changing only the model and recomputing leaves P * V unaffected
    ras.set_model(m2);
    ras.compute_mvp();
    let pv2 = ras.projection.mul(&ras.view);
    for i in 0..4 {
        for j in 0..4 {
            assert_eq!(pv1.m[i][j].bits, pv2.m[i][j].bits);
        }
    }
    let expect2 = pv2.mul(&ras.model);
    for i in 0..4 {
        for j in 0..4 {
            assert_eq!(ras.mvp.m[i][j].bits, expect2.m[i][j].bits);
        }
    }
}

#[test]
fn model_matrix_at_zero_angle_is_identity() {
    let m = get_model_matrix(Fx::zero());
    for i in 0..4 {
        for j in 0..4 {
            let want = if i == j { FX_ONE } else { 0 };
            assert_eq!(m.m[i][j].bits, want, "entry {} {}", i, j);
        }
    }
}

#[test]
fn trig_close_to_reference_values() {
    assert_eq!(sin_deg(Fx::zero()).bits, 0);
    assert_eq!(cos_deg(Fx::zero()).bits, FX_ONE);
    assert_eq!(sin_deg(fxi(90)).bits, FX_ONE);
    let s30 = sin_deg(fxi(30)).bits;
    assert!((s30 - FX_ONE / 2).abs() <= 32, "sin 30 deg was {}", s30);
    let c60 = cos_deg(fxi(60)).bits;
    assert!((c60 - FX_ONE / 2).abs() <= 32, "cos 60 deg was {}", c60);
    let sneg = sin_deg(fxi(-90)).bits;
    assert_eq!(sneg, -FX_ONE);
}

#[test]
fn view_port_scales_and_flips() {
    let m = get_view_port(fxi(512), fxi(512));
    assert_eq!(m.m[0][0].bits, 256 * FX_ONE);
    assert_eq!(m.m[0][3].bits, 256 * FX_ONE);
    assert_eq!(m.m[1][1].bits, -256 * FX_ONE);
    assert_eq!(m.m[1][3].bits, 256 * FX_ONE);
    assert_eq!(m.m[2][2].bits, FX_ONE);
    assert_eq!(m.m[3][3].bits, FX_ONE);
}

#[test]
fn ortho_projection_maps_box_to_cube() {
    let m = get_ortho_projection_matrix(fxi(-2), fxi(2), fxi(2), fxi(-2), fxi(-1), fxi(-3));
    // scale 2/(r-l) = 0.5 on x, 0.5 on y, 2/(n-f) = 1 on z
    assert_eq!(m.m[0][0].bits, FX_ONE / 2);
    assert_eq!(m.m[1][1].bits, FX_ONE / 2);
    assert_eq!(m.m[2][2].bits, FX_ONE);
    // translation moves the box center (0, 0, -2) to the origin
    assert_eq!(m.m[0][3].bits, 0);
    assert_eq!(m.m[1][3].bits, 0);
    assert_eq!(m.m[2][3].bits, 2 * FX_ONE);
}

#[test]
fn texture_sampling_hits_the_corners() {
    // 2x2 RGBA grid with distinct corner colors
    let pixels = vec![
        255, 0, 0, 255, /* top left red */
        0, 255, 0, 255, /* top right green */
        0, 0, 255, 255, /* bottom left blue */
        255, 255, 0, 255, /* bottom right yellow */
    ];
    let t = Texture::new(0, pixels, 2, 2);
    assert_eq!(t.get_color(Fx::zero(), Fx::zero()), (255, 0, 0));
    let almost = Fx::from_bits(64881);  // 0.99
    assert_eq!(t.get_color(almost, almost), (255, 255, 0));
    // out-of-range coordinates clamp into the grid
    assert_eq!(t.get_color(fxi(-1), fxi(4)), (0, 0, 255));
}

#[test]
fn lighting_falls_off_with_inverse_square() {
    // fragment at the origin, normal and eye on the +z axis, no ambient
    let pos = Vector::new_3(Fx::zero(), Fx::zero(), Fx::zero());
    let normal = Vector::new_3(Fx::zero(), Fx::zero(), Fx::one());
    let eye = Vector::new_3(Fx::zero(), Fx::zero(), fxi(1));
    let ka = Vector::new_3(Fx::zero(), Fx::zero(), Fx::zero());
    let kd = Vector::new_3(Fx::one(), Fx::one(), Fx::one());
    let ks = Vector::new_3(Fx::one(), Fx::one(), Fx::one());

    let near_light = vec![Light::new(
        Vector::new_3(Fx::zero(), Fx::zero(), fxi(1)),
        Vector::new_3(fxi(400), fxi(400), fxi(400)),
    )];
    let far_light = vec![Light::new(
        Vector::new_3(Fx::zero(), Fx::zero(), fxi(2)),
        Vector::new_3(fxi(400), fxi(400), fxi(400)),
    )];

    let r1 = compute_light(&pos, &normal, &near_light, &ka, &kd, &ks, &eye);
    let r2 = compute_light(&pos, &normal, &far_light, &ka, &kd, &ks, &eye);
    for c in 0..3 {
        assert_eq!(r1.v[c].bits, 4 * r2.v[c].bits, "channel {}", c);
    }
    // and the near light's diffuse+specular is exactly 2 * 400
    assert_eq!(r1.v[0].bits, 800 * FX_ONE);
}

#[test]
fn view_matrix_moves_the_eye_to_the_origin() {
    // an off-axis camera: the translation column must cancel the
    // projected eye exactly
    let v = get_view_matrix(
        Vector::new_4(fxi(2), Fx::zero(), Fx::zero(), Fx::one()),
        Vector::new_4(Fx::zero(), Fx::zero(), Fx::zero(), Fx::one()),
        Vector::new_4(Fx::zero(), Fx::one(), Fx::zero(), Fx::one()),
    );
    let r = v.apply(&Vector::new_4(fxi(2), Fx::zero(), Fx::zero(), Fx::one()));
    assert_eq!((r.x().bits, r.y().bits, r.z().bits, r.w().bits), (0, 0, 0, FX_ONE));

    // and the axis-aligned camera of the render loop
    let v2 = get_view_matrix(
        Vector::new_4(Fx::zero(), Fx::zero(), fxi(2), Fx::one()),
        Vector::new_4(Fx::zero(), Fx::zero(), Fx::zero(), Fx::one()),
        Vector::new_4(Fx::zero(), Fx::one(), Fx::zero(), Fx::one()),
    );
    let r2 = v2.apply(&Vector::new_4(Fx::zero(), Fx::zero(), fxi(2), Fx::one()));
    assert_eq!((r2.x().bits, r2.y().bits, r2.z().bits, r2.w().bits), (0, 0, 0, FX_ONE));
}
