use softrender::fixed::{Fx, FX_ONE};
use softrender::vector::Vector;
use softrender::triangle::{Triangle, RenderType, vertex_interp};
use softrender::rasterizer::{Rasterizer, RenderResult, merge_results, draw_trangle, draw_trangle_map};
use softrender::edge_equation::{draw_trangle_edge_equation, compute_barycentric_2d, inside_triangle};
use softrender::edge_walking::{trapezoid_init, draw_trangle_edge_walking};
use softrender::texture::Texture;

fn fxi(v: i64) -> Fx {
    Fx::from_int(v)
}

/// A flat-color screen-space triangle with the given vertices (w = 1).
fn screen_triangle(p: [(i64, i64); 3], z: Fx, color: (Fx, Fx, Fx)) -> Triangle {
    let mut t = Triangle::new();
    t.set_vertexs(vec![
        Vector::new_4(fxi(p[0].0), fxi(p[0].1), z, Fx::one()),
        Vector::new_4(fxi(p[1].0), fxi(p[1].1), z, Fx::one()),
        Vector::new_4(fxi(p[2].0), fxi(p[2].1), z, Fx::one()),
    ]);
    t.set_colors(vec![
        Vector::new_3(color.0, color.1, color.2),
        Vector::new_3(color.0, color.1, color.2),
        Vector::new_3(color.0, color.1, color.2),
    ]);
    t
}

fn black_buffers(width: usize, height: usize, depth: Fx) -> (Vec<u8>, Vec<Fx>) {
    (vec![0u8; width * height * 4], vec![depth; width * height])
}

#[test]
fn barycentric_weights_at_vertices() {
    let t = screen_triangle([(10, 10), (20, 10), (10, 20)], Fx::from_bits(32768), (Fx::one(), Fx::zero(), Fx::zero()));
    let (a, b, c) = compute_barycentric_2d(fxi(10), fxi(10), &t);
    assert_eq!((a.bits, b.bits, c.bits), (FX_ONE, 0, 0));
    let (a, b, c) = compute_barycentric_2d(fxi(20), fxi(10), &t);
    assert_eq!((a.bits, b.bits, c.bits), (0, FX_ONE, 0));
    let (a, b, c) = compute_barycentric_2d(fxi(10), fxi(20), &t);
    assert_eq!((a.bits, b.bits, c.bits), (0, 0, FX_ONE));
    // at an interior point the three weights sum to one
    let (a, b, c) = compute_barycentric_2d(fxi(12), fxi(12), &t);
    assert_eq!(a.bits + b.bits + c.bits, FX_ONE);
    assert!(inside_triangle(fxi(12), fxi(12), &t.vertexs[0].v, &t.vertexs[1].v, &t.vertexs[2].v));
}

#[test]
fn set_vertexs_records_reciprocal_weight() {
    let mut t = Triangle::new();
    t.set_vertexs(vec![
        Vector::new_4(fxi(2), fxi(4), fxi(6), fxi(2)),
        Vector::new_4(fxi(1), fxi(1), fxi(1), fxi(1)),
        Vector::new_4(fxi(3), fxi(3), fxi(3), fxi(1)),
    ]);
    assert_eq!(t.vertexs[0].rhw.bits, FX_ONE / 2);
    assert_eq!(t.vertexs[0].v.x().bits, FX_ONE);
    assert_eq!(t.vertexs[0].v.w().bits, FX_ONE);
    assert_eq!(t.vertexs[1].rhw.bits, FX_ONE);
}

#[test]
fn vertex_interpolation_is_linear() {
    let mut t = Triangle::new();
    t.set_colors(vec![
        Vector::new_3(Fx::zero(), Fx::zero(), Fx::zero()),
        Vector::new_3(Fx::one(), Fx::one(), Fx::one()),
        Vector::new_3(Fx::zero(), Fx::zero(), Fx::zero()),
    ]);
    let mid = vertex_interp(&t.vertexs[0], &t.vertexs[1], Fx::from_bits(32768));
    assert_eq!(mid.color.r().bits, FX_ONE / 2);
}

#[test]
fn flat_triangle_fills_interior_pixels() {
    // the end-to-end scenario: a right triangle on a 32x32 black canvas
    let red = (Fx::one(), Fx::zero(), Fx::zero());
    let t = screen_triangle([(10, 10), (20, 10), (10, 20)], Fx::from_bits(32768), red);
    let ras = Rasterizer::new();
    let (mut image, mut zbuf) = black_buffers(32, 32, fxi(-100));
    let textures: Vec<Texture> = Vec::new();
    draw_trangle_edge_equation(&mut image, &ras, &mut zbuf, 32, 32, &t, &textures);

    // interior pixels are fully red and fully opaque
    for (x, y) in [(12usize, 12usize), (14, 12), (12, 14)] {
        let idx = (y * 32 + x) * 4;
        assert_eq!(image[idx], 0, "blue at {} {}", x, y);
        assert_eq!(image[idx + 1], 0, "green at {} {}", x, y);
        assert_eq!(image[idx + 2], 255, "red at {} {}", x, y);
        assert_eq!(image[idx + 3], 255, "alpha at {} {}", x, y);
    }
    // exterior pixels stay black and transparent
    for (x, y) in [(0usize, 0usize), (31, 31), (25, 25)] {
        let idx = (y * 32 + x) * 4;
        assert_eq!(&image[idx..idx + 4], &[0, 0, 0, 0], "pixel {} {}", x, y);
        assert_eq!(zbuf[y * 32 + x].bits, fxi(-100).bits);
    }
    // the depth buffer recorded the triangle's depth inside, up to the
    // truncation of the three barycentric products
    assert!((zbuf[12 * 32 + 12].bits - 32768).abs() <= 2);
}

#[test]
fn depth_test_keeps_the_nearer_surface() {
    let red = (Fx::one(), Fx::zero(), Fx::zero());
    let green = (Fx::zero(), Fx::one(), Fx::zero());
    let near = screen_triangle([(10, 10), (20, 10), (10, 20)], Fx::from_bits(32768), red);
    let far = screen_triangle([(10, 10), (20, 10), (10, 20)], Fx::from_bits(16384), green);
    let ras = Rasterizer::new();
    let textures: Vec<Texture> = Vec::new();
    let (mut image, mut zbuf) = black_buffers(32, 32, fxi(-100));
    draw_trangle_edge_equation(&mut image, &ras, &mut zbuf, 32, 32, &near, &textures);
    draw_trangle_edge_equation(&mut image, &ras, &mut zbuf, 32, 32, &far, &textures);
    // the farther (smaller z) triangle must not overwrite the nearer one
    let idx = (12 * 32 + 12) * 4;
    assert_eq!(image[idx + 2], 255);
    assert_eq!(image[idx + 1], 0);
}

#[test]
fn trapezoid_decomposition_covers_the_y_range() {
    // distinct y for all three vertices: exactly two trapezoids that
    // meet at the middle vertex with no gap or overlap
    let t = screen_triangle([(10, 10), (20, 15), (12, 30)], Fx::from_bits(32768), (Fx::one(), Fx::zero(), Fx::zero()));
    let traps = trapezoid_init(&t);
    assert_eq!(traps.len(), 2);
    assert_eq!(traps[0].t.bits, 10 * FX_ONE);
    assert_eq!(traps[0].b.bits, 15 * FX_ONE);
    assert_eq!(traps[1].t.bits, 15 * FX_ONE);
    assert_eq!(traps[1].b.bits, 30 * FX_ONE);
}

#[test]
fn trapezoid_decomposition_flat_edges_and_degenerate() {
    // a flat-top triangle gives one trapezoid over the full range
    let flat = screen_triangle([(10, 10), (20, 10), (10, 20)], Fx::from_bits(32768), (Fx::one(), Fx::zero(), Fx::zero()));
    let traps = trapezoid_init(&flat);
    assert_eq!(traps.len(), 1);
    assert_eq!(traps[0].t.bits, 10 * FX_ONE);
    assert_eq!(traps[0].b.bits, 20 * FX_ONE);

    // all three y equal: nothing to draw
    let line = screen_triangle([(10, 10), (20, 10), (15, 10)], Fx::from_bits(32768), (Fx::one(), Fx::zero(), Fx::zero()));
    assert_eq!(trapezoid_init(&line).len(), 0);

    // all three x equal: nothing to draw
    let vert = screen_triangle([(10, 10), (10, 20), (10, 30)], Fx::from_bits(32768), (Fx::one(), Fx::zero(), Fx::zero()));
    assert_eq!(trapezoid_init(&vert).len(), 0);
}

#[test]
fn edge_walking_fills_and_is_idempotent() {
    // drawing the same triangle twice with identical depth leaves the
    // buffers exactly as after the first draw
    let red = (Fx::one(), Fx::zero(), Fx::zero());
    let t = screen_triangle([(10, 10), (20, 10), (10, 20)], Fx::from_bits(32768), red);
    let ras = Rasterizer::new();
    let textures: Vec<Texture> = Vec::new();
    let (mut image, mut zbuf) = black_buffers(32, 32, fxi(-100));
    draw_trangle_edge_walking(&mut image, &ras, &mut zbuf, 32, 32, &t, &textures);

    let idx = (12 * 32 + 12) * 4;
    assert_eq!(image[idx + 2], 255);
    assert_eq!(image[idx + 3], 255);

    let image_once = image.clone();
    let zbuf_once: Vec<i64> = zbuf.iter().map(|z| z.bits).collect();
    draw_trangle_edge_walking(&mut image, &ras, &mut zbuf, 32, 32, &t, &textures);
    assert_eq!(image, image_once);
    let zbuf_twice: Vec<i64> = zbuf.iter().map(|z| z.bits).collect();
    assert_eq!(zbuf_twice, zbuf_once);
}

#[test]
fn textured_triangle_samples_the_texture() {
    // a solid white 1x1 texture colors every covered pixel white
    let pixels = vec![255u8, 255, 255, 255];
    let tex = Texture::new(0, pixels, 1, 1);
    let mut t = screen_triangle([(2, 2), (12, 2), (2, 12)], Fx::from_bits(32768), (Fx::zero(), Fx::zero(), Fx::zero()));
    t.set_render_type(RenderType::TEXTURE);
    t.set_tex_coords(vec![
        Vector::new_2(Fx::zero(), Fx::zero()),
        Vector::new_2(Fx::one(), Fx::zero()),
        Vector::new_2(Fx::zero(), Fx::one()),
    ]);
    let ras = Rasterizer::new();  // no lights: raw sample
    let (mut image, mut zbuf) = black_buffers(16, 16, fxi(-100));
    draw_trangle_edge_equation(&mut image, &ras, &mut zbuf, 16, 16, &t, &vec![tex]);
    let idx = (4 * 16 + 4) * 4;
    assert_eq!(&image[idx..idx + 4], &[255, 255, 255, 255]);
}

#[test]
fn merge_keeps_the_closest_result_per_pixel() {
    let (mut image, mut zbuf) = black_buffers(2, 2, fxi(-51));
    let results = vec![
        RenderResult { idx: 0, z: fxi(-3), r: 10, g: 20, b: 30 },
        RenderResult { idx: 0, z: fxi(-1), r: 40, g: 50, b: 60 },
        RenderResult { idx: 0, z: fxi(-2), r: 70, g: 80, b: 90 },
        RenderResult { idx: 3, z: fxi(-51), r: 1, g: 2, b: 3 },
    ];
    merge_results(&mut image, &mut zbuf, &results);
    // pixel 0 ends with the largest depth, written in arrival order
    assert_eq!(&image[0..4], &[60, 50, 40, 255]);
    assert_eq!(zbuf[0].bits, -FX_ONE);
    // a result exactly at the buffer depth does not land (strict test)
    assert_eq!(&image[12..16], &[0, 0, 0, 0]);
    assert_eq!(zbuf[3].bits, fxi(-51).bits);
}

#[test]
fn draw_trangle_transforms_and_rasterizes() {
    // identity matrices, so clip space equals model space; the viewport
    // maps ndc [-1, 1] onto the 8x8 canvas
    let mut ras = Rasterizer::new();
    ras.compute_mvp();
    let mut t = Triangle::new();
    t.set_origin_vertexs(vec![
        Vector::new_4(fxi(-1), fxi(1), Fx::zero(), Fx::one()),
        Vector::new_4(fxi(1), fxi(-1), Fx::zero(), Fx::one()),
        Vector::new_4(fxi(-1), fxi(-1), Fx::zero(), Fx::one()),
    ]);
    t.set_colors(vec![
        Vector::new_3(Fx::one(), Fx::one(), Fx::one()),
        Vector::new_3(Fx::one(), Fx::one(), Fx::one()),
        Vector::new_3(Fx::one(), Fx::one(), Fx::one()),
    ]);
    let (mut image, mut zbuf) = black_buffers(8, 8, fxi(-100));
    let textures: Vec<Texture> = Vec::new();
    draw_trangle(&ras, &mut image, &mut zbuf, Fx::from_bits(-6554), fxi(-50), 8, 8, &mut t, &textures);
    // the screen vertices are (0, 8), (8, 8), (0, 0): some pixel in the
    // lower-left half is covered
    let idx = (4 * 8 + 2) * 4;
    assert_eq!(image[idx + 3], 255);
    assert_eq!(image[idx + 2], 255);
}

#[test]
fn draw_trangle_map_collects_drawn_pixels() {
    let mut ras = Rasterizer::new();
    ras.compute_mvp();
    let mut t = Triangle::new();
    t.set_origin_vertexs(vec![
        Vector::new_4(fxi(-1), fxi(1), Fx::zero(), Fx::one()),
        Vector::new_4(fxi(1), fxi(-1), Fx::zero(), Fx::one()),
        Vector::new_4(fxi(-1), fxi(-1), Fx::zero(), Fx::one()),
    ]);
    t.set_colors(vec![
        Vector::new_3(Fx::one(), Fx::zero(), Fx::zero()),
        Vector::new_3(Fx::one(), Fx::zero(), Fx::zero()),
        Vector::new_3(Fx::one(), Fx::zero(), Fx::zero()),
    ]);
    let textures: Vec<Texture> = Vec::new();
    let res = draw_trangle_map(&ras, Fx::from_bits(-6554), fxi(-50), 8, 8, &mut t, &textures);
    assert!(res.len() > 0);
    for r in &res {
        assert!(r.idx < 64);
        assert!(r.z.bits > fxi(-51).bits);
        // interior pixels are fully red; boundary pixels carry at least
        // one covered sample blended against the black clear color
        assert!(r.r >= 63);
        assert_eq!(r.b, 0);
    }
    // merging the results reproduces the same pixels on shared buffers
    let (mut image, mut zbuf) = black_buffers(8, 8, fxi(-51));
    merge_results(&mut image, &mut zbuf, &res);
    let first = &res[0];
    assert_eq!(image[4 * first.idx + 2], first.r);
    assert_eq!(image[4 * first.idx + 3], 255);
}

#[test]
fn edge_walking_samples_textures_too() {
    let pixels = vec![0u8, 255, 0, 255];  // one green texel
    let tex = Texture::new(0, pixels, 1, 1);
    let mut t = screen_triangle([(2, 2), (12, 2), (2, 12)], Fx::from_bits(32768), (Fx::zero(), Fx::zero(), Fx::zero()));
    t.set_render_type(RenderType::TEXTURE);
    t.set_tex_coords(vec![
        Vector::new_2(Fx::zero(), Fx::zero()),
        Vector::new_2(Fx::one(), Fx::zero()),
        Vector::new_2(Fx::zero(), Fx::one()),
    ]);
    let ras = Rasterizer::new();
    let (mut image, mut zbuf) = black_buffers(16, 16, fxi(-100));
    draw_trangle_edge_walking(&mut image, &ras, &mut zbuf, 16, 16, &t, &vec![tex]);
    let idx = (4 * 16 + 4) * 4;
    assert_eq!(&image[idx..idx + 4], &[0, 255, 0, 255]);
    // a row above the triangle stays untouched
    let out = (14 * 16 + 14) * 4;
    assert_eq!(&image[out..out + 4], &[0, 0, 0, 0]);
}
