use softrast::raster::{Raster, BACKGROUND, FAR_DEPTH};
use softrast::clip::{
    dehomog, is_rejected, render_clipped_triangle, render_triangles, ClipVertex, Triangle, FIXED_ONE,
};
use softrast::renderer::render_triangle;
use softrast::shading::{lerp, sample_texture, Blend, Vertex};
use softrast::texture::{pack_rgb, Material, Rgb, Texture};
use softrast::triangle::{barycentric, signed_area, ScreenPoint, WEIGHT_ONE};

const ONE: i64 = 0x10000;

fn pt(x: i32, y: i32) -> ScreenPoint {
    ScreenPoint { x, y }
}

fn vx(x: i32, y: i32, z: i64, u: i64, v: i64) -> Vertex {
    Vertex { pos: pt(x, y), z, u, v, one: ONE }
}

fn rgb(r: u8, g: u8, b: u8) -> Rgb {
    Rgb { r, g, b }
}

fn checker() -> Material {
    Material::new(Texture::new(
        vec![rgb(255, 0, 0), rgb(0, 255, 0), rgb(0, 0, 255), rgb(255, 255, 0)],
        2,
        2,
    ))
}

#[test]
fn signed_area_is_doubled_area() {
    assert_eq!(signed_area(pt(0, 0), pt(4, 0), pt(0, 3)), 12);
    assert_eq!(signed_area(pt(0, 0), pt(0, 3), pt(4, 0)), -12);
    assert_eq!(signed_area(pt(0, 0), pt(1, 1), pt(2, 2)), 0);
}

#[test]
fn barycentric_weights_at_corners() {
    let (a, b, c) = (pt(0, 0), pt(10, 0), pt(0, 10));
    let area = signed_area(a, b, c);
    assert_eq!(barycentric(0, 0, a, b, c, area), Some((WEIGHT_ONE, 0, 0)));
    assert_eq!(barycentric(10, 0, a, b, c, area), Some((0, WEIGHT_ONE, 0)));
    assert_eq!(barycentric(0, 10, a, b, c, area), Some((0, 0, WEIGHT_ONE)));
    let area_rev = signed_area(a, c, b);
    assert_eq!(barycentric(0, 10, a, c, b, area_rev), Some((0, WEIGHT_ONE, 0)));
}

#[test]
fn barycentric_weights_sum_to_one_inside() {
    let (a, b, c) = (pt(0, 0), pt(7, 1), pt(2, 9));
    let area = signed_area(a, b, c);
    let mut inside = 0;
    for y in 0..10 {
        for x in 0..8 {
            if let Some((wa, wb, wc)) = barycentric(x, y, a, b, c, area) {
                inside += 1;
                assert!(wa >= 0 && wb >= 0 && wc >= 0);
                assert_eq!(wa + wb + wc, WEIGHT_ONE);
            }
        }
    }
    assert!(inside > 0);
    assert_eq!(barycentric(7, 9, a, b, c, area), None);
}

#[test]
fn barycentric_midpoint_value() {
    let (a, b, c) = (pt(0, 0), pt(4, 0), pt(0, 4));
    let area = signed_area(a, b, c);
    assert_eq!(barycentric(2, 0, a, b, c, area), Some((WEIGHT_ONE / 2, WEIGHT_ONE / 2, 0)));
    assert_eq!(barycentric(1, 1, a, b, c, area), Some((WEIGHT_ONE / 2, WEIGHT_ONE / 4, WEIGHT_ONE / 4)));
}

#[test]
fn degenerate_triangle_has_no_weights() {
    let (a, b, c) = (pt(0, 0), pt(2, 2), pt(4, 4));
    assert_eq!(barycentric(2, 2, a, b, c, signed_area(a, b, c)), None);
}

#[test]
fn lerp_blends_each_attribute() {
    let v1 = Vertex { pos: pt(0, 0), z: 10, u: 100, v: -4, one: 2 };
    let v2 = Vertex { pos: pt(1, 0), z: 20, u: 200, v: 8, one: 4 };
    let v3 = Vertex { pos: pt(0, 1), z: 30, u: 300, v: 12, one: 6 };
    let b = lerp(&v1, &v2, &v3, WEIGHT_ONE / 2, WEIGHT_ONE / 4, WEIGHT_ONE / 4);
    let h = WEIGHT_ONE / 4;
    assert_eq!(b.z, h * (2 * 10 + 20 + 30));
    assert_eq!(b.u, h * (2 * 100 + 200 + 300));
    assert_eq!(b.v, h * (2 * -4 + 8 + 12));
    assert_eq!(b.one, h * (2 * 2 + 4 + 6));
}

#[test]
fn sampling_is_perspective_corrected_and_flipped() {
    let m = checker();
    // u = 0.25 / 0.5 = 0.5 -> column 1; v = 0.1 / 0.5 = 0.2 -> row from bottom 0 -> stored row 1
    let b = Blend { z: 0, u: ONE / 4, v: ONE / 10, one: ONE / 2 };
    assert_eq!(sample_texture(&b, &m), pack_rgb(rgb(255, 255, 0)));
    let top_left = Blend { z: 0, u: 0, v: ONE * 9 / 10, one: ONE };
    assert_eq!(sample_texture(&top_left, &m), pack_rgb(rgb(255, 0, 0)));
}

#[test]
fn sampling_outside_is_white() {
    let m = checker();
    let white = pack_rgb(rgb(255, 255, 255));
    assert_eq!(sample_texture(&Blend { z: 0, u: ONE, v: 0, one: ONE }, &m), white);
    assert_eq!(sample_texture(&Blend { z: 0, u: 0, v: ONE, one: ONE }, &m), white);
    assert_eq!(sample_texture(&Blend { z: 0, u: 0, v: 5, one: 0 }, &m), white);
    // a negative coordinate is taken as 0
    assert_eq!(sample_texture(&Blend { z: 0, u: -ONE, v: 0, one: ONE }, &m), pack_rgb(rgb(0, 0, 255)));
}

fn quad(r: &mut Raster, m: &Material) {
    let w = r.width() as i32 - 1;
    let h = r.height() as i32 - 1;
    let tl = vx(0, 0, 0, 0, ONE);
    let tr = vx(w, 0, 0, ONE, ONE);
    let bl = vx(0, h, 0, 0, 0);
    let br = vx(w, h, 0, ONE, 0);
    render_triangle(r, &tl, &tr, &bl, m);
    render_triangle(r, &tr, &br, &bl, m);
}

#[test]
fn full_screen_quad_shows_checker_quadrants() {
    let m = checker();
    let mut r = Raster::new(8, 6);
    quad(&mut r, &m);
    let at = |x: usize, y: usize| r.img_buf()[y * 8 + x];
    for y in 0..6 {
        for x in 0..8 {
            assert_ne!(at(x, y), BACKGROUND);
        }
    }
    assert_eq!(at(1, 1), pack_rgb(rgb(255, 0, 0)));
    assert_eq!(at(6, 1), pack_rgb(rgb(0, 255, 0)));
    assert_eq!(at(1, 4), pack_rgb(rgb(0, 0, 255)));
    assert_eq!(at(6, 4), pack_rgb(rgb(255, 255, 0)));
    assert_eq!(r.z_buf()[9], 0);
}

#[test]
fn nearer_triangle_hides_farther_one() {
    let m = checker();
    let mut r = Raster::new(4, 4);
    let near = |x, y| vx(x, y, -ONE / 2, 0, 0);
    let far = |x, y| vx(x, y, ONE / 2, 0, ONE);
    render_triangle(&mut r, &near(0, 0), &near(3, 0), &near(0, 3), &m);
    render_triangle(&mut r, &far(0, 0), &far(3, 0), &far(0, 3), &m);
    assert_eq!(r.img_buf()[0], pack_rgb(rgb(0, 0, 255)));
    assert_eq!(r.z_buf()[0], -ONE / 2 * WEIGHT_ONE);
    assert_eq!(r.img_buf()[15], BACKGROUND);
    assert_eq!(r.z_buf()[15], FAR_DEPTH);
}

#[test]
fn triangle_off_screen_is_clipped_to_raster() {
    let m = checker();
    let mut r = Raster::new(4, 4);
    render_triangle(&mut r, &vx(-100, -100, 0, 0, 0), &vx(300, -100, 0, 0, 0), &vx(-100, 300, 0, 0, 0), &m);
    assert!(r.img_buf().iter().all(|&c| c == pack_rgb(rgb(0, 0, 255))));
}

fn cv(x: i64, y: i64, z: i64, w: i64) -> ClipVertex {
    ClipVertex { x, y, z, w, u: 0, v: 0 }
}

fn cuv(x: i64, y: i64, z: i64, w: i64, u: i64, v: i64) -> ClipVertex {
    ClipVertex { x, y, z, w, u, v }
}

#[test]
fn trivial_reject_planes() {
    let inside = cv(0, 0, 5, 10);
    assert!(!is_rejected(&inside, &inside, &inside));
    assert!(is_rejected(&cv(0, 0, 0, 10), &cv(0, 0, -1, 10), &cv(0, 0, -5, 10)));
    assert!(is_rejected(&cv(0, 0, 11, 10), &cv(0, 0, 12, 10), &cv(0, 0, 20, 10)));
    assert!(is_rejected(&cv(0, 11, 5, 10), &cv(0, 12, 5, 10), &cv(0, 20, 5, 10)));
    assert!(is_rejected(&cv(0, -11, 5, 10), &cv(0, -12, 5, 10), &cv(0, -20, 5, 10)));
    assert!(is_rejected(&cv(11, 0, 5, 10), &cv(12, 0, 5, 10), &cv(20, 0, 5, 10)));
    assert!(is_rejected(&cv(-11, 0, 5, 10), &cv(-12, 0, 5, 10), &cv(-20, 0, 5, 10)));
    // past different planes: kept
    assert!(!is_rejected(&cv(11, 0, 5, 10), &cv(-12, 0, 5, 10), &cv(0, 20, 5, 10)));
    assert!(!is_rejected(&cv(0, 0, -1, 10), &cv(0, 0, -1, 10), &cv(0, 0, 1, 10)));
}

#[test]
fn triangle_behind_near_plane_draws_nothing() {
    let m = checker();
    let mut r = Raster::new(8, 6);
    let behind = |x, y| cv(x, y, -3, ONE);
    render_clipped_triangle(&mut r, &behind(-ONE, ONE), &behind(ONE, ONE), &behind(-ONE, -ONE), &m);
    assert!(r.img_buf().iter().all(|&x| x == BACKGROUND));
    assert!(r.z_buf().iter().all(|&z| z == FAR_DEPTH));
    let front = |x, y| cv(x, y, ONE / 2, ONE);
    render_clipped_triangle(&mut r, &front(-ONE, ONE), &front(ONE, ONE), &front(-ONE, -ONE), &m);
    assert_ne!(r.img_buf()[0], BACKGROUND);
}

#[test]
fn zero_w_corner_draws_nothing() {
    let m = checker();
    let mut r = Raster::new(8, 6);
    let c = |x, y, w| cv(x, y, ONE / 2, w);
    render_clipped_triangle(&mut r, &c(-ONE, ONE, ONE), &c(ONE, ONE, 0), &c(-ONE, -ONE, ONE), &m);
    assert!(r.img_buf().iter().all(|&x| x == BACKGROUND));
}

#[test]
fn perspective_divide_and_screen_mapping() {
    assert_eq!(FIXED_ONE, ONE);
    let v = dehomog(&cuv(0, 0, ONE / 2, 2 * ONE, ONE, ONE / 2), 9, 5).unwrap();
    assert_eq!(v.pos, pt(4, 2));
    assert_eq!((v.z, v.u, v.v, v.one), (ONE / 4, ONE / 2, ONE / 4, ONE / 2));
    let corner = dehomog(&cuv(-ONE, ONE, 0, ONE, 0, 0), 9, 5).unwrap();
    assert_eq!(corner.pos, pt(0, 0));
    let far_corner = dehomog(&cuv(ONE, -ONE, 0, ONE, 0, 0), 9, 5).unwrap();
    assert_eq!(far_corner.pos, pt(8, 4));
    // division rounds toward zero, also for a negative w
    let neg = dehomog(&cuv(3 * ONE, 0, -ONE, -ONE, 0, 0), 9, 5).unwrap();
    assert_eq!(neg.pos, pt(-8, 2));
    assert_eq!((neg.z, neg.one), (ONE, -ONE));
    assert!(dehomog(&cuv(0, 0, 0, 0, 0, 0), 9, 5).is_none());
    // a column beyond what i32 holds is held to i32::MAX
    let wide = dehomog(&cuv(ONE, 0, 0, ONE, 0, 0), usize::MAX, 5).unwrap();
    assert_eq!(wide.pos.x, i32::MAX);
}

#[test]
fn batch_skips_rejected_and_keeps_nearest() {
    let m = checker();
    let mut r = Raster::new(4, 4);
    let tri = |z: i64, v: i64| Triangle {
        c1: cuv(-ONE, ONE, z, ONE, 0, v),
        c2: cuv(ONE, ONE, z, ONE, 0, v),
        c3: cuv(-ONE, -ONE, z, ONE, 0, v),
    };
    // the nearest one lies behind the near plane, so the middle one shows
    let tris = vec![tri(ONE * 3 / 4, ONE), tri(ONE / 4, 0), tri(-ONE / 2, ONE)];
    render_triangles(&mut r, &tris, &m);
    assert_eq!(r.img_buf()[0], pack_rgb(rgb(0, 0, 255)));
    assert_eq!(r.z_buf()[0], ONE / 4 * WEIGHT_ONE);
    assert_eq!(r.img_buf()[15], BACKGROUND);
    render_triangles(&mut r, &[], &m);
    assert_eq!(r.img_buf()[0], pack_rgb(rgb(0, 0, 255)));
}

#[test]
fn clip_space_quad_shows_checker_quadrants() {
    let m = checker();
    let mut r = Raster::new(8, 6);
    let z = ONE / 2;
    let tl = cuv(-ONE, ONE, z, ONE, 0, ONE);
    let tr = cuv(ONE, ONE, z, ONE, ONE, ONE);
    let bl = cuv(-ONE, -ONE, z, ONE, 0, 0);
    let br = cuv(ONE, -ONE, z, ONE, ONE, 0);
    let tris = vec![Triangle { c1: tl, c2: tr, c3: bl }, Triangle { c1: tr, c2: br, c3: bl }];
    render_triangles(&mut r, &tris, &m);
    let at = |x: usize, y: usize| r.img_buf()[y * 8 + x];
    assert!(r.img_buf().iter().all(|&c| c != BACKGROUND));
    assert_eq!(at(1, 1), pack_rgb(rgb(255, 0, 0)));
    assert_eq!(at(6, 1), pack_rgb(rgb(0, 255, 0)));
    assert_eq!(at(1, 4), pack_rgb(rgb(0, 0, 255)));
    assert_eq!(at(6, 4), pack_rgb(rgb(255, 255, 0)));
}
