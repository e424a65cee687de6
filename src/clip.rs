use vstd::prelude::*;
use crate::raster::Raster;
use crate::renderer::{drawn, in_box, render_triangle, shade, write_pixel};
use crate::shading::{ATTR_LIMIT, Vertex};
use crate::texture::{Material, Texture};
use crate::triangle::ScreenPoint;

verus! {

/// Fixed-point 1.0 of clip coordinates and texture coordinates.
pub const FIXED_ONE: i64 = 0x10000;

/// A vertex in clip space, before the perspective divide: its homogeneous
/// position and its texture coordinates, in fixed point.
#[derive(Clone, Copy, PartialEq, Eq, Structural, Debug)]
pub struct ClipVertex {
    pub x: i64,
    pub y: i64,
    pub z: i64,
    pub w: i64,
    pub u: i64,
    pub v: i64,
}

/// Whether all three vertices lie past one and the same plane of the view
/// volume: `z <= 0`, `z > w`, `y > w`, `y < -w`, `x > w` or `x < -w`.
pub open spec fn outside_one_plane(c1: ClipVertex, c2: ClipVertex, c3: ClipVertex) -> bool {
    ||| (c1.z <= 0 && c2.z <= 0 && c3.z <= 0)
    ||| (c1.z > c1.w && c2.z > c2.w && c3.z > c3.w)
    ||| (c1.y > c1.w && c2.y > c2.w && c3.y > c3.w)
    ||| (c1.y < -c1.w && c2.y < -c2.w && c3.y < -c3.w)
    ||| (c1.x > c1.w && c2.x > c2.w && c3.x > c3.w)
    ||| (c1.x < -c1.w && c2.x < -c2.w && c3.x < -c3.w)
}

/// Trivial reject: true when the whole triangle lies past one plane of the
/// view volume.
pub fn is_rejected(c1: &ClipVertex, c2: &ClipVertex, c3: &ClipVertex) -> (r: bool)
    ensures
        r == outside_one_plane(*c1, *c2, *c3),
{
    let (w1, w2, w3) = (c1.w as i128, c2.w as i128, c3.w as i128);
    (c1.z <= 0 && c2.z <= 0 && c3.z <= 0) || (c1.z > c1.w && c2.z > c2.w && c3.z > c3.w) || (c1.y
        > c1.w && c2.y > c2.w && c3.y > c3.w) || ((c1.y as i128) < -w1 && (c2.y as i128) < -w2
        && (c3.y as i128) < -w3) || (c1.x > c1.w && c2.x > c2.w && c3.x > c3.w) || ((c1.x as i128)
        < -w1 && (c2.x as i128) < -w2 && (c3.x as i128) < -w3)
}

/// A triangle whose three vertices all lie behind the near plane (`z <= 0`)
/// is rejected and never reaches the rasterizer, so drawing it writes no
/// pixel.
pub proof fn lemma_behind_near_plane_rejected(c1: ClipVertex, c2: ClipVertex, c3: ClipVertex)
    requires
        c1.z <= 0,
        c2.z <= 0,
        c3.z <= 0,
    ensures
        outside_one_plane(c1, c2, c3),
        !kept(c1, c2, c3),
{
}

pub open spec fn abs(a: int) -> int {
    if a < 0 {
        -a
    } else {
        a
    }
}

/// `a / b` rounded toward zero.
pub open spec fn trunc_div(a: int, b: int) -> int {
    if (a >= 0) == (b > 0) {
        abs(a) / abs(b)
    } else {
        -(abs(a) / abs(b))
    }
}

pub open spec fn clamp(a: int, lo: int, hi: int) -> int {
    if a < lo {
        lo
    } else if a > hi {
        hi
    } else {
        a
    }
}

pub open spec fn attr(a: int) -> i64 {
    clamp(a, -ATTR_LIMIT as int, ATTR_LIMIT as int) as i64
}

pub open spec fn coord(a: int) -> i32 {
    clamp(a, i32::MIN as int, i32::MAX as int) as i32
}

/// The vertex after the perspective divide on a raster of `width` by
/// `height` pixels: position, depth and texture coordinates divided by `w`,
/// `one` set to `1 / w`, and `x`, `y` mapped from `[-1, 1]` to pixel
/// columns `0 ..= width - 1` and rows `height - 1 ..= 0`, each rounded
/// toward zero and held to its type's range.
pub open spec fn divided(c: ClipVertex, width: int, height: int) -> Vertex {
    Vertex {
        pos: ScreenPoint {
            x: coord(trunc_div((width - 1) * (c.x + c.w), 2 * c.w)),
            y: coord(trunc_div((height - 1) * (c.w - c.y), 2 * c.w)),
        },
        z: attr(trunc_div(c.z * FIXED_ONE, c.w as int)),
        u: attr(trunc_div(c.u * FIXED_ONE, c.w as int)),
        v: attr(trunc_div(c.v * FIXED_ONE, c.w as int)),
        one: attr(trunc_div(FIXED_ONE * FIXED_ONE, c.w as int)),
    }
}

pub open spec fn limit() -> int {
    0x1000_0000_0000_0000_0000_0000_0000_0000
}

fn trunc_div_exec(a: i128, b: i128) -> (r: i128)
    requires
        b != 0,
        -limit() <= a <= limit(),
        -limit() <= b <= limit(),
    ensures
        r == trunc_div(a as int, b as int),
{
    let aa: i128 = if a < 0 { -a } else { a };
    let bb: i128 = if b < 0 { -b } else { b };
    let q: i128 = aa / bb;
    if (a >= 0) == (b > 0) {
        q
    } else {
        -q
    }
}

proof fn lemma_abs_mul(m: int, s: int)
    ensures
        abs(m * s) == abs(m) * abs(s),
        (m * s < 0) == ((m < 0 && s > 0) || (m > 0 && s < 0)),
{
    if m < 0 && s > 0 {
        assert(m * s < 0) by (nonlinear_arith)
            requires
                m < 0 && s > 0,
        ;
        assert(abs(m * s) == abs(m) * abs(s)) by (nonlinear_arith)
            requires
                m < 0 && s > 0,
        ;
    } else if m > 0 && s < 0 {
        assert(m * s < 0) by (nonlinear_arith)
            requires
                m > 0 && s < 0,
        ;
        assert(abs(m * s) == abs(m) * abs(s)) by (nonlinear_arith)
            requires
                m > 0 && s < 0,
        ;
    } else if m <= 0 && s <= 0 {
        assert(m * s >= 0) by (nonlinear_arith)
            requires
                m <= 0 && s <= 0,
        ;
        assert(abs(m * s) == abs(m) * abs(s)) by (nonlinear_arith)
            requires
                m <= 0 && s <= 0,
        ;
    } else {
        assert(m * s >= 0) by (nonlinear_arith)
            requires
                m >= 0 && s >= 0,
        ;
        assert(abs(m * s) == abs(m) * abs(s)) by (nonlinear_arith)
            requires
                m >= 0 && s >= 0,
        ;
    }
}

/// `m * s / den` rounded toward zero and held to the range of `i32`,
/// computed on magnitudes so that no intermediate overflows.
fn scaled_coord(m: i128, s: i128, den: i128) -> (r: i32)
    requires
        -0x1_0000_0000_0000_0000 < m < 0x1_0000_0000_0000_0000,
        -0x1_0000_0000_0000_0000 <= s <= 0x1_0000_0000_0000_0000,
        -0x2_0000_0000_0000_0000 <= den <= 0x2_0000_0000_0000_0000,
        den != 0,
    ensures
        r == coord(trunc_div(m * s, den as int)),
{
    let am: u128 = if m < 0 { (-m) as u128 } else { m as u128 };
    let a_s: u128 = if s < 0 { (-s) as u128 } else { s as u128 };
    let ad: u128 = if den < 0 { (-den) as u128 } else { den as u128 };
    proof {
        lemma_abs_mul(m as int, s as int);
        assert(am * a_s <= 0xffff_ffff_ffff_ffff * 0x1_0000_0000_0000_0000) by (nonlinear_arith)
            requires
                am <= 0xffff_ffff_ffff_ffff,
                a_s <= 0x1_0000_0000_0000_0000,
        ;
    }
    let q: u128 = am * a_s / ad;
    let neg_num = (m < 0 && s > 0) || (m > 0 && s < 0);
    if neg_num != (den < 0) {
        if q > 0x8000_0000 {
            i32::MIN
        } else {
            (-(q as i128)) as i32
        }
    } else {
        if q > 0x7fff_ffff {
            i32::MAX
        } else {
            q as i32
        }
    }
}

fn clamp_attr(a: i128) -> (r: i64)
    ensures
        r == attr(a as int),
{
    if a < -(ATTR_LIMIT as i128) {
        -ATTR_LIMIT
    } else if a > ATTR_LIMIT as i128 {
        ATTR_LIMIT
    } else {
        a as i64
    }
}

/// Perspective divide and mapping to pixels; `None` where `w` is zero and
/// the vertex has no place on screen.
pub fn dehomog(c: &ClipVertex, width: usize, height: usize) -> (r: Option<Vertex>)
    ensures
        c.w == 0 ==> r is None,
        c.w != 0 ==> r == Some(divided(*c, width as int, height as int)),
        r matches Some(v) ==> v.wf(),
{
    if c.w == 0 {
        return None;
    }
    let w = c.w as i128;
    let s = FIXED_ONE as i128;
    proof {
        let m: int = 0x1_0000_0000_0000_0000;
        assert(-m * 0x10000 <= c.z * 0x10000 <= m * 0x10000) by (nonlinear_arith)
            requires
                -m <= c.z <= m,
        ;
        assert(-m * 0x10000 <= c.u * 0x10000 <= m * 0x10000) by (nonlinear_arith)
            requires
                -m <= c.u <= m,
        ;
        assert(-m * 0x10000 <= c.v * 0x10000 <= m * 0x10000) by (nonlinear_arith)
            requires
                -m <= c.v <= m,
        ;
    }
    let x = scaled_coord(width as i128 - 1, c.x as i128 + w, 2 * w);
    let y = scaled_coord(height as i128 - 1, w - c.y as i128, 2 * w);
    let z = clamp_attr(trunc_div_exec(c.z as i128 * s, w));
    let u = clamp_attr(trunc_div_exec(c.u as i128 * s, w));
    let v = clamp_attr(trunc_div_exec(c.v as i128 * s, w));
    let one = clamp_attr(trunc_div_exec(s * s, w));
    Some(Vertex { pos: ScreenPoint { x, y }, z, u, v, one })
}

/// Whether the triangle reaches the rasterizer: not trivially rejected, and
/// every corner with a nonzero `w`.
pub open spec fn kept(c1: ClipVertex, c2: ClipVertex, c3: ClipVertex) -> bool {
    !outside_one_plane(c1, c2, c3) && c1.w != 0 && c2.w != 0 && c3.w != 0
}

/// Draws a triangle given in clip space: trivial reject, perspective divide,
/// then scan conversion with a depth test.
pub fn render_clipped_triangle(
    raster: &mut Raster,
    c1: &ClipVertex,
    c2: &ClipVertex,
    c3: &ClipVertex,
    mat: &Material,
)
    requires
        old(raster).wf(),
        mat.diffuse_texture.wf(),
    ensures
        final(raster).wf(),
        final(raster).spec_width() == old(raster).spec_width(),
        final(raster).spec_height() == old(raster).spec_height(),
        !kept(*c1, *c2, *c3) ==> {
            &&& final(raster).colors() == old(raster).colors()
            &&& final(raster).depths() == old(raster).depths()
        },
        kept(*c1, *c2, *c3) ==> forall|px: int, py: int|
            old(raster).in_bounds(px, py) ==> #[trigger] final(raster).pixel_at(px, py) == drawn(
                *old(raster),
                px,
                py,
                divided(*c1, old(raster).spec_width() as int, old(raster).spec_height() as int),
                divided(*c2, old(raster).spec_width() as int, old(raster).spec_height() as int),
                divided(*c3, old(raster).spec_width() as int, old(raster).spec_height() as int),
                mat.diffuse_texture,
            ),
{
    if is_rejected(c1, c2, c3) {
        return;
    }
    let width = raster.width();
    let height = raster.height();
    let v1 = dehomog(c1, width, height);
    let v2 = dehomog(c2, width, height);
    let v3 = dehomog(c3, width, height);
    match (v1, v2, v3) {
        (Some(v1), Some(v2), Some(v3)) => render_triangle(raster, &v1, &v2, &v3, mat),
        _ => {},
    }
}

/// One triangle in clip space.
#[derive(Clone, Copy, PartialEq, Eq, Structural, Debug)]
pub struct Triangle {
    pub c1: ClipVertex,
    pub c2: ClipVertex,
    pub c3: ClipVertex,
}

/// What pixel `(x, y)`, holding `start`, holds once the first `n` triangles
/// of `tris` have been drawn in order on a raster of `width` by `height`.
pub open spec fn batch_pixel(
    start: (u32, i64),
    tris: Seq<Triangle>,
    n: nat,
    x: int,
    y: int,
    tex: Texture,
    width: int,
    height: int,
) -> (u32, i64)
    decreases n,
{
    if n == 0 {
        start
    } else {
        let prev = batch_pixel(start, tris, (n - 1) as nat, x, y, tex, width, height);
        let t = tris[n - 1];
        let v1 = divided(t.c1, width, height);
        let v2 = divided(t.c2, width, height);
        let v3 = divided(t.c3, width, height);
        if kept(t.c1, t.c2, t.c3) && in_box(x, y, v1, v2, v3) {
            write_pixel(prev, shade(x as i32, y as i32, v1, v2, v3, tex))
        } else {
            prev
        }
    }
}

/// Draws the triangles of one material in order, each through
/// `render_clipped_triangle`.
pub fn render_triangles(raster: &mut Raster, tris: &[Triangle], mat: &Material)
    requires
        old(raster).wf(),
        mat.diffuse_texture.wf(),
    ensures
        final(raster).wf(),
        final(raster).spec_width() == old(raster).spec_width(),
        final(raster).spec_height() == old(raster).spec_height(),
        forall|px: int, py: int|
            old(raster).in_bounds(px, py) ==> #[trigger] final(raster).pixel_at(px, py) == batch_pixel(
                old(raster).pixel_at(px, py),
                tris@,
                tris@.len(),
                px,
                py,
                mat.diffuse_texture,
                old(raster).spec_width() as int,
                old(raster).spec_height() as int,
            ),
{
    let ghost start = *raster;
    let ghost w = start.spec_width() as int;
    let ghost h = start.spec_height() as int;
    let mut i: usize = 0;
    while i < tris.len()
        invariant
            raster.wf(),
            start.wf(),
            raster.spec_width() == start.spec_width(),
            raster.spec_height() == start.spec_height(),
            w == start.spec_width(),
            h == start.spec_height(),
            i <= tris@.len(),
            mat.diffuse_texture.wf(),
            forall|px: int, py: int|
                start.in_bounds(px, py) ==> #[trigger] raster.pixel_at(px, py) == batch_pixel(
                    start.pixel_at(px, py),
                    tris@,
                    i as nat,
                    px,
                    py,
                    mat.diffuse_texture,
                    w,
                    h,
                ),
        decreases tris@.len() - i,
    {
        let t = &tris[i];
        let ghost prev = *raster;
        render_clipped_triangle(raster, &t.c1, &t.c2, &t.c3, mat);
        proof {
            assert forall|px: int, py: int| start.in_bounds(px, py) implies #[trigger] raster.pixel_at(
                px,
                py,
            ) == batch_pixel(
                start.pixel_at(px, py),
                tris@,
                (i + 1) as nat,
                px,
                py,
                mat.diffuse_texture,
                w,
                h,
            ) by {
                assert(prev.in_bounds(px, py));
                assert(prev.pixel_at(px, py) == batch_pixel(
                    start.pixel_at(px, py),
                    tris@,
                    i as nat,
                    px,
                    py,
                    mat.diffuse_texture,
                    w,
                    h,
                ));
                assert(tris@[i as int] == *t);
                if !kept(t.c1, t.c2, t.c3) {
                    assert(raster.colors() == prev.colors());
                    assert(raster.depths() == prev.depths());
                }
            }
        }
        i = i + 1;
    }
}

} // verus!
