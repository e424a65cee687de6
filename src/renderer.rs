use vstd::prelude::*;
use crate::raster::Raster;
use crate::shading::{Vertex, blend, lerp, sample_texture, sampled};
use crate::texture::{Texture, Material};
use crate::triangle::{ScreenPoint, barycentric, cross, signed_area, weights};

verus! {

/// Colour and depth that pixel `(x, y)` takes from the triangle `v1, v2, v3`:
/// `None` where the pixel lies outside it.
pub open spec fn shade(x: i32, y: i32, v1: Vertex, v2: Vertex, v3: Vertex, tex: Texture) -> Option<
    (u32, i64),
> {
    match weights(ScreenPoint { x, y }, v1.pos, v2.pos, v3.pos) {
        None => None,
        Some((a, b, c)) => Some(
            (
                sampled(
                    tex,
                    blend(a, b, c, v1.u as int, v2.u as int, v3.u as int),
                    blend(a, b, c, v1.v as int, v2.v as int, v3.v as int),
                    blend(a, b, c, v1.one as int, v2.one as int, v3.one as int),
                ),
                blend(a, b, c, v1.z as int, v2.z as int, v3.z as int) as i64,
            ),
        ),
    }
}

/// A pixel holding `prev` after a depth-tested write of `s`.
pub open spec fn write_pixel(prev: (u32, i64), s: Option<(u32, i64)>) -> (u32, i64) {
    match s {
        Some((c, d)) => if d < prev.1 {
            (c, d)
        } else {
            prev
        },
        None => prev,
    }
}

/// Pixel `(x, y)` of `r` after a depth-tested write of `s`.
pub open spec fn after_write(r: Raster, x: int, y: int, s: Option<(u32, i64)>) -> (u32, i64) {
    write_pixel(r.pixel_at(x, y), s)
}

pub open spec fn min3(a: int, b: int, c: int) -> int {
    if a <= b && a <= c {
        a
    } else if b <= c {
        b
    } else {
        c
    }
}

pub open spec fn max3(a: int, b: int, c: int) -> int {
    if a >= b && a >= c {
        a
    } else if b >= c {
        b
    } else {
        c
    }
}

/// Whether `(x, y)` lies in the triangle's bounding box, edges included.
pub open spec fn in_box(x: int, y: int, v1: Vertex, v2: Vertex, v3: Vertex) -> bool {
    &&& min3(v1.pos.x as int, v2.pos.x as int, v3.pos.x as int) <= x
    &&& x <= max3(v1.pos.x as int, v2.pos.x as int, v3.pos.x as int)
    &&& min3(v1.pos.y as int, v2.pos.y as int, v3.pos.y as int) <= y
    &&& y <= max3(v1.pos.y as int, v2.pos.y as int, v3.pos.y as int)
}

/// Pixel `(x, y)` of `r` once the triangle has been drawn into it.
pub open spec fn drawn(r: Raster, x: int, y: int, v1: Vertex, v2: Vertex, v3: Vertex, tex: Texture) -> (
    u32,
    i64,
) {
    if in_box(x, y, v1, v2, v3) {
        after_write(r, x, y, shade(x as i32, y as i32, v1, v2, v3, tex))
    } else {
        r.pixel_at(x, y)
    }
}

/// Shades pixel `(x, y)` if it lies inside the triangle, with a depth test;
/// a pixel off the raster, negative coordinates included, is left alone.
pub fn draw_pixel(
    raster: &mut Raster,
    x: i32,
    y: i32,
    v1: &Vertex,
    v2: &Vertex,
    v3: &Vertex,
    total_area: i128,
    mat: &Material,
)
    requires
        old(raster).wf(),
        v1.wf(),
        v2.wf(),
        v3.wf(),
        mat.diffuse_texture.wf(),
        total_area == cross(v1.pos, v2.pos, v3.pos),
    ensures
        final(raster).wf(),
        final(raster).spec_width() == old(raster).spec_width(),
        final(raster).spec_height() == old(raster).spec_height(),
        forall|px: int, py: int|
            old(raster).in_bounds(px, py) ==> #[trigger] final(raster).pixel_at(px, py) == (if px == x
                && py == y {
                after_write(*old(raster), px, py, shade(x, y, *v1, *v2, *v3, mat.diffuse_texture))
            } else {
                old(raster).pixel_at(px, py)
            }),
{
    if x < 0 || y < 0 {
        return;
    }
    match barycentric(x, y, v1.pos, v2.pos, v3.pos, total_area) {
        None => {},
        Some((v1t, v2t, v3t)) => {
            let v = lerp(v1, v2, v3, v1t, v2t, v3t);
            let tex_color = sample_texture(&v, mat);
            raster.set_pixel(x as usize, y as usize, tex_color, v.z);
        },
    }
}

fn min3_exec(a: i32, b: i32, c: i32) -> (r: i32)
    ensures
        r == min3(a as int, b as int, c as int),
{
    if a <= b && a <= c {
        a
    } else if b <= c {
        b
    } else {
        c
    }
}

fn max3_exec(a: i32, b: i32, c: i32) -> (r: i32)
    ensures
        r == max3(a as int, b as int, c as int),
{
    if a >= b && a >= c {
        a
    } else if b >= c {
        b
    } else {
        c
    }
}

/// Last index along an axis of `n` pixels, capped to what `i32` holds.
fn last_index(n: usize) -> (r: i64)
    requires
        n > 0,
    ensures
        r == min3(n - 1, i32::MAX as int, i32::MAX as int),
{
    if n - 1 > i32::MAX as usize {
        i32::MAX as i64
    } else {
        (n - 1) as i64
    }
}

/// Scans the triangle's bounding box (edges included, cut to the raster)
/// and shades every pixel inside the triangle, with a depth test.
pub fn render_triangle(raster: &mut Raster, v1: &Vertex, v2: &Vertex, v3: &Vertex, mat: &Material)
    requires
        old(raster).wf(),
        v1.wf(),
        v2.wf(),
        v3.wf(),
        mat.diffuse_texture.wf(),
    ensures
        final(raster).wf(),
        final(raster).spec_width() == old(raster).spec_width(),
        final(raster).spec_height() == old(raster).spec_height(),
        forall|px: int, py: int|
            old(raster).in_bounds(px, py) ==> #[trigger] final(raster).pixel_at(px, py) == drawn(
                *old(raster),
                px,
                py,
                *v1,
                *v2,
                *v3,
                mat.diffuse_texture,
            ),
{
    let ghost start = *raster;
    let ghost tex = mat.diffuse_texture;
    let width = raster.width();
    let height = raster.height();
    if width == 0 || height == 0 {
        return;
    }
    let area = signed_area(v1.pos, v2.pos, v3.pos);
    let minx = min3_exec(v1.pos.x, v2.pos.x, v3.pos.x);
    let maxx = max3_exec(v1.pos.x, v2.pos.x, v3.pos.x);
    let miny = min3_exec(v1.pos.y, v2.pos.y, v3.pos.y);
    let maxy = max3_exec(v1.pos.y, v2.pos.y, v3.pos.y);
    let x0: i64 = if minx < 0 { 0 } else { minx as i64 };
    let y0: i64 = if miny < 0 { 0 } else { miny as i64 };
    let wl = last_index(width);
    let hl = last_index(height);
    let x1: i64 = if (maxx as i64) < wl { maxx as i64 } else { wl };
    let y1: i64 = if (maxy as i64) < hl { maxy as i64 } else { hl };
    let mut y: i64 = y0;
    while y <= y1
        invariant
            raster.wf(),
            raster.spec_width() == start.spec_width(),
            raster.spec_height() == start.spec_height(),
            start.wf(),
            y0 <= y <= y1 + 1 || y == y0,
            0 <= y0,
            0 <= x0,
            y1 <= i32::MAX,
            x1 <= i32::MAX,
            x0 == (if minx < 0 { 0 } else { minx as int }),
            y0 == (if miny < 0 { 0 } else { miny as int }),
            x1 == min3(maxx as int, start.spec_width() - 1, i32::MAX as int),
            y1 == min3(maxy as int, start.spec_height() - 1, i32::MAX as int),
            minx == min3(v1.pos.x as int, v2.pos.x as int, v3.pos.x as int),
            maxx == max3(v1.pos.x as int, v2.pos.x as int, v3.pos.x as int),
            miny == min3(v1.pos.y as int, v2.pos.y as int, v3.pos.y as int),
            maxy == max3(v1.pos.y as int, v2.pos.y as int, v3.pos.y as int),
            area == cross(v1.pos, v2.pos, v3.pos),
            v1.wf(),
            v2.wf(),
            v3.wf(),
            mat.diffuse_texture.wf(),
            tex == mat.diffuse_texture,
            forall|px: int, py: int|
                start.in_bounds(px, py) ==> #[trigger] raster.pixel_at(px, py) == (if py < y {
                    drawn(start, px, py, *v1, *v2, *v3, tex)
                } else {
                    start.pixel_at(px, py)
                }),
        decreases y1 + 1 - y,
    {
        let mut x: i64 = x0;
        while x <= x1
            invariant
                raster.wf(),
                raster.spec_width() == start.spec_width(),
                raster.spec_height() == start.spec_height(),
                start.wf(),
                y0 <= y <= y1,
                0 <= y0,
                x0 <= x <= x1 + 1 || x == x0,
                0 <= x0,
                y1 <= i32::MAX,
                x1 <= i32::MAX,
                x0 == (if minx < 0 { 0 } else { minx as int }),
                y0 == (if miny < 0 { 0 } else { miny as int }),
                x1 == min3(maxx as int, start.spec_width() - 1, i32::MAX as int),
                y1 == min3(maxy as int, start.spec_height() - 1, i32::MAX as int),
                minx == min3(v1.pos.x as int, v2.pos.x as int, v3.pos.x as int),
                maxx == max3(v1.pos.x as int, v2.pos.x as int, v3.pos.x as int),
                miny == min3(v1.pos.y as int, v2.pos.y as int, v3.pos.y as int),
                maxy == max3(v1.pos.y as int, v2.pos.y as int, v3.pos.y as int),
                area == cross(v1.pos, v2.pos, v3.pos),
                v1.wf(),
                v2.wf(),
                v3.wf(),
                mat.diffuse_texture.wf(),
                tex == mat.diffuse_texture,
                forall|px: int, py: int|
                    start.in_bounds(px, py) ==> #[trigger] raster.pixel_at(px, py) == (if py < y || (py
                        == y && px < x) {
                        drawn(start, px, py, *v1, *v2, *v3, tex)
                    } else {
                        start.pixel_at(px, py)
                    }),
            decreases x1 + 1 - x,
        {
            let ghost prev = *raster;
            proof {
                assert(prev.pixel_at(x as int, y as int) == start.pixel_at(x as int, y as int));
            }
            draw_pixel(raster, x as i32, y as i32, v1, v2, v3, area, mat);
            proof {
                assert(in_box(x as int, y as int, *v1, *v2, *v3));
                assert forall|px: int, py: int| start.in_bounds(px, py) implies #[trigger] raster.pixel_at(
                    px,
                    py,
                ) == (if py < y || (py == y && px < x + 1) {
                    drawn(start, px, py, *v1, *v2, *v3, tex)
                } else {
                    start.pixel_at(px, py)
                }) by {
                    assert(prev.in_bounds(px, py));
                    if px == x && py == y {
                        assert(prev.color_at(px, py) == start.color_at(px, py));
                        assert(prev.depth_at(px, py) == start.depth_at(px, py));
                    }
                }
            }
            x = x + 1;
        }
        y = y + 1;
    }
}

} // verus!

verus! {

proof fn lemma_between(a: int, b: int, c: int, x1: int, x2: int, x3: int, lo: int, hi: int, p: int)
    requires
        0 <= a,
        0 <= b,
        0 <= c,
        0 < a + b + c,
        lo <= x1 <= hi,
        lo <= x2 <= hi,
        lo <= x3 <= hi,
        (a + b + c) * p == a * x1 + b * x2 + c * x3,
    ensures
        lo <= p <= hi,
{
    assert(a * x1 <= a * hi && b * x2 <= b * hi && c * x3 <= c * hi) by (nonlinear_arith)
        requires
            0 <= a,
            0 <= b,
            0 <= c,
            x1 <= hi,
            x2 <= hi,
            x3 <= hi,
    ;
    assert(a * lo <= a * x1 && b * lo <= b * x2 && c * lo <= c * x3) by (nonlinear_arith)
        requires
            0 <= a,
            0 <= b,
            0 <= c,
            lo <= x1,
            lo <= x2,
            lo <= x3,
    ;
    assert((a + b + c) * lo == a * lo + b * lo + c * lo) by (nonlinear_arith);
    assert((a + b + c) * hi == a * hi + b * hi + c * hi) by (nonlinear_arith);
    assert(p <= hi) by (nonlinear_arith)
        requires
            (a + b + c) * p <= (a + b + c) * hi,
            0 < a + b + c,
    ;
    assert(lo <= p) by (nonlinear_arith)
        requires
            (a + b + c) * lo <= (a + b + c) * p,
            0 < a + b + c,
    ;
}

proof fn lemma_cross_identity(x1: int, y1: int, x2: int, y2: int, x3: int, y3: int, px: int, py: int)
    ensures
        ({
            let ca = (x3 - x2) * (py - y2) - (px - x2) * (y3 - y2);
            let cb = (x1 - x3) * (py - y3) - (px - x3) * (y1 - y3);
            let cc = (x2 - x1) * (py - y1) - (px - x1) * (y2 - y1);
            let t = (x2 - x1) * (y3 - y1) - (x3 - x1) * (y2 - y1);
            &&& ca + cb + cc == t
            &&& ca * x1 + cb * x2 + cc * x3 == t * px
            &&& ca * y1 + cb * y2 + cc * y3 == t * py
        }),
{
    let (a1, a2, a3) = (x1 - px, x2 - px, x3 - px);
    let (b1, b2, b3) = (y1 - py, y2 - py, y3 - py);
    let ca = (x3 - x2) * (py - y2) - (px - x2) * (y3 - y2);
    let cb = (x1 - x3) * (py - y3) - (px - x3) * (y1 - y3);
    let cc = (x2 - x1) * (py - y1) - (px - x1) * (y2 - y1);
    let t = (x2 - x1) * (y3 - y1) - (x3 - x1) * (y2 - y1);
    assert(ca == a2 * b3 - a3 * b2) by (nonlinear_arith)
        requires
            ca == (x3 - x2) * (py - y2) - (px - x2) * (y3 - y2),
            a2 == x2 - px,
            a3 == x3 - px,
            b2 == y2 - py,
            b3 == y3 - py,
    ;
    assert(cb == a3 * b1 - a1 * b3) by (nonlinear_arith)
        requires
            cb == (x1 - x3) * (py - y3) - (px - x3) * (y1 - y3),
            a1 == x1 - px,
            a3 == x3 - px,
            b1 == y1 - py,
            b3 == y3 - py,
    ;
    assert(cc == a1 * b2 - a2 * b1) by (nonlinear_arith)
        requires
            cc == (x2 - x1) * (py - y1) - (px - x1) * (y2 - y1),
            a1 == x1 - px,
            a2 == x2 - px,
            b1 == y1 - py,
            b2 == y2 - py,
    ;
    assert(t == (a2 - a1) * (b3 - b1) - (a3 - a1) * (b2 - b1)) by (nonlinear_arith)
        requires
            t == (x2 - x1) * (y3 - y1) - (x3 - x1) * (y2 - y1),
            a1 == x1 - px,
            a2 == x2 - px,
            a3 == x3 - px,
            b1 == y1 - py,
            b2 == y2 - py,
            b3 == y3 - py,
    ;
    assert((a2 - a1) * (b3 - b1) - (a3 - a1) * (b2 - b1) == (a2 * b3 - a3 * b2) + (a3 * b1 - a1
        * b3) + (a1 * b2 - a2 * b1)) by (nonlinear_arith);
    assert(a1 * (a2 * b3 - a3 * b2) + a2 * (a3 * b1 - a1 * b3) + a3 * (a1 * b2 - a2 * b1) == 0)
        by (nonlinear_arith);
    assert(b1 * (a2 * b3 - a3 * b2) + b2 * (a3 * b1 - a1 * b3) + b3 * (a1 * b2 - a2 * b1) == 0)
        by (nonlinear_arith);
    assert(ca * x1 + cb * x2 + cc * x3 == (ca * a1 + cb * a2 + cc * a3) + (ca + cb + cc) * px)
        by (nonlinear_arith)
        requires
            a1 == x1 - px,
            a2 == x2 - px,
            a3 == x3 - px,
    ;
    assert(ca * y1 + cb * y2 + cc * y3 == (ca * b1 + cb * b2 + cc * b3) + (ca + cb + cc) * py)
        by (nonlinear_arith)
        requires
            b1 == y1 - py,
            b2 == y2 - py,
            b3 == y3 - py,
    ;
    assert(ca * a1 + cb * a2 + cc * a3 == a1 * (a2 * b3 - a3 * b2) + a2 * (a3 * b1 - a1 * b3) + a3
        * (a1 * b2 - a2 * b1)) by (nonlinear_arith)
        requires
            ca == a2 * b3 - a3 * b2,
            cb == a3 * b1 - a1 * b3,
            cc == a1 * b2 - a2 * b1,
    ;
    assert(ca * b1 + cb * b2 + cc * b3 == b1 * (a2 * b3 - a3 * b2) + b2 * (a3 * b1 - a1 * b3) + b3
        * (a1 * b2 - a2 * b1)) by (nonlinear_arith)
        requires
            ca == a2 * b3 - a3 * b2,
            cb == a3 * b1 - a1 * b3,
            cc == a1 * b2 - a2 * b1,
    ;
}

/// Every pixel that has barycentric weights, that is every pixel inside the
/// triangle, lies in the triangle's bounding box, so the scan of the box
/// reaches it.
pub proof fn lemma_inside_in_box(p: ScreenPoint, v1: Vertex, v2: Vertex, v3: Vertex)
    requires
        weights(p, v1.pos, v2.pos, v3.pos) is Some,
    ensures
        in_box(p.x as int, p.y as int, v1, v2, v3),
{
    let (a, b, c) = (v1.pos, v2.pos, v3.pos);
    let ca = cross(b, c, p);
    let cb = cross(c, a, p);
    let cc = cross(a, b, p);
    let t = cross(a, b, c);
    lemma_cross_identity(a.x as int, a.y as int, b.x as int, b.y as int, c.x as int, c.y as int, p.x as int, p.y as int);
    let (na, nb, nc) = if t < 0 {
        (-ca, -cb, -cc)
    } else {
        (ca, cb, cc)
    };
    assert((na + nb + nc) * p.x == na * a.x + nb * b.x + nc * c.x) by (nonlinear_arith)
        requires
            ca * a.x + cb * b.x + cc * c.x == t * p.x,
            ca + cb + cc == t,
            (na == ca && nb == cb && nc == cc) || (na == -ca && nb == -cb && nc == -cc),
    ;
    assert((na + nb + nc) * p.y == na * a.y + nb * b.y + nc * c.y) by (nonlinear_arith)
        requires
            ca * a.y + cb * b.y + cc * c.y == t * p.y,
            ca + cb + cc == t,
            (na == ca && nb == cb && nc == cc) || (na == -ca && nb == -cb && nc == -cc),
    ;
    lemma_between(
        na,
        nb,
        nc,
        a.x as int,
        b.x as int,
        c.x as int,
        min3(a.x as int, b.x as int, c.x as int),
        max3(a.x as int, b.x as int, c.x as int),
        p.x as int,
    );
    lemma_between(
        na,
        nb,
        nc,
        a.y as int,
        b.y as int,
        c.y as int,
        min3(a.y as int, b.y as int, c.y as int),
        max3(a.y as int, b.y as int, c.y as int),
        p.y as int,
    );
}

} // verus!

