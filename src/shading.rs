use vstd::prelude::*;
use crate::texture::{Rgb, Texture, Material, packed, pack_rgb, white};
use crate::triangle::{ScreenPoint, WEIGHT_ONE};

verus! {

/// Largest magnitude of a fixed-point vertex attribute.
pub const ATTR_LIMIT: i64 = 0x100_0000_0000;

/// A vertex after the perspective divide, in fixed point with 1.0 as
/// `0x10000`: its pixel position, its depth, its texture coordinates divided
/// by `w`, and `one`, which is `1 / w`.
#[derive(Clone, Copy, Debug)]
pub struct Vertex {
    pub pos: ScreenPoint,
    pub z: i64,
    pub u: i64,
    pub v: i64,
    pub one: i64,
}

impl Vertex {
    pub open spec fn wf(&self) -> bool {
        &&& -ATTR_LIMIT <= self.z <= ATTR_LIMIT
        &&& -ATTR_LIMIT <= self.u <= ATTR_LIMIT
        &&& -ATTR_LIMIT <= self.v <= ATTR_LIMIT
        &&& -ATTR_LIMIT <= self.one <= ATTR_LIMIT
    }
}

/// Attributes blended over a triangle by barycentric weights; each carries
/// the weights' scale.
#[derive(Clone, Copy, Debug)]
pub struct Blend {
    pub z: i64,
    pub u: i64,
    pub v: i64,
    pub one: i64,
}

pub open spec fn blend(a: int, b: int, c: int, x1: int, x2: int, x3: int) -> int {
    a * x1 + b * x2 + c * x3
}

pub open spec fn valid_weights(a: int, b: int, c: int) -> bool {
    0 <= a && 0 <= b && 0 <= c && a + b + c == WEIGHT_ONE
}

proof fn lemma_blend_bound(a: int, b: int, c: int, x1: int, x2: int, x3: int)
    requires
        valid_weights(a, b, c),
        -ATTR_LIMIT <= x1 <= ATTR_LIMIT,
        -ATTR_LIMIT <= x2 <= ATTR_LIMIT,
        -ATTR_LIMIT <= x3 <= ATTR_LIMIT,
    ensures
        -WEIGHT_ONE * ATTR_LIMIT <= blend(a, b, c, x1, x2, x3) <= WEIGHT_ONE * ATTR_LIMIT,
        -WEIGHT_ONE * ATTR_LIMIT <= a * x1 <= WEIGHT_ONE * ATTR_LIMIT,
        -WEIGHT_ONE * ATTR_LIMIT <= b * x2 <= WEIGHT_ONE * ATTR_LIMIT,
        -WEIGHT_ONE * ATTR_LIMIT <= c * x3 <= WEIGHT_ONE * ATTR_LIMIT,
{
    let l = ATTR_LIMIT as int;
    assert(-a * l <= a * x1 <= a * l) by (nonlinear_arith)
        requires
            0 <= a,
            -l <= x1 <= l,
    ;
    assert(-b * l <= b * x2 <= b * l) by (nonlinear_arith)
        requires
            0 <= b,
            -l <= x2 <= l,
    ;
    assert(-c * l <= c * x3 <= c * l) by (nonlinear_arith)
        requires
            0 <= c,
            -l <= x3 <= l,
    ;
    assert(a * l + b * l + c * l == (a + b + c) * l) by (nonlinear_arith);
}

fn blend_exec(a: i64, b: i64, c: i64, x1: i64, x2: i64, x3: i64) -> (r: i64)
    requires
        valid_weights(a as int, b as int, c as int),
        -ATTR_LIMIT <= x1 <= ATTR_LIMIT,
        -ATTR_LIMIT <= x2 <= ATTR_LIMIT,
        -ATTR_LIMIT <= x3 <= ATTR_LIMIT,
    ensures
        r == blend(a as int, b as int, c as int, x1 as int, x2 as int, x3 as int),
{
    proof {
        lemma_blend_bound(a as int, b as int, c as int, x1 as int, x2 as int, x3 as int);
    }
    let r: i128 = (a as i128) * (x1 as i128) + (b as i128) * (x2 as i128) + (c as i128) * (
    x3 as i128);
    r as i64
}

/// Blends the attributes of three vertices by the weights `v1t, v2t, v3t`.
pub fn lerp(v1: &Vertex, v2: &Vertex, v3: &Vertex, v1t: i64, v2t: i64, v3t: i64) -> (r: Blend)
    requires
        v1.wf(),
        v2.wf(),
        v3.wf(),
        valid_weights(v1t as int, v2t as int, v3t as int),
    ensures
        r.z == blend(v1t as int, v2t as int, v3t as int, v1.z as int, v2.z as int, v3.z as int),
        r.u == blend(v1t as int, v2t as int, v3t as int, v1.u as int, v2.u as int, v3.u as int),
        r.v == blend(v1t as int, v2t as int, v3t as int, v1.v as int, v2.v as int, v3.v as int),
        r.one == blend(
            v1t as int,
            v2t as int,
            v3t as int,
            v1.one as int,
            v2.one as int,
            v3.one as int,
        ),
{
    Blend {
        z: blend_exec(v1t, v2t, v3t, v1.z, v2.z, v3.z),
        u: blend_exec(v1t, v2t, v3t, v1.u, v2.u, v3.u),
        v: blend_exec(v1t, v2t, v3t, v1.v, v2.v, v3.v),
        one: blend_exec(v1t, v2t, v3t, v1.one, v2.one, v3.one),
    }
}

pub open spec fn min_int(a: int, b: int) -> int {
    if a < b {
        a
    } else {
        b
    }
}

/// Texel index along an axis of `size` texels for the perspective-corrected
/// coordinate `n / one`: the product with `size` truncated, 0 where it is
/// negative, and at most `size` (which lies outside the texture). A zero
/// `one` counts as an infinite coordinate of the sign of `n`.
pub open spec fn texel_coord(n: int, one: int, size: int) -> int {
    let num = n * size;
    if one == 0 {
        if num > 0 {
            size
        } else {
            0
        }
    } else if num > 0 && one > 0 {
        min_int(num / one, size)
    } else if num < 0 && one < 0 {
        min_int((-num) / (-one), size)
    } else {
        0
    }
}

fn texel_coord_exec(n: i64, one: i64, size: u32) -> (r: u32)
    ensures
        r == texel_coord(n as int, one as int, size as int),
{
    proof {
        let m: int = 0x8000_0000_0000_0000;
        let k: int = 0x1_0000_0000;
        assert(-m * k <= n * size <= m * k) by (nonlinear_arith)
            requires
                -m <= n <= m,
                0 <= size < k,
        ;
    }
    let num: i128 = (n as i128) * (size as i128);
    if one == 0 {
        if num > 0 {
            size
        } else {
            0
        }
    } else if num > 0 && one > 0 {
        let t: i128 = num / (one as i128);
        if t < size as i128 {
            t as u32
        } else {
            size
        }
    } else if num < 0 && one < 0 {
        let t: i128 = (-num) / (-(one as i128));
        if t < size as i128 {
            t as u32
        } else {
            size
        }
    } else {
        0
    }
}

/// Colour that nearest-neighbour sampling of `tex` gives at the
/// perspective-corrected coordinates `(u / one, v / one)`: rows are counted
/// from the bottom, and a lookup outside the texture is white.
pub open spec fn sampled(tex: Texture, u: int, v: int, one: int) -> u32 {
    let tx = texel_coord(u, one, tex.spec_width() as int);
    let ty = texel_coord(v, one, tex.spec_height() as int);
    packed(
        if ty < tex.spec_height() {
            tex.texel_at(tx, tex.spec_height() - 1 - ty)
        } else {
            white()
        },
    )
}

/// Samples the material's diffuse texture at the blended coordinates,
/// divided by the blended `one`.
pub fn sample_texture(b: &Blend, mat: &Material) -> (r: u32)
    requires
        mat.diffuse_texture.wf(),
    ensures
        r == sampled(mat.diffuse_texture, b.u as int, b.v as int, b.one as int),
{
    let tex = &mat.diffuse_texture;
    let w = tex.width();
    let h = tex.height();
    let tx = texel_coord_exec(b.u, b.one, w);
    let ty = texel_coord_exec(b.v, b.one, h);
    let col: Rgb = if ty < h {
        tex.get_pixel(tx as usize, (h - 1 - ty) as usize)
    } else {
        Rgb { r: 255, g: 255, b: 255 }
    };
    pack_rgb(col)
}

} // verus!
