use vstd::prelude::*;

verus! {

/// Fixed-point 1.0 of a barycentric weight.
pub const WEIGHT_ONE: i64 = 0x10000;

/// An integer pixel position on screen; `y` grows downwards.
#[derive(Clone, Copy, PartialEq, Eq, Structural, Debug)]
pub struct ScreenPoint {
    pub x: i32,
    pub y: i32,
}

/// Twice the signed area of the triangle `a, b, c`: the 2D cross product of
/// `b - a` and `c - a`.
pub open spec fn cross(a: ScreenPoint, b: ScreenPoint, c: ScreenPoint) -> int {
    (b.x - a.x) * (c.y - a.y) - (c.x - a.x) * (b.y - a.y)
}

/// Barycentric weights of `p` in the triangle `v1, v2, v3`, scaled so that
/// `WEIGHT_ONE` is 1, each rounded down except the first, which takes what
/// the other two leave. `None` where the triangle is degenerate or `p` lies
/// outside it.
pub open spec fn weights(p: ScreenPoint, v1: ScreenPoint, v2: ScreenPoint, v3: ScreenPoint) -> Option<
    (int, int, int),
> {
    let area = cross(v1, v2, v3);
    let aa = if area < 0 { -area } else { area };
    let bs = if area < 0 { -cross(v3, v1, p) } else { cross(v3, v1, p) };
    let cs = if area < 0 { -cross(v1, v2, p) } else { cross(v1, v2, p) };
    if area == 0 || bs < 0 || cs < 0 || bs + cs > aa {
        None
    } else {
        let b = bs * WEIGHT_ONE / aa;
        let c = cs * WEIGHT_ONE / aa;
        Some((WEIGHT_ONE - b - c, b, c))
    }
}

pub open spec fn bound_cross() -> int {
    0x4_0000_0000_0000_0000
}

proof fn lemma_cross_bound(a: ScreenPoint, b: ScreenPoint, c: ScreenPoint)
    ensures
        -bound_cross() <= cross(a, b, c) <= bound_cross(),
{
    let d1: int = b.x - a.x;
    let d2: int = c.y - a.y;
    let d3: int = c.x - a.x;
    let d4: int = b.y - a.y;
    let m: int = 0x1_0000_0000;
    assert(-m * m <= d1 * d2 <= m * m) by (nonlinear_arith)
        requires
            -m <= d1 <= m,
            -m <= d2 <= m,
    ;
    assert(-m * m <= d3 * d4 <= m * m) by (nonlinear_arith)
        requires
            -m <= d3 <= m,
            -m <= d4 <= m,
    ;
}

fn cross_exec(a: ScreenPoint, b: ScreenPoint, c: ScreenPoint) -> (r: i128)
    ensures
        r == cross(a, b, c),
        -bound_cross() <= r <= bound_cross(),
{
    let d1: i128 = b.x as i128 - a.x as i128;
    let d2: i128 = c.y as i128 - a.y as i128;
    let d3: i128 = c.x as i128 - a.x as i128;
    let d4: i128 = b.y as i128 - a.y as i128;
    proof {
        let m: int = 0x1_0000_0000;
        assert(-m * m <= d1 * d2 <= m * m) by (nonlinear_arith)
            requires
                -m <= d1 <= m,
                -m <= d2 <= m,
        ;
        assert(-m * m <= d3 * d4 <= m * m) by (nonlinear_arith)
            requires
                -m <= d3 <= m,
                -m <= d4 <= m,
        ;
    }
    d1 * d2 - d3 * d4
}

/// Twice the signed area of the triangle `v1, v2, v3`.
pub fn signed_area(v1: ScreenPoint, v2: ScreenPoint, v3: ScreenPoint) -> (r: i128)
    ensures
        r == cross(v1, v2, v3),
{
    cross_exec(v1, v2, v3)
}

proof fn lemma_split_weight(bs: int, cs: int, aa: int, s: int)
    requires
        0 <= bs,
        0 <= cs,
        bs + cs <= aa,
        0 < aa,
        0 < s,
    ensures
        0 <= bs * s / aa,
        0 <= cs * s / aa,
        bs * s / aa + cs * s / aa <= s,
{
    let b = bs * s / aa;
    let c = cs * s / aa;
    assert(0 <= bs * s) by (nonlinear_arith)
        requires
            0 <= bs,
            0 < s,
    ;
    assert(0 <= cs * s) by (nonlinear_arith)
        requires
            0 <= cs,
            0 < s,
    ;
    vstd::arithmetic::div_mod::lemma_fundamental_div_mod(bs * s, aa);
    vstd::arithmetic::div_mod::lemma_fundamental_div_mod(cs * s, aa);
    vstd::arithmetic::div_mod::lemma_mod_bound(bs * s, aa);
    vstd::arithmetic::div_mod::lemma_mod_bound(cs * s, aa);
    vstd::arithmetic::div_mod::lemma_div_pos_is_pos(bs * s, aa);
    vstd::arithmetic::div_mod::lemma_div_pos_is_pos(cs * s, aa);
    assert(aa * b <= bs * s);
    assert(aa * c <= cs * s);
    assert(b + c <= s) by (nonlinear_arith)
        requires
            aa * b <= bs * s,
            aa * c <= cs * s,
            bs + cs <= aa,
            0 < aa,
            0 < s,
    ;
}

/// Barycentric weights of pixel `(x, y)` in the triangle `v1c, v2c, v3c`,
/// whose doubled signed area is `total_area`.
pub fn barycentric(
    x: i32,
    y: i32,
    v1c: ScreenPoint,
    v2c: ScreenPoint,
    v3c: ScreenPoint,
    total_area: i128,
) -> (r: Option<(i64, i64, i64)>)
    requires
        total_area == cross(v1c, v2c, v3c),
    ensures
        match r {
            None => weights(ScreenPoint { x, y }, v1c, v2c, v3c) is None,
            Some((a, b, c)) => {
                &&& weights(ScreenPoint { x, y }, v1c, v2c, v3c) == Some(
                    (a as int, b as int, c as int),
                )
                &&& 0 <= a && 0 <= b && 0 <= c
                &&& a + b + c == WEIGHT_ONE
            },
        },
{
    let p = ScreenPoint { x, y };
    proof {
        lemma_cross_bound(v1c, v2c, v3c);
    }
    let c_sub = cross_exec(v1c, v2c, p);
    let b_sub = cross_exec(v3c, v1c, p);
    if total_area == 0 {
        return None;
    }
    let (aa, bs, cs): (i128, i128, i128) = if total_area < 0 {
        (-total_area, -b_sub, -c_sub)
    } else {
        (total_area, b_sub, c_sub)
    };
    if bs < 0 || cs < 0 || bs + cs > aa {
        return None;
    }
    proof {
        lemma_split_weight(bs as int, cs as int, aa as int, WEIGHT_ONE as int);
        assert(bs * WEIGHT_ONE <= bound_cross() * WEIGHT_ONE) by (nonlinear_arith)
            requires
                0 <= bs <= bound_cross(),
        ;
        assert(cs * WEIGHT_ONE <= bound_cross() * WEIGHT_ONE) by (nonlinear_arith)
            requires
                0 <= cs <= bound_cross(),
        ;
    }
    let b: i128 = bs * (WEIGHT_ONE as i128) / aa;
    let c: i128 = cs * (WEIGHT_ONE as i128) / aa;
    let b = b as i64;
    let c = c as i64;
    Some((WEIGHT_ONE - b - c, b, c))
}

proof fn lemma_cross_rotate(a: ScreenPoint, b: ScreenPoint, c: ScreenPoint)
    ensures
        cross(a, b, c) == cross(b, c, a),
        cross(a, b, c) == cross(c, a, b),
        cross(a, b, a) == 0,
        cross(a, b, b) == 0,
{
    assert(cross(a, b, c) == cross(b, c, a)) by (nonlinear_arith);
    assert(cross(a, b, c) == cross(c, a, b)) by (nonlinear_arith);
    assert(cross(a, b, a) == 0) by (nonlinear_arith);
    assert(cross(a, b, b) == 0) by (nonlinear_arith);
}

/// At each corner of a non-degenerate triangle the weights are exactly
/// `(1, 0, 0)`, `(0, 1, 0)` and `(0, 0, 1)`, and wherever they are defined
/// they sum to 1.
pub proof fn lemma_weights_at_corners(v1: ScreenPoint, v2: ScreenPoint, v3: ScreenPoint)
    requires
        cross(v1, v2, v3) != 0,
    ensures
        weights(v1, v1, v2, v3) == Some((WEIGHT_ONE as int, 0int, 0int)),
        weights(v2, v1, v2, v3) == Some((0int, WEIGHT_ONE as int, 0int)),
        weights(v3, v1, v2, v3) == Some((0int, 0int, WEIGHT_ONE as int)),
        forall|p: ScreenPoint| #[trigger]
            weights(p, v1, v2, v3) is Some ==> {
                let (a, b, c) = weights(p, v1, v2, v3)->Some_0;
                a + b + c == WEIGHT_ONE && 0 <= a && 0 <= b && 0 <= c
            },
{
    lemma_cross_rotate(v1, v2, v3);
    lemma_cross_rotate(v3, v1, v2);
    lemma_cross_rotate(v1, v2, v1);
    lemma_cross_rotate(v3, v1, v1);
    let area = cross(v1, v2, v3);
    let aa: int = if area < 0 { -area } else { area };
    vstd::arithmetic::div_mod::lemma_div_multiples_vanish(WEIGHT_ONE as int, aa);
    assert(aa * WEIGHT_ONE == WEIGHT_ONE * aa) by (nonlinear_arith);
    assert forall|p: ScreenPoint| #[trigger] weights(p, v1, v2, v3) is Some implies {
        let (a, b, c) = weights(p, v1, v2, v3)->Some_0;
        a + b + c == WEIGHT_ONE && 0 <= a && 0 <= b && 0 <= c
    } by {
        lemma_split_weight(
            if area < 0 { -cross(v3, v1, p) } else { cross(v3, v1, p) },
            if area < 0 { -cross(v1, v2, p) } else { cross(v1, v2, p) },
            aa,
            WEIGHT_ONE as int,
        );
    }
}

} // verus!
