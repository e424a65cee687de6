use vstd::prelude::*;

verus! {

/// Depth value that an empty pixel holds: the far plane, 1.0 in depth units.
pub const FAR_DEPTH: i64 = 0x1_0000_0000;

/// Colour that an empty pixel holds (black).
pub const BACKGROUND: u32 = 0;

/// Framebuffer: a colour buffer of packed 0RGB values and a depth buffer,
/// both laid out row by row.
pub struct Raster {
    img_buf: Vec<u32>,
    z_buf: Vec<i64>,
    width: usize,
    height: usize,
}

impl Raster {
    pub closed spec fn spec_width(&self) -> nat {
        self.width as nat
    }

    pub closed spec fn spec_height(&self) -> nat {
        self.height as nat
    }

    pub closed spec fn colors(&self) -> Seq<u32> {
        self.img_buf@
    }

    pub closed spec fn depths(&self) -> Seq<i64> {
        self.z_buf@
    }

    pub open spec fn wf(&self) -> bool {
        &&& self.colors().len() == self.spec_width() * self.spec_height()
        &&& self.depths().len() == self.spec_width() * self.spec_height()
        &&& self.spec_width() * self.spec_height() <= usize::MAX
    }

    /// Offset of pixel `(x, y)` in both buffers.
    pub open spec fn offset(&self, x: int, y: int) -> int {
        y * self.spec_width() + x
    }

    pub open spec fn in_bounds(&self, x: int, y: int) -> bool {
        0 <= x < self.spec_width() && 0 <= y < self.spec_height()
    }

    pub open spec fn color_at(&self, x: int, y: int) -> u32 {
        self.colors()[self.offset(x, y)]
    }

    pub open spec fn depth_at(&self, x: int, y: int) -> i64 {
        self.depths()[self.offset(x, y)]
    }

    pub proof fn lemma_offset_in_range(&self, x: int, y: int)
        requires
            self.in_bounds(x, y),
        ensures
            0 <= self.offset(x, y) < self.spec_width() * self.spec_height(),
    {
        let w = self.spec_width() as int;
        let h = self.spec_height() as int;
        assert(y * w + x < h * w) by (nonlinear_arith)
            requires
                0 <= x < w,
                0 <= y < h,
        ;
        assert(h * w == w * h) by (nonlinear_arith);
        assert(0 <= y * w) by (nonlinear_arith)
            requires
                0 <= y,
                0 <= w,
        ;
    }

    /// Colour and depth of pixel `(x, y)`.
    pub open spec fn pixel_at(&self, x: int, y: int) -> (u32, i64) {
        (self.color_at(x, y), self.depth_at(x, y))
    }

    /// `(x, y)` and `(px, py)` inside the raster share an offset only when they
    /// are the same pixel.
    pub proof fn lemma_offset_injective(&self, x: int, y: int, px: int, py: int)
        requires
            self.in_bounds(x, y),
            self.in_bounds(px, py),
            x != px || y != py,
        ensures
            self.offset(x, y) != self.offset(px, py),
    {
        let w = self.spec_width() as int;
        if y < py {
            assert(y * w + x < py * w + px) by (nonlinear_arith)
                requires
                    0 <= x < w,
                    0 <= px,
                    y < py,
            ;
        } else if py < y {
            assert(py * w + px < y * w + x) by (nonlinear_arith)
                requires
                    0 <= px < w,
                    0 <= x,
                    py < y,
            ;
        }
    }

    /// `after` is `before` once a depth-tested write of `col` at depth `z`
    /// to pixel `(x, y)` has been made: an in-bounds pixel takes both when `z`
    /// is strictly closer than what it holds; otherwise nothing changes.
    pub open spec fn written(before: Raster, after: Raster, x: usize, y: usize, col: u32, z: i64) -> bool {
        let i = before.offset(x as int, y as int);
        &&& after.wf()
        &&& after.spec_width() == before.spec_width()
        &&& after.spec_height() == before.spec_height()
        &&& if before.in_bounds(x as int, y as int) && z < before.depths()[i] {
            &&& after.colors() == before.colors().update(i, col)
            &&& after.depths() == before.depths().update(i, z)
        } else {
            &&& after.colors() == before.colors()
            &&& after.depths() == before.depths()
        }
    }

    pub open spec fn is_cleared(&self) -> bool {
        &&& self.colors().len() == self.spec_width() * self.spec_height()
        &&& self.depths().len() == self.spec_width() * self.spec_height()
        &&& forall|i: int| 0 <= i < self.colors().len() ==> self.colors()[i] == BACKGROUND
        &&& forall|i: int| 0 <= i < self.depths().len() ==> self.depths()[i] == FAR_DEPTH
    }

    /// A write to a pixel outside the raster changes neither buffer, whatever
    /// the raster's size.
    pub proof fn lemma_out_of_range_write_unchanged(
        before: Raster,
        after: Raster,
        x: usize,
        y: usize,
        col: u32,
        z: i64,
    )
        requires
            Self::written(before, after, x, y, col, z),
            !before.in_bounds(x as int, y as int),
        ensures
            after.colors() == before.colors(),
            after.depths() == before.depths(),
            after.spec_width() == before.spec_width(),
            after.spec_height() == before.spec_height(),
    {
    }

    /// Whatever order two writes to one pixel come in, the closer one (`d1`)
    /// is what the pixel holds afterwards, colour and depth.
    pub proof fn lemma_closer_wins(
        r0: Raster,
        a1: Raster,
        a2: Raster,
        b1: Raster,
        b2: Raster,
        x: usize,
        y: usize,
        c1: u32,
        d1: i64,
        c2: u32,
        d2: i64,
    )
        requires
            r0.wf(),
            r0.in_bounds(x as int, y as int),
            d1 < d2,
            d1 < r0.depth_at(x as int, y as int),
            Self::written(r0, a1, x, y, c1, d1),
            Self::written(a1, a2, x, y, c2, d2),
            Self::written(r0, b1, x, y, c2, d2),
            Self::written(b1, b2, x, y, c1, d1),
        ensures
            a2.pixel_at(x as int, y as int) == (c1, d1),
            b2.pixel_at(x as int, y as int) == (c1, d1),
    {
        r0.lemma_offset_in_range(x as int, y as int);
    }

    pub fn new(width: usize, height: usize) -> (r: Raster)
        requires
            width * height <= usize::MAX,
        ensures
            r.wf(),
            r.spec_width() == width,
            r.spec_height() == height,
            r.is_cleared(),
    {
        let n: usize = width * height;
        let r = Raster {
            img_buf: vec![BACKGROUND; n],
            z_buf: vec![FAR_DEPTH; n],
            width,
            height,
        };
        r
    }

    pub fn width(&self) -> (r: usize)
        ensures
            r == self.spec_width(),
    {
        self.width
    }

    pub fn height(&self) -> (r: usize)
        ensures
            r == self.spec_height(),
    {
        self.height
    }

    fn index(&self, x: usize, y: usize) -> (r: usize)
        requires
            self.in_bounds(x as int, y as int),
            self.spec_width() * self.spec_height() <= usize::MAX,
        ensures
            r == self.offset(x as int, y as int),
            r < self.spec_width() * self.spec_height(),
    {
        proof {
            let w = self.width as int;
            let h = self.height as int;
            assert(y * w + x < h * w) by (nonlinear_arith)
                requires
                    0 <= x < w,
                    0 <= y < h,
            ;
            assert(h * w == w * h) by (nonlinear_arith);
        }
        y * self.width + x
    }

    /// Depth-tested write: an in-bounds pixel takes `col` and `z` when `z` is
    /// strictly closer than what it holds; anything else leaves the buffers as
    /// they are.
    pub fn set_pixel(&mut self, x: usize, y: usize, col: u32, z: i64)
        requires
            old(self).wf(),
        ensures
            final(self).wf(),
            final(self).spec_width() == old(self).spec_width(),
            final(self).spec_height() == old(self).spec_height(),
            Self::written(*old(self), *final(self), x, y, col, z),
            forall|px: int, py: int|
                #![trigger final(self).color_at(px, py)]
                #![trigger final(self).depth_at(px, py)]
                old(self).in_bounds(px, py) ==> {
                    if px == x && py == y && z < old(self).depth_at(px, py) {
                        &&& final(self).color_at(px, py) == col
                        &&& final(self).depth_at(px, py) == z
                    } else {
                        &&& final(self).color_at(px, py) == old(self).color_at(px, py)
                        &&& final(self).depth_at(px, py) == old(self).depth_at(px, py)
                    }
                },
    {
        proof {
            assert forall|px: int, py: int| old(self).in_bounds(px, py) && (px != x || py != y)
                && old(self).in_bounds(x as int, y as int) implies old(self).offset(x as int, y as int)
                != old(self).offset(px, py) by {
                old(self).lemma_offset_injective(x as int, y as int, px, py);
            }
            assert forall|px: int, py: int| old(self).in_bounds(px, py) implies 0 <= old(self).offset(
                px,
                py,
            ) < old(self).colors().len() by {
                old(self).lemma_offset_in_range(px, py);
            }
        }
        if x >= self.width || y >= self.height {
            return;
        }
        let i = self.index(x, y);
        if self.z_buf[i] > z {
            self.z_buf.set(i, z);
            self.img_buf.set(i, col);
        }
    }

    /// The colour buffer, row by row.
    pub fn img_buf(&self) -> (r: &[u32])
        requires
            self.wf(),
        ensures
            r@ == self.colors(),
            r@.len() == self.spec_width() * self.spec_height(),
    {
        self.img_buf.as_slice()
    }

    /// The depth buffer, row by row.
    pub fn z_buf(&self) -> (r: &[i64])
        requires
            self.wf(),
        ensures
            r@ == self.depths(),
            r@.len() == self.spec_width() * self.spec_height(),
    {
        self.z_buf.as_slice()
    }

    /// Resets every pixel to the background colour and the far depth.
    pub fn clear(&mut self)
        requires
            old(self).wf(),
        ensures
            final(self).wf(),
            final(self).spec_width() == old(self).spec_width(),
            final(self).spec_height() == old(self).spec_height(),
            final(self).is_cleared(),
    {
        let n = self.img_buf.len();
        let mut i: usize = 0;
        while i < n
            invariant
                self.wf(),
                self.width == old(self).width,
                self.height == old(self).height,
                n == self.img_buf@.len(),
                0 <= i <= n,
                forall|j: int| 0 <= j < i ==> self.img_buf@[j] == BACKGROUND,
                forall|j: int| 0 <= j < i ==> self.z_buf@[j] == FAR_DEPTH,
            decreases n - i,
        {
            self.img_buf.set(i, BACKGROUND);
            self.z_buf.set(i, FAR_DEPTH);
            i = i + 1;
        }
    }
}

} // verus!
