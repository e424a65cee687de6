use vstd::prelude::*;

verus! {

/// One texel: red, green and blue channels.
#[derive(Clone, Copy, PartialEq, Eq, Structural, Debug)]
pub struct Rgb {
    pub r: u8,
    pub g: u8,
    pub b: u8,
}

/// Colour that a lookup outside the texture yields (opaque white).
pub open spec fn white() -> Rgb {
    Rgb { r: 255, g: 255, b: 255 }
}

/// A colour packed as one 32-bit value: top byte zero, then red, green, blue.
pub open spec fn packed(c: Rgb) -> u32 {
    (c.r as int * 0x10000 + c.g as int * 0x100 + c.b as int) as u32
}

/// Packs a colour as `0RGB`, the big-endian reading of `[0, r, g, b]`.
pub fn pack_rgb(c: Rgb) -> (r: u32)
    ensures
        r == packed(c),
        r as int == c.r as int * 0x10000 + c.g as int * 0x100 + c.b as int,
{
    (c.r as u32) * 0x10000 + (c.g as u32) * 0x100 + (c.b as u32)
}

/// A flat, row-major store of texels.
pub struct Texture {
    pixels: Vec<Rgb>,
    width: u32,
    height: u32,
}

impl Texture {
    pub closed spec fn spec_width(&self) -> nat {
        self.width as nat
    }

    pub closed spec fn spec_height(&self) -> nat {
        self.height as nat
    }

    pub fn width(&self) -> (r: u32)
        ensures
            r == self.spec_width(),
    {
        self.width
    }

    pub fn height(&self) -> (r: u32)
        ensures
            r == self.spec_height(),
    {
        self.height
    }

    pub closed spec fn texels(&self) -> Seq<Rgb> {
        self.pixels@
    }

    pub open spec fn wf(&self) -> bool {
        &&& self.texels().len() == self.spec_width() * self.spec_height()
        &&& self.spec_width() * self.spec_height() <= usize::MAX
    }

    /// What a lookup at `(x, y)` yields: the stored texel inside the texture,
    /// white outside it.
    pub open spec fn texel_at(&self, x: int, y: int) -> Rgb {
        if 0 <= x < self.spec_width() && 0 <= y < self.spec_height() {
            self.texels()[y * self.spec_width() + x]
        } else {
            white()
        }
    }

    pub fn new(pixels: Vec<Rgb>, width: u32, height: u32) -> (r: Texture)
        requires
            pixels@.len() == width * height,
            width * height <= usize::MAX,
        ensures
            r.wf(),
            r.texels() == pixels@,
            r.spec_width() == width,
            r.spec_height() == height,
    {
        Texture { pixels, width, height }
    }

    /// Builds a texture from raw RGBA bytes, row by row, dropping the alpha
    /// channel.
    pub fn from_rgba8(raw: &[u8], width: u32, height: u32) -> (r: Texture)
        requires
            raw@.len() == 4 * (width * height),
            4 * (width * height) <= usize::MAX,
        ensures
            r.wf(),
            r.spec_width() == width,
            r.spec_height() == height,
            r.texels().len() == width * height,
            forall|i: int|
                0 <= i < width * height ==> #[trigger] r.texels()[i] == (Rgb {
                    r: raw@[4 * i],
                    g: raw@[4 * i + 1],
                    b: raw@[4 * i + 2],
                }),
    {
        let n: usize = (width as usize) * (height as usize);
        let mut pixels: Vec<Rgb> = Vec::new();
        let mut i: usize = 0;
        while i < n
            invariant
                n == width * height,
                4 * n <= usize::MAX,
                raw@.len() == 4 * n,
                i <= n,
                pixels@.len() == i,
                forall|j: int|
                    0 <= j < i ==> #[trigger] pixels@[j] == (Rgb {
                        r: raw@[4 * j],
                        g: raw@[4 * j + 1],
                        b: raw@[4 * j + 2],
                    }),
            decreases n - i,
        {
            let k: usize = 4 * i;
            pixels.push(Rgb { r: raw[k], g: raw[k + 1], b: raw[k + 2] });
            i = i + 1;
        }
        Texture { pixels, width, height }
    }

    /// Texel at column `x`, row `y`; white where `(x, y)` lies outside.
    pub fn get_pixel(&self, x: usize, y: usize) -> (r: Rgb)
        requires
            self.wf(),
        ensures
            r == self.texel_at(x as int, y as int),
    {
        if x >= self.width as usize || y >= self.height as usize {
            return Rgb { r: 255, g: 255, b: 255 };
        }
        let w = self.width as usize;
        proof {
            let h = self.height as int;
            assert(y * w + x < h * w) by (nonlinear_arith)
                requires
                    0 <= x < w,
                    0 <= y < h,
            ;
            assert(h * w == w * h) by (nonlinear_arith);
        }
        self.pixels[y * w + x]
    }
}

/// Surface description of a mesh: its diffuse texture.
pub struct Material {
    pub diffuse_texture: Texture,
}

impl Material {
    pub fn new(diffuse_texture: Texture) -> (r: Material)
        ensures
            r.diffuse_texture == diffuse_texture,
    {
        Material { diffuse_texture }
    }
}

} // verus!
