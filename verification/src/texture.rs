//! Texture images held in memory, their sampler, and the table that binds
//! wall symbols to textures.

use std::collections::HashMap;
use vstd::prelude::*;
use vstd::arithmetic::div_mod::lemma_mod_multiples_vanish;
use vstd::utf8::char_u32_cast;
use crate::color::Color;
use crate::fixed::{clamp, clamp_spec, lemma_product_range, mod_floor, MAX_DIMENSION, ONE};

verus! {

broadcast use vstd::std_specs::hash::group_hash_axioms;

/// An image of `w` by `h` colors, at least one pixel each way, that does not
/// change after it is made.
#[derive(Debug)]
pub struct CpuImage {
    w: usize,
    h: usize,
    pixels: Vec<Color>,
}

/// The column that the horizontal coordinate `u` selects in an image `w`
/// pixels wide: `u` wraps around at one, and the range from zero to one is
/// spread over the columns before the last.
pub open spec fn sample_column(w: int, u: int) -> int {
    ((u % (ONE as int)) * (w - 1)) / (ONE as int)
}

/// The row that the vertical coordinate `v` selects in an image `h` pixels
/// high: `v` is limited to the range from zero to one, zero selects the top
/// row and one the bottom row.
pub open spec fn sample_row(h: int, v: int) -> int {
    (clamp_spec(v, 0, ONE as int) * (h - 1)) / (ONE as int)
}

/// In a rectangle of `w` columns and `h` rows, the position of `(x, y)` in
/// row-major order is not negative and stays below `w * h`.
proof fn lemma_texel_index(w: int, h: int, x: int, y: int)
    by (nonlinear_arith)
    requires
        0 <= x < w,
        0 <= y < h,
        w <= MAX_DIMENSION,
        h <= MAX_DIMENSION,
    ensures
        w * h <= MAX_DIMENSION * MAX_DIMENSION,
        0 <= y * w,
        0 <= y * w + x < w * h,
{
}

/// A fraction `f` of one, applied to `n`, gives at most `n`; a fraction
/// below one gives less than `n` for a positive `n`.
proof fn lemma_fraction_of(f: int, n: int)
    by (nonlinear_arith)
    requires
        0 <= f <= ONE,
        0 <= n,
        ONE == 10_000,
    ensures
        0 <= (f * n) / (ONE as int) <= n,
        f < ONE && n > 0 ==> (f * n) / (ONE as int) < n,
{
}

/// The sampled column and row are a pixel of the image: for every `u` and
/// `v`, `0 <= sample_column(w, u) < w` and `0 <= sample_row(h, v) < h`.
pub proof fn lemma_sample_in_bounds(w: int, h: int, u: int, v: int)
    requires
        w >= 1,
        h >= 1,
    ensures
        0 <= sample_column(w, u) < w,
        0 <= sample_row(h, v) < h,
{
    lemma_fraction_of(u % (ONE as int), w - 1);
    lemma_fraction_of(clamp_spec(v, 0, ONE as int), h - 1);
}

/// Sampling wraps horizontally: moving `u` by any whole number `k` selects
/// the same column.
pub proof fn lemma_sample_wraps(w: int, u: int, k: int)
    ensures
        sample_column(w, u + k * ONE) == sample_column(w, u),
{
    lemma_mod_multiples_vanish(k, u, ONE as int);
    assert(ONE * k + u == u + k * ONE) by (nonlinear_arith);
}

impl CpuImage {
    #[verifier::type_invariant]
    spec fn inv(&self) -> bool {
        &&& 1 <= self.w <= MAX_DIMENSION
        &&& 1 <= self.h <= MAX_DIMENSION
        &&& self.pixels@.len() == self.w * self.h
    }

    /// The number of columns.
    pub closed spec fn spec_width(&self) -> usize {
        self.w
    }

    /// The number of rows.
    pub closed spec fn spec_height(&self) -> usize {
        self.h
    }

    /// The color at column `x`, row `y`.
    pub closed spec fn texel(&self, x: int, y: int) -> Color {
        self.pixels@[y * self.w + x]
    }

    /// The color that the coordinates `(u, v)` select.
    pub open spec fn sample_spec(&self, u: int, v: int) -> Color {
        self.texel(
            sample_column(self.spec_width() as int, u),
            sample_row(self.spec_height() as int, v),
        )
    }

    /// Whether `w`, `h` and `pixels` describe an image: both sizes from one
    /// to the largest dimension, and one color for each pixel.
    pub open spec fn valid_parts(w: usize, h: usize, pixels: Seq<Color>) -> bool {
        &&& 1 <= w <= MAX_DIMENSION
        &&& 1 <= h <= MAX_DIMENSION
        &&& pixels.len() == w * h
    }

    /// The image of `w` by `h` pixels whose colors are `pixels`, row by row
    /// from the top. `None` where the parts do not describe an image.
    pub fn new(w: usize, h: usize, pixels: Vec<Color>) -> (img: Option<CpuImage>)
        ensures
            img.is_some() == Self::valid_parts(w, h, pixels@),
            img matches Some(i) ==> {
                &&& i.spec_width() == w
                &&& i.spec_height() == h
                &&& forall|x: int, y: int|
                    0 <= x < w && 0 <= y < h ==> i.texel(x, y) == pixels@[y * w + x]
            },
    {
        if w < 1 || w > MAX_DIMENSION || h < 1 || h > MAX_DIMENSION {
            return None;
        }
        assert(w * h <= MAX_DIMENSION * MAX_DIMENSION) by (nonlinear_arith)
            requires
                w <= MAX_DIMENSION,
                h <= MAX_DIMENSION,
        ;
        if pixels.len() != w * h {
            return None;
        }
        Some(CpuImage { w, h, pixels })
    }

    /// The number of columns.
    #[verifier::when_used_as_spec(spec_width)]
    pub fn width(&self) -> (w: usize)
        ensures
            w == self.spec_width(),
            1 <= w <= MAX_DIMENSION,
    {
        proof {
            use_type_invariant(self);
        }
        self.w
    }

    /// The number of rows.
    #[verifier::when_used_as_spec(spec_height)]
    pub fn height(&self) -> (h: usize)
        ensures
            h == self.spec_height(),
            1 <= h <= MAX_DIMENSION,
    {
        proof {
            use_type_invariant(self);
        }
        self.h
    }

    /// The color at `(u, v)`: `u` tiles, wrapping around at one; `v` is
    /// limited to the range from zero to one.
    pub fn sample_repeat(&self, u: i64, v: i64) -> (c: Color)
        ensures
            c == self.sample_spec(u as int, v as int),
    {
        proof {
            use_type_invariant(self);
            lemma_sample_in_bounds(self.w as int, self.h as int, u as int, v as int);
        }
        let uu: i64 = mod_floor(u as i128, ONE as i128) as i64;
        let vv: i64 = clamp(v, 0, ONE);
        proof {
            lemma_product_range(uu as int, self.w - 1, ONE as int, MAX_DIMENSION as int);
            lemma_product_range(vv as int, self.h - 1, ONE as int, MAX_DIMENSION as int);
        }
        let x: usize = ((uu as u64 * (self.w as u64 - 1)) / (ONE as u64)) as usize;
        let y: usize = ((vv as u64 * (self.h as u64 - 1)) / (ONE as u64)) as usize;
        proof {
            lemma_texel_index(self.w as int, self.h as int, x as int, y as int);
        }
        self.pixels[y * self.w + x]
    }
}

impl Clone for CpuImage {
    /// A copy of the image: the same size, and the same color in every
    /// pixel.
    fn clone(&self) -> (copy: CpuImage)
        ensures
            copy.spec_width() == self.spec_width(),
            copy.spec_height() == self.spec_height(),
            forall|x: int, y: int| copy.texel(x, y) == self.texel(x, y),
    {
        proof {
            use_type_invariant(self);
        }
        let count: usize = self.pixels.len();
        let mut pixels: Vec<Color> = Vec::new();
        let mut i: usize = 0;
        while i < count
            invariant
                i <= count,
                count == self.pixels@.len(),
                pixels@ == self.pixels@.take(i as int),
            decreases count - i,
        {
            pixels.push(self.pixels[i]);
            proof {
                assert(pixels@ =~= self.pixels@.take(i + 1));
            }
            i += 1;
        }
        proof {
            assert(pixels@ =~= self.pixels@);
        }
        CpuImage { w: self.w, h: self.h, pixels }
    }
}

/// The number by which the table of textures finds a symbol: its code
/// point.
pub open spec fn symbol_key(ch: char) -> u32 {
    ch as u32
}

/// The textures of the walls: one default texture, and a texture of its own
/// for each symbol that was given one.
#[derive(Debug)]
pub struct WallTex {
    default: CpuImage,
    bound: HashMap<u32, CpuImage>,
}

impl WallTex {
    /// Whether the symbol `ch` has a texture of its own.
    pub closed spec fn is_bound(&self, ch: char) -> bool {
        self.bound@.contains_key(symbol_key(ch))
    }

    /// The texture for the symbol `ch`: its own where it has one, the default
    /// texture otherwise.
    pub closed spec fn texture_for(&self, ch: char) -> CpuImage {
        if self.is_bound(ch) {
            self.bound@[symbol_key(ch)]
        } else {
            self.default
        }
    }

    /// The table in which every symbol has the texture `default`.
    pub fn new(default: CpuImage) -> (walls: WallTex)
        ensures
            forall|ch: char| !walls.is_bound(ch),
            forall|ch: char| walls.texture_for(ch) == default,
    {
        WallTex { default, bound: HashMap::new() }
    }

    /// Binds the texture `tex` to the symbol `ch`, in place of any texture
    /// that the symbol had. Every other symbol keeps its texture.
    pub fn insert(&mut self, ch: char, tex: CpuImage)
        ensures
            final(self).texture_for(ch) == tex,
            final(self).is_bound(ch),
            forall|c: char|
                c != ch ==> final(self).texture_for(c) == old(self).texture_for(c)
                    && final(self).is_bound(c) == old(self).is_bound(c),
    {
        self.bound.insert(ch as u32, tex);
        proof {
            assert forall|c: char| c != ch implies self.texture_for(c) == old(self).texture_for(c)
                && self.is_bound(c) == old(self).is_bound(c) by {
                char_u32_cast(c, symbol_key(c));
                char_u32_cast(ch, symbol_key(ch));
            }
        }
    }

    /// The texture for the symbol `ch`.
    pub fn for_cell(&self, ch: char) -> (tex: &CpuImage)
        ensures
            *tex == self.texture_for(ch),
    {
        let key: u32 = ch as u32;
        match self.bound.get(&key) {
            Some(tex) => tex,
            None => &self.default,
        }
    }
}

} // verus!
