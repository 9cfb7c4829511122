use vstd::prelude::*;
use vstd::arithmetic::div_mod::lemma_fundamental_div_mod;
use vstd::arithmetic::div_mod::lemma_fundamental_div_mod_converse;
use vstd::arithmetic::div_mod::lemma_mod_division_less_than_divisor;
use vstd::arithmetic::div_mod::lemma_multiply_divide_lt;
use vstd::arithmetic::mul::lemma_mul_inequality;
use vstd::pervasive::VecAdditionalExecFns;
use crate::pixel::Pixel;

verus! {

/// Mathematical model of an image: a width, a height, and the pixels in
/// row-major order (the pixel at `(x, y)` sits at index `y * width + x`).
#[verifier::ext_equal]
pub struct ImageView {
    pub width: nat,
    pub height: nat,
    pub pixels: Seq<Pixel>,
}

impl ImageView {
    /// The pixel sequence holds exactly one entry per coordinate pair.
    pub open spec fn wf(self) -> bool {
        self.pixels.len() == self.width * self.height
    }

    pub open spec fn in_bounds(self, x: int, y: int) -> bool {
        0 <= x < self.width && 0 <= y < self.height
    }

    /// The pixel at `(x, y)`, with `x` growing rightward and `y` downward.
    pub open spec fn pixel(self, x: int, y: int) -> Pixel {
        self.pixels[y * self.width as int + x]
    }
}

/// A `width` by `height` image whose every pixel is `p`.
pub open spec fn filled_view(width: nat, height: nat, p: Pixel) -> ImageView {
    ImageView { width, height, pixels: Seq::new(width * height, |i: int| p) }
}

/// A fresh canvas: every pixel transparent black.
pub open spec fn blank_view(width: nat, height: nat) -> ImageView {
    filled_view(width, height, Pixel { r: 0, g: 0, b: 0, a: 0 })
}

/// Row-major position of the coordinate pair `(x, y)` in a row of width `w`.
pub proof fn lemma_flat_index(w: int, x: int, y: int)
    requires
        0 <= x < w,
        0 <= y,
    ensures
        0 <= y * w + x,
        (y * w + x) % w == x,
        (y * w + x) / w == y,
    {
    lemma_mul_inequality(0, y, w);
    lemma_fundamental_div_mod_converse(y * w + x, w, y, x);
}

/// A coordinate pair inside a `w` by `h` grid has its row-major index below `w * h`.
pub proof fn lemma_flat_index_bound(w: int, h: int, x: int, y: int)
    requires
        0 <= x < w,
        0 <= y < h,
    ensures
        0 <= y * w + x < w * h,
    {
    assert(0 <= y * w + x < w * h) by (nonlinear_arith)
        requires
            0 <= x < w,
            0 <= y < h,
    ;
}

/// Any row-major index below `w * h` decomposes into coordinates `(i % w, i / w)`.
pub proof fn lemma_flat_index_decompose(w: int, h: int, i: int)
    requires
        0 < w,
        0 <= i < w * h,
    ensures
        0 <= i % w < w,
        0 <= i / w < h,
        (i / w) * w + (i % w) == i,
    {
    lemma_mod_division_less_than_divisor(i, w);
    lemma_multiply_divide_lt(i, w, h);
    lemma_fundamental_div_mod(i, w);
    assert(i / w >= 0) by (nonlinear_arith)
        requires
            0 < w,
            0 <= i,
    ;
}

/// Two well-formed images of equal size that agree on every coordinate are equal.
pub proof fn lemma_pixelwise_eq(a: ImageView, b: ImageView)
    requires
        a.wf(),
        b.wf(),
        a.width == b.width,
        a.height == b.height,
        forall|x: int, y: int| a.in_bounds(x, y) ==> a.pixel(x, y) == b.pixel(x, y),
    ensures
        a == b,
    {
    if a.width > 0 {
        assert forall|i: int| 0 <= i < a.pixels.len() implies a.pixels[i] == b.pixels[i] by {
            lemma_flat_index_decompose(a.width as int, a.height as int, i);
            let x = i % a.width as int;
            let y = i / a.width as int;
            assert(a.in_bounds(x, y));
            assert(a.pixel(x, y) == b.pixel(x, y));
        }
        assert(a.pixels =~= b.pixels);
    } else {
        assert(a.width * a.height == 0) by (nonlinear_arith)
            requires
                a.width == 0,
        ;
        assert(a.pixels =~= b.pixels);
    }
    assert(a =~= b);
}

/// An image buffer: a rectangular grid of RGBA pixels, stored row by row.
pub struct Image {
    pub width: u32,
    pub height: u32,
    pub pixels: Vec<Pixel>,
}

impl View for Image {
    type V = ImageView;

    open spec fn view(&self) -> ImageView {
        ImageView {
            width: self.width as nat,
            height: self.height as nat,
            pixels: self.pixels@,
        }
    }
}

impl Image {
    /// Allocates a `width` by `height` image with every pixel set to `p`.
    pub fn new_fill(width: u32, height: u32, p: Pixel) -> (img: Image)
        requires
            width * height <= usize::MAX,
        ensures
            img@ == filled_view(width as nat, height as nat, p),
            img@.wf(),
    {
        let total: usize = (width as usize) * (height as usize);
        let mut pixels: Vec<Pixel> = Vec::new();
        let mut i: usize = 0;
        while i < total
            invariant
                i <= total,
                total == width * height,
                pixels@.len() == i,
                forall|j: int| 0 <= j < i ==> pixels@[j] == p,
            decreases total - i,
        {
            pixels.push(p);
            i = i + 1;
        }
        let img = Image { width, height, pixels };
        proof {
            assert(img@.pixels =~= filled_view(width as nat, height as nat, p).pixels);
            assert(img@ =~= filled_view(width as nat, height as nat, p));
        }
        img
    }

    /// Allocates a fully transparent `width` by `height` canvas.
    pub fn blank(width: u32, height: u32) -> (img: Image)
        requires
            width * height <= usize::MAX,
        ensures
            img@ == blank_view(width as nat, height as nat),
            img@.wf(),
    {
        Image::new_fill(width, height, Pixel { r: 0, g: 0, b: 0, a: 0 })
    }

    pub fn width(&self) -> (w: u32)
        ensures
            w == self@.width,
    {
        self.width
    }

    pub fn height(&self) -> (h: u32)
        ensures
            h == self@.height,
    {
        self.height
    }

    /// Reads the pixel at `(x, y)`.
    pub fn get(&self, x: u32, y: u32) -> (p: Pixel)
        requires
            self@.wf(),
            x < self@.width,
            y < self@.height,
        ensures
            p == self@.pixel(x as int, y as int),
    {
        let _len: usize = self.pixels.len();
        proof {
            lemma_flat_index_bound(self@.width as int, self@.height as int, x as int, y as int);
        }
        let idx: usize = (y as usize) * (self.width as usize) + (x as usize);
        self.pixels[idx]
    }

    /// Overwrites the pixel at `(x, y)`; every other pixel keeps its value.
    pub fn set(&mut self, x: u32, y: u32, p: Pixel)
        requires
            old(self)@.wf(),
            x < old(self)@.width,
            y < old(self)@.height,
        ensures
            final(self)@.wf(),
            final(self)@.width == old(self)@.width,
            final(self)@.height == old(self)@.height,
            final(self)@.pixel(x as int, y as int) == p,
            forall|x2: int, y2: int|
                old(self)@.in_bounds(x2, y2) && !(x2 == x as int && y2 == y as int)
                    ==> final(self)@.pixel(x2, y2) == old(self)@.pixel(x2, y2),
    {
        let _len: usize = self.pixels.len();
        proof {
            lemma_flat_index_bound(self@.width as int, self@.height as int, x as int, y as int);
            lemma_flat_index(self@.width as int, x as int, y as int);
        }
        let idx: usize = (y as usize) * (self.width as usize) + (x as usize);
        self.pixels.set(idx, p);
        proof {
            let w = old(self)@.width as int;
            assert forall|x2: int, y2: int|
                old(self)@.in_bounds(x2, y2) && !(x2 == x as int && y2 == y as int)
                    implies final(self)@.pixel(x2, y2) == old(self)@.pixel(x2, y2) by {
                lemma_flat_index_bound(w, old(self)@.height as int, x2, y2);
                lemma_flat_index(w, x2, y2);
                lemma_flat_index(w, x as int, y as int);
                assert(y2 * w + x2 != y as int * w + x as int);
            }
        }
    }
}

} // verus!
