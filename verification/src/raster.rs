//! Rasters: dense row-major grids of 8-bit RGB pixels.

use vstd::prelude::*;

verus! {

/// One pixel: red, green and blue channels, each an 8-bit unsigned value.
#[derive(Clone, Copy, PartialEq, Eq, Structural, Debug)]
pub struct Pixel {
    pub r: u8,
    pub g: u8,
    pub b: u8,
}

/// Channel `c` of pixel `p` as a mathematical integer:
/// 0 is red, 1 is green, everything else is blue.
pub open spec fn channel(p: Pixel, c: int) -> int {
    if c == 0 {
        p.r as int
    } else if c == 1 {
        p.g as int
    } else {
        p.b as int
    }
}

/// The pixel of the row-major sequence `s` (width `w`) at column `x`, row `y`.
pub open spec fn pix(s: Seq<Pixel>, w: int, x: int, y: int) -> Pixel {
    s[y * w + x]
}

/// A raster image: `width` x `height` pixels in row-major order.
#[derive(Clone, PartialEq, Eq, Debug)]
pub struct Raster {
    width: usize,
    height: usize,
    pixels: Vec<Pixel>,
}

impl View for Raster {
    type V = Seq<Pixel>;

    closed spec fn view(&self) -> Seq<Pixel> {
        self.pixels@
    }
}

impl Raster {
    /// Well-formed: at least one pixel in each dimension, and the pixel
    /// sequence holds exactly one pixel per grid cell.
    pub closed spec fn wf(&self) -> bool {
        &&& 1 <= self.width
        &&& 1 <= self.height
        &&& self.pixels@.len() == self.width * self.height
    }

    pub closed spec fn spec_width(&self) -> int {
        self.width as int
    }

    pub closed spec fn spec_height(&self) -> int {
        self.height as int
    }

    /// Dimension facts every well-formed raster satisfies: both dimensions
    /// are positive `usize` values, the pixel count is their product, and
    /// that product fits in a `usize` because the pixels are held one per
    /// grid cell in a single vector.
    pub proof fn size_bound(&self)
        requires
            self.wf(),
        ensures
            1 <= self.spec_width() <= usize::MAX,
            1 <= self.spec_height() <= usize::MAX,
            self@.len() == self.spec_width() * self.spec_height(),
            self.spec_width() * self.spec_height() <= usize::MAX,
    {
        vstd::std_specs::vec::axiom_spec_len(&self.pixels);
    }

    pub fn width(&self) -> (w: usize)
        ensures
            w == self.spec_width(),
    {
        self.width
    }

    pub fn height(&self) -> (h: usize)
        ensures
            h == self.spec_height(),
    {
        self.height
    }

    /// A raster of the given dimensions with every pixel equal to `fill`.
    pub fn new(width: usize, height: usize, fill: Pixel) -> (out: Raster)
        requires
            1 <= width,
            1 <= height,
            width * height <= usize::MAX,
        ensures
            out.wf(),
            out.spec_width() == width,
            out.spec_height() == height,
            out@.len() == width * height,
            forall|i: int| 0 <= i < out@.len() ==> out@[i] == fill,
    {
        let n: usize = width * height;
        let mut pixels: Vec<Pixel> = Vec::new();
        let mut k: usize = 0;
        while k < n
            invariant
                k <= n,
                pixels@.len() == k,
                forall|i: int| 0 <= i < k ==> pixels@[i] == fill,
            decreases n - k,
        {
            pixels.push(fill);
            k = k + 1;
        }
        Raster { width, height, pixels }
    }

    /// Wraps an existing row-major pixel vector as a raster.
    pub fn from_pixels(width: usize, height: usize, pixels: Vec<Pixel>) -> (out: Raster)
        requires
            1 <= width,
            1 <= height,
            pixels@.len() == width * height,
        ensures
            out.wf(),
            out.spec_width() == width,
            out.spec_height() == height,
            out@ == pixels@,
    {
        Raster { width, height, pixels }
    }

    /// The pixel at column `x`, row `y`.
    pub fn get(&self, x: usize, y: usize) -> (p: Pixel)
        requires
            self.wf(),
            x < self.spec_width(),
            y < self.spec_height(),
        ensures
            p == pix(self@, self.spec_width(), x as int, y as int),
    {
        proof {
            vstd::std_specs::vec::axiom_spec_len(&self.pixels);
            let w = self.spec_width();
            let h = self.spec_height();
            assert(y * w + x < w * h) by (nonlinear_arith)
                requires 0 <= x < w, 0 <= y < h;
            assert(0 <= y * w + x) by (nonlinear_arith)
                requires 0 <= x, 0 <= y, 1 <= w;
        }
        self.pixels[y * self.width + x]
    }

    /// Replaces the pixel at column `x`, row `y`.
    pub fn set(&mut self, x: usize, y: usize, p: Pixel)
        requires
            old(self).wf(),
            x < old(self).spec_width(),
            y < old(self).spec_height(),
        ensures
            final(self).wf(),
            final(self).spec_width() == old(self).spec_width(),
            final(self).spec_height() == old(self).spec_height(),
            final(self)@ == old(self)@.update(y * old(self).spec_width() + x, p),
    {
        proof {
            vstd::std_specs::vec::axiom_spec_len(&self.pixels);
            let w = self.spec_width();
            let h = self.spec_height();
            assert(y * w + x < w * h) by (nonlinear_arith)
                requires 0 <= x < w, 0 <= y < h;
            assert(0 <= y * w + x) by (nonlinear_arith)
                requires 0 <= x, 0 <= y, 1 <= w;
        }
        let idx: usize = y * self.width + x;
        self.pixels.set(idx, p);
    }
}

} // verus!
