//! RGBA pixels and rectangular pixel buffers.

use vstd::prelude::*;
use crate::color::Color;

verus! {

/// A straight-alpha RGBA pixel, one byte per channel.
#[derive(Clone, Copy, Debug, PartialEq, Eq, Structural)]
pub struct Pixel {
    pub r: u8,
    pub g: u8,
    pub b: u8,
    pub a: u8,
}

pub open spec fn with_alpha(c: Color, a: u8) -> Pixel {
    Pixel { r: c.r, g: c.g, b: c.b, a }
}

impl Pixel {
    /// The color `c` with alpha `a`.
    pub fn from_color(c: Color, a: u8) -> (r: Pixel)
        ensures
            r == with_alpha(c, a),
    {
        Pixel { r: c.r, g: c.g, b: c.b, a }
    }
}

/// A row-major buffer of `width * height` pixels.
#[derive(Clone, Debug)]
pub struct Canvas {
    pub width: u32,
    pub height: u32,
    pub pixels: Vec<Pixel>,
}

impl Canvas {
    pub open spec fn wf(&self) -> bool {
        self.pixels@.len() == self.width as int * self.height as int
    }

    pub open spec fn same_shape(&self, other: &Canvas) -> bool {
        self.width == other.width && self.height == other.height
    }

    /// A canvas from its pixels, row by row; `None` where their number is not
    /// `width * height`.
    pub fn from_pixels(width: u32, height: u32, pixels: Vec<Pixel>) -> (r: Option<Canvas>)
        ensures
            r is Some <==> pixels@.len() == width as int * height as int,
            r is Some ==> (r->Some_0.width == width && r->Some_0.height == height
                && r->Some_0.pixels@ == pixels@),
    {
        let w = width as u64;
        let h = height as u64;
        proof {
            assert(w * h <= 0xffff_ffff_ffff_ffffu64) by (nonlinear_arith)
                requires
                    w <= 0xffff_ffffu64,
                    h <= 0xffff_ffffu64,
            ;
        }
        if pixels.len() as u64 == w * h {
            Some(Canvas { width, height, pixels })
        } else {
            None
        }
    }

    /// A canvas of the same shape as `shape`, every pixel `fill`.
    pub fn filled_like(shape: &Canvas, fill: Pixel) -> (r: Canvas)
        requires
            shape.wf(),
        ensures
            r.wf(),
            r.same_shape(shape),
            r.pixels@ == Seq::new(shape.pixels@.len(), |i: int| fill),
    {
        let n = shape.pixels.len();
        let mut pixels: Vec<Pixel> = Vec::new();
        let mut i: usize = 0;
        while i < n
            invariant
                n == shape.pixels@.len(),
                i <= n,
                pixels@ == Seq::new(i as nat, |k: int| fill),
            decreases n - i,
        {
            pixels.push(fill);
            i = i + 1;
            assert(pixels@ =~= Seq::new(i as nat, |k: int| fill));
        }
        assert(pixels@ =~= Seq::new(shape.pixels@.len(), |k: int| fill));
        Canvas { width: shape.width, height: shape.height, pixels }
    }

    /// The pixel at column `x`, row `y`.
    pub fn get_pixel(&self, x: u32, y: u32) -> (r: Pixel)
        requires
            self.wf(),
            x < self.width,
            y < self.height,
        ensures
            r == self.pixels@[y as int * self.width as int + x as int],
    {
        let n = self.pixels.len();
        proof {
            let w = self.width as int;
            let h = self.height as int;
            assert(0 <= y as int * w <= y as int * w + x < w * h) by (nonlinear_arith)
                requires
                    0 <= x < w,
                    0 <= y < h,
            ;
            assert(w * h == n);
        }
        let i = y as usize * self.width as usize + x as usize;
        self.pixels[i]
    }
}

} // verus!
