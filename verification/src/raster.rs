//! A rectangular pixel buffer in row-major order.

use vstd::prelude::*;

verus! {

/// An image: `width * height` pixels, row-major.
pub struct Image<P> {
    width: u32,
    height: u32,
    pixels: Vec<P>,
}

impl<P: Copy> Image<P> {
    pub closed spec fn spec_width(self) -> u32 {
        self.width
    }

    pub closed spec fn spec_height(self) -> u32 {
        self.height
    }

    /// The pixels, row-major: the pixel at `(x, y)` is at `y * width + x`.
    pub closed spec fn spec_pix(self) -> Seq<P> {
        self.pixels@
    }

    /// The buffer holds exactly `width * height` pixels.
    pub open spec fn wf(self) -> bool {
        self.spec_pix().len() == self.spec_width() * self.spec_height()
    }

    /// The row-major position of the pixel at `(x, y)`.
    pub open spec fn spec_index(self, x: int, y: int) -> int {
        y * self.spec_width() + x
    }

    /// Wrap a row-major pixel buffer of the exact size.
    pub fn new(width: u32, height: u32, pixels: Vec<P>) -> (img: Image<P>)
        requires
            pixels@.len() == width * height,
        ensures
            img.wf(),
            img.spec_width() == width,
            img.spec_height() == height,
            img.spec_pix() == pixels@,
    {
        Image { width, height, pixels }
    }

    /// An image of the given size with every pixel equal to `fill`.
    pub fn new_filled(width: u32, height: u32, fill: P) -> (img: Image<P>)
        requires
            width * height <= usize::MAX,
        ensures
            img.wf(),
            img.spec_width() == width,
            img.spec_height() == height,
            img.spec_pix() == Seq::new((width * height) as nat, |i: int| fill),
    {
        let total: u64 = (width as u64) * (height as u64);
        let mut pixels: Vec<P> = Vec::new();
        let mut i: u64 = 0;
        while i < total
            invariant
                0 <= i <= total,
                total == width * height <= usize::MAX,
                pixels@ =~= Seq::new(i as nat, |j: int| fill),
            decreases total - i,
        {
            pixels.push(fill);
            i = i + 1;
        }
        proof {
            assert(pixels@ =~= Seq::new((width * height) as nat, |j: int| fill));
        }
        Image { width, height, pixels }
    }

    pub fn width(&self) -> (w: u32)
        ensures
            w == self.spec_width(),
    {
        self.width
    }

    pub fn height(&self) -> (h: u32)
        ensures
            h == self.spec_height(),
    {
        self.height
    }

    /// The whole buffer, row-major.
    pub fn pixels(&self) -> (p: &Vec<P>)
        ensures
            p@ == self.spec_pix(),
    {
        &self.pixels
    }

    pub fn get_pixel(&self, x: u32, y: u32) -> (p: P)
        requires
            self.wf(),
            x < self.spec_width(),
            y < self.spec_height(),
        ensures
            p == self.spec_pix()[self.spec_index(x as int, y as int)],
    {
        let n = self.pixels.len();
        proof {
            lemma_row_major_index(
                x as int,
                y as int,
                self.spec_width() as int,
                self.spec_height() as int,
            );
        }
        let idx: usize = (y as usize) * (self.width as usize) + (x as usize);
        self.pixels[idx]
    }

    pub fn put_pixel(&mut self, x: u32, y: u32, p: P)
        requires
            old(self).wf(),
            x < old(self).spec_width(),
            y < old(self).spec_height(),
        ensures
            final(self).wf(),
            final(self).spec_width() == old(self).spec_width(),
            final(self).spec_height() == old(self).spec_height(),
            final(self).spec_pix() == old(self).spec_pix().update(
                old(self).spec_index(x as int, y as int),
                p,
            ),
    {
        let n = self.pixels.len();
        proof {
            lemma_row_major_index(
                x as int,
                y as int,
                self.spec_width() as int,
                self.spec_height() as int,
            );
        }
        let idx: usize = (y as usize) * (self.width as usize) + (x as usize);
        self.pixels.set(idx, p);
    }
}

/// In a `w`-wide, `h`-tall row-major buffer, `(x, y)` lies at a position
/// strictly inside `[0, w * h)`.
pub proof fn lemma_row_major_index(x: int, y: int, w: int, h: int)
    requires
        0 <= x < w,
        0 <= y < h,
    ensures
        0 <= y * w + x < w * h,
{
    assert(y * w + x < w * h) by (nonlinear_arith)
        requires
            0 <= x < w,
            0 <= y < h,
    ;
    vstd::arithmetic::mul::lemma_mul_nonnegative(y, w);
}

} // verus!
