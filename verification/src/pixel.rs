//! The pixel buffer that the rendering pipeline reads and, for dithering,
//! mutates in place: a rectangular grid of RGBA pixels, row-major.
//!
//! The buffer is produced by an external image source (decode + resize) and
//! handed to the pipeline as plain channel values; the pipeline never touches
//! the source itself.

use vstd::prelude::*;

verus! {

/// One RGBA pixel, channels in 0..=255.
#[derive(Clone, Copy, PartialEq, Eq, Structural, Debug)]
pub struct Pixel {
    pub r: u8,
    pub g: u8,
    pub b: u8,
    pub a: u8,
}

/// A width x height grid of pixels, row-major: the pixel at column x, row y
/// sits at index y * width + x.
pub struct PixelBuffer {
    width: usize,
    height: usize,
    data: Vec<Pixel>,
}

impl PixelBuffer {
    /// Well-formedness: the flat data holds exactly width * height pixels.
    pub closed spec fn wf(self) -> bool {
        self.data@.len() == self.width * self.height
    }

    pub closed spec fn spec_width(self) -> int {
        self.width as int
    }

    pub closed spec fn spec_height(self) -> int {
        self.height as int
    }

    /// The grid contents as a flat row-major sequence.
    pub closed spec fn pixels(self) -> Seq<Pixel> {
        self.data@
    }

    /// The pixel at column x, row y.
    pub open spec fn pixel(self, x: int, y: int) -> Pixel {
        self.pixels()[y * self.spec_width() + x]
    }

    /// The dimensions are machine sizes: both fit in usize.
    pub proof fn lemma_dims_bounded(self)
        ensures
            0 <= self.spec_width() <= usize::MAX,
            0 <= self.spec_height() <= usize::MAX,
    {
    }

    /// Index arithmetic: a coordinate inside the grid addresses a slot
    /// inside the flat data.
    pub proof fn lemma_index_in_bounds(self, x: int, y: int)
        requires
            self.wf(),
            0 <= x < self.spec_width(),
            0 <= y < self.spec_height(),
        ensures
            0 <= y * self.spec_width() + x < self.pixels().len(),
    {
        let w = self.spec_width();
        let h = self.spec_height();
        assert(0 <= y * w + x < w * h) by (nonlinear_arith)
            requires
                0 <= x < w,
                0 <= y < h,
        ;
    }

    /// An empty buffer of the given dimensions, filled with one pixel value.
    pub fn new(width: usize, height: usize, fill: Pixel) -> (buf: PixelBuffer)
        requires
            width * height <= usize::MAX,
        ensures
            buf.wf(),
            buf.spec_width() == width,
            buf.spec_height() == height,
            buf.pixels() == Seq::new((width * height) as nat, |i: int| fill),
    {
        let total: usize = width * height;
        let mut data: Vec<Pixel> = Vec::new();
        let mut i: usize = 0;
        while i < total
            invariant
                i <= total,
                data@.len() == i,
                data@ == Seq::new(i as nat, |j: int| fill),
            decreases total - i,
        {
            data.push(fill);
            assert(data@ =~= Seq::new((i + 1) as nat, |j: int| fill));
            i = i + 1;
        }
        PixelBuffer { width, height, data }
    }

    /// A buffer from an already-flattened row-major pixel vector.
    pub fn from_pixels(width: usize, height: usize, data: Vec<Pixel>) -> (buf: PixelBuffer)
        requires
            data@.len() == width * height,
        ensures
            buf.wf(),
            buf.spec_width() == width,
            buf.spec_height() == height,
            buf.pixels() == data@,
    {
        PixelBuffer { width, height, data }
    }

    pub fn width(&self) -> (w: usize)
        ensures
            w == self.spec_width(),
    {
        self.width
    }

    pub fn height(&self) -> (h: usize)
        ensures
            h == self.spec_height(),
    {
        self.height
    }

    pub fn get_pixel(&self, x: usize, y: usize) -> (p: Pixel)
        requires
            self.wf(),
            x < self.spec_width(),
            y < self.spec_height(),
        ensures
            p == self.pixel(x as int, y as int),
    {
        proof {
            self.lemma_index_in_bounds(x as int, y as int);
        }
        let n: usize = self.data.len();
        assert(y * self.width + x < n);
        self.data[y * self.width + x]
    }

    pub fn set_pixel(&mut self, x: usize, y: usize, p: Pixel)
        requires
            old(self).wf(),
            x < old(self).spec_width(),
            y < old(self).spec_height(),
        ensures
            final(self).wf(),
            final(self).spec_width() == old(self).spec_width(),
            final(self).spec_height() == old(self).spec_height(),
            final(self).pixels() == old(self).pixels().update(
                y * old(self).spec_width() + x,
                p,
            ),
            final(self).pixel(x as int, y as int) == p,
    {
        proof {
            self.lemma_index_in_bounds(x as int, y as int);
        }
        let n: usize = self.data.len();
        assert(y * self.width + x < n);
        let idx: usize = y * self.width + x;
        self.data.set(idx, p);
    }
}

} // verus!
