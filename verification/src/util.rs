//! A generic fixed-dimension texture: a flat row-major pixel store with
//! its dimensions checked at construction. Continuous-coordinate
//! sampling lives with the host, which owns the floating-point wrap and
//! clamp policy; the store itself only offers discrete indexed access.

use vstd::prelude::*;

verus! {

/// A `width` by `height` grid of pixels stored row-major.
pub struct Texture<T> {
    data: Vec<T>,
    width: usize,
    height: usize,
}

impl<T> View for Texture<T> {
    type V = Seq<T>;

    closed spec fn view(&self) -> Seq<T> {
        self.data@
    }
}

impl<T> Texture<T> {
    /// The stated width of the texture.
    pub closed spec fn spec_width(&self) -> usize {
        self.width
    }

    /// The stated height of the texture.
    pub closed spec fn spec_height(&self) -> usize {
        self.height
    }

    /// The store holds exactly one pixel per coordinate pair.
    pub open spec fn wf(&self) -> bool {
        self@.len() == self.spec_width() * self.spec_height()
    }

    /// Wraps a pixel store of exactly `width * height` entries.
    pub fn new(data: Vec<T>, width: usize, height: usize) -> (t: Texture<T>)
        requires
            data@.len() == width * height,
        ensures
            t.wf(),
            t@ == data@,
            t.spec_width() == width,
            t.spec_height() == height,
    {
        Texture { data, width, height }
    }

    /// The width of the texture.
    pub fn width(&self) -> (w: usize)
        ensures
            w == self.spec_width(),
    {
        self.width
    }

    /// The height of the texture.
    pub fn height(&self) -> (h: usize)
        ensures
            h == self.spec_height(),
    {
        self.height
    }

    /// The pixel at discrete coordinate `(x, y)`.
    pub fn at(&self, x: usize, y: usize) -> (v: &T)
        requires
            self.wf(),
            x < self.spec_width(),
            y < self.spec_height(),
        ensures
            *v == self@[x + y * self.spec_width()],
    {
        let n: usize = self.data.len();
        proof {
            let w = self.spec_width() as int;
            let h = self.spec_height() as int;
            assert(x + y * w < n) by (nonlinear_arith)
                requires
                    x < w,
                    y < h,
                    n == w * h,
            ;
        }
        &self.data[x + y * self.width]
    }
}

} // verus!
