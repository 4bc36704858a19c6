//! A decoded animation frame: a full-canvas RGBA raster plus the time it
//! stays on screen.

use vstd::prelude::*;
use crate::pixel::Rgba;

verus! {

/// One decoded frame: `width * height` pixels in row-major order and the
/// display duration in nanoseconds.
pub struct Frame {
    pub width: usize,
    pub height: usize,
    pub pixels: Vec<Rgba>,
    pub delay_ns: i64,
}

impl Frame {
    /// A frame the decoders produce: the raster fills the declared size
    /// exactly and the delay is never negative.
    pub open spec fn wf(self) -> bool {
        &&& self.pixels@.len() == self.width * self.height
        &&& self.delay_ns >= 0
    }

    /// The pixel in column `x` of row `y`.
    pub fn pixel_at(&self, x: usize, y: usize) -> (r: Rgba)
        requires
            self.wf(),
            x < self.width,
            y < self.height,
        ensures
            r == self.pixels@[y * self.width + x],
    {
        let n: usize = self.pixels.len();
        proof {
            lemma_row_major_in_bounds(self.width as int, self.height as int, x as int, y as int);
        }
        assert(y * self.width + x < n);
        self.pixels[y * self.width + x]
    }
}

/// Row-major addressing stays inside a `width * height` buffer.
pub proof fn lemma_row_major_in_bounds(width: int, height: int, x: int, y: int)
    requires
        0 <= x < width,
        0 <= y < height,
    ensures
        0 <= y * width + x < width * height,
{
    assert(y * width + x < width * height) by (nonlinear_arith)
        requires
            0 <= x < width,
            0 <= y < height,
    ;
    assert(y * width >= 0) by (nonlinear_arith)
        requires
            0 <= y,
            0 < width,
    ;
}

} // verus!
