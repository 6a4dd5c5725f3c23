//! The framebuffer: a grid of packed `0xRRGGBB` pixels, row-major.

use vstd::prelude::*;

verus! {

/// Largest framebuffer side length.
pub const FB_SIDE_MAX: usize = 4096;

pub struct Framebuffer {
    pub width: usize,
    pub height: usize,
    pub buffer: Vec<u32>,
}

/// A framebuffer the renderer accepts: non-empty bounded sides and one
/// cell per pixel.
pub open spec fn wf_framebuffer(fb: Framebuffer) -> bool {
    &&& 1 <= fb.width <= FB_SIDE_MAX
    &&& 1 <= fb.height <= FB_SIDE_MAX
    &&& fb.buffer@.len() == fb.width * fb.height
}

impl Framebuffer {
    /// A black framebuffer of the given size.
    pub fn new(width: usize, height: usize) -> (fb: Framebuffer)
        requires
            1 <= width <= FB_SIDE_MAX,
            1 <= height <= FB_SIDE_MAX,
        ensures
            fb.width == width,
            fb.height == height,
            wf_framebuffer(fb),
            forall|i: int| 0 <= i < fb.buffer@.len() ==> fb.buffer@[i] == 0u32,
    {
        proof {
            assert((width as int) * (height as int) <= 4096 * 4096
                && (width as int) * (height as int) >= 1) by (nonlinear_arith)
                requires 1 <= width as int <= 4096 && 1 <= height as int <= 4096;
        }
        let n: usize = width * height;
        let mut buffer: Vec<u32> = Vec::new();
        let mut i: usize = 0;
        while i < n
            invariant
                i <= n,
                buffer@.len() == i,
                forall|j: int| 0 <= j < i ==> buffer@[j] == 0u32,
            decreases n - i,
        {
            buffer.push(0);
            i = i + 1;
        }
        Framebuffer { width, height, buffer }
    }
}

} // verus!
