//! A linear 32-bit framebuffer, held as its pixels in row-major order.
use vstd::prelude::*;

verus! {

pub struct Framebuffer {
    pub width: u64,
    pub height: u64,
    pub pixels: Vec<u32>,
}

impl Framebuffer {
    /// One pixel per position of the `width` by `height` grid, and both
    /// dimensions addressable.
    pub open spec fn wf(&self) -> bool {
        &&& self.pixels@.len() == self.width * self.height
        &&& self.width <= usize::MAX
        &&& self.height <= usize::MAX
    }

    /// A framebuffer of the given size with every pixel 0.
    pub fn new(width: u64, height: u64) -> (fb: Framebuffer)
        requires
            width * height <= usize::MAX,
            width <= usize::MAX,
            height <= usize::MAX,
        ensures
            fb.wf(),
            fb.width == width,
            fb.height == height,
            forall|i: int| 0 <= i < fb.pixels@.len() ==> fb.pixels@[i] == 0,
    {
        let total: usize = (width as usize) * (height as usize);
        let mut pixels: Vec<u32> = Vec::new();
        while pixels.len() < total
            invariant
                pixels@.len() <= total,
                forall|i: int| 0 <= i < pixels@.len() ==> pixels@[i] == 0,
            decreases total - pixels@.len(),
        {
            pixels.push(0);
        }
        Framebuffer { width, height, pixels }
    }
}

} // verus!
