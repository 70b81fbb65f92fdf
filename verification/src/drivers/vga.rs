//! The first framebuffer driver: paints a test pattern.
use vstd::prelude::*;
use crate::drivers::framebuffer::Framebuffer;

verus! {

pub struct Vga {
    pub framebuffer: Framebuffer,
}

/// Pixel `i` of the test pattern: opaque blue, with red and green counting up
/// by one every pixel and wrapping every 65536 pixels.
pub open spec fn test_pattern(i: int) -> u32 {
    ((i % 0x1_0000) * 0x1_0000 + 0xFF) as u32
}

impl Vga {
    pub fn new(framebuffer: Framebuffer) -> (vga: Self)
        ensures
            vga.framebuffer == framebuffer,
    {
        Self { framebuffer }
    }

    /// Paints the test pattern over the whole framebuffer.
    pub fn init(&mut self)
        requires
            old(self).framebuffer.wf(),
        ensures
            final(self).framebuffer.wf(),
            final(self).framebuffer.width == old(self).framebuffer.width,
            final(self).framebuffer.height == old(self).framebuffer.height,
            final(self).framebuffer.pixels@ == Seq::new(
                old(self).framebuffer.pixels@.len(),
                |i: int| test_pattern(i),
            ),
    {
        let mut color: u32 = 0x000000;
        let len = self.framebuffer.pixels.len();
        let end: u64 = self.framebuffer.width * self.framebuffer.height;
        let mut i: u64 = 0;
        while i < end
            invariant
                self.framebuffer.wf(),
                self.framebuffer.width == old(self).framebuffer.width,
                self.framebuffer.height == old(self).framebuffer.height,
                end == len,
                len == self.framebuffer.pixels@.len(),
                i <= end,
                color == (i % 0x1_0000) * 0x1_0000,
                forall|k: int| 0 <= k < i ==> #[trigger] self.framebuffer.pixels@[k] == test_pattern(k),
            decreases end - i,
        {
            proof {
                assert(color | 0xFFu32 == (color + 0xFF) as u32) by (bit_vector)
                    requires
                        color % 0x1_0000 == 0,
                ;
            }
            self.framebuffer.pixels.set(i as usize, color | 0x000000FF);
            color = color.wrapping_add(0x00010000);
            i = i + 1;
        }
        assert(self.framebuffer.pixels@ =~= Seq::new(len as nat, |k: int| test_pattern(k)));
    }
}

} // verus!
