pub mod framebuffer;
pub mod logs;
pub mod vga;
