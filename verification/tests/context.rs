use krabos::arch::x86_64::interrupts::ctx::{Context, Registers};
use krabos::drivers::framebuffer::Framebuffer;
use krabos::drivers::vga::Vga;
use krabos::generic::interrupts::handlers::handle_interrupt;

fn registers() -> Registers {
    Registers {
        r15: 15,
        r14: 14,
        r13: 13,
        r12: 12,
        r11: 0xFFFF_FFFF_FFFF_FFFF,
        r10: 10,
        r9: 9,
        r8: 8,
        rsi: 0x5151,
        rdi: 0xD1D1,
        rbp: 0xBEEF,
        rdx: 0xD,
        rcx: 0xC,
        rbx: 0xB,
        rax: 0x0123_4567_89AB_CDEF,
    }
}

#[test]
fn registers_text() {
    let text = registers().debug_string();
    assert_eq!(
        text,
        "RAX: 0123456789abcdef  RBX: 000000000000000b  RCX: 000000000000000c  RDX: 000000000000000d  RBP: 000000000000beef\n\
         RDI: 000000000000d1d1  RSI: 0000000000005151  R8:  0000000000000008  R9:  0000000000000009  R10: 000000000000000a\n\
         R11: ffffffffffffffff  R12: 000000000000000c  R13: 000000000000000d  R14: 000000000000000e  R15: 000000000000000f\n"
    );
}

#[test]
fn context_text() {
    let context = Context {
        isr_index: 14,
        registers: registers(),
        error_code: 2,
        eip: 0xFFFF_FFFF_8000_1234,
        cs: 8,
        eflags: 0x202,
    };
    assert_eq!(
        context.debug_string(),
        "EIP: ffffffff80001234  CS:  0000000000000008  EFLAGS: 0000000000000202\n"
    );
}

#[test]
fn interrupt_handler_leaves_context() {
    let mut context = Context {
        isr_index: 32,
        registers: registers(),
        error_code: 0,
        eip: 0x1000,
        cs: 8,
        eflags: 0x202,
    };
    handle_interrupt(&mut context);
    assert_eq!(context.isr_index, 32);
    assert_eq!(context.eip, 0x1000);
    assert_eq!(context.registers.rax, 0x0123_4567_89AB_CDEF);
}

#[test]
fn test_pattern() {
    let mut vga = Vga::new(Framebuffer::new(4, 2));
    vga.init();
    assert_eq!(
        vga.framebuffer.pixels,
        vec![0xFF, 0x1_00FF, 0x2_00FF, 0x3_00FF, 0x4_00FF, 0x5_00FF, 0x6_00FF, 0x7_00FF]
    );
    let mut wide = Vga::new(Framebuffer::new(0x1_0001, 1));
    wide.init();
    assert_eq!(wide.framebuffer.pixels[0xFFFF], 0xFFFF_00FF);
    assert_eq!(wide.framebuffer.pixels[0x1_0000], 0xFF);
}
