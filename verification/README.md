# krabos

The logic of the KrabOS x86_64 kernel as a Verus-verified library, with the
boot glue around it.

- `src/` — the verified library:
  - `arch::x86_64` — GDT segment descriptors and selectors, IDT gate
    descriptors and the kernel's IDT, CPUID feature flags, the interrupt
    register state and its text form.
  - `drivers` — a framebuffer model, the test-pattern driver and the PSF text
    console (glyph drawing, cursor movement, scrolling), the `Sink` trait.
  - `generic` — the logger, the interrupt entry point, the memory map listing
    and the page frame allocator.
  - `parsers::psf` — the PC Screen Font parser.
  - `vgatty` — the VGA text mode terminal.
- `app/` — the kernel binary: Limine requests, inline assembly (descriptor
  table loads, `cpuid`, port I/O, interrupt entry), copying the console and
  terminal buffers to the hardware, and the logging macros.
- `tests/` — tests of the library.
