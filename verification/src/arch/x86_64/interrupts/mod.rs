pub mod ctx;
pub mod idt;
