pub mod interrupts;
pub mod logging;
pub mod memory;
