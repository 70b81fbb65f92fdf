pub mod arch;
pub mod drivers;
pub mod generic;
pub mod parsers;
pub mod vgatty;
